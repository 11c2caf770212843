use vstd::prelude::*;

use crate::error::AppError;
use crate::models::ShortenRequest;

verus! {

/// The number of characters of a generated short code.
pub const GENERATED_CODE_LEN: usize = 6;

/// The URL-safe alphabet generated codes are drawn from: ASCII letters,
/// digits, underscore and hyphen.
pub open spec fn is_url_safe_char(c: char) -> bool {
    (97 <= c as u32 && c as u32 <= 122)  // lower-case letters
    || (65 <= c as u32 && c as u32 <= 90)  // upper-case letters
    || (48 <= c as u32 && c as u32 <= 57)  // digits
    || c == '_' || c == '-'
}

/// A well-formed generated code: exactly six characters, all of them
/// from the URL-safe alphabet.
pub open spec fn is_generated_code(s: Seq<char>) -> bool {
    s.len() == GENERATED_CODE_LEN && forall|i: int|
        0 <= i < s.len() ==> is_url_safe_char(#[trigger] s[i])
}

/// A well-formed absolute URL, as the URL parser behind the validation
/// crate accepts it.
pub uninterp spec fn is_valid_url(s: Seq<char>) -> bool;

/// Relies on validator's `ValidateUrl` impl for `str`, which accepts `s`
/// exactly when `url::Url::parse` does; the verdict depends on the
/// characters of `s` alone.
#[verifier::external_body]
fn check_url(s: &str) -> (r: bool)
    ensures
        r == is_valid_url(s@),
{
    validator::ValidateUrl::validate_url(&s)
}

/// Relies on nanoid's `format` over its URL-safe alphabet and default
/// random source: every outcome has exactly the requested number of
/// characters, each drawn from that alphabet.
#[verifier::external_body]
fn generate_code() -> (r: String)
    ensures
        is_generated_code(r@),
{
    nanoid::format(nanoid::rngs::default, &nanoid::alphabet::SAFE, GENERATED_CODE_LEN)
}

/// A caller-supplied code meets the length rule: at least six characters.
pub open spec fn code_ok(code: Option<String>) -> bool {
    match code {
        Some(c) => c@.len() >= 6,
        None => true,
    }
}

/// A structurally correct creation request: the target parses as an
/// absolute URL, and a supplied code is long enough.
pub open spec fn request_valid(request: ShortenRequest) -> bool {
    is_valid_url(request.url@) && code_ok(request.code)
}

/// Checks a creation request before it reaches storage. Pure: a function
/// of the request alone, with no side effects. The URL is checked first;
/// a supplied code must have at least six characters.
pub fn validate(request: &ShortenRequest) -> (r: Result<(), AppError>)
    ensures
        r is Ok <==> request_valid(*request),
        !is_valid_url(request.url@) ==> (r matches Err(AppError::ValidationError(m)) && m@
            == "invalid url"@),
        is_valid_url(request.url@) && !code_ok(request.code) ==> (r matches Err(
            AppError::ValidationError(m),
        ) && m@ == "code too short"@),
{
    if !check_url(request.url.as_str()) {
        return Err(AppError::ValidationError(String::from_str("invalid url")));
    }
    match &request.code {
        Some(c) => {
            if c.as_str().unicode_len() < 6 {
                Err(AppError::ValidationError(String::from_str("code too short")))
            } else {
                Ok(())
            }
        },
        None => Ok(()),
    }
}

/// Either the caller's code verbatim, or a freshly generated one. No
/// uniqueness check happens here: the store enforces uniqueness at
/// insertion time.
pub fn allocate(code: Option<String>) -> (r: String)
    ensures
        match code {
            Some(c) => r@ == c@,
            None => is_generated_code(r@),
        },
{
    match code {
        Some(c) => c,
        None => generate_code(),
    }
}

} // verus!
