use vstd::prelude::*;

verus! {

/// The failure taxonomy of the service. All failures are typed results
/// returned to the caller, never silent.
#[derive(Debug)]
pub enum AppError {
    /// Uniqueness violation on create: the short code is already taken.
    CodeAlreadyExists,
    /// The code resolves to nothing: the row is missing or expired
    /// (deliberately indistinguishable to callers).
    UrlNotFound,
    /// Malformed input; raised before storage is touched.
    ValidationError(String),
    /// Any other backend failure.
    DatabaseError(String),
}

/// Does `needle` occur in `haystack` as a contiguous run of characters?
pub open spec fn contains_seq(haystack: Seq<char>, needle: Seq<char>) -> bool {
    exists|i: int|
        0 <= i && i + needle.len() <= haystack.len() && #[trigger] haystack.subrange(
            i,
            i + needle.len(),
        ) == needle
}

/// Does `needle` occur at position `at` of `haystack`?
fn matches_at(haystack: &str, needle: &str, at: usize) -> (r: bool)
    requires
        at + needle@.len() <= haystack@.len(),
    ensures
        r == (haystack@.subrange(at as int, at + needle@.len()) == needle@),
{
    let h_len: usize = haystack.unicode_len();
    let n_len: usize = needle.unicode_len();
    let mut j: usize = 0;
    while j < n_len
        invariant
            at + n_len <= h_len,
            h_len == haystack@.len(),
            n_len == needle@.len(),
            j <= n_len,
            forall|k: int| 0 <= k < j ==> haystack@[at + k] == needle@[k],
        decreases n_len - j,
    {
        if haystack.get_char(at + j) != needle.get_char(j) {
            proof {
                assert(haystack@.subrange(at as int, at + needle@.len())[j as int] == haystack@[at
                    + j]);
            }
            return false;
        }
        j += 1;
    }
    proof {
        assert(haystack@.subrange(at as int, at + needle@.len()) =~= needle@);
    }
    true
}

/// Whether `needle` occurs anywhere in `haystack`.
pub fn contains_str(haystack: &str, needle: &str) -> (r: bool)
    ensures
        r == contains_seq(haystack@, needle@),
{
    let h_len: usize = haystack.unicode_len();
    let n_len: usize = needle.unicode_len();
    if n_len > h_len {
        return false;
    }
    if n_len == 0 {
        proof {
            assert(haystack@.subrange(0, 0 + needle@.len() as int) =~= needle@);
        }
        return true;
    }
    let mut i: usize = 0;
    while i <= h_len - n_len
        invariant
            1 <= n_len <= h_len,
            h_len == haystack@.len(),
            n_len == needle@.len(),
            i <= h_len - n_len + 1,
            forall|j: int|
                0 <= j < i ==> #[trigger] haystack@.subrange(j, j + needle@.len()) != needle@,
        decreases h_len - n_len + 1 - i,
    {
        if matches_at(haystack, needle, i) {
            return true;
        }
        i += 1;
    }
    false
}

/// The fragment by which the backing store reports a violation of the
/// uniqueness constraint on short codes.
pub open spec fn duplicate_marker() -> Seq<char> {
    "UNIQUE constraint failed: urls.short_code"@
}

/// Sorts a backend failure by its message: a violation of the short-code
/// uniqueness constraint is a `CodeAlreadyExists`, anything else a
/// `DatabaseError` carrying the message unchanged.
pub fn classify_database_error(message: String) -> (r: AppError)
    ensures
        contains_seq(message@, duplicate_marker()) ==> r is CodeAlreadyExists,
        !contains_seq(message@, duplicate_marker()) ==> (r matches AppError::DatabaseError(m)
            && m@ == message@),
{
    if contains_str(message.as_str(), "UNIQUE constraint failed: urls.short_code") {
        AppError::CodeAlreadyExists
    } else {
        AppError::DatabaseError(message)
    }
}

impl AppError {
    /// The HTTP status code this failure is reported under.
    pub fn status_code(&self) -> (r: u16)
        ensures
            self is CodeAlreadyExists ==> r == 409,
            self is ValidationError ==> r == 400,
            self is UrlNotFound ==> r == 404,
            self is DatabaseError ==> r == 500,
    {
        match self {
            AppError::CodeAlreadyExists => 409,
            AppError::ValidationError(_) => 400,
            AppError::UrlNotFound => 404,
            AppError::DatabaseError(_) => 500,
        }
    }

    /// The user-facing message this failure is reported with.
    pub fn message(&self) -> (r: String)
        ensures
            self is CodeAlreadyExists ==> r@ == "The short_code already taken"@,
            self matches AppError::ValidationError(e) ==> r@ == "Validation Error: "@ + e@,
            self is UrlNotFound ==> r@ == "Url expired or does not exists"@,
            self matches AppError::DatabaseError(e) ==> r@ == "Database Error: "@ + e@,
    {
        match self {
            AppError::CodeAlreadyExists => String::from_str("The short_code already taken"),
            AppError::ValidationError(e) => String::from_str("Validation Error: ").concat(
                e.as_str(),
            ),
            AppError::UrlNotFound => String::from_str("Url expired or does not exists"),
            AppError::DatabaseError(e) => String::from_str("Database Error: ").concat(e.as_str()),
        }
    }
}

} // verus!
