use vstd::prelude::*;

use crate::codes::{code_ok, is_generated_code, is_valid_url, request_valid, validate};
use crate::db::UrlDb;
use crate::error::AppError;
use crate::models::{
    bump, has_code, idx_of, new_mapping, opt_int, row_of, spec_expired, ttl_fits, ShortenRequest,
    ShortenResponse, UrlData,
};

verus! {

/// The expiration policy, applied to one mapping: expired at `now`
/// exactly when it carries an expiration time strictly in the past.
pub fn is_expired(m: &UrlData, now: i64) -> (r: bool)
    ensures
        r == spec_expired(m@, now as int),
{
    match m.expires_at {
        Some(t) => t < now,
        None => false,
    }
}

/// The full creation path: validate the request, allocate or accept the
/// code, insert the row, and answer with the code and the short URL
/// under the local base. A rejected request never touches the store.
pub fn shorten_url(db: &mut UrlDb, request: ShortenRequest, now: i64) -> (r: Result<
    ShortenResponse,
    AppError,
>)
    requires
        old(db).wf(),
        ttl_fits(request.ttl, now),
    ensures
        final(db).wf(),
        !request_valid(request) ==> (r matches Err(e) && e is ValidationError && final(db)@ == old(
            db,
        )@),
        !is_valid_url(request.url@) ==> (r matches Err(AppError::ValidationError(m)) && m@
            == "invalid url"@),
        is_valid_url(request.url@) && !code_ok(request.code) ==> (r matches Err(
            AppError::ValidationError(m),
        ) && m@ == "code too short"@),
        request_valid(request) ==> match r {
            Ok(resp) => {
                &&& match request.code {
                    Some(c) => resp.short_code@ == c@,
                    None => is_generated_code(resp.short_code@),
                }
                &&& resp.short_url@ == "http://localhost:3000/"@ + resp.short_code@
                &&& !has_code(old(db)@, resp.short_code@)
                &&& final(db)@ == old(db)@.push(
                    new_mapping(
                        resp.short_code@,
                        request.url@,
                        now as int,
                        opt_int(request.ttl),
                    ),
                )
            },
            Err(e) => {
                &&& e is CodeAlreadyExists
                &&& final(db)@ == old(db)@
                &&& (request.code matches Some(c) ==> has_code(old(db)@, c@))
            },
        },
        request_valid(request) && (request.code matches Some(c) && !has_code(old(db)@, c@))
            ==> r is Ok,
{
    if let Err(e) = validate(&request) {
        return Err(e);
    }
    match db.create_url(request, now) {
        Ok(code) => {
            let short_url = String::from_str("http://localhost:3000/").concat(code.as_str());
            Ok(ShortenResponse { short_code: code, short_url })
        },
        Err(e) => Err(e),
    }
}

/// Resolution: a missing or expired mapping answers `UrlNotFound` (the
/// two are indistinguishable to callers, by design); an expired row is
/// reclaimed on the way out; a live mapping has its visit counted and
/// its target returned.
pub fn redirect_url(db: &mut UrlDb, short_code: &String, now: i64) -> (r: Result<String, AppError>)
    requires
        old(db).wf(),
        has_code(old(db)@, short_code@) && !spec_expired(
            row_of(old(db)@, short_code@),
            now as int,
        ) ==> row_of(old(db)@, short_code@).visits < u64::MAX,
    ensures
        final(db).wf(),
        !has_code(old(db)@, short_code@) ==> (r matches Err(AppError::UrlNotFound) && final(db)@
            == old(db)@),
        has_code(old(db)@, short_code@) && spec_expired(row_of(old(db)@, short_code@), now as int)
            ==> (r matches Err(AppError::UrlNotFound) && final(db)@ == old(db)@.remove(
            idx_of(old(db)@, short_code@),
        )),
        has_code(old(db)@, short_code@) && !spec_expired(row_of(old(db)@, short_code@), now as int)
            ==> (r matches Ok(target) && target@ == row_of(old(db)@, short_code@).url && final(db)@
            == bump(old(db)@, short_code@)),
{
    match db.get_url(short_code) {
        Err(e) => Err(e),
        Ok(data) => {
            if is_expired(&data, now) {
                let _ = db.delete_url(short_code);
                Err(AppError::UrlNotFound)
            } else {
                let _ = db.increment_visits(short_code);
                Ok(data.original_url)
            }
        },
    }
}

/// Administrative delete: removes the row carrying `short_code`, and
/// fails with `UrlNotFound` when there was nothing to remove.
pub fn remove_url(db: &mut UrlDb, short_code: &String) -> (r: Result<(), AppError>)
    requires
        old(db).wf(),
    ensures
        final(db).wf(),
        has_code(old(db)@, short_code@) ==> (r is Ok && final(db)@ == old(db)@.remove(
            idx_of(old(db)@, short_code@),
        )),
        !has_code(old(db)@, short_code@) ==> (r matches Err(AppError::UrlNotFound) && final(db)@
            == old(db)@),
{
    match db.delete_url(short_code) {
        Ok(true) => Ok(()),
        Ok(false) => Err(AppError::UrlNotFound),
        Err(e) => Err(e),
    }
}

} // verus!
