use vstd::prelude::*;

use crate::models::{
    bump, bumped_row, codes_unique, has_code, idx_of, lemma_idx_of, lemma_unique_update,
    new_mapping, row_of, spec_expired, MappingView,
};

verus! {

/// Law: creating two mappings with the same explicit code lets exactly
/// one through. After the first create inserts a row carrying `m.code`,
/// that code is present in the store, and by `UrlDb::create_url`'s
/// contract any later create with the same explicit code must answer
/// `CodeAlreadyExists` and leave the store unchanged.
pub proof fn lemma_create_excludes_duplicate(s: Seq<MappingView>, m: MappingView)
    ensures
        has_code(s.push(m), m.code),
{
    assert(s.push(m)[s.len() as int] == m);
}

/// Law: a mapping without an expiration time is never expired, whatever
/// time has elapsed. With `redirect_url`'s contract, resolving such a
/// mapping can therefore never fail on account of time.
pub proof fn lemma_no_ttl_never_expires(m: MappingView, now: int)
    requires
        m.expires_at is None,
    ensures
        !spec_expired(m, now),
{
}

/// Law: once the row carrying `code` has been removed — by an
/// administrative delete, or by the lazy reclamation of an expired row —
/// the code is gone from the store, so lookups, stats, listings and
/// resolutions of it all report it absent.
pub proof fn lemma_removed_code_gone(s: Seq<MappingView>, code: Seq<char>)
    requires
        codes_unique(s),
        has_code(s, code),
    ensures
        !has_code(s.remove(idx_of(s, code)), code),
{
    lemma_idx_of(s, code);
    let at = idx_of(s, code);
    s.remove_ensures(at);
    let t = s.remove(at);
    assert forall|i: int| 0 <= i < t.len() implies (#[trigger] t[i]).code != code by {
        if i < at {
            assert(t[i] == s[i]);
        } else {
            assert(t[i] == s[i + 1]);
        }
    };
}

/// Law: a creation with a positive time-to-live yields an expiration
/// strictly after the creation time, so the new mapping is live at the
/// moment it is created.
pub proof fn lemma_positive_ttl_expires_later(code: Seq<char>, url: Seq<char>, now: int, t: int)
    requires
        t > 0,
    ensures
        new_mapping(code, url, now, Some(t)).expires_at == Some(now + t),
        !spec_expired(new_mapping(code, url, now, Some(t)), now),
{
}

/// The store after `n` further counted visits on the row carrying
/// `code`, each as `UrlDb::increment_visits` performs it.
pub open spec fn after_visits(s: Seq<MappingView>, code: Seq<char>, n: nat) -> Seq<MappingView>
    decreases n,
{
    if n == 0 {
        s
    } else {
        bump(after_visits(s, code, (n - 1) as nat), code)
    }
}

/// One counted visit raises the live row's counter by exactly one and
/// touches nothing else: neither its identity, target and times, nor any
/// other row, nor the uniqueness of the codes.
pub proof fn lemma_bump(s: Seq<MappingView>, code: Seq<char>)
    requires
        codes_unique(s),
        has_code(s, code),
    ensures
        codes_unique(bump(s, code)),
        has_code(bump(s, code), code),
        bump(s, code).len() == s.len(),
        idx_of(bump(s, code), code) == idx_of(s, code),
        row_of(bump(s, code), code) == bumped_row(row_of(s, code)),
        forall|i: int|
            0 <= i < s.len() && i != idx_of(s, code) ==> #[trigger] bump(s, code)[i] == s[i],
{
    lemma_idx_of(s, code);
    let at = idx_of(s, code);
    let t = bump(s, code);
    lemma_unique_update(s, at, bumped_row(s[at]));
    assert(t[at].code == code);
    assert(has_code(t, code));
    lemma_idx_of(t, code);
}

/// Law: visits accumulate without loss. Starting from any store holding
/// a row for `code`, `n` counted visits raise that row's counter by
/// exactly `n`, keep its code, target and times, and leave every other
/// row untouched.
pub proof fn lemma_visits_accumulate(s: Seq<MappingView>, code: Seq<char>, n: nat)
    requires
        codes_unique(s),
        has_code(s, code),
    ensures
        codes_unique(after_visits(s, code, n)),
        has_code(after_visits(s, code, n), code),
        after_visits(s, code, n).len() == s.len(),
        idx_of(after_visits(s, code, n), code) == idx_of(s, code),
        row_of(after_visits(s, code, n), code).visits == row_of(s, code).visits + n,
        row_of(after_visits(s, code, n), code).code == row_of(s, code).code,
        row_of(after_visits(s, code, n), code).url == row_of(s, code).url,
        row_of(after_visits(s, code, n), code).created_at == row_of(s, code).created_at,
        row_of(after_visits(s, code, n), code).expires_at == row_of(s, code).expires_at,
        forall|i: int|
            0 <= i < s.len() && i != idx_of(s, code) ==> #[trigger] after_visits(s, code, n)[i]
                == s[i],
    decreases n,
{
    lemma_idx_of(s, code);
    if n == 0 {
    } else {
        lemma_visits_accumulate(s, code, (n - 1) as nat);
        lemma_bump(after_visits(s, code, (n - 1) as nat), code);
    }
}

} // verus!
