use vstd::prelude::*;

verus! {

/// A stored short-code-to-URL mapping: the sole persisted entity.
pub struct UrlData {
    /// Unique identifier of the mapping; primary key of the store.
    pub short_code: String,
    /// The redirect target.
    pub original_url: String,
    /// Creation time, set once and never changed.
    pub created_at: i64,
    /// Optional expiration time; `None` means the mapping never expires.
    pub expires_at: Option<i64>,
    /// How many successful resolutions this mapping has served.
    pub visits: u64,
}

/// Mathematical model of a mapping: character sequences and unbounded
/// integers in place of the executable types.
#[verifier::ext_equal]
pub struct MappingView {
    pub code: Seq<char>,
    pub url: Seq<char>,
    pub created_at: int,
    pub expires_at: Option<int>,
    pub visits: int,
}

impl View for UrlData {
    type V = MappingView;

    open spec fn view(&self) -> MappingView {
        MappingView {
            code: self.short_code@,
            url: self.original_url@,
            created_at: self.created_at as int,
            expires_at: match self.expires_at {
                Some(t) => Some(t as int),
                None => None,
            },
            visits: self.visits as int,
        }
    }
}

impl UrlData {
    /// An owned copy, equal to `self` in every field.
    pub fn duplicate(&self) -> (r: UrlData)
        ensures
            r == *self,
    {
        UrlData {
            short_code: self.short_code.clone(),
            original_url: self.original_url.clone(),
            created_at: self.created_at,
            expires_at: self.expires_at,
            visits: self.visits,
        }
    }
}

/// A creation request: target URL, optional caller-chosen code, optional
/// time-to-live in seconds.
pub struct ShortenRequest {
    pub url: String,
    pub code: Option<String>,
    pub ttl: Option<i64>,
}

/// What a successful creation returns: the code and the full short URL.
pub struct ShortenResponse {
    pub short_code: String,
    pub short_url: String,
}

/// An optional machine integer, seen as an optional mathematical one.
pub open spec fn opt_int(t: Option<i64>) -> Option<int> {
    match t {
        Some(x) => Some(x as int),
        None => None,
    }
}

/// Does some row of `s` carry the code `code`?
pub open spec fn has_code(s: Seq<MappingView>, code: Seq<char>) -> bool {
    exists|i: int| 0 <= i < s.len() && (#[trigger] s[i]).code == code
}

/// The index of the row carrying `code`; meaningful only under
/// `codes_unique` and `has_code`.
pub open spec fn idx_of(s: Seq<MappingView>, code: Seq<char>) -> int {
    choose|i: int| 0 <= i < s.len() && (#[trigger] s[i]).code == code
}

/// No two rows share a short code.
pub open spec fn codes_unique(s: Seq<MappingView>) -> bool {
    forall|i: int, j: int|
        0 <= i < s.len() && 0 <= j < s.len() && i != j ==> (#[trigger] s[i]).code != (
        #[trigger] s[j]).code
}

/// The expiration policy: a mapping is expired at `now` exactly when it
/// carries an expiration time and that time lies strictly in the past.
/// A mapping without an expiration time is never expired.
pub open spec fn spec_expired(m: MappingView, now: int) -> bool {
    match m.expires_at {
        Some(t) => t < now,
        None => false,
    }
}

/// The row after one counted visit: only `visits` changes, by exactly one.
pub open spec fn bumped_row(m: MappingView) -> MappingView {
    MappingView { visits: m.visits + 1, ..m }
}

/// The store contents after one counted visit on the row carrying `code`.
pub open spec fn bump(s: Seq<MappingView>, code: Seq<char>) -> Seq<MappingView> {
    s.update(idx_of(s, code), bumped_row(s[idx_of(s, code)]))
}

/// The mapping a creation request gives rise to: visits start at zero,
/// and a time-to-live turns into an expiration time past `now`.
pub open spec fn new_mapping(code: Seq<char>, url: Seq<char>, now: int, ttl: Option<int>) -> MappingView {
    MappingView {
        code: code,
        url: url,
        created_at: now,
        expires_at: match ttl {
            Some(t) => Some(now + t),
            None => None,
        },
        visits: 0,
    }
}

/// The models of a sequence of rows, in order.
pub open spec fn views_of(s: Seq<UrlData>) -> Seq<MappingView> {
    s.map_values(|u: UrlData| u@)
}

/// The row of `s` carrying `code`; meaningful only under `codes_unique`
/// and `has_code`.
pub open spec fn row_of(s: Seq<MappingView>, code: Seq<char>) -> MappingView {
    s[idx_of(s, code)]
}

/// A time-to-live whose end fits the machine's clock type.
pub open spec fn ttl_fits(ttl: Option<i64>, now: i64) -> bool {
    match ttl {
        Some(t) => i64::MIN <= now + t <= i64::MAX,
        None => true,
    }
}

/// Appending a row appends its model.
pub proof fn lemma_views_of_push(s: Seq<UrlData>, u: UrlData)
    ensures
        views_of(s.push(u)) == views_of(s).push(u@),
{
    assert(views_of(s.push(u)) =~= views_of(s).push(u@));
}

/// Removing a row removes its model.
pub proof fn lemma_views_of_remove(s: Seq<UrlData>, at: int)
    requires
        0 <= at < s.len(),
    ensures
        views_of(s.remove(at)) == views_of(s).remove(at),
{
    s.remove_ensures(at);
    views_of(s).remove_ensures(at);
    assert(views_of(s.remove(at)) =~= views_of(s).remove(at));
}

/// Replacing a row replaces its model.
pub proof fn lemma_views_of_update(s: Seq<UrlData>, at: int, u: UrlData)
    requires
        0 <= at < s.len(),
    ensures
        views_of(s.update(at, u)) == views_of(s).update(at, u@),
{
    assert(views_of(s.update(at, u)) =~= views_of(s).update(at, u@));
}

/// A fresh code keeps the codes unique.
pub proof fn lemma_unique_push(s: Seq<MappingView>, m: MappingView)
    requires
        codes_unique(s),
        !has_code(s, m.code),
    ensures
        codes_unique(s.push(m)),
{
    let t = s.push(m);
    assert forall|i: int, j: int|
        0 <= i < t.len() && 0 <= j < t.len() && i != j implies (#[trigger] t[i]).code != (
    #[trigger] t[j]).code by {
        if i < s.len() && j < s.len() {
            assert(t[i] == s[i] && t[j] == s[j]);
        } else if i == s.len() {
            assert(t[i] == m && t[j] == s[j]);
            if s[j].code == m.code {
                assert(has_code(s, m.code));
            }
        } else {
            assert(t[j] == m && t[i] == s[i]);
            if s[i].code == m.code {
                assert(has_code(s, m.code));
            }
        }
    };
}

/// Removing a row keeps the codes unique.
pub proof fn lemma_unique_remove(s: Seq<MappingView>, at: int)
    requires
        codes_unique(s),
        0 <= at < s.len(),
    ensures
        codes_unique(s.remove(at)),
{
    s.remove_ensures(at);
    let t = s.remove(at);
    assert forall|i: int, j: int|
        0 <= i < t.len() && 0 <= j < t.len() && i != j implies (#[trigger] t[i]).code != (
    #[trigger] t[j]).code by {
        let si: int = if i < at {
            i
        } else {
            i + 1
        };
        let sj: int = if j < at {
            j
        } else {
            j + 1
        };
        assert(t[i] == s[si] && t[j] == s[sj]);
    };
}

/// Replacing a row by one with the same code keeps the codes unique.
pub proof fn lemma_unique_update(s: Seq<MappingView>, at: int, m: MappingView)
    requires
        codes_unique(s),
        0 <= at < s.len(),
        m.code == s[at].code,
    ensures
        codes_unique(s.update(at, m)),
{
    let t = s.update(at, m);
    assert forall|i: int, j: int|
        0 <= i < t.len() && 0 <= j < t.len() && i != j implies (#[trigger] t[i]).code != (
    #[trigger] t[j]).code by {
        assert(t[i] == if i == at { m } else { s[i] });
        assert(t[j] == if j == at { m } else { s[j] });
    };
}

/// Under unique codes, `idx_of` names the one row carrying `code`.
pub proof fn lemma_idx_of(s: Seq<MappingView>, code: Seq<char>)
    requires
        codes_unique(s),
        has_code(s, code),
    ensures
        0 <= idx_of(s, code) < s.len(),
        s[idx_of(s, code)].code == code,
        forall|i: int| 0 <= i < s.len() && (#[trigger] s[i]).code == code ==> i == idx_of(s, code),
{
    let k = idx_of(s, code);
    assert(0 <= k < s.len() && s[k].code == code);
}

} // verus!
