use vstd::prelude::*;

use crate::codes::{allocate, is_generated_code};
use crate::error::AppError;
use crate::models::{
    bump, bumped_row, codes_unique, has_code, idx_of, lemma_idx_of, lemma_unique_push,
    lemma_unique_remove, lemma_unique_update, lemma_views_of_push, lemma_views_of_remove,
    lemma_views_of_update, new_mapping, opt_int, row_of, ttl_fits, views_of, MappingView,
    ShortenRequest, UrlData,
};

verus! {

/// The mapping store: rows keyed by short code, held in insertion order,
/// with the uniqueness constraint as its invariant. The model of the
/// store is the sequence of row models.
pub struct UrlDb {
    urls: Vec<UrlData>,
}

impl View for UrlDb {
    type V = Seq<MappingView>;

    closed spec fn view(&self) -> Seq<MappingView> {
        views_of(self.urls@)
    }
}

impl UrlDb {
    /// The store's invariant: no two rows share a short code.
    pub open spec fn wf(&self) -> bool {
        codes_unique(self@)
    }

    /// A fresh, empty store.
    pub fn new() -> (db: Self)
        ensures
            db@ == Seq::<MappingView>::empty(),
            db.wf(),
    {
        let db = UrlDb { urls: Vec::new() };
        proof {
            assert(db@ =~= Seq::<MappingView>::empty());
        }
        db
    }

    /// The position of the row carrying `code`, if any.
    fn find(&self, code: &String) -> (r: Option<usize>)
        requires
            self.wf(),
        ensures
            match r {
                Some(i) => has_code(self@, code@) && i == idx_of(self@, code@) && i < self@.len(),
                None => !has_code(self@, code@),
            },
    {
        let n = self.urls.len();
        let mut i: usize = 0;
        while i < n
            invariant
                n == self.urls@.len(),
                i <= n,
                self.wf(),
                forall|j: int| 0 <= j < i ==> (#[trigger] self@[j]).code != code@,
            decreases n - i,
        {
            if self.urls[i].short_code == *code {
                proof {
                    assert(self@[i as int].code == code@);
                    assert(has_code(self@, code@));
                    lemma_idx_of(self@, code@);
                }
                return Some(i);
            }
            proof {
                assert(self@[i as int].code != code@);
            }
            i += 1;
        }
        None
    }

    /// Atomic create: allocates or accepts the code, derives the
    /// expiration time from the time-to-live, and inserts the row —
    /// unless the code is already taken, in which case nothing changes
    /// and `CodeAlreadyExists` comes back.
    pub fn create_url(&mut self, request: ShortenRequest, now: i64) -> (r: Result<String, AppError>)
        requires
            old(self).wf(),
            ttl_fits(request.ttl, now),
        ensures
            final(self).wf(),
            match r {
                Ok(code) => {
                    &&& match request.code {
                        Some(c) => code@ == c@,
                        None => is_generated_code(code@),
                    }
                    &&& !has_code(old(self)@, code@)
                    &&& final(self)@ == old(self)@.push(
                        new_mapping(code@, request.url@, now as int, opt_int(request.ttl)),
                    )
                    &&& has_code(final(self)@, code@)
                    &&& idx_of(final(self)@, code@) == old(self)@.len()
                    &&& row_of(final(self)@, code@) == new_mapping(
                        code@,
                        request.url@,
                        now as int,
                        opt_int(request.ttl),
                    )
                },
                Err(e) => {
                    &&& e is CodeAlreadyExists
                    &&& final(self)@ == old(self)@
                    &&& (request.code matches Some(c) ==> has_code(old(self)@, c@))
                },
            },
            request.code matches Some(c) && !has_code(old(self)@, c@) ==> r is Ok,
            request.code matches Some(c) && has_code(old(self)@, c@) ==> r is Err,
    {
        let ShortenRequest { url, code, ttl } = request;
        let short_code = allocate(code);
        let expires_at = match ttl {
            Some(t) => Some(now + t),
            None => None,
        };
        match self.find(&short_code) {
            Some(_) => Err(AppError::CodeAlreadyExists),
            None => {
                let row = UrlData {
                    short_code: short_code.clone(),
                    original_url: url,
                    created_at: now,
                    expires_at,
                    visits: 0,
                };
                proof {
                    lemma_views_of_push(self.urls@, row);
                    lemma_unique_push(self@, row@);
                }
                let ghost pre = self@;
                self.urls.push(row);
                proof {
                    assert(self@[pre.len() as int].code == short_code@);
                    assert(has_code(self@, short_code@));
                    lemma_idx_of(self@, short_code@);
                }
                Ok(short_code)
            },
        }
    }

    /// Point read by primary key; no expiration check, no side effect.
    pub fn get_url(&self, short_code: &String) -> (r: Result<UrlData, AppError>)
        requires
            self.wf(),
        ensures
            match r {
                Ok(m) => has_code(self@, short_code@) && m@ == row_of(self@, short_code@),
                Err(e) => !has_code(self@, short_code@) && e is UrlNotFound,
            },
    {
        match self.find(short_code) {
            Some(i) => Ok(self.urls[i].duplicate()),
            None => Err(AppError::UrlNotFound),
        }
    }

    /// Every stored row, in insertion order.
    pub fn list_urls(&self) -> (r: Result<Vec<UrlData>, AppError>)
        ensures
            r matches Ok(v) && views_of(v@) == self@,
    {
        let n = self.urls.len();
        let mut out: Vec<UrlData> = Vec::new();
        let mut i: usize = 0;
        while i < n
            invariant
                n == self.urls@.len(),
                i <= n,
                out@.len() == i,
                forall|j: int| 0 <= j < i ==> out@[j] == self.urls@[j],
            decreases n - i,
        {
            out.push(self.urls[i].duplicate());
            i += 1;
        }
        proof {
            assert(views_of(out@) =~= self@);
        }
        Ok(out)
    }

    /// Removes the row carrying `short_code` if present; returns whether
    /// a row was actually removed. Deleting an absent code is not an
    /// error: it reports `false`.
    pub fn delete_url(&mut self, short_code: &String) -> (r: Result<bool, AppError>)
        requires
            old(self).wf(),
        ensures
            final(self).wf(),
            match r {
                Ok(removed) => {
                    if removed {
                        has_code(old(self)@, short_code@) && final(self)@ == old(self)@.remove(
                            idx_of(old(self)@, short_code@),
                        )
                    } else {
                        !has_code(old(self)@, short_code@) && final(self)@ == old(self)@
                    }
                },
                Err(_) => false,
            },
    {
        match self.find(short_code) {
            Some(i) => {
                proof {
                    lemma_views_of_remove(self.urls@, i as int);
                    lemma_unique_remove(self@, i as int);
                }
                self.urls.remove(i);
                Ok(true)
            },
            None => Ok(false),
        }
    }

    /// Counts one visit on the row carrying `short_code`: an atomic
    /// update-in-place of the counter, by exactly one. An absent code is
    /// left alone, without error.
    pub fn increment_visits(&mut self, short_code: &String) -> (r: Result<(), AppError>)
        requires
            old(self).wf(),
            has_code(old(self)@, short_code@) ==> row_of(old(self)@, short_code@).visits
                < u64::MAX,
        ensures
            final(self).wf(),
            r is Ok,
            has_code(old(self)@, short_code@) ==> final(self)@ == bump(old(self)@, short_code@),
            !has_code(old(self)@, short_code@) ==> final(self)@ == old(self)@,
    {
        match self.find(short_code) {
            Some(i) => {
                proof {
                    lemma_idx_of(self@, short_code@);
                    assert(self@[i as int].visits < u64::MAX);
                }
                let ghost pre = self.urls@;
                let row = &mut self.urls[i];
                row.visits = row.visits + 1;
                proof {
                    lemma_views_of_update(pre, i as int, self.urls@[i as int]);
                    lemma_unique_update(views_of(pre), i as int, self.urls@[i as int]@);
                    assert(self.urls@[i as int]@ == bumped_row(views_of(pre)[i as int]));
                }
                Ok(())
            },
            None => Ok(()),
        }
    }
}

} // verus!
