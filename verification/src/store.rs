//! The mapping store: code-to-URL persistence with a uniqueness invariant
//! on codes. Mappings are created once, never mutated and never deleted.

use vstd::prelude::*;
use crate::errors::ErrorKind;

verus! {

/// The sole persistent entity: one short code bound to one target URL.
pub struct Mapping {
    pub code: String,
    pub target_url: String,
}

/// In-memory mapping store. Its abstract value (`self@`) is the map from
/// code to target URL; `wf()` is the uniqueness invariant on codes.
pub struct MemStore {
    rows: Vec<Mapping>,
}

/// No two rows carry the same code.
spec fn codes_unique(s: Seq<Mapping>) -> bool {
    forall|i: int, j: int| 0 <= i < j < s.len() ==> s[i].code@ != s[j].code@
}

/// Every row's target URL is non-empty.
spec fn targets_nonempty(s: Seq<Mapping>) -> bool {
    forall|i: int| 0 <= i < s.len() ==> s[i].target_url@.len() > 0
}

/// The map a row sequence denotes: later rows win, which is irrelevant
/// under `codes_unique`.
spec fn rows_model(s: Seq<Mapping>) -> Map<Seq<char>, Seq<char>>
    decreases s.len(),
{
    if s.len() == 0 {
        Map::empty()
    } else {
        rows_model(s.drop_last()).insert(s.last().code@, s.last().target_url@)
    }
}

impl View for MemStore {
    type V = Map<Seq<char>, Seq<char>>;

    closed spec fn view(&self) -> Map<Seq<char>, Seq<char>> {
        rows_model(self.rows@)
    }
}

/// A code is in the model exactly when some row carries it.
proof fn lemma_model_contains(s: Seq<Mapping>, c: Seq<char>)
    ensures
        rows_model(s).dom().contains(c) <==> exists|i: int| 0 <= i < s.len() && s[i].code@ == c,
    decreases s.len(),
{
    if s.len() > 0 {
        lemma_model_contains(s.drop_last(), c);
        if rows_model(s).dom().contains(c) {
            if s.last().code@ == c {
                assert(s[s.len() - 1].code@ == c);
            } else {
                let i = choose|i: int| 0 <= i < s.drop_last().len() && s.drop_last()[i].code@ == c;
                assert(s[i].code@ == c);
            }
        }
        if exists|i: int| 0 <= i < s.len() && s[i].code@ == c {
            let i = choose|i: int| 0 <= i < s.len() && s[i].code@ == c;
            if i < s.len() - 1 {
                assert(s.drop_last()[i].code@ == c);
            }
        }
    }
}

/// Under uniqueness, each row's code maps to that row's target URL.
proof fn lemma_model_value(s: Seq<Mapping>, i: int)
    requires
        codes_unique(s),
        0 <= i < s.len(),
    ensures
        rows_model(s).dom().contains(s[i].code@),
        rows_model(s)[s[i].code@] == s[i].target_url@,
    decreases s.len(),
{
    lemma_model_contains(s, s[i].code@);
    if i < s.len() - 1 {
        assert(s.drop_last()[i] == s[i]);
        lemma_model_value(s.drop_last(), i);
        assert(s[i].code@ != s.last().code@);
    }
}

/// The model's domain is finite.
proof fn lemma_model_finite(s: Seq<Mapping>)
    ensures
        rows_model(s).dom().finite(),
    decreases s.len(),
{
    if s.len() > 0 {
        lemma_model_finite(s.drop_last());
    }
}

/// Under uniqueness, the model has exactly one key per row.
proof fn lemma_model_len(s: Seq<Mapping>)
    requires
        codes_unique(s),
    ensures
        rows_model(s).dom().len() == s.len(),
    decreases s.len(),
{
    if s.len() > 0 {
        lemma_model_len(s.drop_last());
        lemma_model_finite(s.drop_last());
        lemma_model_contains(s.drop_last(), s.last().code@);
        assert(forall|i: int| 0 <= i < s.drop_last().len() ==> s.drop_last()[i] == s[i]);
        assert(!rows_model(s.drop_last()).dom().contains(s.last().code@));
    }
}

/// Appending a row inserts its pair into the model.
proof fn lemma_model_push(s: Seq<Mapping>, m: Mapping)
    ensures
        rows_model(s.push(m)) == rows_model(s).insert(m.code@, m.target_url@),
{
    assert(s.push(m).drop_last() =~= s);
    assert(s.push(m).last() == m);
}

impl MemStore {
    /// The store's invariant: all codes are unique, and every stored
    /// target URL is non-empty (it was validated before it was persisted).
    pub closed spec fn wf(&self) -> bool {
        codes_unique(self.rows@) && targets_nonempty(self.rows@)
    }

    /// An empty store.
    pub fn new() -> (r: MemStore)
        ensures
            r.wf(),
            r@ == Map::<Seq<char>, Seq<char>>::empty(),
    {
        let r = MemStore { rows: Vec::new() };
        proof {
            assert(r.rows@.len() == 0);
        }
        r
    }

    /// Index of the row holding `code`, if any.
    fn find_row(&self, code: &String) -> (r: Option<usize>)
        ensures
            match r {
                Some(i) => i < self.rows@.len() && self.rows@[i as int].code@ == code@,
                None => forall|i: int| 0 <= i < self.rows@.len() ==> self.rows@[i].code@ != code@,
            },
    {
        let n = self.rows.len();
        let mut i: usize = 0;
        while i < n
            invariant
                n == self.rows@.len(),
                i <= n,
                forall|j: int| 0 <= j < i ==> self.rows@[j].code@ != code@,
            decreases n - i,
        {
            if self.rows[i].code == *code {
                return Some(i);
            }
            i = i + 1;
        }
        None
    }

    /// Atomically insert a new mapping. Fails with `DuplicateKey`, leaving
    /// the store untouched, exactly when `code` is already bound; on
    /// success the model gains exactly the new pair. The target must be
    /// non-empty, as every mapping's target is a validated URL.
    pub fn insert(&mut self, code: &String, target_url: &String) -> (r: Result<(), ErrorKind>)
        requires
            old(self).wf(),
            target_url@.len() > 0,
        ensures
            final(self).wf(),
            match r {
                Ok(()) => {
                    &&& !old(self)@.dom().contains(code@)
                    &&& final(self)@ == old(self)@.insert(code@, target_url@)
                },
                Err(e) => {
                    &&& e == ErrorKind::DuplicateKey
                    &&& old(self)@.dom().contains(code@)
                    &&& *final(self) == *old(self)
                },
            },
    {
        match self.find_row(code) {
            Some(i) => {
                proof {
                    lemma_model_contains(self.rows@, code@);
                }
                Err(ErrorKind::DuplicateKey)
            },
            None => {
                proof {
                    lemma_model_contains(self.rows@, code@);
                }
                let row = Mapping { code: code.clone(), target_url: target_url.clone() };
                proof {
                    lemma_model_push(self.rows@, row);
                }
                self.rows.push(row);
                Ok(())
            },
        }
    }

    /// Retrieve the mapping bound to exactly `code` (case- and
    /// whitespace-sensitive). `NotFound` exactly when no row matches.
    pub fn lookup(&self, code: &String) -> (r: Result<Mapping, ErrorKind>)
        requires
            self.wf(),
        ensures
            match r {
                Ok(m) => {
                    &&& self@.dom().contains(code@)
                    &&& m.code@ == code@
                    &&& m.target_url@ == self@[code@]
                    &&& m.target_url@.len() > 0
                },
                Err(e) => e == ErrorKind::NotFound && !self@.dom().contains(code@),
            },
    {
        match self.find_row(code) {
            Some(i) => {
                proof {
                    lemma_model_value(self.rows@, i as int);
                }
                let row = &self.rows[i];
                Ok(Mapping { code: row.code.clone(), target_url: row.target_url.clone() })
            },
            None => {
                proof {
                    lemma_model_contains(self.rows@, code@);
                }
                Err(ErrorKind::NotFound)
            },
        }
    }

    /// Number of stored mappings; equals the size of the model's domain.
    pub fn row_count(&self) -> (r: usize)
        requires
            self.wf(),
        ensures
            r == self@.dom().len(),
    {
        proof {
            lemma_model_len(self.rows@);
        }
        self.rows.len()
    }
}

} // verus!
