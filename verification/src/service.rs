//! The shortening and resolution services: validate, generate, insert with
//! bounded retry on duplicate codes; look a code up and classify failures.

use vstd::prelude::*;
use crate::codes::{generate, valid_code};
use crate::errors::{ErrorKind, ServiceError};
use crate::store::MemStore;
use crate::urls::{url_canon, url_ok, validate};

verus! {

/// Bound on insert attempts of one shortening request: code generation is
/// probabilistic, so a pathological collision run must fail with
/// `ExhaustedRetries` rather than hang.
pub const MAX_ATTEMPTS: usize = 4;

/// The first candidate code not yet bound in `m`, in candidate order.
pub open spec fn first_fresh(m: Map<Seq<char>, Seq<char>>, codes: Seq<Seq<char>>) -> Option<
    Seq<char>,
>
    decreases codes.len(),
{
    if codes.len() == 0 {
        None
    } else if !m.dom().contains(codes[0]) {
        Some(codes[0])
    } else {
        first_fresh(m, codes.skip(1))
    }
}

/// What a resolution of `code` against the abstract store `m` must return.
pub open spec fn resolve_model(m: Map<Seq<char>, Seq<char>>, code: Seq<char>) -> Option<
    Seq<char>,
> {
    if m.dom().contains(code) {
        Some(m[code])
    } else {
        None
    }
}

/// Candidates before index `i` are all stale, so the first fresh candidate
/// lies at or after `i`.
proof fn lemma_first_fresh_skip(m: Map<Seq<char>, Seq<char>>, codes: Seq<Seq<char>>, i: int)
    requires
        0 <= i <= codes.len(),
        forall|j: int| 0 <= j < i ==> m.dom().contains(codes[j]),
    ensures
        first_fresh(m, codes) == first_fresh(m, codes.skip(i)),
    decreases i,
{
    if i == 0 {
        assert(codes.skip(0) =~= codes);
    } else {
        assert(m.dom().contains(codes[0]));
        lemma_first_fresh_skip(m, codes.skip(1), i - 1);
        assert(codes.skip(1).skip(i - 1) =~= codes.skip(i));
    }
}

/// Shorten a raw URL, drawing candidate codes from the given list in
/// order. This is the deterministic core of `shorten`: invalid input is
/// rejected with `InvalidUrl` and nothing stored; otherwise the first
/// candidate not already bound is inserted, mapped to the canonical URL,
/// and returned; if every candidate is already bound the call fails with
/// `ExhaustedRetries` and the store is untouched.
#[verifier::loop_isolation(false)]
pub fn shorten_with_candidates(store: &mut MemStore, raw: &str, codes: &Vec<String>) -> (r: Result<
    String,
    ServiceError,
>)
    requires
        old(store).wf(),
        forall|i: int| 0 <= i < codes@.len() ==> valid_code(codes@[i]@),
    ensures
        final(store).wf(),
        ({
            let cs = codes@.map_values(|c: String| c@);
            match r {
                Ok(code) => {
                    &&& url_ok(raw@)
                    &&& valid_code(code@)
                    &&& Some(code@) == first_fresh(old(store)@, cs)
                    &&& !old(store)@.dom().contains(code@)
                    &&& final(store)@ == old(store)@.insert(code@, url_canon(raw@))
                },
                Err(e) => {
                    &&& *final(store) == *old(store)
                    &&& (e.kind == ErrorKind::InvalidUrl || e.kind == ErrorKind::ExhaustedRetries)
                    &&& (e.kind == ErrorKind::InvalidUrl <==> !url_ok(raw@))
                    &&& (e.kind == ErrorKind::ExhaustedRetries ==> first_fresh(old(store)@, cs)
                        is None)
                },
            }
        }),
{
    let canon: String = match validate(raw) {
        Ok(c) => c,
        Err(e) => {
            return Err(e);
        },
    };
    let ghost m0: MemStore = *store;
    let ghost cs: Seq<Seq<char>> = codes@.map_values(|c: String| c@);
    let n = codes.len();
    let mut i: usize = 0;
    while i < n
        invariant
            n == codes@.len(),
            i <= n,
            *store == m0,
            store.wf(),
            cs == codes@.map_values(|c: String| c@),
            url_ok(raw@),
            canon@ == url_canon(raw@),
            forall|k: int| 0 <= k < codes@.len() ==> valid_code(codes@[k]@),
            forall|j: int| 0 <= j < i ==> m0@.dom().contains(cs[j]),
        decreases n - i,
    {
        let code: &String = &codes[i];
        match store.insert(code, &canon) {
            Ok(()) => {
                proof {
                    assert(cs[i as int] == codes@[i as int]@);
                    assert(!m0@.dom().contains(cs[i as int]));
                    lemma_first_fresh_skip(m0@, cs, i as int);
                    assert(cs.skip(i as int).len() > 0);
                    assert(cs.skip(i as int)[0] == cs[i as int]);
                    assert(first_fresh(m0@, cs.skip(i as int)) == Some(cs[i as int]));
                    assert(first_fresh(m0@, cs) == Some(cs[i as int]));
                }
                return Ok(code.clone());
            },
            Err(_) => {
                proof {
                    assert(cs[i as int] == codes@[i as int]@);
                }
            },
        }
        i = i + 1;
    }
    proof {
        lemma_first_fresh_skip(m0@, cs, cs.len() as int);
        assert(cs.skip(cs.len() as int) =~= Seq::<Seq<char>>::empty());
    }
    Err(
        ServiceError {
            kind: ErrorKind::ExhaustedRetries,
            diagnostic: "every candidate code was already taken".to_string(),
        },
    )
}

/// Shorten a raw URL: validate it, then try up to `MAX_ATTEMPTS` freshly
/// generated codes. On success the returned code was unused before the
/// call and the store gains exactly the mapping from that code to the
/// canonical form of the input; on any failure the store is untouched.
/// `InvalidUrl` is returned exactly for input that does not validate;
/// `ExhaustedRetries` only when every generated candidate collided, which
/// can happen only when the store already binds some valid code — on a
/// store that binds none, a valid input is guaranteed to be shortened.
pub fn shorten(store: &mut MemStore, raw: &str) -> (r: Result<String, ServiceError>)
    requires
        old(store).wf(),
    ensures
        final(store).wf(),
        match r {
            Ok(code) => {
                &&& url_ok(raw@)
                &&& valid_code(code@)
                &&& !old(store)@.dom().contains(code@)
                &&& final(store)@ == old(store)@.insert(code@, url_canon(raw@))
            },
            Err(e) => {
                &&& *final(store) == *old(store)
                &&& (e.kind == ErrorKind::InvalidUrl || e.kind == ErrorKind::ExhaustedRetries)
                &&& (e.kind == ErrorKind::InvalidUrl <==> !url_ok(raw@))
                &&& (e.kind == ErrorKind::ExhaustedRetries ==> exists|c: Seq<char>|
                    #[trigger] old(store)@.dom().contains(c) && valid_code(c))
            },
        },
{
    let mut candidates: Vec<String> = Vec::new();
    let mut k: usize = 0;
    while k < MAX_ATTEMPTS
        invariant
            k <= MAX_ATTEMPTS,
            candidates@.len() == k,
            forall|i: int| 0 <= i < candidates@.len() ==> valid_code(candidates@[i]@),
        decreases MAX_ATTEMPTS - k,
    {
        candidates.push(generate());
        k = k + 1;
    }
    match shorten_with_candidates(store, raw, &candidates) {
        Ok(code) => Ok(code),
        Err(e) => {
            proof {
                if e.kind == ErrorKind::ExhaustedRetries {
                    let cs = candidates@.map_values(|c: String| c@);
                    assert(cs.len() == MAX_ATTEMPTS);
                    assert(cs[0] == candidates@[0]@);
                    assert(valid_code(cs[0]));
                    if !old(store)@.dom().contains(cs[0]) {
                        assert(first_fresh(old(store)@, cs) == Some(cs[0]));
                    }
                    assert(old(store)@.dom().contains(cs[0]) && valid_code(cs[0]));
                }
            }
            Err(e)
        },
    }
}

/// Resolve a code to its target URL by exact match: the stored URL where
/// the code is bound, `NotFound` where it is not. Reads only; the store is
/// shared immutably.
pub fn resolve(store: &MemStore, code: &String) -> (r: Result<String, ErrorKind>)
    requires
        store.wf(),
    ensures
        match r {
            Ok(url) => resolve_model(store@, code@) == Some(url@) && url@.len() > 0,
            Err(e) => e == ErrorKind::NotFound && resolve_model(store@, code@) is None,
        },
{
    match store.lookup(code) {
        Ok(m) => Ok(m.target_url),
        Err(_) => Err(ErrorKind::NotFound),
    }
}

/// Round trip: after a successful shortening of a valid URL with a fresh
/// code, resolving that code yields exactly the canonical form of the
/// input.
pub proof fn lemma_shorten_resolve_round_trip(
    m: Map<Seq<char>, Seq<char>>,
    raw: Seq<char>,
    code: Seq<char>,
)
    requires
        url_ok(raw),
        !m.dom().contains(code),
    ensures
        resolve_model(m.insert(code, url_canon(raw)), code) == Some(url_canon(raw)),
{
}

/// A code never returned by a shortening resolves to `NotFound`:
/// an absent code stays absent under inserts of other codes, so the only
/// way a code becomes resolvable is the shortening that returned it.
pub proof fn lemma_unreturned_code_not_found(
    m: Map<Seq<char>, Seq<char>>,
    code: Seq<char>,
    other: Seq<char>,
    url: Seq<char>,
)
    requires
        !m.dom().contains(code),
        other != code,
    ensures
        resolve_model(m, code) is None,
        resolve_model(m.insert(other, url), code) is None,
{
}

/// Resolution is idempotent and mutation-free: any two resolutions of the
/// same code against the same store state return the same answer.
pub proof fn lemma_resolve_no_drift(
    m: Map<Seq<char>, Seq<char>>,
    code: Seq<char>,
    r1: Option<Seq<char>>,
    r2: Option<Seq<char>>,
)
    requires
        r1 == resolve_model(m, code),
        r2 == resolve_model(m, code),
    ensures
        r1 == r2,
{
}

/// Uniqueness under race: once an insert of `code` has succeeded, a later
/// insert of the same code meets the `DuplicateKey` condition of
/// `MemStore::insert`, and the winner's mapping is untouched.
pub proof fn lemma_duplicate_insert_rejected(
    m: Map<Seq<char>, Seq<char>>,
    code: Seq<char>,
    url: Seq<char>,
)
    requires
        !m.dom().contains(code),
    ensures
        m.insert(code, url).dom().contains(code),
        m.insert(code, url)[code] == url,
{
}

/// Distinct codes coexist: shortenings that returned distinct codes leave
/// both mappings in place with their own target URLs, and each fresh
/// insert grows the store by exactly one row.
pub proof fn lemma_distinct_codes_coexist(
    m: Map<Seq<char>, Seq<char>>,
    c1: Seq<char>,
    c2: Seq<char>,
    u1: Seq<char>,
    u2: Seq<char>,
)
    requires
        m.dom().finite(),
        c1 != c2,
        !m.dom().contains(c1),
        !m.dom().contains(c2),
    ensures
        m.insert(c1, u1).insert(c2, u2)[c1] == u1,
        m.insert(c1, u1).insert(c2, u2)[c2] == u2,
        m.insert(c1, u1).insert(c2, u2).dom().len() == m.dom().len() + 2,
{
    vstd::set::axiom_set_insert_len(m.dom(), c1);
    vstd::set::axiom_set_insert_len(m.insert(c1, u1).dom(), c2);
    assert(m.insert(c1, u1).dom() =~= m.dom().insert(c1));
    assert(m.insert(c1, u1).insert(c2, u2).dom() =~= m.insert(c1, u1).dom().insert(c2));
}

} // verus!
