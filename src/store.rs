use std::collections::HashMap;
use vstd::prelude::*;

use crate::models::{is_created, is_normalized, normalize, PokeAPIResponse, Pokemon, PokemonInput};

verus! {

broadcast use vstd::std_specs::hash::group_hash_axioms;

/// Why an operation of the store did not succeed.
#[derive(Clone, Copy, Debug, PartialEq, Eq, Structural)]
pub enum ServiceError {
    /// No record has the requested id.
    NotFound,
    /// The provider could not deliver the requested record.
    Upstream,
    /// The mutation was applied in memory but could not be written out.
    Persistence,
}

impl ServiceError {
    /// The HTTP status that reports this error.
    pub fn status_code(&self) -> (r: u16)
        ensures
            r == match *self {
                ServiceError::NotFound => 404u16,
                ServiceError::Upstream => 502u16,
                ServiceError::Persistence => 500u16,
            },
    {
        match self {
            ServiceError::NotFound => 404,
            ServiceError::Upstream => 502,
            ServiceError::Persistence => 500,
        }
    }
}

/// The result of reading `id` from the mapping `m`.
pub open spec fn lookup(m: Map<u128, Pokemon>, id: u128) -> Result<Pokemon, ServiceError> {
    if m.contains_key(id) {
        Ok(m[id])
    } else {
        Err(ServiceError::NotFound)
    }
}

/// The mapping `m` after inserting each record of `recs` under its own id, in order.
pub open spec fn insert_all(m: Map<u128, Pokemon>, recs: Seq<Pokemon>) -> Map<u128, Pokemon>
    decreases recs.len(),
{
    if recs.len() == 0 {
        m
    } else {
        insert_all(m, recs.drop_last()).insert(recs.last().id, recs.last())
    }
}

/// The responses that arrived, in order, with the failed fetches left out.
pub open spec fn successes(fetched: Seq<Option<PokeAPIResponse>>) -> Seq<PokeAPIResponse>
    decreases fetched.len(),
{
    if fetched.len() == 0 {
        Seq::empty()
    } else {
        let rest = successes(fetched.drop_last());
        match fetched.last() {
            Some(resp) => rest.push(resp),
            None => rest,
        }
    }
}

/// The outcome of a mutating operation once the write-out has been attempted:
/// a failed write turns a success into `Persistence`; errors pass unchanged.
pub open spec fn settled<T>(result: Result<T, ServiceError>, saved: bool) -> Result<T, ServiceError> {
    match result {
        Ok(v) => if saved {
            Ok(v)
        } else {
            Err(ServiceError::Persistence)
        },
        Err(e) => Err(e),
    }
}

/// Applies the write-through rule to the outcome of a mutating operation:
/// success is reported only when the snapshot was saved.
pub fn settle<T>(result: Result<T, ServiceError>, saved: bool) -> (r: Result<T, ServiceError>)
    ensures
        r == settled(result, saved),
{
    match result {
        Ok(v) => if saved {
            Ok(v)
        } else {
            Err(ServiceError::Persistence)
        },
        Err(e) => Err(e),
    }
}

/// Relies on `uuid::Uuid::new_v4` and `Uuid::as_u128`: a random version-4 id as
/// an integer. Nothing is promised of its value.
#[verifier::external_body]
fn random_id() -> (r: u128) {
    uuid::Uuid::new_v4().as_u128()
}

/// If every value below `n` lies in `s`, then `s` has at least `n` elements.
proof fn lemma_prefix_bound(s: Set<u128>, n: nat)
    requires
        s.finite(),
        n <= u128::MAX + 1,
        forall|j: u128| (j as nat) < n ==> s.contains(j),
    ensures
        n <= s.len(),
    decreases n,
{
    if n > 0 {
        let top = (n - 1) as u128;
        let t = s.remove(top);
        assert(s.contains(top));
        assert forall|j: u128| (j as nat) < (n - 1) as nat implies t.contains(j) by {
            assert(s.contains(j));
        }
        lemma_prefix_bound(t, (n - 1) as nat);
    }
}

/// The in-memory mapping from id to record.
pub struct Store {
    map: HashMap<u128, Pokemon>,
}

impl View for Store {
    type V = Map<u128, Pokemon>;

    closed spec fn view(&self) -> Map<u128, Pokemon> {
        self.map@
    }
}

impl Store {
    /// An empty store.
    pub fn new() -> (r: Store)
        ensures
            r@ == Map::<u128, Pokemon>::empty(),
    {
        Store { map: HashMap::new() }
    }

    /// The store at startup: the loaded mapping, or an empty one when the
    /// snapshot could not be read or decoded (`None`).
    pub fn from_loaded(loaded: Option<HashMap<u128, Pokemon>>) -> (r: Store)
        ensures
            loaded is Some ==> r@ == loaded->Some_0@,
            loaded is None ==> r@ == Map::<u128, Pokemon>::empty(),
    {
        match loaded {
            Some(map) => Store { map },
            None => Store::new(),
        }
    }

    /// The whole mapping, for writing it out.
    pub fn records(&self) -> (r: &HashMap<u128, Pokemon>)
        ensures
            r@ == self@,
    {
        &self.map
    }

    /// The number of records.
    pub fn len(&self) -> (r: usize)
        ensures
            r == self@.len(),
    {
        self.map.len()
    }

    /// Whether a record has the id `id`.
    pub fn contains(&self, id: u128) -> (r: bool)
        ensures
            r == self@.contains_key(id),
    {
        self.map.contains_key(&id)
    }

    /// `candidate` when no record has it; otherwise the least id that none has.
    pub fn fresh_id(&self, candidate: u128) -> (r: u128)
        ensures
            !self@.contains_key(r),
            !self@.contains_key(candidate) ==> r == candidate,
            self@.contains_key(candidate) ==> forall|j: u128| j < r ==> self@.contains_key(j),
    {
        if !self.map.contains_key(&candidate) {
            return candidate;
        }
        let n = self.map.len();
        let mut k: u128 = 0;
        while k <= n as u128
            invariant
                n == self@.len(),
                self@.contains_key(candidate),
                k <= n + 1,
                forall|j: u128| j < k ==> self@.contains_key(j),
            decreases n + 1 - k,
        {
            if !self.map.contains_key(&k) {
                return k;
            }
            k = k + 1;
        }
        proof {
            lemma_prefix_bound(self@.dom(), (n + 1) as nat);
        }
        k
    }

    /// An id that no record has, drawn at random.
    pub fn generate_id(&self) -> (r: u128)
        ensures
            !self@.contains_key(r),
    {
        let candidate = random_id();
        self.fresh_id(candidate)
    }

    /// Reads the record with the id `id`.
    pub fn get_one(&self, id: u128) -> (r: Result<Pokemon, ServiceError>)
        ensures
            r == lookup(self@, id),
    {
        match self.map.get(&id) {
            Some(p) => Ok(p.duplicate()),
            None => Err(ServiceError::NotFound),
        }
    }

    /// Stores a new record built from `input` under a fresh id and returns it.
    pub fn create_one(&mut self, input: PokemonInput) -> (r: Pokemon)
        ensures
            is_created(r, input, r.id),
            !old(self)@.contains_key(r.id),
            final(self)@ == old(self)@.insert(r.id, r),
    {
        let id = self.generate_id();
        let p = Pokemon::from_input(input, id);
        self.map.insert(id, p.duplicate());
        p
    }

    /// Replaces the record under `id` with `p`; fails with `NotFound`, changing
    /// nothing, when no record has that id.
    pub fn update_one(&mut self, id: u128, p: Pokemon) -> (r: Result<(), ServiceError>)
        ensures
            old(self)@.contains_key(id) ==> r == Ok::<(), ServiceError>(()) && final(self)@
                == old(self)@.insert(id, p),
            !old(self)@.contains_key(id) ==> r == Err::<(), ServiceError>(ServiceError::NotFound)
                && final(self)@ == old(self)@,
    {
        if self.map.contains_key(&id) {
            self.map.insert(id, p);
            Ok(())
        } else {
            Err(ServiceError::NotFound)
        }
    }

    /// Removes the record under `id`; fails with `NotFound`, changing nothing,
    /// when no record has that id.
    pub fn delete_one(&mut self, id: u128) -> (r: Result<(), ServiceError>)
        ensures
            old(self)@.contains_key(id) ==> r == Ok::<(), ServiceError>(()) && final(self)@
                == old(self)@.remove(id),
            !old(self)@.contains_key(id) ==> r == Err::<(), ServiceError>(ServiceError::NotFound)
                && final(self)@ == old(self)@,
    {
        match self.map.remove(&id) {
            Some(_) => Ok(()),
            None => Err(ServiceError::NotFound),
        }
    }

    /// Stores the normalized form of a fetched response under a fresh id; a
    /// failed fetch (`None`) gives `Upstream` and changes nothing.
    pub fn fetch_and_store_one(&mut self, fetched: Option<PokeAPIResponse>) -> (r: Result<
        Pokemon,
        ServiceError,
    >)
        ensures
            fetched is None ==> r == Err::<Pokemon, ServiceError>(ServiceError::Upstream)
                && final(self)@ == old(self)@,
            fetched is Some ==> r is Ok && is_normalized(r->Ok_0, fetched->Some_0, r->Ok_0.id)
                && !old(self)@.contains_key(r->Ok_0.id) && final(self)@ == old(self)@.insert(
                r->Ok_0.id,
                r->Ok_0,
            ),
    {
        match fetched {
            Some(resp) => {
                let id = self.generate_id();
                let p = normalize(&resp, id);
                self.map.insert(id, p.duplicate());
                Ok(p)
            },
            None => Err(ServiceError::Upstream),
        }
    }

    /// Stores the normalized form of every response that arrived, each under a
    /// fresh id, skipping failed fetches, and returns the stored records in the
    /// order of the input.
    pub fn fetch_and_store_many(&mut self, fetched: Vec<Option<PokeAPIResponse>>) -> (r: Vec<
        Pokemon,
    >)
        ensures
            r@.len() == successes(fetched@).len(),
            forall|i: int|
                0 <= i < r@.len() ==> is_normalized(
                    #[trigger] r@[i],
                    successes(fetched@)[i],
                    r@[i].id,
                ),
            forall|i: int| 0 <= i < r@.len() ==> !old(self)@.contains_key(#[trigger] r@[i].id),
            forall|i: int, j: int| 0 <= i < j < r@.len() ==> r@[i].id != r@[j].id,
            final(self)@ == insert_all(old(self)@, r@),
    {
        let mut out: Vec<Pokemon> = Vec::new();
        let mut i: usize = 0;
        while i < fetched.len()
            invariant
                i <= fetched@.len(),
                out@.len() == successes(fetched@.take(i as int)).len(),
                forall|k: int|
                    0 <= k < out@.len() ==> is_normalized(
                        #[trigger] out@[k],
                        successes(fetched@.take(i as int))[k],
                        out@[k].id,
                    ),
                forall|k: int| 0 <= k < out@.len() ==> !old(self)@.contains_key(#[trigger] out@[k].id),
                forall|k: int| 0 <= k < out@.len() ==> self@.contains_key(#[trigger] out@[k].id),
                forall|k: int, l: int| 0 <= k < l < out@.len() ==> out@[k].id != out@[l].id,
                forall|id: u128| old(self)@.contains_key(id) ==> self@.contains_key(id),
                self@ == insert_all(old(self)@, out@),
            decreases fetched@.len() - i,
        {
            assert(fetched@.take(i + 1).drop_last() =~= fetched@.take(i as int));
            assert(fetched@.take(i + 1).last() == fetched@[i as int]);
            match &fetched[i] {
                Some(resp) => {
                    let id = self.generate_id();
                    let p = normalize(resp, id);
                    self.map.insert(id, p.duplicate());
                    let ghost prev = out@;
                    out.push(p);
                    assert(out@.drop_last() =~= prev);
                },
                None => {},
            }
            i = i + 1;
        }
        assert(fetched@.take(fetched@.len() as int) =~= fetched@);
        out
    }
}

} // verus!
