use vstd::prelude::*;

use crate::models::{is_normalized, PokeAPIResponse, Pokemon};
use crate::store::{lookup, successes, ServiceError};

verus! {

/// Reading the id of a record right after it was stored under that id gives
/// back that very record.
pub proof fn lemma_get_after_create(m: Map<u128, Pokemon>, p: Pokemon)
    ensures
        lookup(m.insert(p.id, p), p.id) == Ok::<Pokemon, ServiceError>(p),
{
}

/// Reading an id right after its record was deleted reports `NotFound`.
pub proof fn lemma_get_after_delete(m: Map<u128, Pokemon>, id: u128)
    ensures
        lookup(m.remove(id), id) == Err::<Pokemon, ServiceError>(ServiceError::NotFound),
{
}

/// The single and the batch path normalize a response alike: the record that
/// a single fetch stores and the one record that a batch of that one response
/// stores agree on everything but the id.
pub proof fn lemma_single_and_batch_agree(resp: PokeAPIResponse, single: Pokemon, batch: Seq<Pokemon>)
    requires
        is_normalized(single, resp, single.id),
        batch.len() == successes(seq![Some(resp)]).len(),
        forall|i: int|
            0 <= i < batch.len() ==> is_normalized(
                #[trigger] batch[i],
                successes(seq![Some(resp)])[i],
                batch[i].id,
            ),
    ensures
        batch.len() == 1,
        batch[0].name@ == single.name@,
        batch[0].type_@ == single.type_@,
        batch[0].level == single.level,
        batch[0].hp == single.hp,
{
    let one = seq![Some(resp)];
    assert(one.drop_last() =~= Seq::<Option<PokeAPIResponse>>::empty());
    assert(one.last() == Some(resp));
    assert(successes(one.drop_last()) =~= Seq::<PokeAPIResponse>::empty());
    assert(successes(one) =~= seq![resp]);
    assert(is_normalized(batch[0], resp, batch[0].id));
}

/// `states[i + 1]` is `states[i]` with `created[i]` added under an id that
/// `states[i]` did not hold: the trace of successive creations.
pub open spec fn creation_chain(states: Seq<Map<u128, Pokemon>>, created: Seq<Pokemon>) -> bool {
    &&& states.len() == created.len() + 1
    &&& forall|i: int|
        0 <= i < created.len() ==> !states[i].contains_key(#[trigger] created[i].id)
            && states[i + 1] == states[i].insert(created[i].id, created[i])
}

proof fn lemma_chain_prefix(states: Seq<Map<u128, Pokemon>>, created: Seq<Pokemon>, k: int)
    requires
        creation_chain(states, created),
        states[0].dom().finite(),
        0 <= k <= created.len(),
    ensures
        states[k].dom().finite(),
        states[k].len() == states[0].len() + k,
        forall|j: int| 0 <= j < k ==> states[k].contains_key(#[trigger] created[j].id),
    decreases k,
{
    if k > 0 {
        let i = k - 1;
        lemma_chain_prefix(states, created, i);
        assert(!states[i].contains_key(created[i].id));
        assert(states[k] == states[i].insert(created[i].id, created[i]));
        assert(states[k].dom() =~= states[i].dom().insert(created[i].id));
    }
}

/// Creations serialized by the store's lock each add one record under an id
/// of its own: after `n` of them the ids are pairwise distinct and the store
/// has grown by exactly `n`.
pub proof fn lemma_creations_distinct(states: Seq<Map<u128, Pokemon>>, created: Seq<Pokemon>)
    requires
        creation_chain(states, created),
        states[0].dom().finite(),
    ensures
        forall|i: int, j: int| 0 <= i < j < created.len() ==> created[i].id != created[j].id,
        states.last().len() == states[0].len() + created.len(),
{
    lemma_chain_prefix(states, created, created.len() as int);
    assert forall|i: int, j: int| 0 <= i < j < created.len() implies created[i].id
        != created[j].id by {
        lemma_chain_prefix(states, created, j);
        assert(states[j].contains_key(created[i].id));
        assert(!states[j].contains_key(created[j].id));
    }
}

} // verus!
