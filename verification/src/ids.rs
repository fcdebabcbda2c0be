use std::collections::hash_map::DefaultHasher;
use std::collections::HashMap;
use std::hash::{Hash, Hasher};
use std::time::Instant;

use vstd::prelude::*;

verus! {

/// Identifier of scenes' entities, components, materials and pipelines: the 128 bits of a UUID.
pub type Id = u128;

/// The nil identifier; an entity whose parent is nil is a top-level entity.
pub const NIL_ID: Id = 0;

/// The bits of a version-4 UUID of the RFC variant: the version nibble (bits 79 to 76) is 4
/// and the variant bits (63 and 62) are `10`. Such an id is never nil.
pub open spec fn is_random_id(id: Id) -> bool {
    &&& id != NIL_ID
    &&& (id >> 76u128) & 0xfu128 == 4
    &&& (id >> 62u128) & 0x3u128 == 2
}

/// Creates a random identifier, the bits of a fresh version-4 UUID.
///
/// Calls `uuid::Uuid::new_v4` and reads it back with `as_u128`. The source of `new_v4`
/// forces the version nibble to 4 and the variant bits to `10`, so the result is never
/// nil; which value comes back is random and is not otherwise stated.
#[verifier::external_body]
pub fn new_random_id() -> (id: Id)
    ensures
        is_random_id(id),
{
    uuid::Uuid::new_v4().as_u128()
}

/// Whether `id` is the nil identifier.
pub fn is_nil(id: Id) -> (r: bool)
    ensures
        r <==> id == NIL_ID,
{
    id == NIL_ID
}

/// A point in time, read from the system clock.
#[verifier::external_type_specification]
#[verifier::external_body]
pub struct ExInstant(Instant);

/// Reads the clock: `std::time::Instant::now`. Nothing is stated of the value.
#[verifier::external_body]
fn instant_now() -> (now: Instant) {
    Instant::now()
}

/// Feeds `instant` to `hasher` through `Hash::hash` of `std::time::Instant`. Which words are
/// written is not stated, so nothing is stated of the hasher afterwards.
#[verifier::external_body]
fn hash_instant(instant: &Instant, hasher: &mut DefaultHasher) {
    instant.hash(hasher)
}

/// `id` is a 64-bit digest of the standard hasher, widened: the digest of some words that
/// were written to it.
pub open spec fn is_hash_digest_id(id: Id) -> bool {
    &&& id <= u64::MAX
    &&& exists|words: Seq<Seq<u8>>| id == #[trigger] <DefaultHasher as vstd::std_specs::hash::DefaultHasherAdditionalSpecFns>::spec_finish(words)
}

/// An identifier made by hashing the current time with the standard hasher: the hasher's
/// 64-bit digest of the words that hashing the time wrote, widened. Which words those are
/// depends on the clock, so which digest it is is not stated.
pub fn time_based_id() -> (id: Id)
    ensures
        is_hash_digest_id(id),
{
    let now = instant_now();
    let mut hasher = DefaultHasher::new();
    hash_instant(&now, &mut hasher);
    let digest = hasher.finish();
    proof {
        assert(digest == <DefaultHasher as vstd::std_specs::hash::DefaultHasherAdditionalSpecFns>::spec_finish(hasher@));
    }
    digest as Id
}

/// A sequence of distinct elements of a finite set, as long as the set, lists the whole set.
pub proof fn lemma_unique_sequence_covers<A>(s: Seq<A>, set: Set<A>)
    requires
        set.finite(),
        s.len() == set.len(),
        forall|i: int, j: int| 0 <= i < j < s.len() ==> s[i] != s[j],
        forall|i: int| 0 <= i < s.len() ==> set.contains(#[trigger] s[i]),
    ensures
        s.to_set() == set,
{
    assert(s.no_duplicates());
    s.unique_seq_to_set();
    assert(s.to_set().subset_of(set));
    vstd::set_lib::lemma_subset_equality(s.to_set(), set);
}

/// The keys of `map`, each once, in the order the map is walked.
pub fn map_keys<V>(map: &HashMap<Id, V>) -> (r: Vec<Id>)
    ensures
        r@.no_duplicates(),
        r@.to_set() == map@.dom(),
{
    let mut ids: Vec<Id> = Vec::new();
    let ghost m = map@;
    for item in it: map.iter()
        invariant
            m == map@,
            it.seq().no_duplicates(),
            it.seq().len() == m.dom().len(),
            forall|i: int| 0 <= i < it.seq().len() ==> m.contains_key(*(#[trigger] it.seq()[i]).0)
                && m[*it.seq()[i].0] == *it.seq()[i].1,
            ids@.len() == it.index(),
            forall|i: int| 0 <= i < it.index() ==> ids@[i] == *(#[trigger] it.seq()[i]).0,
            forall|i: int, j: int| 0 <= i < j < ids@.len() ==> ids@[i] != ids@[j],
            forall|i: int| 0 <= i < ids@.len() ==> m.dom().contains(#[trigger] ids@[i]),
    {
        let ghost cur = it.index();
        let (id, _) = item;
        proof {
            assert(item == it.seq()[cur]);
            assert forall|i: int| 0 <= i < ids@.len() implies ids@[i] != *id by {
                if ids@[i] == *id {
                    assert(it.seq()[i] == it.seq()[cur]);
                }
            }
        }
        ids.push(*id);
    }
    proof {
        lemma_unique_sequence_covers(ids@, m.dom());
    }
    ids
}

} // verus!
