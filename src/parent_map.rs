use vstd::prelude::*;
use std::collections::HashMap;
use crate::mapping::{extend_mapping, lemma_pairs_agreeing, mapping_from_pairs, mapping_pairs, pairs_to_map};
use crate::sorting::{pair_le, sort_pairs};

verus! {

broadcast use vstd::std_specs::hash::group_hash_axioms;

#[verifier::external_type_specification]
#[verifier::external_body]
pub struct ExPostcardError(postcard::Error);

/// The bytes that postcard writes for a persisted parent map: its offset,
/// then its list of `(old, new)` pairs.
pub uninterp spec fn parent_map_encoding(offset: u64, pairs: Seq<(u64, u64)>) -> Seq<u8>;

/// What postcard reads back from bytes as an offset and a list of pairs, if
/// they read as such.
pub uninterp spec fn parent_map_decoding(b: Seq<u8>) -> Option<(u64, Seq<(u64, u64)>)>;

/// Relies on postcard::to_allocvec of `(u64, Vec<(u64, u64)>)`, the layout of
/// the persisted parent map: the bytes depend on the values alone, and the
/// growable vector it writes into never refuses a byte, so it succeeds.
#[verifier::external_body]
fn encode_offset_and_pairs(offset: u64, pairs: &Vec<(u64, u64)>) -> (r: Result<Vec<u8>, postcard::Error>)
    ensures
        r is Ok,
        r matches Ok(b) ==> b@ == parent_map_encoding(offset, pairs@),
{
    postcard::to_allocvec(&(offset, pairs))
}

/// Relies on postcard::from_bytes of `(u64, Vec<(u64, u64)>)`: the result
/// depends on the bytes alone.
#[verifier::external_body]
fn decode_offset_and_pairs(b: &[u8]) -> (r: Result<(u64, Vec<(u64, u64)>), postcard::Error>)
    ensures
        match r {
            Ok(v) => parent_map_decoding(b@) == Some((v.0, v.1@)),
            Err(_) => parent_map_decoding(b@) is None,
        },
{
    postcard::from_bytes::<(u64, Vec<(u64, u64)>)>(b)
}

pub open spec fn pairs_sorted(s: Seq<(u64, u64)>) -> bool {
    forall|i: int, j: int| 0 <= i <= j < s.len() ==> pair_le(s[i], s[j])
}

/// The pairs of a mapping in ascending order, as a parent map stores them.
pub fn persisted_pairs(mapping: &HashMap<u64, u64>) -> (r: Vec<(u64, u64)>)
    ensures
        r.len() == mapping@.len(),
        pairs_sorted(r@),
        forall|p: (u64, u64)| r@.contains(p) <==> (mapping@.contains_key(p.0) && mapping@[p.0] == p.1),
        pairs_to_map(r@) == mapping@,
{
    let mut v = mapping_pairs(mapping);
    let ghost before = v@;
    sort_pairs(&mut v);
    proof {
        before.to_multiset_ensures();
        v@.to_multiset_ensures();
        assert forall|p: (u64, u64)| v@.contains(p) <==> (mapping@.contains_key(p.0) && mapping@[p.0] == p.1) by {
            assert(v@.contains(p) <==> v@.to_multiset().count(p) > 0);
            assert(before.contains(p) <==> before.to_multiset().count(p) > 0);
        }
        assert forall|i: int| 0 <= i < v@.len() implies mapping@.contains_key(#[trigger] v@[i].0) && mapping@[v@[i].0] == v@[i].1 by {
            assert(v@.contains(v@[i]));
        }
        lemma_pairs_agreeing(v@, mapping@);
        assert forall|k: u64| mapping@.contains_key(k) implies #[trigger] pairs_to_map(v@).contains_key(k) by {
            assert(v@.contains((k, mapping@[k])));
            let i = choose|i: int| 0 <= i < v@.len() && v@[i] == (k, mapping@[k]);
            assert(v@[i].0 == k);
        }
        assert(pairs_to_map(v@) =~= mapping@);
    }
    v
}

/// The bytes of a persisted parent map: the offset for children, and the
/// composed mapping as pairs in ascending order.
pub fn encode_parent_map(mapping: &HashMap<u64, u64>, offset: u64) -> (r: Result<Vec<u8>, postcard::Error>)
    ensures
        r matches Ok(b) && exists|s: Seq<(u64, u64)>|
            b@ == parent_map_encoding(offset, s) && pairs_sorted(s) && #[trigger] pairs_to_map(s) == mapping@,
{
    let pairs = persisted_pairs(mapping);
    let r = encode_offset_and_pairs(offset, &pairs);
    proof {
        assert(pairs_to_map(pairs@) == mapping@);
    }
    r
}

/// Reads a persisted parent map back: its composed mapping and its offset.
pub fn decode_parent_map(b: &[u8]) -> (r: Result<(HashMap<u64, u64>, u64), postcard::Error>)
    ensures
        match r {
            Ok(v) => exists|s: Seq<(u64, u64)>|
                parent_map_decoding(b@) == Some((v.1, s)) && #[trigger] pairs_to_map(s) == v.0@,
            Err(_) => parent_map_decoding(b@) is None,
        },
{
    match decode_offset_and_pairs(b) {
        Err(e) => Err(e),
        Ok(v) => {
            let (offset, pairs) = v;
            let m = mapping_from_pairs(&pairs);
            Ok((m, offset))
        },
    }
}

} // verus!
