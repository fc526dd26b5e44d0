use vstd::prelude::*;
use std::collections::HashMap;
use vstd::std_specs::iter::IteratorSpec;

verus! {

broadcast use vstd::std_specs::hash::group_hash_axioms;

/// What an identifier becomes under a renumbering map: its image where the
/// map has one, the identifier itself otherwise.
pub open spec fn remap_id(m: Map<u64, u64>, x: u64) -> u64 {
    if m.contains_key(x) {
        m[x]
    } else {
        x
    }
}

/// The map that a list of `(old, new)` pairs describes; a later pair wins.
pub open spec fn pairs_to_map(s: Seq<(u64, u64)>) -> Map<u64, u64>
    decreases s.len(),
{
    if s.len() == 0 {
        Map::empty()
    } else {
        pairs_to_map(s.drop_last()).insert(s.last().0, s.last().1)
    }
}

/// A layer's own mapping, as pairs: the value ranked `i` in sorted order,
/// with legacy identifier `sorted[i]`, gets the identifier `base + i + 1`;
/// only pairs whose two identifiers differ are kept.
pub open spec fn own_pairs(sorted: Seq<u64>, base: int) -> Seq<(u64, u64)>
    decreases sorted.len(),
{
    if sorted.len() == 0 {
        Seq::empty()
    } else {
        let n = sorted.len() - 1;
        let rest = own_pairs(sorted.drop_last(), base);
        if sorted[n] as int != base + n + 1 {
            rest.push((sorted[n], (base + n + 1) as u64))
        } else {
            rest
        }
    }
}

/// A layer's own mapping.
pub open spec fn own_mapping(sorted: Seq<u64>, base: int) -> Map<u64, u64> {
    pairs_to_map(own_pairs(sorted, base))
}

/// The mapping used for a layer: the parent's composed mapping, overridden
/// by the layer's own entries.
pub open spec fn compose(parent: Map<u64, u64>, own: Map<u64, u64>) -> Map<u64, u64> {
    parent.union_prefer_right(own)
}

/// The offset a layer hands to its children: its own offset plus its node
/// and value counts, the identifiers used up so far along its path.
pub open spec fn next_offset(offset: int, node_count: int, value_count: int) -> int {
    offset + node_count + value_count
}

proof fn lemma_own_pairs_map(sorted: Seq<u64>, base: int)
    requires
        sorted.no_duplicates(),
        0 <= base,
        base + sorted.len() <= u64::MAX,
    ensures
        forall|i: int|
            0 <= i < sorted.len() ==> remap_id(own_mapping(sorted, base), #[trigger] sorted[i])
                == base + i + 1,
        forall|k: u64|
            #[trigger] own_mapping(sorted, base).contains_key(k) ==> sorted.contains(k),
    decreases sorted.len(),
{
    if sorted.len() > 0 {
        let n = sorted.len() - 1;
        let prefix = sorted.drop_last();
        assert(prefix.no_duplicates());
        lemma_own_pairs_map(prefix, base);
        let rest = own_pairs(prefix, base);
        if sorted[n] as int != base + n + 1 {
            let p = (sorted[n], (base + n + 1) as u64);
            assert(rest.push(p).drop_last() == rest);
            assert(own_mapping(sorted, base) == own_mapping(prefix, base).insert(sorted[n], p.1));
        } else {
            assert(own_mapping(sorted, base) == own_mapping(prefix, base));
        }
        assert forall|i: int| 0 <= i < sorted.len() implies remap_id(
            own_mapping(sorted, base),
            #[trigger] sorted[i],
        ) == base + i + 1 by {
            if i < n {
                assert(prefix[i] == sorted[i]);
                assert(sorted[i] != sorted[n]);
            } else {
                if !(sorted[n] as int != base + n + 1) {
                    if own_mapping(prefix, base).contains_key(sorted[n]) {
                        let j = choose|j: int| 0 <= j < prefix.len() && prefix[j] == sorted[n];
                        assert(sorted[j] == sorted[n]);
                    }
                }
            }
        }
        assert forall|k: u64| #[trigger] own_mapping(sorted, base).contains_key(k) implies sorted.contains(k) by {
            if k != sorted[n] {
                assert(own_mapping(prefix, base).contains_key(k));
                let j = choose|j: int| 0 <= j < prefix.len() && prefix[j] == k;
                assert(sorted[j] == k);
            } else {
                assert(sorted[n] == k);
            }
        }
    }
}

/// Renumbers a layer's value identifiers after its values were sorted.
/// `sorted` lists the legacy identifiers of the values in their new order;
/// the value ranked `i` gets `offset + node_count + i + 1`. Returns the
/// layer's own mapping as pairs, each legacy identifier whose number
/// changes with its new one.
pub fn assign_value_ids(sorted: &Vec<u64>, offset: u64, node_count: u64) -> (r: Vec<(u64, u64)>)
    requires
        offset + node_count + sorted.len() <= u64::MAX,
        sorted@.no_duplicates(),
    ensures
        r@ == own_pairs(sorted@, offset + node_count),
        forall|i: int|
            0 <= i < sorted.len() ==> remap_id(pairs_to_map(r@), #[trigger] sorted[i])
                == offset + node_count + i + 1,
        forall|k: u64| #[trigger] pairs_to_map(r@).contains_key(k) ==> sorted@.contains(k),
{
    let base = offset + node_count;
    let mut r: Vec<(u64, u64)> = Vec::new();
    let mut i: usize = 0;
    while i < sorted.len()
        invariant
            i <= sorted.len(),
            base == offset + node_count,
            base + sorted.len() <= u64::MAX,
            r@ == own_pairs(sorted@.take(i as int), base as int),
        decreases sorted.len() - i,
    {
        let new_id = base + i as u64 + 1;
        let old_id = sorted[i];
        proof {
            assert(sorted@.take(i + 1).drop_last() == sorted@.take(i as int));
        }
        if old_id != new_id {
            r.push((old_id, new_id));
        }
        i = i + 1;
    }
    proof {
        assert(sorted@.take(sorted.len() as int) == sorted@);
        lemma_own_pairs_map(sorted@, base as int);
    }
    r
}

/// The offset handed to a layer's children: the layer's offset plus its
/// node and value counts.
pub fn child_offset(offset: u64, node_count: u64, value_count: u64) -> (r: u64)
    requires
        offset + node_count + value_count <= u64::MAX,
    ensures
        r == next_offset(offset as int, node_count as int, value_count as int),
{
    offset + node_count + value_count
}

proof fn lemma_union_insert(a: Map<u64, u64>, b: Map<u64, u64>, k: u64, v: u64)
    ensures
        a.union_prefer_right(b.insert(k, v)) == a.union_prefer_right(b).insert(k, v),
{
    assert(a.union_prefer_right(b.insert(k, v)) =~= a.union_prefer_right(b).insert(k, v));
}

/// Adds a list of `(old, new)` pairs to a mapping; the pairs win over
/// entries already present.
pub fn extend_mapping(mapping: &mut HashMap<u64, u64>, pairs: &Vec<(u64, u64)>)
    ensures
        final(mapping)@ == compose(old(mapping)@, pairs_to_map(pairs@)),
{
    let ghost start = mapping@;
    let mut i: usize = 0;
    proof {
        assert(start.union_prefer_right(pairs_to_map(pairs@.take(0))) =~= start);
    }
    while i < pairs.len()
        invariant
            i <= pairs.len(),
            mapping@ == compose(start, pairs_to_map(pairs@.take(i as int))),
        decreases pairs.len() - i,
    {
        let (k, v) = pairs[i];
        mapping.insert(k, v);
        proof {
            let t = pairs@.take(i + 1);
            assert(t.drop_last() == pairs@.take(i as int));
            assert(t.last() == (k, v));
            lemma_union_insert(start, pairs_to_map(pairs@.take(i as int)), k, v);
        }
        i = i + 1;
    }
    proof {
        assert(pairs@.take(pairs.len() as int) == pairs@);
    }
}

/// A layer's step of the mapping chain: given the composed mapping and the
/// offset inherited from its parent (empty and zero for a base layer), and
/// the legacy identifiers of its values in sorted order, turns the mapping
/// into the layer's composed one, its own entries winning, and returns the
/// offset for its children.
pub fn compose_layer(mapping: &mut HashMap<u64, u64>, offset: u64, sorted: &Vec<u64>, node_count: u64) -> (next: u64)
    requires
        offset + node_count + sorted.len() <= u64::MAX,
        sorted@.no_duplicates(),
    ensures
        final(mapping)@ == compose(old(mapping)@, own_mapping(sorted@, offset + node_count)),
        next == next_offset(offset as int, node_count as int, sorted.len() as int),
{
    let own = assign_value_ids(sorted, offset, node_count);
    extend_mapping(mapping, &own);
    child_offset(offset, node_count, sorted.len() as u64)
}

/// Builds a mapping from a list of `(old, new)` pairs; a later pair wins.
pub fn mapping_from_pairs(pairs: &Vec<(u64, u64)>) -> (r: HashMap<u64, u64>)
    ensures
        r@ == pairs_to_map(pairs@),
{
    let mut r: HashMap<u64, u64> = HashMap::new();
    extend_mapping(&mut r, pairs);
    proof {
        assert(Map::<u64, u64>::empty().union_prefer_right(pairs_to_map(pairs@)) =~= pairs_to_map(
            pairs@,
        ));
    }
    r
}

/// The legacy identifiers of a layer's values lie just above its offset and
/// node count, and are distinct.
pub open spec fn legacy_value_ids(sorted: Seq<u64>, offset: int, node_count: int) -> bool {
    &&& sorted.no_duplicates()
    &&& 0 <= offset
    &&& 0 <= node_count
    &&& offset + node_count + sorted.len() <= u64::MAX
    &&& forall|i: int|
        0 <= i < sorted.len() ==> offset + node_count < #[trigger] sorted[i] <= offset + node_count
            + sorted.len()
}

/// Node identifiers keep their numbers: a layer's own mapping moves only its
/// value identifiers, which all lie above the layer's offset plus its node
/// count, so every identifier at or below that bound is left as it is.
pub proof fn law_node_ids_unchanged(sorted: Seq<u64>, offset: int, node_count: int, id: u64)
    requires
        legacy_value_ids(sorted, offset, node_count),
        id <= offset + node_count,
    ensures
        remap_id(own_mapping(sorted, offset + node_count), id) == id,
{
    lemma_not_key_above(sorted, offset, node_count, id);
}

proof fn lemma_not_key_above(sorted: Seq<u64>, offset: int, node_count: int, x: u64)
    requires
        legacy_value_ids(sorted, offset, node_count),
        x <= offset + node_count,
    ensures
        !own_mapping(sorted, offset + node_count).contains_key(x),
{
    lemma_own_pairs_map(sorted, offset + node_count);
    if own_mapping(sorted, offset + node_count).contains_key(x) {
        let j = choose|j: int| 0 <= j < sorted.len() && sorted[j] == x;
        assert(offset + node_count < sorted[j]);
    }
}

/// Mappings compose down a chain of three layers `base -> child1 -> child2`:
/// each layer's composed mapping is its parent's, overridden by its own, the
/// offsets thread from parent to child, and a value identifier introduced in
/// the base layer resolves through the composed mapping of `child2` to the
/// identifier that the base layer's own mapping gives it.
pub proof fn law_mapping_composition(
    base_sorted: Seq<u64>,
    base_nodes: int,
    child1_sorted: Seq<u64>,
    child1_nodes: int,
    child2_sorted: Seq<u64>,
    child2_nodes: int,
    x: u64,
)
    requires
        legacy_value_ids(base_sorted, 0, base_nodes),
        legacy_value_ids(
            child1_sorted,
            next_offset(0, base_nodes, base_sorted.len() as int),
            child1_nodes,
        ),
        legacy_value_ids(
            child2_sorted,
            next_offset(
                next_offset(0, base_nodes, base_sorted.len() as int),
                child1_nodes,
                child1_sorted.len() as int,
            ),
            child2_nodes,
        ),
        base_sorted.contains(x),
    ensures
        ({
            let o1 = next_offset(0, base_nodes, base_sorted.len() as int);
            let o2 = next_offset(o1, child1_nodes, child1_sorted.len() as int);
            let own0 = own_mapping(base_sorted, base_nodes);
            let own1 = own_mapping(child1_sorted, o1 + child1_nodes);
            let own2 = own_mapping(child2_sorted, o2 + child2_nodes);
            let c0 = compose(Map::empty(), own0);
            let c1 = compose(c0, own1);
            let c2 = compose(c1, own2);
            &&& c0 == own0
            &&& c1 == compose(own0, own1)
            &&& c2 == compose(c1, own2)
            &&& remap_id(c2, x) == remap_id(own0, x)
        }),
{
    let o1 = next_offset(0, base_nodes, base_sorted.len() as int);
    let o2 = next_offset(o1, child1_nodes, child1_sorted.len() as int);
    let own0 = own_mapping(base_sorted, base_nodes);
    let own1 = own_mapping(child1_sorted, o1 + child1_nodes);
    let own2 = own_mapping(child2_sorted, o2 + child2_nodes);
    assert(compose(Map::empty(), own0) =~= own0);
    let j = choose|j: int| 0 <= j < base_sorted.len() && base_sorted[j] == x;
    assert(x <= base_nodes + base_sorted.len());
    lemma_not_key_above(child1_sorted, o1, child1_nodes, x);
    lemma_not_key_above(child2_sorted, o2, child2_nodes, x);
}

/// The pairs of a mapping, in any order.
pub(crate) fn mapping_pairs(m: &HashMap<u64, u64>) -> (r: Vec<(u64, u64)>)
    ensures
        r.len() == m@.len(),
        forall|p: (u64, u64)| r@.contains(p) <==> (m@.contains_key(p.0) && m@[p.0] == p.1),
{
    let mut v: Vec<(u64, u64)> = Vec::new();
    let ghost rem = vstd::std_specs::hash::spec_hash_map_iter(m).remaining();
    for kv in it: m.iter()
        invariant
            it.seq() == rem,
            v.len() == it.index(),
            forall|i: int| 0 <= i < it.index() ==> #[trigger] v@[i] == (*it.seq()[i].0, *it.seq()[i].1),
    {
        v.push((*kv.0, *kv.1));
    }
    proof {
        assert(forall|p: (u64, u64)| v@.contains(p) <==> (m@.contains_key(p.0) && m@[p.0] == p.1)) by {
            assert forall|p: (u64, u64)| v@.contains(p) implies (m@.contains_key(p.0) && m@[p.0] == p.1) by {
                let i = choose|i: int| 0 <= i < v@.len() && v@[i] == p;
                assert(m@.contains_key(*rem[i].0));
            }
            assert forall|p: (u64, u64)| m@.contains_key(p.0) && m@[p.0] == p.1 implies v@.contains(p) by {
                assert(rem.contains((&p.0, &m@[p.0])));
                let i = choose|i: int| 0 <= i < rem.len() && rem[i] == (&p.0, &m@[p.0]);
                assert(v@[i] == p);
            }
        }
    }
    v
}

/// A list of pairs that agree with a mapping describes the part of it that
/// their keys cover.
pub proof fn lemma_pairs_agreeing(s: Seq<(u64, u64)>, m: Map<u64, u64>)
    requires
        forall|i: int| 0 <= i < s.len() ==> m.contains_key(#[trigger] s[i].0) && m[s[i].0] == s[i].1,
    ensures
        forall|k: u64| #[trigger] pairs_to_map(s).contains_key(k) <==> exists|i: int| 0 <= i < s.len() && s[i].0 == k,
        forall|k: u64| #[trigger] pairs_to_map(s).contains_key(k) ==> pairs_to_map(s)[k] == m[k],
    decreases s.len(),
{
    if s.len() > 0 {
        let p = s.drop_last();
        assert forall|i: int| 0 <= i < p.len() implies m.contains_key(#[trigger] p[i].0) && m[p[i].0] == p[i].1 by {
            assert(p[i] == s[i]);
        }
        lemma_pairs_agreeing(p, m);
        assert(pairs_to_map(s) == pairs_to_map(p).insert(s.last().0, s.last().1));
        assert(s[s.len() - 1].0 == s.last().0);
        assert forall|k: u64| #[trigger] pairs_to_map(s).contains_key(k) <==> exists|i: int| 0 <= i < s.len() && s[i].0 == k by {
            if pairs_to_map(s).contains_key(k) && k != s.last().0 {
                let i = choose|i: int| 0 <= i < p.len() && p[i].0 == k;
                assert(s[i] == p[i]);
            }
            if exists|i: int| 0 <= i < s.len() && s[i].0 == k {
                let i = choose|i: int| 0 <= i < s.len() && s[i].0 == k;
                if i < p.len() {
                    assert(p[i] == s[i]);
                }
            }
        }
    }
}

} // verus!
