use vstd::prelude::*;
use std::collections::HashMap;
use crate::mapping::remap_id;
use crate::sorting::{sort_u64s, sorted_u64};
use vstd::arithmetic::power2::pow2;

verus! {

broadcast use vstd::std_specs::hash::group_hash_axioms;

/// Positions `i` and `j` lie in one group: no boundary bit in `i..j`.
pub open spec fn same_group(bits: Seq<bool>, i: int, j: int) -> bool {
    i <= j && forall|k: int| i <= k < j ==> !#[trigger] bits[k]
}

/// A group starts at `s`: the first position, or one after a boundary.
pub open spec fn group_start(bits: Seq<bool>, s: int) -> bool {
    s == 0 || bits[s - 1]
}

/// A group ends at `e`: a boundary bit, or the last position.
pub open spec fn group_end(bits: Seq<bool>, e: int) -> bool {
    e == bits.len() - 1 || bits[e]
}

/// A whole group spans `s..=e`.
pub open spec fn is_group(bits: Seq<bool>, s: int, e: int) -> bool {
    0 <= s <= e < bits.len() && group_start(bits, s) && group_end(bits, e) && same_group(bits, s, e)
}

/// Each identifier translated through a mapping.
pub open spec fn remap_all(s: Seq<u64>, m: Map<u64, u64>) -> Seq<u64> {
    s.map_values(|x: u64| remap_id(m, x))
}

/// Every group of `r` is in ascending order.
pub open spec fn groups_sorted(bits: Seq<bool>, r: Seq<u64>) -> bool {
    forall|i: int, j: int| 0 <= i <= j < r.len() && #[trigger] same_group(bits, i, j) ==> r[i] <= r[j]
}

/// Every group of `r` holds the translated identifiers of that group of `nums`.
pub open spec fn groups_translated(bits: Seq<bool>, nums: Seq<u64>, m: Map<u64, u64>, r: Seq<u64>) -> bool {
    forall|s: int, e: int| #[trigger] is_group(bits, s, e) ==>
        r.subrange(s, e + 1).to_multiset() == remap_all(nums.subrange(s, e + 1), m).to_multiset()
}

/// Wherever a legacy group held an identifier, the remapped group holds that
/// identifier's translation (the group is re-sorted, so its position may
/// change).
pub proof fn law_group_holds_translation(
    bits: Seq<bool>,
    nums: Seq<u64>,
    m: Map<u64, u64>,
    r: Seq<u64>,
    s: int,
    e: int,
    i: int,
)
    requires
        bits.len() == nums.len(),
        r.len() == nums.len(),
        groups_translated(bits, nums, m, r),
        is_group(bits, s, e),
        s <= i <= e,
    ensures
        r.subrange(s, e + 1).contains(remap_id(m, nums[i])),
{
    let g = nums.subrange(s, e + 1);
    let t = remap_all(g, m);
    let out = r.subrange(s, e + 1);
    assert(t[i - s] == remap_id(m, nums[i]));
    assert(t.contains(remap_id(m, nums[i])));
    t.to_multiset_ensures();
    out.to_multiset_ensures();
    assert(t.to_multiset().count(remap_id(m, nums[i])) > 0);
    assert(out.to_multiset().count(remap_id(m, nums[i])) > 0);
}

fn remap_one(m: &HashMap<u64, u64>, x: u64) -> (r: u64)
    ensures
        r == remap_id(m@, x),
{
    match m.get(&x) {
        Some(v) => *v,
        None => x,
    }
}

/// Translates the object identifiers of a forward adjacency index. `bits`
/// marks the last position of each (subject, predicate) group of `nums`; each
/// identifier is translated through `mapping` and each group is sorted
/// ascending again. Positions after the last boundary form a group too.
pub fn remap_adjacency_groups(bits: &Vec<bool>, nums: &Vec<u64>, mapping: &HashMap<u64, u64>) -> (r: Vec<u64>)
    requires
        bits.len() == nums.len(),
    ensures
        r.len() == nums.len(),
        groups_sorted(bits@, r@),
        groups_translated(bits@, nums@, mapping@, r@),
{
    let n = nums.len();
    let mut out: Vec<u64> = Vec::new();
    let mut group: Vec<u64> = Vec::new();
    let mut start: usize = 0;
    let mut i: usize = 0;
    while i < n
        invariant
            n == nums.len(),
            n == bits.len(),
            start <= i <= n,
            out.len() == start,
            group@ == remap_all(nums@.subrange(start as int, i as int), mapping@),
            start < n ==> group_start(bits@, start as int),
            i == n ==> start == n,
            forall|k: int| start <= k < i ==> !#[trigger] bits@[k],
            forall|a: int, b: int| 0 <= a <= b < start && #[trigger] same_group(bits@, a, b) ==> out@[a] <= out@[b],
            forall|s: int, e: int| #[trigger] is_group(bits@, s, e) && e < start ==>
                out@.subrange(s, e + 1).to_multiset() == remap_all(nums@.subrange(s, e + 1), mapping@).to_multiset(),
        decreases n - i,
    {
        let y = remap_one(mapping, nums[i]);
        group.push(y);
        proof {
            assert(nums@.subrange(start as int, i + 1) == nums@.subrange(start as int, i as int).push(nums@[i as int]));
            assert(group@ =~= remap_all(nums@.subrange(start as int, i + 1), mapping@));
        }
        if bits[i] || i == n - 1 {
            let ghost unsorted = group@;
            let ghost old_out = out@;
            sort_u64s(&mut group);
            let ghost g = group@;
            out.append(&mut group);
            proof {
                unsorted.to_multiset_ensures();
                g.to_multiset_ensures();
                assert(g.len() == i + 1 - start);
                assert(out@.subrange(0, start as int) == old_out);
                assert(out@.subrange(start as int, i + 1) == g);
                assert forall|a: int, b: int| 0 <= a <= b < i + 1 && #[trigger] same_group(bits@, a, b) implies out@[a] <= out@[b] by {
                    if b < start {
                        assert(old_out[a] == out@[a] && old_out[b] == out@[b]);
                    } else if a < start {
                        assert(!bits@[start - 1]);
                    } else {
                        assert(g[a - start] == out@[a] && g[b - start] == out@[b]);
                    }
                }
                assert forall|s: int, e: int| #[trigger] is_group(bits@, s, e) && e < i + 1 implies
                    out@.subrange(s, e + 1).to_multiset() == remap_all(nums@.subrange(s, e + 1), mapping@).to_multiset() by {
                    if e < start {
                        assert(out@.subrange(s, e + 1) == old_out.subrange(s, e + 1));
                    } else if s < start {
                        assert(same_group(bits@, s, e));
                        assert(!bits@[start - 1]);
                    } else {
                        if s > start {
                            assert(!bits@[s - 1]);
                        }
                        if e < i {
                            assert(!bits@[e]);
                        }
                        assert(s == start && e == i);
                    }
                }
            }
            start = i + 1;
            group = Vec::new();
            proof {
                assert(group@ =~= remap_all(nums@.subrange(start as int, start as int), mapping@));
            }
        }
        i = i + 1;
    }
    out
}

/// The new value-relative index for an entry of the node/value indirection
/// structure: the entry `e` stands for the legacy identifier `e + offset + 1`;
/// where the mapping moves that identifier to `n`, the entry becomes
/// `n - offset - 1`, otherwise it is kept.
pub open spec fn remap_idmap_entry(m: Map<u64, u64>, offset: int, e: u64) -> int {
    let legacy = e + offset + 1;
    if legacy <= u64::MAX && m.contains_key(legacy as u64) {
        m[legacy as u64] - offset - 1
    } else {
        e as int
    }
}

/// Remaps the entries of a node/value indirection structure after the value
/// dictionary was renumbered. Returns `None` when some entry would move below
/// zero, that is, the mapping sends its identifier below the layer's offset.
pub fn remap_node_value_idmap(entries: &Vec<u64>, offset: u64, mapping: &HashMap<u64, u64>) -> (r:
    Option<Vec<u64>>)
    ensures
        r.is_some() <==> forall|i: int|
            0 <= i < entries.len() ==> remap_idmap_entry(mapping@, offset as int, #[trigger] entries[i]) >= 0,
        r.is_some() ==> r.unwrap().len() == entries.len() && forall|i: int|
            0 <= i < entries.len() ==> r.unwrap()[i] as int == remap_idmap_entry(
                mapping@,
                offset as int,
                #[trigger] entries[i],
            ),
{
    let mut out: Vec<u64> = Vec::new();
    let mut i: usize = 0;
    while i < entries.len()
        invariant
            i <= entries.len(),
            out.len() == i,
            forall|j: int| 0 <= j < i ==> out[j] as int == remap_idmap_entry(mapping@, offset as int, #[trigger] entries[j]),
            forall|j: int| 0 <= j < i ==> remap_idmap_entry(mapping@, offset as int, #[trigger] entries[j]) >= 0,
        decreases entries.len() - i,
    {
        let e = entries[i];
        let mut v = e;
        if offset < u64::MAX && e < u64::MAX - offset {
            let legacy = e + offset + 1;
            match mapping.get(&legacy) {
                Some(n) => {
                    if *n < offset + 1 {
                        return None;
                    }
                    v = *n - offset - 1;
                },
                None => {},
            }
        }
        out.push(v);
        i = i + 1;
    }
    Some(out)
}

/// Every identifier is below `2^w`.
pub open spec fn fits_width(nums: Seq<u64>, w: nat) -> bool {
    forall|i: int| 0 <= i < nums.len() ==> (#[trigger] nums[i] as int) < pow2(w)
}

proof fn lemma_shr_zero_iff_below(x: u64, w: u64)
    requires
        w < 64,
    ensures
        ((x >> w) == 0) <==> (x as int) < pow2(w as nat),
{
    vstd::bits::lemma_u64_pow2_no_overflow(w as nat);
    vstd::bits::lemma_u64_shl_is_mul(1, w);
    assert(((x >> w) == 0) <==> x < (1u64 << w)) by (bit_vector)
        requires
            w < 64;
}

/// The bit width that a fixed-width sequence of these identifiers needs:
/// the fewest bits, at least one, that hold the largest of them.
pub fn required_width(nums: &Vec<u64>) -> (w: u8)
    ensures
        1 <= w <= 64,
        fits_width(nums@, w as nat),
        w > 1 ==> !fits_width(nums@, (w - 1) as nat),
{
    let mut max: u64 = 0;
    let mut i: usize = 0;
    while i < nums.len()
        invariant
            i <= nums.len(),
            forall|j: int| 0 <= j < i ==> nums@[j] <= max,
            max == 0 || exists|j: int| 0 <= j < i && nums@[j] == max,
        decreases nums.len() - i,
    {
        if nums[i] > max {
            max = nums[i];
        }
        i = i + 1;
    }
    let mut w: u64 = 1;
    while w < 64 && (max >> w) != 0
        invariant
            1 <= w <= 64,
            w > 1 ==> (max as int) >= pow2((w - 1) as nat),
        decreases 64 - w,
    {
        proof {
            lemma_shr_zero_iff_below(max, w);
        }
        w = w + 1;
    }
    proof {
        vstd::arithmetic::power2::lemma2_to64();
        vstd::arithmetic::power2::lemma2_to64_rest();
        if w < 64 {
            lemma_shr_zero_iff_below(max, w);
        } else {
            assert(pow2(64) == 0x10000000000000000);
        }
        assert forall|j: int| 0 <= j < nums@.len() implies (#[trigger] nums@[j] as int) < pow2(w as nat) by {
            assert(nums@[j] <= max);
        }
        if w > 1 {
            if max > 0 {
                let j = choose|j: int| 0 <= j < nums@.len() && nums@[j] == max;
                assert(!((nums@[j] as int) < pow2((w - 1) as nat)));
            } else {
                assert(pow2(0) == 1);
                vstd::arithmetic::power2::lemma_pow2_pos((w - 1) as nat);
            }
        }
    }
    w as u8
}

} // verus!
