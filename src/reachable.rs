use vstd::prelude::*;
use itertools::Itertools;
use crate::layer_id::{LayerId, is_name, name_from_bytes, name_id};
use crate::text::{bytes_equal, copy_range};
use vstd::string::StringSliceAdditionalSpecFns;
use crate::status::same_layer;

verus! {

broadcast use vstd::array::group_array_axioms;

/// An edge of the processing plan: a layer's parent (`None` for a base
/// layer) and the layer.
pub type PlanEdge = (Option<LayerId>, LayerId);

/// Lexicographic order on identifiers, word by word.
pub open spec fn layer_le(a: LayerId, b: LayerId) -> bool {
    a[0] < b[0] || (a[0] == b[0] && (a[1] < b[1] || (a[1] == b[1] && (a[2] < b[2] || (a[2] == b[2]
        && (a[3] < b[3] || (a[3] == b[3] && a[4] <= b[4])))))))
}

/// Order on plan edges: by parent (`None` first), then by layer.
pub open spec fn edge_le(a: PlanEdge, b: PlanEdge) -> bool {
    match (a.0, b.0) {
        (None, None) => layer_le(a.1, b.1),
        (None, Some(_)) => true,
        (Some(_), None) => false,
        (Some(x), Some(y)) => (layer_le(x, y) && x != y) || (x == y && layer_le(a.1, b.1)),
    }
}

/// Relies on slice::sort: ascending order of `(Option<[u32; 5]>, [u32; 5])`,
/// which compares `None` below `Some` and arrays word by word; the same
/// elements as before.
#[verifier::external_body]
fn sort_edges(v: &mut Vec<PlanEdge>)
    ensures
        final(v)@.to_multiset() == old(v)@.to_multiset(),
        forall|i: int, j: int| 0 <= i <= j < final(v)@.len() ==> edge_le(final(v)@[i], final(v)@[j]),
{
    v.sort();
}

/// The layers of the edges under parent `k`, in edge order.
pub open spec fn edges_under(s: Seq<PlanEdge>, k: Option<LayerId>) -> Seq<LayerId>
    decreases s.len(),
{
    if s.len() == 0 {
        Seq::empty()
    } else {
        let rest = edges_under(s.drop_last(), k);
        if s.last().0 == k {
            rest.push(s.last().1)
        } else {
            rest
        }
    }
}

/// Relies on Itertools::group_by: the edges are cut into runs of one
/// parent, in order, each run keyed by its parent; so the runs keyed by `k`
/// hold, in order, the layers of the edges under `k`.
#[verifier::external_body]
fn group_by_parent(v: Vec<PlanEdge>) -> (r: Vec<(Option<LayerId>, Vec<LayerId>)>)
    ensures
        forall|k: Option<LayerId>| #[trigger] key_children(r@, k) == edges_under(v@, k),
{
    v.into_iter().group_by(|e| e.0).into_iter().map(|(k, g)| (k, g.map(|e| e.1).collect())).collect()
}

/// The layers of every group keyed by `k`, in group order.
pub open spec fn key_children(g: Seq<(Option<LayerId>, Vec<LayerId>)>, k: Option<LayerId>) -> Seq<LayerId>
    decreases g.len(),
{
    if g.len() == 0 {
        Seq::empty()
    } else {
        key_children(g.drop_last(), k) + if g.last().0 == k {
            g.last().1@
        } else {
            Seq::empty()
        }
    }
}

/// A sequence with each element that repeats the one before it dropped.
pub open spec fn dedup_adjacent(s: Seq<LayerId>) -> Seq<LayerId>
    decreases s.len(),
{
    if s.len() == 0 {
        Seq::empty()
    } else {
        let r = dedup_adjacent(s.drop_last());
        if r.len() > 0 && r.last() == s.last() {
            r
        } else {
            r.push(s.last())
        }
    }
}

pub open spec fn layers_sorted(s: Seq<LayerId>) -> bool {
    forall|i: int, j: int| #![trigger s[i], s[j]] 0 <= i <= j < s.len() ==> layer_le(s[i], s[j])
}

pub open spec fn layers_strictly_sorted(s: Seq<LayerId>) -> bool {
    forall|i: int, j: int|
        #![trigger s[i], s[j]]
        0 <= i < j < s.len() ==> layer_le(s[i], s[j]) && s[i] != s[j]
}

proof fn lemma_layer_le_antisymmetric(a: LayerId, b: LayerId)
    requires
        layer_le(a, b),
        layer_le(b, a),
    ensures
        a == b,
{
    assert(a =~= b);
}

proof fn lemma_edges_under(s: Seq<PlanEdge>, k: Option<LayerId>)
    ensures
        forall|c: LayerId| edges_under(s, k).contains(c) <==> s.contains((k, c)),
        (forall|i: int, j: int| 0 <= i <= j < s.len() ==> edge_le(s[i], s[j])) ==> layers_sorted(edges_under(s, k)),
    decreases s.len(),
{
    if s.len() > 0 {
        let p = s.drop_last();
        lemma_edges_under(p, k);
        assert(s == p.push(s.last()));
        if s.last().0 == k {
            assert(edges_under(s, k) == edges_under(p, k).push(s.last().1));
        } else {
            assert(edges_under(s, k) == edges_under(p, k));
        }
        assert forall|c: LayerId| edges_under(s, k).contains(c) <==> s.contains((k, c)) by {
            lemma_push_contains(p, s.last(), (k, c));
            if s.last().0 == k {
                lemma_push_contains(edges_under(p, k), s.last().1, c);
            }
        }
        if forall|i: int, j: int| 0 <= i <= j < s.len() ==> edge_le(s[i], s[j]) {
            assert forall|i: int, j: int| 0 <= i <= j < p.len() implies edge_le(p[i], p[j]) by {
                assert(p[i] == s[i] && p[j] == s[j]);
            }
            let r = edges_under(s, k);
            let q = edges_under(p, k);
            if s.last().0 == k {
                assert forall|i: int, j: int| 0 <= i <= j < r.len() implies layer_le(r[i], r[j]) by {
                    if j == r.len() - 1 {
                        assert(q.contains(q[i]) || i == j);
                        if i < j {
                            assert(p.contains((k, q[i])));
                            let m = choose|m: int| 0 <= m < p.len() && p[m] == (k, q[i]);
                            assert(edge_le(s[m], s[s.len() - 1]));
                        }
                    }
                }
            }
        }
    }
}

proof fn lemma_dedup_adjacent(s: Seq<LayerId>)
    ensures
        forall|c: LayerId| dedup_adjacent(s).contains(c) <==> s.contains(c),
        s.len() > 0 ==> dedup_adjacent(s).len() > 0 && dedup_adjacent(s).last() == s.last(),
        layers_sorted(s) ==> layers_strictly_sorted(dedup_adjacent(s)),
    decreases s.len(),
{
    if s.len() > 0 {
        let p = s.drop_last();
        let x = s.last();
        let r = dedup_adjacent(p);
        lemma_dedup_adjacent(p);
        assert(s == p.push(x));
        assert forall|c: LayerId| dedup_adjacent(s).contains(c) <==> s.contains(c) by {
            lemma_push_contains(p, x, c);
            lemma_push_contains(r, x, c);
            if r.len() > 0 && r.last() == x {
                assert(r[r.len() - 1] == x);
            }
        }
        if layers_sorted(s) {
            assert forall|i: int, j: int| 0 <= i <= j < p.len() implies layer_le(p[i], p[j]) by {
                assert(p[i] == s[i] && p[j] == s[j]);
            }
            if !(r.len() > 0 && r.last() == x) {
                let d = dedup_adjacent(s);
                assert forall|i: int, j: int| 0 <= i < j < d.len() implies layer_le(d[i], d[j]) && d[i] != d[j] by {
                    if j == d.len() - 1 {
                        assert(d[i] == r[i]);
                        assert(r.contains(r[i]));
                        assert(p.contains(r[i]));
                        let m = choose|m: int| 0 <= m < p.len() && p[m] == r[i];
                        assert(s[m] == p[m]);
                        assert(layer_le(s[m], s[s.len() - 1]));
                        if d[i] == d[j] {
                            assert(layer_le(s[m], s[p.len() - 1]));
                            assert(layer_le(s[p.len() - 1], s[s.len() - 1]));
                            assert(r.last() == p.last());
                            lemma_layer_le_antisymmetric(s[m], s[p.len() - 1]);
                        }
                    } else {
                        assert(d[i] == r[i] && d[j] == r[j]);
                    }
                }
            }
        }
    }
}

/// Which layers to convert under which parent: the parent-to-children
/// multimap that the store traversal walks, `None` keying the base layers.
pub struct ConversionPlan {
    pub groups: Vec<(Option<LayerId>, Vec<LayerId>)>,
}

impl ConversionPlan {
    /// The groups keyed by one parent hold its layers in ascending order.
    pub open spec fn wf(&self) -> bool {
        forall|k: Option<LayerId>| #[trigger] layers_sorted(key_children(self.groups@, k))
    }

    /// The layers planned under a parent: ascending, each once.
    pub open spec fn children(&self, k: Option<LayerId>) -> Seq<LayerId> {
        dedup_adjacent(key_children(self.groups@, k))
    }

    /// Groups the edges found by the reachability walk by parent: the edges
    /// are sorted and cut into runs of one parent. Under each parent the plan
    /// holds exactly the layers of its edges, in ascending order, each once.
    pub fn from_edges(edges: Vec<PlanEdge>) -> (r: ConversionPlan)
        ensures
            r.wf(),
            forall|k: Option<LayerId>, c: LayerId|
                #[trigger] r.children(k).contains(c) <==> edges@.contains((k, c)),
            forall|k: Option<LayerId>| layers_strictly_sorted(#[trigger] r.children(k)),
    {
        let ghost e0 = edges@;
        let mut sorted = edges;
        sort_edges(&mut sorted);
        let ghost s = sorted@;
        let groups = group_by_parent(sorted);
        let r = ConversionPlan { groups };
        proof {
            assert forall|k: Option<LayerId>| #[trigger] layers_sorted(key_children(r.groups@, k)) by {
                lemma_edges_under(s, k);
            }
            assert forall|k: Option<LayerId>, c: LayerId| #[trigger] r.children(k).contains(c) <==> e0.contains((k, c)) by {
                lemma_edges_under(s, k);
                lemma_dedup_adjacent(key_children(r.groups@, k));
                lemma_multiset_contains(e0, s, (k, c));
                assert(key_children(r.groups@, k) == edges_under(s, k));
                assert(r.children(k).contains(c) <==> key_children(r.groups@, k).contains(c));
                assert(edges_under(s, k).contains(c) <==> s.contains((k, c)));
            }
            assert forall|k: Option<LayerId>| layers_strictly_sorted(#[trigger] r.children(k)) by {
                lemma_edges_under(s, k);
                lemma_dedup_adjacent(key_children(r.groups@, k));
            }
        }
        r
    }

    /// The layers planned under a parent.
    pub fn children_of(&self, k: &Option<LayerId>) -> (r: Vec<LayerId>)
        ensures
            r@ == self.children(*k),
    {
        let mut all: Vec<LayerId> = Vec::new();
        let mut i: usize = 0;
        while i < self.groups.len()
            invariant
                i <= self.groups.len(),
                all@ == key_children(self.groups@.take(i as int), *k),
            decreases self.groups.len() - i,
        {
            proof {
                assert(self.groups@.take(i + 1).drop_last() == self.groups@.take(i as int));
            }
            if same_parent(&self.groups[i].0, k) {
                let mut c = copy_layers(&self.groups[i].1);
                all.append(&mut c);
            }
            i = i + 1;
        }
        proof {
            assert(self.groups@.take(self.groups.len() as int) == self.groups@);
        }
        dedup_layers(&all)
    }
}

proof fn lemma_multiset_contains<T>(a: Seq<T>, b: Seq<T>, x: T)
    requires
        a.to_multiset() == b.to_multiset(),
    ensures
        a.contains(x) <==> b.contains(x),
{
    a.to_multiset_ensures();
    b.to_multiset_ensures();
    assert(a.contains(x) <==> a.to_multiset().count(x) > 0);
    assert(b.contains(x) <==> b.to_multiset().count(x) > 0);
}

fn copy_layers(v: &Vec<LayerId>) -> (r: Vec<LayerId>)
    ensures
        r@ == v@,
{
    let mut r: Vec<LayerId> = Vec::new();
    let mut i: usize = 0;
    while i < v.len()
        invariant
            i <= v.len(),
            r@ == v@.take(i as int),
        decreases v.len() - i,
    {
        r.push(v[i]);
        proof {
            assert(v@.take(i + 1) == v@.take(i as int).push(v@[i as int]));
        }
        i = i + 1;
    }
    proof {
        assert(v@.take(v.len() as int) == v@);
    }
    r
}

fn same_parent(a: &Option<LayerId>, b: &Option<LayerId>) -> (r: bool)
    ensures
        r == (*a == *b),
{
    match (a, b) {
        (None, None) => true,
        (Some(x), Some(y)) => same_layer(x, y),
        _ => false,
    }
}

proof fn lemma_push_contains<T>(s: Seq<T>, x: T, c: T)
    ensures
        s.push(x).contains(c) <==> (s.contains(c) || c == x),
{
    if s.push(x).contains(c) {
        let j = choose|j: int| 0 <= j < s.push(x).len() && s.push(x)[j] == c;
        if j < s.len() {
            assert(s[j] == c);
        }
    }
    if s.contains(c) {
        let j = choose|j: int| 0 <= j < s.len() && s[j] == c;
        assert(s.push(x)[j] == c);
    }
    if c == x {
        assert(s.push(x)[s.len() as int] == x);
    }
}

/// Drops each layer that repeats the one before it.
fn dedup_layers(v: &Vec<LayerId>) -> (r: Vec<LayerId>)
    ensures
        r@ == dedup_adjacent(v@),
{
    let mut r: Vec<LayerId> = Vec::new();
    let mut i: usize = 0;
    while i < v.len()
        invariant
            i <= v.len(),
            r@ == dedup_adjacent(v@.take(i as int)),
        decreases v.len() - i,
    {
        proof {
            assert(v@.take(i + 1).drop_last() == v@.take(i as int));
        }
        let x = v[i];
        let repeat = r.len() > 0 && same_layer(&r[r.len() - 1], &x);
        if !repeat {
            r.push(x);
        }
        i = i + 1;
    }
    proof {
        assert(v@.take(v.len() as int) == v@);
    }
    r
}

pub const REF_LABEL: &'static str = "http%3a%2f%2fterminusdb.com%2fschema%2fref";

pub const REPOSITORY_LABEL: &'static str = "http%3a%2f%2fterminusdb.com%2fschema%2frepository";

pub const WOQL_LABEL: &'static str = "http%3a%2f%2fterminusdb.com%2fschema%2fwoql";

pub const SYSTEM_DATA_LABEL: &'static str = "terminusdb%3a%2f%2f%2fsystem%2fdata";

pub const SYSTEM_SCHEMA_LABEL: &'static str = "terminusdb%3a%2f%2f%2fsystem%2fschema";

/// The labels of the system's own graphs, whose layers are taken as they are
/// rather than read as meta-graphs.
pub open spec fn special_label(name: Seq<char>) -> bool {
    name == REF_LABEL@ || name == REPOSITORY_LABEL@ || name == WOQL_LABEL@ || name
        == SYSTEM_DATA_LABEL@ || name == SYSTEM_SCHEMA_LABEL@
}

/// Whether a label is one of the system's own.
pub fn is_special_label(name: &str) -> (r: bool)
    ensures
        r == special_label(name@),
{
    let n = name.to_owned();
    n == REF_LABEL.to_owned() || n == REPOSITORY_LABEL.to_owned() || n == WOQL_LABEL.to_owned()
        || n == SYSTEM_DATA_LABEL.to_owned() || n == SYSTEM_SCHEMA_LABEL.to_owned()
}

/// The head layers of the labels that are (`special`) or are not the
/// system's own, in label order; a label that points at no layer is passed
/// over.
pub open spec fn label_heads(labels: Seq<(String, Option<LayerId>)>, special: bool) -> Seq<LayerId>
    decreases labels.len(),
{
    if labels.len() == 0 {
        Seq::empty()
    } else {
        let rest = label_heads(labels.drop_last(), special);
        match labels.last().1 {
            Some(id) => if special_label(labels.last().0@) == special {
                rest.push(id)
            } else {
                rest
            },
            None => rest,
        }
    }
}

/// The head layers that labels point at, split in two: those of the
/// system's own labels, and the others (data products, whose layers are
/// meta-graphs).
pub fn split_labels(labels: &Vec<(String, Option<LayerId>)>) -> (r: (Vec<LayerId>, Vec<LayerId>))
    ensures
        r.0@ == label_heads(labels@, true),
        r.1@ == label_heads(labels@, false),
{
    let mut special: Vec<LayerId> = Vec::new();
    let mut products: Vec<LayerId> = Vec::new();
    let mut i: usize = 0;
    while i < labels.len()
        invariant
            i <= labels.len(),
            special@ == label_heads(labels@.take(i as int), true),
            products@ == label_heads(labels@.take(i as int), false),
        decreases labels.len() - i,
    {
        proof {
            assert(labels@.take(i + 1).drop_last() == labels@.take(i as int));
        }
        match labels[i].1 {
            None => {},
            Some(id) => {
                if is_special_label(labels[i].0.as_str()) {
                    special.push(id);
                } else {
                    products.push(id);
                }
            },
        }
        i = i + 1;
    }
    proof {
        assert(labels@.take(labels.len() as int) == labels@);
    }
    (special, products)
}

pub const STRING_SUFFIX: &'static str = "\"^^'http://www.w3.org/2001/XMLSchema#string'";

pub const DOUBLE_QUOTE: u8 = 34;

/// A meta-graph names a layer by a string value: a double quote, the layer's
/// forty hex digits, and the string suffix.
pub open spec fn layer_id_value(b: Seq<u8>, suffix: Seq<u8>) -> Option<LayerId> {
    if b.len() == 41 + suffix.len() && b[0] == DOUBLE_QUOTE && b.subrange(41, b.len() as int)
        == suffix && is_name(b.subrange(1, 41)) {
        Some(name_id(b.subrange(1, 41)))
    } else {
        None
    }
}

/// The layer that a meta-graph's identifier value names, if it has that form.
pub fn layer_id_value_to_id(val: &str) -> (r: Option<LayerId>)
    ensures
        r == layer_id_value(val.spec_bytes(), STRING_SUFFIX.spec_bytes()),
{
    let b = val.as_bytes();
    let suffix = STRING_SUFFIX.as_bytes();
    if b.len() < 41 || b.len() - 41 != suffix.len() || b[0] != DOUBLE_QUOTE {
        return None;
    }
    let tail = copy_range(b, 41, b.len());
    if !bytes_equal(tail.as_slice(), suffix) {
        return None;
    }
    let name = copy_range(b, 1, 41);
    name_from_bytes(name.as_slice())
}

/// The walk from the discovered layers up their parent chains. The caller
/// takes the next layer, looks up its parent and records it, until no layer
/// is left; the recorded edges then make the plan.
pub struct ReachableWalk {
    pub pending: Vec<LayerId>,
    pub discovered: Vec<LayerId>,
    pub edges: Vec<PlanEdge>,
}

impl ReachableWalk {
    /// A walk that starts from the given layers.
    pub fn new(layers: Vec<LayerId>) -> (r: ReachableWalk)
        ensures
            r.pending@ == layers@,
            r.discovered@ == layers@,
            r.edges@.len() == 0,
    {
        let discovered = copy_layers(&layers);
        ReachableWalk { pending: layers, discovered, edges: Vec::new() }
    }

    /// The next layer whose parent is to be looked up, if any is left.
    pub fn next_layer(&mut self) -> (r: Option<LayerId>)
        ensures
            old(self).pending@.len() == 0 ==> r is None && final(self).pending@ == old(self).pending@,
            old(self).pending@.len() > 0 ==> r == Some(old(self).pending@.last())
                && final(self).pending@ == old(self).pending@.drop_last(),
            final(self).discovered@ == old(self).discovered@,
            final(self).edges@ == old(self).edges@,
    {
        self.pending.pop()
    }

    /// Records a layer's parent (`None` for a base layer). A parent not seen
    /// before is discovered and queued in turn.
    pub fn record_parent(&mut self, layer: LayerId, parent: Option<LayerId>)
        ensures
            final(self).edges@ == old(self).edges@.push((parent, layer)),
            match parent {
                Some(p) => if old(self).discovered@.contains(p) {
                    final(self).discovered@ == old(self).discovered@ && final(self).pending@ == old(self).pending@
                } else {
                    final(self).discovered@ == old(self).discovered@.push(p) && final(self).pending@ == old(self).pending@.push(p)
                },
                None => final(self).discovered@ == old(self).discovered@ && final(self).pending@ == old(self).pending@,
            },
    {
        self.edges.push((parent, layer));
        match parent {
            None => {},
            Some(p) => {
                if !contains_layer(&self.discovered, &p) {
                    self.discovered.push(p);
                    self.pending.push(p);
                }
            },
        }
    }

    /// The plan made of the recorded edges.
    pub fn into_plan(self) -> (r: ConversionPlan)
        ensures
            r.wf(),
            forall|k: Option<LayerId>, c: LayerId|
                #[trigger] r.children(k).contains(c) <==> self.edges@.contains((k, c)),
            forall|k: Option<LayerId>| layers_strictly_sorted(#[trigger] r.children(k)),
    {
        ConversionPlan::from_edges(self.edges)
    }
}

fn contains_layer(v: &Vec<LayerId>, x: &LayerId) -> (r: bool)
    ensures
        r == v@.contains(*x),
{
    let mut i: usize = 0;
    while i < v.len()
        invariant
            i <= v.len(),
            forall|j: int| 0 <= j < i ==> v@[j] != *x,
        decreases v.len() - i,
    {
        if same_layer(&v[i], x) {
            return true;
        }
        i = i + 1;
    }
    false
}

} // verus!
