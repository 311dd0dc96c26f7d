use vstd::prelude::*;
use vstd::seq_lib::lemma_multiset_commutative;
use crate::bounding_box::AxisAlignedBoundingBox;

verus! {

/// One node of the flattened hierarchy as the kernel reads it. A leaf
/// (`is_leaf == 1`) stores its primitive's kind and index in the first two
/// fields; an internal node stores the indices of its two children there.
#[derive(Clone, Copy, Debug, PartialEq, Eq, Structural)]
pub struct BvhNode {
    pub left_or_primitive_type: u32,
    pub right_or_primitive_id: u32,
    pub parent: u32,
    pub is_leaf: u32,
    pub bounding_box: AxisAlignedBoundingBox,
}

/// A primitive to place in the hierarchy: its GPU identity and its box.
#[derive(Clone, Copy, Debug, PartialEq, Eq, Structural)]
pub struct BvhBuildingEntry {
    pub primitive_type: u32,
    pub primitive_id: u32,
    pub bounding_box: AxisAlignedBoundingBox,
}

/// The union of the boxes of `s`.
pub open spec fn union_of(s: Seq<BvhBuildingEntry>) -> AxisAlignedBoundingBox
    decreases s.len(),
{
    if s.len() == 0 {
        AxisAlignedBoundingBox::spec_empty()
    } else {
        union_of(s.drop_last()).spec_merge(s.last().bounding_box)
    }
}

/// The number of leaves among `s`.
pub open spec fn count_leaves(s: Seq<BvhNode>) -> nat
    decreases s.len(),
{
    if s.len() == 0 {
        0
    } else {
        count_leaves(s.drop_last()) + if s.last().is_leaf == 1 {
            1nat
        } else {
            0nat
        }
    }
}

/// The number of leaves of `tree`.
pub fn count_leaves_of(tree: &Vec<BvhNode>) -> (r: usize)
    ensures
        r == count_leaves(tree@),
{
    let mut r: usize = 0;
    let mut i: usize = 0;
    while i < tree.len()
        invariant
            i <= tree.len(),
            r == count_leaves(tree@.take(i as int)),
            r <= i,
        decreases tree.len() - i,
    {
        proof {
            assert(tree@.take(i + 1).drop_last() =~= tree@.take(i as int));
        }
        if tree[i].is_leaf == 1 {
            r += 1;
        }
        i += 1;
    }
    proof {
        assert(tree@.take(tree.len() as int) =~= tree@);
    }
    r
}

/// Leaf `n` stands for entry `e`: same primitive, same box.
pub open spec fn leaf_of(n: BvhNode, e: BvhBuildingEntry) -> bool {
    &&& n.is_leaf == 1
    &&& n.left_or_primitive_type == e.primitive_type
    &&& n.right_or_primitive_id == e.primitive_id
    &&& n.bounding_box == e.bounding_box
}

/// The key by which entries are split along axis `axis`: the low end of
/// their box on that axis.
pub open spec fn split_key(e: BvhBuildingEntry, axis: u8) -> u32 {
    e.bounding_box.spec_axis(axis).min
}

pub fn entry_split_key(e: &BvhBuildingEntry, axis: u8) -> (r: u32)
    ensures
        r == split_key(*e, axis),
{
    e.bounding_box.axis(axis).min
}

/// Relies on slice::select_nth_unstable_by: it reorders the slice
/// `entries[start..end]` so that position `start + median` holds the entry a
/// full sort by `split_key` would put there, with no greater key before it
/// and no smaller key after it. Entries outside the slice are not touched.
#[verifier::external_body]
fn select_median(
    entries: &mut Vec<BvhBuildingEntry>,
    start: usize,
    end: usize,
    median: usize,
    axis: u8,
)
    requires
        start + median < end <= old(entries).len(),
    ensures
        final(entries).len() == old(entries).len(),
        forall|i: int|
            0 <= i < final(entries).len() && !(start <= i < end) ==> final(entries)[i]
                == old(entries)[i],
        final(entries)@.subrange(start as int, end as int).to_multiset() == old(
            entries,
        )@.subrange(start as int, end as int).to_multiset(),
        forall|i: int|
            start <= i < start + median ==> split_key(#[trigger] final(entries)[i], axis) <= split_key(
                final(entries)[start + median],
                axis,
            ),
        forall|i: int|
            start + median < i < end ==> split_key(final(entries)[start + median], axis)
                <= split_key(#[trigger] final(entries)[i], axis),
{
    entries[start..end].select_nth_unstable_by(
        median,
        |a, b| entry_split_key(a, axis).cmp(&entry_split_key(b, axis)),
    );
}

proof fn lemma_count_update(s: Seq<BvhNode>, i: int, n: BvhNode)
    requires
        0 <= i < s.len(),
        s[i].is_leaf == n.is_leaf,
    ensures
        count_leaves(s.update(i, n)) == count_leaves(s),
    decreases s.len(),
{
    if i < s.len() - 1 {
        assert(s.update(i, n).drop_last() =~= s.drop_last().update(i, n));
        lemma_count_update(s.drop_last(), i, n);
    } else {
        assert(s.update(i, n).drop_last() =~= s.drop_last());
    }
}

proof fn lemma_union_step(s: Seq<BvhBuildingEntry>, start: int, i: int)
    requires
        0 <= start <= i < s.len(),
    ensures
        union_of(s.subrange(start, i + 1)) == union_of(s.subrange(start, i)).spec_merge(
            s[i].bounding_box,
        ),
{
    assert(s.subrange(start, i + 1).drop_last() =~= s.subrange(start, i));
}

proof fn lemma_union_concat(a: Seq<BvhBuildingEntry>, b: Seq<BvhBuildingEntry>)
    ensures
        union_of(a + b) == union_of(a).spec_merge(union_of(b)),
    decreases b.len(),
{
    if b.len() == 0 {
        assert(a + b =~= a);
        crate::bounding_box::lemma_empty_merge(union_of(a));
    } else {
        assert((a + b).drop_last() =~= a + b.drop_last());
        lemma_union_concat(a, b.drop_last());
    }
}

/// The union does not depend on the order of the entries.
pub proof fn lemma_union_permutation(s: Seq<BvhBuildingEntry>, t: Seq<BvhBuildingEntry>)
    requires
        s.to_multiset() == t.to_multiset(),
    ensures
        union_of(s) == union_of(t),
    decreases s.len(),
{
    s.to_multiset_ensures();
    t.to_multiset_ensures();
    if s.len() == 0 {
        assert(t.len() == 0);
        assert(t =~= s);
    } else {
        let x = s.last();
        assert(s.to_multiset().count(x) > 0);
        assert(t.contains(x));
        let k = choose|k: int| 0 <= k < t.len() && t[k] == x;
        let s1 = s.drop_last();
        let t1 = t.remove(k);
        assert(s.remove(s.len() - 1) =~= s1);
        assert(s1.to_multiset() =~= t1.to_multiset());
        lemma_union_permutation(s1, t1);
        let head = t.subrange(0, k);
        let tail = t.subrange(k + 1, t.len() as int);
        assert(t =~= head + seq![x] + tail);
        assert(t1 =~= head + tail);
        lemma_union_concat(head + seq![x], tail);
        lemma_union_concat(head, seq![x]);
        lemma_union_concat(head, tail);
        assert(seq![x].drop_last() =~= Seq::<BvhBuildingEntry>::empty());
        crate::bounding_box::lemma_empty_merge(x.bounding_box);
        let h = union_of(head);
        let m = x.bounding_box;
        let r = union_of(tail);
        assert(seq![x].last() == x);
        assert(union_of(Seq::<BvhBuildingEntry>::empty()) == AxisAlignedBoundingBox::spec_empty());
        assert(union_of(seq![x]) == m);
        assert(union_of(t) == h.spec_merge(m).spec_merge(r));
        assert(union_of(s) == h.spec_merge(r).spec_merge(m));
        crate::bounding_box::lemma_merge_commutative_associative(h, m, r);
        crate::bounding_box::lemma_merge_commutative_associative(h, r, m);
        crate::bounding_box::lemma_merge_commutative_associative(m, r, h);
    }
}

/// The entry a leaf stands for.
pub open spec fn entry_of(n: BvhNode) -> BvhBuildingEntry {
    BvhBuildingEntry {
        primitive_type: n.left_or_primitive_type,
        primitive_id: n.right_or_primitive_id,
        bounding_box: n.bounding_box,
    }
}

/// The entries that the leaves among `s` stand for, in order.
pub open spec fn leaf_entries(s: Seq<BvhNode>) -> Seq<BvhBuildingEntry>
    decreases s.len(),
{
    if s.len() == 0 {
        Seq::empty()
    } else {
        leaf_entries(s.drop_last()) + if s.last().is_leaf == 1 {
            seq![entry_of(s.last())]
        } else {
            Seq::empty()
        }
    }
}

/// The subtree rooted at `k` fills `tree[k .. k + 2 * (e - s) - 1]`, and its
/// leaves stand for `ents[s..e]`, each entry by exactly one leaf.
pub open spec fn covers(tree: Seq<BvhNode>, k: int, ents: Seq<BvhBuildingEntry>, s: int, e: int) -> bool {
    &&& 0 <= k
    &&& 0 <= s < e <= ents.len()
    &&& k + 2 * (e - s) - 1 <= tree.len()
    &&& leaf_entries(tree.subrange(k, k + 2 * (e - s) - 1)).to_multiset() == ents.subrange(
        s,
        e,
    ).to_multiset()
}

/// No entry of `ents[s..m]` has a greater split key on `axis` than an entry
/// of `ents[m..e]`.
pub open spec fn split_ordered(ents: Seq<BvhBuildingEntry>, s: int, m: int, e: int, axis: u8) -> bool {
    forall|i: int, j: int|
        #![trigger ents[i], ents[j]]
        s <= i < m <= j < e ==> split_key(ents[i], axis) <= split_key(ents[j], axis)
}

/// Node `k` is the internal node over `ents[s..e]`: its left child follows
/// it and covers the lower half, its right child follows the left subtree
/// and covers the upper half, both name `k` as parent, its box is the union
/// of theirs, and the halves are split at the median along the axis that
/// `f` picked for its box.
pub open spec fn internal_node<F: Fn(AxisAlignedBoundingBox) -> u8>(
    tree: Seq<BvhNode>,
    ents: Seq<BvhBuildingEntry>,
    k: int,
    f: F,
    s: int,
    e: int,
) -> bool {
    let h = (e - s) / 2;
    &&& e - s >= 2
    &&& covers(tree, k, ents, s, e)
    &&& tree[k].is_leaf == 0
    &&& tree[k].left_or_primitive_type as int == k + 1
    &&& tree[k].right_or_primitive_id as int == k + 2 * h
    &&& tree[k + 1].parent as int == k
    &&& tree[k + 2 * h].parent as int == k
    &&& tree[k].bounding_box == tree[k + 1].bounding_box.spec_merge(tree[k + 2 * h].bounding_box)
    &&& covers(tree, k + 1, ents, s, s + h)
    &&& covers(tree, k + 2 * h, ents, s + h, e)
    &&& exists|a: u8|
        #[trigger] f.ensures((tree[k].bounding_box,), a) && split_ordered(ents, s, s + h, e, a)
}

/// Node `k` is a leaf or an internal node over a range inside `ents[lo..hi]`.
pub open spec fn node_ok<F: Fn(AxisAlignedBoundingBox) -> u8>(
    tree: Seq<BvhNode>,
    ents: Seq<BvhBuildingEntry>,
    k: int,
    f: F,
    lo: int,
    hi: int,
) -> bool {
    &&& tree[k].is_leaf == 0 || tree[k].is_leaf == 1
    &&& tree[k].is_leaf == 0 ==> exists|s: int, e: int|
        #![trigger internal_node(tree, ents, k, f, s, e)]
        lo <= s && e <= hi && internal_node(tree, ents, k, f, s, e)
}

/// `t` is `t0` with the subtree over `p[s..e]` appended, rooted at `r`, whose
/// root names `parent`.
pub open spec fn built<F: Fn(AxisAlignedBoundingBox) -> u8>(
    t0: Seq<BvhNode>,
    t: Seq<BvhNode>,
    p: Seq<BvhBuildingEntry>,
    s: int,
    e: int,
    parent: int,
    r: int,
    f: F,
) -> bool {
    &&& r == t0.len()
    &&& t.len() == t0.len() + 2 * (e - s) - 1
    &&& forall|k: int| #![trigger t[k]] 0 <= k < t0.len() ==> t[k] == t0[k]
    &&& count_leaves(t) == count_leaves(t0) + (e - s)
    &&& t[r].parent as int == parent
    &&& covers(t, r, p, s, e)
    &&& forall|k: int| r < k < t.len() ==> r <= #[trigger] t[k].parent < k
    &&& forall|k: int| r <= k < t.len() ==> #[trigger] node_ok(t, p, k, f, s, e)
    &&& e - s == 1 ==> t[r].is_leaf == 1 && entry_of(t[r]) == p[s]
    &&& e - s > 1 ==> internal_node(t, p, r, f, s, e)
}

proof fn lemma_leaf_entries_concat(a: Seq<BvhNode>, b: Seq<BvhNode>)
    ensures
        leaf_entries(a + b) == leaf_entries(a) + leaf_entries(b),
    decreases b.len(),
{
    if b.len() == 0 {
        assert(a + b =~= a);
        assert(leaf_entries(b) =~= Seq::empty());
        assert(leaf_entries(a) + leaf_entries(b) =~= leaf_entries(a));
    } else {
        assert((a + b).drop_last() =~= a + b.drop_last());
        lemma_leaf_entries_concat(a, b.drop_last());
        assert(leaf_entries(a + b) =~= leaf_entries(a) + leaf_entries(b));
    }
}

proof fn lemma_leaf_in_entries(s: Seq<BvhNode>, k: int)
    requires
        0 <= k < s.len(),
        s[k].is_leaf == 1,
    ensures
        leaf_entries(s).contains(entry_of(s[k])),
    decreases s.len(),
{
    if k == s.len() - 1 {
        let l = leaf_entries(s);
        assert(l[l.len() - 1] == entry_of(s[k]));
    } else {
        lemma_leaf_in_entries(s.drop_last(), k);
        let j = choose|j: int| 0 <= j < leaf_entries(s.drop_last()).len() && leaf_entries(s.drop_last())[j] == entry_of(s[k]);
        assert(leaf_entries(s)[j] == entry_of(s[k]));
    }
}

proof fn lemma_in_permutation(a: Seq<BvhBuildingEntry>, b: Seq<BvhBuildingEntry>, i: int)
    requires
        a.to_multiset() == b.to_multiset(),
        0 <= i < a.len(),
    ensures
        exists|j: int| 0 <= j < b.len() && b[j] == a[i],
{
    a.to_multiset_ensures();
    b.to_multiset_ensures();
    assert(a.contains(a[i]));
    assert(a.to_multiset().count(a[i]) > 0);
    assert(b.to_multiset().count(a[i]) > 0);
    assert(b.contains(a[i]));
}

proof fn lemma_covers_frame(
    ta: Seq<BvhNode>,
    pa: Seq<BvhBuildingEntry>,
    tb: Seq<BvhNode>,
    pb: Seq<BvhBuildingEntry>,
    k: int,
    s: int,
    e: int,
    tlo: int,
    lo: int,
    hi: int,
)
    requires
        covers(ta, k, pa, s, e),
        tlo <= k,
        ta.len() <= tb.len(),
        forall|i: int| #![trigger tb[i]] tlo <= i < ta.len() ==> tb[i] == ta[i],
        pa.len() == pb.len(),
        forall|i: int| #![trigger pb[i]] lo <= i < hi ==> pb[i] == pa[i],
        lo <= s,
        e <= hi,
    ensures
        covers(tb, k, pb, s, e),
{
    assert(tb.subrange(k, k + 2 * (e - s) - 1) =~= ta.subrange(k, k + 2 * (e - s) - 1));
    assert(pb.subrange(s, e) =~= pa.subrange(s, e));
}

/// A node keeps its properties where nothing it covers changed.
proof fn lemma_node_ok_frame<F: Fn(AxisAlignedBoundingBox) -> u8>(
    ta: Seq<BvhNode>,
    pa: Seq<BvhBuildingEntry>,
    tb: Seq<BvhNode>,
    pb: Seq<BvhBuildingEntry>,
    k: int,
    f: F,
    lo: int,
    hi: int,
    tlo: int,
    lo2: int,
    hi2: int,
)
    requires
        node_ok(ta, pa, k, f, lo, hi),
        tlo <= k < ta.len() <= tb.len(),
        forall|i: int| #![trigger tb[i]] tlo <= i < ta.len() ==> tb[i] == ta[i],
        pa.len() == pb.len(),
        forall|i: int| #![trigger pb[i]] lo <= i < hi ==> pb[i] == pa[i],
        lo2 <= lo,
        hi <= hi2,
    ensures
        node_ok(tb, pb, k, f, lo2, hi2),
{
    assert(tb[k] == ta[k]);
    if ta[k].is_leaf == 0 {
        let (s, e) = choose|s: int, e: int|
            lo <= s && e <= hi && internal_node(ta, pa, k, f, s, e);
        let h = (e - s) / 2;
        lemma_covers_frame(ta, pa, tb, pb, k, s, e, tlo, lo, hi);
        lemma_covers_frame(ta, pa, tb, pb, k + 1, s, s + h, tlo, lo, hi);
        lemma_covers_frame(ta, pa, tb, pb, k + 2 * h, s + h, e, tlo, lo, hi);
        assert(tb[k + 1] == ta[k + 1]);
        assert(tb[k + 2 * h] == ta[k + 2 * h]);
        let a = choose|a: u8| f.ensures((ta[k].bounding_box,), a) && split_ordered(pa, s, s + h, e, a);
        assert forall|i: int, j: int| s <= i < s + h <= j < e implies split_key(#[trigger] pb[i], a)
            <= split_key(#[trigger] pb[j], a) by {
            assert(pb[i] == pa[i]);
            assert(pb[j] == pa[j]);
        }
        assert(f.ensures((tb[k].bounding_box,), a) && split_ordered(pb, s, s + h, e, a));
        assert(internal_node(tb, pb, k, f, s, e));
    }
}

proof fn lemma_count_push(s: Seq<BvhNode>, n: BvhNode)
    ensures
        count_leaves(s.push(n)) == count_leaves(s) + if n.is_leaf == 1 {
            1nat
        } else {
            0nat
        },
{
    assert(s.push(n).drop_last() =~= s);
}

proof fn lemma_leaf_entries_single(n: BvhNode)
    ensures
        leaf_entries(seq![n]) == if n.is_leaf == 1 {
            seq![entry_of(n)]
        } else {
            Seq::empty()
        },
{
    assert(seq![n].drop_last() =~= Seq::<BvhNode>::empty());
    assert(seq![n].last() == n);
    assert(leaf_entries(Seq::<BvhNode>::empty()) =~= Seq::<BvhBuildingEntry>::empty());
    assert(leaf_entries(seq![n]) =~= if n.is_leaf == 1 {
        seq![entry_of(n)]
    } else {
        Seq::empty()
    });
}

/// Putting an internal node together from its two subtrees.
#[verifier::rlimit(80)]
proof fn lemma_build_internal<F: Fn(AxisAlignedBoundingBox) -> u8>(
    t0: Seq<BvhNode>,
    t2: Seq<BvhNode>,
    t3: Seq<BvhNode>,
    t4: Seq<BvhNode>,
    p0: Seq<BvhBuildingEntry>,
    p1: Seq<BvhBuildingEntry>,
    p2: Seq<BvhBuildingEntry>,
    p3: Seq<BvhBuildingEntry>,
    s: int,
    e: int,
    parent: int,
    axis: u8,
    f: F,
)
    requires
        0 <= s,
        s + 2 <= e <= p0.len(),
        0 <= parent <= u32::MAX,
        t0.len() + 2 * (e - s) <= u32::MAX,
        f.ensures((union_of(p0.subrange(s, e)),), axis),
        // the median split
        p1.len() == p0.len(),
        forall|i: int| #![trigger p1[i]] 0 <= i < p1.len() && !(s <= i < e) ==> p1[i] == p0[i],
        p1.subrange(s, e).to_multiset() == p0.subrange(s, e).to_multiset(),
        forall|i: int|
            s <= i < s + (e - s) / 2 ==> split_key(#[trigger] p1[i], axis) <= split_key(
                p1[s + (e - s) / 2],
                axis,
            ),
        forall|i: int|
            s + (e - s) / 2 < i < e ==> split_key(p1[s + (e - s) / 2], axis) <= split_key(
                #[trigger] p1[i],
                axis,
            ),
        // the left subtree
        p2.len() == p1.len(),
        forall|i: int| #![trigger p2[i]] 0 <= i < p2.len() && !(s <= i < s + (e - s) / 2) ==> p2[i] == p1[i],
        p2.subrange(s, s + (e - s) / 2).to_multiset() == p1.subrange(s, s + (e - s) / 2).to_multiset(),
        built(
            t0.push(
                BvhNode {
                    left_or_primitive_type: 0,
                    right_or_primitive_id: 0,
                    parent: parent as u32,
                    is_leaf: 0,
                    bounding_box: union_of(p0.subrange(s, e)),
                },
            ),
            t2,
            p2,
            s,
            s + (e - s) / 2,
            t0.len() as int,
            t0.len() + 1 as int,
            f,
        ),
        t2[t0.len() as int + 1].bounding_box == union_of(p1.subrange(s, s + (e - s) / 2)),
        // the right subtree
        p3.len() == p2.len(),
        forall|i: int| #![trigger p3[i]] 0 <= i < p3.len() && !(s + (e - s) / 2 <= i < e) ==> p3[i] == p2[i],
        p3.subrange(s + (e - s) / 2, e).to_multiset() == p2.subrange(s + (e - s) / 2, e).to_multiset(),
        built(t2, t3, p3, s + (e - s) / 2, e, t0.len() as int, t2.len() as int, f),
        t3[t2.len() as int].bounding_box == union_of(p2.subrange(s + (e - s) / 2, e)),
        // the root gets its children
        t4 == t3.update(
            t0.len() as int,
            BvhNode {
                left_or_primitive_type: (t0.len() + 1) as u32,
                right_or_primitive_id: t2.len() as u32,
                ..t3[t0.len() as int]
            },
        ),
    ensures
        built(t0, t4, p3, s, e, parent, t0.len() as int, f),
        t4[t0.len() as int].bounding_box == union_of(p0.subrange(s, e)),
{
    let id = t0.len() as int;
    let h = (e - s) / 2;
    let m = s + h;
    let node0 = BvhNode {
        left_or_primitive_type: 0,
        right_or_primitive_id: 0,
        parent: parent as u32,
        is_leaf: 0,
        bounding_box: union_of(p0.subrange(s, e)),
    };
    let t1 = t0.push(node0);
    let l = t2.len() as int;
    assert(l == id + 2 * h);
    assert(t4.len() == id + 2 * (e - s) - 1);
    assert(t3[id] == t2[id] && t2[id] == t1[id]);
    assert(t4[id] == BvhNode { left_or_primitive_type: (id + 1) as u32, right_or_primitive_id: l as u32, ..node0 });
    assert forall|k: int| #![trigger t4[k]] 0 <= k < t0.len() implies t4[k] == t0[k] by {
        assert(t3[k] == t2[k]);
        assert(t2[k] == t1[k]);
    }
    // leaf count
    lemma_count_push(t0, node0);
    lemma_count_update(t3, id, t4[id]);
    // the leaves
    assert(t4.subrange(id + 1, l) =~= t2.subrange(id + 1, l));
    assert(t4.subrange(l, t4.len() as int) =~= t3.subrange(l, t3.len() as int));
    assert(t4.subrange(id, t4.len() as int) =~= seq![t4[id]] + t4.subrange(id + 1, l) + t4.subrange(l, t4.len() as int));
    lemma_leaf_entries_concat(seq![t4[id]] + t4.subrange(id + 1, l), t4.subrange(l, t4.len() as int));
    lemma_leaf_entries_concat(seq![t4[id]], t4.subrange(id + 1, l));
    lemma_leaf_entries_single(t4[id]);
    assert(leaf_entries(seq![t4[id]]) + leaf_entries(t4.subrange(id + 1, l)) =~= leaf_entries(t4.subrange(id + 1, l)));
    assert(p3.subrange(s, m) =~= p2.subrange(s, m));
    assert(p3.subrange(s, e) =~= p3.subrange(s, m) + p3.subrange(m, e));
    lemma_multiset_commutative(p3.subrange(s, m), p3.subrange(m, e));
    lemma_multiset_commutative(leaf_entries(t4.subrange(id + 1, l)), leaf_entries(t4.subrange(l, t4.len() as int)));
    assert(covers(t4, id, p3, s, e));
    // the children
    assert(t4[id + 1] == t2[id + 1]);
    assert(t4[l] == t3[l]);
    assert(covers(t4, id + 1, p3, s, m));
    assert(covers(t4, l, p3, m, e));
    // the box
    assert(p2.subrange(m, e) =~= p1.subrange(m, e));
    assert(p1.subrange(s, e) =~= p1.subrange(s, m) + p1.subrange(m, e));
    lemma_union_permutation(p0.subrange(s, e), p1.subrange(s, e));
    lemma_union_concat(p1.subrange(s, m), p1.subrange(m, e));
    // the split
    assert forall|i: int, j: int| s <= i < m <= j < e implies split_key(#[trigger] p3[i], axis)
        <= split_key(#[trigger] p3[j], axis) by {
        lemma_in_permutation(p2.subrange(s, m), p1.subrange(s, m), i - s);
        let i0 = choose|i0: int| 0 <= i0 < m - s && p1.subrange(s, m)[i0] == p2.subrange(s, m)[i - s];
        assert(p3[i] == p2[i]);
        assert(p1[s + i0] == p3[i]);
        lemma_in_permutation(p3.subrange(m, e), p2.subrange(m, e), j - m);
        let j0 = choose|j0: int| 0 <= j0 < e - m && p2.subrange(m, e)[j0] == p3.subrange(m, e)[j - m];
        assert(p1[m + j0] == p3[j]);
    }
    assert(f.ensures((t4[id].bounding_box,), axis) && split_ordered(p3, s, m, e, axis));
    assert(internal_node(t4, p3, id, f, s, e));
    // parents
    assert forall|k: int| id < k < t4.len() implies id <= #[trigger] t4[k].parent < k by {
        if k < l {
            assert(t4[k] == t2[k]);
        } else {
            assert(t4[k] == t3[k]);
        }
    }
    // every node
    assert forall|k: int| id <= k < t4.len() implies #[trigger] node_ok(t4, p3, k, f, s, e) by {
        if k == id {
        } else if k < l {
            assert(node_ok(t2, p2, k, f, s, m));
            assert forall|i: int| #![trigger t4[i]] id + 1 <= i < t2.len() implies t4[i] == t2[i] by {
                assert(t3[i] == t2[i]);
            }
            lemma_node_ok_frame(t2, p2, t4, p3, k, f, s, m, id + 1, s, e);
        } else {
            assert(node_ok(t3, p3, k, f, m, e));
            lemma_node_ok_frame(t3, p3, t4, p3, k, f, m, e, l, s, e);
        }
    }
}

/// Builds the subtree over `primitives[start..end]` at the end of `tree`,
/// with `parent` as its root's parent, and returns the root's index; an
/// empty range adds nothing and returns `u32::MAX`, which is never a node.
/// The range is reordered in place. `longest_axis` picks the axis (0, 1 or
/// 2) along which a box is split.
pub fn build_bvh_tree<F: Fn(AxisAlignedBoundingBox) -> u8>(
    tree: &mut Vec<BvhNode>,
    primitives: &mut Vec<BvhBuildingEntry>,
    start: usize,
    end: usize,
    parent: usize,
    longest_axis: &F,
) -> (r: u32)
    requires
        start <= end <= old(primitives).len(),
        old(tree).len() + 2 * (end - start) <= u32::MAX,
        parent <= u32::MAX,
        forall|b: AxisAlignedBoundingBox| longest_axis.requires((b,)),
    ensures
        final(primitives).len() == old(primitives).len(),
        forall|i: int|
            #![trigger final(primitives)[i]]
            0 <= i < final(primitives).len() && !(start <= i < end) ==> final(primitives)[i]
                == old(primitives)[i],
        final(primitives)@.subrange(start as int, end as int).to_multiset() == old(
            primitives,
        )@.subrange(start as int, end as int).to_multiset(),
        start == end ==> r == u32::MAX && final(tree)@ == old(tree)@,
        start < end ==> built(
            old(tree)@,
            final(tree)@,
            final(primitives)@,
            start as int,
            end as int,
            parent as int,
            r as int,
            *longest_axis,
        ),
        start < end ==> final(tree)[r as int].bounding_box == union_of(
            old(primitives)@.subrange(start as int, end as int),
        ),
    decreases end - start,
{
    let len = end - start;
    if len == 0 {
        return u32::MAX;
    }
    let median = len / 2;
    let id = tree.len();

    let mut bounding_box = AxisAlignedBoundingBox::empty();
    let mut i: usize = start;
    while i < end
        invariant
            start <= i <= end <= primitives.len(),
            bounding_box == union_of(primitives@.subrange(start as int, i as int)),
        decreases end - i,
    {
        proof {
            lemma_union_step(primitives@, start as int, i as int);
        }
        bounding_box.merge(&primitives[i].bounding_box);
        i += 1;
    }

    if len == 1 {
        let leaf = BvhNode {
            left_or_primitive_type: primitives[start].primitive_type,
            right_or_primitive_id: primitives[start].primitive_id,
            parent: parent as u32,
            is_leaf: 1,
            bounding_box,
        };
        proof {
            let s = start as int;
            assert(primitives@.subrange(s, s + 1).drop_last() =~= Seq::empty());
            assert(primitives@.subrange(s, s + 1).last() == primitives[s]);
            assert(union_of(Seq::<BvhBuildingEntry>::empty()) == AxisAlignedBoundingBox::spec_empty());
            crate::bounding_box::lemma_empty_merge(primitives[s].bounding_box);
            assert(bounding_box == primitives[s].bounding_box);
            lemma_count_push(tree@, leaf);
            lemma_leaf_entries_single(leaf);
            assert(tree@.push(leaf).subrange(id as int, id + 1) =~= seq![leaf]);
            assert(primitives@.subrange(s, s + 1) =~= seq![entry_of(leaf)]);
        }
        tree.push(leaf);
        proof {
            assert(node_ok(tree@, primitives@, id as int, *longest_axis, start as int, end as int));
        }
    } else {
        let ghost p0 = primitives@;
        let ghost t0 = tree@;
        let node = BvhNode {
            left_or_primitive_type: 0,
            right_or_primitive_id: 0,
            parent: parent as u32,
            is_leaf: 0,
            bounding_box,
        };
        tree.push(node);

        let axis = longest_axis(bounding_box);
        select_median(primitives, start, end, median, axis);
        let ghost p1 = primitives@;

        let id_left = build_bvh_tree(tree, primitives, start, start + median, id, longest_axis);
        let ghost p2 = primitives@;
        let ghost t2 = tree@;
        let id_right = build_bvh_tree(tree, primitives, start + median, end, id, longest_axis);
        let ghost p3 = primitives@;
        let ghost t3 = tree@;

        let mut n = tree[id];
        n.left_or_primitive_type = id_left;
        n.right_or_primitive_id = id_right;
        tree.set(id, n);
        proof {
            let s = start as int;
            let m = (start + median) as int;
            let e = end as int;
            assert(p3.subrange(s, m) =~= p2.subrange(s, m));
            assert(p2.subrange(m, e) =~= p1.subrange(m, e));
            assert(p1.subrange(s, e) =~= p1.subrange(s, m) + p1.subrange(m, e));
            assert(p3.subrange(s, e) =~= p3.subrange(s, m) + p3.subrange(m, e));
            lemma_multiset_commutative(p1.subrange(s, m), p1.subrange(m, e));
            lemma_multiset_commutative(p3.subrange(s, m), p3.subrange(m, e));
            lemma_build_internal(
                t0,
                t2,
                t3,
                tree@,
                p0,
                p1,
                p2,
                p3,
                start as int,
                end as int,
                parent as int,
                axis,
                *longest_axis,
            );
        }
    }
    id as u32
}

/// Builds the whole hierarchy over `primitives` (reordering them) and returns
/// it; node 0 is the root.
pub fn build_bvh<F: Fn(AxisAlignedBoundingBox) -> u8>(
    primitives: &mut Vec<BvhBuildingEntry>,
    longest_axis: &F,
) -> (tree: Vec<BvhNode>)
    requires
        2 * old(primitives).len() <= u32::MAX,
        forall|b: AxisAlignedBoundingBox| longest_axis.requires((b,)),
    ensures
        final(primitives)@.to_multiset() == old(primitives)@.to_multiset(),
        old(primitives).len() == 0 ==> tree.len() == 0,
        old(primitives).len() > 0 ==> {
            &&& tree.len() == 2 * old(primitives).len() - 1
            &&& count_leaves(tree@) == old(primitives).len()
            &&& leaf_entries(tree@).to_multiset() == old(primitives)@.to_multiset()
            &&& tree[0].bounding_box == union_of(old(primitives)@)
            &&& tree[0].parent == 0
            &&& forall|k: int|
                #![trigger tree[k]]
                0 <= k < tree.len() && tree[k].is_leaf == 1 ==> exists|j: int|
                    0 <= j < old(primitives).len() && leaf_of(tree[k], old(primitives)[j])
            &&& forall|k: int|
                #![trigger tree[k]]
                0 <= k < tree.len() ==> tree[k].is_leaf == 0 || tree[k].is_leaf == 1
            &&& forall|k: int|
                #![trigger tree[k]]
                0 <= k < tree.len() && tree[k].is_leaf == 0 ==> {
                    let l = tree[k].left_or_primitive_type as int;
                    let r = tree[k].right_or_primitive_id as int;
                    &&& l == k + 1
                    &&& l < r < tree.len()
                    &&& tree[l].parent == k
                    &&& tree[r].parent == k
                    &&& tree[k].bounding_box == tree[l].bounding_box.spec_merge(tree[r].bounding_box)
                }
            &&& forall|k: int|
                0 <= k < tree.len() ==> #[trigger] node_ok(
                    tree@,
                    final(primitives)@,
                    k,
                    *longest_axis,
                    0,
                    old(primitives).len() as int,
                )
        },
{
    let ghost p0 = primitives@;
    let mut tree: Vec<BvhNode> = Vec::new();
    let len = primitives.len();
    build_bvh_tree(&mut tree, primitives, 0, len, 0, longest_axis);
    proof {
        assert(p0.subrange(0, len as int) =~= p0);
        assert(primitives@.subrange(0, len as int) =~= primitives@);
        if len > 0 {
            let t = tree@;
            let p = primitives@;
            let f = *longest_axis;
            assert(t.subrange(0, t.len() as int) =~= t);
            assert(count_leaves(Seq::<BvhNode>::empty()) == 0);
            assert forall|k: int|
                #![trigger tree[k]]
                0 <= k < tree.len() && tree[k].is_leaf == 1 implies exists|j: int|
                    0 <= j < p0.len() && leaf_of(tree[k], p0[j]) by {
                lemma_leaf_in_entries(t, k);
                leaf_entries(t).to_multiset_ensures();
                p0.to_multiset_ensures();
                assert(leaf_entries(t).to_multiset().count(entry_of(t[k])) > 0);
                assert(p0.to_multiset().count(entry_of(t[k])) > 0);
                assert(p0.contains(entry_of(t[k])));
            }
            assert forall|k: int|
                #![trigger tree[k]]
                0 <= k < tree.len() && tree[k].is_leaf == 0 implies {
                    let l = tree[k].left_or_primitive_type as int;
                    let r = tree[k].right_or_primitive_id as int;
                    &&& l == k + 1
                    &&& l < r < tree.len()
                    &&& tree[l].parent == k
                    &&& tree[r].parent == k
                    &&& tree[k].bounding_box == tree[l].bounding_box.spec_merge(tree[r].bounding_box)
                } by {
                assert(node_ok(t, p, k, f, 0, len as int));
                let (s, e) = choose|s: int, e: int| 0 <= s && e <= len && internal_node(t, p, k, f, s, e);
            }
            assert forall|k: int|
                #![trigger tree[k]]
                0 <= k < tree.len() implies tree[k].is_leaf == 0 || tree[k].is_leaf == 1 by {
                assert(node_ok(t, p, k, f, 0, len as int));
            }
        }
    }
    tree
}

} // verus!
