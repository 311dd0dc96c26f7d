use vstd::prelude::*;
use crate::bounding_box::AxisAlignedBoundingBox;
use crate::bvh::{build_bvh, count_leaves, leaf_entries, leaf_of, union_of, BvhBuildingEntry, BvhNode};
use crate::scene::{count_kind, important_primitives, index_primitives, PrimitiveIndex, PrimitiveKind};

verus! {

/// What a scene load hands to the GPU besides geometry and materials: the
/// identity of every primitive, those of the important ones, and the
/// hierarchy over all of them.
pub struct SceneLayout {
    pub indices: Vec<PrimitiveIndex>,
    pub importance: Vec<PrimitiveIndex>,
    pub bvh: Vec<BvhNode>,
}

/// The hierarchy entry of each primitive: its identity and its box.
pub open spec fn entries_of(indices: Seq<PrimitiveIndex>, boxes: Seq<AxisAlignedBoundingBox>) -> Seq<
    BvhBuildingEntry,
> {
    Seq::new(
        indices.len(),
        |i: int|
            BvhBuildingEntry {
                primitive_type: indices[i].primitive_type,
                primitive_id: indices[i].primitive_id,
                bounding_box: boxes[i],
            },
    )
}

/// Lays out a flattened scene of primitives of the given kinds and boxes,
/// with `important_indices` their positions of the important ones.
pub fn layout_scene<F: Fn(AxisAlignedBoundingBox) -> u8>(
    kinds: &Vec<PrimitiveKind>,
    boxes: &Vec<AxisAlignedBoundingBox>,
    important_indices: &Vec<u32>,
    longest_axis: &F,
) -> (r: SceneLayout)
    requires
        boxes.len() == kinds.len(),
        2 * kinds.len() <= u32::MAX,
        forall|k: int| 0 <= k < important_indices.len() ==> #[trigger] important_indices[k] < kinds.len(),
        forall|b: AxisAlignedBoundingBox| longest_axis.requires((b,)),
    ensures
        r.indices.len() == kinds.len(),
        forall|i: int|
            0 <= i < kinds.len() ==> (#[trigger] r.indices[i]).primitive_type == kinds[i].spec_code()
                && r.indices[i].primitive_id == count_kind(kinds@.take(i), kinds[i]),
        r.importance.len() == important_indices.len(),
        forall|k: int|
            0 <= k < important_indices.len() ==> #[trigger] r.importance[k] == r.indices[important_indices[k] as int],
        kinds.len() == 0 ==> r.bvh.len() == 0,
        kinds.len() > 0 ==> {
            let entries = entries_of(r.indices@, boxes@);
            &&& r.bvh.len() == 2 * kinds.len() - 1
            &&& count_leaves(r.bvh@) == kinds.len()
            &&& leaf_entries(r.bvh@).to_multiset() == entries.to_multiset()
            &&& r.bvh[0].bounding_box == union_of(entries)
            &&& r.bvh[0].parent == 0
            &&& forall|k: int|
                #![trigger r.bvh[k]]
                0 <= k < r.bvh.len() && r.bvh[k].is_leaf == 1 ==> exists|j: int|
                    0 <= j < kinds.len() && leaf_of(r.bvh[k], entries[j])
            &&& forall|k: int|
                #![trigger r.bvh[k]]
                0 <= k < r.bvh.len() ==> r.bvh[k].is_leaf == 0 || r.bvh[k].is_leaf == 1
            &&& forall|k: int|
                #![trigger r.bvh[k]]
                0 <= k < r.bvh.len() && r.bvh[k].is_leaf == 0 ==> {
                    let l = r.bvh[k].left_or_primitive_type as int;
                    let c = r.bvh[k].right_or_primitive_id as int;
                    &&& l == k + 1
                    &&& l < c < r.bvh.len()
                    &&& r.bvh[l].parent == k
                    &&& r.bvh[c].parent == k
                    &&& r.bvh[k].bounding_box == r.bvh[l].bounding_box.spec_merge(r.bvh[c].bounding_box)
                }
        },
{
    let indices = index_primitives(kinds);
    let importance = important_primitives(&indices, important_indices);
    let mut entries: Vec<BvhBuildingEntry> = Vec::new();
    let mut i: usize = 0;
    while i < indices.len()
        invariant
            i <= indices.len() == boxes.len(),
            entries@ =~= entries_of(indices@, boxes@).take(i as int),
        decreases indices.len() - i,
    {
        entries.push(
            BvhBuildingEntry {
                primitive_type: indices[i].primitive_type,
                primitive_id: indices[i].primitive_id,
                bounding_box: boxes[i],
            },
        );
        i += 1;
    }
    proof {
        assert(entries@ =~= entries_of(indices@, boxes@).take(indices.len() as int));
        assert(entries@ =~= entries_of(indices@, boxes@));
    }
    let ghost e0 = entries@;
    let bvh = build_bvh(&mut entries, longest_axis);
    proof {
        if kinds.len() > 0 {
            assert forall|k: int|
                #![trigger bvh[k]]
                0 <= k < bvh.len() && bvh[k].is_leaf == 1 implies exists|j: int|
                    0 <= j < kinds.len() && leaf_of(bvh[k], entries_of(indices@, boxes@)[j]) by {
                let j = choose|j: int| 0 <= j < e0.len() && leaf_of(bvh[k], e0[j]);
                assert(e0[j] == entries_of(indices@, boxes@)[j]);
            }
        }
    }
    SceneLayout { indices, importance, bvh }
}

} // verus!
