use std::cell::Cell;

use ray_tracer::bounding_box::{order_key, AxisAlignedBoundingBox, Interval};
use ray_tracer::bvh::count_leaves_of;
use ray_tracer::layout::layout_scene;
use ray_tracer::scene::{important_primitives, index_primitives, MeshList, PrimitiveIndex, PrimitiveKind};

fn key(x: f32) -> u32 {
    order_key(x.to_bits())
}

const QUAD: PrimitiveKind = PrimitiveKind::Quad;
const SPHERE: PrimitiveKind = PrimitiveKind::Sphere;

fn first_axis(_: AxisAlignedBoundingBox) -> u8 {
    0
}

#[derive(Clone, Copy, Debug, PartialEq)]
struct Shape {
    kind: PrimitiveKind,
    size: u32,
}

#[test]
fn index_primitives_counts_within_kind() {
    let kinds = vec![QUAD, QUAD, SPHERE, QUAD, SPHERE, SPHERE];
    let r = index_primitives(&kinds);
    let expected = [(0, 0), (0, 1), (1, 0), (0, 2), (1, 1), (1, 2)];
    assert_eq!(r.len(), expected.len());
    for (got, (t, id)) in r.iter().zip(expected) {
        assert_eq!(*got, PrimitiveIndex { primitive_type: t, primitive_id: id });
    }
    assert!(index_primitives(&Vec::new()).is_empty());
}

#[test]
fn important_primitives_follow_indices() {
    let indices = index_primitives(&vec![QUAD, SPHERE, QUAD]);
    let r = important_primitives(&indices, &vec![2, 1]);
    assert_eq!(
        r,
        vec![
            PrimitiveIndex { primitive_type: 0, primitive_id: 1 },
            PrimitiveIndex { primitive_type: 1, primitive_id: 0 },
        ]
    );
}

#[test]
fn traversal_appends_records_and_important_positions() {
    let mut list: MeshList<Shape, u32> = MeshList::new();
    list.add(Shape { kind: PrimitiveKind::Quad, size: 1 }, false);
    list.add(Shape { kind: PrimitiveKind::Sphere, size: 2 }, true);
    list.add(Shape { kind: PrimitiveKind::Quad, size: 3 }, true);
    assert_eq!(list.len(), 3);
    let mut primitives = vec![100u32, 200];
    let mut important = vec![7u32];
    list.primitives(&mut primitives, &mut important, &|s: &Shape| s.size * 10);
    assert_eq!(primitives, vec![100, 200, 10, 20, 30]);
    assert_eq!(important, vec![7, 3, 4]);
}

#[test]
fn records_are_encoded_once_until_the_shape_changes() {
    let calls = Cell::new(0u32);
    let encode = |s: &Shape| {
        calls.set(calls.get() + 1);
        s.size
    };
    let mut list: MeshList<Shape, u32> = MeshList::new();
    list.add(Shape { kind: PrimitiveKind::Quad, size: 5 }, false);
    list.add(Shape { kind: PrimitiveKind::Quad, size: 6 }, false);
    let (mut p, mut i) = (Vec::new(), Vec::new());
    list.primitives(&mut p, &mut i, &encode);
    assert_eq!(calls.get(), 2);
    let (mut p, mut i) = (Vec::new(), Vec::new());
    list.primitives(&mut p, &mut i, &encode);
    assert_eq!(calls.get(), 2);
    assert_eq!(p, vec![5, 6]);
    list.set_shape(1, Shape { kind: PrimitiveKind::Quad, size: 9 });
    assert_eq!(list.shape(1).size, 9);
    let (mut p, mut i) = (Vec::new(), Vec::new());
    list.primitives(&mut p, &mut i, &encode);
    assert_eq!(calls.get(), 3);
    assert_eq!(p, vec![5, 9]);
    assert!(i.is_empty());
}

#[test]
fn one_important_quad_scene() {
    // a unit quad in the z = 0 plane centred at the origin, padded in z
    let quad_box = AxisAlignedBoundingBox::new(
        Interval::new(key(-0.5), key(0.5)),
        Interval::new(key(-0.5), key(0.5)),
        Interval::new(key(-0.00005), key(0.00005)),
    );
    let mut list: MeshList<Shape, AxisAlignedBoundingBox> = MeshList::new();
    list.add(Shape { kind: PrimitiveKind::Quad, size: 1 }, true);
    let (mut primitives, mut important) = (Vec::new(), Vec::new());
    list.primitives(&mut primitives, &mut important, &|_: &Shape| quad_box);
    assert_eq!(primitives.len(), 1);
    assert_eq!(important, vec![0]);

    let layout = layout_scene(&vec![PrimitiveKind::Quad], &primitives, &important, &first_axis);
    assert_eq!(layout.indices, vec![PrimitiveIndex { primitive_type: 0, primitive_id: 0 }]);
    assert_eq!(layout.importance, vec![PrimitiveIndex { primitive_type: 0, primitive_id: 0 }]);
    assert_eq!(layout.bvh.len(), 1);
    assert_eq!(count_leaves_of(&layout.bvh), 1);
    assert_eq!(layout.bvh[0].is_leaf, 1);
    assert_eq!(layout.bvh[0].bounding_box, quad_box);
}

#[test]
fn layout_of_mixed_scene() {
    let boxes: Vec<AxisAlignedBoundingBox> = (0..5)
        .map(|i| {
            let x = i as f32 * 2.0;
            AxisAlignedBoundingBox::new(
                Interval::new(key(x), key(x + 1.0)),
                Interval::new(key(0.0), key(1.0)),
                Interval::new(key(0.0), key(1.0)),
            )
        })
        .collect();
    let layout = layout_scene(&vec![QUAD, SPHERE, QUAD, QUAD, SPHERE], &boxes, &vec![4, 0], &first_axis);
    assert_eq!(layout.bvh.len(), 9);
    assert_eq!(count_leaves_of(&layout.bvh), 5);
    assert_eq!(layout.importance[0], PrimitiveIndex { primitive_type: 1, primitive_id: 1 });
    assert_eq!(layout.importance[1], PrimitiveIndex { primitive_type: 0, primitive_id: 0 });
    assert_eq!(layout.bvh[0].bounding_box.x, Interval::new(key(0.0), key(9.0)));
}
