use ray_tracer::bounding_box::{key_bits, order_key, AxisAlignedBoundingBox, Interval};
use ray_tracer::bvh::{build_bvh, build_bvh_tree, BvhBuildingEntry, BvhNode};

fn key(x: f32) -> u32 {
    order_key(x.to_bits())
}

fn value(k: u32) -> f32 {
    f32::from_bits(key_bits(k))
}

fn cube(x: f32, y: f32, z: f32, half: f32) -> AxisAlignedBoundingBox {
    AxisAlignedBoundingBox::new(
        Interval::new(key(x - half), key(x + half)),
        Interval::new(key(y - half), key(y + half)),
        Interval::new(key(z - half), key(z + half)),
    )
}

fn longest_axis(b: AxisAlignedBoundingBox) -> u8 {
    let size = |i: &Interval| value(i.max) - value(i.min);
    let (x, y, z) = (size(&b.x), size(&b.y), size(&b.z));
    if x > y {
        if x > z { 0 } else { 2 }
    } else if y > z {
        1
    } else {
        2
    }
}

fn entries(n: usize) -> Vec<BvhBuildingEntry> {
    (0..n)
        .map(|i| BvhBuildingEntry {
            primitive_type: (i % 2) as u32,
            primitive_id: (i / 2) as u32,
            bounding_box: cube((i * 7 % 5) as f32, (i * 3 % 4) as f32 * 0.5, i as f32 * -0.25, 0.5),
        })
        .collect()
}

fn union(es: &[BvhBuildingEntry]) -> AxisAlignedBoundingBox {
    let mut b = AxisAlignedBoundingBox::empty();
    for e in es {
        b.merge(&e.bounding_box);
    }
    b
}

fn check_tree(input: &[BvhBuildingEntry], tree: &[BvhNode]) {
    let n = input.len();
    let leaves = tree.iter().filter(|t| t.is_leaf == 1).count();
    assert_eq!(leaves, n);
    assert_eq!(tree.len() - leaves, n - 1);
    assert_eq!(tree[0].bounding_box, union(input));
    assert_eq!(tree[0].parent, 0);
    let mut seen = vec![false; n];
    for (k, node) in tree.iter().enumerate() {
        if node.is_leaf == 1 {
            let j = input
                .iter()
                .position(|e| {
                    e.primitive_type == node.left_or_primitive_type
                        && e.primitive_id == node.right_or_primitive_id
                })
                .expect("leaf names an input primitive");
            assert!(!seen[j], "each primitive has one leaf");
            seen[j] = true;
            assert_eq!(node.bounding_box, input[j].bounding_box);
        } else {
            let l = node.left_or_primitive_type as usize;
            let r = node.right_or_primitive_id as usize;
            assert_eq!(node.is_leaf, 0);
            assert!(l == k + 1 && l < r && r < tree.len());
            assert_eq!(tree[l].parent as usize, k);
            assert_eq!(tree[r].parent as usize, k);
            assert_eq!(
                node.bounding_box,
                AxisAlignedBoundingBox::new_from_boxes(&tree[l].bounding_box, &tree[r].bounding_box)
            );
        }
    }
}

#[test]
fn leaves_internal_nodes_and_boxes() {
    for n in 1..=17 {
        let input = entries(n);
        let mut work = input.clone();
        let tree = build_bvh(&mut work, &longest_axis);
        assert_eq!(tree.len(), 2 * n - 1);
        check_tree(&input, &tree);
    }
}

#[test]
fn single_primitive_is_one_leaf() {
    let input = entries(1);
    let mut work = input.clone();
    let tree = build_bvh(&mut work, &longest_axis);
    assert_eq!(tree.len(), 1);
    assert_eq!(tree[0].is_leaf, 1);
    assert_eq!(tree[0].left_or_primitive_type, 0);
    assert_eq!(tree[0].right_or_primitive_id, 0);
    assert_eq!(tree[0].bounding_box, input[0].bounding_box);
}

#[test]
fn empty_range_adds_nothing() {
    let mut tree = Vec::new();
    let mut work = entries(3);
    assert_eq!(build_bvh_tree(&mut tree, &mut work, 2, 2, 0, &longest_axis), u32::MAX);
    assert!(tree.is_empty());
    assert!(build_bvh(&mut Vec::new(), &longest_axis).is_empty());
}

#[test]
fn subtree_appends_after_existing_nodes() {
    let mut tree = Vec::new();
    let mut work = entries(6);
    let first = build_bvh_tree(&mut tree, &mut work, 0, 3, 0, &longest_axis);
    assert_eq!(first, 0);
    assert_eq!(tree.len(), 5);
    let second = build_bvh_tree(&mut tree, &mut work, 3, 6, 4, &longest_axis);
    assert_eq!(second, 5);
    assert_eq!(tree.len(), 10);
    assert_eq!(tree[5].parent, 4);
    assert_eq!(tree[5].left_or_primitive_type, 6);
    assert_eq!(tree[5].right_or_primitive_id, 7);
}

#[test]
fn splits_at_the_median_of_the_longest_axis() {
    // four unit boxes along x: the root splits them two and two by x
    let input: Vec<BvhBuildingEntry> = [3.0f32, 0.0, 9.0, 6.0]
        .iter()
        .enumerate()
        .map(|(i, &x)| BvhBuildingEntry {
            primitive_type: 0,
            primitive_id: i as u32,
            bounding_box: cube(x, 0.0, 0.0, 0.5),
        })
        .collect();
    let mut work = input.clone();
    let tree = build_bvh(&mut work, &longest_axis);
    assert_eq!(tree.len(), 7);
    assert_eq!(tree[0].left_or_primitive_type, 1);
    assert_eq!(tree[0].right_or_primitive_id, 4);
    let left_ids: Vec<u32> = [2usize, 3].iter().map(|&k| tree[k].right_or_primitive_id).collect();
    let right_ids: Vec<u32> = [5usize, 6].iter().map(|&k| tree[k].right_or_primitive_id).collect();
    let mut l = left_ids.clone();
    l.sort();
    let mut r = right_ids.clone();
    r.sort();
    assert_eq!(l, vec![0, 1]);
    assert_eq!(r, vec![2, 3]);
    check_tree(&input, &tree);
}
