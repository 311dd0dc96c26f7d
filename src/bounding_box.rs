use vstd::prelude::*;

verus! {

/// Maps the bit pattern of an IEEE-754 single-precision value to a key whose
/// unsigned order is the total order of the values (negative values by
/// flipping every bit, the others by setting the sign bit), so that minima and
/// maxima of coordinates are exact integer operations.
pub open spec fn spec_order_key(bits: u32) -> u32 {
    if bits & 0x8000_0000u32 != 0 {
        !bits
    } else {
        bits | 0x8000_0000u32
    }
}

/// Inverse of `spec_order_key`.
pub open spec fn spec_key_bits(key: u32) -> u32 {
    if key & 0x8000_0000u32 != 0 {
        key & 0x7fff_ffffu32
    } else {
        !key
    }
}

pub fn order_key(bits: u32) -> (r: u32)
    ensures
        r == spec_order_key(bits),
        spec_key_bits(r) == bits,
{
    assert(spec_key_bits(spec_order_key(bits)) == bits) by (bit_vector);
    if bits & 0x8000_0000u32 != 0 {
        !bits
    } else {
        bits | 0x8000_0000u32
    }
}

pub fn key_bits(key: u32) -> (r: u32)
    ensures
        r == spec_key_bits(key),
        spec_order_key(r) == key,
{
    assert(spec_order_key(spec_key_bits(key)) == key) by (bit_vector);
    if key & 0x8000_0000u32 != 0 {
        key & 0x7fff_ffffu32
    } else {
        !key
    }
}

pub open spec fn min_u32(a: u32, b: u32) -> u32 {
    if a <= b {
        a
    } else {
        b
    }
}

pub open spec fn max_u32(a: u32, b: u32) -> u32 {
    if a >= b {
        a
    } else {
        b
    }
}

/// A closed range of coordinate keys (see `order_key`).
#[derive(Clone, Copy, Debug, PartialEq, Eq, Structural)]
pub struct Interval {
    pub min: u32,
    pub max: u32,
}

impl Interval {
    /// The smallest interval holding both.
    pub open spec fn spec_merge(self, other: Interval) -> Interval {
        Interval { min: min_u32(self.min, other.min), max: max_u32(self.max, other.max) }
    }

    pub open spec fn spec_empty() -> Interval {
        Interval { min: u32::MAX, max: 0 }
    }

    /// The interval that holds nothing; merging it into another changes nothing.
    pub fn empty() -> (r: Interval)
        ensures
            r == Interval::spec_empty(),
    {
        Interval { min: u32::MAX, max: 0 }
    }

    pub fn new(min: u32, max: u32) -> (r: Interval)
        ensures
            r.min == min,
            r.max == max,
    {
        Interval { min, max }
    }

    pub fn new_from_intervals(a: &Interval, b: &Interval) -> (r: Interval)
        ensures
            r == a.spec_merge(*b),
    {
        let mut r = *a;
        r.merge(b);
        r
    }

    /// Widens `self` to hold `other` too.
    pub fn merge(&mut self, other: &Interval)
        ensures
            *final(self) == old(self).spec_merge(*other),
    {
        if other.min < self.min {
            self.min = other.min;
        }
        if other.max > self.max {
            self.max = other.max;
        }
    }

    pub fn contains(&self, x: u32) -> (r: bool)
        ensures
            r == (self.min <= x && x <= self.max),
    {
        self.min <= x && x <= self.max
    }

    pub fn surrounds(&self, x: u32) -> (r: bool)
        ensures
            r == (self.min < x && x < self.max),
    {
        self.min < x && x < self.max
    }

    /// The key in the interval nearest to `x` (for a non-empty interval).
    pub fn clamp(&self, x: u32) -> (r: u32)
        ensures
            x < self.min ==> r == self.min,
            self.min <= x && x > self.max ==> r == self.max,
            self.min <= x <= self.max ==> r == x,
    {
        if x < self.min {
            self.min
        } else if x > self.max {
            self.max
        } else {
            x
        }
    }
}

/// Axis-aligned bounding box: one key interval per axis.
#[derive(Clone, Copy, Debug, PartialEq, Eq, Structural)]
pub struct AxisAlignedBoundingBox {
    pub x: Interval,
    pub y: Interval,
    pub z: Interval,
}

impl AxisAlignedBoundingBox {
    pub open spec fn spec_empty() -> AxisAlignedBoundingBox {
        AxisAlignedBoundingBox {
            x: Interval::spec_empty(),
            y: Interval::spec_empty(),
            z: Interval::spec_empty(),
        }
    }

    /// The smallest box holding both.
    pub open spec fn spec_merge(self, other: AxisAlignedBoundingBox) -> AxisAlignedBoundingBox {
        AxisAlignedBoundingBox {
            x: self.x.spec_merge(other.x),
            y: self.y.spec_merge(other.y),
            z: self.z.spec_merge(other.z),
        }
    }

    /// Interval of axis `n`: 1 is y, 2 is z, any other value x.
    pub open spec fn spec_axis(self, n: u8) -> Interval {
        if n == 1 {
            self.y
        } else if n == 2 {
            self.z
        } else {
            self.x
        }
    }

    pub fn empty() -> (r: AxisAlignedBoundingBox)
        ensures
            r == AxisAlignedBoundingBox::spec_empty(),
    {
        AxisAlignedBoundingBox { x: Interval::empty(), y: Interval::empty(), z: Interval::empty() }
    }

    pub fn new(x: Interval, y: Interval, z: Interval) -> (r: AxisAlignedBoundingBox)
        ensures
            r.x == x,
            r.y == y,
            r.z == z,
    {
        AxisAlignedBoundingBox { x, y, z }
    }

    pub fn new_from_boxes(a: &AxisAlignedBoundingBox, b: &AxisAlignedBoundingBox) -> (r:
        AxisAlignedBoundingBox)
        ensures
            r == a.spec_merge(*b),
    {
        AxisAlignedBoundingBox {
            x: Interval::new_from_intervals(&a.x, &b.x),
            y: Interval::new_from_intervals(&a.y, &b.y),
            z: Interval::new_from_intervals(&a.z, &b.z),
        }
    }

    /// Widens `self` to hold `other` too.
    pub fn merge(&mut self, other: &AxisAlignedBoundingBox)
        ensures
            *final(self) == old(self).spec_merge(*other),
    {
        self.x.merge(&other.x);
        self.y.merge(&other.y);
        self.z.merge(&other.z);
    }

    pub fn axis(&self, n: u8) -> (r: &Interval)
        ensures
            *r == self.spec_axis(n),
    {
        if n == 1 {
            &self.y
        } else if n == 2 {
            &self.z
        } else {
            &self.x
        }
    }
}

/// Merging with the empty box leaves a box as it is.
pub proof fn lemma_empty_merge(b: AxisAlignedBoundingBox)
    ensures
        AxisAlignedBoundingBox::spec_empty().spec_merge(b) == b,
        b.spec_merge(AxisAlignedBoundingBox::spec_empty()) == b,
{
}

/// Merging boxes is commutative and associative, so a union does not depend
/// on the order in which boxes are merged.
pub proof fn lemma_merge_commutative_associative(
    a: AxisAlignedBoundingBox,
    b: AxisAlignedBoundingBox,
    c: AxisAlignedBoundingBox,
)
    ensures
        a.spec_merge(b) == b.spec_merge(a),
        a.spec_merge(b).spec_merge(c) == a.spec_merge(b.spec_merge(c)),
{
}

} // verus!
