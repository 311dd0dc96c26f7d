use vstd::prelude::*;

verus! {

/// The primitive kinds the kernel knows; each has its own geometry array.
#[derive(Clone, Copy, Debug, PartialEq, Eq, Structural)]
pub enum PrimitiveKind {
    Quad,
    Sphere,
}

impl PrimitiveKind {
    pub open spec fn spec_code(self) -> u32 {
        match self {
            PrimitiveKind::Quad => 0,
            PrimitiveKind::Sphere => 1,
        }
    }

    pub fn code(self) -> (r: u32)
        ensures
            r == self.spec_code(),
    {
        match self {
            PrimitiveKind::Quad => 0,
            PrimitiveKind::Sphere => 1,
        }
    }
}

/// GPU identity of a primitive: its kind tag and its position in that kind's
/// geometry array.
#[derive(Clone, Copy, Debug, PartialEq, Eq, Structural)]
pub struct PrimitiveIndex {
    pub primitive_type: u32,
    pub primitive_id: u32,
}

/// How many of `s` are of kind `k`.
pub open spec fn count_kind(s: Seq<PrimitiveKind>, k: PrimitiveKind) -> nat
    decreases s.len(),
{
    if s.len() == 0 {
        0
    } else {
        count_kind(s.drop_last(), k) + if s.last() == k {
            1nat
        } else {
            0nat
        }
    }
}

proof fn lemma_count_kind_le(s: Seq<PrimitiveKind>, k: PrimitiveKind)
    ensures
        count_kind(s, k) <= s.len(),
    decreases s.len(),
{
    if s.len() > 0 {
        lemma_count_kind_le(s.drop_last(), k);
    }
}

/// The GPU identity of each primitive of a flattened scene, in order: its
/// kind, and how many primitives of the same kind come before it.
pub fn index_primitives(kinds: &Vec<PrimitiveKind>) -> (r: Vec<PrimitiveIndex>)
    requires
        kinds.len() <= u32::MAX,
    ensures
        r.len() == kinds.len(),
        forall|i: int|
            0 <= i < kinds.len() ==> (#[trigger] r[i]).primitive_type == kinds[i].spec_code()
                && r[i].primitive_id == count_kind(kinds@.take(i), kinds[i]),
{
    let mut r: Vec<PrimitiveIndex> = Vec::new();
    let mut quads: u32 = 0;
    let mut spheres: u32 = 0;
    let mut i: usize = 0;
    while i < kinds.len()
        invariant
            i <= kinds.len() <= u32::MAX,
            r.len() == i,
            quads == count_kind(kinds@.take(i as int), PrimitiveKind::Quad),
            spheres == count_kind(kinds@.take(i as int), PrimitiveKind::Sphere),
            forall|j: int|
                0 <= j < i ==> (#[trigger] r[j]).primitive_type == kinds[j].spec_code()
                    && r[j].primitive_id == count_kind(kinds@.take(j), kinds[j]),
        decreases kinds.len() - i,
    {
        proof {
            assert(kinds@.take(i + 1).drop_last() =~= kinds@.take(i as int));
            lemma_count_kind_le(kinds@.take(i as int), PrimitiveKind::Quad);
            lemma_count_kind_le(kinds@.take(i as int), PrimitiveKind::Sphere);
        }
        let kind = kinds[i];
        let id = match kind {
            PrimitiveKind::Quad => {
                let id = quads;
                quads = quads + 1;
                id
            },
            PrimitiveKind::Sphere => {
                let id = spheres;
                spheres = spheres + 1;
                id
            },
        };
        r.push(PrimitiveIndex { primitive_type: kind.code(), primitive_id: id });
        i += 1;
    }
    r
}

/// The GPU identities of the important primitives, in the order of
/// `important_indices` (positions in the flattened scene).
pub fn important_primitives(indices: &Vec<PrimitiveIndex>, important_indices: &Vec<u32>) -> (r:
    Vec<PrimitiveIndex>)
    requires
        forall|k: int| 0 <= k < important_indices.len() ==> #[trigger] important_indices[k] < indices.len(),
    ensures
        r.len() == important_indices.len(),
        forall|k: int|
            0 <= k < important_indices.len() ==> #[trigger] r[k] == indices[important_indices[k] as int],
{
    let mut r: Vec<PrimitiveIndex> = Vec::new();
    let mut k: usize = 0;
    while k < important_indices.len()
        invariant
            k <= important_indices.len(),
            r.len() == k,
            forall|j: int| 0 <= j < important_indices.len() ==> #[trigger] important_indices[j] < indices.len(),
            forall|j: int| 0 <= j < k ==> #[trigger] r[j] == indices[important_indices[j] as int],
        decreases important_indices.len() - k,
    {
        r.push(indices[important_indices[k] as usize]);
        k += 1;
    }
    r
}

/// Positions, counted from `base`, of the set flags of `flags`.
pub open spec fn important_positions(flags: Seq<bool>, base: int) -> Seq<u32>
    decreases flags.len(),
{
    if flags.len() == 0 {
        Seq::empty()
    } else {
        important_positions(flags.drop_last(), base) + if flags.last() {
            seq![(base + flags.len() - 1) as u32]
        } else {
            Seq::empty()
        }
    }
}

/// The important positions lie in `[base, base + flags.len())`, in
/// increasing order.
pub proof fn lemma_important_positions(flags: Seq<bool>, base: int)
    requires
        0 <= base,
        base + flags.len() <= u32::MAX,
    ensures
        important_positions(flags, base).len() <= flags.len(),
        forall|i: int|
            0 <= i < important_positions(flags, base).len() ==> base <= #[trigger] important_positions(
                flags,
                base,
            )[i] < base + flags.len(),
        forall|i: int, j: int|
            0 <= i < j < important_positions(flags, base).len() ==> #[trigger] important_positions(
                flags,
                base,
            )[i] < #[trigger] important_positions(flags, base)[j],
    decreases flags.len(),
{
    if flags.len() > 0 {
        lemma_important_positions(flags.drop_last(), base);
    }
}

/// The scene's primitives in depth-first order, each with its "important"
/// flag (it takes part in explicit light sampling) and its encoded GPU
/// record, kept until the shape changes.
pub struct MeshList<S, R> {
    shapes: Vec<S>,
    important: Vec<bool>,
    encoded: Vec<Option<R>>,
}

impl<S, R: Copy> MeshList<S, R> {
    /// One flag and one cache slot per shape.
    pub open spec fn wf(&self) -> bool {
        &&& self.spec_shapes().len() == self.spec_important().len()
        &&& self.spec_shapes().len() == self.spec_encoded().len()
    }

    pub closed spec fn spec_shapes(&self) -> Seq<S> {
        self.shapes@
    }

    pub closed spec fn spec_important(&self) -> Seq<bool> {
        self.important@
    }

    /// The cached encoding of each shape, if it has one.
    pub closed spec fn spec_encoded(&self) -> Seq<Option<R>> {
        self.encoded@
    }

    pub fn new() -> (r: Self)
        ensures
            r.wf(),
            r.spec_shapes().len() == 0,
            r.spec_important().len() == 0,
            r.spec_encoded().len() == 0,
    {
        MeshList { shapes: Vec::new(), important: Vec::new(), encoded: Vec::new() }
    }

    pub fn len(&self) -> (r: usize)
        requires
            self.wf(),
        ensures
            r == self.spec_shapes().len(),
    {
        self.shapes.len()
    }

    /// Appends a shape; it is encoded on the next traversal.
    pub fn add(&mut self, shape: S, important: bool)
        requires
            old(self).wf(),
        ensures
            final(self).wf(),
            final(self).spec_shapes() == old(self).spec_shapes().push(shape),
            final(self).spec_important() == old(self).spec_important().push(important),
            final(self).spec_encoded() == old(self).spec_encoded().push(None),
    {
        self.shapes.push(shape);
        self.important.push(important);
        self.encoded.push(None);
    }

    pub fn shape(&self, i: usize) -> (r: &S)
        requires
            self.wf(),
            i < self.spec_shapes().len(),
        ensures
            *r == self.spec_shapes()[i as int],
    {
        &self.shapes[i]
    }

    /// Replaces shape `i` (after a transform) and drops its cached encoding.
    pub fn set_shape(&mut self, i: usize, shape: S)
        requires
            old(self).wf(),
            i < old(self).spec_shapes().len(),
        ensures
            final(self).wf(),
            final(self).spec_shapes() == old(self).spec_shapes().update(i as int, shape),
            final(self).spec_important() == old(self).spec_important(),
            final(self).spec_encoded() == old(self).spec_encoded().update(i as int, None),
    {
        self.shapes.set(i, shape);
        self.encoded.set(i, None);
    }

    /// Appends every shape's record to `primitives`, depth-first, and the
    /// position in `primitives` of each important one to `important_indices`.
    /// A record is encoded by `encode` only where none is cached; afterwards
    /// every shape has its record cached.
    pub fn primitives<F: Fn(&S) -> R>(
        &mut self,
        primitives: &mut Vec<R>,
        important_indices: &mut Vec<u32>,
        encode: &F,
    )
        requires
            old(self).wf(),
            old(primitives).len() + old(self).spec_shapes().len() <= u32::MAX,
            forall|s: &S| encode.requires((s,)),
        ensures
            final(self).wf(),
            final(self).spec_shapes() == old(self).spec_shapes(),
            final(self).spec_important() == old(self).spec_important(),
            final(primitives).len() == old(primitives).len() + old(self).spec_shapes().len(),
            forall|i: int| 0 <= i < old(primitives).len() ==> final(primitives)[i] == old(primitives)[i],
            final(important_indices)@ == old(important_indices)@ + important_positions(
                old(self).spec_important(),
                old(primitives).len() as int,
            ),
            forall|i: int|
                old(important_indices).len() <= i < final(important_indices).len()
                    ==> old(primitives).len() <= #[trigger] final(important_indices)[i]
                    < final(primitives).len(),
            forall|i: int, j: int|
                old(important_indices).len() <= i < j < final(important_indices).len()
                    ==> #[trigger] final(important_indices)[i] < #[trigger] final(important_indices)[j],
            forall|i: int|
                0 <= i < old(self).spec_shapes().len() ==> #[trigger] final(self).spec_encoded()[i]
                    == Some(final(primitives)[old(primitives).len() + i]),
            forall|i: int|
                0 <= i < old(self).spec_shapes().len() && (#[trigger] old(self).spec_encoded()[i]) is Some
                    ==> old(self).spec_encoded()[i] == final(self).spec_encoded()[i],
            forall|i: int|
                0 <= i < old(self).spec_shapes().len() && (#[trigger] old(self).spec_encoded()[i]) is None
                    ==> encode.ensures(
                    (&old(self).spec_shapes()[i],),
                    final(primitives)[old(primitives).len() + i],
                ),
    {
        let ghost base = primitives.len() as int;
        let ghost old_imp = important_indices@;
        let ghost enc0 = self.encoded@;
        let mut i: usize = 0;
        while i < self.shapes.len()
            invariant
                self.wf(),
                self.shapes@ == old(self).spec_shapes(),
                self.important@ == old(self).spec_important(),
                i <= self.shapes.len(),
                base == old(primitives).len(),
                base + self.shapes.len() <= u32::MAX,
                primitives.len() == base + i,
                forall|j: int| 0 <= j < base ==> primitives[j] == old(primitives)[j],
                important_indices@ == old_imp + important_positions(
                    self.important@.take(i as int),
                    base,
                ),
                forall|s: &S| encode.requires((s,)),
                enc0 == old(self).spec_encoded(),
                enc0.len() == self.encoded.len(),
                forall|j: int| i <= j < self.encoded.len() ==> #[trigger] self.encoded@[j] == enc0[j],
                forall|j: int|
                    0 <= j < i ==> {
                        &&& #[trigger] self.encoded@[j] == Some(primitives[base + j])
                        &&& enc0[j] is Some ==> enc0[j] == self.encoded@[j]
                        &&& enc0[j] is None ==> encode.ensures(
                            (&self.shapes@[j],),
                            primitives[base + j],
                        )
                    },
            decreases self.shapes.len() - i,
        {
            proof {
                assert(self.important@.take(i + 1).drop_last() =~= self.important@.take(i as int));
            }
            if self.important[i] {
                important_indices.push(primitives.len() as u32);
            }
            let record = match self.encoded[i] {
                Some(record) => record,
                None => {
                    let record = encode(&self.shapes[i]);
                    record
                },
            };
            self.encoded.set(i, Some(record));
            primitives.push(record);
            i += 1;
        }
        proof {
            assert(self.important@.take(self.shapes.len() as int) =~= self.important@);
            lemma_important_positions(self.important@, base);
            let ip = important_positions(self.important@, base);
            let n0 = old_imp.len() as int;
            assert forall|i: int| n0 <= i < important_indices.len() implies base
                <= #[trigger] important_indices@[i] < primitives.len() by {
                assert(important_indices@[i] == ip[i - n0]);
            }
            assert forall|i: int, j: int| n0 <= i < j < important_indices.len() implies #[trigger] important_indices@[i]
                < #[trigger] important_indices@[j] by {
                assert(important_indices@[i] == ip[i - n0]);
                assert(important_indices@[j] == ip[j - n0]);
            }
            assert forall|j: int| 0 <= j < self.shapes.len() implies #[trigger] self.spec_encoded()[j]
                == Some(primitives[base + j]) by {
                assert(self.encoded@[j] == Some(primitives[base + j]));
            }
            assert forall|j: int| 0 <= j < self.shapes.len() && (#[trigger] enc0[j]) is None implies encode.ensures(
                (&self.shapes@[j],),
                primitives[base + j],
            ) by {
                assert(self.encoded@[j] == Some(primitives[base + j]));
            }
        }
    }
}

} // verus!
