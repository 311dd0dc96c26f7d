use vstd::prelude::*;
use std::collections::HashMap;

verus! {

broadcast use vstd::std_specs::hash::group_hash_axioms;

/// The kinds of material the compute kernel knows; each kind has its own
/// flat parameter array on the GPU.
#[derive(Clone, Copy, Debug, PartialEq, Eq, Structural, Hash)]
pub enum MaterialType {
    DebugNormal,
    Lambertian,
    DiffuseLight,
    Dielectric,
}

impl MaterialType {
    /// The tag under which the kernel knows this kind.
    pub open spec fn spec_code(self) -> u32 {
        match self {
            MaterialType::DebugNormal => 0,
            MaterialType::Lambertian => 1,
            MaterialType::DiffuseLight => 2,
            MaterialType::Dielectric => 3,
        }
    }

    pub fn code(self) -> (r: u32)
        ensures
            r == self.spec_code(),
    {
        match self {
            MaterialType::DebugNormal => 0,
            MaterialType::Lambertian => 1,
            MaterialType::DiffuseLight => 2,
            MaterialType::Dielectric => 3,
        }
    }
}

/// A material value that knows which kind it is. `spec_kind` names that
/// kind; `material_type` returns it.
pub trait Material {
    spec fn spec_kind(&self) -> MaterialType;

    fn material_type(&self) -> (r: MaterialType)
        ensures
            r == self.spec_kind(),
    ;
}

/// Non-owning reference to a material in a `MaterialList`: its kind tag and
/// its position in that kind's list.
#[derive(Clone, Copy, Debug, PartialEq, Eq, Structural)]
pub struct MaterialHandle {
    pub material_type: u32,
    pub material_id: u32,
}

/// Material that shades by surface normal; it carries no parameters.
#[derive(Clone, Copy, Debug)]
pub struct DebugNormal {}

impl Material for DebugNormal {
    open spec fn spec_kind(&self) -> MaterialType {
        MaterialType::DebugNormal
    }

    fn material_type(&self) -> (r: MaterialType) {
        MaterialType::DebugNormal
    }
}

/// Append-only registry holding one ordered list per material kind, keyed
/// by the kind's tag.
pub struct MaterialList<M> {
    map: HashMap<u32, Vec<M>>,
}

impl<M: Material> MaterialList<M> {
    /// The list of the given kind, in insertion order.
    pub closed spec fn list(&self, t: MaterialType) -> Seq<M> {
        if self.map@.contains_key(t.spec_code()) {
            self.map@[t.spec_code()]@
        } else {
            Seq::empty()
        }
    }

    pub fn new() -> (r: Self)
        ensures
            forall|t: MaterialType| r.list(t).len() == 0,
    {
        MaterialList { map: HashMap::new() }
    }

    /// Appends `material` to the list of its kind and returns its handle:
    /// the kind's tag and the material's position in that list.
    pub fn add(&mut self, material: M) -> (r: MaterialHandle)
        requires
            old(self).list(material.spec_kind()).len() < u32::MAX,
        ensures
            r.material_type == material.spec_kind().spec_code(),
            r.material_id == old(self).list(material.spec_kind()).len(),
            final(self).list(material.spec_kind()) == old(self).list(material.spec_kind()).push(
                material,
            ),
            forall|t: MaterialType|
                t != material.spec_kind() ==> final(self).list(t) == old(self).list(t),
    {
        let t = material.material_type();
        let code = t.code();
        let mut list = match self.map.remove(&code) {
            Some(list) => list,
            None => Vec::new(),
        };
        assert(list@ == old(self).list(t));
        let id = list.len() as u32;
        list.push(material);
        self.map.insert(code, list);
        proof {
            assert forall|u: MaterialType| u != t implies self.list(u) == old(self).list(u) by {
                assert(u.spec_code() != t.spec_code());
            }
        }
        MaterialHandle { material_type: code, material_id: id }
    }

    /// The materials of kind `t`, in insertion order: position `i` holds the
    /// material whose handle has id `i`. None while the kind has none.
    pub fn materials(&self, t: MaterialType) -> (r: Option<&Vec<M>>)
        ensures
            match r {
                Some(v) => v@ == self.list(t),
                None => self.list(t).len() == 0,
            },
    {
        self.map.get(&t.code())
    }
}

impl<M: Material> Default for MaterialList<M> {
    fn default() -> (r: Self)
        ensures
            forall|t: MaterialType| r.list(t).len() == 0,
    {
        Self::new()
    }
}

} // verus!
