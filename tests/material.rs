use ray_tracer::material::{DebugNormal, Material, MaterialHandle, MaterialList, MaterialType};

#[derive(Clone, Copy, Debug, PartialEq)]
enum TestMaterial {
    Debug,
    Lambertian(u8),
    Light,
    Glass,
}

impl Material for TestMaterial {
    fn spec_kind(&self) -> MaterialType {
        self.material_type()
    }

    fn material_type(&self) -> MaterialType {
        match self {
            TestMaterial::Debug => MaterialType::DebugNormal,
            TestMaterial::Lambertian(_) => MaterialType::Lambertian,
            TestMaterial::Light => MaterialType::DiffuseLight,
            TestMaterial::Glass => MaterialType::Dielectric,
        }
    }
}

#[test]
fn add_returns_kind_and_position_within_kind() {
    let mut list: MaterialList<TestMaterial> = MaterialList::new();
    let red = list.add(TestMaterial::Lambertian(1));
    let white = list.add(TestMaterial::Lambertian(2));
    let light = list.add(TestMaterial::Light);
    let green = list.add(TestMaterial::Lambertian(3));
    let glass = list.add(TestMaterial::Glass);
    let debug = list.add(TestMaterial::Debug);
    assert_eq!(red, MaterialHandle { material_type: 1, material_id: 0 });
    assert_eq!(white, MaterialHandle { material_type: 1, material_id: 1 });
    assert_eq!(light, MaterialHandle { material_type: 2, material_id: 0 });
    assert_eq!(green, MaterialHandle { material_type: 1, material_id: 2 });
    assert_eq!(glass, MaterialHandle { material_type: 3, material_id: 0 });
    assert_eq!(debug, MaterialHandle { material_type: 0, material_id: 0 });
}

#[test]
fn lists_keep_insertion_order() {
    let mut list: MaterialList<TestMaterial> = MaterialList::default();
    for k in 0..5u8 {
        let h = list.add(TestMaterial::Lambertian(k));
        assert_eq!(h.material_id, k as u32);
    }
    let lambertian = list.materials(MaterialType::Lambertian).expect("five were added");
    assert_eq!(lambertian.len(), 5);
    for (i, m) in lambertian.iter().enumerate() {
        assert_eq!(*m, TestMaterial::Lambertian(i as u8));
    }
    assert!(list.materials(MaterialType::DiffuseLight).is_none());
    assert!(list.materials(MaterialType::DebugNormal).is_none());
}

#[test]
fn debug_normal_material() {
    let mut list: MaterialList<DebugNormal> = MaterialList::new();
    assert_eq!(DebugNormal {}.material_type(), MaterialType::DebugNormal);
    let a = list.add(DebugNormal {});
    let b = list.add(DebugNormal {});
    assert_eq!(a, MaterialHandle { material_type: 0, material_id: 0 });
    assert_eq!(b, MaterialHandle { material_type: 0, material_id: 1 });
    assert_eq!(list.materials(MaterialType::DebugNormal).map(|v| v.len()), Some(2));
}

#[test]
fn material_type_codes() {
    assert_eq!(MaterialType::DebugNormal.code(), 0);
    assert_eq!(MaterialType::Lambertian.code(), 1);
    assert_eq!(MaterialType::DiffuseLight.code(), 2);
    assert_eq!(MaterialType::Dielectric.code(), 3);
}
