use paper::material::{MaterialId, MaterialKind, MaterialStore, ShaderUniform};
use paper::color::Srgba;
use paper::math::{Vec4Bits, Vec2Bits};
use paper::mesh::{AttributeType, DrawCall, Mesh, MeshError, VertexAttribute, bits_equal};
use paper::registry::{Handle, MeshId, MeshStore};
use paper::shapes::Shape2D;

fn quad(offset: f32) -> Mesh {
    let positions: Vec<u32> = [0.0f32, 0.0, 0.0, 1.0, 0.0, 0.0, 1.0, 1.0, 0.0]
        .iter()
        .map(|v| (v + offset).to_bits())
        .collect();
    Mesh::new()
        .with_attribute(AttributeType::Position, positions)
        .unwrap()
        .with_indices(vec![0, 1, 2])
}

#[test]
fn identical_meshes_share_a_handle() {
    let mut store = MeshStore::new();
    let a = store.register(quad(0.0));
    let b = store.register(quad(0.0));
    assert_eq!(a, b);
    assert_eq!(store.len(), 1);
}

#[test]
fn distinct_meshes_get_distinct_handles_in_either_order() {
    let mut first = MeshStore::new();
    let a1 = first.register(quad(0.0));
    let b1 = first.register(quad(2.0));
    assert_ne!(a1, b1);

    let mut second = MeshStore::new();
    let b2 = second.register(quad(2.0));
    let a2 = second.register(quad(0.0));
    assert_ne!(a2, b2);
    assert_eq!(a1, a2);
    assert_eq!(b1, b2);
    assert_eq!(second.len(), 2);
}

#[test]
fn first_registration_uses_the_content_hash() {
    let mesh = quad(0.5);
    let expected = MeshId::new(&mesh);
    let mut store = MeshStore::new();
    let id = store.register(mesh);
    assert_eq!(id, expected);
    assert_eq!(id.0.salt, 0);
}

#[test]
fn mesh_hash_depends_on_content() {
    let a = MeshId::new(&quad(0.0));
    let b = MeshId::new(&quad(0.0));
    let c = MeshId::new(&quad(3.0));
    assert_eq!(a, b);
    assert_ne!(a, c);
}

#[test]
fn registered_mesh_can_be_looked_up() {
    let mut store = MeshStore::new();
    let id = store.register(quad(0.0));
    let mesh = store.get(id).unwrap();
    assert_eq!(mesh.vertex_count(), 3);
    assert!(store.get(MeshId(Handle { hash: id.0.hash, salt: 99 })).is_none());
}

#[test]
fn attribute_data_must_split_into_whole_chunks() {
    let mut mesh = Mesh::new();
    let bad = mesh.add_attribute(AttributeType::Position, vec![0, 0, 0, 0]);
    assert_eq!(bad, Err(MeshError::InvalidLength { expected: 3, found: 4 }));
    assert_eq!(mesh.vertex_count(), 0);
    let zero = mesh.add_attribute(AttributeType::Custom { name: "w".to_string(), size: 0 }, vec![]);
    assert_eq!(zero, Err(MeshError::ZeroSize));
}

#[test]
fn attributes_fill_vertices_in_layout_order() {
    let one = 1.0f32.to_bits();
    let two = 2.0f32.to_bits();
    let mut mesh = Mesh::new();
    mesh.add_attribute(AttributeType::Position, vec![one, one, one, two, two, two]).unwrap();
    mesh.add_attribute(AttributeType::Color, vec![two, two, two, two, one, one, one, one]).unwrap();
    mesh.add_attribute(AttributeType::Custom { name: "uv".to_string(), size: 2 }, vec![7, 8, 9, 10]).unwrap();
    assert_eq!(mesh.vertex_count(), 2);
    assert_eq!(mesh.stride(), (3 + 4 + 2) * 4);
    assert_eq!(mesh.attribute_sizes(), vec![3, 4, 2]);
    let flat = mesh.flatten();
    assert_eq!(
        flat,
        vec![one, one, one, two, two, two, two, 7, 8, two, two, two, one, one, one, one, 9, 10]
    );
}

#[test]
fn shorter_later_attribute_fills_leading_vertices() {
    let mut mesh = Mesh::new();
    mesh.add_attribute(AttributeType::Position, vec![1, 1, 1, 2, 2, 2]).unwrap();
    mesh.add_attribute(AttributeType::Custom { name: "k".to_string(), size: 1 }, vec![5]).unwrap();
    assert_eq!(mesh.flatten(), vec![1, 1, 1, 0, 0, 0, 0, 5, 2, 2, 2, 0, 0, 0, 0]);
}

#[test]
fn stride_overflow_is_rejected() {
    let mut mesh = Mesh::new();
    let big = AttributeType::Custom { name: "big".to_string(), size: u32::MAX / 4 };
    assert_eq!(mesh.add_attribute(big, vec![]), Ok(()));
    let more = AttributeType::Custom { name: "more".to_string(), size: 1 };
    assert_eq!(mesh.add_attribute(more, vec![]), Err(MeshError::StrideOverflow));
}

#[test]
fn attribute_names_and_sizes() {
    assert_eq!(AttributeType::Position.name(), "position");
    assert_eq!(AttributeType::Color.name(), "color");
    assert_eq!(AttributeType::Position.size(), 3);
    assert_eq!(AttributeType::Color.size(), 4);
    let custom = AttributeType::Custom { name: "normal".to_string(), size: 3 };
    assert_eq!(custom.name(), "normal");
    let attr = VertexAttribute::new(&custom);
    assert_eq!(attr.name, "normal");
    assert_eq!(attr.size, 3);
}

#[test]
fn bit_comparison_is_exact() {
    assert!(bits_equal(&vec![1, 2], &vec![1, 2]));
    assert!(!bits_equal(&vec![1, 2], &vec![1, 3]));
    assert!(!bits_equal(&vec![0.0f32.to_bits()], &vec![(-0.0f32).to_bits()]));
}

#[test]
fn same_content_compares_every_part() {
    assert!(quad(0.0).same_content(&quad(0.0)));
    assert!(!quad(0.0).same_content(&quad(1.0)));
    let without_indices = Mesh::new().with_attribute(AttributeType::Position, vec![0; 9]).unwrap();
    let with_indices = Mesh::new().with_attribute(AttributeType::Position, vec![0; 9]).unwrap().with_indices(vec![0, 1, 2]);
    assert!(!without_indices.same_content(&with_indices));
}

fn red() -> Srgba {
    Srgba::rgb(1.0f32.to_bits(), 0, 0)
}

#[test]
fn default_material_has_the_reserved_handle() {
    let mut store = MaterialStore::new();
    assert_eq!(store.len(), 0);
    assert!(store.kind(MaterialId::default_material()).is_none());
    let id = store.register(MaterialKind::Default);
    assert_eq!(id, MaterialId::default_material());
    assert_eq!(id.0, Handle { hash: 0, salt: 0 });
    assert_eq!(store.len(), 1);
    assert_eq!(store.register(MaterialKind::Default), id);
    assert_eq!(store.len(), 1);
}

#[test]
fn color_materials_deduplicate_by_color() {
    let mut store = MaterialStore::new();
    let a = store.register(MaterialKind::Color(red()));
    let b = store.register(MaterialKind::Color(red()));
    let c = store.register(MaterialKind::Color(Srgba::white()));
    assert_eq!(a, b);
    assert_ne!(a, c);
    assert_ne!(a, MaterialId::default_material());
    assert_eq!(store.len(), 2);
    let d = store.register(MaterialKind::Default);
    assert_eq!(d, MaterialId::default_material());
    assert_eq!(store.len(), 3);
    assert_eq!(store.kind(c), Some(MaterialKind::Color(Srgba::white())));
    assert_ne!(a.0.hash, c.0.hash);
    assert_eq!(a.0.salt, 0);
}

#[test]
fn draw_call_follows_the_index_list() {
    assert_eq!(quad(0.0).draw_call(), DrawCall::Indexed { count: 3 });
    let plain = Mesh::new().with_attribute(AttributeType::Position, vec![0; 12]).unwrap();
    assert_eq!(plain.draw_call(), DrawCall::Arrays { count: 4 });
}

#[test]
fn setting_the_same_uniform_value_does_not_dirty_it() {
    let mut store = MaterialStore::new();
    let id = store.register(MaterialKind::Color(red()));
    let v = ShaderUniform::Vec4(Vec4Bits { x: 1, y: 2, z: 3, w: 4 });
    assert!(store.set_uniform(id, "uColor", v));
    let first = store.bind(id).unwrap();
    assert_eq!(first.len(), 1);
    assert_eq!(first[0].0, "uColor");
    assert_eq!(first[0].1, v);

    assert!(store.set_uniform(id, "uColor", v));
    assert!(store.bind(id).unwrap().is_empty());

    let w = ShaderUniform::Vec4(Vec4Bits { x: 1, y: 2, z: 3, w: 5 });
    assert!(store.set_uniform(id, "uColor", w));
    let again = store.bind(id).unwrap();
    assert_eq!(again, vec![("uColor".to_string(), w)]);
    assert!(store.bind(id).unwrap().is_empty());
}

#[test]
fn bind_pushes_each_dirty_uniform_once() {
    let mut store = MaterialStore::new();
    let id = store.register(MaterialKind::Default);
    store.set_uniform(id, "a", ShaderUniform::Int(1));
    store.set_uniform(id, "b", ShaderUniform::Bool(true));
    store.set_uniform(id, "c", ShaderUniform::Float(0.5f32.to_bits()));
    store.bind(id);
    store.set_uniform(id, "c", ShaderUniform::Float(0.25f32.to_bits()));
    store.set_uniform(id, "a", ShaderUniform::Int(2));
    let mut pushed = store.bind(id).unwrap();
    pushed.sort_by(|a, b| a.0.cmp(&b.0));
    assert_eq!(
        pushed,
        vec![("a".to_string(), ShaderUniform::Int(2)), ("c".to_string(), ShaderUniform::Float(0.25f32.to_bits()))]
    );
}

#[test]
fn negative_zero_is_a_different_uniform_value() {
    let mut store = MaterialStore::new();
    let id = store.register(MaterialKind::Default);
    store.set_uniform(id, "x", ShaderUniform::Float(0.0f32.to_bits()));
    store.bind(id);
    store.set_uniform(id, "x", ShaderUniform::Float((-0.0f32).to_bits()));
    assert_eq!(store.bind(id).unwrap().len(), 1);
}

#[test]
fn uniforms_of_a_missing_material_are_not_found() {
    let mut store = MaterialStore::new();
    let missing = MaterialId(Handle { hash: 5, salt: 5 });
    assert!(!store.set_uniform(missing, "x", ShaderUniform::Int(1)));
    assert!(store.bind(missing).is_none());
    assert!(store.kind(missing).is_none());
}

#[test]
fn material_names() {
    let mut store = MaterialStore::new();
    let _ = store.register(MaterialKind::Color(red()));
    let m = paper::material::Material::new(MaterialKind::Color(red()));
    assert_eq!(m.name(), "ColorMaterial");
    assert_eq!(paper::material::Material::new(MaterialKind::Default).name(), "DefaultMaterial");
    assert_eq!(m.kind(), MaterialKind::Color(red()));
}

#[test]
fn shape_constructors_keep_their_fields() {
    let p = Vec2Bits { x: 1, y: 2 };
    assert_eq!(Shape2D::square(p, 9), Shape2D::Square { pos: p, size: 9 });
    assert_eq!(Shape2D::circle(p, 3, 8), Shape2D::Circle { pos: p, radius: 3, segments: 8 });
}
