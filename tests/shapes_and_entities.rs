use paper::color::Srgba;
use paper::entity::{Entity, EntityId, EntityTable};
use paper::material::{MaterialId, MaterialKind, ShaderUniform};
use paper::math::{Mat4Bits, Transform, Vec2Bits, Vec3Bits, Vec4Bits, ONE_BITS};
use paper::mesh::MeshError;
use paper::paper::{Missing, Paper, RenderItem};
use paper::registry::{Handle, MeshId};
use paper::shapes::Shape2D;

fn bits(x: f32) -> u32 {
    x.to_bits()
}

fn v2(x: f32, y: f32) -> Vec2Bits {
    Vec2Bits { x: bits(x), y: bits(y) }
}

fn world() -> Paper {
    Paper::new(v2(800.0, 600.0))
}

#[test]
fn builtin_geometry() {
    let tri = Shape2D::triangle(v2(0.0, 0.0), v2(1.0, 1.0));
    let tv = tri.builtin_vertices().unwrap();
    assert_eq!(tv, [-0.5f32, -0.5, 0.0, 0.5, -0.5, 0.0, 0.0, 0.5, 0.0].iter().map(|v| v.to_bits()).collect::<Vec<_>>());
    assert_eq!(tri.indices(), vec![0, 1, 2]);
    let rect = Shape2D::rectangle(v2(0.0, 0.0), v2(2.0, 1.0));
    assert_eq!(rect.builtin_vertices().unwrap().len(), 12);
    assert_eq!(rect.indices(), vec![0, 1, 3, 1, 2, 3]);
    let circle = Shape2D::circle(v2(0.0, 0.0), bits(1.0), 16);
    assert!(circle.builtin_vertices().is_none());
    assert_eq!(circle.vertex_floats(), 48);
}

#[test]
fn circle_fan_indices() {
    let circle = Shape2D::circle(v2(0.0, 0.0), bits(1.0), 4);
    assert_eq!(circle.indices(), vec![0, 1, 0, 0, 2, 1, 0, 3, 2, 0, 0, 3]);
    let empty = Shape2D::circle(v2(0.0, 0.0), bits(1.0), 0);
    assert!(empty.indices().is_empty());
}

#[test]
fn shape_transform_places_and_sizes() {
    let sq = Shape2D::square(v2(3.0, 4.0), bits(2.0));
    let t = sq.transform();
    assert_eq!(t.translation, Vec3Bits { x: bits(3.0), y: bits(4.0), z: 0 });
    assert_eq!(t.scale, Vec3Bits { x: bits(2.0), y: bits(2.0), z: ONE_BITS });
    assert_eq!(t.rotation, Vec4Bits { x: 0, y: 0, z: 0, w: ONE_BITS });
    let circle = Shape2D::circle(v2(-1.0, 0.5), bits(5.0), 8);
    assert_eq!(circle.transform().scale, Vec3Bits { x: bits(5.0), y: bits(5.0), z: ONE_BITS });
    let tri = Shape2D::triangle(v2(0.0, 0.0), v2(2.0, 3.0));
    assert_eq!(tri.transform().scale, Vec3Bits { x: bits(2.0), y: bits(3.0), z: ONE_BITS });
}

#[test]
fn shape_mesh_needs_its_vertex_count() {
    let circle = Shape2D::circle(v2(0.0, 0.0), bits(1.0), 4);
    let wrong = circle.mesh(vec![0; 9]);
    assert_eq!(wrong.err(), Some(MeshError::VertexCount { wanted: 12, given: 9 }));
    let mesh = circle.mesh(vec![0; 12]).unwrap();
    assert_eq!(mesh.vertex_count(), 4);
    assert_eq!(mesh.indices().unwrap().len(), 12);
}

#[test]
fn primitive_entities_are_stored_resolved() {
    let mut p = world();
    let color = Srgba::rgb(bits(1.0), 0, 0);
    let shape = Shape2D::triangle(v2(10.0, 20.0), v2(5.0, 5.0));
    let id = p.add_entity(Entity::Primitive { shape, color }, shape.builtin_vertices().unwrap()).unwrap();
    match p.get_entity(id).unwrap() {
        Entity::MeshMaterial { mesh_id, material_id, transform } => {
            assert_eq!(transform, shape.transform());
            assert_eq!(p.mesh(mesh_id).unwrap().vertex_count(), 3);
            assert_ne!(material_id, MaterialId::default_material());
        }
        Entity::Primitive { .. } => panic!("stored unresolved"),
    }
    assert_eq!(p.mesh_count(), 1);
    assert_eq!(p.material_count(), 1);
}

#[test]
fn equal_primitives_share_mesh_and_material() {
    let mut p = world();
    let color = Srgba::white();
    let a = Shape2D::rectangle(v2(0.0, 0.0), v2(1.0, 1.0));
    let b = Shape2D::rectangle(v2(5.0, 5.0), v2(2.0, 2.0));
    let ia = p.add_entity(Entity::Primitive { shape: a, color }, a.builtin_vertices().unwrap()).unwrap();
    let ib = p.add_entity(Entity::Primitive { shape: b, color }, b.builtin_vertices().unwrap()).unwrap();
    assert_ne!(ia, ib);
    assert_eq!(p.mesh_count(), 1);
    assert_eq!(p.material_count(), 1);
}

#[test]
fn circle_primitive_with_bad_outline_is_rejected() {
    let mut p = world();
    let shape = Shape2D::circle(v2(0.0, 0.0), bits(1.0), 8);
    let r = p.add_entity(Entity::Primitive { shape, color: Srgba::white() }, vec![0; 21]);
    assert_eq!(r, Err(MeshError::VertexCount { wanted: 24, given: 21 }));
    assert_eq!(p.mesh_count(), 0);
    assert!(p.render_plan().is_empty());
}

#[test]
fn candidate_id_is_used_when_free() {
    let mut p = world();
    let e = Entity::MeshMaterial {
        mesh_id: MeshId(Handle { hash: 1, salt: 0 }),
        material_id: MaterialId::default_material(),
        transform: Transform::default(),
    };
    let a = p.insert_entity(e, EntityId(42), vec![]).unwrap();
    assert_eq!(a, EntityId(42));
    let b = p.insert_entity(e, EntityId(42), vec![]).unwrap();
    assert_ne!(b, EntityId(42));
    assert_eq!(p.get_entity(b), Some(e));
}

#[test]
fn fresh_id_probes_past_taken_numbers() {
    let mut t = EntityTable::new();
    let e = Entity::MeshMaterial {
        mesh_id: MeshId(Handle { hash: 1, salt: 0 }),
        material_id: MaterialId::default_material(),
        transform: Transform::default(),
    };
    assert_eq!(t.insert(EntityId(0), e, None), EntityId(0));
    assert_eq!(t.insert(EntityId(1), e, None), EntityId(1));
    assert_eq!(t.insert(EntityId(0), e, None), EntityId(2));
    assert_eq!(t.len(), 3);
    assert_eq!(t.ids().len(), 3);
}

#[test]
fn random_ids_differ() {
    assert_ne!(EntityId::new(), EntityId::new());
}

#[test]
fn remove_and_clear_entities() {
    let mut p = world();
    let shape = Shape2D::square(v2(0.0, 0.0), bits(1.0));
    let id = p.add_entity(Entity::Primitive { shape, color: Srgba::white() }, shape.builtin_vertices().unwrap()).unwrap();
    assert!(p.remove_entity(id).is_some());
    assert!(p.remove_entity(id).is_none());
    assert!(p.get_entity(id).is_none());
    assert_eq!(p.mesh_count(), 1);
    let id2 = p.add_entity(Entity::Primitive { shape, color: Srgba::white() }, shape.builtin_vertices().unwrap()).unwrap();
    p.clear_entities();
    assert!(p.get_entity(id2).is_none());
    assert_eq!(p.mesh_count(), 1);
}

#[test]
fn transform_setters() {
    let mut p = world();
    let shape = Shape2D::square(v2(0.0, 0.0), bits(1.0));
    let id = p.add_entity(Entity::Primitive { shape, color: Srgba::white() }, shape.builtin_vertices().unwrap()).unwrap();
    assert!(p.set_entity_translation(id, v2(7.0, 8.0)));
    assert_eq!(p.get_entity_transform(id).unwrap().translation, Vec3Bits { x: bits(7.0), y: bits(8.0), z: 0 });
    let q = Vec4Bits { x: 0, y: 0, z: bits(0.5), w: bits(0.5) };
    assert!(p.set_entity_rotation(id, q));
    assert_eq!(p.get_entity_transform(id).unwrap().rotation, q);
    let s = Vec3Bits { x: bits(2.0), y: bits(2.0), z: ONE_BITS };
    assert!(p.set_entity_scale(id, s));
    let t = p.get_entity_transform(id).unwrap();
    assert_eq!(t.scale, s);
    assert_eq!(t.translation.x, bits(7.0));
    assert!(!p.set_entity_scale(EntityId(12345), s));
    assert!(p.get_entity_transform(EntityId(12345)).is_none());
}

#[test]
fn missing_mesh_skips_only_that_entity() {
    let mut p = world();
    let shape = Shape2D::triangle(v2(0.0, 0.0), v2(1.0, 1.0));
    let good = p.add_entity(Entity::Primitive { shape, color: Srgba::white() }, shape.builtin_vertices().unwrap()).unwrap();
    let ghost_mesh = MeshId(Handle { hash: 77, salt: 3 });
    let broken = p
        .insert_entity(
            Entity::MeshMaterial { mesh_id: ghost_mesh, material_id: MaterialId::default_material(), transform: Transform::default() },
            EntityId(5),
            vec![],
        )
        .unwrap();
    let ghost_material = MaterialId(Handle { hash: 9, salt: 9 });
    let good_mesh = match p.get_entity(good).unwrap() {
        Entity::MeshMaterial { mesh_id, .. } => mesh_id,
        _ => unreachable!(),
    };
    let broken2 = p
        .insert_entity(
            Entity::MeshMaterial { mesh_id: good_mesh, material_id: ghost_material, transform: Transform::default() },
            EntityId(6),
            vec![],
        )
        .unwrap();
    let plan = p.render_plan();
    assert_eq!(plan.len(), 3);
    let mut draws = 0;
    for item in plan {
        match item {
            RenderItem::Draw { entity, color, .. } => {
                assert_eq!(entity, good);
                assert_eq!(color, Some(Srgba::white()));
                draws += 1;
            }
            RenderItem::Skip { entity, missing } => {
                if entity == broken {
                    assert_eq!(missing, Missing::Mesh(ghost_mesh));
                } else {
                    assert_eq!(entity, broken2);
                    assert_eq!(missing, Missing::Material(ghost_material));
                }
            }
        }
    }
    assert_eq!(draws, 1);
}

#[test]
fn runtime_uniforms_and_bind() {
    let mut p = world();
    let id = p.add_material(MaterialKind::Color(Srgba::white()));
    assert!(p.set_material_uniform(id, "uColor", ShaderUniform::UInt(3)));
    assert_eq!(p.bind_material(id).unwrap().len(), 1);
    assert!(p.bind_material(id).unwrap().is_empty());
    assert!(!p.set_material_uniform(MaterialId(Handle { hash: 1, salt: 1 }), "uColor", ShaderUniform::UInt(3)));
}

#[test]
fn runtime_starts_without_materials() {
    let mut p = world();
    assert_eq!(p.material_count(), 0);
    assert_eq!(p.mesh_count(), 0);
    let d = p.add_material(MaterialKind::Default);
    assert_eq!(d, MaterialId::default_material());
    assert_eq!(p.material_count(), 1);
    assert_eq!(p.add_material(MaterialKind::Default), d);
    assert_eq!(p.material_count(), 1);
}

#[test]
fn add_mesh_twice_keeps_one_entry() {
    let mut p = world();
    let shape = Shape2D::triangle(v2(0.0, 0.0), v2(1.0, 1.0));
    let a = p.add_mesh(shape.mesh(shape.builtin_vertices().unwrap()).unwrap());
    let b = p.add_mesh(shape.mesh(shape.builtin_vertices().unwrap()).unwrap());
    assert_eq!(a, b);
    assert_eq!(p.mesh_count(), 1);
    let rect = Shape2D::rectangle(v2(0.0, 0.0), v2(1.0, 1.0));
    let c = p.add_mesh(rect.mesh(rect.builtin_vertices().unwrap()).unwrap());
    assert_ne!(a, c);
    assert_eq!(p.mesh_count(), 2);
}

#[test]
fn prepare_draw_pushes_changed_uniforms_only() {
    let mut p = world();
    let id = p.add_material(MaterialKind::Color(Srgba::white()));
    let col = Vec4Bits { x: 1, y: 0, z: 0, w: 1 };
    let m = Mat4Bits { x_axis: col, y_axis: col, z_axis: col, w_axis: col };
    let first = p.prepare_draw(id, m, m, Some(Srgba::white())).unwrap();
    let mut names: Vec<String> = first.iter().map(|u| u.0.clone()).collect();
    names.sort();
    assert_eq!(names, vec!["uColor".to_string(), "uModel".to_string(), "uProjection".to_string()]);
    let again = p.prepare_draw(id, m, m, Some(Srgba::white())).unwrap();
    assert!(again.is_empty());
    let moved = Mat4Bits { w_axis: Vec4Bits { x: 9, y: 9, z: 0, w: 1 }, ..m };
    let third = p.prepare_draw(id, m, moved, None).unwrap();
    assert_eq!(third, vec![("uModel".to_string(), ShaderUniform::Mat4(moved))]);
    assert!(p.prepare_draw(MaterialId(Handle { hash: 3, salt: 3 }), m, m, None).is_none());
}
