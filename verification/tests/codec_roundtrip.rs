use sdf_scene::codec::decode;
use sdf_scene::codec::encode;
use sdf_scene::codec::opcode_arity;
use sdf_scene::codec::OP_BOX;
use sdf_scene::codec::OP_DIFFERENCE;
use sdf_scene::codec::OP_INTERSECT;
use sdf_scene::codec::OP_NEW_ENTITY;
use sdf_scene::codec::OP_ROTATE;
use sdf_scene::codec::OP_SPHERE;
use sdf_scene::codec::OP_STOP;
use sdf_scene::codec::OP_TRANSLATE;
use sdf_scene::codec::OP_UNION;
use sdf_scene::scene::demo_scene;
use sdf_scene::scene::Combinator;
use sdf_scene::scene::EncodingError;
use sdf_scene::scene::Entity;
use sdf_scene::scene::Primitive;
use sdf_scene::scene::TransformOp;
use sdf_scene::scene::Vec3;

const ONE: i64 = 65536;

fn sphere_entity(radius: i64, offset: Vec3, combinator: Combinator) -> Entity {
    Entity {
        transforms: vec![TransformOp::Translate { offset }],
        primitive: Primitive::Sphere { radius },
        combinator,
    }
}

#[test]
fn opcode_values_are_the_wire_contract() {
    assert_eq!(OP_STOP, 0);
    assert_eq!(OP_NEW_ENTITY, 1);
    assert_eq!(OP_SPHERE, 100);
    assert_eq!(OP_BOX, 101);
    assert_eq!(OP_TRANSLATE, 200);
    assert_eq!(OP_ROTATE, 201);
    assert_eq!(OP_UNION, 300);
    assert_eq!(OP_DIFFERENCE, 301);
    assert_eq!(OP_INTERSECT, 302);
}

#[test]
fn opcode_arity_matches_the_wire_contract() {
    assert_eq!(opcode_arity(OP_STOP), Some(0));
    assert_eq!(opcode_arity(OP_NEW_ENTITY), Some(0));
    assert_eq!(opcode_arity(OP_SPHERE), Some(1));
    assert_eq!(opcode_arity(OP_BOX), Some(3));
    assert_eq!(opcode_arity(OP_TRANSLATE), Some(3));
    assert_eq!(opcode_arity(OP_ROTATE), Some(3));
    assert_eq!(opcode_arity(OP_UNION), Some(0));
    assert_eq!(opcode_arity(OP_DIFFERENCE), Some(0));
    assert_eq!(opcode_arity(OP_INTERSECT), Some(0));
    assert_eq!(opcode_arity(7), None);
    assert_eq!(opcode_arity(-1), None);
}

#[test]
fn encode_empty_scene_is_a_bare_stop() {
    let stream = encode(&Vec::new()).unwrap();
    assert_eq!(stream, vec![OP_STOP]);
}

#[test]
fn encode_one_sphere() {
    let scene = vec![sphere_entity(ONE, Vec3 { x: 0, y: 0, z: -5 * ONE }, Combinator::Union)];
    let stream = encode(&scene).unwrap();
    assert_eq!(
        stream,
        vec![
            OP_NEW_ENTITY,
            OP_TRANSLATE,
            0,
            0,
            -5 * ONE,
            OP_SPHERE,
            ONE,
            OP_UNION,
            OP_STOP,
        ]
    );
}

#[test]
fn encode_rejects_negative_radius() {
    let scene = vec![sphere_entity(-1, Vec3 { x: 0, y: 0, z: 0 }, Combinator::Union)];
    assert_eq!(encode(&scene).unwrap_err(), EncodingError::InvalidPrimitive);
}

#[test]
fn encode_rejects_negative_half_extent() {
    let scene = vec![Entity {
        transforms: Vec::new(),
        primitive: Primitive::Cuboid { half_extents: Vec3 { x: ONE, y: -ONE, z: ONE } },
        combinator: Combinator::Intersect,
    }];
    assert_eq!(encode(&scene).unwrap_err(), EncodingError::InvalidPrimitive);
}

#[test]
fn round_trip_recovers_the_scene() {
    let scene = vec![
        Entity {
            transforms: vec![
                TransformOp::Translate { offset: Vec3 { x: ONE, y: 2 * ONE, z: -3 * ONE } },
                TransformOp::Rotate { angles: Vec3 { x: 0, y: ONE, z: ONE / 2 } },
            ],
            primitive: Primitive::Cuboid { half_extents: Vec3 { x: ONE, y: ONE / 2, z: ONE } },
            combinator: Combinator::Union,
        },
        sphere_entity(ONE, Vec3 { x: -ONE, y: 0, z: -5 * ONE }, Combinator::Difference),
        sphere_entity(3 * ONE, Vec3 { x: 0, y: 0, z: 0 }, Combinator::Intersect),
    ];
    let stream = encode(&scene).unwrap();
    let back = decode(&stream).expect("a well-formed stream must decode");
    assert_eq!(back.len(), scene.len());
    for (b, a) in back.iter().zip(scene.iter()) {
        assert_eq!(b.transforms, a.transforms);
        assert_eq!(b.primitive, a.primitive);
        assert_eq!(b.combinator, a.combinator);
    }
}

#[test]
fn round_trip_length_matches_the_arity_table() {
    let scene = vec![
        Entity {
            transforms: vec![
                TransformOp::Translate { offset: Vec3 { x: 0, y: 0, z: 0 } },
                TransformOp::Rotate { angles: Vec3 { x: 0, y: 0, z: 0 } },
            ],
            primitive: Primitive::Cuboid { half_extents: Vec3 { x: ONE, y: ONE, z: ONE } },
            combinator: Combinator::Union,
        },
        sphere_entity(ONE, Vec3 { x: 0, y: 0, z: 0 }, Combinator::Union),
    ];
    let stream = encode(&scene).unwrap();
    // Entity word counts: NewEntity + 4 per transform + primitive
    // words + combinator; one Stop closes the stream.
    let first: usize = 1 + 4 * 2 + 4 + 1;
    let second: usize = 1 + 4 * 1 + 2 + 1;
    assert_eq!(stream.len(), first + second + 1);
}

#[test]
fn decode_rejects_truncated_operands() {
    // A translate with only one of its three operands.
    assert!(decode(&vec![OP_NEW_ENTITY, OP_TRANSLATE, ONE]).is_none());
    // A sphere missing its radius.
    assert!(decode(&vec![OP_NEW_ENTITY, OP_SPHERE]).is_none());
}

#[test]
fn decode_rejects_missing_stop() {
    assert!(decode(&vec![OP_NEW_ENTITY, OP_SPHERE, ONE, OP_UNION]).is_none());
}

#[test]
fn decode_rejects_unclosed_entity() {
    // The entity never gets its combinator before Stop.
    assert!(decode(&vec![OP_NEW_ENTITY, OP_SPHERE, ONE, OP_STOP]).is_none());
}

#[test]
fn decode_rejects_transform_after_primitive() {
    assert!(
        decode(&vec![
            OP_NEW_ENTITY,
            OP_SPHERE,
            ONE,
            OP_TRANSLATE,
            0,
            0,
            0,
            OP_UNION,
            OP_STOP,
        ])
        .is_none()
    );
}

#[test]
fn decode_rejects_combinator_without_primitive() {
    assert!(decode(&vec![OP_NEW_ENTITY, OP_UNION, OP_STOP]).is_none());
}

#[test]
fn decode_rejects_unknown_opcode() {
    assert!(decode(&vec![OP_NEW_ENTITY, 7, OP_STOP]).is_none());
}

#[test]
fn default_combinator_is_union() {
    assert_eq!(Combinator::default(), Combinator::Union);
}

#[test]
fn decode_accepts_empty_scene() {
    let back = decode(&vec![OP_STOP]).unwrap();
    assert!(back.is_empty());
}

#[test]
fn demo_scene_round_trips_and_has_the_reference_shape() {
    let scene = demo_scene(0);
    assert_eq!(scene.len(), 3);
    let stream = encode(&scene).unwrap();
    // 14 + 8 + 8 entity words plus the Stop word.
    assert_eq!(stream.len(), 31);
    assert_eq!(stream[0], OP_NEW_ENTITY);
    assert_eq!(stream[1], OP_TRANSLATE);
    assert_eq!(stream[30], OP_STOP);
    // At time zero the wobble angle is exactly zero.
    assert_eq!(
        scene[0].transforms[1],
        TransformOp::Rotate { angles: Vec3 { x: 0, y: ONE, z: 0 } }
    );
    assert_eq!(scene[2].combinator, Combinator::Difference);
    let back = decode(&stream).unwrap();
    assert_eq!(back.len(), 3);
    assert_eq!(back[1].primitive, Primitive::Sphere { radius: ONE });
}
