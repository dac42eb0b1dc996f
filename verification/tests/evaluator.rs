use sdf_scene::codec::encode;
use sdf_scene::codec::OP_BOX;
use sdf_scene::codec::OP_NEW_ENTITY;
use sdf_scene::codec::OP_ROTATE;
use sdf_scene::codec::OP_SPHERE;
use sdf_scene::codec::OP_STOP;
use sdf_scene::codec::OP_TRANSLATE;
use sdf_scene::codec::OP_UNION;
use sdf_scene::eval::evaluate;
use sdf_scene::eval::MISS_DISTANCE;
use sdf_scene::fixed::FX_HALF_PI;
use sdf_scene::fixed::FX_LIM;
use sdf_scene::scene::Combinator;
use sdf_scene::scene::Entity;
use sdf_scene::scene::Primitive;
use sdf_scene::scene::TransformOp;
use sdf_scene::scene::Vec3;

const ONE: i64 = 65536;

fn at(x: i64, y: i64, z: i64) -> Vec3 {
    Vec3 { x, y, z }
}

fn sphere_at(radius: i64, offset: Vec3, combinator: Combinator) -> Entity {
    Entity {
        transforms: vec![TransformOp::Translate { offset }],
        primitive: Primitive::Sphere { radius },
        combinator,
    }
}

#[test]
fn empty_scene_misses_everywhere() {
    let stream = encode(&Vec::new()).unwrap();
    assert_eq!(stream, vec![OP_STOP]);
    assert_eq!(evaluate(&stream, at(0, 0, 0)), MISS_DISTANCE);
    assert_eq!(evaluate(&stream, at(ONE, -ONE, 7 * ONE)), MISS_DISTANCE);
    assert_eq!(evaluate(&stream, at(-3 * ONE, 0, 100 * ONE)), MISS_DISTANCE);
}

#[test]
fn union_folds_by_minimum() {
    // A unit sphere at the origin unioned with a unit sphere at
    // (3, 0, 0).
    let scene = vec![
        Entity {
            transforms: Vec::new(),
            primitive: Primitive::Sphere { radius: ONE },
            combinator: Combinator::Union,
        },
        sphere_at(ONE, at(3 * ONE, 0, 0), Combinator::Union),
    ];
    let stream = encode(&scene).unwrap();
    // Inside the first sphere: one unit deep.
    assert_eq!(evaluate(&stream, at(0, 0, 0)), -ONE);
    // Inside the second sphere: one unit deep.
    assert_eq!(evaluate(&stream, at(3 * ONE, 0, 0)), -ONE);
    // Midway between them: half a unit from the nearest surface.
    assert_eq!(evaluate(&stream, at(3 * ONE / 2, 0, 0)), ONE / 2);
}

#[test]
fn difference_carves_the_scene_out() {
    // A radius-2 sphere hollowed by a radius-1 sphere, both at the
    // origin: the origin ends up outside the carved solid.
    let scene = vec![
        Entity {
            transforms: Vec::new(),
            primitive: Primitive::Sphere { radius: 2 * ONE },
            combinator: Combinator::Union,
        },
        Entity {
            transforms: Vec::new(),
            primitive: Primitive::Sphere { radius: ONE },
            combinator: Combinator::Difference,
        },
    ];
    let stream = encode(&scene).unwrap();
    let d = evaluate(&stream, at(0, 0, 0));
    assert!(d > 0);
    assert_eq!(d, ONE);
}

#[test]
fn intersect_keeps_the_overlap() {
    // Two unit spheres two units apart: their intersection is empty,
    // so the midpoint is still outside it.
    let scene = vec![
        sphere_at(ONE, at(-ONE, 0, 0), Combinator::Union),
        sphere_at(ONE, at(ONE, 0, 0), Combinator::Intersect),
    ];
    let stream = encode(&scene).unwrap();
    assert_eq!(evaluate(&stream, at(0, 0, 0)), 0);
    assert_eq!(evaluate(&stream, at(-ONE, 0, 0)), ONE);
}

#[test]
fn translation_moves_the_primitive() {
    // A unit sphere translated to (2, 0, 0).
    let scene = vec![sphere_at(ONE, at(2 * ONE, 0, 0), Combinator::Union)];
    let stream = encode(&scene).unwrap();
    // At the sphere's center: minus the radius.
    assert_eq!(evaluate(&stream, at(2 * ONE, 0, 0)), -ONE);
    // At the origin: two units away minus the radius.
    assert_eq!(evaluate(&stream, at(0, 0, 0)), 2 * ONE - ONE);
}

#[test]
fn translations_compose_in_stream_order() {
    let scene = vec![Entity {
        transforms: vec![
            TransformOp::Translate { offset: at(ONE, 0, 0) },
            TransformOp::Translate { offset: at(2 * ONE, 0, 0) },
        ],
        primitive: Primitive::Sphere { radius: ONE },
        combinator: Combinator::Union,
    }];
    let stream = encode(&scene).unwrap();
    assert_eq!(evaluate(&stream, at(3 * ONE, 0, 0)), -ONE);
    assert_eq!(evaluate(&stream, at(0, 0, 0)), 2 * ONE);
}

#[test]
fn box_distance_inside_and_outside() {
    let scene = vec![Entity {
        transforms: Vec::new(),
        primitive: Primitive::Cuboid { half_extents: at(ONE, ONE / 2, ONE) },
        combinator: Combinator::Union,
    }];
    let stream = encode(&scene).unwrap();
    // Center of the box: half a unit below the nearest (y) face.
    assert_eq!(evaluate(&stream, at(0, 0, 0)), -ONE / 2);
    // One unit beyond the +x face.
    assert_eq!(evaluate(&stream, at(2 * ONE, 0, 0)), ONE);
    // On a face.
    assert_eq!(evaluate(&stream, at(ONE, 0, 0)), 0);
}

#[test]
fn quarter_turn_rotation_swings_the_box() {
    // A slab two units long on x, rotated a quarter turn about z:
    // its long side now lies on the y axis.  The fixed-point
    // convention's quadratic sine makes the turn exact to a few
    // words.
    let scene = vec![Entity {
        transforms: vec![TransformOp::Rotate { angles: at(0, 0, FX_HALF_PI) }],
        primitive: Primitive::Cuboid { half_extents: at(2 * ONE, ONE / 2, ONE) },
        combinator: Combinator::Union,
    }];
    let stream = encode(&scene).unwrap();
    // Unrotated, (0, 2, 0) would be 1.5 units above the slab; after
    // the quarter turn it lies on (just inside) the swung end face.
    let unrotated = vec![Entity {
        transforms: Vec::new(),
        primitive: Primitive::Cuboid { half_extents: at(2 * ONE, ONE / 2, ONE) },
        combinator: Combinator::Union,
    }];
    let plain = encode(&unrotated).unwrap();
    assert_eq!(evaluate(&plain, at(0, 2 * ONE, 0)), 3 * ONE / 2);
    assert_eq!(evaluate(&stream, at(0, 2 * ONE, 0)), -4);
}

#[test]
fn first_combinator_only_seeds_the_running_distance() {
    // A lone entity closed by Difference: with no prior scene
    // distance the fold is "running := pending", not a subtraction.
    let scene = vec![Entity {
        transforms: Vec::new(),
        primitive: Primitive::Sphere { radius: ONE },
        combinator: Combinator::Difference,
    }];
    let stream = encode(&scene).unwrap();
    assert_eq!(evaluate(&stream, at(0, 0, 0)), -ONE);
}

#[test]
fn truncated_stream_reads_missing_operands_as_zero() {
    // A sphere opcode with its radius cut off: the radius reads as
    // zero, and the unterminated stream still ends cleanly.
    let cut = vec![OP_NEW_ENTITY, OP_TRANSLATE, ONE, 0, 0, OP_SPHERE, ONE, OP_UNION, OP_STOP];
    let mut truncated = cut.clone();
    truncated.truncate(6);
    let mut padded = truncated.clone();
    padded.extend_from_slice(&[0, 0, 0]);
    for p in [at(0, 0, 0), at(ONE, ONE, ONE), at(-2 * ONE, 0, 3 * ONE)] {
        let d = evaluate(&truncated, p);
        // Degrades to the same stable value as the zero-padded
        // stream, and stays finite.
        assert_eq!(d, evaluate(&padded, p));
        assert!(-FX_LIM <= d && d <= FX_LIM);
    }
}

#[test]
fn truncated_mid_operand_still_returns_a_finite_distance() {
    let truncated = vec![OP_NEW_ENTITY, OP_BOX, ONE];
    let d = evaluate(&truncated, at(0, 0, 0));
    assert!(-FX_LIM <= d && d <= FX_LIM);
    // No combinator ever closed an entity, so nothing was folded in.
    assert_eq!(d, MISS_DISTANCE);
}

#[test]
fn unknown_opcode_is_skipped() {
    let odd = vec![OP_NEW_ENTITY, 7, OP_SPHERE, ONE, OP_UNION, OP_STOP];
    let clean = vec![OP_NEW_ENTITY, OP_SPHERE, ONE, OP_UNION, OP_STOP];
    assert_eq!(evaluate(&odd, at(0, 0, 0)), evaluate(&clean, at(0, 0, 0)));
}

#[test]
fn rotation_operands_follow_the_rotate_opcode() {
    // Hand-written stream equal to the encoded rotation scene.
    let scene = vec![Entity {
        transforms: vec![TransformOp::Rotate { angles: at(0, 0, FX_HALF_PI) }],
        primitive: Primitive::Sphere { radius: ONE },
        combinator: Combinator::Union,
    }];
    let stream = encode(&scene).unwrap();
    assert_eq!(
        stream,
        vec![OP_NEW_ENTITY, OP_ROTATE, 0, 0, FX_HALF_PI, OP_SPHERE, ONE, OP_UNION, OP_STOP]
    );
}
