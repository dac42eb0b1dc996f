use sdf_scene::codec::encode;
use sdf_scene::codec::OP_STOP;
use sdf_scene::march::march;
use sdf_scene::march::pixel_ray;
use sdf_scene::march::render_pixel;
use sdf_scene::march::MarchResult;
use sdf_scene::march::MAX_TRAVEL;
use sdf_scene::scene::demo_scene;
use sdf_scene::scene::Combinator;
use sdf_scene::scene::Entity;
use sdf_scene::scene::Primitive;
use sdf_scene::scene::TransformOp;
use sdf_scene::scene::Vec3;

const ONE: i64 = 65536;

fn at(x: i64, y: i64, z: i64) -> Vec3 {
    Vec3 { x, y, z }
}

fn sphere_scene() -> Vec<i64> {
    // A unit sphere five units down the view axis.
    let scene = vec![Entity {
        transforms: vec![TransformOp::Translate { offset: at(0, 0, -5 * ONE) }],
        primitive: Primitive::Sphere { radius: ONE },
        combinator: Combinator::Union,
    }];
    encode(&scene).unwrap()
}

#[test]
fn march_hits_a_sphere_dead_ahead() {
    let stream = sphere_scene();
    let outcome = march(&stream, at(0, 0, 0), at(0, 0, -ONE));
    // First step travels four units to the sphere's near surface,
    // the second lands exactly on it.
    assert_eq!(outcome, MarchResult::Hit { travel: 4 * ONE });
}

#[test]
fn march_misses_on_an_empty_scene() {
    // The empty scene's field is the miss sentinel everywhere, far
    // beyond epsilon, so the bounded loop must end in a miss.
    let stream = vec![OP_STOP];
    let outcome = march(&stream, at(0, 0, 0), at(0, 0, -ONE));
    assert_eq!(outcome, MarchResult::Miss);
}

#[test]
fn march_misses_when_looking_away() {
    let stream = sphere_scene();
    let outcome = march(&stream, at(0, 0, 0), at(0, 0, ONE));
    assert_eq!(outcome, MarchResult::Miss);
}

#[test]
fn march_reports_travel_within_the_budget() {
    let stream = sphere_scene();
    match march(&stream, at(0, 0, 0), at(0, 0, -ONE)) {
        MarchResult::Hit { travel } => {
            assert!(0 <= travel && travel <= MAX_TRAVEL);
        }
        MarchResult::Miss => panic!("the ray points straight at the sphere"),
    }
}

#[test]
fn center_pixel_ray_looks_down_the_view_axis() {
    let (origin, dir) = pixel_ray(513, 513, 256, 256);
    assert_eq!(origin, at(0, 0, 0));
    // The middle pixel of an odd image: no lateral components, and
    // the normalized view axis is one unit long.
    assert_eq!(dir.x, 0);
    assert_eq!(dir.y, 0);
    assert_eq!(dir.z, -ONE);
}

#[test]
fn corner_pixel_ray_tilts_up_and_left() {
    let (_, dir) = pixel_ray(512, 512, 0, 0);
    assert!(dir.x < 0);
    assert!(dir.y > 0);
    assert!(dir.z < 0);
}

#[test]
fn render_pixel_shades_hit_and_background() {
    let stream = sphere_scene();
    // The center of the image looks straight at the sphere.
    assert_eq!(render_pixel(&stream, 513, 513, 256, 256), 255);
    // The empty scene is all background.
    assert_eq!(render_pixel(&vec![OP_STOP], 513, 513, 256, 256), 0);
}

#[test]
fn demo_scene_renders_something_at_the_center() {
    let stream = encode(&demo_scene(0)).unwrap();
    // The reference slab sits across the view axis five units out.
    assert_eq!(render_pixel(&stream, 513, 513, 256, 256), 255);
}
