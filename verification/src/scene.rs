//! The scene description the encoder consumes: a sequence of entities,
//! each one primitive carrying an ordered list of transforms and the
//! combinator that folds it into the running scene distance.

use vstd::prelude::*;
use crate::fixed::FX_ONE;
use crate::fixed::fx_clamp;
use crate::fixed::fx_clip;
use crate::fixed::fx_div;
use crate::fixed::fx_div_val;
use crate::fixed::fx_sin;
use crate::fixed::fx_sin_val;

verus! {

/// A fixed-point vector: a point, an offset, a triple of half extents,
/// or a triple of rotation angles.
#[derive(Clone, Copy, PartialEq, Eq, Structural, Debug)]
pub struct Vec3 {
    pub x: i64,
    pub y: i64,
    pub z: i64,
}

/// A signed-distance primitive.  Lengths are fixed point: `65536` is
/// one spatial unit.
#[derive(Clone, Copy, PartialEq, Eq, Structural, Debug)]
pub enum Primitive {
    /// A sphere around the entity origin.
    Sphere { radius: i64 },
    /// An axis-aligned box around the entity origin, given by its half
    /// extents along each axis.
    Cuboid { half_extents: Vec3 },
}

/// One affine step of an entity's transform.  Steps compose in list
/// order: each later step acts in the frame the earlier ones set up.
#[derive(Clone, Copy, PartialEq, Eq, Structural, Debug)]
pub enum TransformOp {
    /// Move the entity by this offset.
    Translate { offset: Vec3 },
    /// Rotate the entity by the three angles (fixed-point radians),
    /// applied about the x, then y, then z axis.
    Rotate { angles: Vec3 },
}

/// The operator folding an entity's distance into the running scene
/// distance.  The first entity's combinator is a no-op: it only seeds
/// the running distance.
#[derive(Clone, Copy, PartialEq, Eq, Structural, Debug)]
pub enum Combinator {
    Union,
    Difference,
    Intersect,
}

impl Default for Combinator {
    /// The combinator an entity gets when none is specified.
    fn default() -> (r: Self)
        ensures
            r == Combinator::Union,
    {
        Combinator::Union
    }
}

/// One entity: transforms in order, then its primitive, then the
/// combinator that closes it.
pub struct Entity {
    pub transforms: Vec<TransformOp>,
    pub primitive: Primitive,
    pub combinator: Combinator,
}

/// The mathematical shadow of an `Entity`: the transform list as a
/// sequence.
pub struct EntityModel {
    pub transforms: Seq<TransformOp>,
    pub primitive: Primitive,
    pub combinator: Combinator,
}

impl View for Entity {
    type V = EntityModel;

    open spec fn view(&self) -> EntityModel {
        EntityModel {
            transforms: self.transforms@,
            primitive: self.primitive,
            combinator: self.combinator,
        }
    }
}

/// The models of every entity of a scene, in order.
pub open spec fn scene_view(s: Seq<Entity>) -> Seq<EntityModel> {
    s.map_values(|e: Entity| e@)
}

/// A primitive is well formed when its lengths are nonnegative.
pub open spec fn primitive_valid(p: Primitive) -> bool {
    match p {
        Primitive::Sphere { radius } => radius >= 0,
        Primitive::Cuboid { half_extents } => half_extents.x >= 0 && half_extents.y >= 0
            && half_extents.z >= 0,
    }
}

/// A scene is encodable when every primitive is well formed.
pub open spec fn scene_valid(s: Seq<EntityModel>) -> bool {
    forall|i: int| 0 <= i < s.len() ==> primitive_valid(#[trigger] s[i].primitive)
}

/// Why a scene was refused by the encoder.
#[derive(Clone, Copy, PartialEq, Eq, Structural, Debug)]
pub enum EncodingError {
    /// Some primitive has a negative radius or half extent.
    InvalidPrimitive,
}

/// The wobble angle of the reference scene at a moment: the sine of
/// the time (milliseconds, fixed point) divided by five hundred.
pub open spec fn spec_demo_wobble(now_ms: int) -> int {
    fx_clip(fx_sin_val(fx_div_val(fx_clip(now_ms), 500 * FX_ONE)))
}

/// The reference scene at a moment: a slab twisting with time, a
/// sphere beside it, and a sphere carved out below — the animation
/// time is an explicit input, so the scene description stays a pure
/// function.
pub open spec fn spec_demo_scene(now_ms: int) -> Seq<EntityModel> {
    let wobble = spec_demo_wobble(now_ms) as i64;
    seq![
        EntityModel {
            transforms: seq![
                TransformOp::Translate { offset: Vec3 { x: 0i64, y: 0i64, z: -327680i64 } },
                TransformOp::Rotate { angles: Vec3 { x: 0i64, y: 65536i64, z: wobble } },
            ],
            primitive: Primitive::Cuboid {
                half_extents: Vec3 { x: 65536i64, y: 32768i64, z: 65536i64 },
            },
            combinator: Combinator::Union,
        },
        EntityModel {
            transforms: seq![
                TransformOp::Translate { offset: Vec3 { x: -65536i64, y: 0i64, z: -327680i64 } },
            ],
            primitive: Primitive::Sphere { radius: 65536i64 },
            combinator: Combinator::Union,
        },
        EntityModel {
            transforms: seq![
                TransformOp::Translate { offset: Vec3 { x: 0i64, y: -65536i64, z: -262144i64 } },
            ],
            primitive: Primitive::Sphere { radius: 65536i64 },
            combinator: Combinator::Difference,
        },
    ]
}

/// Build the reference scene for the given animation time
/// (milliseconds, fixed point).
pub fn demo_scene(now_ms: i64) -> (r: Vec<Entity>)
    ensures
        scene_view(r@) == spec_demo_scene(now_ms as int),
{
    let t: i64 = fx_clamp(now_ms);
    let wobble: i64 = fx_clamp(fx_sin(fx_div(t, 500 * FX_ONE)));
    assert(wobble == spec_demo_wobble(now_ms as int));
    let mut ts1: Vec<TransformOp> = Vec::new();
    ts1.push(TransformOp::Translate { offset: Vec3 { x: 0, y: 0, z: -327680 } });
    ts1.push(TransformOp::Rotate { angles: Vec3 { x: 0, y: 65536, z: wobble } });
    let ghost v1 = ts1@;
    let e1 = Entity {
        transforms: ts1,
        primitive: Primitive::Cuboid { half_extents: Vec3 { x: 65536, y: 32768, z: 65536 } },
        combinator: Combinator::Union,
    };
    let mut ts2: Vec<TransformOp> = Vec::new();
    ts2.push(TransformOp::Translate { offset: Vec3 { x: -65536, y: 0, z: -327680 } });
    let ghost v2 = ts2@;
    let e2 = Entity {
        transforms: ts2,
        primitive: Primitive::Sphere { radius: 65536 },
        combinator: Combinator::Union,
    };
    let mut ts3: Vec<TransformOp> = Vec::new();
    ts3.push(TransformOp::Translate { offset: Vec3 { x: 0, y: -65536, z: -262144 } });
    let ghost v3 = ts3@;
    let e3 = Entity {
        transforms: ts3,
        primitive: Primitive::Sphere { radius: 65536 },
        combinator: Combinator::Difference,
    };
    let ghost m1 = e1@;
    let ghost m2 = e2@;
    let ghost m3 = e3@;
    let mut r: Vec<Entity> = Vec::new();
    r.push(e1);
    r.push(e2);
    r.push(e3);
    proof {
        let m = spec_demo_scene(now_ms as int);
        assert(v1 =~= m[0].transforms);
        assert(v2 =~= m[1].transforms);
        assert(v3 =~= m[2].transforms);
        assert(m1 == m[0]);
        assert(m2 == m[1]);
        assert(m3 == m[2]);
        assert(r@ =~= seq![e1, e2, e3]);
        assert(scene_view(r@) =~= m);
    }
    r
}

} // verus!
