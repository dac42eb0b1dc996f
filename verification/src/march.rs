//! The marching driver: walk a ray through the distance field a
//! stream denotes, by sphere tracing — each step advances the ray by
//! the field value at the current point, until a surface is closer
//! than `EPSILON`, the travelled distance exceeds `MAX_TRAVEL`, or
//! `MAX_STEPS` steps have been taken.  The step count bounds every
//! march, so the loop terminates on every stream and every ray.

use vstd::prelude::*;
use crate::eval::evaluate;
use crate::eval::spec_evaluate;
use crate::fixed::FX_ONE;
use crate::fixed::fx_add;
use crate::fixed::fx_clamp;
use crate::fixed::fx_clip;
use crate::fixed::frac_fx;
use crate::fixed::frac_val;
use crate::fixed::fx_div;
use crate::fixed::fx_div_val;
use crate::fixed::fx_in_range;
use crate::fixed::fx_len;
use crate::fixed::fx_len_val;
use crate::fixed::fx_mul;
use crate::fixed::fx_mul_val;
use crate::fixed::lemma_sqrt_floor_bounds;
use crate::fixed::sqrt_floor;
use crate::scene::Vec3;

verus! {

/// A field value below this counts as a surface hit: about one
/// hundredth of a spatial unit.
pub const EPSILON: i64 = 655;

/// A ray that has travelled farther than this without a hit is a
/// miss: one hundred spatial units.
pub const MAX_TRAVEL: i64 = 100 * FX_ONE;

/// The iteration bound of the marching loop.
pub const MAX_STEPS: u32 = 128;

/// What a march concluded, at the spec level.
pub enum MarchSpecOutcome {
    /// A surface within `EPSILON`, after travelling `travel`.
    Hit { travel: int },
    /// No surface within reach.
    Miss,
}

/// What a march concluded.
#[derive(Clone, Copy, PartialEq, Eq, Structural, Debug)]
pub enum MarchResult {
    /// A surface within `EPSILON`, after travelling `travel`.
    Hit { travel: i64 },
    /// No surface within reach.
    Miss,
}

/// The march from a point with `fuel` steps left: evaluate the field,
/// hit below `EPSILON`, give up beyond `MAX_TRAVEL` or when the fuel
/// runs out, else advance by the field value and continue.
pub open spec fn march_from(
    s: Seq<i64>,
    px: int,
    py: int,
    pz: int,
    dx: int,
    dy: int,
    dz: int,
    travel: int,
    fuel: nat,
) -> MarchSpecOutcome
    decreases fuel,
{
    if fuel == 0 {
        MarchSpecOutcome::Miss
    } else {
        let d = spec_evaluate(s, px, py, pz);
        if d < EPSILON {
            MarchSpecOutcome::Hit { travel }
        } else {
            let t2 = fx_clip(travel + d);
            if t2 > MAX_TRAVEL {
                MarchSpecOutcome::Miss
            } else {
                march_from(
                    s,
                    fx_clip(px + fx_mul_val(dx, d)),
                    fx_clip(py + fx_mul_val(dy, d)),
                    fx_clip(pz + fx_mul_val(dz, d)),
                    dx,
                    dy,
                    dz,
                    t2,
                    (fuel - 1) as nat,
                )
            }
        }
    }
}

/// The full march of one ray: from its origin, with the whole step
/// budget.
pub open spec fn spec_march(
    s: Seq<i64>,
    px: int,
    py: int,
    pz: int,
    dx: int,
    dy: int,
    dz: int,
) -> MarchSpecOutcome {
    march_from(
        s,
        fx_clip(px),
        fx_clip(py),
        fx_clip(pz),
        fx_clip(dx),
        fx_clip(dy),
        fx_clip(dz),
        0,
        MAX_STEPS as nat,
    )
}

/// March one ray through the stream's distance field.  Returns
/// exactly what the spec-level march concludes; the loop is bounded
/// by `MAX_STEPS`, so it terminates on every stream and every ray.
pub fn march(stream: &Vec<i64>, origin: Vec3, dir: Vec3) -> (r: MarchResult)
    requires
        stream@.len() <= usize::MAX - 4,
    ensures
        r is Miss <==> spec_march(
            stream@,
            origin.x as int,
            origin.y as int,
            origin.z as int,
            dir.x as int,
            dir.y as int,
            dir.z as int,
        ) is Miss,
        r matches MarchResult::Hit { travel } ==> spec_march(
            stream@,
            origin.x as int,
            origin.y as int,
            origin.z as int,
            dir.x as int,
            dir.y as int,
            dir.z as int,
        ) == (MarchSpecOutcome::Hit { travel: travel as int }),
{
    let mut px: i64 = fx_clamp(origin.x);
    let mut py: i64 = fx_clamp(origin.y);
    let mut pz: i64 = fx_clamp(origin.z);
    let dx: i64 = fx_clamp(dir.x);
    let dy: i64 = fx_clamp(dir.y);
    let dz: i64 = fx_clamp(dir.z);
    let mut travel: i64 = 0;
    let mut steps: u32 = 0;
    let ghost goal = spec_march(
        stream@,
        origin.x as int,
        origin.y as int,
        origin.z as int,
        dir.x as int,
        dir.y as int,
        dir.z as int,
    );
    while steps < MAX_STEPS
        invariant
            stream@.len() <= usize::MAX - 4,
            steps <= MAX_STEPS,
            fx_in_range(px as int) && fx_in_range(py as int) && fx_in_range(pz as int),
            fx_in_range(dx as int) && fx_in_range(dy as int) && fx_in_range(dz as int),
            fx_in_range(travel as int),
            goal == spec_march(
                stream@,
                origin.x as int,
                origin.y as int,
                origin.z as int,
                dir.x as int,
                dir.y as int,
                dir.z as int,
            ),
            goal == march_from(
                stream@,
                px as int,
                py as int,
                pz as int,
                dx as int,
                dy as int,
                dz as int,
                travel as int,
                (MAX_STEPS - steps) as nat,
            ),
        decreases MAX_STEPS - steps,
    {
        let d: i64 = evaluate(stream, Vec3 { x: px, y: py, z: pz });
        if d < EPSILON {
            return MarchResult::Hit { travel };
        }
        let t2: i64 = fx_add(travel, d);
        if t2 > MAX_TRAVEL {
            return MarchResult::Miss;
        }
        px = fx_add(px, fx_mul(dx, d));
        py = fx_add(py, fx_mul(dy, d));
        pz = fx_add(pz, fx_mul(dz, d));
        travel = t2;
        steps = steps + 1;
    }
    MarchResult::Miss
}

/// Marching termination on a clear field: when the distance field
/// never falls below `EPSILON` anywhere, a march — which always takes
/// at most `MAX_STEPS` steps — concludes with the background miss,
/// whatever the ray.
pub proof fn lemma_march_misses_clear_field(
    s: Seq<i64>,
    px: int,
    py: int,
    pz: int,
    dx: int,
    dy: int,
    dz: int,
)
    requires
        forall|qx: int, qy: int, qz: int| #[trigger] spec_evaluate(s, qx, qy, qz) >= EPSILON,
    ensures
        spec_march(s, px, py, pz, dx, dy, dz) is Miss,
{
    lemma_march_from_misses(
        s,
        fx_clip(px),
        fx_clip(py),
        fx_clip(pz),
        fx_clip(dx),
        fx_clip(dy),
        fx_clip(dz),
        0,
        MAX_STEPS as nat,
    );
}

/// The inductive heart of the clear-field law.
proof fn lemma_march_from_misses(
    s: Seq<i64>,
    px: int,
    py: int,
    pz: int,
    dx: int,
    dy: int,
    dz: int,
    travel: int,
    fuel: nat,
)
    requires
        forall|qx: int, qy: int, qz: int| #[trigger] spec_evaluate(s, qx, qy, qz) >= EPSILON,
    ensures
        march_from(s, px, py, pz, dx, dy, dz, travel, fuel) is Miss,
    decreases fuel,
{
    if fuel > 0 {
        let d = spec_evaluate(s, px, py, pz);
        assert(d >= EPSILON);
        let t2 = fx_clip(travel + d);
        if t2 <= MAX_TRAVEL {
            lemma_march_from_misses(
                s,
                fx_clip(px + fx_mul_val(dx, d)),
                fx_clip(py + fx_mul_val(dy, d)),
                fx_clip(pz + fx_mul_val(dz, d)),
                dx,
                dy,
                dz,
                t2,
                (fuel - 1) as nat,
            );
        }
    }
}

/// The camera ray of one pixel: from the origin, through the image
/// plane one unit ahead (a fixed 90-degree vertical field of view),
/// normalized.  `x` grows rightward, `y` upward, and the camera looks
/// down the negative `z` axis.
pub open spec fn camera_ray_dir(w: int, h: int, xi: int, yi: int) -> (int, int, int)
    recommends
        h > 0,
{
    let ux = frac_val(2 * xi + 1 - w, h);
    let uy = frac_val(h - (2 * yi + 1), h);
    let uz = -FX_ONE as int;
    let l = fx_len_val(ux, uy, uz);
    (fx_div_val(ux, l), fx_div_val(uy, l), fx_div_val(uz, l))
}

/// Build the camera ray for pixel `(xi, yi)` of a `width` by
/// `height` image: the origin and the normalized direction.
pub fn pixel_ray(width: u32, height: u32, xi: u32, yi: u32) -> (r: (Vec3, Vec3))
    requires
        height >= 1,
    ensures
        r.0 == (Vec3 { x: 0, y: 0, z: 0 }),
        r.1.x == camera_ray_dir(width as int, height as int, xi as int, yi as int).0,
        r.1.y == camera_ray_dir(width as int, height as int, xi as int, yi as int).1,
        r.1.z == camera_ray_dir(width as int, height as int, xi as int, yi as int).2,
{
    let ux: i64 = frac_fx(2 * (xi as i64) + 1 - (width as i64), height as i64);
    let uy: i64 = frac_fx((height as i64) - (2 * (yi as i64) + 1), height as i64);
    let uz: i64 = -FX_ONE;
    let l: i64 = fx_len(ux, uy, uz);
    proof {
        let nx = (ux as int) * (ux as int);
        let ny = (uy as int) * (uy as int);
        let nz = (uz as int) * (uz as int);
        assert(nx >= 0 && ny >= 0 && nz == (FX_ONE as int) * (FX_ONE as int))
            by (nonlinear_arith)
            requires
                nx == (ux as int) * (ux as int),
                ny == (uy as int) * (uy as int),
                nz == (uz as int) * (uz as int),
                uz == -FX_ONE,
        ;
        let n = nx + ny + nz;
        assert(n >= 0x1_0000_0000);
        lemma_sqrt_floor_bounds(n as nat);
        let root = sqrt_floor(n as nat);
        assert(root >= FX_ONE) by (nonlinear_arith)
            requires
                n < (root + 1) * (root + 1),
                n >= 0x1_0000_0000,
                root >= 0,
        ;
    }
    let dx: i64 = fx_div(ux, l);
    let dy: i64 = fx_div(uy, l);
    let dz: i64 = fx_div(uz, l);
    (Vec3 { x: 0, y: 0, z: 0 }, Vec3 { x: dx, y: dy, z: dz })
}

/// The color of one pixel: full white where the pixel's camera ray
/// hits a surface, the black background where it misses.
pub open spec fn spec_render_pixel(s: Seq<i64>, w: int, h: int, xi: int, yi: int) -> int {
    let dir = camera_ray_dir(w, h, xi, yi);
    if spec_march(s, 0, 0, 0, dir.0, dir.1, dir.2) is Hit {
        255
    } else {
        0
    }
}

/// March the pixel's camera ray through the stream and shade it.
pub fn render_pixel(stream: &Vec<i64>, width: u32, height: u32, xi: u32, yi: u32) -> (c: u8)
    requires
        stream@.len() <= usize::MAX - 4,
        height >= 1,
    ensures
        c == spec_render_pixel(stream@, width as int, height as int, xi as int, yi as int),
{
    let ray = pixel_ray(width, height, xi, yi);
    let outcome = march(stream, ray.0, ray.1);
    match outcome {
        MarchResult::Hit { .. } => 255,
        MarchResult::Miss => 0,
    }
}

} // verus!
