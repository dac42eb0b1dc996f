//! The stream consumer: replay an instruction stream at one sample
//! point and fold per-primitive signed distances into a single scene
//! distance.
//!
//! The semantics is a total spec-level machine, `eval_from`: it reads
//! words left to right, keeps the sample point pre-transformed by the
//! inverse of the running entity transform, and folds each finished
//! entity into the running distance with its combinator.  Reading past
//! the end of the stream yields the word `0`, which is `Stop`: a
//! truncated stream therefore degrades to the same stable value as one
//! padded with zero words, and the machine is defined on every stream,
//! well formed or not.  The executable `evaluate` returns exactly what
//! the machine computes.

use vstd::prelude::*;
use crate::codec::OP_BOX;
use crate::codec::OP_DIFFERENCE;
use crate::codec::OP_INTERSECT;
use crate::codec::OP_NEW_ENTITY;
use crate::codec::OP_ROTATE;
use crate::codec::OP_SPHERE;
use crate::codec::OP_STOP;
use crate::codec::OP_TRANSLATE;
use crate::codec::OP_UNION;
use crate::fixed::FX_LIM;
use crate::fixed::fx_abs;
use crate::fixed::fx_add;
use crate::fixed::fx_clamp;
use crate::fixed::fx_clip;
use crate::fixed::fx_cos;
use crate::fixed::fx_cos_val;
use crate::fixed::fx_in_range;
use crate::fixed::fx_len;
use crate::fixed::fx_len_val;
use crate::fixed::fx_mag;
use crate::fixed::fx_max;
use crate::fixed::fx_min;
use crate::fixed::fx_mul;
use crate::fixed::fx_mul_val;
use crate::fixed::fx_sin;
use crate::fixed::fx_sin_val;
use crate::fixed::fx_sub;
use crate::codec::spec_encode;
use crate::scene::Vec3;

verus! {

/// The distance reported for an empty scene: effectively "nothing
/// anywhere near", the largest representable distance.
pub const MISS_DISTANCE: i64 = FX_LIM;

/// The word at a stream position; positions outside the stream read
/// as zero, so a truncated stream never makes the machine read out of
/// bounds.
pub open spec fn word_at(s: Seq<i64>, i: int) -> int {
    if 0 <= i < s.len() {
        s[i] as int
    } else {
        0
    }
}

/// An operand read from the stream: the word pulled into the
/// fixed-point band.
pub open spec fn operand_at(s: Seq<i64>, i: int) -> int {
    fx_clip(word_at(s, i))
}

/// The smaller of two spec-level scalars.
pub open spec fn min_i(a: int, b: int) -> int {
    if a <= b {
        a
    } else {
        b
    }
}

/// The larger of two spec-level scalars.
pub open spec fn max_i(a: int, b: int) -> int {
    if a >= b {
        a
    } else {
        b
    }
}

/// Signed distance from the (pre-transformed) sample point to a
/// sphere of radius `r` at the entity origin: length minus radius.
pub open spec fn sphere_dist(qx: int, qy: int, qz: int, r: int) -> int {
    fx_clip(fx_len_val(qx, qy, qz) - r)
}

/// Signed distance to an axis-aligned box with half extents
/// `(hx, hy, hz)`: the length of the componentwise overshoot, plus
/// the (negative) interior correction.
pub open spec fn cuboid_dist(qx: int, qy: int, qz: int, hx: int, hy: int, hz: int) -> int {
    let dx = fx_clip(fx_mag(qx) - hx);
    let dy = fx_clip(fx_mag(qy) - hy);
    let dz = fx_clip(fx_mag(qz) - hz);
    let outside = fx_len_val(max_i(dx, 0), max_i(dy, 0), max_i(dz, 0));
    let inside = min_i(max_i(dx, max_i(dy, dz)), 0);
    fx_clip(outside + inside)
}

/// First coordinate of a plane pair rotated by the inverse of the
/// angle `a`: `u * cos a + v * sin a`.
pub open spec fn rot2_inv_u(u: int, v: int, a: int) -> int {
    fx_clip(fx_mul_val(u, fx_cos_val(a)) + fx_mul_val(v, fx_sin_val(a)))
}

/// Second coordinate of a plane pair rotated by the inverse of the
/// angle `a`: `v * cos a - u * sin a`.
pub open spec fn rot2_inv_v(u: int, v: int, a: int) -> int {
    fx_clip(fx_mul_val(v, fx_cos_val(a)) - fx_mul_val(u, fx_sin_val(a)))
}

/// The rotation convention of the protocol: `Rotate {ax, ay, az}`
/// turns the entity about the x, then y, then z axis by fixed-point
/// radians.  The machine tracks the inversely transformed sample
/// point, so the inverse axis rotations are applied here, in the same
/// order.
pub open spec fn apply_rotate(qx: int, qy: int, qz: int, ax: int, ay: int, az: int) -> (
    int,
    int,
    int,
) {
    let y1 = rot2_inv_u(qy, qz, ax);
    let z1 = rot2_inv_v(qy, qz, ax);
    let z2 = rot2_inv_u(z1, qx, ay);
    let x2 = rot2_inv_v(z1, qx, ay);
    let x3 = rot2_inv_u(x2, y1, az);
    let y3 = rot2_inv_v(x2, y1, az);
    (x3, y3, z2)
}

/// The machine's registers: the inversely transformed sample point,
/// the distance of the entity whose primitive was just seen, and the
/// running scene distance.
pub struct EvalState {
    pub qx: int,
    pub qy: int,
    pub qz: int,
    pub pending: int,
    pub has_pending: bool,
    pub acc: int,
    pub has_acc: bool,
}

/// The machine's start state at sample point `(px, py, pz)`.
pub open spec fn init_state(px: int, py: int, pz: int) -> EvalState {
    EvalState { qx: px, qy: py, qz: pz, pending: 0, has_pending: false, acc: 0, has_acc: false }
}

/// One pass of the machine from position `i`: the scene distance the
/// stream denotes from that point on.  `Stop` — or running off either
/// end of the stream — returns the running distance, or the miss
/// sentinel when no entity was folded in; every other word advances
/// by one opcode and its operands.
pub open spec fn eval_from(s: Seq<i64>, px: int, py: int, pz: int, i: int, st: EvalState) -> int
    decreases (if i < s.len() { s.len() - i } else { 0 }),
{
    let w = word_at(s, i);
    if w == OP_STOP {
        if st.has_acc {
            st.acc
        } else {
            MISS_DISTANCE as int
        }
    } else if w == OP_NEW_ENTITY {
        eval_from(
            s,
            px,
            py,
            pz,
            i + 1,
            EvalState {
                qx: px,
                qy: py,
                qz: pz,
                pending: st.pending,
                has_pending: false,
                acc: st.acc,
                has_acc: st.has_acc,
            },
        )
    } else if w == OP_SPHERE {
        let r = operand_at(s, i + 1);
        eval_from(
            s,
            px,
            py,
            pz,
            i + 2,
            EvalState {
                qx: st.qx,
                qy: st.qy,
                qz: st.qz,
                pending: sphere_dist(st.qx, st.qy, st.qz, r),
                has_pending: true,
                acc: st.acc,
                has_acc: st.has_acc,
            },
        )
    } else if w == OP_BOX {
        let hx = operand_at(s, i + 1);
        let hy = operand_at(s, i + 2);
        let hz = operand_at(s, i + 3);
        eval_from(
            s,
            px,
            py,
            pz,
            i + 4,
            EvalState {
                qx: st.qx,
                qy: st.qy,
                qz: st.qz,
                pending: cuboid_dist(st.qx, st.qy, st.qz, hx, hy, hz),
                has_pending: true,
                acc: st.acc,
                has_acc: st.has_acc,
            },
        )
    } else if w == OP_TRANSLATE {
        let tx = operand_at(s, i + 1);
        let ty = operand_at(s, i + 2);
        let tz = operand_at(s, i + 3);
        eval_from(
            s,
            px,
            py,
            pz,
            i + 4,
            EvalState {
                qx: fx_clip(st.qx - tx),
                qy: fx_clip(st.qy - ty),
                qz: fx_clip(st.qz - tz),
                pending: st.pending,
                has_pending: st.has_pending,
                acc: st.acc,
                has_acc: st.has_acc,
            },
        )
    } else if w == OP_ROTATE {
        let ax = operand_at(s, i + 1);
        let ay = operand_at(s, i + 2);
        let az = operand_at(s, i + 3);
        let q = apply_rotate(st.qx, st.qy, st.qz, ax, ay, az);
        eval_from(
            s,
            px,
            py,
            pz,
            i + 4,
            EvalState {
                qx: q.0,
                qy: q.1,
                qz: q.2,
                pending: st.pending,
                has_pending: st.has_pending,
                acc: st.acc,
                has_acc: st.has_acc,
            },
        )
    } else if w == OP_UNION || w == OP_DIFFERENCE || w == OP_INTERSECT {
        let d = if st.has_pending {
            st.pending
        } else {
            MISS_DISTANCE as int
        };
        let folded = if !st.has_acc {
            d
        } else if w == OP_UNION {
            min_i(st.acc, d)
        } else if w == OP_DIFFERENCE {
            max_i(st.acc, -d)
        } else {
            max_i(st.acc, d)
        };
        eval_from(
            s,
            px,
            py,
            pz,
            i + 1,
            EvalState {
                qx: st.qx,
                qy: st.qy,
                qz: st.qz,
                pending: st.pending,
                has_pending: false,
                acc: folded,
                has_acc: true,
            },
        )
    } else {
        // An unknown word where an opcode was expected: skip it and
        // degrade, rather than fail, as the evaluation substrate has
        // no error channel.
        eval_from(s, px, py, pz, i + 1, st)
    }
}

/// The scene distance a stream denotes at a sample point: the machine
/// run from the start, with the point pulled into the fixed-point
/// band.
pub open spec fn spec_evaluate(s: Seq<i64>, px: int, py: int, pz: int) -> int {
    let cx = fx_clip(px);
    let cy = fx_clip(py);
    let cz = fx_clip(pz);
    eval_from(s, cx, cy, cz, 0, init_state(cx, cy, cz))
}

/// All machine registers lie in the fixed-point band.
pub open spec fn state_in_band(st: EvalState) -> bool {
    fx_in_range(st.qx) && fx_in_range(st.qy) && fx_in_range(st.qz) && fx_in_range(st.pending)
        && fx_in_range(st.acc)
}

/// Read one operand word, substituting zero past the end.
fn operand(stream: &Vec<i64>, idx: usize) -> (r: i64)
    ensures
        r == operand_at(stream@, idx as int),
        fx_in_range(r as int),
{
    if idx < stream.len() {
        fx_clamp(stream[idx])
    } else {
        0
    }
}

/// Rotate the pair `(u, v)` by the inverse of the angle `a`.
fn rot2_inv(u: i64, v: i64, a: i64) -> (r: (i64, i64))
    requires
        fx_in_range(u as int),
        fx_in_range(v as int),
    ensures
        r.0 == rot2_inv_u(u as int, v as int, a as int),
        r.1 == rot2_inv_v(u as int, v as int, a as int),
        fx_in_range(r.0 as int),
        fx_in_range(r.1 as int),
{
    let c: i64 = fx_cos(a);
    let n: i64 = fx_sin(a);
    let r0: i64 = fx_add(fx_mul(u, c), fx_mul(v, n));
    let r1: i64 = fx_sub(fx_mul(v, c), fx_mul(u, n));
    (r0, r1)
}

/// Replay the stream at `p` and return the signed scene distance.
///
/// This is total on arbitrary streams: operands past a truncation
/// read as zero, unknown opcodes are skipped, and a missing `Stop`
/// ends the pass at the stream end — always returning exactly the
/// machine's value, which stays within the fixed-point band.
#[verifier::rlimit(100)]
pub fn evaluate(stream: &Vec<i64>, p: Vec3) -> (d: i64)
    requires
        stream@.len() <= usize::MAX - 4,
    ensures
        d == spec_evaluate(stream@, p.x as int, p.y as int, p.z as int),
        fx_in_range(d as int),
{
    let px: i64 = fx_clamp(p.x);
    let py: i64 = fx_clamp(p.y);
    let pz: i64 = fx_clamp(p.z);
    let mut qx: i64 = px;
    let mut qy: i64 = py;
    let mut qz: i64 = pz;
    let mut pending: i64 = 0;
    let mut has_pending: bool = false;
    let mut acc: i64 = 0;
    let mut has_acc: bool = false;
    let mut i: usize = 0;
    let ghost target = spec_evaluate(stream@, p.x as int, p.y as int, p.z as int);
    while i < stream.len()
        invariant
            stream@.len() <= usize::MAX - 4,
            target == spec_evaluate(stream@, p.x as int, p.y as int, p.z as int),
            i <= stream@.len() + 3,
            fx_in_range(px as int) && fx_in_range(py as int) && fx_in_range(pz as int),
            fx_in_range(qx as int) && fx_in_range(qy as int) && fx_in_range(qz as int),
            fx_in_range(pending as int) && fx_in_range(acc as int),
            target == eval_from(
                stream@,
                px as int,
                py as int,
                pz as int,
                i as int,
                EvalState {
                    qx: qx as int,
                    qy: qy as int,
                    qz: qz as int,
                    pending: pending as int,
                    has_pending: has_pending,
                    acc: acc as int,
                    has_acc: has_acc,
                },
            ),
        decreases (if i < stream@.len() { stream@.len() - i } else { 0 }),
    {
        let w: i64 = stream[i];
        if w == OP_STOP {
            return if has_acc {
                acc
            } else {
                MISS_DISTANCE
            };
        } else if w == OP_NEW_ENTITY {
            qx = px;
            qy = py;
            qz = pz;
            has_pending = false;
            i = i + 1;
        } else if w == OP_SPHERE {
            let r: i64 = operand(stream, i + 1);
            pending = fx_sub(fx_len(qx, qy, qz), r);
            has_pending = true;
            i = i + 2;
        } else if w == OP_BOX {
            let hx: i64 = operand(stream, i + 1);
            let hy: i64 = operand(stream, i + 2);
            let hz: i64 = operand(stream, i + 3);
            let dx: i64 = fx_sub(fx_abs(qx), hx);
            let dy: i64 = fx_sub(fx_abs(qy), hy);
            let dz: i64 = fx_sub(fx_abs(qz), hz);
            let outside: i64 = fx_len(fx_max(dx, 0), fx_max(dy, 0), fx_max(dz, 0));
            let inside: i64 = fx_min(fx_max(dx, fx_max(dy, dz)), 0);
            pending = fx_add(outside, inside);
            has_pending = true;
            i = i + 4;
        } else if w == OP_TRANSLATE {
            let tx: i64 = operand(stream, i + 1);
            let ty: i64 = operand(stream, i + 2);
            let tz: i64 = operand(stream, i + 3);
            qx = fx_sub(qx, tx);
            qy = fx_sub(qy, ty);
            qz = fx_sub(qz, tz);
            i = i + 4;
        } else if w == OP_ROTATE {
            let ax: i64 = operand(stream, i + 1);
            let ay: i64 = operand(stream, i + 2);
            let az: i64 = operand(stream, i + 3);
            let ry = rot2_inv(qy, qz, ax);
            let y1: i64 = ry.0;
            let z1: i64 = ry.1;
            let rz = rot2_inv(z1, qx, ay);
            let z2: i64 = rz.0;
            let x2: i64 = rz.1;
            let rx = rot2_inv(x2, y1, az);
            qx = rx.0;
            qy = rx.1;
            qz = z2;
            i = i + 4;
        } else if w == OP_UNION || w == OP_DIFFERENCE || w == OP_INTERSECT {
            let d: i64 = if has_pending {
                pending
            } else {
                MISS_DISTANCE
            };
            acc = if !has_acc {
                d
            } else if w == OP_UNION {
                fx_min(acc, d)
            } else if w == OP_DIFFERENCE {
                fx_max(acc, -d)
            } else {
                fx_max(acc, d)
            };
            has_pending = false;
            has_acc = true;
            i = i + 1;
        } else {
            i = i + 1;
        }
    }
    if has_acc {
        acc
    } else {
        MISS_DISTANCE
    }
}

/// A run of zero words.
pub open spec fn zero_words(k: nat) -> Seq<i64> {
    Seq::new(k, |j: int| 0i64)
}

/// Two streams that read the same word at every position evaluate
/// alike, from any position and state.
proof fn lemma_eval_from_same_words(
    s1: Seq<i64>,
    s2: Seq<i64>,
    px: int,
    py: int,
    pz: int,
    i: int,
    st: EvalState,
)
    requires
        forall|j: int| word_at(s1, j) == word_at(s2, j),
    ensures
        eval_from(s1, px, py, pz, i, st) == eval_from(s2, px, py, pz, i, st),
    decreases (if i < s1.len() { s1.len() - i } else { 0 }) + (if i < s2.len() {
        s2.len() - i
    } else {
        0
    }),
{
    let w = word_at(s1, i);
    assert(word_at(s2, i) == w);
    if w == OP_STOP {
    } else if w == OP_NEW_ENTITY {
        lemma_eval_from_same_words(
            s1,
            s2,
            px,
            py,
            pz,
            i + 1,
            EvalState {
                qx: px,
                qy: py,
                qz: pz,
                pending: st.pending,
                has_pending: false,
                acc: st.acc,
                has_acc: st.has_acc,
            },
        );
    } else if w == OP_SPHERE {
        assert(operand_at(s1, i + 1) == operand_at(s2, i + 1));
        let r = operand_at(s1, i + 1);
        lemma_eval_from_same_words(
            s1,
            s2,
            px,
            py,
            pz,
            i + 2,
            EvalState {
                qx: st.qx,
                qy: st.qy,
                qz: st.qz,
                pending: sphere_dist(st.qx, st.qy, st.qz, r),
                has_pending: true,
                acc: st.acc,
                has_acc: st.has_acc,
            },
        );
    } else if w == OP_BOX {
        assert(operand_at(s1, i + 1) == operand_at(s2, i + 1));
        assert(operand_at(s1, i + 2) == operand_at(s2, i + 2));
        assert(operand_at(s1, i + 3) == operand_at(s2, i + 3));
        let hx = operand_at(s1, i + 1);
        let hy = operand_at(s1, i + 2);
        let hz = operand_at(s1, i + 3);
        lemma_eval_from_same_words(
            s1,
            s2,
            px,
            py,
            pz,
            i + 4,
            EvalState {
                qx: st.qx,
                qy: st.qy,
                qz: st.qz,
                pending: cuboid_dist(st.qx, st.qy, st.qz, hx, hy, hz),
                has_pending: true,
                acc: st.acc,
                has_acc: st.has_acc,
            },
        );
    } else if w == OP_TRANSLATE {
        assert(operand_at(s1, i + 1) == operand_at(s2, i + 1));
        assert(operand_at(s1, i + 2) == operand_at(s2, i + 2));
        assert(operand_at(s1, i + 3) == operand_at(s2, i + 3));
        let tx = operand_at(s1, i + 1);
        let ty = operand_at(s1, i + 2);
        let tz = operand_at(s1, i + 3);
        lemma_eval_from_same_words(
            s1,
            s2,
            px,
            py,
            pz,
            i + 4,
            EvalState {
                qx: fx_clip(st.qx - tx),
                qy: fx_clip(st.qy - ty),
                qz: fx_clip(st.qz - tz),
                pending: st.pending,
                has_pending: st.has_pending,
                acc: st.acc,
                has_acc: st.has_acc,
            },
        );
    } else if w == OP_ROTATE {
        assert(operand_at(s1, i + 1) == operand_at(s2, i + 1));
        assert(operand_at(s1, i + 2) == operand_at(s2, i + 2));
        assert(operand_at(s1, i + 3) == operand_at(s2, i + 3));
        let ax = operand_at(s1, i + 1);
        let ay = operand_at(s1, i + 2);
        let az = operand_at(s1, i + 3);
        let q = apply_rotate(st.qx, st.qy, st.qz, ax, ay, az);
        lemma_eval_from_same_words(
            s1,
            s2,
            px,
            py,
            pz,
            i + 4,
            EvalState {
                qx: q.0,
                qy: q.1,
                qz: q.2,
                pending: st.pending,
                has_pending: st.has_pending,
                acc: st.acc,
                has_acc: st.has_acc,
            },
        );
    } else if w == OP_UNION || w == OP_DIFFERENCE || w == OP_INTERSECT {
        let d = if st.has_pending {
            st.pending
        } else {
            MISS_DISTANCE as int
        };
        let folded = if !st.has_acc {
            d
        } else if w == OP_UNION {
            min_i(st.acc, d)
        } else if w == OP_DIFFERENCE {
            max_i(st.acc, -d)
        } else {
            max_i(st.acc, d)
        };
        lemma_eval_from_same_words(
            s1,
            s2,
            px,
            py,
            pz,
            i + 1,
            EvalState {
                qx: st.qx,
                qy: st.qy,
                qz: st.qz,
                pending: st.pending,
                has_pending: false,
                acc: folded,
                has_acc: true,
            },
        );
    } else {
        lemma_eval_from_same_words(s1, s2, px, py, pz, i + 1, st);
    }
}

/// Truncation resilience: a stream cut off mid-operand evaluates
/// exactly as if the missing words were zero.  Reads past the end
/// already substitute zero, so appending any run of zero words never
/// changes the scene distance.
pub proof fn lemma_zero_padding(s: Seq<i64>, k: nat, px: int, py: int, pz: int)
    ensures
        spec_evaluate(s + zero_words(k), px, py, pz) == spec_evaluate(s, px, py, pz),
{
    let padded = s + zero_words(k);
    assert forall|j: int| word_at(padded, j) == word_at(s, j) by {
        if 0 <= j < s.len() {
            assert(padded[j] == s[j]);
        } else if s.len() <= j < padded.len() {
            assert(padded[j] == 0i64);
        }
    }
    lemma_eval_from_same_words(
        padded,
        s,
        fx_clip(px),
        fx_clip(py),
        fx_clip(pz),
        0,
        init_state(fx_clip(px), fx_clip(py), fx_clip(pz)),
    );
}

/// From an in-band state the machine's answer is always in band: the
/// evaluator returns a finite, representable distance on every
/// stream.
proof fn lemma_eval_from_in_band(s: Seq<i64>, px: int, py: int, pz: int, i: int, st: EvalState)
    requires
        fx_in_range(px) && fx_in_range(py) && fx_in_range(pz),
        state_in_band(st),
    ensures
        fx_in_range(eval_from(s, px, py, pz, i, st)),
    decreases (if i < s.len() { s.len() - i } else { 0 }),
{
    let w = word_at(s, i);
    if w == OP_STOP {
    } else if w == OP_NEW_ENTITY {
        lemma_eval_from_in_band(
            s,
            px,
            py,
            pz,
            i + 1,
            EvalState {
                qx: px,
                qy: py,
                qz: pz,
                pending: st.pending,
                has_pending: false,
                acc: st.acc,
                has_acc: st.has_acc,
            },
        );
    } else if w == OP_SPHERE {
        let r = operand_at(s, i + 1);
        lemma_eval_from_in_band(
            s,
            px,
            py,
            pz,
            i + 2,
            EvalState {
                qx: st.qx,
                qy: st.qy,
                qz: st.qz,
                pending: sphere_dist(st.qx, st.qy, st.qz, r),
                has_pending: true,
                acc: st.acc,
                has_acc: st.has_acc,
            },
        );
    } else if w == OP_BOX {
        let hx = operand_at(s, i + 1);
        let hy = operand_at(s, i + 2);
        let hz = operand_at(s, i + 3);
        lemma_eval_from_in_band(
            s,
            px,
            py,
            pz,
            i + 4,
            EvalState {
                qx: st.qx,
                qy: st.qy,
                qz: st.qz,
                pending: cuboid_dist(st.qx, st.qy, st.qz, hx, hy, hz),
                has_pending: true,
                acc: st.acc,
                has_acc: st.has_acc,
            },
        );
    } else if w == OP_TRANSLATE {
        let tx = operand_at(s, i + 1);
        let ty = operand_at(s, i + 2);
        let tz = operand_at(s, i + 3);
        lemma_eval_from_in_band(
            s,
            px,
            py,
            pz,
            i + 4,
            EvalState {
                qx: fx_clip(st.qx - tx),
                qy: fx_clip(st.qy - ty),
                qz: fx_clip(st.qz - tz),
                pending: st.pending,
                has_pending: st.has_pending,
                acc: st.acc,
                has_acc: st.has_acc,
            },
        );
    } else if w == OP_ROTATE {
        let ax = operand_at(s, i + 1);
        let ay = operand_at(s, i + 2);
        let az = operand_at(s, i + 3);
        let q = apply_rotate(st.qx, st.qy, st.qz, ax, ay, az);
        lemma_eval_from_in_band(
            s,
            px,
            py,
            pz,
            i + 4,
            EvalState {
                qx: q.0,
                qy: q.1,
                qz: q.2,
                pending: st.pending,
                has_pending: st.has_pending,
                acc: st.acc,
                has_acc: st.has_acc,
            },
        );
    } else if w == OP_UNION || w == OP_DIFFERENCE || w == OP_INTERSECT {
        let d = if st.has_pending {
            st.pending
        } else {
            MISS_DISTANCE as int
        };
        let folded = if !st.has_acc {
            d
        } else if w == OP_UNION {
            min_i(st.acc, d)
        } else if w == OP_DIFFERENCE {
            max_i(st.acc, -d)
        } else {
            max_i(st.acc, d)
        };
        lemma_eval_from_in_band(
            s,
            px,
            py,
            pz,
            i + 1,
            EvalState {
                qx: st.qx,
                qy: st.qy,
                qz: st.qz,
                pending: st.pending,
                has_pending: false,
                acc: folded,
                has_acc: true,
            },
        );
    } else {
        lemma_eval_from_in_band(s, px, py, pz, i + 1, st);
    }
}

/// The scene distance is always finite and representable, for every
/// stream — malformed ones included — and every sample point.
pub proof fn lemma_evaluate_bounded(s: Seq<i64>, px: int, py: int, pz: int)
    ensures
        fx_in_range(spec_evaluate(s, px, py, pz)),
{
    lemma_eval_from_in_band(
        s,
        fx_clip(px),
        fx_clip(py),
        fx_clip(pz),
        0,
        init_state(fx_clip(px), fx_clip(py), fx_clip(pz)),
    );
}

/// The empty scene encodes to the bare `Stop` word, and that stream
/// reports the miss sentinel at every sample point.
pub proof fn lemma_empty_scene_misses(px: int, py: int, pz: int)
    ensures
        spec_encode(Seq::empty()) == seq![OP_STOP],
        spec_evaluate(seq![OP_STOP], px, py, pz) == MISS_DISTANCE,
{
    assert(spec_encode(Seq::empty()) =~= seq![OP_STOP]);
    assert(word_at(seq![OP_STOP], 0) == 0);
}

} // verus!
