//! The wire format: a scene linearized into a flat stream of words.
//!
//! Each word is either an opcode or an operand of the opcode just
//! before it.  Opcode words carry the opcode's numeric value; operand
//! words carry 16.16 fixed-point quantities.  The numeric opcode
//! values and the operand counts are the binding contract between the
//! encoder and every consumer of the stream, and must never drift.

use vstd::prelude::*;
use crate::scene::Combinator;
use crate::scene::Entity;
use crate::scene::EntityModel;
use crate::scene::EncodingError;
use crate::scene::Primitive;
use crate::scene::TransformOp;
use crate::scene::Vec3;
use crate::scene::primitive_valid;
use crate::scene::scene_valid;
use crate::scene::scene_view;

verus! {

/// Terminates the stream.  No operands.
pub const OP_STOP: i64 = 0;

/// Opens an entity and resets its transform.  No operands.
pub const OP_NEW_ENTITY: i64 = 1;

/// Sphere primitive.  One operand: the radius.
pub const OP_SPHERE: i64 = 100;

/// Box primitive.  Three operands: the half extents.
pub const OP_BOX: i64 = 101;

/// Translation step.  Three operands: the offset.
pub const OP_TRANSLATE: i64 = 200;

/// Rotation step.  Three operands: the per-axis angles.
pub const OP_ROTATE: i64 = 201;

/// Fold the entity in by minimum.  No operands.
pub const OP_UNION: i64 = 300;

/// Carve the entity out of the running scene.  No operands.
pub const OP_DIFFERENCE: i64 = 301;

/// Keep only the overlap with the running scene.  No operands.
pub const OP_INTERSECT: i64 = 302;

/// The opcode word that closes an entity.
pub open spec fn combinator_word(c: Combinator) -> i64 {
    match c {
        Combinator::Union => OP_UNION,
        Combinator::Difference => OP_DIFFERENCE,
        Combinator::Intersect => OP_INTERSECT,
    }
}

/// The words of one primitive: its opcode, then its operands.
pub open spec fn primitive_words(p: Primitive) -> Seq<i64> {
    match p {
        Primitive::Sphere { radius } => seq![OP_SPHERE, radius],
        Primitive::Cuboid { half_extents } => seq![
            OP_BOX,
            half_extents.x,
            half_extents.y,
            half_extents.z,
        ],
    }
}

/// The words of one transform step: its opcode, then its operands.
pub open spec fn transform_words(t: TransformOp) -> Seq<i64> {
    match t {
        TransformOp::Translate { offset } => seq![OP_TRANSLATE, offset.x, offset.y, offset.z],
        TransformOp::Rotate { angles } => seq![OP_ROTATE, angles.x, angles.y, angles.z],
    }
}

/// The words of a transform list, in list order.
pub open spec fn transforms_words(ts: Seq<TransformOp>) -> Seq<i64>
    decreases ts.len(),
{
    if ts.len() == 0 {
        Seq::empty()
    } else {
        transform_words(ts[0]) + transforms_words(ts.drop_first())
    }
}

/// The words of one entity: `NewEntity`, the transforms in order, the
/// primitive, and the closing combinator.
pub open spec fn entity_words(e: EntityModel) -> Seq<i64> {
    seq![OP_NEW_ENTITY] + transforms_words(e.transforms) + primitive_words(e.primitive) + seq![
        combinator_word(e.combinator),
    ]
}

/// The words of a whole scene, entity after entity, without the
/// trailing `Stop`.
pub open spec fn scene_words(s: Seq<EntityModel>) -> Seq<i64>
    decreases s.len(),
{
    if s.len() == 0 {
        Seq::empty()
    } else {
        entity_words(s[0]) + scene_words(s.drop_first())
    }
}

/// The full encoding of a scene: its entities' words and one `Stop`.
pub open spec fn spec_encode(s: Seq<EntityModel>) -> Seq<i64> {
    scene_words(s) + seq![OP_STOP]
}

/// Peeling the last transform off the word list.
proof fn lemma_transforms_words_snoc(ts: Seq<TransformOp>)
    requires
        ts.len() > 0,
    ensures
        transforms_words(ts) == transforms_words(ts.drop_last()) + transform_words(ts.last()),
    decreases ts.len(),
{
    reveal_with_fuel(transforms_words, 3);
    if ts.len() == 1 {
        assert(ts.drop_first() =~= Seq::<TransformOp>::empty());
        assert(ts.drop_last() =~= Seq::empty());
        assert(transforms_words(ts) =~= transform_words(ts[0]));
        assert(transforms_words(ts.drop_last()) + transform_words(ts.last()) =~= transform_words(
            ts[0],
        ));
    } else {
        let rest = ts.drop_first();
        lemma_transforms_words_snoc(rest);
        assert(rest.drop_last() =~= ts.drop_last().drop_first());
        assert(rest.last() == ts.last());
        assert(transforms_words(ts) =~= transform_words(ts[0]) + (transforms_words(rest.drop_last())
            + transform_words(rest.last())));
        assert(ts.drop_last()[0] == ts[0]);
        assert(transforms_words(ts.drop_last()) =~= transform_words(ts[0]) + transforms_words(
            ts.drop_last().drop_first(),
        ));
        assert(transforms_words(ts) =~= transforms_words(ts.drop_last()) + transform_words(
            ts.last(),
        ));
    }
}

/// Peeling the last entity off the word list.
proof fn lemma_scene_words_snoc(s: Seq<EntityModel>)
    requires
        s.len() > 0,
    ensures
        scene_words(s) == scene_words(s.drop_last()) + entity_words(s.last()),
    decreases s.len(),
{
    reveal_with_fuel(scene_words, 3);
    if s.len() == 1 {
        assert(s.drop_first() =~= Seq::<EntityModel>::empty());
        assert(s.drop_last() =~= Seq::empty());
        assert(scene_words(s) =~= entity_words(s[0]));
        assert(scene_words(s.drop_last()) + entity_words(s.last()) =~= entity_words(s[0]));
    } else {
        let rest = s.drop_first();
        lemma_scene_words_snoc(rest);
        assert(rest.drop_last() =~= s.drop_last().drop_first());
        assert(rest.last() == s.last());
        assert(scene_words(s) =~= entity_words(s[0]) + (scene_words(rest.drop_last())
            + entity_words(rest.last())));
        assert(s.drop_last()[0] == s[0]);
        assert(scene_words(s.drop_last()) =~= entity_words(s[0]) + scene_words(
            s.drop_last().drop_first(),
        ));
        assert(scene_words(s) =~= scene_words(s.drop_last()) + entity_words(s.last()));
    }
}

/// Append one transform step's words to the output.
fn push_transform(out: &mut Vec<i64>, t: &TransformOp)
    ensures
        final(out)@ == old(out)@ + transform_words(*t),
{
    match t {
        TransformOp::Translate { offset } => {
            out.push(OP_TRANSLATE);
            out.push(offset.x);
            out.push(offset.y);
            out.push(offset.z);
        },
        TransformOp::Rotate { angles } => {
            out.push(OP_ROTATE);
            out.push(angles.x);
            out.push(angles.y);
            out.push(angles.z);
        },
    }
    assert(out@ =~= old(out)@ + transform_words(*t));
}

/// Walk the scene in order and emit the instruction stream: for each
/// entity `NewEntity`, its transforms, its primitive, its combinator;
/// then one `Stop`.  An empty scene is legal and encodes to the bare
/// `Stop` word.  A primitive with a negative radius or half extent is
/// the one malformed input, and is refused.
#[verifier::rlimit(60)]
pub fn encode(scene: &Vec<Entity>) -> (r: Result<Vec<i64>, EncodingError>)
    ensures
        r is Ok <==> scene_valid(scene_view(scene@)),
        r matches Ok(w) ==> w@ == spec_encode(scene_view(scene@)),
        r matches Err(e) ==> e == EncodingError::InvalidPrimitive,
{
    let ghost model = scene_view(scene@);
    let mut out: Vec<i64> = Vec::new();
    let mut i: usize = 0;
    while i < scene.len()
        invariant
            0 <= i <= scene.len(),
            model == scene_view(scene@),
            model.len() == scene@.len(),
            out@ == scene_words(model.take(i as int)),
            forall|j: int| 0 <= j < i ==> primitive_valid(#[trigger] model[j].primitive),
        decreases scene.len() - i,
    {
        let entity = &scene[i];
        let ghost em = model[i as int];
        assert(em == entity@);
        out.push(OP_NEW_ENTITY);
        let mut k: usize = 0;
        while k < entity.transforms.len()
            invariant
                0 <= k <= entity.transforms.len(),
                em == entity@,
                out@ == scene_words(model.take(i as int)) + seq![OP_NEW_ENTITY]
                    + transforms_words(em.transforms.take(k as int)),
            decreases entity.transforms.len() - k,
        {
            let t = &entity.transforms[k];
            push_transform(&mut out, t);
            proof {
                let taken = em.transforms.take(k + 1int);
                lemma_transforms_words_snoc(taken);
                assert(taken.drop_last() =~= em.transforms.take(k as int));
                assert(taken.last() == em.transforms[k as int]);
                assert(out@ =~= scene_words(model.take(i as int)) + seq![OP_NEW_ENTITY]
                    + transforms_words(taken));
            }
            k = k + 1;
        }
        assert(em.transforms.take(k as int) =~= em.transforms);
        match &entity.primitive {
            Primitive::Sphere { radius } => {
                if *radius < 0 {
                    assert(!primitive_valid(em.primitive));
                    return Err(EncodingError::InvalidPrimitive);
                }
                out.push(OP_SPHERE);
                out.push(*radius);
            },
            Primitive::Cuboid { half_extents } => {
                if half_extents.x < 0 || half_extents.y < 0 || half_extents.z < 0 {
                    assert(!primitive_valid(em.primitive));
                    return Err(EncodingError::InvalidPrimitive);
                }
                out.push(OP_BOX);
                out.push(half_extents.x);
                out.push(half_extents.y);
                out.push(half_extents.z);
            },
        }
        match &entity.combinator {
            Combinator::Union => out.push(OP_UNION),
            Combinator::Difference => out.push(OP_DIFFERENCE),
            Combinator::Intersect => out.push(OP_INTERSECT),
        }
        proof {
            let taken = model.take(i + 1int);
            lemma_scene_words_snoc(taken);
            assert(taken.drop_last() =~= model.take(i as int));
            assert(taken.last() == em);
            assert(out@ =~= scene_words(model.take(i as int)) + entity_words(em));
            assert(out@ =~= scene_words(taken));
        }
        i = i + 1;
    }
    assert(model.take(i as int) =~= model);
    out.push(OP_STOP);
    assert(out@ =~= spec_encode(model));
    Ok(out)
}

/// A partially decoded entity: transforms seen so far, and the
/// primitive once it has appeared.
pub struct PartialEntity {
    pub transforms: Seq<TransformOp>,
    pub primitive: Option<Primitive>,
}

/// The decoder's registers: finished entities, and the entity open
/// since the last `NewEntity`, if any.
pub struct DecodeState {
    pub done: Seq<EntityModel>,
    pub cur: Option<PartialEntity>,
}

/// The strict parse of a stream from position `i`: `Some` exactly
/// when the remaining words are a well-formed encoding — every opcode
/// known and fully supplied with operands, transforms before the one
/// primitive of each entity, every entity closed by a combinator, and
/// a single `Stop` as the very last word.
pub open spec fn decode_from(s: Seq<i64>, i: int, st: DecodeState) -> Option<Seq<EntityModel>>
    decreases (if i < s.len() { s.len() - i } else { 0 }),
{
    if !(0 <= i < s.len()) {
        None
    } else {
        let w = s[i];
        if w == OP_STOP {
            if i == s.len() - 1 && st.cur is None {
                Some(st.done)
            } else {
                None
            }
        } else if w == OP_NEW_ENTITY {
            if st.cur is None {
                decode_from(
                    s,
                    i + 1,
                    DecodeState {
                        done: st.done,
                        cur: Some(PartialEntity { transforms: Seq::empty(), primitive: None }),
                    },
                )
            } else {
                None
            }
        } else if w == OP_SPHERE {
            if i + 1 < s.len() && (st.cur matches Some(pe) && pe.primitive is None) {
                let pe = st.cur->0;
                decode_from(
                    s,
                    i + 2,
                    DecodeState {
                        done: st.done,
                        cur: Some(
                            PartialEntity {
                                transforms: pe.transforms,
                                primitive: Some(Primitive::Sphere { radius: s[i + 1] }),
                            },
                        ),
                    },
                )
            } else {
                None
            }
        } else if w == OP_BOX {
            if i + 3 < s.len() && (st.cur matches Some(pe) && pe.primitive is None) {
                let pe = st.cur->0;
                decode_from(
                    s,
                    i + 4,
                    DecodeState {
                        done: st.done,
                        cur: Some(
                            PartialEntity {
                                transforms: pe.transforms,
                                primitive: Some(
                                    Primitive::Cuboid {
                                        half_extents: Vec3 {
                                            x: s[i + 1],
                                            y: s[i + 2],
                                            z: s[i + 3],
                                        },
                                    },
                                ),
                            },
                        ),
                    },
                )
            } else {
                None
            }
        } else if w == OP_TRANSLATE || w == OP_ROTATE {
            if i + 3 < s.len() && (st.cur matches Some(pe) && pe.primitive is None) {
                let pe = st.cur->0;
                let v = Vec3 { x: s[i + 1], y: s[i + 2], z: s[i + 3] };
                let t = if w == OP_TRANSLATE {
                    TransformOp::Translate { offset: v }
                } else {
                    TransformOp::Rotate { angles: v }
                };
                decode_from(
                    s,
                    i + 4,
                    DecodeState {
                        done: st.done,
                        cur: Some(
                            PartialEntity { transforms: pe.transforms.push(t), primitive: None },
                        ),
                    },
                )
            } else {
                None
            }
        } else if w == OP_UNION || w == OP_DIFFERENCE || w == OP_INTERSECT {
            if st.cur matches Some(pe) && pe.primitive is Some {
                let pe = st.cur->0;
                let c = if w == OP_UNION {
                    Combinator::Union
                } else if w == OP_DIFFERENCE {
                    Combinator::Difference
                } else {
                    Combinator::Intersect
                };
                decode_from(
                    s,
                    i + 1,
                    DecodeState {
                        done: st.done.push(
                            EntityModel {
                                transforms: pe.transforms,
                                primitive: pe.primitive->0,
                                combinator: c,
                            },
                        ),
                        cur: None,
                    },
                )
            } else {
                None
            }
        } else {
            None
        }
    }
}

/// The strict parse of a whole stream: the mirror of `encode`.
pub open spec fn spec_decode(s: Seq<i64>) -> Option<Seq<EntityModel>> {
    decode_from(s, 0, DecodeState { done: Seq::empty(), cur: None })
}

/// Slicing a known window of a stream.
proof fn lemma_subrange_slice(s: Seq<i64>, i: int, w: Seq<i64>, a: int, b: int)
    requires
        0 <= i,
        i + w.len() <= s.len(),
        s.subrange(i, i + w.len()) == w,
        0 <= a <= b <= w.len(),
    ensures
        s.subrange(i + a, i + b) == w.subrange(a, b),
{
    assert(s.subrange(i + a, i + b) =~= w.subrange(a, b)) by {
        assert forall|k: int| 0 <= k < b - a implies s.subrange(i + a, i + b)[k] == w.subrange(
            a,
            b,
        )[k] by {
            assert(s.subrange(i, i + w.len())[a + k] == w[a + k]);
        }
    }
}

/// Every transform step is one opcode and three operands.
proof fn lemma_transform_words_len(t: TransformOp)
    ensures
        transform_words(t).len() == 4,
{
    match t {
        TransformOp::Translate { offset } => {
            assert(transform_words(t).len() == 4);
        },
        TransformOp::Rotate { angles } => {
            assert(transform_words(t).len() == 4);
        },
    }
}

/// The decoder walks a run of transform words into the open entity.
proof fn lemma_decode_skip_transforms(
    s: Seq<i64>,
    i: int,
    done: Seq<EntityModel>,
    acc: Seq<TransformOp>,
    ts: Seq<TransformOp>,
)
    requires
        0 <= i,
        i + transforms_words(ts).len() < s.len(),
        s.subrange(i, i + transforms_words(ts).len()) == transforms_words(ts),
    ensures
        decode_from(
            s,
            i,
            DecodeState { done, cur: Some(PartialEntity { transforms: acc, primitive: None }) },
        ) == decode_from(
            s,
            i + transforms_words(ts).len(),
            DecodeState {
                done,
                cur: Some(PartialEntity { transforms: acc + ts, primitive: None }),
            },
        ),
    decreases ts.len(),
{
    reveal_with_fuel(transforms_words, 2);
    if ts.len() == 0 {
        assert(transforms_words(ts) =~= Seq::<i64>::empty());
        assert(acc + ts =~= acc);
    } else {
        let t = ts[0];
        let rest = ts.drop_first();
        lemma_transform_words_len(t);
        let tw = transforms_words(ts);
        let twr = transforms_words(rest);
        assert(tw == transform_words(t) + twr);
        assert(tw.len() == 4 + twr.len());
        assert(s[i] == tw[0]);
        assert(s[i + 1] == tw[1]);
        assert(s[i + 2] == tw[2]);
        assert(s[i + 3] == tw[3]);
        let v = Vec3 { x: s[i + 1], y: s[i + 2], z: s[i + 3] };
        match t {
            TransformOp::Translate { offset } => {
                assert(s[i] == OP_TRANSLATE);
                assert(v == offset);
            },
            TransformOp::Rotate { angles } => {
                assert(s[i] == OP_ROTATE);
                assert(v == angles);
            },
        }
        let st0 = DecodeState {
            done,
            cur: Some(PartialEntity { transforms: acc, primitive: None }),
        };
        let st1 = DecodeState {
            done,
            cur: Some(PartialEntity { transforms: acc.push(t), primitive: None }),
        };
        assert(decode_from(s, i, st0) == decode_from(s, i + 4, st1));
        lemma_subrange_slice(s, i, tw, 4, tw.len() as int);
        assert(tw.subrange(4, tw.len() as int) =~= twr);
        lemma_decode_skip_transforms(s, i + 4, done, acc.push(t), rest);
        assert(acc.push(t) + rest =~= acc + ts);
    }
}

/// The decoder recovers a scene from its own encoding, entity by
/// entity.
proof fn lemma_decode_scene(s: Seq<i64>, i: int, done: Seq<EntityModel>, es: Seq<EntityModel>)
    requires
        0 <= i,
        i + scene_words(es).len() + 1 == s.len(),
        s.subrange(i, s.len() as int) == scene_words(es) + seq![OP_STOP],
    ensures
        decode_from(s, i, DecodeState { done, cur: None }) == Some(done + es),
    decreases es.len(),
{
    reveal_with_fuel(scene_words, 2);
    let full = scene_words(es) + seq![OP_STOP];
    assert(full.len() == s.len() - i);
    if es.len() == 0 {
        assert(scene_words(es) =~= Seq::<i64>::empty());
        assert(s[i] == full[0]);
        assert(s[i] == OP_STOP);
        assert(i == s.len() - 1);
        assert(done + es =~= done);
    } else {
        let e = es[0];
        let rest = es.drop_first();
        let tw = transforms_words(e.transforms);
        let pw = primitive_words(e.primitive);
        let cw = combinator_word(e.combinator);
        let swr = scene_words(rest);
        assert(scene_words(es) == entity_words(e) + swr);
        let flat = seq![OP_NEW_ENTITY] + tw + pw + seq![cw] + swr + seq![OP_STOP];
        assert(full =~= flat);
        assert(pw.len() == 2 || pw.len() == 4) by {
            match e.primitive {
                Primitive::Sphere { radius } => {
                    assert(pw.len() == 2);
                },
                Primitive::Cuboid { half_extents } => {
                    assert(pw.len() == 4);
                },
            }
        }
        let o2 = 1 + tw.len() as int;
        let o3 = o2 + pw.len() as int;
        let o4 = o3 + 1;
        assert(full.len() == o4 + swr.len() + 1);
        // Open the entity.
        assert(s[i] == full[0]);
        assert(s[i] == OP_NEW_ENTITY);
        let st0 = DecodeState { done, cur: None };
        let st1 = DecodeState {
            done,
            cur: Some(PartialEntity { transforms: Seq::empty(), primitive: None }),
        };
        assert(decode_from(s, i, st0) == decode_from(s, i + 1, st1));
        // Walk the transforms.
        lemma_subrange_slice(s, i, full, 1, 1 + tw.len() as int);
        assert(full.subrange(1, 1 + tw.len() as int) =~= tw);
        lemma_decode_skip_transforms(s, i + 1, done, Seq::empty(), e.transforms);
        assert(Seq::<TransformOp>::empty() + e.transforms =~= e.transforms);
        let st2 = DecodeState {
            done,
            cur: Some(PartialEntity { transforms: e.transforms, primitive: None }),
        };
        assert(decode_from(s, i + 1, st1) == decode_from(s, i + o2, st2));
        // Read the primitive.
        let st3 = DecodeState {
            done,
            cur: Some(
                PartialEntity { transforms: e.transforms, primitive: Some(e.primitive) },
            ),
        };
        match e.primitive {
            Primitive::Sphere { radius } => {
                assert(s[i + o2] == full[o2]);
                assert(s[i + o2] == OP_SPHERE);
                assert(s[i + o2 + 1] == full[o2 + 1]);
                assert(s[i + o2 + 1] == radius);
                assert(decode_from(s, i + o2, st2) == decode_from(s, i + o3, st3));
            },
            Primitive::Cuboid { half_extents } => {
                assert(s[i + o2] == full[o2]);
                assert(s[i + o2] == OP_BOX);
                assert(s[i + o2 + 1] == full[o2 + 1]);
                assert(s[i + o2 + 2] == full[o2 + 2]);
                assert(s[i + o2 + 3] == full[o2 + 3]);
                assert(s[i + o2 + 1] == half_extents.x);
                assert(s[i + o2 + 2] == half_extents.y);
                assert(s[i + o2 + 3] == half_extents.z);
                let hv = Vec3 { x: s[i + o2 + 1], y: s[i + o2 + 2], z: s[i + o2 + 3] };
                assert(hv == half_extents);
                assert(decode_from(s, i + o2, st2) == decode_from(s, i + o3, st3));
            },
        }
        // Close the entity with its combinator.
        assert(s[i + o3] == full[o3]);
        assert(s[i + o3] == cw);
        let st4 = DecodeState { done: done.push(e), cur: None };
        match e.combinator {
            Combinator::Union => {
                assert(cw == OP_UNION);
            },
            Combinator::Difference => {
                assert(cw == OP_DIFFERENCE);
            },
            Combinator::Intersect => {
                assert(cw == OP_INTERSECT);
            },
        }
        assert(e == EntityModel {
            transforms: e.transforms,
            primitive: e.primitive,
            combinator: e.combinator,
        });
        assert(decode_from(s, i + o3, st3) == decode_from(s, i + o4, st4));
        // And the rest of the scene.
        lemma_subrange_slice(s, i, full, o4, full.len() as int);
        assert(full.subrange(o4, full.len() as int) =~= swr + seq![OP_STOP]);
        assert(s.subrange(i + o4, s.len() as int) == swr + seq![OP_STOP]);
        lemma_decode_scene(s, i + o4, done.push(e), rest);
        assert(done.push(e) + rest =~= done + es);
    }
}

/// How many words an entity occupies on the wire: `NewEntity`, four
/// words per transform, the primitive's opcode and operands, and the
/// closing combinator.
pub open spec fn entity_word_count(e: EntityModel) -> int {
    1 + 4 * e.transforms.len() as int + primitive_words(e.primitive).len() as int + 1
}

/// How many words a scene's entities occupy on the wire.
pub open spec fn scene_word_count(es: Seq<EntityModel>) -> int
    decreases es.len(),
{
    if es.len() == 0 {
        0
    } else {
        entity_word_count(es[0]) + scene_word_count(es.drop_first())
    }
}

/// A transform list occupies four words per step.
proof fn lemma_transforms_words_len(ts: Seq<TransformOp>)
    ensures
        transforms_words(ts).len() == 4 * ts.len(),
    decreases ts.len(),
{
    if ts.len() > 0 {
        lemma_transform_words_len(ts[0]);
        lemma_transforms_words_len(ts.drop_first());
    }
}

/// The round trip of the protocol.  Encoding any scene — well formed
/// or not — and strictly decoding the stream recovers exactly the
/// scene's entities, in order, and the stream's length is the sum of
/// the entities' word counts plus the one `Stop` word.
pub proof fn lemma_encode_decode_roundtrip(es: Seq<EntityModel>)
    ensures
        spec_decode(spec_encode(es)) == Some(es),
        spec_encode(es).len() == scene_word_count(es) + 1,
    decreases es.len(),
{
    let s = spec_encode(es);
    assert(s.subrange(0, s.len() as int) =~= scene_words(es) + seq![OP_STOP]);
    lemma_decode_scene(s, 0, Seq::empty(), es);
    assert(Seq::<EntityModel>::empty() + es =~= es);
    lemma_scene_words_count(es);
}

/// The wire length of a scene's entities matches the word count.
proof fn lemma_scene_words_count(es: Seq<EntityModel>)
    ensures
        scene_words(es).len() == scene_word_count(es),
    decreases es.len(),
{
    if es.len() > 0 {
        lemma_transforms_words_len(es[0].transforms);
        lemma_scene_words_count(es.drop_first());
    }
}

/// Strictly parse a stream back into entities: the exact mirror of
/// `encode`, and the reference consumer's parsing loop.  Returns
/// `Some` exactly on well-formed streams — every opcode known and
/// fully supplied with operands, transforms before the one primitive
/// of each entity, every entity closed by a combinator, and a single
/// `Stop` as the last word — and then recovers the entities, their
/// transforms and operands bit for bit, in order.
#[verifier::rlimit(100)]
pub fn decode(stream: &Vec<i64>) -> (r: Option<Vec<Entity>>)
    requires
        stream@.len() <= usize::MAX - 4,
    ensures
        r is Some <==> spec_decode(stream@) is Some,
        r matches Some(v) ==> spec_decode(stream@) == Some(scene_view(v@)),
{
    let mut done: Vec<Entity> = Vec::new();
    let mut has_cur: bool = false;
    let mut cur_ts: Vec<TransformOp> = Vec::new();
    let mut cur_prim: Option<Primitive> = None;
    let mut i: usize = 0;
    proof {
        assert(scene_view(done@) =~= Seq::<EntityModel>::empty());
    }
    while i < stream.len()
        invariant
            stream@.len() <= usize::MAX - 4,
            i <= stream@.len(),
            spec_decode(stream@) == decode_from(
                stream@,
                i as int,
                DecodeState {
                    done: scene_view(done@),
                    cur: if has_cur {
                        Some(PartialEntity { transforms: cur_ts@, primitive: cur_prim })
                    } else {
                        None
                    },
                },
            ),
        decreases stream@.len() - i,
    {
        let w: i64 = stream[i];
        if w == OP_STOP {
            if i == stream.len() - 1 && !has_cur {
                return Some(done);
            }
            return None;
        } else if w == OP_NEW_ENTITY {
            if has_cur {
                return None;
            }
            has_cur = true;
            cur_ts = Vec::new();
            cur_prim = None;
            i = i + 1;
        } else if w == OP_SPHERE {
            if !has_cur || cur_prim.is_some() || i + 1 >= stream.len() {
                return None;
            }
            cur_prim = Some(Primitive::Sphere { radius: stream[i + 1] });
            i = i + 2;
        } else if w == OP_BOX {
            if !has_cur || cur_prim.is_some() || i + 3 >= stream.len() {
                return None;
            }
            cur_prim = Some(
                Primitive::Cuboid {
                    half_extents: Vec3 { x: stream[i + 1], y: stream[i + 2], z: stream[i + 3] },
                },
            );
            i = i + 4;
        } else if w == OP_TRANSLATE || w == OP_ROTATE {
            if !has_cur || cur_prim.is_some() || i + 3 >= stream.len() {
                return None;
            }
            let v = Vec3 { x: stream[i + 1], y: stream[i + 2], z: stream[i + 3] };
            if w == OP_TRANSLATE {
                cur_ts.push(TransformOp::Translate { offset: v });
            } else {
                cur_ts.push(TransformOp::Rotate { angles: v });
            }
            i = i + 4;
        } else if w == OP_UNION || w == OP_DIFFERENCE || w == OP_INTERSECT {
            let prim = match cur_prim {
                Some(p) => p,
                None => {
                    return None;
                },
            };
            if !has_cur {
                return None;
            }
            let c = if w == OP_UNION {
                Combinator::Union
            } else if w == OP_DIFFERENCE {
                Combinator::Difference
            } else {
                Combinator::Intersect
            };
            let ts = cur_ts;
            cur_ts = Vec::new();
            let entity = Entity { transforms: ts, primitive: prim, combinator: c };
            let ghost old_done = done@;
            done.push(entity);
            proof {
                assert(scene_view(done@) =~= scene_view(old_done).push(entity@));
            }
            has_cur = false;
            cur_prim = None;
            i = i + 1;
        } else {
            return None;
        }
    }
    None
}

/// How many operand words follow an opcode: none for `Stop`,
/// `NewEntity` and the combinators, one for `Sphere`, three for the
/// box and the transforms — and nothing for a word that is no opcode.
pub open spec fn spec_opcode_arity(w: i64) -> Option<usize> {
    if w == OP_STOP || w == OP_NEW_ENTITY || w == OP_UNION || w == OP_DIFFERENCE || w
        == OP_INTERSECT {
        Some(0usize)
    } else if w == OP_SPHERE {
        Some(1usize)
    } else if w == OP_BOX || w == OP_TRANSLATE || w == OP_ROTATE {
        Some(3usize)
    } else {
        None
    }
}

/// The operand count of an opcode word, `None` for an unknown word.
pub fn opcode_arity(w: i64) -> (r: Option<usize>)
    ensures
        r == spec_opcode_arity(w),
{
    if w == OP_STOP || w == OP_NEW_ENTITY || w == OP_UNION || w == OP_DIFFERENCE || w
        == OP_INTERSECT {
        Some(0)
    } else if w == OP_SPHERE {
        Some(1)
    } else if w == OP_BOX || w == OP_TRANSLATE || w == OP_ROTATE {
        Some(3)
    } else {
        None
    }
}

/// What a successful parse from an open-entity state implies about
/// the remaining words: they spell the rest of that entity — its
/// outstanding transforms, its primitive, its combinator — and then
/// the remaining scene and the final `Stop`.
#[verifier::rlimit(100)]
proof fn lemma_decode_entity_sound(s: Seq<i64>, i: int, done: Seq<EntityModel>, acc: Seq<TransformOp>)
    requires
        0 <= i,
    ensures
        decode_from(
            s,
            i,
            DecodeState { done, cur: Some(PartialEntity { transforms: acc, primitive: None }) },
        ) matches Some(res) ==> {
            let k = done.len() as int;
            &&& res.len() > done.len()
            &&& res.subrange(0, k) == done
            &&& acc.len() <= res[k].transforms.len()
            &&& acc == res[k].transforms.take(acc.len() as int)
            &&& s.subrange(i, s.len() as int) == transforms_words(
                res[k].transforms.skip(acc.len() as int),
            ) + primitive_words(res[k].primitive) + seq![combinator_word(res[k].combinator)]
                + scene_words(res.skip(k + 1)) + seq![OP_STOP]
        },
    decreases (if i < s.len() { s.len() - i } else { 0 }),
{
    let st = DecodeState { done, cur: Some(PartialEntity { transforms: acc, primitive: None }) };
    if !(0 <= i < s.len()) {
        return ;
    }
    let w = s[i];
    let k = done.len() as int;
    if w == OP_SPHERE {
        if i + 1 < s.len() {
            let p = Primitive::Sphere { radius: s[i + 1] };
            lemma_decode_primitive_sound(s, i + 2, done, acc, p);
            let outcome = decode_from(s, i, st);
            if outcome is Some {
                let res = outcome->0;
                assert(res[k].transforms == acc) by {
                    assert(acc.len() <= res[k].transforms.len());
                    assert(res[k].transforms.take(res[k].transforms.len() as int) =~= res[
                        k
                    ].transforms);
                }
                assert(res[k].transforms.skip(acc.len() as int) =~= Seq::<TransformOp>::empty());
                assert(transforms_words(Seq::<TransformOp>::empty()) == Seq::<i64>::empty());
                assert(primitive_words(res[k].primitive) == seq![OP_SPHERE, s[i + 1]]);
                assert(s.subrange(i, s.len() as int) =~= seq![OP_SPHERE, s[i + 1]] + s.subrange(
                    i + 2,
                    s.len() as int,
                ));
                assert(s.subrange(i, s.len() as int) =~= transforms_words(
                    res[k].transforms.skip(acc.len() as int),
                ) + primitive_words(res[k].primitive) + seq![combinator_word(res[k].combinator)]
                    + scene_words(res.skip(k + 1)) + seq![OP_STOP]);
            }
        }
    } else if w == OP_BOX {
        if i + 3 < s.len() {
            let p = Primitive::Cuboid {
                half_extents: Vec3 { x: s[i + 1], y: s[i + 2], z: s[i + 3] },
            };
            lemma_decode_primitive_sound(s, i + 4, done, acc, p);
            let outcome = decode_from(s, i, st);
            if outcome is Some {
                let res = outcome->0;
                assert(res[k].transforms == acc) by {
                    assert(acc.len() <= res[k].transforms.len());
                    assert(res[k].transforms.take(res[k].transforms.len() as int) =~= res[
                        k
                    ].transforms);
                }
                assert(res[k].transforms.skip(acc.len() as int) =~= Seq::<TransformOp>::empty());
                assert(transforms_words(Seq::<TransformOp>::empty()) == Seq::<i64>::empty());
                assert(primitive_words(res[k].primitive) == seq![OP_BOX, s[i + 1], s[i + 2], s[i
                    + 3]]);
                assert(s.subrange(i, s.len() as int) =~= seq![OP_BOX, s[i + 1], s[i + 2], s[i + 3]]
                    + s.subrange(i + 4, s.len() as int));
                assert(s.subrange(i, s.len() as int) =~= transforms_words(
                    res[k].transforms.skip(acc.len() as int),
                ) + primitive_words(res[k].primitive) + seq![combinator_word(res[k].combinator)]
                    + scene_words(res.skip(k + 1)) + seq![OP_STOP]);
            }
        }
    } else if w == OP_TRANSLATE || w == OP_ROTATE {
        if i + 3 < s.len() {
            let v = Vec3 { x: s[i + 1], y: s[i + 2], z: s[i + 3] };
            let t = if w == OP_TRANSLATE {
                TransformOp::Translate { offset: v }
            } else {
                TransformOp::Rotate { angles: v }
            };
            lemma_decode_entity_sound(s, i + 4, done, acc.push(t));
            let outcome = decode_from(s, i, st);
            if outcome is Some {
                let res = outcome->0;
                let ts = res[k].transforms;
                assert(acc.push(t) == ts.take(acc.len() as int + 1));
                assert(acc =~= ts.take(acc.len() as int)) by {
                    assert forall|j: int| 0 <= j < acc.len() implies acc[j] == ts.take(
                        acc.len() as int,
                    )[j] by {
                        assert(acc.push(t)[j] == ts.take(acc.len() as int + 1)[j]);
                    }
                }
                assert(ts[acc.len() as int] == t) by {
                    assert(acc.push(t)[acc.len() as int] == ts.take(acc.len() as int + 1)[
                        acc.len() as int
                    ]);
                }
                let tail = ts.skip(acc.len() as int);
                assert(tail.len() > 0);
                assert(tail[0] == t);
                assert(tail.drop_first() =~= ts.skip(acc.len() as int + 1));
                assert(transforms_words(tail) == transform_words(t) + transforms_words(
                    ts.skip(acc.len() as int + 1),
                ));
                assert(transform_words(t) =~= seq![w, s[i + 1], s[i + 2], s[i + 3]]);
                assert(s.subrange(i, s.len() as int) =~= seq![w, s[i + 1], s[i + 2], s[i + 3]]
                    + s.subrange(i + 4, s.len() as int));
                assert(s.subrange(i, s.len() as int) =~= transforms_words(tail) + primitive_words(
                    res[k].primitive,
                ) + seq![combinator_word(res[k].combinator)] + scene_words(res.skip(k + 1)) + seq![
                    OP_STOP,
                ]);
            }
        }
    }
}

/// What a successful parse implies once the open entity has its
/// primitive: the next word is its combinator, and the rest spell
/// the remaining scene and the final `Stop`.
#[verifier::rlimit(100)]
proof fn lemma_decode_primitive_sound(
    s: Seq<i64>,
    i: int,
    done: Seq<EntityModel>,
    acc: Seq<TransformOp>,
    p: Primitive,
)
    requires
        0 <= i,
    ensures
        decode_from(
            s,
            i,
            DecodeState {
                done,
                cur: Some(PartialEntity { transforms: acc, primitive: Some(p) }),
            },
        ) matches Some(res) ==> {
            let k = done.len() as int;
            &&& res.len() > done.len()
            &&& res.subrange(0, k) == done
            &&& res[k].transforms == acc
            &&& res[k].primitive == p
            &&& s.subrange(i, s.len() as int) == seq![combinator_word(res[k].combinator)]
                + scene_words(res.skip(k + 1)) + seq![OP_STOP]
        },
    decreases (if i < s.len() { s.len() - i } else { 0 }),
{
    let st = DecodeState {
        done,
        cur: Some(PartialEntity { transforms: acc, primitive: Some(p) }),
    };
    if !(0 <= i < s.len()) {
        return ;
    }
    let w = s[i];
    let k = done.len() as int;
    if w == OP_UNION || w == OP_DIFFERENCE || w == OP_INTERSECT {
        let c = if w == OP_UNION {
            Combinator::Union
        } else if w == OP_DIFFERENCE {
            Combinator::Difference
        } else {
            Combinator::Intersect
        };
        let e = EntityModel { transforms: acc, primitive: p, combinator: c };
        lemma_decode_scene_sound(s, i + 1, done.push(e));
        let outcome = decode_from(s, i, st);
        if outcome is Some {
            let res = outcome->0;
            assert(res.subrange(0, k + 1) == done.push(e));
            assert(res[k] == done.push(e)[k]) by {
                assert(res.subrange(0, k + 1)[k] == done.push(e)[k]);
            }
            assert(res[k] == e);
            assert(res.subrange(0, k) =~= done) by {
                assert forall|j: int| 0 <= j < k implies res.subrange(0, k)[j] == done[j] by {
                    assert(res.subrange(0, k + 1)[j] == done.push(e)[j]);
                }
            }
            assert(res.skip(k) =~= seq![e] + res.skip(k + 1)) by {
                assert(res.skip(k)[0] == res[k]);
            }
            assert(combinator_word(c) == w);
            assert(s.subrange(i, s.len() as int) =~= seq![w] + s.subrange(i + 1, s.len() as int));
            assert(s.subrange(i, s.len() as int) =~= seq![combinator_word(res[k].combinator)]
                + scene_words(res.skip(k + 1)) + seq![OP_STOP]);
        }
    }
}

/// What a successful parse between entities implies: the remaining
/// words spell the not-yet-seen entities and the final `Stop`.
#[verifier::rlimit(100)]
proof fn lemma_decode_scene_sound(s: Seq<i64>, i: int, done: Seq<EntityModel>)
    requires
        0 <= i,
    ensures
        decode_from(s, i, DecodeState { done, cur: None }) matches Some(res) ==> {
            let k = done.len() as int;
            &&& res.len() >= done.len()
            &&& res.subrange(0, k) == done
            &&& s.subrange(i, s.len() as int) == scene_words(res.skip(k)) + seq![OP_STOP]
        },
    decreases (if i < s.len() { s.len() - i } else { 0 }),
{
    let st = DecodeState { done, cur: None };
    if !(0 <= i < s.len()) {
        return ;
    }
    let w = s[i];
    let k = done.len() as int;
    if w == OP_STOP {
        if i == s.len() - 1 {
            let outcome = decode_from(s, i, st);
            if outcome is Some {
                let res = outcome->0;
                assert(res == done);
                assert(res.subrange(0, k) =~= done);
                assert(res.skip(k) =~= Seq::<EntityModel>::empty());
                assert(scene_words(Seq::<EntityModel>::empty()) == Seq::<i64>::empty());
                assert(s.subrange(i, s.len() as int) =~= seq![OP_STOP]);
            }
        }
    } else if w == OP_NEW_ENTITY {
        lemma_decode_entity_sound(s, i + 1, done, Seq::empty());
        let outcome = decode_from(s, i, st);
        if outcome is Some {
            let res = outcome->0;
            let tail = res.skip(k);
            assert(tail.len() > 0);
            assert(tail[0] == res[k]);
            assert(tail.drop_first() =~= res.skip(k + 1));
            assert(res[k].transforms.skip(0) =~= res[k].transforms);
            assert(scene_words(tail) == entity_words(res[k]) + scene_words(res.skip(k + 1)));
            assert(s.subrange(i, s.len() as int) =~= seq![OP_NEW_ENTITY] + s.subrange(
                i + 1,
                s.len() as int,
            ));
            assert(s.subrange(i, s.len() as int) =~= scene_words(tail) + seq![OP_STOP]);
        }
    }
}

/// The converse of the round trip: whatever the strict decoder
/// accepts is bit for bit the encoding of the entities it returns.
/// Together with the round trip this makes `decode` the exact
/// inverse of `encode`: the well-formed streams are precisely the
/// encodings.
pub proof fn lemma_decode_sound(s: Seq<i64>)
    ensures
        spec_decode(s) matches Some(es) ==> s == spec_encode(es),
{
    lemma_decode_scene_sound(s, 0, Seq::empty());
    let outcome = spec_decode(s);
    if outcome is Some {
        let es = outcome->0;
        assert(es.skip(0) =~= es);
        assert(s.subrange(0, s.len() as int) =~= s);
    }
}

} // verus!
