use vstd::prelude::*;
use crate::atoms::{AgentName, Function, Matcher, Query, Variable};
use crate::error::Error;
use crate::signature::{Signature, signature_wf};
use crate::term::Term;
use crate::types::{HostType, spec_type_id};
use crate::zoo::{TermModel, model_of, models_of};

verus! {

/// The value of two big-endian bytes.
pub open spec fn spec_read_u16(bytes: Seq<u8>, p: int) -> u16 {
    ((bytes[p] as u16) << 8) | (bytes[p + 1] as u16)
}

/// The value of four big-endian bytes.
pub open spec fn spec_read_u32(bytes: Seq<u8>, p: int) -> u32 {
    ((bytes[p] as u32) << 24) | ((bytes[p + 1] as u32) << 16) | ((bytes[p + 2] as u32) << 8) | (
    bytes[p + 3] as u32)
}

/// The value of eight big-endian bytes.
pub open spec fn spec_read_u64(bytes: Seq<u8>, p: int) -> u64 {
    ((bytes[p] as u64) << 56) | ((bytes[p + 1] as u64) << 48) | ((bytes[p + 2] as u64) << 40) | ((
    bytes[p + 3] as u64) << 32) | ((bytes[p + 4] as u64) << 24) | ((bytes[p + 5] as u64) << 16) | ((
    bytes[p + 6] as u64) << 8) | (bytes[p + 7] as u64)
}

/// The host type registered under an identity byte, if any.
pub open spec fn spec_type_from_code(b: u8) -> Option<HostType> {
    if b == 1 {
        Some(HostType::Bytes)
    } else if b == 2 {
        Some(HostType::U8)
    } else if b == 3 {
        Some(HostType::U16)
    } else if b == 4 {
        Some(HostType::U32)
    } else if b == 5 {
        Some(HostType::HmacKey)
    } else if b == 6 {
        Some(HostType::HandshakeMessage)
    } else if b == 7 {
        Some(HostType::Encrypted)
    } else if b == 8 {
        Some(HostType::ProtocolVersion)
    } else if b == 9 {
        Some(HostType::Random)
    } else if b == 10 {
        Some(HostType::ClientExtension)
    } else if b == 11 {
        Some(HostType::ClientExtensions)
    } else if b == 12 {
        Some(HostType::Group)
    } else if b == 13 {
        Some(HostType::SessionId)
    } else if b == 14 {
        Some(HostType::CipherSuites)
    } else if b == 15 {
        Some(HostType::CipherSuite)
    } else if b == 16 {
        Some(HostType::Compressions)
    } else {
        None
    }
}

/// What loading yields at a position: the shape of the term read and
/// the position after it, or nothing when no valid term starts there.
/// Function symbols rebind to the symbol the signature keeps under the
/// persisted identifier.
pub open spec fn spec_decode_term(bytes: Seq<u8>, pos: int, fs: Seq<Function>) -> Option<
    (TermModel, int),
>
    decreases bytes.len() - pos, 0int,
{
    if pos < 0 || pos >= bytes.len() {
        None
    } else if bytes[pos] == 0 {
        // a variable
        if bytes.len() - pos < 7 {
            None
        } else {
            let rid = spec_read_u32(bytes, pos + 1);
            match spec_type_from_code(bytes[pos + 5]) {
                None => None,
                Some(typ) => {
                    let sflag = bytes[pos + 6];
                    let scur = pos + 6;
                    if sflag == 0 {
                        spec_decode_var_matcher(bytes, scur + 1, rid, typ, None)
                    } else if sflag == 1 {
                        if bytes.len() - scur < 9 {
                            None
                        } else {
                            spec_decode_var_matcher(
                                bytes,
                                scur + 9,
                                rid,
                                typ,
                                Some(AgentName { id: spec_read_u64(bytes, scur + 1) }),
                            )
                        }
                    } else {
                        None
                    }
                },
            }
        }
    } else if bytes[pos] == 1 {
        // an application
        if bytes.len() - pos < 7 {
            None
        } else {
            let rid = spec_read_u32(bytes, pos + 1);
            let count = spec_read_u16(bytes, pos + 5);
            if rid >= fs.len() {
                None
            } else if fs[rid as int].resistant_id != rid {
                None
            } else {
                match spec_decode_args(bytes, pos + 7, count as int, fs) {
                    None => None,
                    Some(parsed) => Some(
                        (TermModel::Application(fs[rid as int], parsed.0), parsed.1),
                    ),
                }
            }
        }
    } else {
        None
    }
}

/// The tail of a persisted variable: its matcher and counter.
pub open spec fn spec_decode_var_matcher(
    bytes: Seq<u8>,
    cur: int,
    rid: u32,
    typ: HostType,
    source: Option<AgentName>,
) -> Option<(TermModel, int)> {
    if cur >= bytes.len() {
        None
    } else {
        let mflag = bytes[cur];
        if mflag == 0 {
            spec_decode_var_counter(bytes, cur + 1, rid, typ, source, None)
        } else if mflag == 1 {
            spec_decode_var_counter(bytes, cur + 1, rid, typ, source, Some(Matcher::Any))
        } else if mflag == 2 {
            if bytes.len() - cur < 9 {
                None
            } else {
                spec_decode_var_counter(
                    bytes,
                    cur + 9,
                    rid,
                    typ,
                    source,
                    Some(Matcher::Tag(spec_read_u64(bytes, cur + 1))),
                )
            }
        } else {
            None
        }
    }
}

/// The counter closing a persisted variable.
pub open spec fn spec_decode_var_counter(
    bytes: Seq<u8>,
    cur: int,
    rid: u32,
    typ: HostType,
    source: Option<AgentName>,
    matcher: Option<Matcher>,
) -> Option<(TermModel, int)> {
    if bytes.len() - cur < 2 {
        None
    } else {
        Some(
            (
                TermModel::Variable(
                    Variable {
                        resistant_id: rid,
                        typ,
                        query: Query { source, matcher, counter: spec_read_u16(bytes, cur) },
                    },
                ),
                cur + 2,
            ),
        )
    }
}

/// A run of persisted terms: each argument follows the previous one.
pub open spec fn spec_decode_args(bytes: Seq<u8>, pos: int, count: int, fs: Seq<Function>)
    -> Option<(Seq<TermModel>, int)>
    decreases bytes.len() - pos, count + 1,
{
    if count <= 0 {
        Some((Seq::empty(), pos))
    } else {
        match spec_decode_term(bytes, pos, fs) {
            None => None,
            Some(first) => if pos < first.1 <= bytes.len() {
                match spec_decode_args(bytes, first.1, count - 1, fs) {
                    None => None,
                    Some(rest) => Some((seq![first.0] + rest.0, rest.1)),
                }
            } else {
                None
            },
        }
    }
}

/// Every function symbol of the term is the one the signature keeps
/// under its identifier, so rebinding on loading restores it.
pub open spec fn spec_term_bound(t: Term, fs: Seq<Function>) -> bool
    decreases t,
{
    match t {
        Term::Variable(_) => true,
        Term::Application(f, args) => {
            &&& f.resistant_id < fs.len()
            &&& fs[f.resistant_id as int] == f
            &&& forall|i: int| 0 <= i < args@.len() ==> spec_term_bound(#[trigger] args@[i], fs)
        },
    }
}

/// Two big-endian bytes read back as the value they encode.
proof fn lemma_read_back_u16(bytes: Seq<u8>, p: int, v: u16)
    requires
        0 <= p,
        p + 2 <= bytes.len(),
        bytes[p] == (v >> 8) as u8,
        bytes[p + 1] == v as u8,
    ensures
        spec_read_u16(bytes, p) == v,
{
    let b0 = bytes[p];
    let b1 = bytes[p + 1];
    assert(b0 == (v >> 8) as u8 && b1 == v as u8 ==> (((b0 as u16) << 8) | (b1 as u16)) == v)
        by (bit_vector);
}

/// Four big-endian bytes read back as the value they encode.
proof fn lemma_read_back_u32(bytes: Seq<u8>, p: int, v: u32)
    requires
        0 <= p,
        p + 4 <= bytes.len(),
        bytes[p] == (v >> 24) as u8,
        bytes[p + 1] == (v >> 16) as u8,
        bytes[p + 2] == (v >> 8) as u8,
        bytes[p + 3] == v as u8,
    ensures
        spec_read_u32(bytes, p) == v,
{
    let b0 = bytes[p];
    let b1 = bytes[p + 1];
    let b2 = bytes[p + 2];
    let b3 = bytes[p + 3];
    assert(b0 == (v >> 24) as u8 && b1 == (v >> 16) as u8 && b2 == (v >> 8) as u8 && b3 == v as u8
        ==> (((b0 as u32) << 24) | ((b1 as u32) << 16) | ((b2 as u32) << 8) | (b3 as u32)) == v)
        by (bit_vector);
}

/// Eight big-endian bytes read back as the value they encode.
proof fn lemma_read_back_u64(bytes: Seq<u8>, p: int, v: u64)
    requires
        0 <= p,
        p + 8 <= bytes.len(),
        bytes[p] == (v >> 56) as u8,
        bytes[p + 1] == (v >> 48) as u8,
        bytes[p + 2] == (v >> 40) as u8,
        bytes[p + 3] == (v >> 32) as u8,
        bytes[p + 4] == (v >> 24) as u8,
        bytes[p + 5] == (v >> 16) as u8,
        bytes[p + 6] == (v >> 8) as u8,
        bytes[p + 7] == v as u8,
    ensures
        spec_read_u64(bytes, p) == v,
{
    let b0 = bytes[p];
    let b1 = bytes[p + 1];
    let b2 = bytes[p + 2];
    let b3 = bytes[p + 3];
    let b4 = bytes[p + 4];
    let b5 = bytes[p + 5];
    let b6 = bytes[p + 6];
    let b7 = bytes[p + 7];
    assert(b0 == (v >> 56) as u8 && b1 == (v >> 48) as u8 && b2 == (v >> 40) as u8 && b3 == (v
        >> 32) as u8 && b4 == (v >> 24) as u8 && b5 == (v >> 16) as u8 && b6 == (v >> 8) as u8 && b7
        == v as u8 ==> (((b0 as u64) << 56) | ((b1 as u64) << 48) | ((b2 as u64) << 40) | ((
    b3 as u64) << 32) | ((b4 as u64) << 24) | ((b5 as u64) << 16) | ((b6 as u64) << 8) | (
    b7 as u64)) == v) by (bit_vector);
}

/// A type identity byte reads back as its type.
proof fn lemma_type_code_round(t: HostType)
    ensures
        spec_type_from_code(spec_type_id(t) as u8) == Some(t),
{
}

/// The shapes of a list, taken from the front.
proof fn lemma_models_of_index(ts: Seq<Term>)
    ensures
        models_of(ts).len() == ts.len(),
        forall|i: int| 0 <= i < ts.len() ==> #[trigger] models_of(ts)[i] == model_of(ts[i]),
    decreases ts,
{
    if ts.len() > 0 {
        lemma_models_of_index(ts.drop_last());
        assert forall|i: int| 0 <= i < ts.len() implies #[trigger] models_of(ts)[i] == model_of(
            ts[i],
        ) by {
            if i < ts.len() - 1 {
                assert(ts.drop_last()[i] == ts[i]);
                assert(models_of(ts)[i] == models_of(ts.drop_last())[i]);
            } else {
                assert(ts.last() == ts[i]);
            }
        }
    }
}

/// The persisted forms of a list, split at its first member.
proof fn lemma_encode_list_front(ts: Seq<Term>)
    requires
        ts.len() > 0,
    ensures
        spec_encode_list(ts) == spec_term_encode(ts[0]) + spec_encode_list(ts.drop_first()),
    decreases ts,
{
    if ts.len() == 1 {
        assert(ts.drop_last() =~= Seq::<Term>::empty());
        assert(ts.drop_first() =~= Seq::<Term>::empty());
        assert(spec_term_encode(ts[0]) + Seq::<u8>::empty() =~= spec_term_encode(ts[0]));
        assert(Seq::<u8>::empty() + spec_term_encode(ts[0]) =~= spec_term_encode(ts[0]));
        assert(ts.last() == ts[0]);
    } else {
        lemma_encode_list_front(ts.drop_last());
        assert(ts.drop_last()[0] == ts[0]);
        assert(ts.drop_last().drop_first() =~= ts.drop_first().drop_last());
        assert(ts.drop_first().last() == ts.last());
        assert((spec_term_encode(ts[0]) + spec_encode_list(ts.drop_first().drop_last()))
            + spec_term_encode(ts.last()) =~= spec_term_encode(ts[0]) + (spec_encode_list(
            ts.drop_first().drop_last(),
        ) + spec_term_encode(ts.last())));
    }
}

/// Loading reads back exactly what persisting wrote: at any position
/// where a persistable, signature-bound term was persisted, decoding
/// succeeds, consumes exactly its bytes, and restores its shape. With
/// the contract of `Term::deserialize`, persisting, loading and
/// persisting again is bit-equal.
pub proof fn lemma_decode_of_encode(t: Term, bytes: Seq<u8>, pos: int, fs: Seq<Function>)
    requires
        spec_encodable(t),
        spec_term_bound(t, fs),
        0 <= pos,
        pos + spec_term_encode(t).len() <= bytes.len(),
        bytes.subrange(pos, pos + spec_term_encode(t).len()) == spec_term_encode(t),
    ensures
        spec_decode_term(bytes, pos, fs) == Some(
            (model_of(t), pos + spec_term_encode(t).len()),
        ),
    decreases t, 0int,
{
    let enc = spec_term_encode(t);
    assert forall|k: int| 0 <= k < enc.len() implies bytes[pos + k] == #[trigger] enc[k] by {
        assert(bytes.subrange(pos, pos + enc.len())[k] == bytes[pos + k]);
    }
    match t {
        Term::Variable(v) => {
            let senc = spec_source_encode(v.query.source);
            let menc = spec_matcher_encode(v.query.matcher);
            let senc_len: int = match v.query.source {
                None => 1,
                Some(_) => 9,
            };
            let menc_len: int = match v.query.matcher {
                None => 1,
                Some(Matcher::Any) => 1,
                Some(Matcher::Tag(_)) => 9,
            };
            assert(senc.len() == senc_len);
            assert(menc.len() == menc_len);
            assert(enc.len() == 8 + senc_len + menc_len);
            assert(enc[0] == 0u8);
            assert(bytes[pos] == enc[0]);
            assert(enc[1] == (v.resistant_id >> 24) as u8);
            assert(enc[2] == (v.resistant_id >> 16) as u8);
            assert(enc[3] == (v.resistant_id >> 8) as u8);
            assert(enc[4] == v.resistant_id as u8);
            assert(bytes[pos + 1] == enc[1] && bytes[pos + 2] == enc[2] && bytes[pos + 3] == enc[3]
                && bytes[pos + 4] == enc[4]);
            lemma_read_back_u32(bytes, pos + 1, v.resistant_id);
            assert(enc[5] == spec_type_id(v.typ) as u8);
            assert(bytes[pos + 5] == enc[5]);
            lemma_type_code_round(v.typ);
            let scur = pos + 6;
            let mcur: int = scur + senc_len;
            let ccur: int = mcur + menc_len;
            match v.query.source {
                None => {
                    assert(enc[6] == 0u8);
                    assert(bytes[pos + 6] == enc[6]);
                },
                Some(a) => {
                    assert(enc[6] == 1u8);
                    assert(bytes[pos + 6] == enc[6]);
                    assert(enc[7] == (a.id >> 56) as u8);
                    assert(enc[8] == (a.id >> 48) as u8);
                    assert(enc[9] == (a.id >> 40) as u8);
                    assert(enc[10] == (a.id >> 32) as u8);
                    assert(enc[11] == (a.id >> 24) as u8);
                    assert(enc[12] == (a.id >> 16) as u8);
                    assert(enc[13] == (a.id >> 8) as u8);
                    assert(enc[14] == a.id as u8);
                    assert(bytes[pos + 7] == enc[7] && bytes[pos + 8] == enc[8] && bytes[pos + 9]
                        == enc[9] && bytes[pos + 10] == enc[10] && bytes[pos + 11] == enc[11]
                        && bytes[pos + 12] == enc[12] && bytes[pos + 13] == enc[13] && bytes[pos
                        + 14] == enc[14]);
                    lemma_read_back_u64(bytes, scur + 1, a.id);
                },
            }
            let ghost mb: int = 6 + senc_len;
            match v.query.matcher {
                None => {
                    assert(enc[mb] == 0u8);
                    assert(bytes[pos + mb] == enc[mb]);
                },
                Some(Matcher::Any) => {
                    assert(enc[mb] == 1u8);
                    assert(bytes[pos + mb] == enc[mb]);
                },
                Some(Matcher::Tag(k)) => {
                    assert(enc[mb] == 2u8);
                    assert(bytes[pos + mb] == enc[mb]);
                    assert(enc[mb + 1] == (k >> 56) as u8);
                    assert(enc[mb + 2] == (k >> 48) as u8);
                    assert(enc[mb + 3] == (k >> 40) as u8);
                    assert(enc[mb + 4] == (k >> 32) as u8);
                    assert(enc[mb + 5] == (k >> 24) as u8);
                    assert(enc[mb + 6] == (k >> 16) as u8);
                    assert(enc[mb + 7] == (k >> 8) as u8);
                    assert(enc[mb + 8] == k as u8);
                    assert(bytes[pos + (mb + 1)] == enc[mb + 1] && bytes[pos + (mb + 2)] == enc[mb
                        + 2] && bytes[pos + (mb + 3)] == enc[mb + 3] && bytes[pos + (mb + 4)]
                        == enc[mb + 4] && bytes[pos + (mb + 5)] == enc[mb + 5] && bytes[pos + (mb
                        + 6)] == enc[mb + 6] && bytes[pos + (mb + 7)] == enc[mb + 7] && bytes[pos
                        + (mb + 8)] == enc[mb + 8]);
                    assert(mcur + 1 == pos + (mb + 1));
                    lemma_read_back_u64(bytes, mcur + 1, k);
                },
            }
            let ghost cb: int = 6 + senc_len + menc_len;
            assert(enc[cb] == (v.query.counter >> 8) as u8);
            assert(enc[cb + 1] == v.query.counter as u8);
            assert(bytes[pos + cb] == enc[cb] && bytes[pos + (cb + 1)] == enc[cb + 1]);
            assert(ccur == pos + cb);
            lemma_read_back_u16(bytes, ccur, v.query.counter);
            assert(ccur + 2 == pos + enc.len());
        },
        Term::Application(f, args) => {
            let ecl = spec_encode_list(args@);
            assert(enc.len() == 7 + ecl.len());
            assert(enc[0] == 1u8);
            assert(bytes[pos] == enc[0]);
            assert(enc[1] == (f.resistant_id >> 24) as u8);
            assert(enc[2] == (f.resistant_id >> 16) as u8);
            assert(enc[3] == (f.resistant_id >> 8) as u8);
            assert(enc[4] == f.resistant_id as u8);
            assert(bytes[pos + 1] == enc[1] && bytes[pos + 2] == enc[2] && bytes[pos + 3] == enc[3]
                && bytes[pos + 4] == enc[4]);
            lemma_read_back_u32(bytes, pos + 1, f.resistant_id);
            assert(enc[5] == ((args@.len() as u16) >> 8) as u8);
            assert(enc[6] == (args@.len() as u16) as u8);
            assert(bytes[pos + 5] == enc[5] && bytes[pos + 6] == enc[6]);
            lemma_read_back_u16(bytes, pos + 5, args@.len() as u16);
            assert forall|k: int|
                0 <= k < ecl.len() implies bytes.subrange(pos + 7, pos + 7 + ecl.len())[k]
                == ecl[k] by {
                assert(bytes[pos + (7 + k)] == enc[7 + k]);
                assert(enc[7 + k] == ecl[k]);
            }
            assert(bytes.subrange(pos + 7, pos + 7 + ecl.len()) =~= ecl);
            lemma_decode_args_of_encode(args@, bytes, pos + 7, fs);
            assert(model_of(t) == TermModel::Application(f, models_of(args@)));
        },
    }
}

/// Loading a run of persisted terms reads each back in order.
proof fn lemma_decode_args_of_encode(ts: Seq<Term>, bytes: Seq<u8>, pos: int, fs: Seq<Function>)
    requires
        forall|i: int| 0 <= i < ts.len() ==> spec_encodable(#[trigger] ts[i]),
        forall|i: int| 0 <= i < ts.len() ==> spec_term_bound(#[trigger] ts[i], fs),
        0 <= pos,
        pos + spec_encode_list(ts).len() <= bytes.len(),
        bytes.subrange(pos, pos + spec_encode_list(ts).len()) == spec_encode_list(ts),
    ensures
        spec_decode_args(bytes, pos, ts.len() as int, fs) == Some(
            (models_of(ts), pos + spec_encode_list(ts).len()),
        ),
    decreases ts, 1int,
{
    let ecl = spec_encode_list(ts);
    if ts.len() == 0 {
        assert(models_of(ts) =~= Seq::<TermModel>::empty());
    } else {
        assert forall|k: int| 0 <= k < ecl.len() implies bytes[pos + k] == #[trigger] ecl[k] by {
            assert(bytes.subrange(pos, pos + ecl.len())[k] == bytes[pos + k]);
        }
        lemma_encode_list_front(ts);
        let first = spec_term_encode(ts[0]);
        let rest = spec_encode_list(ts.drop_first());
        assert(first.len() >= 1);
        assert forall|k: int|
            0 <= k < first.len() implies bytes.subrange(pos, pos + first.len())[k] == first[k] by {
            assert(bytes[pos + k] == ecl[k]);
            assert(ecl[k] == first[k]);
        }
        assert(bytes.subrange(pos, pos + first.len()) =~= first);
        assert(decreases_to!(ts => ts[0]));
        lemma_decode_of_encode(ts[0], bytes, pos, fs);
        let pos2 = pos + first.len();
        assert forall|k: int|
            0 <= k < rest.len() implies bytes.subrange(pos2, pos2 + rest.len())[k] == rest[k] by {
            assert(bytes[pos + (first.len() + k)] == ecl[first.len() + k]);
            assert(ecl[first.len() + k] == rest[k]);
        }
        assert(bytes.subrange(pos2, pos2 + rest.len()) =~= rest);
        assert(decreases_to!(ts => ts.drop_first()));
        assert forall|i: int| 0 <= i < ts.drop_first().len() implies spec_encodable(
            #[trigger] ts.drop_first()[i],
        ) && spec_term_bound(ts.drop_first()[i], fs) by {
            assert(ts.drop_first()[i] == ts[i + 1]);
        }
        lemma_decode_args_of_encode(ts.drop_first(), bytes, pos2, fs);
        lemma_models_of_index(ts);
        lemma_models_of_index(ts.drop_first());
        assert forall|i: int|
            0 <= i < ts.len() implies #[trigger] models_of(ts)[i] == (seq![model_of(ts[0])]
            + models_of(ts.drop_first()))[i] by {
            if i >= 1 {
                assert(ts.drop_first()[i - 1] == ts[i]);
                assert(models_of(ts.drop_first())[i - 1] == model_of(ts.drop_first()[i - 1]));
            }
        }
        assert(models_of(ts) =~= seq![model_of(ts[0])] + models_of(ts.drop_first()));
    }
}

/// Loading a persisted term from its own bytes: under a signature
/// that binds its symbols, decoding succeeds, consumes everything,
/// and restores the term's shape. With the contract of
/// `Term::deserialize`, persisting, loading and persisting again is
/// therefore bit-equal.
pub proof fn lemma_persist_round_trip(t: Term, fs: Seq<Function>)
    requires
        spec_encodable(t),
        spec_term_bound(t, fs),
    ensures
        spec_decode_term(spec_term_encode(t), 0, fs) == Some(
            (model_of(t), spec_term_encode(t).len() as int),
        ),
{
    let enc = spec_term_encode(t);
    assert(enc.subrange(0, enc.len() as int) =~= enc);
    lemma_decode_of_encode(t, enc, 0, fs);
}

/// Big-endian bytes of a 16-bit value.
pub open spec fn spec_u16_be(v: u16) -> Seq<u8> {
    seq![(v >> 8) as u8, v as u8]
}

/// Big-endian bytes of a 32-bit value.
pub open spec fn spec_u32_be(v: u32) -> Seq<u8> {
    seq![(v >> 24) as u8, (v >> 16) as u8, (v >> 8) as u8, v as u8]
}

/// Big-endian bytes of a 64-bit value.
pub open spec fn spec_u64_be(v: u64) -> Seq<u8> {
    seq![
        (v >> 56) as u8,
        (v >> 48) as u8,
        (v >> 40) as u8,
        (v >> 32) as u8,
        (v >> 24) as u8,
        (v >> 16) as u8,
        (v >> 8) as u8,
        v as u8,
    ]
}

/// The persisted form of a query's source.
pub open spec fn spec_source_encode(source: Option<AgentName>) -> Seq<u8> {
    match source {
        None => seq![0u8],
        Some(a) => seq![1u8] + spec_u64_be(a.id),
    }
}

/// The persisted form of a query's matcher.
pub open spec fn spec_matcher_encode(matcher: Option<Matcher>) -> Seq<u8> {
    match matcher {
        None => seq![0u8],
        Some(Matcher::Any) => seq![1u8],
        Some(Matcher::Tag(k)) => seq![2u8] + spec_u64_be(k),
    }
}

/// The persisted form of a term. A variable persists its identifier,
/// declared type and query; a function symbol persists nominally, as
/// its stable identifier alone, and is rebound through the active
/// signature on loading — the readable name is not stored but comes
/// back with the rebound symbol.
pub open spec fn spec_term_encode(t: Term) -> Seq<u8>
    decreases t,
{
    match t {
        Term::Variable(v) => seq![0u8] + spec_u32_be(v.resistant_id) + seq![
            spec_type_id(v.typ) as u8,
        ] + spec_source_encode(v.query.source) + spec_matcher_encode(v.query.matcher)
            + spec_u16_be(v.query.counter),
        Term::Application(f, args) => seq![1u8] + spec_u32_be(f.resistant_id) + spec_u16_be(
            args@.len() as u16,
        ) + spec_encode_list(args@),
    }
}

/// The concatenated persisted forms of a list of terms.
pub open spec fn spec_encode_list(ts: Seq<Term>) -> Seq<u8>
    decreases ts,
{
    if ts.len() == 0 {
        Seq::empty()
    } else {
        spec_encode_list(ts.drop_last()) + spec_term_encode(ts.last())
    }
}

/// A term is persistable when no application in it has more arguments
/// than the length field can carry.
pub open spec fn spec_encodable(t: Term) -> bool
    decreases t,
{
    match t {
        Term::Variable(_) => true,
        Term::Application(_, args) => {
            &&& args@.len() <= u16::MAX
            &&& forall|i: int| 0 <= i < args@.len() ==> spec_encodable(#[trigger] args@[i])
        },
    }
}

/// Appends the big-endian bytes of a 16-bit value.
fn push_u16_be(out: &mut Vec<u8>, v: u16)
    ensures
        final(out)@ == old(out)@ + spec_u16_be(v),
{
    out.push((v >> 8) as u8);
    out.push(v as u8);
    proof {
        assert(out@ =~= old(out)@ + spec_u16_be(v));
    }
}

/// Appends the big-endian bytes of a 32-bit value.
fn push_u32_be(out: &mut Vec<u8>, v: u32)
    ensures
        final(out)@ == old(out)@ + spec_u32_be(v),
{
    out.push((v >> 24) as u8);
    out.push((v >> 16) as u8);
    out.push((v >> 8) as u8);
    out.push(v as u8);
    proof {
        assert(out@ =~= old(out)@ + spec_u32_be(v));
    }
}

/// Appends the big-endian bytes of a 64-bit value.
fn push_u64_be(out: &mut Vec<u8>, v: u64)
    ensures
        final(out)@ == old(out)@ + spec_u64_be(v),
{
    out.push((v >> 56) as u8);
    out.push((v >> 48) as u8);
    out.push((v >> 40) as u8);
    out.push((v >> 32) as u8);
    out.push((v >> 24) as u8);
    out.push((v >> 16) as u8);
    out.push((v >> 8) as u8);
    out.push(v as u8);
    proof {
        assert(out@ =~= old(out)@ + spec_u64_be(v));
    }
}

/// The identity byte of a host type.
fn type_code(t: HostType) -> (r: u8)
    ensures
        r == spec_type_id(t) as u8,
        r == spec_type_id(t),
{
    let shape_id = crate::types::TypeShape::of(t).id;
    shape_id as u8
}

/// The host type registered under an identity byte, if any.
fn host_type_from_code(b: u8) -> (r: Option<HostType>)
    ensures
        r == spec_type_from_code(b),
        match r {
            Some(t) => spec_type_id(t) == b,
            None => b == 0 || b > 16,
        },
{
    match b {
        1 => Some(HostType::Bytes),
        2 => Some(HostType::U8),
        3 => Some(HostType::U16),
        4 => Some(HostType::U32),
        5 => Some(HostType::HmacKey),
        6 => Some(HostType::HandshakeMessage),
        7 => Some(HostType::Encrypted),
        8 => Some(HostType::ProtocolVersion),
        9 => Some(HostType::Random),
        10 => Some(HostType::ClientExtension),
        11 => Some(HostType::ClientExtensions),
        12 => Some(HostType::Group),
        13 => Some(HostType::SessionId),
        14 => Some(HostType::CipherSuites),
        15 => Some(HostType::CipherSuite),
        16 => Some(HostType::Compressions),
        _ => None,
    }
}

impl Term {
    /// Appends the persisted form of the term.
    fn encode_into(&self, out: &mut Vec<u8>)
        requires
            spec_encodable(*self),
        ensures
            final(out)@ == old(out)@ + spec_term_encode(*self),
        decreases *self,
    {
        match self {
            Term::Variable(v) => {
                out.push(0);
                push_u32_be(out, v.resistant_id);
                out.push(type_code(v.typ));
                match &v.query.source {
                    None => {
                        out.push(0);
                    },
                    Some(a) => {
                        out.push(1);
                        push_u64_be(out, a.id);
                    },
                }
                match &v.query.matcher {
                    None => {
                        out.push(0);
                    },
                    Some(Matcher::Any) => {
                        out.push(1);
                    },
                    Some(Matcher::Tag(k)) => {
                        out.push(2);
                        push_u64_be(out, *k);
                    },
                }
                push_u16_be(out, v.query.counter);
                proof {
                    assert(out@ =~= old(out)@ + spec_term_encode(*self));
                }
            },
            Term::Application(func, subterms) => {
                proof {
                    assert(*self == Term::Application(*func, *subterms));
                }
                out.push(1);
                push_u32_be(out, func.resistant_id);
                push_u16_be(out, subterms.len() as u16);
                let ghost header = old(out)@ + seq![1u8] + spec_u32_be(func.resistant_id)
                    + spec_u16_be(subterms@.len() as u16);
                proof {
                    assert(out@ =~= header);
                }
                let n: usize = subterms.len();
                let mut i: usize = 0;
                while i < n
                    invariant
                        i <= n,
                        n == subterms@.len(),
                        *self == Term::Application(*func, *subterms),
                        spec_encodable(*self),
                        out@ == header + spec_encode_list(subterms@.take(i as int)),
                    decreases n - i,
                {
                    proof {
                        assert(decreases_to!(*self => (*self)->Application_1));
                        assert(decreases_to!((*self)->Application_1 => (*self)->Application_1@));
                        assert(decreases_to!((*self)->Application_1@ => (*self)
                            ->Application_1@[i as int]));
                        assert((*self)->Application_1@[i as int] == subterms@[i as int]);
                        assert(subterms@.take(i + 1 as int).drop_last() =~= subterms@.take(
                            i as int,
                        ));
                        assert(subterms@.take(i + 1 as int).last() == subterms@[i as int]);
                    }
                    subterms[i].encode_into(out);
                    i = i + 1;
                }
                proof {
                    assert(subterms@.take(n as int) =~= subterms@);
                    assert(out@ =~= old(out)@ + spec_term_encode(*self));
                }
            },
        }
    }

    /// The persisted form of the term.
    pub fn serialize(&self) -> (r: Vec<u8>)
        requires
            spec_encodable(*self),
        ensures
            r@ == spec_term_encode(*self),
    {
        let mut out: Vec<u8> = Vec::new();
        self.encode_into(&mut out);
        proof {
            assert(out@ =~= spec_term_encode(*self));
        }
        out
    }

    /// Loads a term from its persisted form, starting at `pos` and
    /// rebinding every function symbol through the signature; an
    /// unknown symbol or a malformed prefix fails. Whatever loads
    /// persists back to exactly the bytes it was read from, so loading
    /// and persisting again is bit-equal.
    #[verifier::rlimit(100)]
    pub fn deserialize(bytes: &Vec<u8>, pos: usize, signature: &Signature) -> (r: Result<
        (Term, usize),
        Error,
    >)
        requires
            signature_wf(*signature),
            pos <= bytes@.len(),
        ensures
            match r {
                Ok((t, newpos)) => {
                    &&& pos < newpos <= bytes@.len()
                    &&& bytes@.subrange(pos as int, newpos as int) == spec_term_encode(t)
                    &&& spec_encodable(t)
                    &&& spec_decode_term(bytes@, pos as int, signature.functions@) == Some(
                        (model_of(t), newpos as int),
                    )
                },
                Err(_) => spec_decode_term(bytes@, pos as int, signature.functions@) is None,
            },
        decreases bytes@.len() - pos,
    {
        let blen: usize = bytes.len();
        if pos >= blen {
            return Err(Error::Term(String::from_str("truncated term")));
        }
        let tag = bytes[pos];
        if tag == 0 {
            // a variable: identifier, type, source, matcher, counter
            if blen - pos < 7 {
                return Err(Error::Term(String::from_str("truncated variable")));
            }
            let rid = read_u32_be(bytes, pos + 1);
            let tcode = bytes[pos + 5];
            let typ = match host_type_from_code(tcode) {
                Some(t) => t,
                None => {
                    return Err(Error::Term(String::from_str("unknown type identity")));
                },
            };
            let mut cur: usize = pos + 6;
            let source: Option<AgentName>;
            let sflag = bytes[cur];
            if sflag == 0 {
                source = None;
                cur = cur + 1;
            } else if sflag == 1 {
                if blen - cur < 9 {
                    return Err(Error::Term(String::from_str("truncated source")));
                }
                let id = read_u64_be(bytes, cur + 1);
                source = Some(AgentName { id });
                cur = cur + 9;
            } else {
                return Err(Error::Term(String::from_str("malformed source")));
            }
            if cur >= blen {
                return Err(Error::Term(String::from_str("truncated matcher")));
            }
            let matcher: Option<Matcher>;
            let mflag = bytes[cur];
            if mflag == 0 {
                matcher = None;
                cur = cur + 1;
            } else if mflag == 1 {
                matcher = Some(Matcher::Any);
                cur = cur + 1;
            } else if mflag == 2 {
                if blen - cur < 9 {
                    return Err(Error::Term(String::from_str("truncated matcher tag")));
                }
                let k = read_u64_be(bytes, cur + 1);
                matcher = Some(Matcher::Tag(k));
                cur = cur + 9;
            } else {
                return Err(Error::Term(String::from_str("malformed matcher")));
            }
            if blen - cur < 2 {
                return Err(Error::Term(String::from_str("truncated counter")));
            }
            let counter = read_u16_be(bytes, cur);
            let t = Term::Variable(
                Variable { resistant_id: rid, typ, query: Query { source, matcher, counter } },
            );
            proof {
                assert(bytes@.subrange(pos as int, cur + 2 as int) =~= spec_term_encode(t));
            }
            Ok((t, cur + 2))
        } else if tag == 1 {
            // an application: identifier and argument count, then the
            // arguments; the symbol rebinds through the signature
            if blen - pos < 7 {
                return Err(Error::Term(String::from_str("truncated application")));
            }
            let rid = read_u32_be(bytes, pos + 1);
            let count = read_u16_be(bytes, pos + 5);
            let func = match signature.find_by_id(rid) {
                Some(f) => f,
                None => {
                    return Err(Error::Term(String::from_str("unknown symbol")));
                },
            };
            if !(func.resistant_id == rid) {
                return Err(Error::Term(String::from_str("unknown symbol")));
            }
            let ghost header = bytes@.subrange(pos as int, pos + 7 as int);
            let ghost fs = signature.functions@;
            let mut args: Vec<Term> = Vec::new();
            let mut cur: usize = pos + 7;
            let mut i: usize = 0;
            proof {
                assert(header =~= seq![1u8] + spec_u32_be(rid) + spec_u16_be(count));
                assert(models_of(args@) =~= Seq::<TermModel>::empty());
                match spec_decode_args(bytes@, pos + 7 as int, count as int, fs) {
                    Some(rest) => {
                        assert(Seq::<TermModel>::empty() + rest.0 =~= rest.0);
                    },
                    None => {},
                }
            }
            while i < count as usize
                invariant
                    i <= count,
                    pos + 7 <= cur <= bytes@.len(),
                    pos < pos + 7,
                    signature_wf(*signature),
                    fs == signature.functions@,
                    pos < bytes@.len(),
                    bytes@[pos as int] == 1,
                    bytes@.len() - pos >= 7,
                    rid == spec_read_u32(bytes@, pos + 1),
                    count == spec_read_u16(bytes@, pos + 5),
                    rid < fs.len(),
                    fs[rid as int] == func,
                    func.resistant_id == rid,
                    args@.len() == i,
                    header == bytes@.subrange(pos as int, pos + 7 as int),
                    header == seq![1u8] + spec_u32_be(rid) + spec_u16_be(count),
                    forall|j: int| 0 <= j < i ==> spec_encodable(#[trigger] args@[j]),
                    bytes@.subrange(pos + 7 as int, cur as int) == spec_encode_list(
                        args@.take(i as int),
                    ),
                    spec_decode_args(bytes@, pos + 7 as int, count as int, fs) == (
                    match spec_decode_args(bytes@, cur as int, count - i, fs) {
                        Some(rest) => Some(
                            (models_of(args@) + rest.0, rest.1),
                        ),
                        None => None::<(Seq<TermModel>, int)>,
                    }),
                    i < count ==> cur > pos,
                decreases count - i,
            {
                match Term::deserialize(bytes, cur, signature) {
                    Ok((arg, newpos)) => {
                        let ghost old_args = args@;
                        args.push(arg);
                        proof {
                            assert(args@.take(i + 1 as int).drop_last() =~= old_args.take(
                                i as int,
                            ));
                            assert(args@.take(i + 1 as int).last() == arg);
                            assert(bytes@.subrange(pos + 7 as int, newpos as int) =~= bytes@
                                .subrange(pos + 7 as int, cur as int) + bytes@.subrange(
                                cur as int,
                                newpos as int,
                            ));
                            assert(args@.drop_last() =~= old_args);
                            assert(args@.last() == arg);
                            assert(models_of(args@) == models_of(old_args).push(model_of(arg)));
                            match spec_decode_args(bytes@, newpos as int, count - i - 1, fs) {
                                Some(rest) => {
                                    assert(models_of(old_args) + (seq![model_of(arg)] + rest.0)
                                        =~= models_of(args@) + rest.0);
                                },
                                None => {},
                            }
                        }
                        cur = newpos;
                    },
                    Err(e) => {
                        proof {
                            assert(spec_decode_args(bytes@, cur as int, count - i, fs)
                                is None);
                            assert(spec_decode_term(bytes@, pos as int, fs) is None);
                        }
                        return Err(e);
                    },
                }
                i = i + 1;
            }
            let t = Term::Application(func, args);
            proof {
                assert(t->Application_1@.take(count as int) =~= t->Application_1@);
                assert(bytes@.subrange(pos as int, cur as int) =~= bytes@.subrange(
                    pos as int,
                    pos + 7 as int,
                ) + bytes@.subrange(pos + 7 as int, cur as int));
                assert(bytes@.subrange(pos as int, cur as int) =~= spec_term_encode(t));
                assert(spec_decode_args(bytes@, cur as int, 0, fs) == Some(
                    (Seq::<TermModel>::empty(), cur as int),
                ));
                assert(models_of(args@) + Seq::<TermModel>::empty() =~= models_of(args@));
                assert(spec_decode_args(bytes@, pos + 7 as int, count as int, fs) == Some(
                    (models_of(args@), cur as int),
                ));
                assert(model_of(t) == TermModel::Application(func, models_of(args@)));
            }
            Ok((t, cur))
        } else {
            Err(Error::Term(String::from_str("malformed term tag")))
        }
    }
}

/// Reads a big-endian 16-bit value.
fn read_u16_be(bytes: &Vec<u8>, pos: usize) -> (r: u16)
    requires
        pos + 2 <= bytes@.len(),
    ensures
        spec_u16_be(r) == bytes@.subrange(pos as int, pos + 2 as int),
        r == spec_read_u16(bytes@, pos as int),
{
    let blen: usize = bytes.len();
    let b0 = bytes[pos];
    let b1 = bytes[pos + 1];
    let v: u16 = ((b0 as u16) << 8) | (b1 as u16);
    proof {
        assert((v >> 8) as u8 == b0 && v as u8 == b1) by {
            assert(((((b0 as u16) << 8) | (b1 as u16)) >> 8) as u8 == b0) by (bit_vector);
            assert((((b0 as u16) << 8) | (b1 as u16)) as u8 == b1) by (bit_vector);
        }
        assert(spec_u16_be(v) =~= bytes@.subrange(pos as int, pos + 2 as int));
    }
    v
}

/// Reads a big-endian 32-bit value.
fn read_u32_be(bytes: &Vec<u8>, pos: usize) -> (r: u32)
    requires
        pos + 4 <= bytes@.len(),
    ensures
        spec_u32_be(r) == bytes@.subrange(pos as int, pos + 4 as int),
        r == spec_read_u32(bytes@, pos as int),
{
    let blen: usize = bytes.len();
    let b0 = bytes[pos];
    let b1 = bytes[pos + 1];
    let b2 = bytes[pos + 2];
    let b3 = bytes[pos + 3];
    let v: u32 = ((b0 as u32) << 24) | ((b1 as u32) << 16) | ((b2 as u32) << 8) | (b3 as u32);
    proof {
        assert(((((b0 as u32) << 24) | ((b1 as u32) << 16) | ((b2 as u32) << 8) | (b3 as u32))
            >> 24) as u8 == b0) by (bit_vector);
        assert(((((b0 as u32) << 24) | ((b1 as u32) << 16) | ((b2 as u32) << 8) | (b3 as u32))
            >> 16) as u8 == b1) by (bit_vector);
        assert(((((b0 as u32) << 24) | ((b1 as u32) << 16) | ((b2 as u32) << 8) | (b3 as u32))
            >> 8) as u8 == b2) by (bit_vector);
        assert((((b0 as u32) << 24) | ((b1 as u32) << 16) | ((b2 as u32) << 8) | (b3 as u32)) as u8
            == b3) by (bit_vector);
        assert(spec_u32_be(v) =~= bytes@.subrange(pos as int, pos + 4 as int));
    }
    v
}

/// Reads a big-endian 64-bit value.
fn read_u64_be(bytes: &Vec<u8>, pos: usize) -> (r: u64)
    requires
        pos + 8 <= bytes@.len(),
    ensures
        spec_u64_be(r) == bytes@.subrange(pos as int, pos + 8 as int),
        r == spec_read_u64(bytes@, pos as int),
{
    let blen: usize = bytes.len();
    let b0 = bytes[pos];
    let b1 = bytes[pos + 1];
    let b2 = bytes[pos + 2];
    let b3 = bytes[pos + 3];
    let b4 = bytes[pos + 4];
    let b5 = bytes[pos + 5];
    let b6 = bytes[pos + 6];
    let b7 = bytes[pos + 7];
    let v: u64 = ((b0 as u64) << 56) | ((b1 as u64) << 48) | ((b2 as u64) << 40) | ((b3 as u64)
        << 32) | ((b4 as u64) << 24) | ((b5 as u64) << 16) | ((b6 as u64) << 8) | (b7 as u64);
    proof {
        assert(((((b0 as u64) << 56) | ((b1 as u64) << 48) | ((b2 as u64) << 40) | ((b3 as u64)
            << 32) | ((b4 as u64) << 24) | ((b5 as u64) << 16) | ((b6 as u64) << 8) | (b7 as u64))
            >> 56) as u8 == b0) by (bit_vector);
        assert(((((b0 as u64) << 56) | ((b1 as u64) << 48) | ((b2 as u64) << 40) | ((b3 as u64)
            << 32) | ((b4 as u64) << 24) | ((b5 as u64) << 16) | ((b6 as u64) << 8) | (b7 as u64))
            >> 48) as u8 == b1) by (bit_vector);
        assert(((((b0 as u64) << 56) | ((b1 as u64) << 48) | ((b2 as u64) << 40) | ((b3 as u64)
            << 32) | ((b4 as u64) << 24) | ((b5 as u64) << 16) | ((b6 as u64) << 8) | (b7 as u64))
            >> 40) as u8 == b2) by (bit_vector);
        assert(((((b0 as u64) << 56) | ((b1 as u64) << 48) | ((b2 as u64) << 40) | ((b3 as u64)
            << 32) | ((b4 as u64) << 24) | ((b5 as u64) << 16) | ((b6 as u64) << 8) | (b7 as u64))
            >> 32) as u8 == b3) by (bit_vector);
        assert(((((b0 as u64) << 56) | ((b1 as u64) << 48) | ((b2 as u64) << 40) | ((b3 as u64)
            << 32) | ((b4 as u64) << 24) | ((b5 as u64) << 16) | ((b6 as u64) << 8) | (b7 as u64))
            >> 24) as u8 == b4) by (bit_vector);
        assert(((((b0 as u64) << 56) | ((b1 as u64) << 48) | ((b2 as u64) << 40) | ((b3 as u64)
            << 32) | ((b4 as u64) << 24) | ((b5 as u64) << 16) | ((b6 as u64) << 8) | (b7 as u64))
            >> 16) as u8 == b5) by (bit_vector);
        assert(((((b0 as u64) << 56) | ((b1 as u64) << 48) | ((b2 as u64) << 40) | ((b3 as u64)
            << 32) | ((b4 as u64) << 24) | ((b5 as u64) << 16) | ((b6 as u64) << 8) | (b7 as u64))
            >> 8) as u8 == b6) by (bit_vector);
        assert((((b0 as u64) << 56) | ((b1 as u64) << 48) | ((b2 as u64) << 40) | ((b3 as u64)
            << 32) | ((b4 as u64) << 24) | ((b5 as u64) << 16) | ((b6 as u64) << 8) | (b7 as u64))
            as u8 == b7) by (bit_vector);
        assert(spec_u64_be(v) =~= bytes@.subrange(pos as int, pos + 8 as int));
    }
    v
}

} // verus!
