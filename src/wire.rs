use vstd::prelude::*;
use vstd::arithmetic::div_mod::{lemma_div_denominator, lemma_fundamental_div_mod};
use crate::checksum::{checksum_of, xor_fold};
use crate::decode::{decode, le32, MessageBody};
use crate::frame::{be16, header_of, length_fits, ChecksumScope, FrameHeader, LdError, MessageType, BODY_CAPACITY};
use crate::stream::{frame_at, message_at};

verus! {

/// The two big-endian bytes of `v`.
pub open spec fn be16_bytes(v: u16) -> Seq<u8> {
    seq![(v / 256) as u8, (v % 256) as u8]
}

/// The four little-endian bytes of `w`.
pub open spec fn le32_bytes(w: u32) -> Seq<u8> {
    seq![(w % 256) as u8, ((w / 256) % 256) as u8, ((w / 65536) % 256) as u8, (w / 16777216) as u8]
}

/// The message type that carries a message.
pub open spec fn type_of(m: MessageBody) -> MessageType {
    match m {
        MessageBody::Phase(_) => MessageType::Phase,
        MessageBody::Respiratory(_) => MessageType::Respiratory,
        MessageBody::Heartbeat(_) => MessageType::Heartbeat,
        MessageBody::Distance(_) => MessageType::Distance,
    }
}

/// The body a sender writes for a message: its words little endian; a
/// present distance after the flag word `1`, an absent one as a lone word.
pub open spec fn encode_body(m: MessageBody) -> Seq<u8> {
    match m {
        MessageBody::Phase(a) => le32_bytes(a[0]) + le32_bytes(a[1]) + le32_bytes(a[2]),
        MessageBody::Respiratory(r) => le32_bytes(r),
        MessageBody::Heartbeat(r) => le32_bytes(r),
        MessageBody::Distance(Some(v)) => le32_bytes(1) + le32_bytes(v),
        MessageBody::Distance(None) => le32_bytes(0),
    }
}

/// The bytes of a frame with sequence id `id`, header checksum byte `hc`,
/// message type `ty` and body `body`, closed by the body's checksum.
pub open spec fn frame_bytes(id: u16, hc: u8, ty: MessageType, body: Seq<u8>) -> Seq<u8> {
    seq![1u8] + be16_bytes(id) + be16_bytes(body.len() as u16) + be16_bytes(ty.code_of()) + seq![hc]
        + body + seq![checksum_of(body)]
}

/// The frame a sender writes for message `m`.
pub open spec fn encode_frame(id: u16, hc: u8, m: MessageBody) -> Seq<u8> {
    frame_bytes(id, hc, type_of(m), encode_body(m))
}

proof fn lemma_be16_bytes(v: u16)
    ensures
        be16(be16_bytes(v)[0], be16_bytes(v)[1]) == v,
{
    lemma_fundamental_div_mod(v as int, 256);
}

proof fn lemma_le32_bytes(w: u32)
    ensures
        le32(le32_bytes(w), 0) == w,
{
    let x = w as int;
    lemma_fundamental_div_mod(x, 256);
    lemma_fundamental_div_mod(x / 256, 256);
    lemma_fundamental_div_mod(x / 65536, 256);
    lemma_div_denominator(x, 256, 256);
    lemma_div_denominator(x, 65536, 256);
    assert(x / 16777216 < 256);
}

/// The header a sender writes is read back as such.
proof fn lemma_header_bytes<E>(id: u16, hc: u8, ty: MessageType, body: Seq<u8>)
    requires
        body.len() == ty.body_len(),
    ensures
        ({
            let f = frame_bytes(id, hc, ty, body);
            &&& f.len() == 9 + body.len()
            &&& f[0] == 1
            &&& header_of::<E>(f.subrange(1, 8)) == Ok::<FrameHeader, LdError<E>>(
                FrameHeader { id, length: body.len() as u16, ty },
            )
            &&& f.subrange(8, 8 + body.len() as int) == body
            &&& f[8 + body.len() as int] == checksum_of(body)
        }),
{
    let f = frame_bytes(id, hc, ty, body);
    let h = f.subrange(1, 8);
    lemma_be16_bytes(id);
    lemma_be16_bytes(body.len() as u16);
    lemma_be16_bytes(ty.code_of());
    assert(h[0] == be16_bytes(id)[0] && h[1] == be16_bytes(id)[1]);
    assert(h[2] == be16_bytes(body.len() as u16)[0] && h[3] == be16_bytes(body.len() as u16)[1]);
    assert(h[4] == be16_bytes(ty.code_of())[0] && h[5] == be16_bytes(ty.code_of())[1]);
    assert(f.subrange(8, 8 + body.len() as int) =~= body);
}

/// Round trip: a frame that a sender writes for a message is read back as
/// that message, whatever follows it, taking exactly the frame's bytes. (A
/// distance without a value has a four-byte body, which the Distance type's
/// length refuses.)
pub proof fn lemma_round_trip<E>(id: u16, hc: u8, m: MessageBody, rest: Seq<u8>)
    requires
        m != MessageBody::Distance(None),
    ensures
        message_at::<E>(encode_frame(id, hc, m) + rest) == (
            Ok::<MessageBody, LdError<E>>(m),
            encode_frame(id, hc, m).len() as int,
        ),
{
    let body = encode_body(m);
    let ty = type_of(m);
    let f = encode_frame(id, hc, m);
    let s = f + rest;
    lemma_header_bytes::<E>(id, hc, ty, body);
    assert(s.subrange(1, 8) =~= f.subrange(1, 8));
    assert(s.subrange(8, 8 + body.len() as int) =~= f.subrange(8, 8 + body.len() as int));
    match m {
        MessageBody::Phase(a) => {
            lemma_le32_bytes(a[0]);
            lemma_le32_bytes(a[1]);
            lemma_le32_bytes(a[2]);
            assert(le32(body, 4) == le32(le32_bytes(a[1]), 0));
            assert(le32(body, 8) == le32(le32_bytes(a[2]), 0));
            assert([le32(body, 0), le32(body, 4), le32(body, 8)] =~= a);
        },
        MessageBody::Respiratory(r) => {
            lemma_le32_bytes(r);
        },
        MessageBody::Heartbeat(r) => {
            lemma_le32_bytes(r);
        },
        MessageBody::Distance(Some(v)) => {
            lemma_le32_bytes(1);
            lemma_le32_bytes(v);
            assert(le32(body, 4) == le32(le32_bytes(v), 0));
        },
        MessageBody::Distance(None) => {},
    }
}

proof fn lemma_xor_fold_update(b: Seq<u8>, i: int, x: u8)
    requires
        0 <= i < b.len(),
    ensures
        xor_fold(b.update(i, x)) == (xor_fold(b) ^ b[i] ^ x) as u8,
    decreases b.len(),
{
    let c = b.update(i, x);
    let d = b.drop_last();
    let p = xor_fold(d);
    let y = b[i];
    let l = b.last();
    if i == b.len() - 1 {
        assert(c.drop_last() =~= d);
        assert((p ^ x) as u8 == (((p ^ y) as u8) ^ y ^ x) as u8) by (bit_vector);
    } else {
        assert(c.drop_last() =~= d.update(i, x));
        lemma_xor_fold_update(d, i, x);
        assert(((p ^ y ^ x) as u8 ^ l) as u8 == (((p ^ l) as u8) ^ y ^ x) as u8) by (bit_vector);
    }
}

/// Changing one body byte of a frame without changing the checksum byte that
/// follows makes the frame fail its checksum, reporting the checksum of the
/// changed body against the byte on the wire.
pub proof fn lemma_changed_body_byte<E>(id: u16, hc: u8, ty: MessageType, body: Seq<u8>, i: int, x: u8, rest: Seq<u8>)
    requires
        body.len() == ty.body_len(),
        0 <= i < body.len(),
        x != body[i],
    ensures
        ({
            let f = frame_bytes(id, hc, ty, body);
            let changed = body.update(i, x);
            &&& checksum_of(changed) != checksum_of(body)
            &&& frame_at::<E>(f.update(8 + i, x) + rest) == (
                Err::<(FrameHeader, Seq<u8>), LdError<E>>(LdError::InvalidChecksum {
                    ty: ChecksumScope::Body,
                    got: checksum_of(changed),
                    expected: checksum_of(body),
                }),
                f.len() as int,
            )
        }),
{
    let f = frame_bytes(id, hc, ty, body);
    let changed = body.update(i, x);
    let s = f.update(8 + i, x) + rest;
    lemma_header_bytes::<E>(id, hc, ty, body);
    lemma_xor_fold_update(body, i, x);
    let a = xor_fold(body);
    let y = body[i];
    assert(x != y ==> (!((a ^ y ^ x) as u8)) as u8 != (!a) as u8) by (bit_vector);
    assert(s.subrange(1, 8) =~= f.subrange(1, 8));
    assert(s.subrange(8, 8 + body.len() as int) =~= changed);
    assert(length_fits(FrameHeader { id, length: body.len() as u16, ty }, BODY_CAPACITY as int));
}

} // verus!
