//! Ready-made frames of a few serverbound packets, for a connection that
//! has not negotiated compression.

use crate::endian::{append_bytes, lemma_be_bytes_len, put_u32, put_u64};
use crate::protocol::{fields_bytes, frame_bytes, lemma_fields_bytes_step, payload_bytes};
use crate::values::{value_bytes, RawValue};
use crate::varint::write_var_i32;
use vstd::prelude::*;
use vstd::utf8::encode_utf8;

verus! {

/// The frame of a chat message: the length of what follows, the id
/// `0x01`, and the message behind its own length.
///
/// A message has a frame if what follows the leading length is no longer
/// than a 32-bit length can say, which holds of every message of at most
/// `i32::MAX - 6` bytes: see [`lemma_chat_has_frame`].
pub fn chat(message: &str) -> (r: Vec<u8>)
    requires
        payload_bytes(0x01, seq![RawValue::String(message@)]).len() <= i32::MAX,
    ensures
        r@ == frame_bytes(payload_bytes(0x01, seq![RawValue::String(message@)])),
{
    let bytes = message.as_bytes();
    proof {
        let fields = seq![RawValue::String(message@)];
        lemma_fields_bytes_step(fields, 0);
        assert(fields_bytes(fields) =~= value_bytes(fields[0]));
        assert(payload_bytes(0x01, fields).len() >= bytes@.len());
    }
    let mut buf: Vec<u8> = Vec::new();
    write_var_i32(&mut buf, 0x01);
    write_var_i32(&mut buf, bytes.len() as i32);
    append_bytes(&mut buf, bytes);
    assert(buf@ =~= payload_bytes(0x01, seq![RawValue::String(message@)]));
    framed(buf)
}

/// A message of at most `i32::MAX - 6` bytes has a frame.
pub proof fn lemma_chat_has_frame(message: Seq<char>)
    requires
        encode_utf8(message).len() + 6 <= i32::MAX,
    ensures
        payload_bytes(0x01, seq![RawValue::String(message)]).len() <= encode_utf8(message).len()
            + 6,
{
    let fields = seq![RawValue::String(message)];
    lemma_fields_bytes_step(fields, 0);
    assert(fields_bytes(fields) =~= value_bytes(fields[0]));
    crate::varint::lemma_var_i32_round_trip(0x01, Seq::empty());
    crate::varint::lemma_var_i32_round_trip(encode_utf8(message).len() as i32, Seq::empty());
}

/// The frame of an arm swing: the id `0x0A` alone.
pub fn animation() -> (r: Vec<u8>)
    ensures
        r@ == frame_bytes(payload_bytes(0x0A, Seq::empty())),
        r@ == seq![1u8, 0x0Au8],
{
    let mut buf: Vec<u8> = Vec::new();
    write_var_i32(&mut buf, 1);
    write_var_i32(&mut buf, 0x0A);
    proof {
        reveal_with_fuel(crate::varint::groups, 2);
        assert(fields_bytes(Seq::<RawValue>::empty()) =~= Seq::<u8>::empty());
        assert(payload_bytes(0x0A, Seq::empty()) =~= seq![0x0Au8]);
        assert(buf@ =~= seq![1u8, 0x0Au8]);
        assert(buf@ =~= frame_bytes(payload_bytes(0x0A, Seq::empty())));
    }
    buf
}

/// Puts the length of `payload` in front of it.
fn framed(payload: Vec<u8>) -> (r: Vec<u8>)
    requires
        payload@.len() <= i32::MAX,
    ensures
        r@ == frame_bytes(payload@),
{
    let mut frame: Vec<u8> = Vec::new();
    write_var_i32(&mut frame, payload.len() as i32);
    append_bytes(&mut frame, payload.as_slice());
    frame
}

/// Appends one byte for a flag: one if it is set, zero if not.
fn put_flag(buf: &mut Vec<u8>, flag: bool)
    ensures
        final(buf)@ == old(buf)@ + value_bytes(RawValue::Boolean(flag)),
{
    buf.push(
        if flag {
            1
        } else {
            0
        },
    );
    assert(buf@ =~= old(buf)@ + value_bytes(RawValue::Boolean(flag)));
}

/// The frame of a position and view update, id `0x06`. The coordinates
/// and angles are given by the bit patterns of their IEEE 754 numbers.
pub fn pos_and_looking(x: u64, y: u64, z: u64, yaw: u32, pitch: u32, onground: bool) -> (r: Vec<
    u8,
>)
    ensures
        r@ == frame_bytes(
            payload_bytes(
                0x06,
                seq![
                    RawValue::Double(x),
                    RawValue::Double(y),
                    RawValue::Double(z),
                    RawValue::Float(yaw),
                    RawValue::Float(pitch),
                    RawValue::Boolean(onground),
                ],
            ),
        ),
{
    let ghost fields = seq![
        RawValue::Double(x),
        RawValue::Double(y),
        RawValue::Double(z),
        RawValue::Float(yaw),
        RawValue::Float(pitch),
        RawValue::Boolean(onground),
    ];
    let mut buf: Vec<u8> = Vec::new();
    write_var_i32(&mut buf, 0x06);
    put_u64(&mut buf, x);
    put_u64(&mut buf, y);
    put_u64(&mut buf, z);
    put_u32(&mut buf, yaw);
    put_u32(&mut buf, pitch);
    put_flag(&mut buf, onground);
    proof {
        lemma_fields_bytes_step(fields, 0);
        lemma_fields_bytes_step(fields, 1);
        lemma_fields_bytes_step(fields, 2);
        lemma_fields_bytes_step(fields, 3);
        lemma_fields_bytes_step(fields, 4);
        lemma_fields_bytes_step(fields, 5);
        assert(buf@ =~= payload_bytes(0x06, fields));
        lemma_be_bytes_len(x as nat, 8);
        lemma_be_bytes_len(y as nat, 8);
        lemma_be_bytes_len(z as nat, 8);
        lemma_be_bytes_len(yaw as nat, 4);
        lemma_be_bytes_len(pitch as nat, 4);
    }
    framed(buf)
}

/// The frame of a position update, id `0x04`. The coordinates are given by
/// the bit patterns of their IEEE 754 numbers.
pub fn pos(x: u64, y: u64, z: u64, onground: bool) -> (r: Vec<u8>)
    ensures
        r@ == frame_bytes(
            payload_bytes(
                0x04,
                seq![
                    RawValue::Double(x),
                    RawValue::Double(y),
                    RawValue::Double(z),
                    RawValue::Boolean(onground),
                ],
            ),
        ),
{
    let ghost fields = seq![
        RawValue::Double(x),
        RawValue::Double(y),
        RawValue::Double(z),
        RawValue::Boolean(onground),
    ];
    let mut buf: Vec<u8> = Vec::new();
    write_var_i32(&mut buf, 0x04);
    put_u64(&mut buf, x);
    put_u64(&mut buf, y);
    put_u64(&mut buf, z);
    put_flag(&mut buf, onground);
    proof {
        lemma_fields_bytes_step(fields, 0);
        lemma_fields_bytes_step(fields, 1);
        lemma_fields_bytes_step(fields, 2);
        lemma_fields_bytes_step(fields, 3);
        assert(buf@ =~= payload_bytes(0x04, fields));
        lemma_be_bytes_len(x as nat, 8);
        lemma_be_bytes_len(y as nat, 8);
        lemma_be_bytes_len(z as nat, 8);
    }
    framed(buf)
}

/// The frame of an on-ground update, id `0x03`.
pub fn player(onground: bool) -> (r: Vec<u8>)
    ensures
        r@ == frame_bytes(payload_bytes(0x03, seq![RawValue::Boolean(onground)])),
        r@ == seq![2u8, 3u8, if onground { 1u8 } else { 0u8 }],
{
    let ghost fields = seq![RawValue::Boolean(onground)];
    let mut buf: Vec<u8> = Vec::new();
    write_var_i32(&mut buf, 0x03);
    put_flag(&mut buf, onground);
    proof {
        reveal_with_fuel(crate::varint::groups, 2);
        lemma_fields_bytes_step(fields, 0);
        assert(buf@ =~= payload_bytes(0x03, fields));
        assert(buf@ =~= seq![3u8, if onground { 1u8 } else { 0u8 }]);
    }
    let frame = framed(buf);
    assert(frame@ =~= seq![2u8, 3u8, if onground { 1u8 } else { 0u8 }]);
    frame
}

} // verus!
