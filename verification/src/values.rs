//! The primitive values of the wire format and how each is written and
//! read.

use crate::cursor::{ByteCursor, IoErrorKind};
use crate::endian::{
    lemma_be_bytes_len, lemma_be_value_of_bytes, lemma_signed_round_trip, pow256,
    append_bytes, be_bytes, be_value, get_i128, get_i16, get_i32, get_i64, get_u16, get_u32,
    get_u64, put_i128, put_i16, put_i32, put_i64, put_u16, put_u32, put_u64, to_signed,
    to_unsigned,
};
use crate::varint::{
    lemma_var_i32_round_trip, lemma_var_i64_round_trip,
    parse_var_i32, parse_var_i64, read_var_i32, read_var_i64, var_i32_bytes, var_i64_bytes,
    write_var_i32, write_var_i64,
};
use vstd::prelude::*;
use crate::text::{lossy_string, text_of};
use vstd::utf8::encode_utf8;

verus! {

/// The kinds of primitive value.
#[derive(Copy, Clone, Debug, PartialEq, Eq, Structural)]
pub enum RawPacketValueType {
    Byte,
    UByte,
    Short,
    UShort,
    Int,
    Long,
    VarInt,
    VarLong,
    Float,
    Double,
    Int128,
    String,
    Position,
    Boolean,
    ByteArray,
}

/// A primitive value. `Float` and `Double` hold the IEEE 754 bit pattern
/// of the number, which is what travels on the wire.
#[derive(Clone, Debug, PartialEq, Eq)]
pub enum RawPacketValue {
    Byte(i8),
    UByte(u8),
    Short(i16),
    UShort(u16),
    Int(i32),
    Long(i64),
    VarInt(i32),
    VarLong(i64),
    Float(u32),
    Double(u64),
    Int128(i128),
    String(String),
    Position(i64, i64, i64),
    Boolean(bool),
    ByteArray(Vec<u8>),
}

/// A primitive value as mathematics sees it: text is a sequence of
/// characters, a byte array a sequence of bytes.
pub enum RawValue {
    Byte(i8),
    UByte(u8),
    Short(i16),
    UShort(u16),
    Int(i32),
    Long(i64),
    VarInt(i32),
    VarLong(i64),
    Float(u32),
    Double(u64),
    Int128(i128),
    String(Seq<char>),
    Position(i64, i64, i64),
    Boolean(bool),
    ByteArray(Seq<u8>),
}

impl View for RawPacketValue {
    type V = RawValue;

    open spec fn view(&self) -> RawValue {
        match self {
            RawPacketValue::Byte(v) => RawValue::Byte(*v),
            RawPacketValue::UByte(v) => RawValue::UByte(*v),
            RawPacketValue::Short(v) => RawValue::Short(*v),
            RawPacketValue::UShort(v) => RawValue::UShort(*v),
            RawPacketValue::Int(v) => RawValue::Int(*v),
            RawPacketValue::Long(v) => RawValue::Long(*v),
            RawPacketValue::VarInt(v) => RawValue::VarInt(*v),
            RawPacketValue::VarLong(v) => RawValue::VarLong(*v),
            RawPacketValue::Float(v) => RawValue::Float(*v),
            RawPacketValue::Double(v) => RawValue::Double(*v),
            RawPacketValue::Int128(v) => RawValue::Int128(*v),
            RawPacketValue::String(v) => RawValue::String(v@),
            RawPacketValue::Position(x, y, z) => RawValue::Position(*x, *y, *z),
            RawPacketValue::Boolean(v) => RawValue::Boolean(*v),
            RawPacketValue::ByteArray(v) => RawValue::ByteArray(v@),
        }
    }
}

impl RawValue {
    /// The kind of this value.
    pub open spec fn kind(self) -> RawPacketValueType {
        match self {
            RawValue::Byte(_) => RawPacketValueType::Byte,
            RawValue::UByte(_) => RawPacketValueType::UByte,
            RawValue::Short(_) => RawPacketValueType::Short,
            RawValue::UShort(_) => RawPacketValueType::UShort,
            RawValue::Int(_) => RawPacketValueType::Int,
            RawValue::Long(_) => RawPacketValueType::Long,
            RawValue::VarInt(_) => RawPacketValueType::VarInt,
            RawValue::VarLong(_) => RawPacketValueType::VarLong,
            RawValue::Float(_) => RawPacketValueType::Float,
            RawValue::Double(_) => RawPacketValueType::Double,
            RawValue::Int128(_) => RawPacketValueType::Int128,
            RawValue::String(_) => RawPacketValueType::String,
            RawValue::Position(_, _, _) => RawPacketValueType::Position,
            RawValue::Boolean(_) => RawPacketValueType::Boolean,
            RawValue::ByteArray(_) => RawPacketValueType::ByteArray,
        }
    }

    /// Whether the value has a wire form: a text or a byte array must be
    /// short enough for its length prefix.
    pub open spec fn encodable(self) -> bool {
        match self {
            RawValue::String(s) => encode_utf8(s).len() <= i32::MAX,
            RawValue::ByteArray(b) => b.len() <= i32::MAX,
            _ => true,
        }
    }

    /// Whether decoding gives the value back: it has a wire form, and the
    /// components of a position fit their 26, 12 and 26 bits.
    pub open spec fn faithful(self) -> bool {
        match self {
            RawValue::Position(x, y, z) => position_in_range(x, y, z),
            _ => self.encodable(),
        }
    }
}

pub const MODULUS_8: u16 = 0x100;

pub const MODULUS_16: u32 = 0x1_0000;

pub const MODULUS_32: u64 = 0x1_0000_0000;

pub const MODULUS_64: u128 = 0x1_0000_0000_0000_0000;

/// `2^128`.
pub open spec fn modulus_128() -> int {
    0x1_0000_0000_0000_0000_0000_0000_0000_0000int
}

/// Three coordinates in one 64-bit word: 26 bits of `x` from bit 38 up,
/// 12 bits of `y` from bit 26 up, 26 bits of `z` from bit 0 up.
pub open spec fn pack_position(x: i64, y: i64, z: i64) -> i64 {
    ((x & 0x3FFFFFF) << 38) | ((y & 0xFFF) << 26) | (z & 0x3FFFFFF)
}

/// The three coordinates in a packed word, each extended by its sign.
pub open spec fn unpack_position(word: i64) -> (i64, i64, i64) {
    (word >> 38, (word << 26) >> 52, (word << 38) >> 38)
}

/// Whether three coordinates fit the bits that a packed word has for them.
pub open spec fn position_in_range(x: i64, y: i64, z: i64) -> bool {
    &&& -0x200_0000 <= x < 0x200_0000
    &&& -0x800 <= y < 0x800
    &&& -0x200_0000 <= z < 0x200_0000
}

/// The wire form of a value.
pub open spec fn value_bytes(v: RawValue) -> Seq<u8> {
    match v {
        RawValue::Byte(x) => seq![to_unsigned(x as int, MODULUS_8 as int) as u8],
        RawValue::UByte(x) => seq![x],
        RawValue::Short(x) => be_bytes(to_unsigned(x as int, MODULUS_16 as int) as nat, 2),
        RawValue::UShort(x) => be_bytes(x as nat, 2),
        RawValue::Int(x) => be_bytes(to_unsigned(x as int, MODULUS_32 as int) as nat, 4),
        RawValue::Long(x) => be_bytes(to_unsigned(x as int, MODULUS_64 as int) as nat, 8),
        RawValue::VarInt(x) => var_i32_bytes(x),
        RawValue::VarLong(x) => var_i64_bytes(x),
        RawValue::Float(bits) => be_bytes(bits as nat, 4),
        RawValue::Double(bits) => be_bytes(bits as nat, 8),
        RawValue::Int128(x) => be_bytes(to_unsigned(x as int, modulus_128()) as nat, 16),
        RawValue::String(s) => var_i32_bytes(encode_utf8(s).len() as i32) + encode_utf8(s),
        RawValue::Position(x, y, z) => be_bytes(
            to_unsigned(pack_position(x, y, z) as int, MODULUS_64 as int) as nat,
            8,
        ),
        RawValue::Boolean(b) => seq![if b { 1u8 } else { 0u8 }],
        RawValue::ByteArray(b) => var_i32_bytes(b.len() as i32) + b,
    }
}

/// Why a variable-length integer of at most `limit` bytes could not be
/// read from `bytes`: it is too long if `limit` bytes were there, else the
/// bytes ran out.
pub open spec fn var_failure(bytes: Seq<u8>, limit: nat) -> IoErrorKind {
    if bytes.len() >= limit {
        IoErrorKind::InvalidData
    } else {
        IoErrorKind::UnexpectedEof
    }
}

/// The signed number of `width` bytes at the front of `bytes`.
pub open spec fn signed_at(bytes: Seq<u8>, width: nat, modulus: int) -> int {
    to_signed(be_value(bytes.take(width as int)) as int, modulus)
}

/// A run of bytes behind a length prefix: where the prefix ends, and the
/// run, if the prefix is a variable-length integer that is not negative and
/// the run is all there.
pub open spec fn parse_prefixed(bytes: Seq<u8>) -> Result<(Seq<u8>, nat), IoErrorKind> {
    match parse_var_i32(bytes) {
        None => Err(var_failure(bytes, 5)),
        Some((len, n)) => if len < 0 {
            Err(IoErrorKind::InvalidData)
        } else if bytes.len() < n + len {
            Err(IoErrorKind::UnexpectedEof)
        } else {
            Ok((bytes.subrange(n as int, n + len), (n + len) as nat))
        },
    }
}

/// What the front of `bytes` holds as a value of kind `ty`, and how many
/// bytes the value takes; or why there is none.
pub open spec fn parse_value(ty: RawPacketValueType, bytes: Seq<u8>) -> Result<
    (RawValue, nat),
    IoErrorKind,
> {
    match ty {
        RawPacketValueType::Byte => if bytes.len() < 1 {
            Err(IoErrorKind::UnexpectedEof)
        } else {
            Ok((RawValue::Byte(to_signed(bytes[0] as int, MODULUS_8 as int) as i8), 1))
        },
        RawPacketValueType::UByte => if bytes.len() < 1 {
            Err(IoErrorKind::UnexpectedEof)
        } else {
            Ok((RawValue::UByte(bytes[0]), 1))
        },
        RawPacketValueType::Short => if bytes.len() < 2 {
            Err(IoErrorKind::UnexpectedEof)
        } else {
            Ok((RawValue::Short(signed_at(bytes, 2, MODULUS_16 as int) as i16), 2))
        },
        RawPacketValueType::UShort => if bytes.len() < 2 {
            Err(IoErrorKind::UnexpectedEof)
        } else {
            Ok((RawValue::UShort(be_value(bytes.take(2)) as u16), 2))
        },
        RawPacketValueType::Int => if bytes.len() < 4 {
            Err(IoErrorKind::UnexpectedEof)
        } else {
            Ok((RawValue::Int(signed_at(bytes, 4, MODULUS_32 as int) as i32), 4))
        },
        RawPacketValueType::Long => if bytes.len() < 8 {
            Err(IoErrorKind::UnexpectedEof)
        } else {
            Ok((RawValue::Long(signed_at(bytes, 8, MODULUS_64 as int) as i64), 8))
        },
        RawPacketValueType::VarInt => match parse_var_i32(bytes) {
            Some((v, n)) => Ok((RawValue::VarInt(v), n)),
            None => Err(var_failure(bytes, 5)),
        },
        RawPacketValueType::VarLong => match parse_var_i64(bytes) {
            Some((v, n)) => Ok((RawValue::VarLong(v), n)),
            None => Err(var_failure(bytes, 10)),
        },
        RawPacketValueType::Float => if bytes.len() < 4 {
            Err(IoErrorKind::UnexpectedEof)
        } else {
            Ok((RawValue::Float(be_value(bytes.take(4)) as u32), 4))
        },
        RawPacketValueType::Double => if bytes.len() < 8 {
            Err(IoErrorKind::UnexpectedEof)
        } else {
            Ok((RawValue::Double(be_value(bytes.take(8)) as u64), 8))
        },
        RawPacketValueType::Int128 => if bytes.len() < 16 {
            Err(IoErrorKind::UnexpectedEof)
        } else {
            Ok((RawValue::Int128(signed_at(bytes, 16, modulus_128()) as i128), 16))
        },
        RawPacketValueType::String => match parse_prefixed(bytes) {
            Ok((run, n)) => Ok((RawValue::String(text_of(run)), n)),
            Err(e) => Err(e),
        },
        RawPacketValueType::Position => if bytes.len() < 8 {
            Err(IoErrorKind::UnexpectedEof)
        } else {
            let (x, y, z) = unpack_position(signed_at(bytes, 8, MODULUS_64 as int) as i64);
            Ok((RawValue::Position(x, y, z), 8))
        },
        RawPacketValueType::Boolean => if bytes.len() < 1 {
            Err(IoErrorKind::UnexpectedEof)
        } else {
            Ok((RawValue::Boolean(bytes[0] != 0), 1))
        },
        RawPacketValueType::ByteArray => match parse_prefixed(bytes) {
            Ok((run, n)) => Ok((RawValue::ByteArray(run), n)),
            Err(e) => Err(e),
        },
    }
}

/// How a read that was expected to give `parsed` relates the cursor
/// before and after it to its result: on success the value, with the
/// position moved over its bytes; on failure the reason, with the cursor
/// where it was.
pub open spec fn read_as_parsed(
    parsed: Result<(RawValue, nat), IoErrorKind>,
    before: ByteCursor,
    after: ByteCursor,
    r: Result<RawPacketValue, IoErrorKind>,
) -> bool {
    &&& after.data == before.data
    &&& match parsed {
        Ok((v, n)) => {
            &&& r matches Ok(got)
            &&& got@ == v
            &&& n <= before.remaining().len()
            &&& after.position == before.position + n
            &&& after.remaining() == before.remaining().skip(n as int)
        },
        Err(e) => {
            &&& r matches Err(got)
            &&& got == e
            &&& after.position == before.position
        },
    }
}

/// Reads the run of bytes behind a length prefix.
pub fn read_prefixed(buf: &mut ByteCursor) -> (r: Result<Vec<u8>, IoErrorKind>)
    ensures
        final(buf).data == old(buf).data,
        match parse_prefixed(old(buf).remaining()) {
            Ok((run, n)) => {
                &&& r matches Ok(got)
                &&& got@ == run
                &&& n <= old(buf).remaining().len()
                &&& final(buf).position == old(buf).position + n
                &&& final(buf).remaining() == old(buf).remaining().skip(n as int)
            },
            Err(e) => {
                &&& r matches Err(got)
                &&& got == e
                &&& final(buf).position == old(buf).position
            },
        },
{
    let ghost all = buf.remaining();
    let avail = buf.remaining_len();
    match read_var_i32(buf.rest()) {
        Err(_) => Err(
            if avail >= 5 {
                IoErrorKind::InvalidData
            } else {
                IoErrorKind::UnexpectedEof
            },
        ),
        Ok((len, n)) => {
            if len < 0 {
                return Err(IoErrorKind::InvalidData);
            }
            let len = len as usize;
            if avail - n < len {
                return Err(IoErrorKind::UnexpectedEof);
            }
            buf.advance(n);
            match buf.take(len) {
                Ok(run) => {
                    assert(run@ =~= all.subrange(n as int, n + len));
                    assert(buf.remaining() =~= all.skip(n + len));
                    Ok(run)
                },
                Err(e) => Err(e),
            }
        },
    }
}

impl RawPacketValueType {
    /// Reads one value of this kind at the cursor.
    pub fn from_buf(&self, buf: &mut ByteCursor) -> (r: Result<RawPacketValue, IoErrorKind>)
        ensures
            read_as_parsed(parse_value(*self, old(buf).remaining()), *old(buf), *final(buf), r),
    {
        let avail = buf.remaining_len();
        let ghost all = buf.remaining();
        match self {
            RawPacketValueType::Byte => {
                if avail < 1 {
                    return Err(IoErrorKind::UnexpectedEof);
                }
                let b = buf.rest()[0];
                assert(b as i8 == to_signed(b as int, 0x100)) by (bit_vector);
                buf.advance(1);
                Ok(RawPacketValue::Byte(b as i8))
            },
            RawPacketValueType::UByte => {
                if avail < 1 {
                    return Err(IoErrorKind::UnexpectedEof);
                }
                let b = buf.rest()[0];
                buf.advance(1);
                Ok(RawPacketValue::UByte(b))
            },
            RawPacketValueType::Short => {
                if avail < 2 {
                    return Err(IoErrorKind::UnexpectedEof);
                }
                let v = get_i16(buf.rest());
                buf.advance(2);
                Ok(RawPacketValue::Short(v))
            },
            RawPacketValueType::UShort => {
                if avail < 2 {
                    return Err(IoErrorKind::UnexpectedEof);
                }
                let v = get_u16(buf.rest());
                buf.advance(2);
                Ok(RawPacketValue::UShort(v))
            },
            RawPacketValueType::Int => {
                if avail < 4 {
                    return Err(IoErrorKind::UnexpectedEof);
                }
                let v = get_i32(buf.rest());
                buf.advance(4);
                Ok(RawPacketValue::Int(v))
            },
            RawPacketValueType::Long => {
                if avail < 8 {
                    return Err(IoErrorKind::UnexpectedEof);
                }
                let v = get_i64(buf.rest());
                buf.advance(8);
                Ok(RawPacketValue::Long(v))
            },
            RawPacketValueType::VarInt => match read_var_i32(buf.rest()) {
                Ok((v, n)) => {
                    buf.advance(n);
                    Ok(RawPacketValue::VarInt(v))
                },
                Err(_) => Err(
                    if avail >= 5 {
                        IoErrorKind::InvalidData
                    } else {
                        IoErrorKind::UnexpectedEof
                    },
                ),
            },
            RawPacketValueType::VarLong => match read_var_i64(buf.rest()) {
                Ok((v, n)) => {
                    buf.advance(n);
                    Ok(RawPacketValue::VarLong(v))
                },
                Err(_) => Err(
                    if avail >= 10 {
                        IoErrorKind::InvalidData
                    } else {
                        IoErrorKind::UnexpectedEof
                    },
                ),
            },
            RawPacketValueType::Float => {
                if avail < 4 {
                    return Err(IoErrorKind::UnexpectedEof);
                }
                let v = get_u32(buf.rest());
                buf.advance(4);
                Ok(RawPacketValue::Float(v))
            },
            RawPacketValueType::Double => {
                if avail < 8 {
                    return Err(IoErrorKind::UnexpectedEof);
                }
                let v = get_u64(buf.rest());
                buf.advance(8);
                Ok(RawPacketValue::Double(v))
            },
            RawPacketValueType::Int128 => {
                if avail < 16 {
                    return Err(IoErrorKind::UnexpectedEof);
                }
                let v = get_i128(buf.rest());
                buf.advance(16);
                Ok(RawPacketValue::Int128(v))
            },
            RawPacketValueType::String => match read_prefixed(buf) {
                Ok(run) => Ok(RawPacketValue::String(lossy_string(run.as_slice()))),
                Err(e) => Err(e),
            },
            RawPacketValueType::Position => {
                if avail < 8 {
                    return Err(IoErrorKind::UnexpectedEof);
                }
                let word = get_i64(buf.rest());
                buf.advance(8);
                Ok(RawPacketValue::Position(word >> 38, (word << 26) >> 52, (word << 38) >> 38))
            },
            RawPacketValueType::Boolean => {
                if avail < 1 {
                    return Err(IoErrorKind::UnexpectedEof);
                }
                let b = buf.rest()[0];
                buf.advance(1);
                Ok(RawPacketValue::Boolean(b != 0))
            },
            RawPacketValueType::ByteArray => match read_prefixed(buf) {
                Ok(run) => Ok(RawPacketValue::ByteArray(run)),
                Err(e) => Err(e),
            },
        }
    }
}

/// Appends a length prefix and the run of bytes behind it, or fails and
/// leaves the buffer alone where the run is too long for the prefix.
pub fn write_prefixed(buf: &mut Vec<u8>, run: &[u8]) -> (r: Result<(), IoErrorKind>)
    ensures
        run@.len() <= i32::MAX ==> r is Ok && final(buf)@ == old(buf)@ + (var_i32_bytes(
            run@.len() as i32,
        ) + run@),
        run@.len() > i32::MAX ==> r == Err::<(), IoErrorKind>(IoErrorKind::InvalidInput)
            && final(buf)@ == old(buf)@,
{
    if run.len() > i32::MAX as usize {
        return Err(IoErrorKind::InvalidInput);
    }
    write_var_i32(buf, run.len() as i32);
    append_bytes(buf, run);
    assert(buf@ =~= old(buf)@ + (var_i32_bytes(run@.len() as i32) + run@));
    Ok(())
}

impl RawPacketValue {
    /// Appends the wire form of this value, or fails and leaves the buffer
    /// alone where the value has none.
    pub fn serialize(&self, buf: &mut Vec<u8>) -> (r: Result<(), IoErrorKind>)
        ensures
            self@.encodable() ==> r is Ok && final(buf)@ == old(buf)@ + value_bytes(self@),
            !self@.encodable() ==> r == Err::<(), IoErrorKind>(IoErrorKind::InvalidInput)
                && final(buf)@ == old(buf)@,
    {
        match self {
            RawPacketValue::Byte(v) => {
                let v = *v;
                assert(v as u8 == to_unsigned(v as int, 0x100)) by (bit_vector);
                buf.push(v as u8);
                assert(buf@ =~= old(buf)@ + value_bytes(self@));
            },
            RawPacketValue::UByte(v) => {
                buf.push(*v);
                assert(buf@ =~= old(buf)@ + value_bytes(self@));
            },
            RawPacketValue::Short(v) => put_i16(buf, *v),
            RawPacketValue::UShort(v) => put_u16(buf, *v),
            RawPacketValue::Int(v) => put_i32(buf, *v),
            RawPacketValue::Long(v) => put_i64(buf, *v),
            RawPacketValue::VarInt(v) => write_var_i32(buf, *v),
            RawPacketValue::VarLong(v) => write_var_i64(buf, *v),
            RawPacketValue::Float(v) => put_u32(buf, *v),
            RawPacketValue::Double(v) => put_u64(buf, *v),
            RawPacketValue::Int128(v) => put_i128(buf, *v),
            RawPacketValue::String(v) => {
                return write_prefixed(buf, v.as_str().as_bytes());
            },
            RawPacketValue::Position(x, y, z) => {
                let (x, y, z) = (*x, *y, *z);
                put_i64(buf, (x & 0x3FFFFFF) << 38 | (y & 0xFFF) << 26 | (z & 0x3FFFFFF));
            },
            RawPacketValue::Boolean(v) => {
                buf.push(
                    if *v {
                        1
                    } else {
                        0
                    },
                );
                assert(buf@ =~= old(buf)@ + value_bytes(self@));
            },
            RawPacketValue::ByteArray(v) => {
                return write_prefixed(buf, v.as_slice());
            },
        }
        Ok(())
    }
}

/// Coordinates that fit their bits come back out of the packed word as
/// they went in, sign included.
pub proof fn lemma_position_round_trip(x: i64, y: i64, z: i64)
    requires
        position_in_range(x, y, z),
    ensures
        unpack_position(pack_position(x, y, z)) == (x, y, z),
{
    let word = pack_position(x, y, z);
    assert(word >> 38 == x) by (bit_vector)
        requires
            word == ((x & 0x3FFFFFF) << 38) | ((y & 0xFFF) << 26) | (z & 0x3FFFFFF),
            -0x200_0000 <= x < 0x200_0000,
            -0x800 <= y < 0x800,
            -0x200_0000 <= z < 0x200_0000,
    ;
    assert((word << 26) >> 52 == y) by (bit_vector)
        requires
            word == ((x & 0x3FFFFFF) << 38) | ((y & 0xFFF) << 26) | (z & 0x3FFFFFF),
            -0x200_0000 <= x < 0x200_0000,
            -0x800 <= y < 0x800,
            -0x200_0000 <= z < 0x200_0000,
    ;
    assert((word << 38) >> 38 == z) by (bit_vector)
        requires
            word == ((x & 0x3FFFFFF) << 38) | ((y & 0xFFF) << 26) | (z & 0x3FFFFFF),
            -0x200_0000 <= x < 0x200_0000,
            -0x800 <= y < 0x800,
            -0x200_0000 <= z < 0x200_0000,
    ;
}

/// A signed number of `width` bytes, written most significant byte first
/// in two's complement and followed by anything, is read back as it was.
pub proof fn lemma_signed_bytes_round_trip(v: int, width: nat, modulus: int, rest: Seq<u8>)
    requires
        modulus == pow256(width),
        modulus % 2 == 0,
        -modulus <= 2 * v < modulus,
    ensures
        be_bytes(to_unsigned(v, modulus) as nat, width).len() == width,
        signed_at(be_bytes(to_unsigned(v, modulus) as nat, width) + rest, width, modulus) == v,
{
    let u = to_unsigned(v, modulus) as nat;
    lemma_signed_round_trip(v, modulus);
    lemma_unsigned_bytes_round_trip(u, width, rest);
}

/// A number of `width` bytes, written most significant byte first and
/// followed by anything, is read back as it was.
pub proof fn lemma_unsigned_bytes_round_trip(u: nat, width: nat, rest: Seq<u8>)
    requires
        u < pow256(width),
    ensures
        be_bytes(u, width).len() == width,
        be_value((be_bytes(u, width) + rest).take(width as int)) == u,
{
    lemma_be_bytes_len(u, width);
    lemma_be_value_of_bytes(u, width);
    assert((be_bytes(u, width) + rest).take(width as int) =~= be_bytes(u, width));
}

/// A run behind its length prefix, followed by anything, is read back as
/// it was.
pub proof fn lemma_prefixed_round_trip(run: Seq<u8>, rest: Seq<u8>)
    requires
        run.len() <= i32::MAX,
    ensures
        parse_prefixed(var_i32_bytes(run.len() as i32) + run + rest) == Ok::<
            (Seq<u8>, nat),
            IoErrorKind,
        >((run, (var_i32_bytes(run.len() as i32) + run).len())),
{
    let prefix = var_i32_bytes(run.len() as i32);
    let all = prefix + run + rest;
    lemma_var_i32_round_trip(run.len() as i32, run + rest);
    assert(all =~= prefix + (run + rest));
    assert(all.subrange(prefix.len() as int, (prefix.len() + run.len()) as int) =~= run);
}

/// Every value that is faithful to its wire form survives writing and
/// reading: the reader gives the value back, and the length of what was
/// written, whatever bytes follow.
pub proof fn lemma_value_round_trip(v: RawValue, rest: Seq<u8>)
    requires
        v.faithful(),
    ensures
        parse_value(v.kind(), value_bytes(v) + rest) == Ok::<(RawValue, nat), IoErrorKind>(
            (v, value_bytes(v).len()),
        ),
{
    reveal_with_fuel(pow256, 17);
    let all = value_bytes(v) + rest;
    match v {
        RawValue::Byte(x) => {
            lemma_signed_round_trip(x as int, 0x100);
            assert(all[0] == to_unsigned(x as int, 0x100) as u8);
        },
        RawValue::UByte(x) => {
            assert(all[0] == x);
        },
        RawValue::Short(x) => {
            lemma_signed_bytes_round_trip(x as int, 2, 0x1_0000, rest);
        },
        RawValue::UShort(x) => {
            lemma_unsigned_bytes_round_trip(x as nat, 2, rest);
        },
        RawValue::Int(x) => {
            lemma_signed_bytes_round_trip(x as int, 4, 0x1_0000_0000, rest);
        },
        RawValue::Long(x) => {
            lemma_signed_bytes_round_trip(x as int, 8, 0x1_0000_0000_0000_0000, rest);
        },
        RawValue::VarInt(x) => {
            lemma_var_i32_round_trip(x, rest);
        },
        RawValue::VarLong(x) => {
            lemma_var_i64_round_trip(x, rest);
        },
        RawValue::Float(x) => {
            lemma_unsigned_bytes_round_trip(x as nat, 4, rest);
        },
        RawValue::Double(x) => {
            lemma_unsigned_bytes_round_trip(x as nat, 8, rest);
        },
        RawValue::Int128(x) => {
            lemma_signed_bytes_round_trip(x as int, 16, modulus_128(), rest);
        },
        RawValue::String(s) => {
            let run = encode_utf8(s);
            lemma_prefixed_round_trip(run, rest);
            vstd::utf8::encode_utf8_valid_utf8(s);
            vstd::utf8::encode_utf8_decode_utf8(s);
        },
        RawValue::Position(x, y, z) => {
            lemma_position_round_trip(x, y, z);
            lemma_signed_bytes_round_trip(
                pack_position(x, y, z) as int,
                8,
                0x1_0000_0000_0000_0000,
                rest,
            );
        },
        RawValue::Boolean(b) => {
            assert(all[0] == if b {
                1u8
            } else {
                0u8
            });
        },
        RawValue::ByteArray(b) => {
            lemma_prefixed_round_trip(b, rest);
        },
    }
}

} // verus!
