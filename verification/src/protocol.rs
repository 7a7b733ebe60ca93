//! Frames: one length-prefixed unit on the wire that holds one packet,
//! behind a compression preamble once compression has been negotiated.

use crate::compression::{zlib_decode, zlib_deflated, zlib_encode, zlib_inflated};
use crate::cursor::{ByteCursor, IoErrorKind};
use crate::endian::append_bytes;
use crate::game::{CompressionStatus, ConnectionState, MinecraftConnection};
use crate::packet::{kinds, views, Packet, PacketView};
use crate::registry::{Direction, PacketType};
use crate::values::{
    lemma_value_round_trip, parse_prefixed, parse_value, read_prefixed, value_bytes,
    var_failure, write_prefixed, RawPacketValue, RawPacketValueType, RawValue,
};
use crate::varint::{
    lemma_var_i32_round_trip, parse_var_i32, read_var_i32, var_i32_bytes, write_var_i32,
};
use vstd::prelude::*;

verus! {

/// Why a frame gave no packet.
#[derive(Debug, Clone, Copy, PartialEq, Eq)]
pub enum PacketError {
    /// The table has no packet under this id in this state.
    UnknownPacketIdentifier { id: i32, state: ConnectionState },
    /// The payload does not have the shape of the packet that its id names.
    MalformedPacket(&'static str),
    /// The frame, or an integer that leads it, could not be read.
    DeserializeIOError(IoErrorKind),
    /// The frame's compressed part does not decompress to the size that the
    /// frame declares.
    CompressionError,
}

/// The wire form of a list of values: one after the other.
pub open spec fn fields_bytes(values: Seq<RawValue>) -> Seq<u8>
    decreases values.len(),
{
    if values.len() == 0 {
        Seq::empty()
    } else {
        value_bytes(values[0]) + fields_bytes(values.drop_first())
    }
}

/// Whether every value of a list has a wire form.
pub open spec fn all_encodable(values: Seq<RawValue>) -> bool {
    forall|i: int| 0 <= i < values.len() ==> (#[trigger] values[i]).encodable()
}

/// Whether every value of a list comes back from its wire form.
pub open spec fn all_faithful(values: Seq<RawValue>) -> bool {
    forall|i: int| 0 <= i < values.len() ==> (#[trigger] values[i]).faithful()
}

/// The values of the kinds in `template` at the front of `bytes`, one
/// after the other, and the bytes they take together.
pub open spec fn parse_fields(template: Seq<RawPacketValueType>, bytes: Seq<u8>) -> Result<
    (Seq<RawValue>, nat),
    IoErrorKind,
>
    decreases template.len(),
{
    if template.len() == 0 {
        Ok((Seq::empty(), 0nat))
    } else {
        match parse_value(template[0], bytes) {
            Err(e) => Err(e),
            Ok((v, n)) => match parse_fields(template.drop_first(), bytes.skip(n as int)) {
                Err(e) => Err(e),
                Ok((rest, m)) => Ok((seq![v] + rest, n + m)),
            },
        }
    }
}

/// A payload: the packet's numeric id, then its fields.
pub open spec fn payload_bytes(id: i32, values: Seq<RawValue>) -> Seq<u8> {
    var_i32_bytes(id) + fields_bytes(values)
}

/// Whether a payload of this size is deflated under `compression`: only
/// where compression is enabled and the size is above its threshold.
pub open spec fn deflates(len: nat, compression: CompressionStatus) -> bool {
    match compression {
        CompressionStatus::Disabled => false,
        CompressionStatus::Enabled(threshold) => len > threshold,
    }
}

/// What a frame holds after its length where the payload is not
/// deflated: the payload itself where compression is disabled, a zero and
/// the payload where it is enabled.
pub open spec fn plain_body(payload: Seq<u8>, compression: CompressionStatus) -> Seq<u8> {
    match compression {
        CompressionStatus::Disabled => payload,
        CompressionStatus::Enabled(_) => var_i32_bytes(0) + payload,
    }
}

/// What a frame holds after its length: the payload itself where
/// compression is disabled; a zero and the payload where it is enabled and
/// the payload is no longer than the threshold; else the payload's length
/// and its zlib stream, and no body at all where the compressor makes no
/// stream of the payload.
pub open spec fn frame_body(payload: Seq<u8>, compression: CompressionStatus) -> Option<
    Seq<u8>,
> {
    if deflates(payload.len(), compression) {
        match zlib_deflated(payload) {
            Some(stream) => Some(var_i32_bytes(payload.len() as i32) + stream),
            None => None,
        }
    } else {
        Some(plain_body(payload, compression))
    }
}

/// A frame: the length of its body, then the body.
pub open spec fn frame_bytes(body: Seq<u8>) -> Seq<u8> {
    var_i32_bytes(body.len() as i32) + body
}

/// The payload in a frame's body: the body itself where compression is
/// disabled; else what follows the declared size, taken as it is where
/// the size is zero, else decompressed, which must give as many bytes as
/// declared.
pub open spec fn parse_body(body: Seq<u8>, compression: CompressionStatus) -> Result<
    Seq<u8>,
    PacketError,
> {
    match compression {
        CompressionStatus::Disabled => Ok(body),
        CompressionStatus::Enabled(_) => match parse_var_i32(body) {
            None => Err(PacketError::DeserializeIOError(var_failure(body, 5))),
            Some((size, n)) => if size == 0 {
                Ok(body.skip(n as int))
            } else {
                match zlib_inflated(body.skip(n as int)) {
                    Some(data) => if data.len() == size {
                        Ok(data)
                    } else {
                        Err(PacketError::CompressionError)
                    },
                    None => Err(PacketError::CompressionError),
                }
            },
        },
    }
}

/// The values behind a payload's id: the fields of `template`, which must
/// be all there and use the payload up.
pub open spec fn parse_all_fields(template: Seq<RawPacketValueType>, bytes: Seq<u8>) -> Result<
    Seq<RawValue>,
    PacketError,
> {
    match parse_fields(template, bytes) {
        Err(_) => Err(PacketError::MalformedPacket("a field is cut short or not of its kind")),
        Ok((values, n)) => if n == bytes.len() {
            Ok(values)
        } else {
            Err(PacketError::MalformedPacket("bytes are left after the last field"))
        },
    }
}

/// The packet in a payload: its id, resolved in `state` and `direction`,
/// and the fields of the packet that the id names.
pub open spec fn parse_payload(
    payload: Seq<u8>,
    state: ConnectionState,
    direction: Direction,
) -> Result<PacketView, PacketError> {
    match parse_var_i32(payload) {
        None => Err(PacketError::DeserializeIOError(var_failure(payload, 5))),
        Some((id, n)) => match PacketType::resolve(state, direction, id) {
            None => Err(PacketError::UnknownPacketIdentifier { id, state }),
            Some(ty) => match parse_all_fields(ty.spec_fields(), payload.skip(n as int)) {
                Err(e) => Err(e),
                Ok(values) => {
                    let packet = PacketView { ty, fields: values };
                    if packet.well_formed() {
                        Ok(packet)
                    } else {
                        Err(
                            PacketError::MalformedPacket(
                                "the field values are not those of the packet",
                            ),
                        )
                    }
                },
            },
        },
    }
}

/// How many bytes the frame at the front of `bytes` takes, or zero where
/// no whole frame is there.
pub open spec fn frame_extent(bytes: Seq<u8>) -> nat {
    match parse_prefixed(bytes) {
        Ok((_, n)) => n,
        Err(_) => 0,
    }
}

/// The packet in the frame at the front of `bytes`.
pub open spec fn parse_packet(
    bytes: Seq<u8>,
    state: ConnectionState,
    compression: CompressionStatus,
    direction: Direction,
) -> Result<PacketView, PacketError> {
    match parse_prefixed(bytes) {
        Err(e) => Err(PacketError::DeserializeIOError(e)),
        Ok((body, _)) => match parse_body(body, compression) {
            Err(e) => Err(e),
            Ok(payload) => parse_payload(payload, state, direction),
        },
    }
}

/// Appending one value to a list appends its wire form to the list's.
pub proof fn lemma_fields_bytes_push(values: Seq<RawValue>, v: RawValue)
    ensures
        fields_bytes(values.push(v)) == fields_bytes(values) + value_bytes(v),
    decreases values.len(),
{
    let longer = values.push(v);
    if values.len() == 0 {
        assert(longer.drop_first() =~= Seq::<RawValue>::empty());
        assert(fields_bytes(longer) =~= value_bytes(v) + fields_bytes(longer.drop_first()));
        assert(fields_bytes(longer) =~= fields_bytes(values) + value_bytes(v));
    } else {
        assert(longer.drop_first() =~= values.drop_first().push(v));
        lemma_fields_bytes_push(values.drop_first(), v);
        assert(fields_bytes(longer) =~= fields_bytes(values) + value_bytes(v));
    }
}

/// The wire form of the first `k + 1` values of a list is that of the
/// first `k`, followed by the wire form of the next.
pub proof fn lemma_fields_bytes_step(values: Seq<RawValue>, k: int)
    requires
        0 <= k < values.len(),
    ensures
        fields_bytes(values.take(k + 1)) == fields_bytes(values.take(k)) + value_bytes(values[k]),
        fields_bytes(values.take(0)) == Seq::<u8>::empty(),
        values.take(values.len() as int) == values,
{
    lemma_fields_bytes_push(values.take(k), values[k]);
    assert(values.take(k + 1) =~= values.take(k).push(values[k]));
    assert(values.take(values.len() as int) =~= values);
}

/// Reads one value of each kind in `template`, in order, and expects the
/// bytes to end with the last of them. On failure the cursor stays where
/// it was.
pub fn read_values_from_template(buf: &mut ByteCursor, template: &[RawPacketValueType]) -> (r:
    Result<Vec<RawPacketValue>, PacketError>)
    ensures
        final(buf).data == old(buf).data,
        match parse_all_fields(template@, old(buf).remaining()) {
            Ok(values) => {
                &&& r matches Ok(got)
                &&& views(got@) == values
                &&& final(buf).position == old(buf).position + old(buf).remaining().len()
                &&& final(buf).remaining().len() == 0
                &&& old(buf).position <= old(buf).data@.len() ==> final(buf).position == old(
                    buf,
                ).data@.len()
            },
            Err(e) => {
                &&& r matches Err(got)
                &&& got == e
                &&& final(buf).position == old(buf).position
            },
        },
{
    let start = buf.position;
    let ghost all = buf.remaining();
    let ghost mut used: nat = 0;
    let mut out: Vec<RawPacketValue> = Vec::new();
    let mut i: usize = 0;
    proof {
        assert(template@.skip(0) =~= template@);
        assert(all.skip(0) =~= all);
        match parse_fields(template@, all) {
            Ok((rest, m)) => {
                assert(views(out@) + rest =~= rest);
            },
            Err(_) => {},
        }
    }
    while i < template.len()
        invariant
            i <= template.len(),
            buf.data == old(buf).data,
            start == old(buf).position,
            all == old(buf).remaining(),
            used <= all.len(),
            buf.position == start + used,
            buf.remaining() == all.skip(used as int),
            match parse_fields(template@.skip(i as int), buf.remaining()) {
                Ok((rest, m)) => parse_fields(template@, all) == Ok::<
                    (Seq<RawValue>, nat),
                    IoErrorKind,
                >((views(out@) + rest, used + m)),
                Err(e) => parse_fields(template@, all) is Err,
            },
        decreases template.len() - i,
    {
        let ghost kinds_left = template@.skip(i as int);
        let ghost before = buf.remaining();
        assert(kinds_left[0] == template@[i as int]);
        assert(kinds_left.drop_first() =~= template@.skip(i + 1));
        match template[i].from_buf(buf) {
            Err(_) => {
                buf.position = start;
                return Err(PacketError::MalformedPacket("a field is cut short or not of its kind"));
            },
            Ok(value) => {
                proof {
                    let n = parse_value(template@[i as int], before).unwrap().1;
                    assert(buf.remaining() =~= all.skip((used + n) as int));
                    used = used + n;
                    match parse_fields(template@.skip(i + 1), buf.remaining()) {
                        Ok((rest, m)) => {
                            assert(views(out@.push(value)) + rest =~= views(out@) + (seq![value@]
                                + rest));
                        },
                        Err(_) => {},
                    }
                }
                out.push(value);
            },
        }
        i += 1;
    }
    assert(template@.skip(i as int) =~= Seq::<RawPacketValueType>::empty());
    assert(views(out@) + Seq::<RawValue>::empty() =~= views(out@));
    if buf.remaining_len() != 0 {
        buf.position = start;
        return Err(PacketError::MalformedPacket("bytes are left after the last field"));
    }
    Ok(out)
}

/// The payload of a packet: its numeric id and its field values in wire
/// form, or `InvalidInput` where one of the values has none.
pub fn encode_payload(packet_type_id: i32, template: &[RawPacketValue]) -> (r: Result<
    Vec<u8>,
    IoErrorKind,
>)
    ensures
        match r {
            Ok(payload) => all_encodable(views(template@)) && payload@ == payload_bytes(
                packet_type_id,
                views(template@),
            ),
            Err(e) => !all_encodable(views(template@)) && e == IoErrorKind::InvalidInput,
        },
{
    let ghost values = views(template@);
    let mut payload: Vec<u8> = Vec::new();
    write_var_i32(&mut payload, packet_type_id);
    assert(payload@ =~= var_i32_bytes(packet_type_id) + fields_bytes(values.take(0)));
    let mut i: usize = 0;
    while i < template.len()
        invariant
            i <= template.len(),
            values == views(template@),
            payload@ == var_i32_bytes(packet_type_id) + fields_bytes(values.take(i as int)),
            forall|j: int| 0 <= j < i ==> (#[trigger] values[j]).encodable(),
        decreases template.len() - i,
    {
        assert(values[i as int] == template@[i as int]@);
        match template[i].serialize(&mut payload) {
            Err(e) => {
                return Err(e);
            },
            Ok(()) => {},
        }
        proof {
            lemma_fields_bytes_step(values, i as int);
            assert(payload@ =~= var_i32_bytes(packet_type_id) + fields_bytes(values.take(i + 1)));
        }
        i += 1;
    }
    assert(values.take(i as int) =~= values);
    Ok(payload)
}

/// Appends the frame of a deflated payload: the length of what follows,
/// the payload's size before compression, and its zlib stream. It fails
/// and leaves the buffer alone where the frame would be too long for its
/// length prefix.
pub fn write_deflated_frame(buf: &mut Vec<u8>, uncompressed_size: i32, stream: &[u8]) -> (r:
    Result<(), IoErrorKind>)
    ensures
        ({
            let body = var_i32_bytes(uncompressed_size) + stream@;
            if body.len() <= i32::MAX {
                r is Ok && final(buf)@ == old(buf)@ + frame_bytes(body)
            } else {
                r == Err::<(), IoErrorKind>(IoErrorKind::InvalidInput) && final(buf)@ == old(buf)@
            }
        }),
{
    let mut body: Vec<u8> = Vec::new();
    write_var_i32(&mut body, uncompressed_size);
    append_bytes(&mut body, stream);
    assert(body@ =~= var_i32_bytes(uncompressed_size) + stream@);
    write_prefixed(buf, body.as_slice())
}

/// What writing a frame for `payload` comes to, where `encodable` says
/// whether all the packet's values have a wire form.
///
/// It fails with `InvalidInput` where a value has no wire form or the
/// payload or the frame's body is too long for a 32-bit length, and with
/// `Other` where the payload is to be deflated and the compressor makes no
/// stream of it; on every other input the frame is appended. A frame that
/// was written holds a body that reads back as the payload, and a
/// deflated one the payload's length and a stream that the decompressor
/// turns back into the payload.
pub open spec fn frame_written(
    before: Seq<u8>,
    after: Seq<u8>,
    payload: Seq<u8>,
    encodable: bool,
    compression: CompressionStatus,
    r: Result<(), IoErrorKind>,
) -> bool {
    if !encodable || payload.len() > i32::MAX {
        r == Err::<(), IoErrorKind>(IoErrorKind::InvalidInput) && after == before
    } else {
        match frame_body(payload, compression) {
            None => r == Err::<(), IoErrorKind>(IoErrorKind::Other) && after == before,
            Some(body) => if body.len() <= i32::MAX {
                &&& r is Ok
                &&& after == before + frame_bytes(body)
                &&& parse_body(body, compression) == Ok::<Seq<u8>, PacketError>(payload)
                &&& deflates(payload.len(), compression) ==> {
                    &&& zlib_deflated(payload) matches Some(stream)
                    &&& zlib_inflated(stream) == Some(payload)
                    &&& body == var_i32_bytes(payload.len() as i32) + stream
                    &&& payload.len() != 0
                }
            } else {
                r == Err::<(), IoErrorKind>(IoErrorKind::InvalidInput) && after == before
            },
        }
    }
}

/// A deflated payload is found again in its frame's body, given that the
/// decompressor undoes the compressor on it.
proof fn lemma_deflated_body_round_trip(
    payload: Seq<u8>,
    stream: Seq<u8>,
    compression: CompressionStatus,
)
    requires
        deflates(payload.len(), compression),
        0 < payload.len() <= i32::MAX,
        zlib_deflated(payload) == Some(stream),
        zlib_inflated(stream) == Some(payload),
    ensures
        frame_body(payload, compression) == Some(var_i32_bytes(payload.len() as i32) + stream),
        parse_body(var_i32_bytes(payload.len() as i32) + stream, compression) == Ok::<
            Seq<u8>,
            PacketError,
        >(payload),
{
    let size = payload.len() as i32;
    let body = var_i32_bytes(size) + stream;
    lemma_var_i32_round_trip(size, stream);
    assert(body.skip(var_i32_bytes(size).len() as int) =~= stream);
}

/// Appends to `buf` the frame of a packet with the given numeric id and
/// field values, as the compression status asks: without a preamble where
/// compression is disabled; behind a zero where it is enabled and the
/// payload is no longer than the threshold; else deflated behind the
/// payload's size. On failure the buffer is left alone.
pub fn write_packet_fields(
    buf: &mut Vec<u8>,
    packet_type_id: i32,
    template: &[RawPacketValue],
    compression_state: &CompressionStatus,
) -> (r: Result<(), IoErrorKind>)
    ensures
        frame_written(
            old(buf)@,
            final(buf)@,
            payload_bytes(packet_type_id, views(template@)),
            all_encodable(views(template@)),
            *compression_state,
            r,
        ),
{
    let payload = match encode_payload(packet_type_id, template) {
        Ok(payload) => payload,
        Err(e) => {
            return Err(e);
        },
    };
    if payload.len() > i32::MAX as usize {
        return Err(IoErrorKind::InvalidInput);
    }
    proof {
        lemma_var_i32_round_trip(packet_type_id, Seq::empty());
        if !deflates(payload@.len(), *compression_state) {
            lemma_plain_body_round_trip(payload@, *compression_state);
        }
    }
    match *compression_state {
        CompressionStatus::Disabled => write_prefixed(buf, payload.as_slice()),
        CompressionStatus::Enabled(threshold) => {
            if payload.len() as i64 > threshold as i64 {
                match zlib_encode(payload.as_slice()) {
                    None => Err(IoErrorKind::Other),
                    Some(stream) => {
                        proof {
                            lemma_deflated_body_round_trip(
                                payload@,
                                stream@,
                                *compression_state,
                            );
                        }
                        write_deflated_frame(buf, payload.len() as i32, stream.as_slice())
                    },
                }
            } else {
                let mut body: Vec<u8> = Vec::new();
                write_var_i32(&mut body, 0);
                append_bytes(&mut body, payload.as_slice());
                assert(body@ =~= var_i32_bytes(0) + payload@);
                write_prefixed(buf, body.as_slice())
            }
        },
    }
}

/// Takes the payload out of a frame's body.
pub fn read_body(body: Vec<u8>, compression: CompressionStatus) -> (r: Result<Vec<u8>, PacketError>)
    ensures
        match parse_body(body@, compression) {
            Ok(payload) => r matches Ok(got) && got@ == payload,
            Err(e) => r matches Err(got) && got == e,
        },
{
    match compression {
        CompressionStatus::Disabled => Ok(body),
        CompressionStatus::Enabled(_) => match read_var_i32(body.as_slice()) {
            Err(_) => Err(
                PacketError::DeserializeIOError(
                    if body.len() >= 5 {
                        IoErrorKind::InvalidData
                    } else {
                        IoErrorKind::UnexpectedEof
                    },
                ),
            ),
            Ok((size, n)) => {
                let tail = vstd::slice::slice_subrange(body.as_slice(), n, body.len());
                assert(tail@ =~= body@.skip(n as int));
                if size == 0 {
                    let mut payload: Vec<u8> = Vec::new();
                    append_bytes(&mut payload, tail);
                    assert(payload@ =~= tail@);
                    Ok(payload)
                } else {
                    match zlib_decode(tail) {
                        Some(data) => if size > 0 && data.len() == size as usize {
                            Ok(data)
                        } else {
                            Err(PacketError::CompressionError)
                        },
                        None => Err(PacketError::CompressionError),
                    }
                }
            },
        },
    }
}

/// Reads the packet out of a payload: resolves its id in `state` and
/// `direction` and reads the fields of the packet that the id names.
pub fn read_payload(payload: Vec<u8>, state: ConnectionState, direction: Direction) -> (r: Result<
    Packet,
    PacketError,
>)
    ensures
        match parse_payload(payload@, state, direction) {
            Ok(packet) => r matches Ok(got) && got@ == packet,
            Err(e) => r matches Err(got) && got == e,
        },
{
    match read_var_i32(payload.as_slice()) {
        Err(_) => Err(
            PacketError::DeserializeIOError(
                if payload.len() >= 5 {
                    IoErrorKind::InvalidData
                } else {
                    IoErrorKind::UnexpectedEof
                },
            ),
        ),
        Ok((id, n)) => match PacketType::from_state_and_id_and_direction(state, id, direction) {
            None => Err(PacketError::UnknownPacketIdentifier { id, state }),
            Some(ty) => {
                let mut fields = ByteCursor { data: payload, position: n };
                let template = ty.fields();
                match read_values_from_template(&mut fields, template.as_slice()) {
                    Err(e) => Err(e),
                    Ok(values) => match Packet::from_wire_fields(ty, values) {
                        Some(packet) => Ok(packet),
                        None => Err(
                            PacketError::MalformedPacket(
                                "the field values are not those of the packet",
                            ),
                        ),
                    },
                }
            },
        },
    }
}

impl Packet {
    /// Reads one frame at the cursor and decodes the packet in it, as the
    /// server sends it to a client on this connection.
    ///
    /// The cursor moves over the frame if the frame is all there, whether
    /// or not it holds a packet; it stays where it is if the frame is not.
    pub fn deserialize(buf: &mut ByteCursor, connection: &MinecraftConnection) -> (r: Result<
        Packet,
        PacketError,
    >)
        ensures
            final(buf).data == old(buf).data,
            final(buf).position == old(buf).position + frame_extent(old(buf).remaining()),
            match parse_packet(
                old(buf).remaining(),
                connection.state,
                connection.compression,
                Direction::ClientBound,
            ) {
                Ok(packet) => r matches Ok(got) && got@ == packet,
                Err(e) => r matches Err(got) && got == e,
            },
    {
        Packet::deserialize_as(
            buf,
            connection.state,
            connection.compression,
            Direction::ClientBound,
        )
    }

    /// Reads one frame at the cursor and decodes the packet in it, taking
    /// its id as one of `state` and `direction`.
    pub fn deserialize_as(
        buf: &mut ByteCursor,
        state: ConnectionState,
        compression: CompressionStatus,
        direction: Direction,
    ) -> (r: Result<Packet, PacketError>)
        ensures
            final(buf).data == old(buf).data,
            final(buf).position == old(buf).position + frame_extent(old(buf).remaining()),
            match parse_packet(old(buf).remaining(), state, compression, direction) {
                Ok(packet) => r matches Ok(got) && got@ == packet,
                Err(e) => r matches Err(got) && got == e,
            },
    {
        let body = match read_prefixed(buf) {
            Ok(body) => body,
            Err(e) => {
                return Err(PacketError::DeserializeIOError(e));
            },
        };
        match read_body(body, compression) {
            Err(e) => Err(e),
            Ok(payload) => read_payload(payload, state, direction),
        }
    }

    /// The frame of this packet, as the connection's compression status
    /// asks for it.
    pub fn serialize(self, connection: &MinecraftConnection) -> (r: Result<Vec<u8>, IoErrorKind>)
        ensures
            match r {
                Ok(frame) => frame_written(
                    Seq::empty(),
                    frame@,
                    payload_bytes(self@.ty.spec_id(), self@.fields),
                    all_encodable(self@.fields),
                    connection.compression,
                    Ok(()),
                ),
                Err(e) => frame_written(
                    Seq::empty(),
                    Seq::empty(),
                    payload_bytes(self@.ty.spec_id(), self@.fields),
                    all_encodable(self@.fields),
                    connection.compression,
                    Err(e),
                ),
            },
            match r {
                Ok(frame) => all_faithful(self@.fields) ==> parse_packet(
                    frame@,
                    self@.ty.spec_state(),
                    connection.compression,
                    self@.ty.spec_direction(),
                ) == Ok::<PacketView, PacketError>(self@),
                Err(_) => true,
            },
    {
        let ghost packet = self@;
        let ghost payload = payload_bytes(packet.ty.spec_id(), packet.fields);
        let mut buf: Vec<u8> = Vec::new();
        let my_id = self.ty().id();
        proof {
            crate::packet::lemma_packet_well_formed(self);
        }
        let fields = self.wire_fields();
        match write_packet_fields(&mut buf, my_id, fields.as_slice(), &connection.compression) {
            Ok(()) => {
                proof {
                    let body = frame_body(payload, connection.compression).unwrap();
                    assert(buf@ =~= frame_bytes(body));
                    if all_faithful(packet.fields) {
                        lemma_framed_packet_round_trip(
                            packet,
                            connection.compression,
                            body,
                            Seq::empty(),
                        );
                        assert(frame_bytes(body) + Seq::<u8>::empty() =~= frame_bytes(body));
                    }
                }
                Ok(buf)
            },
            Err(e) => Err(e),
        }
    }
}

/// The kinds of a list without its first value are the kinds of the list
/// without the first kind.
proof fn lemma_kinds_drop_first(values: Seq<RawValue>)
    requires
        values.len() > 0,
    ensures
        kinds(values)[0] == values[0].kind(),
        kinds(values).drop_first() == kinds(values.drop_first()),
{
    assert(kinds(values).drop_first() =~= kinds(values.drop_first()));
}

/// A list of faithful values survives writing and reading: read by their
/// own kinds, the bytes give the values back and the number of bytes
/// written, whatever follows.
pub proof fn lemma_fields_round_trip(values: Seq<RawValue>, rest: Seq<u8>)
    requires
        all_faithful(values),
    ensures
        parse_fields(kinds(values), fields_bytes(values) + rest) == Ok::<
            (Seq<RawValue>, nat),
            IoErrorKind,
        >((values, fields_bytes(values).len())),
    decreases values.len(),
{
    if values.len() == 0 {
        assert(kinds(values) =~= Seq::<RawPacketValueType>::empty());
        assert(values =~= Seq::<RawValue>::empty());
    } else {
        let first = values[0];
        let tail = values.drop_first();
        let all = fields_bytes(values) + rest;
        lemma_kinds_drop_first(values);
        assert(first.faithful());
        assert(all_faithful(tail)) by {
            assert forall|i: int| 0 <= i < tail.len() implies (#[trigger] tail[i]).faithful() by {
                assert(tail[i] == values[i + 1]);
            }
        }
        assert(all =~= value_bytes(first) + (fields_bytes(tail) + rest));
        lemma_value_round_trip(first, fields_bytes(tail) + rest);
        assert(all.skip(value_bytes(first).len() as int) =~= fields_bytes(tail) + rest);
        lemma_fields_round_trip(tail, rest);
        assert(seq![first] + tail =~= values);
    }
}

/// Whatever the id and the kinds of the values: a payload of an id and
/// faithful values gives the id back, and behind it, read by the values'
/// own kinds, the values and nothing more.
pub proof fn lemma_id_and_fields_round_trip(id: i32, values: Seq<RawValue>)
    requires
        all_faithful(values),
    ensures
        parse_var_i32(payload_bytes(id, values)) == Some((id, var_i32_bytes(id).len())),
        parse_all_fields(
            kinds(values),
            payload_bytes(id, values).skip(var_i32_bytes(id).len() as int),
        ) == Ok::<Seq<RawValue>, PacketError>(values),
{
    let payload = payload_bytes(id, values);
    let written = fields_bytes(values);
    lemma_var_i32_round_trip(id, written);
    assert(payload.skip(var_i32_bytes(id).len() as int) =~= written);
    lemma_fields_round_trip(values, Seq::empty());
    assert(written + Seq::<u8>::empty() =~= written);
}

/// The payload of a well-formed packet with faithful values is read back
/// as that packet, in the packet's own state and direction.
pub proof fn lemma_payload_round_trip(packet: PacketView)
    requires
        packet.well_formed(),
        all_faithful(packet.fields),
    ensures
        parse_payload(
            payload_bytes(packet.ty.spec_id(), packet.fields),
            packet.ty.spec_state(),
            packet.ty.spec_direction(),
        ) == Ok::<PacketView, PacketError>(packet),
{
    let ty = packet.ty;
    lemma_id_and_fields_round_trip(ty.spec_id(), packet.fields);
    crate::registry::lemma_registry_exhaustive(
        ty,
        ty.spec_state(),
        ty.spec_direction(),
        ty.spec_id(),
    );
}

/// A payload that is not deflated is found again in its frame's body.
pub proof fn lemma_plain_body_round_trip(payload: Seq<u8>, compression: CompressionStatus)
    requires
        !deflates(payload.len(), compression),
    ensures
        frame_body(payload, compression) == Some(plain_body(payload, compression)),
        parse_body(plain_body(payload, compression), compression) == Ok::<Seq<u8>, PacketError>(
            payload,
        ),
{
    match compression {
        CompressionStatus::Disabled => {},
        CompressionStatus::Enabled(_) => {
            lemma_var_i32_round_trip(0, payload);
            let body = plain_body(payload, compression);
            assert(body.skip(var_i32_bytes(0).len() as int) =~= payload);
        },
    }
}

/// A body behind its length is found again at the front of any bytes that
/// start with the frame, and the frame's extent is its length.
pub proof fn lemma_frame_round_trip(body: Seq<u8>, rest: Seq<u8>)
    requires
        body.len() <= i32::MAX,
    ensures
        parse_prefixed(frame_bytes(body) + rest) == Ok::<(Seq<u8>, nat), IoErrorKind>(
            (body, frame_bytes(body).len()),
        ),
        frame_extent(frame_bytes(body) + rest) == frame_bytes(body).len(),
{
    crate::values::lemma_prefixed_round_trip(body, rest);
}

/// A frame whose body reads back as the payload of a well-formed packet
/// with faithful values reads back as that packet, in the packet's own
/// state and direction, and the reader stops at the end of the frame,
/// whatever follows it.
pub proof fn lemma_framed_packet_round_trip(
    packet: PacketView,
    compression: CompressionStatus,
    body: Seq<u8>,
    rest: Seq<u8>,
)
    requires
        packet.well_formed(),
        all_faithful(packet.fields),
        body.len() <= i32::MAX,
        parse_body(body, compression) == Ok::<Seq<u8>, PacketError>(
            payload_bytes(packet.ty.spec_id(), packet.fields),
        ),
    ensures
        parse_packet(
            frame_bytes(body) + rest,
            packet.ty.spec_state(),
            compression,
            packet.ty.spec_direction(),
        ) == Ok::<PacketView, PacketError>(packet),
        frame_extent(frame_bytes(body) + rest) == frame_bytes(body).len(),
{
    lemma_frame_round_trip(body, rest);
    lemma_payload_round_trip(packet);
}

/// Decoding undoes encoding wherever the payload is not deflated, so with
/// compression disabled and with a payload no longer than the threshold:
/// the frame of a well-formed packet with faithful values, read in the
/// packet's own state and direction, gives the packet back, and the reader
/// stops at the end of the frame, whatever follows it.
pub proof fn lemma_packet_round_trip(
    packet: PacketView,
    compression: CompressionStatus,
    rest: Seq<u8>,
)
    requires
        packet.well_formed(),
        all_faithful(packet.fields),
        !deflates(payload_bytes(packet.ty.spec_id(), packet.fields).len(), compression),
        plain_body(payload_bytes(packet.ty.spec_id(), packet.fields), compression).len()
            <= i32::MAX,
    ensures
        ({
            let payload = payload_bytes(packet.ty.spec_id(), packet.fields);
            let frame = frame_bytes(plain_body(payload, compression));
            &&& frame_body(payload, compression) == Some(plain_body(payload, compression))
            &&& parse_packet(
                frame + rest,
                packet.ty.spec_state(),
                compression,
                packet.ty.spec_direction(),
            ) == Ok::<PacketView, PacketError>(packet)
            &&& frame_extent(frame + rest) == frame.len()
        }),
{
    let payload = payload_bytes(packet.ty.spec_id(), packet.fields);
    lemma_plain_body_round_trip(payload, compression);
    lemma_framed_packet_round_trip(packet, compression, plain_body(payload, compression), rest);
}

/// What the bytes received so far hold at their front.
#[derive(Debug, Clone, PartialEq, Eq)]
pub enum Inbound {
    /// No whole frame yet: more bytes have to come. Nothing was consumed.
    Incomplete,
    /// The bytes do not start with the length of a frame, so the stream
    /// can no longer be cut into frames. Nothing was consumed.
    Unframed,
    /// A frame that held this packet. The frame was consumed.
    Received(Packet),
    /// A frame that held no packet, for this reason. The frame was
    /// consumed, and the stream goes on behind it.
    Discarded(PacketError),
}

/// What `bytes` hold at their front for a client on a connection in
/// `state` with `compression`, where `r` says it.
pub open spec fn inbound_is(
    bytes: Seq<u8>,
    state: ConnectionState,
    compression: CompressionStatus,
    r: Inbound,
) -> bool {
    match parse_prefixed(bytes) {
        Err(IoErrorKind::UnexpectedEof) => r == Inbound::Incomplete,
        Err(_) => r == Inbound::Unframed,
        Ok(_) => match parse_packet(bytes, state, compression, Direction::ClientBound) {
            Ok(packet) => r matches Inbound::Received(got) && got@ == packet,
            Err(e) => r == Inbound::Discarded(e),
        },
    }
}

impl Packet {
    /// Takes the next frame, if it is all there, off the bytes received so
    /// far, and tells a frame that has not fully come, a stream that is
    /// out of step, a packet, and a frame to drop from each other.
    pub fn next_inbound(buf: &mut ByteCursor, connection: &MinecraftConnection) -> (r: Inbound)
        ensures
            final(buf).data == old(buf).data,
            final(buf).position == old(buf).position + frame_extent(old(buf).remaining()),
            inbound_is(old(buf).remaining(), connection.state, connection.compression, r),
            r is Incomplete || r is Unframed <==> final(buf).position == old(buf).position,
    {
        let start = buf.position;
        proof {
            crate::varint::lemma_read_groups_bounds(buf.remaining(), 5);
        }
        match Packet::deserialize(buf, connection) {
            Ok(packet) => Inbound::Received(packet),
            Err(e) => {
                if buf.position == start {
                    match e {
                        PacketError::DeserializeIOError(IoErrorKind::UnexpectedEof) => {
                            Inbound::Incomplete
                        },
                        _ => Inbound::Unframed,
                    }
                } else {
                    Inbound::Discarded(e)
                }
            },
        }
    }
}

} // verus!
