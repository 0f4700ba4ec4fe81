use vstd::prelude::*;

use crate::protocol::messages::RequestId;

verus! {

/// Type byte of a data frame: `[0x00][16-byte transfer id][8-byte offset][chunk]`.
pub const FRAME_TYPE_DATA: u8 = 0x00;

/// Type byte of a control frame: `[0x01][JSON of a control message]`.
pub const FRAME_TYPE_CONTROL: u8 = 0x01;

/// Type byte of a multi-file data frame (protocol version 2), which also names the file the
/// chunk belongs to: `[0x02][16-byte transfer id][4-byte file index][8-byte offset][chunk]`.
pub const FRAME_TYPE_DATA_V2: u8 = 0x02;

/// The four big-endian bytes of `x`.
pub open spec fn u32_be(x: u32) -> Seq<u8> {
    seq![(x >> 24) as u8, (x >> 16) as u8, (x >> 8) as u8, x as u8]
}

/// The number that the first four bytes of `s` spell in big-endian order.
pub open spec fn u32_from_be(s: Seq<u8>) -> u32 {
    (s[0] as u32) << 24 | (s[1] as u32) << 16 | (s[2] as u32) << 8 | (s[3] as u32)
}

/// The eight big-endian bytes of `x`.
pub open spec fn u64_be(x: u64) -> Seq<u8> {
    seq![
        (x >> 56) as u8,
        (x >> 48) as u8,
        (x >> 40) as u8,
        (x >> 32) as u8,
        (x >> 24) as u8,
        (x >> 16) as u8,
        (x >> 8) as u8,
        x as u8,
    ]
}

/// The sixteen big-endian bytes of `x` (the byte order of a UUID).
pub open spec fn u128_be(x: u128) -> Seq<u8> {
    seq![
        (x >> 120) as u8,
        (x >> 112) as u8,
        (x >> 104) as u8,
        (x >> 96) as u8,
        (x >> 88) as u8,
        (x >> 80) as u8,
        (x >> 72) as u8,
        (x >> 64) as u8,
        (x >> 56) as u8,
        (x >> 48) as u8,
        (x >> 40) as u8,
        (x >> 32) as u8,
        (x >> 24) as u8,
        (x >> 16) as u8,
        (x >> 8) as u8,
        x as u8,
    ]
}

/// The number that the first eight bytes of `s` spell in big-endian order.
pub open spec fn u64_from_be(s: Seq<u8>) -> u64 {
    (s[0] as u64) << 56 | (s[1] as u64) << 48 | (s[2] as u64) << 40 | (s[3] as u64) << 32 | (
    s[4] as u64) << 24 | (s[5] as u64) << 16 | (s[6] as u64) << 8 | (s[7] as u64)
}

/// The number that the first sixteen bytes of `s` spell in big-endian order.
pub open spec fn u128_from_be(s: Seq<u8>) -> u128 {
    (s[0] as u128) << 120 | (s[1] as u128) << 112 | (s[2] as u128) << 104 | (s[3] as u128) << 96
        | (s[4] as u128) << 88 | (s[5] as u128) << 80 | (s[6] as u128) << 72 | (s[7] as u128)
        << 64 | (s[8] as u128) << 56 | (s[9] as u128) << 48 | (s[10] as u128) << 40 | (
    s[11] as u128) << 32 | (s[12] as u128) << 24 | (s[13] as u128) << 16 | (s[14] as u128) << 8
        | (s[15] as u128)
}

/// The bytes of a data frame carrying `chunk` of transfer `id` at byte `offset`.
pub open spec fn data_frame(id: RequestId, offset: u64, chunk: Seq<u8>) -> Seq<u8> {
    seq![FRAME_TYPE_DATA] + u128_be(id) + u64_be(offset) + chunk
}

/// The bytes of a multi-file data frame carrying `chunk` of file `file_index` of transfer
/// `id`, at byte `offset` of the transfer.
pub open spec fn data_frame_v2(id: RequestId, file_index: u32, offset: u64, chunk: Seq<u8>) -> Seq<u8> {
    seq![FRAME_TYPE_DATA_V2] + u128_be(id) + u32_be(file_index) + u64_be(offset) + chunk
}

/// The bytes of a control frame carrying `json`.
pub open spec fn control_frame(json: Seq<u8>) -> Seq<u8> {
    seq![FRAME_TYPE_CONTROL] + json
}

/// A frame split into its type byte and payload; none for an empty frame.
pub open spec fn frame_parts(frame: Seq<u8>) -> Option<(u8, Seq<u8>)> {
    if frame.len() == 0 {
        None
    } else {
        Some((frame[0], frame.drop_first()))
    }
}

/// A data frame's payload split into transfer id, offset and chunk; none when it is too
/// short to hold the id and the offset.
pub open spec fn data_parts(payload: Seq<u8>) -> Option<(RequestId, u64, Seq<u8>)> {
    if payload.len() < 24 {
        None
    } else {
        Some(
            (
                u128_from_be(payload.subrange(0, 16)),
                u64_from_be(payload.subrange(16, 24)),
                payload.subrange(24, payload.len() as int),
            ),
        )
    }
}

/// A multi-file data frame's payload split into transfer id, file index, offset and chunk;
/// none when it is too short to hold the three.
pub open spec fn data_parts_v2(payload: Seq<u8>) -> Option<(RequestId, u32, u64, Seq<u8>)> {
    if payload.len() < 28 {
        None
    } else {
        Some(
            (
                u128_from_be(payload.subrange(0, 16)),
                u32_from_be(payload.subrange(16, 20)),
                u64_from_be(payload.subrange(20, 28)),
                payload.subrange(28, payload.len() as int),
            ),
        )
    }
}

/// Reading back the big-endian bytes of a 32-bit number gives the number.
pub proof fn lemma_u32_be_round_trip(x: u32)
    ensures
        u32_be(x).len() == 4,
        u32_from_be(u32_be(x)) == x,
{
    assert(((((x >> 24) as u8) as u32) << 24 | (((x >> 16) as u8) as u32) << 16 | (((x >> 8)
        as u8) as u32) << 8 | ((x as u8) as u32)) == x) by (bit_vector);
}

/// Reading back the big-endian bytes of a number gives the number.
pub proof fn lemma_u64_be_round_trip(x: u64)
    ensures
        u64_be(x).len() == 8,
        u64_from_be(u64_be(x)) == x,
{
    assert(((((x >> 56) as u8) as u64) << 56 | (((x >> 48) as u8) as u64) << 48 | (((x
        >> 40) as u8) as u64) << 40 | (((x >> 32) as u8) as u64) << 32 | (((x >> 24) as u8)
        as u64) << 24 | (((x >> 16) as u8) as u64) << 16 | (((x >> 8) as u8) as u64) << 8 | ((
    x as u8) as u64)) == x) by (bit_vector);
}

/// Reading back the big-endian bytes of a 128-bit number gives the number.
pub proof fn lemma_u128_be_round_trip(x: u128)
    ensures
        u128_be(x).len() == 16,
        u128_from_be(u128_be(x)) == x,
{
    assert(((((x >> 120) as u8) as u128) << 120 | (((x >> 112) as u8) as u128) << 112 | (((x
        >> 104) as u8) as u128) << 104 | (((x >> 96) as u8) as u128) << 96 | (((x >> 88) as u8)
        as u128) << 88 | (((x >> 80) as u8) as u128) << 80 | (((x >> 72) as u8) as u128) << 72
        | (((x >> 64) as u8) as u128) << 64 | (((x >> 56) as u8) as u128) << 56 | (((x >> 48)
        as u8) as u128) << 48 | (((x >> 40) as u8) as u128) << 40 | (((x >> 32) as u8) as u128)
        << 32 | (((x >> 24) as u8) as u128) << 24 | (((x >> 16) as u8) as u128) << 16 | (((x
        >> 8) as u8) as u128) << 8 | ((x as u8) as u128)) == x) by (bit_vector);
}

/// Encode a chunk of a transfer as a data frame.
pub fn encode_data_frame(transfer_id: RequestId, offset: u64, data: &[u8]) -> (r: Vec<u8>)
    ensures
        r@ == data_frame(transfer_id, offset, data@),
{
    let mut r: Vec<u8> = Vec::new();
    r.push(FRAME_TYPE_DATA);
    r.push((transfer_id >> 120) as u8);
    r.push((transfer_id >> 112) as u8);
    r.push((transfer_id >> 104) as u8);
    r.push((transfer_id >> 96) as u8);
    r.push((transfer_id >> 88) as u8);
    r.push((transfer_id >> 80) as u8);
    r.push((transfer_id >> 72) as u8);
    r.push((transfer_id >> 64) as u8);
    r.push((transfer_id >> 56) as u8);
    r.push((transfer_id >> 48) as u8);
    r.push((transfer_id >> 40) as u8);
    r.push((transfer_id >> 32) as u8);
    r.push((transfer_id >> 24) as u8);
    r.push((transfer_id >> 16) as u8);
    r.push((transfer_id >> 8) as u8);
    r.push(transfer_id as u8);
    r.push((offset >> 56) as u8);
    r.push((offset >> 48) as u8);
    r.push((offset >> 40) as u8);
    r.push((offset >> 32) as u8);
    r.push((offset >> 24) as u8);
    r.push((offset >> 16) as u8);
    r.push((offset >> 8) as u8);
    r.push(offset as u8);
    assert(r@ =~= seq![FRAME_TYPE_DATA] + u128_be(transfer_id) + u64_be(offset));
    r.extend_from_slice(data);
    assert(r@ =~= data_frame(transfer_id, offset, data@));
    r
}

/// Encode the JSON of a control message as a control frame.
pub fn encode_control_frame(json: &[u8]) -> (r: Vec<u8>)
    ensures
        r@ == control_frame(json@),
{
    let mut r: Vec<u8> = Vec::new();
    r.push(FRAME_TYPE_CONTROL);
    r.extend_from_slice(json);
    assert(r@ =~= control_frame(json@));
    r
}

/// Split a frame into its type byte and payload; `None` for an empty frame.
pub fn decode_frame_type(frame: &[u8]) -> (r: Option<(u8, &[u8])>)
    ensures
        match r {
            Some((t, p)) => frame_parts(frame@) == Some((t, p@)),
            None => frame_parts(frame@) is None,
        },
{
    if frame.len() == 0 {
        None
    } else {
        let (head, payload) = frame.split_at(1);
        assert(payload@ =~= frame@.drop_first());
        Some((head[0], payload))
    }
}

/// Split a data frame's payload into transfer id, offset and chunk; `None` when it is shorter
/// than the 24 bytes of id and offset.
pub fn decode_data_frame(payload: &[u8]) -> (r: Option<(RequestId, u64, &[u8])>)
    ensures
        match r {
            Some((id, offset, chunk)) => data_parts(payload@) == Some((id, offset, chunk@)),
            None => data_parts(payload@) is None,
        },
{
    if payload.len() < 24 {
        return None;
    }
    let p = payload;
    let id: u128 = (p[0] as u128) << 120 | (p[1] as u128) << 112 | (p[2] as u128) << 104 | (
    p[3] as u128) << 96 | (p[4] as u128) << 88 | (p[5] as u128) << 80 | (p[6] as u128) << 72 | (
    p[7] as u128) << 64 | (p[8] as u128) << 56 | (p[9] as u128) << 48 | (p[10] as u128) << 40
        | (p[11] as u128) << 32 | (p[12] as u128) << 24 | (p[13] as u128) << 16 | (p[14] as u128)
        << 8 | (p[15] as u128);
    let offset: u64 = (p[16] as u64) << 56 | (p[17] as u64) << 48 | (p[18] as u64) << 40 | (
    p[19] as u64) << 32 | (p[20] as u64) << 24 | (p[21] as u64) << 16 | (p[22] as u64) << 8 | (
    p[23] as u64);
    let (_, chunk) = payload.split_at(24);
    assert(chunk@ =~= payload@.subrange(24, payload@.len() as int));
    Some((id, offset, chunk))
}

/// Encode a chunk of file `file_index` of a transfer as a multi-file data frame.
pub fn encode_data_frame_v2(transfer_id: RequestId, file_index: u32, offset: u64, data: &[u8]) -> (r: Vec<u8>)
    ensures
        r@ == data_frame_v2(transfer_id, file_index, offset, data@),
{
    let v1 = encode_data_frame(transfer_id, offset, data);
    let mut r: Vec<u8> = Vec::new();
    r.push(FRAME_TYPE_DATA_V2);
    let mut i: usize = 1;
    while i < 17
        invariant
            1 <= i <= 17,
            v1@ == data_frame(transfer_id, offset, data@),
            r@ == seq![FRAME_TYPE_DATA_V2] + v1@.subrange(1, i as int),
        decreases 17 - i,
    {
        r.push(v1[i]);
        i = i + 1;
        assert(r@ =~= seq![FRAME_TYPE_DATA_V2] + v1@.subrange(1, i as int));
    }
    assert(v1@.subrange(1, 17) =~= u128_be(transfer_id));
    r.push((file_index >> 24) as u8);
    r.push((file_index >> 16) as u8);
    r.push((file_index >> 8) as u8);
    r.push(file_index as u8);
    let mut j: usize = 17;
    let n = v1.len();
    while j < n
        invariant
            17 <= j <= n,
            n == v1@.len(),
            v1@ == data_frame(transfer_id, offset, data@),
            r@ == seq![FRAME_TYPE_DATA_V2] + u128_be(transfer_id) + u32_be(file_index) + v1@.subrange(
                17,
                j as int,
            ),
        decreases n - j,
    {
        r.push(v1[j]);
        j = j + 1;
        assert(r@ =~= seq![FRAME_TYPE_DATA_V2] + u128_be(transfer_id) + u32_be(file_index)
            + v1@.subrange(17, j as int));
    }
    assert(v1@.subrange(17, n as int) =~= u64_be(offset) + data@);
    assert(r@ =~= data_frame_v2(transfer_id, file_index, offset, data@));
    r
}

/// Split a multi-file data frame's payload into transfer id, file index, offset and chunk;
/// `None` when it is shorter than the 28 bytes of id, index and offset.
pub fn decode_data_frame_v2(payload: &[u8]) -> (r: Option<(RequestId, u32, u64, &[u8])>)
    ensures
        match r {
            Some((id, index, offset, chunk)) => data_parts_v2(payload@) == Some(
                (id, index, offset, chunk@),
            ),
            None => data_parts_v2(payload@) is None,
        },
{
    if payload.len() < 28 {
        return None;
    }
    let p = payload;
    let id: u128 = (p[0] as u128) << 120 | (p[1] as u128) << 112 | (p[2] as u128) << 104 | (
    p[3] as u128) << 96 | (p[4] as u128) << 88 | (p[5] as u128) << 80 | (p[6] as u128) << 72 | (
    p[7] as u128) << 64 | (p[8] as u128) << 56 | (p[9] as u128) << 48 | (p[10] as u128) << 40
        | (p[11] as u128) << 32 | (p[12] as u128) << 24 | (p[13] as u128) << 16 | (p[14] as u128)
        << 8 | (p[15] as u128);
    let index: u32 = (p[16] as u32) << 24 | (p[17] as u32) << 16 | (p[18] as u32) << 8 | (
    p[19] as u32);
    let offset: u64 = (p[20] as u64) << 56 | (p[21] as u64) << 48 | (p[22] as u64) << 40 | (
    p[23] as u64) << 32 | (p[24] as u64) << 24 | (p[25] as u64) << 16 | (p[26] as u64) << 8 | (
    p[27] as u64);
    let (_, chunk) = payload.split_at(28);
    assert(chunk@ =~= payload@.subrange(28, payload@.len() as int));
    Some((id, index, offset, chunk))
}

/// What a multi-file data frame carries comes back out of it: its type byte is the
/// multi-file data type, and its payload gives back the transfer id, the file index, the
/// offset and the chunk.
pub proof fn law_data_frame_v2_round_trip(id: RequestId, file_index: u32, offset: u64, chunk: Seq<u8>)
    ensures
        frame_parts(data_frame_v2(id, file_index, offset, chunk)) matches Some((t, payload)) && t
            == FRAME_TYPE_DATA_V2 && data_parts_v2(payload) == Some((id, file_index, offset, chunk)),
{
    lemma_u128_be_round_trip(id);
    lemma_u32_be_round_trip(file_index);
    lemma_u64_be_round_trip(offset);
    let payload = data_frame_v2(id, file_index, offset, chunk).drop_first();
    assert(payload =~= u128_be(id) + u32_be(file_index) + u64_be(offset) + chunk);
    assert(payload.subrange(0, 16) =~= u128_be(id));
    assert(payload.subrange(16, 20) =~= u32_be(file_index));
    assert(payload.subrange(20, 28) =~= u64_be(offset));
    assert(payload.subrange(28, payload.len() as int) =~= chunk);
}

/// What a data frame carries comes back out of it: its type byte is the data type, and its
/// payload gives back the transfer id, the offset and the chunk.
pub proof fn law_data_frame_round_trip(id: RequestId, offset: u64, chunk: Seq<u8>)
    ensures
        frame_parts(data_frame(id, offset, chunk)) matches Some((t, payload)) && t
            == FRAME_TYPE_DATA && data_parts(payload) == Some((id, offset, chunk)),
{
    lemma_u128_be_round_trip(id);
    lemma_u64_be_round_trip(offset);
    let frame = data_frame(id, offset, chunk);
    let payload = frame.drop_first();
    assert(payload =~= u128_be(id) + u64_be(offset) + chunk);
    assert(payload.subrange(0, 16) =~= u128_be(id));
    assert(payload.subrange(16, 24) =~= u64_be(offset));
    assert(payload.subrange(24, payload.len() as int) =~= chunk);
}

/// The JSON a control frame carries comes back out of it, under the control type byte.
pub proof fn law_control_frame_round_trip(json: Seq<u8>)
    ensures
        frame_parts(control_frame(json)) == Some((FRAME_TYPE_CONTROL, json)),
{
    assert(control_frame(json).drop_first() =~= json);
}

/// What a decrypted frame holds.
#[derive(Debug)]
pub enum FrameContent<'a> {
    /// A chunk of a transfer, at a byte offset of the transfer; a multi-file frame also names
    /// the file it belongs to.
    Data { transfer_id: RequestId, file_index: Option<u32>, offset: u64, chunk: &'a [u8] },
    /// The JSON of a control message.
    Control(&'a [u8]),
    /// A frame of a type this side does not know, to be skipped.
    Unknown(u8),
}

/// Why a frame could not be read.
#[derive(Clone, Copy, Debug, PartialEq, Eq, Structural)]
pub enum FrameError {
    /// The frame has no type byte.
    Empty,
    /// A data frame too short for its header.
    TruncatedData,
}

/// Read a decrypted frame: a data frame (single- or multi-file) gives its transfer id, file
/// index, offset and chunk, a control frame its JSON, any other type byte is reported as
/// unknown. An empty frame, or a data frame too short for its header, is an error.
pub fn classify_frame(frame: &[u8]) -> (r: Result<FrameContent<'_>, FrameError>)
    ensures
        match r {
            Ok(FrameContent::Data { transfer_id, file_index: None, offset, chunk }) => frame_parts(
                frame@,
            ) matches Some((t, payload)) && t == FRAME_TYPE_DATA && data_parts(payload) == Some(
                (transfer_id, offset, chunk@),
            ),
            Ok(FrameContent::Data { transfer_id, file_index: Some(index), offset, chunk }) => frame_parts(
                frame@,
            ) matches Some((t, payload)) && t == FRAME_TYPE_DATA_V2 && data_parts_v2(payload) == Some(
                (transfer_id, index, offset, chunk@),
            ),
            Ok(FrameContent::Control(json)) => frame_parts(frame@) == Some((FRAME_TYPE_CONTROL, json@)),
            Ok(FrameContent::Unknown(t)) => frame_parts(frame@) matches Some((u, _)) && u == t && t
                != FRAME_TYPE_DATA && t != FRAME_TYPE_CONTROL && t != FRAME_TYPE_DATA_V2,
            Err(FrameError::Empty) => frame@.len() == 0,
            Err(FrameError::TruncatedData) => frame_parts(frame@) matches Some((t, payload)) && ((t
                == FRAME_TYPE_DATA && payload.len() < 24) || (t == FRAME_TYPE_DATA_V2
                && payload.len() < 28)),
        },
{
    match decode_frame_type(frame) {
        None => Err(FrameError::Empty),
        Some((t, payload)) => {
            if t == FRAME_TYPE_DATA {
                match decode_data_frame(payload) {
                    Some((transfer_id, offset, chunk)) => Ok(
                        FrameContent::Data { transfer_id, file_index: None, offset, chunk },
                    ),
                    None => Err(FrameError::TruncatedData),
                }
            } else if t == FRAME_TYPE_DATA_V2 {
                match decode_data_frame_v2(payload) {
                    Some((transfer_id, index, offset, chunk)) => Ok(
                        FrameContent::Data { transfer_id, file_index: Some(index), offset, chunk },
                    ),
                    None => Err(FrameError::TruncatedData),
                }
            } else if t == FRAME_TYPE_CONTROL {
                Ok(FrameContent::Control(payload))
            } else {
                Ok(FrameContent::Unknown(t))
            }
        },
    }
}

} // verus!
