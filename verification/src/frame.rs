//! Length-prefixed message framing codec.
//!
//! A wire frame is a 4-byte little-endian payload length followed by the
//! payload bytes. The configured maximum payload size bounds every
//! allocation: a frame that declares more is rejected before its payload
//! is read.

use vstd::prelude::*;
use crate::MAX_FRAME_PAYLOAD;

verus! {

/// Why a frame could not be decoded.
#[derive(Debug, Copy, Clone, PartialEq, Eq, Structural)]
pub enum FrameError {
    /// The declared payload length exceeds the configured maximum. The
    /// connection carrying such a frame must be abandoned.
    SizeExceeded,
    /// The data ends before the declared frame does.
    Truncated,
}

/// The four little-endian bytes of a 32-bit value, low byte first.
pub open spec fn u32_le(n: u32) -> Seq<u8> {
    seq![
        (n & 0xFF) as u8,
        ((n >> 8) & 0xFF) as u8,
        ((n >> 16) & 0xFF) as u8,
        ((n >> 24) & 0xFF) as u8,
    ]
}

/// The 32-bit value read from four little-endian bytes.
pub open spec fn le_u32(b0: u8, b1: u8, b2: u8, b3: u8) -> u32 {
    (b0 as u32) | ((b1 as u32) << 8) | ((b2 as u32) << 16) | ((b3 as u32) << 24)
}

/// The frame that carries `payload`: its length as 4 little-endian bytes,
/// then the payload itself, nothing more.
pub open spec fn spec_encode_frame(payload: Seq<u8>) -> Seq<u8>
    recommends
        payload.len() <= MAX_FRAME_PAYLOAD,
{
    u32_le(payload.len() as u32) + payload
}

/// The result of reading one frame from the front of `data`: `Ok(None)`
/// when `data` is empty (orderly end of the stream at a frame boundary),
/// otherwise the payload together with the number of bytes consumed, or
/// the error that the frame carries.
pub open spec fn spec_decode_frame(data: Seq<u8>) -> Result<Option<(Seq<u8>, int)>, FrameError> {
    if data.len() == 0 {
        Ok(None)
    } else if data.len() < 4 {
        Err(FrameError::Truncated)
    } else {
        let n = le_u32(data[0], data[1], data[2], data[3]) as int;
        if n > MAX_FRAME_PAYLOAD {
            Err(FrameError::SizeExceeded)
        } else if data.len() < 4 + n {
            Err(FrameError::Truncated)
        } else {
            Ok(Some((data.subrange(4, 4 + n), 4 + n)))
        }
    }
}

/// Prepends the payload's length as 4 little-endian bytes; no other
/// transformation.
pub fn encode_frame(payload: &[u8]) -> (r: Vec<u8>)
    requires
        payload@.len() <= MAX_FRAME_PAYLOAD,
    ensures
        r@ == spec_encode_frame(payload@),
{
    let n: u32 = payload.len() as u32;
    let mut out: Vec<u8> = Vec::new();
    out.push((n & 0xFF) as u8);
    out.push(((n >> 8) & 0xFF) as u8);
    out.push(((n >> 16) & 0xFF) as u8);
    out.push(((n >> 24) & 0xFF) as u8);
    let mut i: usize = 0;
    while i < payload.len()
        invariant
            i <= payload@.len(),
            out@ == u32_le((payload@.len() as u32)) + payload@.take(i as int),
        decreases payload@.len() - i,
    {
        out.push(*vstd::slice::slice_index_get(payload, i));
        proof {
            assert(u32_le((payload@.len() as u32)) + payload@.take(i + 1) =~= (u32_le(
                (payload@.len() as u32),
            ) + payload@.take(i as int)).push(payload@[i as int]));
        }
        i = i + 1;
    }
    proof {
        assert(u32_le((payload@.len() as u32)) + payload@.take(payload@.len() as int)
            =~= spec_encode_frame(payload@));
    }
    out
}

/// The payload length declared by a frame header, checked against the
/// configured maximum before any payload byte is read.
pub fn frame_payload_len(header: &[u8; 4]) -> (r: Result<usize, FrameError>)
    ensures
        match r {
            Ok(n) => n == le_u32(header@[0], header@[1], header@[2], header@[3])
                && n <= MAX_FRAME_PAYLOAD,
            Err(FrameError::SizeExceeded) => le_u32(header@[0], header@[1], header@[2], header@[3])
                > MAX_FRAME_PAYLOAD,
            Err(FrameError::Truncated) => false,
        },
{
    let b0 = *vstd::array::array_index_get(header, 0);
    let b1 = *vstd::array::array_index_get(header, 1);
    let b2 = *vstd::array::array_index_get(header, 2);
    let b3 = *vstd::array::array_index_get(header, 3);
    let n: u32 = (b0 as u32) | ((b1 as u32) << 8) | ((b2 as u32) << 16) | ((b3 as u32) << 24);
    proof {
        assert(n <= u32::MAX) by (bit_vector);
    }
    if n as usize > MAX_FRAME_PAYLOAD {
        Err(FrameError::SizeExceeded)
    } else {
        Ok(n as usize)
    }
}

/// Reads one frame from the front of `data`. An empty `data` is the
/// orderly end of the stream, not an error; a declared length over the
/// maximum is rejected before the payload is looked at; data that ends
/// before the declared frame does is a truncated read.
pub fn decode_frame(data: &[u8]) -> (r: Result<Option<(Vec<u8>, usize)>, FrameError>)
    ensures
        match r {
            Ok(None) => data@.len() == 0 && spec_decode_frame(data@) == Ok::<
                Option<(Seq<u8>, int)>,
                FrameError,
            >(None),
            Ok(Some((payload, consumed))) => spec_decode_frame(data@) == Ok::<
                Option<(Seq<u8>, int)>,
                FrameError,
            >(Some((payload@, consumed as int))),
            Err(e) => spec_decode_frame(data@) == Err::<Option<(Seq<u8>, int)>, FrameError>(e),
        },
{
    if data.len() == 0 {
        return Ok(None);
    }
    if data.len() < 4 {
        return Err(FrameError::Truncated);
    }
    let b0 = *vstd::slice::slice_index_get(data, 0);
    let b1 = *vstd::slice::slice_index_get(data, 1);
    let b2 = *vstd::slice::slice_index_get(data, 2);
    let b3 = *vstd::slice::slice_index_get(data, 3);
    let n: u32 = (b0 as u32) | ((b1 as u32) << 8) | ((b2 as u32) << 16) | ((b3 as u32) << 24);
    proof {
        assert(n <= u32::MAX) by (bit_vector);
    }
    let n_len = n as usize;
    if n_len > MAX_FRAME_PAYLOAD {
        return Err(FrameError::SizeExceeded);
    }
    if data.len() - 4 < n_len {
        return Err(FrameError::Truncated);
    }
    let mut payload: Vec<u8> = Vec::new();
    let mut i: usize = 0;
    while i < n_len
        invariant
            i <= n_len,
            4 + n_len <= data@.len(),
            data@.len() <= usize::MAX,
            payload@ == data@.subrange(4, 4 + i),
        decreases n_len - i,
    {
        payload.push(*vstd::slice::slice_index_get(data, 4 + i));
        proof {
            assert(data@.subrange(4, 4 + i + 1) =~= data@.subrange(4, 4 + i).push(
                data@[4 + i],
            ));
        }
        i = i + 1;
    }
    Ok(Some((payload, 4 + n_len)))
}

/// Reading the four little-endian bytes of a 32-bit value gives the value
/// back.
pub proof fn lemma_le_u32_round_trip(n: u32)
    ensures
        le_u32(
            (n & 0xFF) as u8,
            ((n >> 8) & 0xFF) as u8,
            ((n >> 16) & 0xFF) as u8,
            ((n >> 24) & 0xFF) as u8,
        ) == n,
{
    assert((((n & 0xFF) as u8) as u32) | ((((n >> 8) & 0xFF) as u8) as u32) << 8 | ((((n >> 16)
        & 0xFF) as u8) as u32) << 16 | ((((n >> 24) & 0xFF) as u8) as u32) << 24 == n)
        by (bit_vector);
}

/// Frame round trip: every payload within the configured maximum is
/// returned unchanged by decoding its own frame, and decoding consumes
/// exactly the frame.
pub proof fn lemma_frame_round_trip(payload: Seq<u8>)
    requires
        payload.len() <= MAX_FRAME_PAYLOAD,
    ensures
        spec_decode_frame(spec_encode_frame(payload)) == Ok::<
            Option<(Seq<u8>, int)>,
            FrameError,
        >(Some((payload, payload.len() as int + 4))),
{
    let frame = spec_encode_frame(payload);
    let n = payload.len() as u32;
    lemma_le_u32_round_trip(n);
    assert(frame.len() == 4 + payload.len());
    assert(frame[0] == (n & 0xFF) as u8 && frame[1] == ((n >> 8) & 0xFF) as u8 && frame[2] == ((n
        >> 16) & 0xFF) as u8 && frame[3] == ((n >> 24) & 0xFF) as u8);
    assert(le_u32(frame[0], frame[1], frame[2], frame[3]) == payload.len());
    assert(frame.subrange(4, 4 + payload.len() as int) =~= payload);
}

/// A frame whose declared length exceeds the maximum is rejected with
/// `SizeExceeded`, whatever bytes follow the header: the payload is never
/// looked at.
pub proof fn lemma_frame_rejects_oversize(data: Seq<u8>)
    requires
        data.len() >= 4,
        le_u32(data[0], data[1], data[2], data[3]) > MAX_FRAME_PAYLOAD,
    ensures
        spec_decode_frame(data) == Err::<Option<(Seq<u8>, int)>, FrameError>(
            FrameError::SizeExceeded,
        ),
{
}

} // verus!
