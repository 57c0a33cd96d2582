//! Frames: an eight-byte little-endian length, then exactly that many bytes
//! of payload. One request frame and one response frame per connection.
use vstd::prelude::*;
use byteorder::{ByteOrder, LittleEndian};
use crate::error::ChookError;

verus! {

/// The eight little-endian bytes of `n`, least significant first.
pub open spec fn le_bytes(n: u64) -> Seq<u8> {
    seq![
        n as u8,
        (n >> 8u64) as u8,
        (n >> 16u64) as u8,
        (n >> 24u64) as u8,
        (n >> 32u64) as u8,
        (n >> 40u64) as u8,
        (n >> 48u64) as u8,
        (n >> 56u64) as u8,
    ]
}

/// The frame that carries `payload`.
pub open spec fn frame_of(payload: Seq<u8>) -> Seq<u8> {
    le_bytes(payload.len() as u64) + payload
}

/// Whether `bytes` is exactly one frame.
pub open spec fn is_frame(bytes: Seq<u8>) -> bool {
    exists|p: Seq<u8>| p.len() <= u64::MAX && bytes == frame_of(p)
}

/// The payload carried by `bytes`, if it is exactly one frame.
pub open spec fn parse_frame(bytes: Seq<u8>) -> Option<Seq<u8>> {
    if is_frame(bytes) {
        Some(bytes.subrange(8, bytes.len() as int))
    } else {
        None
    }
}

/// Different lengths have different little-endian bytes.
pub proof fn lemma_le_bytes_injective(a: u64, b: u64)
    requires
        le_bytes(a) == le_bytes(b),
    ensures
        a == b,
{
    let la = le_bytes(a);
    let lb = le_bytes(b);
    assert(la[0] == lb[0] && la[1] == lb[1] && la[2] == lb[2] && la[3] == lb[3]);
    assert(la[4] == lb[4] && la[5] == lb[5] && la[6] == lb[6] && la[7] == lb[7]);
    assert((a as u8 == b as u8 && (a >> 8u64) as u8 == (b >> 8u64) as u8
        && (a >> 16u64) as u8 == (b >> 16u64) as u8 && (a >> 24u64) as u8 == (b >> 24u64) as u8
        && (a >> 32u64) as u8 == (b >> 32u64) as u8 && (a >> 40u64) as u8 == (b >> 40u64) as u8
        && (a >> 48u64) as u8 == (b >> 48u64) as u8 && (a >> 56u64) as u8 == (b >> 56u64) as u8)
        ==> a == b) by (bit_vector);
}

/// Decoding the frame of a payload gives that payload back.
pub proof fn lemma_frame_round_trip(payload: Seq<u8>)
    requires
        payload.len() <= u64::MAX,
    ensures
        parse_frame(frame_of(payload)) == Some(payload),
{
    let f = frame_of(payload);
    assert(is_frame(f));
    assert(f.subrange(8, f.len() as int) =~= payload);
}

/// Relies on byteorder's `LittleEndian::write_u64`: it stores the
/// little-endian bytes of `n` in the first eight bytes of the buffer.
#[verifier::external_body]
fn store_u64_le(buf: &mut Vec<u8>, n: u64)
    requires
        old(buf)@.len() == 8,
    ensures
        final(buf)@ == le_bytes(n),
{
    LittleEndian::write_u64(buf.as_mut_slice(), n)
}

/// Relies on byteorder's `LittleEndian::read_u64`: it reads the first eight
/// bytes of the buffer as a little-endian integer.
#[verifier::external_body]
fn load_u64_le(buf: &[u8]) -> (r: u64)
    requires
        buf@.len() >= 8,
    ensures
        le_bytes(r) == buf@.subrange(0, 8),
{
    LittleEndian::read_u64(buf)
}

/// The eight-byte header announcing a payload of `len` bytes.
pub fn frame_header(len: u64) -> (r: Vec<u8>)
    ensures
        r@ == le_bytes(len),
{
    let mut buf: Vec<u8> = vec![0u8; 8];
    store_u64_le(&mut buf, len);
    buf
}

/// The frame that carries `payload`: its length, then its bytes.
pub fn encode_frame(payload: &[u8]) -> (r: Vec<u8>)
    ensures
        r@ == frame_of(payload@),
{
    let mut out = frame_header(payload.len() as u64);
    let mut i: usize = 0;
    while i < payload.len()
        invariant
            i <= payload@.len(),
            out@ == le_bytes(payload@.len() as u64) + payload@.subrange(0, i as int),
        decreases payload@.len() - i,
    {
        out.push(payload[i]);
        i = i + 1;
        assert(out@ =~= le_bytes(payload@.len() as u64) + payload@.subrange(0, i as int));
    }
    assert(payload@.subrange(0, i as int) =~= payload@);
    out
}

/// The payload length announced by an eight-byte header. Fails when the
/// header is not eight bytes long, or announces more bytes than this
/// machine can address.
pub fn body_len(header: &[u8]) -> (r: Result<usize, ChookError>)
    ensures
        match r {
            Ok(n) => header@.len() == 8 && header@ == le_bytes(n as u64),
            Err(_) => header@.len() != 8 || (exists|n: u64|
                n > usize::MAX && header@ == le_bytes(n)),
        },
{
    if header.len() != 8 {
        return Err(ChookError::new("reading frame length: short header"));
    }
    let n = load_u64_le(header);
    assert(header@.subrange(0, 8) =~= header@);
    if n > usize::MAX as u64 {
        return Err(ChookError::new("reading frame length: frame too large"));
    }
    Ok(n as usize)
}

/// The payload of `bytes`, which must be exactly one frame: a header and
/// as many payload bytes as it announces.
pub fn decode_frame(bytes: &[u8]) -> (r: Result<Vec<u8>, ChookError>)
    ensures
        match r {
            Ok(p) => parse_frame(bytes@) == Some(p@),
            Err(_) => parse_frame(bytes@) is None,
        },
{
    if bytes.len() < 8 {
        proof {
            if is_frame(bytes@) {
                let p = choose|p: Seq<u8>| p.len() <= u64::MAX && bytes@ == frame_of(p);
                assert(frame_of(p).len() >= 8);
            }
        }
        return Err(ChookError::new("reading frame: short header"));
    }
    let n = load_u64_le(bytes);
    let rest = bytes.len() - 8;
    if n != rest as u64 {
        proof {
            if is_frame(bytes@) {
                let p = choose|p: Seq<u8>| p.len() <= u64::MAX && bytes@ == frame_of(p);
                assert(bytes@.subrange(0, 8) =~= le_bytes(p.len() as u64));
                lemma_le_bytes_injective(n, p.len() as u64);
            }
        }
        return Err(ChookError::new("reading frame: length does not match body"));
    }
    let mut payload: Vec<u8> = Vec::new();
    let mut i: usize = 8;
    while i < bytes.len()
        invariant
            8 <= i <= bytes@.len(),
            payload@ == bytes@.subrange(8, i as int),
        decreases bytes@.len() - i,
    {
        payload.push(bytes[i]);
        i = i + 1;
        assert(payload@ =~= bytes@.subrange(8, i as int));
    }
    proof {
        let p = payload@;
        assert(bytes@ =~= frame_of(p));
        assert(is_frame(bytes@));
    }
    Ok(payload)
}

} // verus!
