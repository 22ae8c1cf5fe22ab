//! Compact padding-free binary-to-text token codec.
//!
//! The codec packs bytes into a fixed 64-symbol alphabet,
//! `abcdefghijklmnopqrstuvwxyzABCDEFGHIJKLMNOPQRSTUVWXYZ0123456789+/`
//! (indices 0 through 63). Each full group of 3 input bytes becomes 4
//! symbols; a trailing group of 2 bytes becomes 3 symbols and a trailing
//! group of 1 byte becomes 2 symbols, the missing low bits of the last
//! symbol treated as zero. No padding symbol is ever emitted.

use vstd::prelude::*;
use crate::json::push_char;

verus! {

/// Why a token could not be decoded.
#[derive(Debug, Copy, Clone, PartialEq, Eq, Structural)]
pub enum TokenError {
    /// A character of the token is outside the 64-symbol alphabet.
    UnknownSymbol,
    /// The token ends in a group of exactly one symbol, which cannot
    /// represent a whole byte.
    MalformedToken,
}

/// The alphabet byte (ASCII code) of the symbol with index `v`.
pub open spec fn sym_of(v: u8) -> u8
    recommends
        v < 64,
{
    if v < 26 {
        (97 + v) as u8  // 'a'..='z'
    } else if v < 52 {
        (39 + v) as u8  // 'A'..='Z'
    } else if v < 62 {
        (v - 4) as u8  // '0'..='9'
    } else if v == 62 {
        43  // '+'
    } else {
        47  // '/'
    }
}

/// The symbol character with index `v`.
pub open spec fn sym_char(v: u8) -> char {
    sym_of(v) as char
}

/// The index of `c` in the alphabet, or 255 when `c` is no symbol.
pub open spec fn char_val(c: char) -> u8 {
    if 'a' <= c && c <= 'z' {
        (c as u32 - 97) as u8
    } else if 'A' <= c && c <= 'Z' {
        (c as u32 - 65 + 26) as u8
    } else if '0' <= c && c <= '9' {
        (c as u32 - 48 + 52) as u8
    } else if c == '+' {
        62
    } else if c == '/' {
        63
    } else {
        255
    }
}

/// Whether `c` belongs to the 64-symbol alphabet.
pub open spec fn is_sym(c: char) -> bool {
    char_val(c) < 64
}

/// Every character of `tok` belongs to the alphabet.
pub open spec fn all_syms(tok: Seq<char>) -> bool {
    forall|i: int| 0 <= i < tok.len() ==> is_sym(#[trigger] tok[i])
}

/// The token that encodes `data`: 6-bit chunks of each group of up to
/// 3 bytes, high bits first, mapped through the alphabet.
pub open spec fn b64_encode(data: Seq<u8>) -> Seq<char>
    decreases data.len(),
{
    if data.len() == 0 {
        Seq::empty()
    } else if data.len() == 1 {
        seq![sym_char(data[0] >> 2), sym_char((data[0] & 3) << 4)]
    } else if data.len() == 2 {
        seq![
            sym_char(data[0] >> 2),
            sym_char(((data[0] & 3) << 4) | (data[1] >> 4)),
            sym_char((data[1] & 15) << 2),
        ]
    } else {
        seq![
            sym_char(data[0] >> 2),
            sym_char(((data[0] & 3) << 4) | (data[1] >> 4)),
            sym_char(((data[1] & 15) << 2) | (data[2] >> 6)),
            sym_char(data[2] & 63),
        ] + b64_encode(data.skip(3))
    }
}

/// The bytes held by a token, read in groups of 4 symbols with a trailing
/// group of 3 or 2; meaningful when the token is made of alphabet symbols
/// and no trailing group of 1 remains.
pub open spec fn b64_decode_val(tok: Seq<char>) -> Seq<u8>
    decreases tok.len(),
{
    if tok.len() < 2 {
        Seq::empty()
    } else if tok.len() == 2 {
        seq![(char_val(tok[0]) << 2) | (char_val(tok[1]) >> 4)]
    } else if tok.len() == 3 {
        seq![
            (char_val(tok[0]) << 2) | (char_val(tok[1]) >> 4),
            ((char_val(tok[1]) & 15) << 4) | (char_val(tok[2]) >> 2),
        ]
    } else {
        seq![
            (char_val(tok[0]) << 2) | (char_val(tok[1]) >> 4),
            ((char_val(tok[1]) & 15) << 4) | (char_val(tok[2]) >> 2),
            ((char_val(tok[2]) & 3) << 6) | char_val(tok[3]),
        ] + b64_decode_val(tok.skip(4))
    }
}

/// The alphabet index of the symbol character `c`, or 255 when `c` is
/// no symbol.
fn char_val_exec(c: char) -> (v: u8)
    ensures
        v == char_val(c),
{
    if 'a' <= c && c <= 'z' {
        (c as u32 - 97) as u8
    } else if 'A' <= c && c <= 'Z' {
        (c as u32 - 65 + 26) as u8
    } else if '0' <= c && c <= '9' {
        (c as u32 - 48 + 52) as u8
    } else if c == '+' {
        62
    } else if c == '/' {
        63
    } else {
        255
    }
}

/// The symbol character with index `v`.
fn sym_char_exec(v: u8) -> (c: char)
    requires
        v < 64,
    ensures
        c == sym_char(v),
{
    if v < 26 {
        (97 + v) as char
    } else if v < 52 {
        (39 + v) as char
    } else if v < 62 {
        (v - 4) as char
    } else if v == 62 {
        43 as char
    } else {
        47 as char
    }
}

/// Encodes `data` as a compact token over the fixed 64-symbol alphabet,
/// without padding.
pub fn encode_b64(data: &[u8]) -> (r: String)
    ensures
        r@ == b64_encode(data@),
{
    let mut out = String::new();
    let mut i: usize = 0;
    let len: usize = data.len();
    proof {
        assert(data@.skip(0) =~= data@);
        assert(out@ + b64_encode(data@) =~= b64_encode(data@));
    }
    while len - i >= 3
        invariant
            i <= len,
            len == data@.len(),
            b64_encode(data@) == out@ + b64_encode(data@.skip(i as int)),
        decreases len - i,
    {
        let b0 = *vstd::slice::slice_index_get(data, i);
        let b1 = *vstd::slice::slice_index_get(data, i + 1);
        let b2 = *vstd::slice::slice_index_get(data, i + 2);
        proof {
            lemma_group_chunks_in_range(b0, b1, b2);
        }
        push_char(&mut out, sym_char_exec(b0 >> 2));
        push_char(&mut out, sym_char_exec(((b0 & 3) << 4) | (b1 >> 4)));
        push_char(&mut out, sym_char_exec(((b1 & 15) << 2) | (b2 >> 6)));
        push_char(&mut out, sym_char_exec(b2 & 63));
        proof {
            let tail = data@.skip(i as int);
            assert(tail[0] == b0 && tail[1] == b1 && tail[2] == b2);
            assert(tail.skip(3) =~= data@.skip(i + 3));
        }
        i = i + 3;
    }
    if len - i == 2 {
        let b0 = *vstd::slice::slice_index_get(data, i);
        let b1 = *vstd::slice::slice_index_get(data, i + 1);
        proof {
            lemma_group_chunks_in_range(b0, b1, 0);
            let tail = data@.skip(i as int);
            assert(tail[0] == b0 && tail[1] == b1);
        }
        push_char(&mut out, sym_char_exec(b0 >> 2));
        push_char(&mut out, sym_char_exec(((b0 & 3) << 4) | (b1 >> 4)));
        push_char(&mut out, sym_char_exec((b1 & 15) << 2));
    } else if len - i == 1 {
        let b0 = *vstd::slice::slice_index_get(data, i);
        proof {
            lemma_group_chunks_in_range(b0, 0, 0);
            let tail = data@.skip(i as int);
            assert(tail[0] == b0);
        }
        push_char(&mut out, sym_char_exec(b0 >> 2));
        push_char(&mut out, sym_char_exec((b0 & 3) << 4));
    } else {
        proof {
            assert(data@.skip(i as int) =~= Seq::<u8>::empty());
        }
    }
    out
}

/// Decodes a compact token back to its bytes. Rejects a token whose
/// length leaves a trailing group of one symbol, and a token holding any
/// character outside the alphabet.
pub fn decode_b64(token: &str) -> (r: Result<Vec<u8>, TokenError>)
    ensures
        match r {
            Ok(v) => token@.len() % 4 != 1 && all_syms(token@) && v@ == b64_decode_val(token@),
            Err(TokenError::MalformedToken) => token@.len() % 4 == 1,
            Err(TokenError::UnknownSymbol) => token@.len() % 4 != 1 && !all_syms(token@),
        },
{
    let len: usize = token.unicode_len();
    if len % 4 == 1 {
        return Err(TokenError::MalformedToken);
    }
    let mut out: Vec<u8> = Vec::new();
    let mut i: usize = 0;
    proof {
        assert(token@.skip(0) =~= token@);
        assert(out@ + b64_decode_val(token@) =~= b64_decode_val(token@));
    }
    while len - i >= 4
        invariant
            i <= len,
            i % 4 == 0,
            len % 4 != 1,
            len == token@.len(),
            forall|j: int| 0 <= j < i ==> is_sym(#[trigger] token@[j]),
            b64_decode_val(token@) == out@ + b64_decode_val(token@.skip(i as int)),
        decreases len - i,
    {
        let v0 = char_val_exec(token.get_char(i));
        let v1 = char_val_exec(token.get_char(i + 1));
        let v2 = char_val_exec(token.get_char(i + 2));
        let v3 = char_val_exec(token.get_char(i + 3));
        if v0 > 63 || v1 > 63 || v2 > 63 || v3 > 63 {
            return Err(TokenError::UnknownSymbol);
        }
        out.push((v0 << 2) | (v1 >> 4));
        out.push(((v1 & 15) << 4) | (v2 >> 2));
        out.push(((v2 & 3) << 6) | v3);
        proof {
            let tail = token@.skip(i as int);
            assert(tail[0] == token@[i as int]);
            assert(tail[1] == token@[i + 1]);
            assert(tail[2] == token@[i + 2]);
            assert(tail[3] == token@[i + 3]);
            assert(tail.skip(4) =~= token@.skip(i + 4));
        }
        i = i + 4;
    }
    if len - i == 3 {
        let v0 = char_val_exec(token.get_char(i));
        let v1 = char_val_exec(token.get_char(i + 1));
        let v2 = char_val_exec(token.get_char(i + 2));
        if v0 > 63 || v1 > 63 || v2 > 63 {
            return Err(TokenError::UnknownSymbol);
        }
        proof {
            let tail = token@.skip(i as int);
            assert(tail[0] == token@[i as int]);
            assert(tail[1] == token@[i + 1]);
            assert(tail[2] == token@[i + 2]);
        }
        out.push((v0 << 2) | (v1 >> 4));
        out.push(((v1 & 15) << 4) | (v2 >> 2));
    } else if len - i == 2 {
        let v0 = char_val_exec(token.get_char(i));
        let v1 = char_val_exec(token.get_char(i + 1));
        if v0 > 63 || v1 > 63 {
            return Err(TokenError::UnknownSymbol);
        }
        proof {
            let tail = token@.skip(i as int);
            assert(tail[0] == token@[i as int] && tail[1] == token@[i + 1]);
        }
        out.push((v0 << 2) | (v1 >> 4));
    } else {
        proof {
            assert(len - i == 0);
            assert(token@.skip(i as int) =~= Seq::<char>::empty());
        }
    }
    Ok(out)
}

/// The 6-bit chunks cut from a group of bytes are below 64.
proof fn lemma_group_chunks_in_range(b0: u8, b1: u8, b2: u8)
    by (bit_vector)
    ensures
        b0 >> 2 < 64,
        ((b0 & 3) << 4) | (b1 >> 4) < 64,
        ((b1 & 15) << 2) | (b2 >> 6) < 64,
        b2 & 63 < 64,
        (b0 & 3) << 4 < 64,
        (b1 & 15) << 2 < 64,
{
}

/// Reassembling the 6-bit chunks of a group of 3 bytes gives the bytes back.
proof fn lemma_group_chunks_reassemble(b0: u8, b1: u8, b2: u8)
    by (bit_vector)
    ensures
        ((b0 >> 2) << 2) | ((((b0 & 3) << 4) | (b1 >> 4)) >> 4) == b0,
        (((((b0 & 3) << 4) | (b1 >> 4)) & 15) << 4) | (((((b1 & 15) << 2) | (b2 >> 6))) >> 2)
            == b1,
        (((((b1 & 15) << 2) | (b2 >> 6)) & 3) << 6) | (b2 & 63) == b2,
{
}

/// A symbol index below 64 maps to an alphabet character and back to itself.
proof fn lemma_val_of_sym(v: u8)
    requires
        v < 64,
    ensures
        is_sym(sym_char(v)),
        char_val(sym_char(v)) == v,
{
}

/// Decoding inverts encoding: for every byte sequence the emitted token is
/// made of alphabet symbols, never leaves a trailing group of one symbol,
/// and decodes back to the same bytes.
pub proof fn lemma_b64_round_trip(data: Seq<u8>)
    ensures
        b64_encode(data).len() % 4 != 1,
        all_syms(b64_encode(data)),
        b64_decode_val(b64_encode(data)) == data,
    decreases data.len(),
{
    let enc = b64_encode(data);
    if data.len() == 0 {
        assert(b64_decode_val(enc) =~= data);
    } else if data.len() == 1 {
        let b0 = data[0];
        lemma_group_chunks_in_range(b0, 0, 0);
        lemma_val_of_sym(b0 >> 2);
        lemma_val_of_sym((b0 & 3) << 4);
        assert(((b0 >> 2) << 2) | (((b0 & 3) << 4) >> 4) == b0) by (bit_vector);
        assert(b64_decode_val(enc) =~= data);
    } else if data.len() == 2 {
        let b0 = data[0];
        let b1 = data[1];
        lemma_group_chunks_in_range(b0, b1, 0);
        lemma_val_of_sym(b0 >> 2);
        lemma_val_of_sym(((b0 & 3) << 4) | (b1 >> 4));
        lemma_val_of_sym((b1 & 15) << 2);
        assert(((b0 >> 2) << 2) | ((((b0 & 3) << 4) | (b1 >> 4)) >> 4) == b0) by (bit_vector);
        assert((((((b0 & 3) << 4) | (b1 >> 4)) & 15) << 4) | (((b1 & 15) << 2) >> 2) == b1)
            by (bit_vector);
        assert(b64_decode_val(enc) =~= data);
    } else {
        let b0 = data[0];
        let b1 = data[1];
        let b2 = data[2];
        lemma_group_chunks_in_range(b0, b1, b2);
        lemma_val_of_sym(b0 >> 2);
        lemma_val_of_sym(((b0 & 3) << 4) | (b1 >> 4));
        lemma_val_of_sym(((b1 & 15) << 2) | (b2 >> 6));
        lemma_val_of_sym(b2 & 63);
        lemma_group_chunks_reassemble(b0, b1, b2);
        lemma_b64_round_trip(data.skip(3));
        let tail_enc = b64_encode(data.skip(3));
        assert(enc.skip(4) =~= tail_enc);
        assert(all_syms(enc)) by {
            assert(forall|i: int| 4 <= i < enc.len() ==> enc[i] == tail_enc[i - 4]);
        }
        assert(b64_decode_val(enc) =~= seq![b0, b1, b2] + b64_decode_val(tail_enc));
        assert(b64_decode_val(enc) =~= data) by {
            assert(b64_decode_val(tail_enc) == data.skip(3));
        }
    }
}

/// No padding character is ever emitted: every character of an encoded
/// token is one of the 64 alphabet symbols, and in particular never `=`.
pub proof fn lemma_b64_no_padding(data: Seq<u8>)
    ensures
        all_syms(b64_encode(data)),
        forall|i: int| 0 <= i < b64_encode(data).len() ==> #[trigger] b64_encode(data)[i] != '=',
{
    lemma_b64_round_trip(data);
}

/// The two little-endian bytes of a 16-bit value: low byte first.
pub open spec fn u16_le(n: u16) -> Seq<u8> {
    seq![(n & 0xFF) as u8, (n >> 8) as u8]
}

/// Appends every byte of `s` to `out`, in order.
fn push_all(out: &mut Vec<u8>, s: &[u8])
    ensures
        final(out)@ == old(out)@ + s@,
{
    let mut i: usize = 0;
    proof {
        assert(out@ =~= old(out)@ + s@.take(0));
    }
    while i < s.len()
        invariant
            i <= s@.len(),
            out@ == old(out)@ + s@.take(i as int),
        decreases s@.len() - i,
    {
        out.push(*vstd::slice::slice_index_get(s, i));
        proof {
            assert(old(out)@ + s@.take(i + 1) =~= (old(out)@ + s@.take(i as int)).push(
                s@[i as int],
            ));
        }
        i = i + 1;
    }
    proof {
        assert(s@.take(i as int) =~= s@);
    }
}

/// Encodes a maze layout token: grid width and height as 16-bit
/// little-endian values, then the horizontal and vertical wall bitmaps,
/// packed through the compact token codec.
pub fn encode_labyrinth(nx: u16, ny: u16, horizontal: &[u8], vertical: &[u8]) -> (r: String)
    ensures
        r@ == b64_encode(u16_le(nx) + u16_le(ny) + horizontal@ + vertical@),
{
    let mut data: Vec<u8> = Vec::new();
    data.push((nx & 0xFF) as u8);
    data.push((nx >> 8) as u8);
    data.push((ny & 0xFF) as u8);
    data.push((ny >> 8) as u8);
    push_all(&mut data, horizontal);
    push_all(&mut data, vertical);
    proof {
        assert(data@ =~= u16_le(nx) + u16_le(ny) + horizontal@ + vertical@);
    }
    encode_b64(data.as_slice())
}

/// Encodes a radar token: 3 bytes of horizontal-wall bits, 3 bytes of
/// vertical-wall bits and 5 bytes of cell-status nibbles, packed through
/// the compact token codec.
pub fn encode_radar(horiz: &[u8; 3], vert: &[u8; 3], cells: &[u8; 5]) -> (r: String)
    ensures
        r@ == b64_encode(horiz@ + vert@ + cells@),
{
    let mut data: Vec<u8> = Vec::new();
    push_all(&mut data, vstd::array::array_as_slice(horiz));
    push_all(&mut data, vstd::array::array_as_slice(vert));
    push_all(&mut data, vstd::array::array_as_slice(cells));
    proof {
        assert(data@ =~= horiz@ + vert@ + cells@);
    }
    encode_b64(data.as_slice())
}

/// The raw byte groups of a decoded radar token: wall bitmaps for the
/// horizontal and vertical walls and the cell-status nibbles of the 3x3
/// neighborhood.
#[derive(Debug, PartialEq, Eq)]
pub struct RadarData {
    /// 3 bytes of horizontal-wall bits.
    pub horizontal: Vec<u8>,
    /// 3 bytes of vertical-wall bits.
    pub vertical: Vec<u8>,
    /// 5 bytes of cell-status nibbles.
    pub cells: Vec<u8>,
}

/// Why a radar token could not be decoded.
#[derive(Debug, Copy, Clone, PartialEq, Eq, Structural)]
pub enum RadarError {
    /// The token itself could not be decoded.
    Token(TokenError),
    /// The token decodes to a byte count other than the 11 bytes of the
    /// radar layout.
    WrongLength,
}

/// Decodes a radar token into its three byte groups. The token must decode
/// to exactly 11 bytes: 3 of horizontal walls, 3 of vertical walls, 5 of
/// cell-status nibbles.
pub fn decode_radar(token: &str) -> (r: Result<RadarData, RadarError>)
    ensures
        match r {
            Ok(d) => {
                let bytes = b64_decode_val(token@);
                &&& token@.len() % 4 != 1
                &&& all_syms(token@)
                &&& bytes.len() == 11
                &&& d.horizontal@ == bytes.subrange(0, 3)
                &&& d.vertical@ == bytes.subrange(3, 6)
                &&& d.cells@ == bytes.subrange(6, 11)
            },
            Err(RadarError::Token(TokenError::MalformedToken)) => token@.len() % 4 == 1,
            Err(RadarError::Token(TokenError::UnknownSymbol)) => token@.len() % 4 != 1
                && !all_syms(token@),
            Err(RadarError::WrongLength) => token@.len() % 4 != 1 && all_syms(token@)
                && b64_decode_val(token@).len() != 11,
        },
{
    let bytes = match decode_b64(token) {
        Ok(b) => b,
        Err(e) => {
            return Err(RadarError::Token(e));
        },
    };
    if bytes.len() != 11 {
        return Err(RadarError::WrongLength);
    }
    let mut horizontal: Vec<u8> = Vec::new();
    let mut vertical: Vec<u8> = Vec::new();
    let mut cells: Vec<u8> = Vec::new();
    horizontal.push(bytes[0]);
    horizontal.push(bytes[1]);
    horizontal.push(bytes[2]);
    vertical.push(bytes[3]);
    vertical.push(bytes[4]);
    vertical.push(bytes[5]);
    cells.push(bytes[6]);
    cells.push(bytes[7]);
    cells.push(bytes[8]);
    cells.push(bytes[9]);
    cells.push(bytes[10]);
    proof {
        assert(horizontal@ =~= bytes@.subrange(0, 3));
        assert(vertical@ =~= bytes@.subrange(3, 6));
        assert(cells@ =~= bytes@.subrange(6, 11));
    }
    Ok(RadarData { horizontal, vertical, cells })
}

/// Decoding a radar token made from three byte groups of the fixed radar
/// layout gives the same three groups back.
pub proof fn lemma_radar_round_trip(h: Seq<u8>, v: Seq<u8>, c: Seq<u8>)
    requires
        h.len() == 3,
        v.len() == 3,
        c.len() == 5,
    ensures
        b64_decode_val(b64_encode(h + v + c)).len() == 11,
        b64_decode_val(b64_encode(h + v + c)).subrange(0, 3) == h,
        b64_decode_val(b64_encode(h + v + c)).subrange(3, 6) == v,
        b64_decode_val(b64_encode(h + v + c)).subrange(6, 11) == c,
{
    lemma_b64_round_trip(h + v + c);
    assert(b64_decode_val(b64_encode(h + v + c)).subrange(0, 3) =~= h);
    assert(b64_decode_val(b64_encode(h + v + c)).subrange(3, 6) =~= v);
    assert(b64_decode_val(b64_encode(h + v + c)).subrange(6, 11) =~= c);
}

} // verus!
