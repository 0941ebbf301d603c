//! The BitSparrow encoding of the frames exchanged with the JavaScript runner:
//! the calls into the `bitsparrow` crate and what they are taken to do.

use bitsparrow::{Decoder, Encoder};
use vstd::prelude::*;
use vstd::arithmetic::div_mod::lemma_breakdown;
use vstd::utf8::{decode_utf8, encode_utf8, valid_utf8};

verus! {

/// `bitsparrow::Decoder`, a reader over a borrowed buffer.
#[verifier::external_type_specification]
#[verifier::external_body]
pub struct ExDecoder<'a>(Decoder<'a>);

/// `bitsparrow::Encoder`, a writer into an owned buffer.
#[verifier::external_type_specification]
#[verifier::external_body]
pub struct ExEncoder(Encoder);

/// The bytes that a decoder has not read yet.
pub uninterp spec fn unread(d: Decoder) -> Seq<u8>;

/// The bytes that an encoder holds so far.
pub uninterp spec fn encoded(e: Encoder) -> Seq<u8>;

/// 256 to the power `k`, for `k` up to 8.
pub open spec fn pow256(k: nat) -> nat {
    if k == 0 {
        1
    } else if k == 1 {
        0x100
    } else if k == 2 {
        0x1_0000
    } else if k == 3 {
        0x100_0000
    } else if k == 4 {
        0x1_0000_0000
    } else if k == 5 {
        0x100_0000_0000
    } else if k == 6 {
        0x1_0000_0000_0000
    } else if k == 7 {
        0x100_0000_0000_0000
    } else {
        0x1_0000_0000_0000_0000
    }
}

/// The marker bits of the first byte of a size prefix followed by `k` more
/// bytes: `k` leading ones (BitSparrow's `SIZE_MASKS[k]`).
pub open spec fn size_marker(k: nat) -> nat {
    if k == 0 {
        0
    } else if k == 1 {
        0x80
    } else if k == 2 {
        0xC0
    } else if k == 3 {
        0xE0
    } else if k == 4 {
        0xF0
    } else if k == 5 {
        0xF8
    } else if k == 6 {
        0xFC
    } else if k == 7 {
        0xFE
    } else {
        0xFF
    }
}

/// How many bytes follow the first one in the size prefix of `n`: the fewest
/// that leave room for all the bits of `n`.
pub open spec fn size_extra(n: nat) -> nat {
    if n < 0x80 {
        0
    } else if n < 0x4000 {
        1
    } else if n < 0x20_0000 {
        2
    } else if n < 0x1000_0000 {
        3
    } else if n < 0x8_0000_0000 {
        4
    } else if n < 0x400_0000_0000 {
        5
    } else if n < 0x2_0000_0000_0000 {
        6
    } else if n < 0x100_0000_0000_0000 {
        7
    } else {
        8
    }
}

/// The low `k` bytes of `x`, big-endian.
pub open spec fn be_bytes(x: nat, k: nat) -> Seq<u8>
    decreases k,
{
    if k == 0 {
        Seq::empty()
    } else {
        be_bytes(x / 256, (k - 1) as nat).push((x % 256) as u8)
    }
}

/// The number that bytes denote, read big-endian.
pub open spec fn be_value(b: Seq<u8>) -> nat
    decreases b.len(),
{
    if b.len() == 0 {
        0
    } else {
        be_value(b.drop_last()) * 256 + b.last() as nat
    }
}

/// The size prefix that `Encoder::size` writes for `n`: a first byte holding
/// the marker of the number of bytes that follow and the high bits of `n`, then
/// the low bytes of `n`, big-endian.
#[verifier::opaque]
pub open spec fn size_bytes(n: nat) -> Seq<u8> {
    let k = size_extra(n);
    seq![(size_marker(k) + n / pow256(k)) as u8] + be_bytes(n % pow256(k), k)
}

/// The number of bytes that a first byte `h` announces after it: its leading
/// one bits.
pub open spec fn announced_extra(h: u8) -> nat {
    if h == 0xFF {
        8
    } else if h >= 0xFE {
        7
    } else if h >= 0xFC {
        6
    } else if h >= 0xF8 {
        5
    } else if h >= 0xF0 {
        4
    } else if h >= 0xE0 {
        3
    } else if h >= 0xC0 {
        2
    } else if h >= 0x80 {
        1
    } else {
        0
    }
}

/// The size that `Decoder::size` reads at the front of `data`, with the number
/// of bytes its prefix takes; `None` where the prefix runs past the end. The
/// value is gathered in a `usize`, so only its low bits are kept.
#[verifier::opaque]
pub open spec fn size_prefix(data: Seq<u8>) -> Option<(usize, nat)> {
    if data.len() == 0 {
        None
    } else {
        let k = announced_extra(data[0]);
        if data.len() < 1 + k {
            None
        } else {
            Some(
                (((data[0] - size_marker(k)) * pow256(k) + be_value(data.subrange(1, 1 + k as int))) as usize, 1 + k),
            )
        }
    }
}

/// The bytes that `Encoder::bytes` appends for `data`: its size prefix, then
/// `data` itself.
pub open spec fn sized_encoding(data: Seq<u8>) -> Seq<u8> {
    size_bytes(data.len()) + data
}

/// The low `k` bytes of `x`, read back, are `x` modulo `256^k`.
pub proof fn lemma_be_round_trip(x: nat, k: nat)
    requires
        k <= 8,
    ensures
        be_bytes(x, k).len() == k,
        be_value(be_bytes(x, k)) == x % pow256(k),
    decreases k,
{
    if k > 0 {
        let k1 = (k - 1) as nat;
        lemma_be_round_trip(x / 256, k1);
        let b = be_bytes(x, k);
        assert(b.drop_last() =~= be_bytes(x / 256, k1));
        assert(pow256(k) == 256 * pow256(k1));
        lemma_breakdown(x as int, 256, pow256(k1) as int);
    }
}

/// A size prefix reads back as the size it was written for, whatever follows
/// it.
pub proof fn law_size_round_trip(n: nat, rest: Seq<u8>)
    requires
        n <= usize::MAX,
    ensures
        size_bytes(n).len() == 1 + size_extra(n),
        size_prefix(size_bytes(n) + rest) == Some((n as usize, 1 + size_extra(n))),
{
    reveal(size_bytes);
    reveal(size_prefix);
    let k = size_extra(n);
    let p = pow256(k);
    lemma_be_round_trip(n % p, k);
    assert(n % p < p);
    assert((n % p) % p == n % p);
    let first = size_marker(k) + n / p;
    assert(announced_extra(first as u8) == k && first < 256) by (nonlinear_arith)
        requires
            k == size_extra(n),
            p == pow256(k),
            first == size_marker(k) + n / p,
            n <= 0xffff_ffff_ffff_ffff,
    ;
    let data = size_bytes(n) + rest;
    assert(data[0] == first as u8);
    assert(data.subrange(1, 1 + k as int) =~= be_bytes(n % p, k));
    assert((first - size_marker(k)) * p + n % p == n) by (nonlinear_arith)
        requires
            first == size_marker(k) + n / p,
            p > 0,
    ;
}

/// A size-prefixed field reads back as the bytes it was written for, and what
/// follows it is left.
pub proof fn law_field_round_trip(d: Seq<u8>, rest: Seq<u8>)
    requires
        d.len() <= usize::MAX,
    ensures
        ({
            let data = sized_encoding(d) + rest;
            let n = 1 + size_extra(d.len());
            &&& size_prefix(data) == Some((d.len() as usize, n))
            &&& data.len() == n + d.len() + rest.len()
            &&& data.subrange(n as int, (n + d.len()) as int) == d
            &&& data.skip((n + d.len()) as int) == rest
        }),
{
    law_size_round_trip(d.len(), d + rest);
    let n = 1 + size_extra(d.len());
    assert(sized_encoding(d) + rest =~= size_bytes(d.len()) + (d + rest));
    assert((sized_encoding(d) + rest).subrange(n as int, (n + d.len()) as int) =~= d);
    assert((sized_encoding(d) + rest).skip((n + d.len()) as int) =~= rest);
}

/// The value of two bytes read big-endian.
pub open spec fn be_u16(b: Seq<u8>) -> int {
    b[0] * 256 + b[1]
}

/// The value of four bytes read big-endian.
pub open spec fn be_u32(b: Seq<u8>) -> int {
    ((b[0] * 256 + b[1]) * 256 + b[2]) * 256 + b[3]
}

/// The four bytes of `v`, big-endian.
pub open spec fn be_bytes_u32(v: u32) -> Seq<u8> {
    seq![
        (v / 0x1000000) as u8,
        ((v / 0x10000) % 0x100) as u8,
        ((v / 0x100) % 0x100) as u8,
        (v % 0x100) as u8,
    ]
}

/// A decoder over `data`, with `Decoder::new`: nothing is read yet.
#[verifier::external_body]
pub fn decoder_new(data: &[u8]) -> (d: Decoder<'_>)
    ensures
        unread(d) == data@,
{
    Decoder::new(data)
}

/// Reads a size prefix with `Decoder::size`; on success the decoder moves
/// past the prefix, which takes at least one byte.
#[verifier::external_body]
pub fn read_size(d: &mut Decoder) -> (r: Option<usize>)
    ensures
        match size_prefix(unread(*old(d))) {
            Some((v, n)) => {
                &&& r == Some(v)
                &&& 1 <= n <= unread(*old(d)).len()
                &&& unread(*final(d)) == unread(*old(d)).skip(n as int)
            },
            None => r is None,
        },
{
    match d.size() {
        Ok(v) => Some(v),
        Err(_) => None,
    }
}

/// Reads one byte with `Decoder::uint8`; it fails where nothing is left.
#[verifier::external_body]
pub fn read_u8(d: &mut Decoder) -> (r: Option<u8>)
    ensures
        unread(*old(d)).len() == 0 ==> r is None,
        unread(*old(d)).len() > 0 ==> {
            &&& r == Some(unread(*old(d))[0])
            &&& unread(*final(d)) == unread(*old(d)).skip(1)
        },
{
    match d.uint8() {
        Ok(v) => Some(v),
        Err(_) => None,
    }
}

/// The text of `bytes` with `std::str::from_utf8`: there is one exactly where
/// the bytes are valid UTF-8, and it holds the characters they encode.
#[verifier::external_body]
pub fn utf8_text(bytes: &[u8]) -> (r: Option<String>)
    ensures
        r is Some <==> valid_utf8(bytes@),
        r is Some ==> r->0@ == decode_utf8(bytes@),
{
    match std::str::from_utf8(bytes) {
        Ok(s) => Some(s.to_owned()),
        Err(_) => None,
    }
}

/// Reads a big-endian `u16` with `Decoder::uint16`; it fails where fewer than
/// two bytes are left.
#[verifier::external_body]
pub fn read_u16(d: &mut Decoder) -> (r: Option<u16>)
    ensures
        unread(*old(d)).len() < 2 ==> r is None,
        unread(*old(d)).len() >= 2 ==> {
            &&& r is Some
            &&& r->0 == be_u16(unread(*old(d)))
            &&& unread(*final(d)) == unread(*old(d)).skip(2)
        },
{
    match d.uint16() {
        Ok(v) => Some(v),
        Err(_) => None,
    }
}

/// Reads a big-endian `u32` with `Decoder::uint32`; it fails where fewer than
/// four bytes are left.
#[verifier::external_body]
pub fn read_u32(d: &mut Decoder) -> (r: Option<u32>)
    ensures
        unread(*old(d)).len() < 4 ==> r is None,
        unread(*old(d)).len() >= 4 ==> {
            &&& r is Some
            &&& r->0 == be_u32(unread(*old(d)))
            &&& unread(*final(d)) == unread(*old(d)).skip(4)
        },
{
    match d.uint32() {
        Ok(v) => Some(v),
        Err(_) => None,
    }
}

/// Whether everything has been read, with `Decoder::end`.
#[verifier::external_body]
pub fn at_end(d: &Decoder) -> (b: bool)
    ensures
        b == (unread(*d).len() == 0),
{
    d.end()
}

/// An empty encoder, with `Encoder::new`.
#[verifier::external_body]
pub fn encoder_new() -> (e: Encoder)
    ensures
        encoded(e) == Seq::<u8>::empty(),
{
    Encoder::new()
}

/// Appends a string with `Encoder::string`: what `Encoder::bytes` appends for
/// its UTF-8 bytes.
#[verifier::external_body]
pub fn write_string(e: &mut Encoder, s: &str)
    ensures
        encoded(*final(e)) == encoded(*old(e)) + sized_encoding(encode_utf8(s@)),
{
    e.string(s);
}

/// Appends a size-prefixed field with `Encoder::bytes`.
#[verifier::external_body]
pub fn write_bytes(e: &mut Encoder, data: &[u8])
    ensures
        encoded(*final(e)) == encoded(*old(e)) + sized_encoding(data@),
{
    e.bytes(data);
}

/// Appends one byte with `Encoder::uint8`, which pushes it on the buffer.
#[verifier::external_body]
pub fn write_u8(e: &mut Encoder, b: u8)
    ensures
        encoded(*final(e)) == encoded(*old(e)).push(b),
{
    e.uint8(b);
}

/// Appends `v` as four big-endian bytes, one byte at a time.
pub fn write_u32(e: &mut Encoder, v: u32)
    ensures
        encoded(*final(e)) == encoded(*old(e)) + be_bytes_u32(v),
{
    write_u8(e, (v / 0x1000000) as u8);
    write_u8(e, ((v / 0x10000) % 0x100) as u8);
    write_u8(e, ((v / 0x100) % 0x100) as u8);
    write_u8(e, (v % 0x100) as u8);
    assert(encoded(*e) =~= encoded(*old(e)) + be_bytes_u32(v));
}

/// Takes the bytes out of the encoder with `Encoder::end`, leaving it empty.
#[verifier::external_body]
pub fn finish(e: &mut Encoder) -> (r: Vec<u8>)
    ensures
        r@ == encoded(*old(e)),
        encoded(*final(e)) == Seq::<u8>::empty(),
{
    e.end()
}

} // verus!
