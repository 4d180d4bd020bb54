//! The mathematical model of SHA-512 (FIPS 180-4) that the executable code is
//! proved against: the scalar, one-word-at-a-time message schedule, the
//! one-round-at-a-time compression function, message padding and the digest of
//! a whole message.
use super::consts::{H512, K64};
use vstd::prelude::*;

verus! {

/// Addition modulo 2^64.
pub open spec fn wadd(a: u64, b: u64) -> u64 {
    vstd::wrapping::u64_specs::wrapping_add(a, b)
}

/// Rotation of a 64-bit word to the right by `n` bits, for `0 < n < 64`.
pub open spec fn rotr(x: u64, n: u32) -> u64 {
    (x >> n) | (x << ((64 - n) as u32))
}

/// The schedule mixing function σ0.
pub open spec fn small_sigma0(x: u64) -> u64 {
    rotr(x, 1) ^ rotr(x, 8) ^ (x >> 7u32)
}

/// The schedule mixing function σ1.
pub open spec fn small_sigma1(x: u64) -> u64 {
    rotr(x, 19) ^ rotr(x, 61) ^ (x >> 6u32)
}

/// The round function Σ0.
pub open spec fn big_sigma0(x: u64) -> u64 {
    rotr(x, 28) ^ rotr(x, 34) ^ rotr(x, 39)
}

/// The round function Σ1.
pub open spec fn big_sigma1(x: u64) -> u64 {
    rotr(x, 14) ^ rotr(x, 18) ^ rotr(x, 41)
}

/// Choose: each bit of `y` where `x` has a one, of `z` where it has a zero.
pub open spec fn ch(x: u64, y: u64, z: u64) -> u64 {
    z ^ (x & (y ^ z))
}

/// Majority of the bits of `x`, `y` and `z`.
pub open spec fn maj(x: u64, y: u64, z: u64) -> u64 {
    (x & y) ^ (x & z) ^ (y & z)
}

/// One step of the schedule recurrence: the word `w[t]` from `w[t-2]`,
/// `w[t-7]`, `w[t-15]` and `w[t-16]`.
#[verifier::opaque]
pub open spec fn schedule_word(w2: u64, w7: u64, w15: u64, w16: u64) -> u64 {
    wadd(wadd(wadd(small_sigma1(w2), w7), small_sigma0(w15)), w16)
}

/// Word `t` of the message schedule of a block of sixteen words.
pub open spec fn schedule(block: Seq<u64>, t: int) -> u64
    decreases t,
{
    if t < 16 {
        block[t]
    } else {
        schedule_word(
            schedule(block, t - 2),
            schedule(block, t - 7),
            schedule(block, t - 15),
            schedule(block, t - 16),
        )
    }
}

/// The eight working variables of the compression function.
pub struct Working {
    pub a: u64,
    pub b: u64,
    pub c: u64,
    pub d: u64,
    pub e: u64,
    pub f: u64,
    pub g: u64,
    pub h: u64,
}

/// The working variables that a hash state starts a block with.
pub open spec fn working(state: Seq<u64>) -> Working {
    Working {
        a: state[0],
        b: state[1],
        c: state[2],
        d: state[3],
        e: state[4],
        f: state[5],
        g: state[6],
        h: state[7],
    }
}

/// The first temporary of a round; `kw` is the sum of the round's constant and
/// its schedule word.
pub open spec fn t1(s: Working, kw: u64) -> u64 {
    wadd(wadd(wadd(s.h, big_sigma1(s.e)), ch(s.e, s.f, s.g)), kw)
}

/// The second temporary of a round.
pub open spec fn t2(s: Working) -> u64 {
    wadd(big_sigma0(s.a), maj(s.a, s.b, s.c))
}

/// One round; `kw` is the sum of the round's constant and its schedule word.
#[verifier::opaque]
pub open spec fn round(s: Working, kw: u64) -> Working {
    Working {
        a: wadd(t1(s, kw), t2(s)),
        b: s.a,
        c: s.b,
        d: s.c,
        e: wadd(s.d, t1(s, kw)),
        f: s.e,
        g: s.f,
        h: s.g,
    }
}

/// The sum of round constant `t` and schedule word `t` of a block.
pub open spec fn round_input(block: Seq<u64>, t: int) -> u64 {
    wadd(K64[t], schedule(block, t))
}

/// The working variables after the first `n` rounds on a block.
pub open spec fn rounds(s: Working, block: Seq<u64>, n: int) -> Working
    decreases n,
{
    if n <= 0 {
        s
    } else {
        round(rounds(s, block, n - 1), round_input(block, n - 1))
    }
}

/// The compression function: the hash state after a block of sixteen words.
pub open spec fn compress(state: Seq<u64>, block: Seq<u64>) -> Seq<u64> {
    let s = rounds(working(state), block, 80);
    seq![
        wadd(state[0], s.a),
        wadd(state[1], s.b),
        wadd(state[2], s.c),
        wadd(state[3], s.d),
        wadd(state[4], s.e),
        wadd(state[5], s.f),
        wadd(state[6], s.g),
        wadd(state[7], s.h),
    ]
}

/// The 64-bit word that eight bytes hold in big-endian order.
pub open spec fn be_u64(b: Seq<u8>) -> u64 {
    (b[0] as u64) << 56u32 | (b[1] as u64) << 48u32 | (b[2] as u64) << 40u32 | (b[3] as u64)
        << 32u32 | (b[4] as u64) << 24u32 | (b[5] as u64) << 16u32 | (b[6] as u64) << 8u32 | (
    b[7] as u64)
}

/// The sixteen words of a block of 128 bytes.
pub open spec fn block_words(block: Seq<u8>) -> Seq<u64> {
    Seq::new(16, |i: int| be_u64(block.subrange(8 * i, 8 * i + 8)))
}

/// Byte `j` (0 the most significant) of a 64-bit word.
pub open spec fn be_byte(w: u64, j: int) -> u8 {
    #[verifier::truncate]
    ((w >> ((56 - 8 * j) as u32)) as u8)
}

/// The 64 bytes of a digest: the eight state words, each in big-endian order.
pub open spec fn digest_bytes(state: Seq<u64>) -> Seq<u8> {
    Seq::new(64, |i: int| be_byte(state[i / 8], i % 8))
}

/// The length in bits that the padding records for a message of `len` bytes:
/// the length is counted modulo 2^128.
pub open spec fn bit_length(len: nat) -> u128 {
    ((8 * len) as int % 0x1_0000_0000_0000_0000_0000_0000_0000_0000int) as u128
}

/// The sixteen bytes of a 128-bit length in big-endian order.
pub open spec fn length_bytes(bits: u128) -> Seq<u8> {
    Seq::new(16, |i: int| #[verifier::truncate] ((bits >> ((120 - 8 * i) as u32)) as u8))
}

/// The number of zero bytes between the marker byte and the length field in
/// the padding of a message of `len` bytes.
pub open spec fn zero_fill(len: nat) -> nat {
    ((239 - len % 128) % 128) as nat
}

/// The padding of a message of `len` bytes: the marker byte `0x80`, zero bytes
/// up to 112 modulo 128, and the length in bits.
pub open spec fn padding(len: nat) -> Seq<u8> {
    seq![0x80u8] + Seq::new(zero_fill(len), |i: int| 0u8) + length_bytes(bit_length(len))
}

/// A message with its padding: a whole number of blocks.
pub open spec fn padded(message: Seq<u8>) -> Seq<u8> {
    message + padding(message.len())
}

/// Block `i` of a byte sequence.
pub open spec fn block_at(data: Seq<u8>, i: int) -> Seq<u8> {
    data.subrange(128 * i, 128 * i + 128)
}

/// The hash state after the first `n` blocks of `data`, from the initial hash
/// value.
pub open spec fn absorbed(data: Seq<u8>, n: int) -> Seq<u64>
    decreases n,
{
    if n <= 0 {
        H512@
    } else {
        compress(absorbed(data, n - 1), block_words(block_at(data, n - 1)))
    }
}

/// The SHA-512 digest of a message.
pub open spec fn sha512(message: Seq<u8>) -> Seq<u8> {
    let data = padded(message);
    digest_bytes(absorbed(data, data.len() as int / 128))
}

} // verus!
