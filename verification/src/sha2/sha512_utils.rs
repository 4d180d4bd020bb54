//! The SHA-512 compression function in its two-lane formulation: the state is
//! held as four lanes of two words, `(a, e)`, `(b, f)`, `(c, g)` and `(d, h)`,
//! and the message schedule as pairs of adjacent words. Each function is
//! proved against the scalar model of [`super::model`].
use super::consts::{BLOCK_LEN, K64, STATE_LEN};
use super::model::{
    big_sigma0, big_sigma1, block_words, ch, compress, maj, rotr, round, round_input, rounds,
    schedule, schedule_word, small_sigma0, small_sigma1, wadd, working, Working,
};
use block_buffer::byteorder::{ByteOrder, BE};
use vstd::prelude::*;

verus! {

/// Two 64-bit lanes.
#[derive(Clone, Copy, Debug, PartialEq, Eq)]
pub struct U64x2(pub u64, pub u64);

/// The working variables that four lanes hold.
pub open spec fn lanes_working(ae: U64x2, bf: U64x2, cg: U64x2, dh: U64x2) -> Working {
    Working { a: ae.0, b: bf.0, c: cg.0, d: dh.0, e: ae.1, f: bf.1, g: cg.1, h: dh.1 }
}

/// The schedule words `t + 1` and `t` of a block, as lanes 0 and 1.
pub open spec fn schedule_pair(block: Seq<u64>, t: int) -> U64x2 {
    U64x2(schedule(block, t + 1), schedule(block, t))
}

/// The lane-wise sum of two `fake_simd::u64x2` values, by that type's `Add`:
/// each lane of the result is the sum of the operands' lanes modulo 2^64.
#[verifier::external_body]
fn add_lanes(x: U64x2, y: U64x2) -> (sum: U64x2)
    ensures
        sum.0 == wadd(x.0, y.0),
        sum.1 == wadd(x.1, y.1),
{
    let s = fake_simd::u64x2(x.0, x.1) + fake_simd::u64x2(y.0, y.1);
    U64x2(s.0, s.1)
}

/// `byteorder`'s `BigEndian::read_u64_into`, as `block_buffer` re-exports it:
/// word `i` of `dst` becomes the big-endian value of bytes `8 * i .. 8 * i + 8`
/// of `src`.
#[verifier::external_body]
fn read_u64_into(src: &[u8; 128], dst: &mut [u64; BLOCK_LEN])
    ensures
        final(dst)@ == block_words(src@),
{
    BE::read_u64_into(src, &mut dst[..]);
}

/// Four rounds are four applications of `round`, on the round inputs `t` to
/// `t + 3`.
proof fn lemma_four_rounds(s: Working, block: Seq<u64>, t: int)
    requires
        0 <= t,
    ensures
        rounds(s, block, t + 4) == round(
            round(
                round(round(rounds(s, block, t), round_input(block, t)), round_input(block, t + 1)),
                round_input(block, t + 2),
            ),
            round_input(block, t + 3),
        ),
{
    reveal_with_fuel(rounds, 5);
}

/// Round constants `2 * i + 1` and `2 * i`, as lanes 0 and 1.
fn k64x2(i: usize) -> (k: U64x2)
    requires
        i < 40,
    ensures
        k == U64x2(K64[2 * i + 1], K64[2 * i]),
{
    U64x2(K64[2 * i + 1], K64[2 * i])
}

fn rotate_right(x: u64, n: u32) -> (r: u64)
    requires
        0 < n < 64,
    ensures
        r == rotr(x, n),
{
    (x >> n) | (x << (64 - n))
}

fn sigma0(x: u64) -> (r: u64)
    ensures
        r == small_sigma0(x),
{
    rotate_right(x, 1) ^ rotate_right(x, 8) ^ (x >> 7u32)
}

fn sigma1(x: u64) -> (r: u64)
    ensures
        r == small_sigma1(x),
{
    rotate_right(x, 19) ^ rotate_right(x, 61) ^ (x >> 6u32)
}

fn sum0(x: u64) -> (r: u64)
    ensures
        r == big_sigma0(x),
{
    rotate_right(x, 28) ^ rotate_right(x, 34) ^ rotate_right(x, 39)
}

fn sum1(x: u64) -> (r: u64)
    ensures
        r == big_sigma1(x),
{
    rotate_right(x, 14) ^ rotate_right(x, 18) ^ rotate_right(x, 41)
}

/// Choose.
fn bool3ary_202(x: u64, y: u64, z: u64) -> (r: u64)
    ensures
        r == ch(x, y, z),
{
    z ^ (x & (y ^ z))
}

/// Majority.
fn bool3ary_232(x: u64, y: u64, z: u64) -> (r: u64)
    ensures
        r == maj(x, y, z),
{
    (x & y) ^ (x & z) ^ (y & z)
}

/// The pair that straddles two adjacent pairs: lane 1 of `v1` and lane 0 of
/// `v0`.
fn sha512load(v0: U64x2, v1: U64x2) -> (r: U64x2)
    ensures
        r == U64x2(v1.1, v0.0),
{
    U64x2(v1.1, v0.0)
}

/// Two further words of the message schedule. With `v0` holding the words
/// `(w[t-15], w[t-16])`, `v1` the words `(_, w[t-14])`, `v4to5` the words
/// `(w[t-6], w[t-7])` and `v7` the words `(w[t-1], w[t-2])`, the result holds
/// `(w[t+1], w[t])`.
pub fn sha512_schedule_x2(v0: U64x2, v1: U64x2, v4to5: U64x2, v7: U64x2) -> (r: U64x2)
    ensures
        r.1 == schedule_word(v7.1, v4to5.1, v0.0, v0.1),
        r.0 == schedule_word(v7.0, v4to5.0, v1.1, v0.0),
{
    proof {
        reveal(schedule_word);
    }
    let U64x2(w1, w0) = v0;
    let U64x2(_, w2) = v1;
    let U64x2(w10, w9) = v4to5;
    let U64x2(w15, w14) = v7;

    let w16 = sigma1(w14).wrapping_add(w9).wrapping_add(sigma0(w1)).wrapping_add(w0);
    let w17 = sigma1(w15).wrapping_add(w10).wrapping_add(sigma0(w2)).wrapping_add(w1);

    U64x2(w17, w16)
}

/// One round on the lanes `(a, e)`, `(b, f)`, `(c, g)` and `(d, h)`, with
/// `wk0` the sum of the round's constant and schedule word: the result is the
/// new `(a, e)`. The other new lanes are the old ones moved along: `(b, f)` is
/// the old `(a, e)`, `(c, g)` the old `(b, f)`, `(d, h)` the old `(c, g)`.
pub fn sha512_digest_round(ae: U64x2, bf: U64x2, cg: U64x2, dh: U64x2, wk0: u64) -> (r: U64x2)
    ensures
        r.0 == round(lanes_working(ae, bf, cg, dh), wk0).a,
        r.1 == round(lanes_working(ae, bf, cg, dh), wk0).e,
{
    proof {
        reveal(round);
    }
    let U64x2(a0, e0) = ae;
    let U64x2(b0, f0) = bf;
    let U64x2(c0, g0) = cg;
    let U64x2(d0, h0) = dh;

    // a round
    let x0 = sum1(e0).wrapping_add(bool3ary_202(e0, f0, g0)).wrapping_add(wk0).wrapping_add(h0);
    let y0 = sum0(a0).wrapping_add(bool3ary_232(a0, b0, c0));
    let (a1, e1) = (x0.wrapping_add(y0), x0.wrapping_add(d0));

    U64x2(a1, e1)
}

/// The next pair of schedule words from the pairs sixteen, fourteen, eight,
/// six and two words back.
fn schedule_step(v0: U64x2, v1: U64x2, v4: U64x2, v5: U64x2, v7: U64x2) -> (r: U64x2)
    ensures
        r.1 == schedule_word(v7.1, v4.0, v0.0, v0.1),
        r.0 == schedule_word(v7.0, v5.1, v1.1, v0.0),
{
    sha512_schedule_x2(v0, v1, sha512load(v4, v5), v7)
}

/// Four rounds, on the round inputs `wk0.1`, `wk0.0`, `wk1.1` and `wk1.0` in
/// that order. Each round writes the new `(a, e)` over the lane that held
/// `(d, h)`, so the lanes change roles from round to round and are back in
/// place after four.
fn rounds4(
    ae: &mut U64x2,
    bf: &mut U64x2,
    cg: &mut U64x2,
    dh: &mut U64x2,
    wk0: U64x2,
    wk1: U64x2,
)
    ensures
        lanes_working(*final(ae), *final(bf), *final(cg), *final(dh)) == round(
            round(
                round(round(lanes_working(*old(ae), *old(bf), *old(cg), *old(dh)), wk0.1), wk0.0),
                wk1.1,
            ),
            wk1.0,
        ),
{
    proof {
        reveal(round);
    }
    let U64x2(u, t) = wk0;
    let U64x2(w, v) = wk1;

    *dh = sha512_digest_round(*ae, *bf, *cg, *dh, t);
    *cg = sha512_digest_round(*dh, *ae, *bf, *cg, u);
    *bf = sha512_digest_round(*cg, *dh, *ae, *bf, v);
    *ae = sha512_digest_round(*bf, *cg, *dh, *ae, w);
}

/// The compression function on a block of sixteen words: `state` becomes the
/// hash state after the block.
pub fn sha512_digest_block_u64(state: &mut [u64; STATE_LEN], block: &[u64; BLOCK_LEN])
    ensures
        final(state)@ == compress(old(state)@, block@),
{
    let ghost s0 = working(state@);
    let ghost blk = block@;

    let mut ae = U64x2(state[0], state[4]);
    let mut bf = U64x2(state[1], state[5]);
    let mut cg = U64x2(state[2], state[6]);
    let mut dh = U64x2(state[3], state[7]);
    assert(lanes_working(ae, bf, cg, dh) == rounds(s0, blk, 0));

    let (mut w1, mut w0) = (
        U64x2(block[3], block[2]),
        U64x2(block[1], block[0]),
    );
    assert(w0 == schedule_pair(blk, 0) && w1 == schedule_pair(blk, 2));
    rounds4(&mut ae, &mut bf, &mut cg, &mut dh, add_lanes(k64x2(0), w0), add_lanes(k64x2(1), w1));
    assert(lanes_working(ae, bf, cg, dh) == rounds(s0, blk, 4)) by {
        lemma_four_rounds(s0, blk, 0);
    }
    let (mut w3, mut w2) = (
        U64x2(block[7], block[6]),
        U64x2(block[5], block[4]),
    );
    assert(w2 == schedule_pair(blk, 4) && w3 == schedule_pair(blk, 6));
    rounds4(&mut ae, &mut bf, &mut cg, &mut dh, add_lanes(k64x2(2), w2), add_lanes(k64x2(3), w3));
    assert(lanes_working(ae, bf, cg, dh) == rounds(s0, blk, 8)) by {
        lemma_four_rounds(s0, blk, 4);
    }
    let (mut w5, mut w4) = (
        U64x2(block[11], block[10]),
        U64x2(block[9], block[8]),
    );
    assert(w4 == schedule_pair(blk, 8) && w5 == schedule_pair(blk, 10));
    rounds4(&mut ae, &mut bf, &mut cg, &mut dh, add_lanes(k64x2(4), w4), add_lanes(k64x2(5), w5));
    assert(lanes_working(ae, bf, cg, dh) == rounds(s0, blk, 12)) by {
        lemma_four_rounds(s0, blk, 8);
    }
    let (mut w7, mut w6) = (
        U64x2(block[15], block[14]),
        U64x2(block[13], block[12]),
    );
    assert(w6 == schedule_pair(blk, 12) && w7 == schedule_pair(blk, 14));
    rounds4(&mut ae, &mut bf, &mut cg, &mut dh, add_lanes(k64x2(6), w6), add_lanes(k64x2(7), w7));
    assert(lanes_working(ae, bf, cg, dh) == rounds(s0, blk, 16)) by {
        lemma_four_rounds(s0, blk, 12);
    }
    let mut w8 = schedule_step(w0, w1, w4, w5, w7);
    assert(w8 == schedule_pair(blk, 16));
    let mut w9 = schedule_step(w1, w2, w5, w6, w8);
    assert(w9 == schedule_pair(blk, 18));
    rounds4(&mut ae, &mut bf, &mut cg, &mut dh, add_lanes(k64x2(8), w8), add_lanes(k64x2(9), w9));
    assert(lanes_working(ae, bf, cg, dh) == rounds(s0, blk, 20)) by {
        lemma_four_rounds(s0, blk, 16);
    }

    // Rounds 20..40
    w0 = schedule_step(w2, w3, w6, w7, w9);
    assert(w0 == schedule_pair(blk, 20));
    w1 = schedule_step(w3, w4, w7, w8, w0);
    assert(w1 == schedule_pair(blk, 22));
    rounds4(&mut ae, &mut bf, &mut cg, &mut dh, add_lanes(k64x2(10), w0), add_lanes(k64x2(11), w1));
    assert(lanes_working(ae, bf, cg, dh) == rounds(s0, blk, 24)) by {
        lemma_four_rounds(s0, blk, 20);
    }
    w2 = schedule_step(w4, w5, w8, w9, w1);
    assert(w2 == schedule_pair(blk, 24));
    w3 = schedule_step(w5, w6, w9, w0, w2);
    assert(w3 == schedule_pair(blk, 26));
    rounds4(&mut ae, &mut bf, &mut cg, &mut dh, add_lanes(k64x2(12), w2), add_lanes(k64x2(13), w3));
    assert(lanes_working(ae, bf, cg, dh) == rounds(s0, blk, 28)) by {
        lemma_four_rounds(s0, blk, 24);
    }
    w4 = schedule_step(w6, w7, w0, w1, w3);
    assert(w4 == schedule_pair(blk, 28));
    w5 = schedule_step(w7, w8, w1, w2, w4);
    assert(w5 == schedule_pair(blk, 30));
    rounds4(&mut ae, &mut bf, &mut cg, &mut dh, add_lanes(k64x2(14), w4), add_lanes(k64x2(15), w5));
    assert(lanes_working(ae, bf, cg, dh) == rounds(s0, blk, 32)) by {
        lemma_four_rounds(s0, blk, 28);
    }
    w6 = schedule_step(w8, w9, w2, w3, w5);
    assert(w6 == schedule_pair(blk, 32));
    w7 = schedule_step(w9, w0, w3, w4, w6);
    assert(w7 == schedule_pair(blk, 34));
    rounds4(&mut ae, &mut bf, &mut cg, &mut dh, add_lanes(k64x2(16), w6), add_lanes(k64x2(17), w7));
    assert(lanes_working(ae, bf, cg, dh) == rounds(s0, blk, 36)) by {
        lemma_four_rounds(s0, blk, 32);
    }
    w8 = schedule_step(w0, w1, w4, w5, w7);
    assert(w8 == schedule_pair(blk, 36));
    w9 = schedule_step(w1, w2, w5, w6, w8);
    assert(w9 == schedule_pair(blk, 38));
    rounds4(&mut ae, &mut bf, &mut cg, &mut dh, add_lanes(k64x2(18), w8), add_lanes(k64x2(19), w9));
    assert(lanes_working(ae, bf, cg, dh) == rounds(s0, blk, 40)) by {
        lemma_four_rounds(s0, blk, 36);
    }

    // Rounds 40..60
    w0 = schedule_step(w2, w3, w6, w7, w9);
    assert(w0 == schedule_pair(blk, 40));
    w1 = schedule_step(w3, w4, w7, w8, w0);
    assert(w1 == schedule_pair(blk, 42));
    rounds4(&mut ae, &mut bf, &mut cg, &mut dh, add_lanes(k64x2(20), w0), add_lanes(k64x2(21), w1));
    assert(lanes_working(ae, bf, cg, dh) == rounds(s0, blk, 44)) by {
        lemma_four_rounds(s0, blk, 40);
    }
    w2 = schedule_step(w4, w5, w8, w9, w1);
    assert(w2 == schedule_pair(blk, 44));
    w3 = schedule_step(w5, w6, w9, w0, w2);
    assert(w3 == schedule_pair(blk, 46));
    rounds4(&mut ae, &mut bf, &mut cg, &mut dh, add_lanes(k64x2(22), w2), add_lanes(k64x2(23), w3));
    assert(lanes_working(ae, bf, cg, dh) == rounds(s0, blk, 48)) by {
        lemma_four_rounds(s0, blk, 44);
    }
    w4 = schedule_step(w6, w7, w0, w1, w3);
    assert(w4 == schedule_pair(blk, 48));
    w5 = schedule_step(w7, w8, w1, w2, w4);
    assert(w5 == schedule_pair(blk, 50));
    rounds4(&mut ae, &mut bf, &mut cg, &mut dh, add_lanes(k64x2(24), w4), add_lanes(k64x2(25), w5));
    assert(lanes_working(ae, bf, cg, dh) == rounds(s0, blk, 52)) by {
        lemma_four_rounds(s0, blk, 48);
    }
    w6 = schedule_step(w8, w9, w2, w3, w5);
    assert(w6 == schedule_pair(blk, 52));
    w7 = schedule_step(w9, w0, w3, w4, w6);
    assert(w7 == schedule_pair(blk, 54));
    rounds4(&mut ae, &mut bf, &mut cg, &mut dh, add_lanes(k64x2(26), w6), add_lanes(k64x2(27), w7));
    assert(lanes_working(ae, bf, cg, dh) == rounds(s0, blk, 56)) by {
        lemma_four_rounds(s0, blk, 52);
    }
    w8 = schedule_step(w0, w1, w4, w5, w7);
    assert(w8 == schedule_pair(blk, 56));
    w9 = schedule_step(w1, w2, w5, w6, w8);
    assert(w9 == schedule_pair(blk, 58));
    rounds4(&mut ae, &mut bf, &mut cg, &mut dh, add_lanes(k64x2(28), w8), add_lanes(k64x2(29), w9));
    assert(lanes_working(ae, bf, cg, dh) == rounds(s0, blk, 60)) by {
        lemma_four_rounds(s0, blk, 56);
    }

    // Rounds 60..80
    w0 = schedule_step(w2, w3, w6, w7, w9);
    assert(w0 == schedule_pair(blk, 60));
    w1 = schedule_step(w3, w4, w7, w8, w0);
    assert(w1 == schedule_pair(blk, 62));
    rounds4(&mut ae, &mut bf, &mut cg, &mut dh, add_lanes(k64x2(30), w0), add_lanes(k64x2(31), w1));
    assert(lanes_working(ae, bf, cg, dh) == rounds(s0, blk, 64)) by {
        lemma_four_rounds(s0, blk, 60);
    }
    w2 = schedule_step(w4, w5, w8, w9, w1);
    assert(w2 == schedule_pair(blk, 64));
    w3 = schedule_step(w5, w6, w9, w0, w2);
    assert(w3 == schedule_pair(blk, 66));
    rounds4(&mut ae, &mut bf, &mut cg, &mut dh, add_lanes(k64x2(32), w2), add_lanes(k64x2(33), w3));
    assert(lanes_working(ae, bf, cg, dh) == rounds(s0, blk, 68)) by {
        lemma_four_rounds(s0, blk, 64);
    }
    w4 = schedule_step(w6, w7, w0, w1, w3);
    assert(w4 == schedule_pair(blk, 68));
    w5 = schedule_step(w7, w8, w1, w2, w4);
    assert(w5 == schedule_pair(blk, 70));
    rounds4(&mut ae, &mut bf, &mut cg, &mut dh, add_lanes(k64x2(34), w4), add_lanes(k64x2(35), w5));
    assert(lanes_working(ae, bf, cg, dh) == rounds(s0, blk, 72)) by {
        lemma_four_rounds(s0, blk, 68);
    }
    w6 = schedule_step(w8, w9, w2, w3, w5);
    assert(w6 == schedule_pair(blk, 72));
    w7 = schedule_step(w9, w0, w3, w4, w6);
    assert(w7 == schedule_pair(blk, 74));
    rounds4(&mut ae, &mut bf, &mut cg, &mut dh, add_lanes(k64x2(36), w6), add_lanes(k64x2(37), w7));
    assert(lanes_working(ae, bf, cg, dh) == rounds(s0, blk, 76)) by {
        lemma_four_rounds(s0, blk, 72);
    }
    w8 = schedule_step(w0, w1, w4, w5, w7);
    assert(w8 == schedule_pair(blk, 76));
    w9 = schedule_step(w1, w2, w5, w6, w8);
    assert(w9 == schedule_pair(blk, 78));
    rounds4(&mut ae, &mut bf, &mut cg, &mut dh, add_lanes(k64x2(38), w8), add_lanes(k64x2(39), w9));
    assert(lanes_working(ae, bf, cg, dh) == rounds(s0, blk, 80)) by {
        lemma_four_rounds(s0, blk, 76);
    }
    let U64x2(a, e) = ae;
    let U64x2(b, f) = bf;
    let U64x2(c, g) = cg;
    let U64x2(d, h) = dh;

    state[0] = state[0].wrapping_add(a);
    state[1] = state[1].wrapping_add(b);
    state[2] = state[2].wrapping_add(c);
    state[3] = state[3].wrapping_add(d);
    state[4] = state[4].wrapping_add(e);
    state[5] = state[5].wrapping_add(f);
    state[6] = state[6].wrapping_add(g);
    state[7] = state[7].wrapping_add(h);
    assert(state@ =~= compress(old(state)@, block@));
}

/// The compression function on a block of 128 bytes, read as sixteen
/// big-endian words: `state` becomes the hash state after the block.
pub fn compress512(state: &mut [u64; STATE_LEN], block: &[u8; 128])
    ensures
        final(state)@ == compress(old(state)@, block_words(block@)),
{
    let mut block_u64 = [0u64; BLOCK_LEN];
    read_u64_into(block, &mut block_u64);
    sha512_digest_block_u64(state, &block_u64);
}

} // verus!
