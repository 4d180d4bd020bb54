//! Facts about the model of SHA-512 that the incremental hasher rests on, and
//! the laws that the hash function obeys.
use super::model::{
    absorbed, big_sigma1, bit_length, block_at, block_words, ch, compress, length_bytes, padded,
    padding, sha512, t1, wadd, zero_fill, Working,
};
use vstd::prelude::*;

verus! {

/// The first temporary of a round is the sum, modulo 2^64 and in whatever
/// order, of `h`, `Σ1(e)`, `Ch(e, f, g)`, the round's constant and its schedule
/// word.
pub proof fn lemma_t1_is_the_sum(s: Working, k: u64, w: u64)
    ensures
        t1(s, wadd(k, w)) == wadd(wadd(wadd(wadd(s.h, big_sigma1(s.e)), ch(s.e, s.f, s.g)), k), w),
        t1(s, wadd(k, w)) == wadd(wadd(wadd(wadd(big_sigma1(s.e), ch(s.e, s.f, s.g)), k), w), s.h),
        t1(s, wadd(k, w)) == (s.h + big_sigma1(s.e) + ch(s.e, s.f, s.g) + k + w)
            % 0x1_0000_0000_0000_0000,
{
}

/// The state after `n` blocks depends on the first `128 * n` bytes alone.
pub proof fn lemma_absorbed_prefix(a: Seq<u8>, b: Seq<u8>, n: int)
    requires
        128 * n <= a.len(),
        128 * n <= b.len(),
        forall|i: int| 0 <= i < 128 * n ==> a[i] == b[i],
    ensures
        absorbed(a, n) == absorbed(b, n),
    decreases n,
{
    if n > 0 {
        lemma_absorbed_prefix(a, b, n - 1);
        assert(block_at(a, n - 1) =~= block_at(b, n - 1));
    }
}

/// A byte that does not complete a block leaves the state as it is.
pub proof fn lemma_absorbed_push_partial(message: Seq<u8>, byte: u8)
    requires
        message.len() % 128 < 127,
    ensures
        message.push(byte).len() as int / 128 == message.len() as int / 128,
        message.push(byte).len() % 128 == message.len() % 128 + 1,
        absorbed(message.push(byte), message.len() as int / 128) == absorbed(
            message,
            message.len() as int / 128,
        ),
{
    lemma_absorbed_prefix(message, message.push(byte), message.len() as int / 128);
}

/// A byte that completes a block compresses that block into the state.
pub proof fn lemma_absorbed_push_full(message: Seq<u8>, byte: u8)
    requires
        message.len() % 128 == 127,
    ensures
        message.push(byte).len() as int / 128 == message.len() as int / 128 + 1,
        message.push(byte).len() % 128 == 0,
        absorbed(message.push(byte), message.len() as int / 128 + 1) == compress(
            absorbed(message, message.len() as int / 128),
            block_words(block_at(message.push(byte), message.len() as int / 128)),
        ),
{
    lemma_absorbed_prefix(message, message.push(byte), message.len() as int / 128);
}

/// The recorded bit length grows by eight times the bytes added, modulo 2^128.
pub proof fn lemma_bit_length_add(len: nat, more: nat)
    requires
        8 * more <= u128::MAX,
    ensures
        bit_length(len + more) == vstd::wrapping::u128_specs::wrapping_add(
            bit_length(len),
            (8 * more) as u128,
        ),
{
}

/// Padding boundary: a padded message is a whole number of blocks. Where at
/// most 111 bytes of the message are left over after its last whole block, the
/// padding completes that block; otherwise it spills into one block more.
pub proof fn lemma_padded_length(message: Seq<u8>)
    ensures
        padded(message).len() % 128 == 0,
        message.len() % 128 <= 111 ==> padded(message).len() == 128 * (message.len() / 128) + 128,
        message.len() % 128 >= 112 ==> padded(message).len() == 128 * (message.len() / 128) + 256,
{
}

/// Byte `i` of the padding of a message of `len` bytes: the marker, then the
/// zero fill, then the length.
pub proof fn lemma_padding_byte(len: nat, i: int)
    requires
        0 <= i < zero_fill(len) + 17,
    ensures
        padding(len).len() == zero_fill(len) + 17,
        i == 0 ==> padding(len)[i] == 0x80,
        0 < i <= zero_fill(len) ==> padding(len)[i] == 0,
        zero_fill(len) < i ==> padding(len)[i] == length_bytes(bit_length(len))[i - 1 - zero_fill(
            len,
        )],
{
}

/// A length in bits is told by its sixteen bytes.
proof fn lemma_length_bytes_injective(x: u128, y: u128)
    requires
        length_bytes(x) == length_bytes(y),
    ensures
        x == y,
{
    assert(length_bytes(x)[0] == (x >> 120u32) as u8 && length_bytes(y)[0] == (y >> 120u32) as u8);
    assert(length_bytes(x)[1] == (x >> 112u32) as u8 && length_bytes(y)[1] == (y >> 112u32) as u8);
    assert(length_bytes(x)[2] == (x >> 104u32) as u8 && length_bytes(y)[2] == (y >> 104u32) as u8);
    assert(length_bytes(x)[3] == (x >> 96u32) as u8 && length_bytes(y)[3] == (y >> 96u32) as u8);
    assert(length_bytes(x)[4] == (x >> 88u32) as u8 && length_bytes(y)[4] == (y >> 88u32) as u8);
    assert(length_bytes(x)[5] == (x >> 80u32) as u8 && length_bytes(y)[5] == (y >> 80u32) as u8);
    assert(length_bytes(x)[6] == (x >> 72u32) as u8 && length_bytes(y)[6] == (y >> 72u32) as u8);
    assert(length_bytes(x)[7] == (x >> 64u32) as u8 && length_bytes(y)[7] == (y >> 64u32) as u8);
    assert(length_bytes(x)[8] == (x >> 56u32) as u8 && length_bytes(y)[8] == (y >> 56u32) as u8);
    assert(length_bytes(x)[9] == (x >> 48u32) as u8 && length_bytes(y)[9] == (y >> 48u32) as u8);
    assert(length_bytes(x)[10] == (x >> 40u32) as u8 && length_bytes(y)[10] == (y >> 40u32) as u8);
    assert(length_bytes(x)[11] == (x >> 32u32) as u8 && length_bytes(y)[11] == (y >> 32u32) as u8);
    assert(length_bytes(x)[12] == (x >> 24u32) as u8 && length_bytes(y)[12] == (y >> 24u32) as u8);
    assert(length_bytes(x)[13] == (x >> 16u32) as u8 && length_bytes(y)[13] == (y >> 16u32) as u8);
    assert(length_bytes(x)[14] == (x >> 8u32) as u8 && length_bytes(y)[14] == (y >> 8u32) as u8);
    assert(length_bytes(x)[15] == (x >> 0u32) as u8 && length_bytes(y)[15] == (y >> 0u32) as u8);
    assert(x == y) by (bit_vector)
        requires
            (x >> 120u32) as u8 == (y >> 120u32) as u8,
            (x >> 112u32) as u8 == (y >> 112u32) as u8,
            (x >> 104u32) as u8 == (y >> 104u32) as u8,
            (x >> 96u32) as u8 == (y >> 96u32) as u8,
            (x >> 88u32) as u8 == (y >> 88u32) as u8,
            (x >> 80u32) as u8 == (y >> 80u32) as u8,
            (x >> 72u32) as u8 == (y >> 72u32) as u8,
            (x >> 64u32) as u8 == (y >> 64u32) as u8,
            (x >> 56u32) as u8 == (y >> 56u32) as u8,
            (x >> 48u32) as u8 == (y >> 48u32) as u8,
            (x >> 40u32) as u8 == (y >> 40u32) as u8,
            (x >> 32u32) as u8 == (y >> 32u32) as u8,
            (x >> 24u32) as u8 == (y >> 24u32) as u8,
            (x >> 16u32) as u8 == (y >> 16u32) as u8,
            (x >> 8u32) as u8 == (y >> 8u32) as u8,
            (x >> 0u32) as u8 == (y >> 0u32) as u8,
    ;
}

/// Length sensitivity, as far as the padding goes: messages that differ, be it
/// in one bit or only in length, still differ once they are padded. Nothing of
/// a message is lost before the compression function sees it.
pub proof fn lemma_padded_injective(message1: Seq<u8>, message2: Seq<u8>)
    requires
        padded(message1) == padded(message2),
    ensures
        message1 == message2,
{
    let data = padded(message1);
    let total = data.len() as int;
    let len1 = message1.len();
    let len2 = message2.len();
    lemma_padded_length(message1);
    lemma_padded_length(message2);
    let bits1 = length_bytes(bit_length(len1));
    let bits2 = length_bytes(bit_length(len2));
    assert forall|i: int| 0 <= i < 16 implies bits1[i] == bits2[i] by {
        lemma_padding_byte(len1, total - 16 + i - len1);
        lemma_padding_byte(len2, total - 16 + i - len2);
        assert(padded(message1)[total - 16 + i] == padding(len1)[total - 16 + i - len1]);
        assert(padded(message2)[total - 16 + i] == padding(len2)[total - 16 + i - len2]);
    }
    assert(bits1 =~= bits2);
    lemma_length_bytes_injective(bit_length(len1), bit_length(len2));
    assert(len1 == len2);
    assert(message1 =~= padded(message1).subrange(0, len1 as int));
    assert(message2 =~= padded(message2).subrange(0, len2 as int));
}

/// Determinism: messages with the same bytes have the same digest, and the
/// compression function gives the same state for the same state and block.
pub proof fn lemma_deterministic(
    message1: Seq<u8>,
    message2: Seq<u8>,
    state1: Seq<u64>,
    block1: Seq<u64>,
    state2: Seq<u64>,
    block2: Seq<u64>,
)
    requires
        message1 =~= message2,
        state1 =~= state2,
        block1 =~= block2,
    ensures
        sha512(message1) == sha512(message2),
        compress(state1, block1) == compress(state2, block2),
{
}

/// The message that a hasher holds once `chunks` were appended to it in order,
/// where it held `start` before.
pub open spec fn appended(start: Seq<u8>, chunks: Seq<Seq<u8>>) -> Seq<u8>
    decreases chunks.len(),
{
    if chunks.len() == 0 {
        start
    } else {
        appended(start + chunks.first(), chunks.drop_first())
    }
}

/// Appending chunks in order appends their concatenation.
pub proof fn lemma_appended_flatten(start: Seq<u8>, chunks: Seq<Seq<u8>>)
    ensures
        appended(start, chunks) == start + chunks.flatten(),
    decreases chunks.len(),
{
    if chunks.len() == 0 {
        assert(start + chunks.flatten() =~= start);
    } else {
        lemma_appended_flatten(start + chunks.first(), chunks.drop_first());
        assert((start + chunks.first()) + chunks.drop_first().flatten() =~= start
            + chunks.flatten());
    }
}

/// Streaming equivalence: however a message is split into chunks, and whether
/// or not a split falls on a block boundary, a new hasher that was fed the
/// chunks in order holds the whole message, and so finalizes to the digest of
/// the whole message.
pub proof fn lemma_streaming_equivalence(chunks: Seq<Seq<u8>>)
    ensures
        appended(Seq::empty(), chunks) == chunks.flatten(),
        sha512(appended(Seq::empty(), chunks)) == sha512(chunks.flatten()),
{
    lemma_appended_flatten(Seq::empty(), chunks);
    assert(Seq::<u8>::empty() + chunks.flatten() =~= chunks.flatten());
}

} // verus!
