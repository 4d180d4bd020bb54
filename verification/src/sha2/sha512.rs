//! The incremental SHA-512 hasher and the one-shot hash function.
use super::consts::{DIGEST_BYTES, H512, STATE_LEN};
use super::lemmas::{
    lemma_absorbed_prefix, lemma_absorbed_push_full, lemma_absorbed_push_partial,
    lemma_bit_length_add, lemma_padded_length, lemma_padding_byte,
};
use super::model::{
    absorbed, bit_length, block_at, digest_bytes, length_bytes, padded, padding, sha512,
};
use super::sha512_utils::compress512;
use vstd::prelude::*;

verus! {

/// A SHA-512 computation in progress. It holds the hash state after the whole
/// blocks of the message fed so far, the bytes after the last whole block, and
/// the length of the message in bits, counted modulo 2^128.
///
/// Its view is the message fed so far.
pub struct Hasher {
    state: [u64; STATE_LEN],
    buffer: [u8; 128],
    pos: usize,
    length: u128,
    message: Ghost<Seq<u8>>,
}

impl View for Hasher {
    type V = Seq<u8>;

    closed spec fn view(&self) -> Seq<u8> {
        self.message@
    }
}

/// What the parts of a hasher hold of a message: the state after its whole
/// blocks, and the bytes after them at the head of the buffer.
spec fn holds(state: Seq<u64>, buffer: Seq<u8>, pos: usize, message: Seq<u8>) -> bool {
    &&& pos == message.len() % 128
    &&& state == absorbed(message, message.len() as int / 128)
    &&& buffer.len() == 128
    &&& forall|i: int| 0 <= i < pos ==> buffer[i] == message[message.len() - pos + i]
}

impl Hasher {
    #[verifier::type_invariant]
    spec fn well_formed(self) -> bool {
        &&& holds(self.state@, self.buffer@, self.pos, self.message@)
        &&& self.length == bit_length(self.message@.len())
    }

    /// A hasher that has been fed nothing.
    pub fn new() -> (hasher: Self)
        ensures
            hasher@ == Seq::<u8>::empty(),
    {
        Hasher { state: H512, buffer: [0u8; 128], pos: 0, length: 0, message: Ghost(Seq::empty()) }
    }

    /// Feeds `bytes` to the hasher: the message grows by them. Each block of
    /// 128 bytes that they complete is compressed into the state as it fills.
    pub fn append(&mut self, bytes: &[u8])
        ensures
            final(self)@ == old(self)@ + bytes@,
    {
        proof {
            use_type_invariant(&*self);
        }
        let mut state = self.state;
        let mut buffer = self.buffer;
        let mut pos = self.pos;
        let ghost mut message = self.message@;
        assert(message + bytes@.subrange(0, 0) =~= message);

        let mut i: usize = 0;
        while i < bytes.len()
            invariant
                i <= bytes.len(),
                message == old(self)@ + bytes@.subrange(0, i as int),
                holds(state@, buffer@, pos, message),
            decreases bytes.len() - i,
        {
            let byte = bytes[i];
            let ghost longer = message.push(byte);
            assert(longer =~= old(self)@ + bytes@.subrange(0, i + 1));
            buffer[pos] = byte;
            pos = pos + 1;
            if pos == 128 {
                proof {
                    lemma_absorbed_push_full(message, byte);
                    assert(buffer@ =~= block_at(longer, message.len() as int / 128));
                }
                compress512(&mut state, &buffer);
                pos = 0;
            } else {
                proof {
                    lemma_absorbed_push_partial(message, byte);
                }
            }
            proof {
                message = longer;
            }
            i = i + 1;
        }
        assert(bytes@.subrange(0, bytes.len() as int) =~= bytes@);

        let added: u128 = (bytes.len() as u128) * 8;
        let length = self.length.wrapping_add(added);
        proof {
            lemma_bit_length_add(old(self)@.len(), bytes@.len());
        }
        *self = Hasher { state, buffer, pos, length, message: Ghost(message) };
    }

    /// Ends the computation: pads the message and gives its digest.
    pub fn finalize(self) -> (digest: [u8; DIGEST_BYTES])
        ensures
            digest@ == sha512(self@),
    {
        proof {
            use_type_invariant(&self);
            lemma_padded_length(self.message@);
        }
        let ghost message = self.message@;
        let ghost whole = message.len() as int / 128;
        let ghost data = padded(message);
        let ghost tail = padding(message.len());
        let mut state = self.state;
        let pos = self.pos;
        proof {
            lemma_absorbed_prefix(message, data, whole);
        }

        // The bytes left over, then the marker; the rest of the block is zero.
        let mut block = [0u8; 128];
        let mut i: usize = 0;
        while i < pos
            invariant
                i <= pos < 128,
                forall|j: int| 0 <= j < i ==> block[j] == self.buffer[j],
                forall|j: int| i <= j < 128 ==> block[j] == 0,
            decreases pos - i,
        {
            block[i] = self.buffer[i];
            i = i + 1;
        }
        block[pos] = 0x80;

        let ghost mut last = whole;
        if pos >= 112 {
            // No room is left for the length: it goes into a block of its own.
            assert forall|j: int| 0 <= j < 128 implies block[j] == block_at(data, whole)[j] by {
                if j >= pos {
                    lemma_padding_byte(message.len(), j - pos);
                }
            }
            assert(block@ =~= block_at(data, whole));
            compress512(&mut state, &block);
            block = [0u8; 128];
            proof {
                last = whole + 1;
            }
        }
        assert(state@ == absorbed(data, last));
        assert(data.len() == 128 * last + 128);

        let ghost head = block@;
        let mut k: usize = 0;
        while k < 16
            invariant
                k <= 16,
                head.len() == 128,
                forall|j: int| 0 <= j < 112 ==> block[j] == head[j],
                forall|j: int| 0 <= j < k ==> block[112 + j] == length_bytes(self.length)[j],
            decreases 16 - k,
        {
            let shift: u32 = (120 - 8 * k) as u32;
            block[112 + k] = #[verifier::truncate] ((self.length >> shift) as u8);
            k = k + 1;
        }
        assert forall|j: int| 0 <= j < 128 implies block[j] == block_at(data, last)[j] by {
            let at = 128 * last + j;
            assert(block_at(data, last)[j] == data[at]);
            if at >= message.len() {
                lemma_padding_byte(message.len(), at - message.len());
                assert(data[at] == tail[at - message.len()]);
            } else {
                assert(data[at] == message[at]);
            }
            if j >= 112 {
                assert(block[112 + (j - 112)] == length_bytes(self.length)[j - 112]);
            } else {
                assert(block[j] == head[j]);
            }
        }
        assert(block@ =~= block_at(data, last));
        compress512(&mut state, &block);
        assert(state@ == absorbed(data, last + 1));

        let mut digest = [0u8; DIGEST_BYTES];
        let mut i: usize = 0;
        while i < DIGEST_BYTES
            invariant
                i <= DIGEST_BYTES,
                forall|j: int| 0 <= j < i ==> digest[j] == digest_bytes(state@)[j],
            decreases DIGEST_BYTES - i,
        {
            let shift: u32 = (56 - 8 * (i % 8)) as u32;
            digest[i] = #[verifier::truncate] ((state[i / 8] >> shift) as u8);
            i = i + 1;
        }
        assert(digest@ =~= digest_bytes(state@));
        digest
    }
}

/// The SHA-512 digest of `bytes`.
pub fn hash(bytes: &[u8]) -> (digest: [u8; DIGEST_BYTES])
    ensures
        digest@ == sha512(bytes@),
{
    let mut hasher = Hasher::new();
    hasher.append(bytes);
    assert(Seq::<u8>::empty() + bytes@ =~= bytes@);
    hasher.finalize()
}

} // verus!
