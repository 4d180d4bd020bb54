use cryptography::hex::{decode, encode};
use cryptography::sha2::consts::{BLOCK_LEN, H512, K64, STATE_LEN};
use cryptography::sha2::sha512::{hash, Hasher};
use cryptography::sha2::sha512_utils::{
    compress512, sha512_digest_block_u64, sha512_digest_round, sha512_schedule_x2, U64x2,
};

fn digest_hex(digest: [u8; 64]) -> String {
    encode(&digest)
}

fn pattern(len: usize) -> Vec<u8> {
    (0..len).map(|i| (i * 7 + 3) as u8).collect()
}

fn hash_in_chunks(message: &[u8], cuts: &[usize]) -> [u8; 64] {
    let mut hasher = Hasher::new();
    let mut from = 0;
    for &cut in cuts {
        hasher.append(&message[from..cut]);
        from = cut;
    }
    hasher.append(&message[from..]);
    hasher.finalize()
}

#[test]
fn hash_of_empty_input() {
    assert_eq!(
        digest_hex(hash(b"")),
        "cf83e1357eefb8bdf1542850d66d8007d620e4050b5715dc83f4a921d36ce9ce47d0d13c5d85f2b0ff8318d2877eec2f63b931bd47417a81a538327af927da3e"
    );
}

#[test]
fn hash_of_abc() {
    assert_eq!(
        digest_hex(hash(b"abc")),
        "ddaf35a193617abacc417349ae20413112e6fa4e89a97ea20a9eeee64b55d39a2192992a274fc1a836ba3c23a3feebbd454d4423643ce80e2a9ac94fa54ca49f"
    );
}

#[test]
fn hash_of_two_block_message() {
    assert_eq!(
        digest_hex(hash(b"abcdefghbcdefghicdefghijdefghijkefghijklfghijklmghijklmnhijklmnoijklmnopjklmnopqklmnopqrlmnopqrsmnopqrstnopqrstu")),
        "8e959b75dae313da8cf4f72814fc143f8f7779c6eb9f7fa17299aeadb6889018501d289e4900f7e4331b99dec4b5433ac7d329eeb6dd26545e96e55b874be909"
    );
}

#[test]
fn hash_of_111_bytes() {
    assert_eq!(
        digest_hex(hash(&[0x61u8; 111])),
        "fa9121c7b32b9e01733d034cfc78cbf67f926c7ed83e82200ef86818196921760b4beff48404df811b953828274461673c68d04e297b0eb7b2b4d60fc6b566a2"
    );
}

#[test]
fn hash_of_112_bytes() {
    assert_eq!(
        digest_hex(hash(&[0x61u8; 112])),
        "c01d080efd492776a1c43bd23dd99d0a2e626d481e16782e75d54c2503b5dc32bd05f0f1ba33e568b88fd2d970929b719ecbb152f58f130a407c8830604b70ca"
    );
}

#[test]
fn hash_of_113_bytes() {
    assert_eq!(
        digest_hex(hash(&[0x61u8; 113])),
        "55ddd8ac210a6e18ba1ee055af84c966e0dbff091c43580ae1be703bdb85da31acf6948cf5bd90c55a20e5450f22fb89bd8d0085e39f85a86cc46abbca75e24d"
    );
}

#[test]
fn hash_of_127_bytes() {
    assert_eq!(
        digest_hex(hash(&[0x61u8; 127])),
        "828613968b501dc00a97e08c73b118aa8876c26b8aac93df128502ab360f91bab50a51e088769a5c1eff4782ace147dce3642554199876374291f5d921629502"
    );
}

#[test]
fn hash_of_128_bytes() {
    assert_eq!(
        digest_hex(hash(&[0x61u8; 128])),
        "b73d1929aa615934e61a871596b3f3b33359f42b8175602e89f7e06e5f658a243667807ed300314b95cacdd579f3e33abdfbe351909519a846d465c59582f321"
    );
}

#[test]
fn hash_of_129_bytes() {
    assert_eq!(
        digest_hex(hash(&[0x61u8; 129])),
        "4f681e0bd53cda4b5a2041cc8a06f2eabde44fb16c951fbd5b87702f07aeab611565b19c47fde30587177ebb852e3971bbd8d3fd30da18d71037dfbd98420429"
    );
}

#[test]
fn hash_of_239_bytes() {
    assert_eq!(
        digest_hex(hash(&[0x61u8; 239])),
        "52c853cb8d907f3d4d6b889beb027985d7c273486d75f8baf26f80d24e90c74c6c3de3e22131582380a7d14d43f2941a31385439cd6ddc469f628015e50bf286"
    );
}

#[test]
fn hash_of_240_bytes() {
    assert_eq!(
        digest_hex(hash(&[0x61u8; 240])),
        "4c296d90c61052a62ffb1dd196f1b7b09373b1f93e71836baebf89690546b7595684dbe9467a8e484fa0d1094272b4344a7c24f5fee8daedeb0bf549c985ab5f"
    );
}

#[test]
fn hash_of_241_bytes() {
    assert_eq!(
        digest_hex(hash(&[0x61u8; 241])),
        "81bd43dcdb4d9a7bae6f4f3ebd771d5988481613097aa5de5774f9fdfc1d4230a608fa1a9dfe3147dc88545df63513f93d13d92d27963926e5a3632aaed4c8bb"
    );
}

#[test]
fn hash_of_256_bytes() {
    assert_eq!(
        digest_hex(hash(&[0x61u8; 256])),
        "6a9169eb662f136d87374070e8828b3e615a7eca32a89446e9225b02832709be095e635c824a2bb70213ba2ea0ababac0809827843992c851903b7ac0c136699"
    );
}

#[test]
fn hash_of_patterned_kilobyte() {
    assert_eq!(
        digest_hex(hash(&pattern(1000))),
        "00e36fccf193e59697a92b5ab24666ce6326d7fa16bf10832d0991ddc591112e9dfa6a636950ed9c4d67344a760654c2ff7785e1d60094d651038735b5dccabd"
    );
}

#[test]
fn hash_of_a_million_a() {
    let message = vec![0x61u8; 1_000_000];
    assert_eq!(
        digest_hex(hash(&message)),
        "e718483d0ce769644e2e42c7bc15b4638e1f98b13b2044285632a803afa973ebde0ff244877ea60a4cb0432ce577c31beb009c5c2c49aa2e4eadb217ad8cc09b"
    );
}

#[test]
fn new_then_finalize_is_hash_of_empty() {
    assert_eq!(Hasher::new().finalize(), hash(b""));
}

#[test]
fn streaming_one_byte_at_a_time() {
    let message = pattern(300);
    let mut hasher = Hasher::new();
    for byte in &message {
        hasher.append(&[*byte]);
    }
    assert_eq!(hasher.finalize(), hash(&message));
}

#[test]
fn streaming_splits_at_every_offset() {
    let message = pattern(300);
    let whole = hash(&message);
    for cut in 0..=message.len() {
        assert_eq!(hash_in_chunks(&message, &[cut]), whole, "cut at {}", cut);
    }
}

#[test]
fn streaming_splits_on_and_beside_block_boundaries() {
    let message = pattern(515);
    let whole = hash(&message);
    assert_eq!(hash_in_chunks(&message, &[128, 256, 384, 512]), whole);
    assert_eq!(hash_in_chunks(&message, &[127, 255, 383, 511]), whole);
    assert_eq!(hash_in_chunks(&message, &[129, 257, 385, 513]), whole);
    assert_eq!(hash_in_chunks(&message, &[0, 0, 128, 128, 129]), whole);
    assert_eq!(hash_in_chunks(&message, &[1, 2, 3, 400]), whole);
}

#[test]
fn streaming_with_empty_chunks() {
    let mut hasher = Hasher::new();
    hasher.append(b"");
    hasher.append(b"abc");
    hasher.append(b"");
    assert_eq!(hasher.finalize(), hash(b"abc"));
}

#[test]
fn hashing_is_deterministic() {
    let message = pattern(200);
    assert_eq!(hash(&message), hash(&message));
    assert_eq!(hash(&message), hash(&message.clone()));
    let mut first = Hasher::new();
    let mut second = Hasher::new();
    first.append(&message);
    second.append(&message);
    assert_eq!(first.finalize(), second.finalize());
}

#[test]
fn compression_is_deterministic() {
    let block = [0x5au8; 128];
    let mut first = H512;
    let mut second = H512;
    compress512(&mut first, &block);
    compress512(&mut second, &block);
    assert_eq!(first, second);
    compress512(&mut first, &block);
    compress512(&mut second, &block);
    assert_eq!(first, second);
}

#[test]
fn digest_changes_with_one_bit() {
    let message = pattern(200);
    let whole = hash(&message);
    for at in [0usize, 1, 63, 64, 127, 128, 199] {
        for bit in 0..8 {
            let mut other = message.clone();
            other[at] ^= 1 << bit;
            assert_ne!(hash(&other), whole, "byte {} bit {}", at, bit);
        }
    }
}

#[test]
fn digest_changes_with_length() {
    assert_ne!(hash(b""), hash(&[0u8]));
    assert_ne!(hash(&[0u8]), hash(&[0u8, 0u8]));
    assert_ne!(hash(&[0u8; 111]), hash(&[0u8; 112]));
    assert_ne!(hash(&[0u8; 127]), hash(&[0u8; 128]));
    assert_ne!(hash(b"abc"), hash(b"abc\0"));
}

#[test]
fn constants_are_the_published_ones() {
    assert_eq!(STATE_LEN, 8);
    assert_eq!(BLOCK_LEN, 16);
    assert_eq!(H512[0], 0x6a09e667f3bcc908);
    assert_eq!(H512[7], 0x5be0cd19137e2179);
    assert_eq!(K64[0], 0x428a2f98d728ae22);
    assert_eq!(K64[1], 0x7137449123ef65cd);
    assert_eq!(K64[79], 0x6c44198c4a475817);
    assert_eq!(K64.len(), 80);
}

#[test]
fn schedule_gives_the_next_two_words() {
    let w: [u64; 16] = [
        0x4164d8399f767c45,
        0x5bc8fbbcbde5c099,
        0xb0c11fdecb91ce37,
        0xd76d4330f1446bea,
        0xa6eb8c9ebd69fe29,
        0x87b0b125ec1d7da0,
        0xd7210dff076ce2ef,
        0xc6a5387777330bdb,
        0x3fc1ea36f17fd374,
        0x0d464138a6233255,
        0x2827688de6a16a3b,
        0x5f2dd97f1cfb10f6,
        0xde5271007814e8a2,
        0x617959ce3f1f65a8,
        0x1a1afe878b33e968,
        0x3fd4235992edcf45,
    ];
    let v0 = U64x2(w[1], w[0]);
    let v1 = U64x2(w[3], w[2]);
    let v4to5 = U64x2(w[10], w[9]);
    let v7 = U64x2(w[15], w[14]);
    assert_eq!(
        sha512_schedule_x2(v0, v1, v4to5, v7),
        U64x2(0xba591ed5206a7f66, 0x3045dac9f931f22a)
    );
}

#[test]
fn schedule_of_zero_words_is_zero() {
    let zero = U64x2(0, 0);
    assert_eq!(sha512_schedule_x2(zero, zero, zero, zero), U64x2(0, 0));
}

#[test]
fn schedule_wraps_around() {
    let ones = U64x2(u64::MAX, u64::MAX);
    assert_eq!(
        sha512_schedule_x2(ones, ones, ones, ones),
        U64x2(0x05fffffffffffffc, 0x05fffffffffffffc)
    );
}

#[test]
fn round_gives_the_new_a_and_e() {
    let ae = U64x2(0xbb2edb20035b7399, 0x63b229f1c4069545);
    let bf = U64x2(0x687c966c377b9aa2, 0xc30d8b7628dbd25e);
    let cg = U64x2(0x2e9c82b1478c281d, 0x126a1e48cc11d357);
    let dh = U64x2(0xde11cc9dea959c21, 0x9e30691c238642ea);
    assert_eq!(
        sha512_digest_round(ae, bf, cg, dh, 0x71e0c07e9e115e4b),
        U64x2(0x0ba4043c4f61bfb1, 0x4a11eb1f434bc7bb)
    );
}

#[test]
fn first_round_of_an_empty_block() {
    let ae = U64x2(H512[0], H512[4]);
    let bf = U64x2(H512[1], H512[5]);
    let cg = U64x2(H512[2], H512[6]);
    let dh = U64x2(H512[3], H512[7]);
    assert_eq!(
        sha512_digest_round(ae, bf, cg, dh, K64[0]),
        U64x2(0x954d6b38bcfcddf5, 0xf7689eb47ab51f91)
    );
}

#[test]
fn block_function_on_words() {
    let block: [u64; 16] = [
        0x21da8978206f5c66,
        0xf8eb18b900745130,
        0x015c33b2df1461aa,
        0xc60a3cab359eeefb,
        0xf5cae3bf3729c619,
        0x2a759159fb7ff337,
        0x2a9eba0cdf561d80,
        0x504b74ba4a0fe75d,
        0x32ea6928f6236bf2,
        0xe049548e8a0a8c96,
        0xa02fdaa1ad864c44,
        0x2e81d66d346c6e2b,
        0xf7f35634f0e3cd97,
        0x3266aa3bb0cde917,
        0xf7108e96f770c226,
        0x621aef57e4cc4132,
    ];
    let mut state = H512;
    sha512_digest_block_u64(&mut state, &block);
    assert_eq!(
        state,
        [
            0x6af020ac8f17a01b,
            0xbe9e780562425b27,
            0x4c14a53fe597338c,
            0xa5e6162b7a4128cb,
            0x3fef478bc31ab444,
            0x630e07e5daf54545,
            0x17d7eb01c75b057d,
            0xb87673c865bf5f84,
        ]
    );
}

#[test]
fn compress_reads_the_block_big_endian() {
    let mut block = [0u8; 128];
    for (i, byte) in block.iter_mut().enumerate() {
        *byte = i as u8;
    }
    let mut words = [0u64; 16];
    for (i, word) in words.iter_mut().enumerate() {
        *word = u64::from_be_bytes([
            block[8 * i],
            block[8 * i + 1],
            block[8 * i + 2],
            block[8 * i + 3],
            block[8 * i + 4],
            block[8 * i + 5],
            block[8 * i + 6],
            block[8 * i + 7],
        ]);
    }
    assert_eq!(words[0], 0x0001020304050607);
    let mut state = H512;
    compress512(&mut state, &block);
    let mut expected = H512;
    sha512_digest_block_u64(&mut expected, &words);
    assert_eq!(state, expected);
    assert_eq!(
        state,
        [
            0x8e03953cd57cd687,
            0x9321270afa70c582,
            0x7bb5b69be59a8f01,
            0x30147e94f2aedf7b,
            0xdc01c56c92343ca8,
            0xbd837bb7f0208f5a,
            0x23e155694516b6f1,
            0x47099d491a30b151,
        ]
    );
    compress512(&mut state, &block);
    assert_eq!(
        state,
        [
            0x07d3ea781e999a07,
            0x9bfc4e445ebdc8e0,
            0x6a79370da2f4abbe,
            0xb61247e49968af87,
            0xa17e011b5fa73d50,
            0xa0f75cc9d8bca9a7,
            0x80502c2904c167f7,
            0xd2fd3406ac8fbe4e,
        ]
    );
}

#[test]
fn compress_of_the_padded_abc_block_is_the_digest() {
    let mut block = [0u8; 128];
    block[0] = 0x61;
    block[1] = 0x62;
    block[2] = 0x63;
    block[3] = 0x80;
    block[127] = 24;
    let mut state = H512;
    compress512(&mut state, &block);
    let mut digest = Vec::new();
    for word in state {
        digest.extend_from_slice(&word.to_be_bytes());
    }
    assert_eq!(digest, hash(b"abc").to_vec());
}

#[test]
fn digest_text_decodes_to_the_digest() {
    let digest = hash(b"abc");
    let text = digest_hex(digest);
    assert_eq!(text.len(), 128);
    assert_eq!(decode(text.as_bytes()), Ok(digest.to_vec()));
}
