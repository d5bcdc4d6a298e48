use cipher_engine::aes::{doDecrypt, doEncrypt, getInvKeySchedule, getKeySchedule};
use cipher_engine::blowfish::blowfishInit;
use cipher_engine::des;
use cipher_engine::error::CipherError;
use cipher_engine::mode::{parse_mode, process, Direction, Mode};

#[test]
fn mode_tags_are_read_in_any_case() {
    assert_eq!(parse_mode("ecb"), Ok(Mode::Ecb));
    assert_eq!(parse_mode("ECB"), Ok(Mode::Ecb));
    assert_eq!(parse_mode("cbc"), Ok(Mode::Cbc));
    assert_eq!(parse_mode("CbC"), Ok(Mode::Cbc));
    assert_eq!(parse_mode("cfb"), Ok(Mode::Cfb));
    assert_eq!(parse_mode("cFB"), Ok(Mode::Cfb));
    assert_eq!(parse_mode("ofb"), Ok(Mode::Ofb));
    assert_eq!(parse_mode("Ofb"), Ok(Mode::Ofb));
    assert_eq!(parse_mode("ctr"), Ok(Mode::Ctr));
    assert_eq!(parse_mode("CTR"), Ok(Mode::Ctr));
}

#[test]
fn other_tags_are_unsupported() {
    for tag in ["", "cb", "cbcc", "gcm", "ec b", " ecb", "e\u{441}b", "ctr\n", "\u{212a}bc", "c\u{3}b"] {
        assert_eq!(parse_mode(tag), Err(CipherError::UnsupportedMode));
    }
}

#[test]
fn error_messages() {
    assert_eq!(CipherError::InvalidKeySize.message(), "invalid key size");
    assert_eq!(CipherError::UnsupportedMode.message(), "unsupported mode");
    assert_eq!(CipherError::MisalignedInput.message(), "misaligned input");
    assert_eq!(CipherError::OutOfBounds.message(), "out of bounds");
}

#[test]
fn inverse_transform_is_for_ecb_and_cbc_decryption_only() {
    for mode in [Mode::Ecb, Mode::Cbc, Mode::Cfb, Mode::Ofb, Mode::Ctr] {
        assert!(!mode.needs_inverse(Direction::Encrypt));
    }
    assert!(Mode::Ecb.needs_inverse(Direction::Decrypt));
    assert!(Mode::Cbc.needs_inverse(Direction::Decrypt));
    assert!(!Mode::Cfb.needs_inverse(Direction::Decrypt));
    assert!(!Mode::Ofb.needs_inverse(Direction::Decrypt));
    assert!(!Mode::Ctr.needs_inverse(Direction::Decrypt));
}

#[test]
fn ctr_keystream_goes_by_block_index_and_the_counter_wraps_without_carry() {
    let key = [0x59a6b468, 0x33d8c258, 0xb88d5d6d, 0x767a796c];
    let ks = getKeySchedule(4, &key).unwrap();
    let iv = [0x01020304, 0x05060708, 0xffffffff, 0xfffffffe];
    // The keystream is what encryption leaves of a message of zeros.
    let mut stream = vec![0u32; 16];
    let chain = doEncrypt("ctr", 10, 16, 4, &iv, &mut stream, &ks);
    assert_eq!(stream, vec![
        0x7927391f, 0xc0718be5, 0xf5b1777f, 0xa283f615, 0x21ead665, 0x4dc5e94b,
        0xf6b4685c, 0x83831ee3, 0x1b44a7be, 0xe97fb3fd, 0xe81c77a0, 0x883d4fa9,
        0xbe456fbe, 0x1bf367e1, 0x098212b8, 0x76e45fd7,
    ]);
    // The last word has wrapped around; the word before it has not moved.
    assert_eq!(chain, Ok(vec![0x01020304, 0x05060708, 0xffffffff, 0x00000002]));
    // Block i of the keystream is the cipher's forward transform of the IV
    // with i added to its last word.
    for i in 0..4u32 {
        let mut counter = vec![iv[0], iv[1], iv[2], iv[3].wrapping_add(i)];
        assert_eq!(doEncrypt("ecb", 10, 4, 4, &[], &mut counter, &ks), Ok(vec![]));
        assert_eq!(counter[..], stream[4 * i as usize..4 * i as usize + 4]);
    }
}

#[test]
fn a_message_may_be_handed_in_in_batches() {
    let key = [0x59a6b468, 0x33d8c258, 0xb88d5d6d, 0x767a796c];
    let ks = getKeySchedule(4, &key).unwrap();
    let inv = getInvKeySchedule(4, &key).unwrap();
    let iv = [0x4e019f5b, 0xf13569c8, 0xa8e0082a, 0x5792d3dc];
    let plain: Vec<u32> = (0..24u32).map(|i| i.wrapping_mul(0x9e3779b9)).collect();
    for mode in ["ecb", "cbc", "cfb", "ofb", "ctr"] {
        let mut whole = plain.clone();
        let last = doEncrypt(mode, 10, 24, 4, &iv, &mut whole, &ks).unwrap();
        for cut in [0usize, 4, 8, 20, 24] {
            let mut parts = plain.clone();
            let chain = doEncrypt(mode, 10, cut, 4, &iv, &mut parts[..], &ks).unwrap();
            assert_eq!(parts[..cut], whole[..cut]);
            assert_eq!(parts[cut..], plain[cut..]);
            let chain = doEncrypt(mode, 10, 24 - cut, 4, &chain, &mut parts[cut..], &ks).unwrap();
            assert_eq!(parts, whole);
            assert_eq!(chain, last);
            let chain = doDecrypt(mode, 10, cut, 4, &iv, &mut parts[..], &ks, &inv).unwrap();
            let chain = doDecrypt(mode, 10, 24 - cut, 4, &chain, &mut parts[cut..], &ks, &inv).unwrap();
            assert_eq!(parts, plain);
            assert_eq!(chain, last);
        }
    }
}

#[test]
fn with_no_words_ready_the_chain_state_is_where_the_session_starts() {
    let ks = getKeySchedule(4, &[0; 4]).unwrap();
    let iv = [1u32, 2, 3, 4, 5];
    let mut data = vec![9u32; 4];
    assert_eq!(doEncrypt("ecb", 10, 0, 4, &iv, &mut data, &ks), Ok(vec![]));
    for mode in ["cbc", "cfb", "ofb", "ctr"] {
        assert_eq!(doEncrypt(mode, 10, 0, 4, &iv, &mut data, &ks), Ok(vec![1, 2, 3, 4]));
        assert_eq!(doDecrypt(mode, 10, 0, 4, &iv, &mut data, &ks, &ks), Ok(vec![1, 2, 3, 4]));
    }
    assert_eq!(data, vec![9u32; 4]);
    let mut none: Vec<u32> = vec![];
    assert_eq!(doEncrypt("cbc", 10, 0, 4, &iv, &mut none, &ks), Ok(vec![1, 2, 3, 4]));
}

#[test]
fn the_chain_state_is_what_each_mode_says() {
    let key = [0x58c0da0a, 0xb4fc91cd];
    let iv = [0x861057d6, 0xe8304fc3];
    let plain = vec![0x8a3f0e5c, 0x518b6807, 0x27cf2bfd, 0xd98b3433];
    // CBC and CFB hand back the last block of ciphertext.
    for mode in ["cbc", "cfb"] {
        let mut data = plain.clone();
        let chain = des::doEncrypt(mode, 4, 2, &iv, &mut data, &key).unwrap();
        assert_eq!(chain[..], data[2..]);
        let sealed = data.clone();
        let chain = des::doDecrypt(mode, 4, 2, &iv, &mut data, &key).unwrap();
        assert_eq!(chain[..], sealed[2..]);
    }
    // OFB hands back the last block of keystream.
    let mut data = plain.clone();
    let chain = des::doEncrypt("ofb", 4, 2, &iv, &mut data, &key).unwrap();
    assert_eq!(chain, vec![data[2] ^ plain[2], data[3] ^ plain[3]]);
    assert_eq!(chain, vec![0x34b53845, 0xd6a47586]);
    // CTR hands back the counter of the next block.
    let mut data = plain.clone();
    let chain = des::doEncrypt("ctr", 4, 2, &iv, &mut data, &key).unwrap();
    assert_eq!(chain, vec![iv[0], iv[1].wrapping_add(2)]);
    assert_eq!(data, vec![0x8bbf1681, 0x64a1428c, 0x38ec3013, 0x21ba366b]);
}

#[test]
fn one_flipped_bit_of_ciphertext_spoils_two_blocks_of_plaintext() {
    let key = [0xa14aa492, 0x2a8ad003, 0x76a2da96, 0x7306943b];
    let ks = getKeySchedule(4, &key).unwrap();
    let inv = getInvKeySchedule(4, &key).unwrap();
    let iv = [0x8de40640, 0xda470cb0, 0xdc554f8c, 0xbe743a99];
    let plain = vec![
        0xff5910c1, 0x30a65551, 0x71e2a915, 0x59ce76ab, 0x62cd295b, 0x2b8fec8c,
        0xb6d500ad, 0x3c4eba18, 0xe264e25d, 0x7a8e6b70, 0x22881ac0, 0x2c1748ad,
        0x4bcc7665, 0xb00a125c, 0xdb9df445, 0x02512c34, 0xaba1801e, 0x34b473f5,
        0x27e6126e, 0xb9809e90,
    ];
    for mode in ["cbc", "cfb"] {
        let mut sealed = plain.clone();
        doEncrypt(mode, 10, 20, 4, &iv, &mut sealed, &ks).unwrap();
        for block in 0..5usize {
            let mut damaged = sealed.clone();
            damaged[4 * block + 1] ^= 0x0000_0400;
            doDecrypt(mode, 10, 20, 4, &iv, &mut damaged, &ks, &inv).unwrap();
            for other in 0..5usize {
                let same = damaged[4 * other..4 * other + 4] == plain[4 * other..4 * other + 4];
                assert_eq!(same, other != block && other != block + 1);
            }
            // One of the two spoiled blocks differs in the flipped bit only.
            let exact = if mode == "cbc" { block + 1 } else { block };
            if exact < 5 {
                let mut expected = plain[4 * exact..4 * exact + 4].to_vec();
                expected[1] ^= 0x0000_0400;
                assert_eq!(damaged[4 * exact..4 * exact + 4], expected[..]);
            }
        }
    }
}

#[test]
fn the_driver_can_be_called_with_a_transform_of_ones_own_choice() {
    let sk = des::schedule::getSubKeys(&[0x13345779, 0x9BBCDFF1]).unwrap();
    let pass = des::block::DesPass { subkeys: &sk };
    let mut data = vec![0x01234567u32, 0x89ABCDEF, 7];
    let chain = process(Mode::Ecb, Direction::Encrypt, &pass, 2, 2, &[], &mut data);
    assert_eq!(chain, Ok(vec![]));
    assert_eq!(data, vec![0x85E81354, 0x0F0AB405, 7]);
    assert_eq!(
        process(Mode::Ecb, Direction::Encrypt, &pass, 2, 3, &[], &mut data),
        Err(CipherError::MisalignedInput),
    );
    assert_eq!(
        process(Mode::Ecb, Direction::Encrypt, &pass, 4, 4, &[], &mut data),
        Err(CipherError::MisalignedInput),
    );
    assert_eq!(
        process(Mode::Cbc, Direction::Encrypt, &pass, 2, 2, &[1], &mut data),
        Err(CipherError::OutOfBounds),
    );
    assert_eq!(
        process(Mode::Cbc, Direction::Encrypt, &pass, 2, 4, &[1, 2], &mut data),
        Err(CipherError::OutOfBounds),
    );
    assert_eq!(data, vec![0x85E81354, 0x0F0AB405, 7]);
}

#[test]
fn the_same_key_always_gives_the_same_schedule() {
    let key = [0x00010203u32, 0x04050607, 0x08090a0b, 0x0c0d0e0f, 0x10111213, 0x14151617];
    for size in [4u32, 6] {
        let first = getKeySchedule(size, &key).unwrap();
        assert_eq!(getKeySchedule(size, &key).unwrap(), first);
        assert_eq!(getKeySchedule(size, &key.to_vec()).unwrap(), first);
        let inverse = getInvKeySchedule(size, &key).unwrap();
        assert_eq!(getInvKeySchedule(size, &key).unwrap(), inverse);
        assert_ne!(first, inverse);
    }
    let first = des::schedule::getSubKeys(&key[..2]).unwrap();
    assert_eq!(des::schedule::getSubKeys(&key[..2]).unwrap(), first);
    assert_ne!(des::schedule::getSubKeys(&key[2..4]).unwrap(), first);
    let first = blowfishInit(&key, 6).unwrap();
    assert_eq!(blowfishInit(&key, 6).unwrap(), first);
    assert_ne!(blowfishInit(&key, 5).unwrap(), first);
}

#[test]
fn ofb_keystream_is_the_iv_taken_through_the_cipher_again_and_again() {
    let key = [0x13345779u32, 0x9BBCDFF1];
    let iv = [0x01234567u32, 0x89abcdef];
    let plain = vec![0x11111111u32, 0x22222222, 0x33333333, 0x44444444, 0x55555555, 0x66666666];
    let mut data = plain.clone();
    let chain = des::doEncrypt("ofb", 6, 2, &iv, &mut data, &key).unwrap();
    let mut feedback = iv.to_vec();
    for i in 0..3usize {
        assert_eq!(des::doEncrypt("ecb", 2, 2, &[], &mut feedback, &key), Ok(vec![]));
        assert_eq!(data[2 * i], plain[2 * i] ^ feedback[0]);
        assert_eq!(data[2 * i + 1], plain[2 * i + 1] ^ feedback[1]);
    }
    assert_eq!(chain, feedback);
}

#[test]
fn cbc_encryption_chains_each_block_to_the_ciphertext_before_it() {
    let key = [0x13345779u32, 0x9BBCDFF1];
    let iv = [0x01234567u32, 0x89abcdef];
    let plain = vec![0x11111111u32, 0x22222222, 0x33333333, 0x44444444, 0x55555555, 0x66666666];
    let mut data = plain.clone();
    let chain = des::doEncrypt("cbc", 6, 2, &iv, &mut data, &key).unwrap();
    let mut before = iv.to_vec();
    for i in 0..3usize {
        let mut block = vec![plain[2 * i] ^ before[0], plain[2 * i + 1] ^ before[1]];
        assert_eq!(des::doEncrypt("ecb", 2, 2, &[], &mut block, &key), Ok(vec![]));
        assert_eq!(block[..], data[2 * i..2 * i + 2]);
        before = block;
    }
    assert_eq!(chain, before);
}
