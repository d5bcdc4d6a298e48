use cipher_engine::aes::tables::AesTables;
use cipher_engine::aes::{doDecrypt, doEncrypt, getInvKeySchedule, getKeySchedule};
use cipher_engine::error::CipherError;
use cipher_engine::mode::Mode;

#[test]
fn aes128_ecb_zero_key_zero_block() {
    let key = [0u32; 4];
    let ks = getKeySchedule(4, &key).unwrap();
    assert_eq!(ks.len(), 44);
    let mut data = vec![0u32; 4];
    let chain = doEncrypt("ecb", 10, 4, 4, &[], &mut data, &ks);
    assert_eq!(chain, Ok(vec![]));
    assert_eq!(data, vec![0x66e94bd4, 0xef8a2c3b, 0x884cfa59, 0xca342b2e]);
    let inv = getInvKeySchedule(4, &key).unwrap();
    let chain = doDecrypt("ecb", 10, 4, 4, &[], &mut data, &ks, &inv);
    assert_eq!(chain, Ok(vec![]));
    assert_eq!(data, vec![0u32; 4]);
}

#[test]
fn aes128_ecb_standard_example() {
    let key = [0x00010203, 0x04050607, 0x08090a0b, 0x0c0d0e0f];
    let ks = getKeySchedule(4, &key).unwrap();
    let inv = getInvKeySchedule(4, &key).unwrap();
    assert_eq!(ks.len(), 44);
    assert_eq!(inv.len(), 44);
    let mut data = vec![0x00112233, 0x44556677, 0x8899aabb, 0xccddeeff];
    assert_eq!(doEncrypt("ECB", 10, 4, 4, &[], &mut data, &ks), Ok(vec![]));
    assert_eq!(data, vec![0x69c4e0d8, 0x6a7b0430, 0xd8cdb780, 0x70b4c55a]);
    assert_eq!(doDecrypt("Ecb", 10, 4, 4, &[], &mut data, &ks, &inv), Ok(vec![]));
    assert_eq!(data, vec![0x00112233, 0x44556677, 0x8899aabb, 0xccddeeff]);
}

#[test]
fn aes192_ecb_standard_example() {
    let key = [0x00010203, 0x04050607, 0x08090a0b, 0x0c0d0e0f, 0x10111213, 0x14151617];
    let ks = getKeySchedule(6, &key).unwrap();
    let inv = getInvKeySchedule(6, &key).unwrap();
    assert_eq!(ks.len(), 52);
    assert_eq!(inv.len(), 52);
    let mut data = vec![0x00112233, 0x44556677, 0x8899aabb, 0xccddeeff];
    assert_eq!(doEncrypt("ECB", 12, 4, 4, &[], &mut data, &ks), Ok(vec![]));
    assert_eq!(data, vec![0xdda97ca4, 0x864cdfe0, 0x6eaf70a0, 0xec0d7191]);
    assert_eq!(doDecrypt("Ecb", 12, 4, 4, &[], &mut data, &ks, &inv), Ok(vec![]));
    assert_eq!(data, vec![0x00112233, 0x44556677, 0x8899aabb, 0xccddeeff]);
}

#[test]
fn aes256_ecb_standard_example() {
    let key = [
        0x00010203, 0x04050607, 0x08090a0b, 0x0c0d0e0f, 0x10111213, 0x14151617,
        0x18191a1b, 0x1c1d1e1f,
    ];
    let ks = getKeySchedule(8, &key).unwrap();
    let inv = getInvKeySchedule(8, &key).unwrap();
    assert_eq!(ks.len(), 60);
    assert_eq!(inv.len(), 60);
    let mut data = vec![0x00112233, 0x44556677, 0x8899aabb, 0xccddeeff];
    assert_eq!(doEncrypt("ECB", 14, 4, 4, &[], &mut data, &ks), Ok(vec![]));
    assert_eq!(data, vec![0x8ea2b7ca, 0x516745bf, 0xeafc4990, 0x4b496089]);
    assert_eq!(doDecrypt("Ecb", 14, 4, 4, &[], &mut data, &ks, &inv), Ok(vec![]));
    assert_eq!(data, vec![0x00112233, 0x44556677, 0x8899aabb, 0xccddeeff]);
}

#[test]
fn aes128_key_expansion_words() {
    let key = [0x2b7e1516, 0x28aed2a6, 0xabf71588, 0x09cf4f3c];
    let ks = getKeySchedule(4, &key).unwrap();
    assert_eq!(ks, vec![
        0x2b7e1516, 0x28aed2a6, 0xabf71588, 0x09cf4f3c, 0xa0fafe17, 0x88542cb1,
        0x23a33939, 0x2a6c7605, 0xf2c295f2, 0x7a96b943, 0x5935807a, 0x7359f67f,
        0x3d80477d, 0x4716fe3e, 0x1e237e44, 0x6d7a883b, 0xef44a541, 0xa8525b7f,
        0xb671253b, 0xdb0bad00, 0xd4d1c6f8, 0x7c839d87, 0xcaf2b8bc, 0x11f915bc,
        0x6d88a37a, 0x110b3efd, 0xdbf98641, 0xca0093fd, 0x4e54f70e, 0x5f5fc9f3,
        0x84a64fb2, 0x4ea6dc4f, 0xead27321, 0xb58dbad2, 0x312bf560, 0x7f8d292f,
        0xac7766f3, 0x19fadc21, 0x28d12941, 0x575c006e, 0xd014f9a8, 0xc9ee2589,
        0xe13f0cc8, 0xb6630ca6,
    ]);
}

#[test]
fn aes128_schedule_for_decryption_words() {
    let key = [0x2b7e1516, 0x28aed2a6, 0xabf71588, 0x09cf4f3c];
    let inv = getInvKeySchedule(4, &key).unwrap();
    assert_eq!(inv, vec![
        0xd014f9a8, 0xb6630ca6, 0xe13f0cc8, 0xc9ee2589, 0x0c7b5a63, 0x664cfbb4,
        0xb0398890, 0x1319eafe, 0xdf7d925a, 0xd6757324, 0xa320626e, 0x1f62b09d,
        0x12c07647, 0x7555114a, 0xbc42d2f3, 0xc01f22c7, 0x6efcd876, 0xc917c3b9,
        0x7c5df034, 0xd2df5480, 0x6ea30afc, 0xb54a338d, 0xae82a4b4, 0xbc238cf6,
        0x90884413, 0x1bc89739, 0x12a12842, 0xd280860a, 0x7c1f13f7, 0x0969bf7b,
        0xc021ae48, 0x4208c219, 0xcc7505eb, 0xc9481133, 0x82296c51, 0x3e17d1ee,
        0x2b3708a7, 0x4b617d62, 0xbc3ebdbf, 0xf262d405, 0x2b7e1516, 0x09cf4f3c,
        0xabf71588, 0x28aed2a6,
    ]);
}

#[test]
fn aes192_schedules() {
    let key = [0x9b9b1325, 0xd1a6e55e, 0xc55a45f8, 0x566bf9d7, 0x4243ed52, 0xcf0c26ef];
    assert_eq!(getKeySchedule(6, &key).unwrap(), vec![
        0x9b9b1325, 0xd1a6e55e, 0xc55a45f8, 0x566bf9d7, 0x4243ed52, 0xcf0c26ef,
        0x646cccaf, 0xb5ca29f1, 0x70906c09, 0x26fb95de, 0x64b8788c, 0xabb45e63,
        0xeb3437cd, 0x5efe1e3c, 0x2e6e7235, 0x0895e7eb, 0x6c2d9f67, 0xc799c104,
        0x014cc50b, 0x5fb2db37, 0x71dca902, 0x79494ee9, 0x1564d18e, 0xd2fd108a,
        0x5d86bbbe, 0x02346089, 0x73e8c98b, 0x0aa18762, 0x1fc556ec, 0xcd384666,
        0x4adc8803, 0x48e8e88a, 0x3b002101, 0x31a1a663, 0x2e64f08f, 0xe35cb6e9,
        0x20929612, 0x687a7e98, 0x537a5f99, 0x62dbf9fa, 0x4cbf0975, 0xafe3bf9c,
        0x719a486b, 0x19e036f3, 0x4a9a696a, 0x28419090, 0x64fe99e5, 0xcb1d2679,
        0x556dfe74, 0x4c8dc887, 0x0617a1ed, 0x2e56317d,
    ]);
    assert_eq!(getInvKeySchedule(6, &key).unwrap(), vec![
        0x556dfe74, 0x2e56317d, 0x0617a1ed, 0x4c8dc887, 0x6c9bf2d6, 0x484dac20,
        0x05cb2f07, 0x209d4a9e, 0x25566599, 0x8bdcdcb7, 0x8a1e3864, 0x4d868327,
        0x2c31f6dd, 0x4c06b848, 0xe7472e61, 0x01c2e4d3, 0xe685cab2, 0x68d0e6be,
        0x6950ddd1, 0xab419629, 0xc2114bf8, 0x2df3120e, 0xadd05535, 0x01803b6f,
        0x316870f7, 0x4dc45c9b, 0xcb76d8bc, 0x8023473b, 0x4b559f87, 0xc3917097,
        0x8fd51763, 0x86b28427, 0x09679344, 0xb14b37cc, 0x51b588ef, 0x4c4467f4,
        0x05ed935e, 0xcde71ba0, 0xfa1ea84b, 0xe0febf23, 0x1ae01768, 0x4523f4b0,
        0xc48088e4, 0x37f9b3eb, 0xf3793b0f, 0xe5132c7d, 0xfc08821d, 0x81a37c54,
        0x9b9b1325, 0x566bf9d7, 0xc55a45f8, 0xd1a6e55e,
    ]);
}

#[test]
fn aes256_schedules() {
    let key = [
        0x265beda9, 0x5d96cf7f, 0xb7decc0c, 0xc1d77cff, 0xdd70e34d, 0x5e6a0a2e,
        0x55ac0ecd, 0x04635137,
    ];
    assert_eq!(getKeySchedule(8, &key).unwrap(), vec![
        0x265beda9, 0x5d96cf7f, 0xb7decc0c, 0xc1d77cff, 0xdd70e34d, 0x5e6a0a2e,
        0x55ac0ecd, 0x04635137, 0xdc8a775b, 0x811cb824, 0x36c27428, 0xf71508d7,
        0xb529d343, 0xeb43d96d, 0xbeefd7a0, 0xba8c8697, 0xbaceffaf, 0x3bd2478b,
        0x0d1033a3, 0xfa053b74, 0x984231d1, 0x7301e8bc, 0xcdee3f1c, 0x7762b98b,
        0x1498c25a, 0x2f4a85d1, 0x225ab672, 0xd85f8d06, 0xf98d6cbe, 0x8a8c8402,
        0x4762bb1e, 0x30000295, 0x7fefe85e, 0x50a56d8f, 0x72ffdbfd, 0xaaa056fb,
        0x556dddb1, 0xdfe159b3, 0x9883e2ad, 0xa883e038, 0x830eef9c, 0xd3ab8213,
        0xa15459ee, 0x0bf40f15, 0x7ed2abe8, 0xa133f25b, 0x39b010f6, 0x9133f0ce,
        0x6082641d, 0xb329e60e, 0x127dbfe0, 0x1989b0f5, 0xaa754c0e, 0x0b46be55,
        0x32f6aea3, 0xa3c55e6d, 0x86da5817, 0x35f3be19, 0x278e01f9, 0x3e07b10c,
    ]);
    assert_eq!(getInvKeySchedule(8, &key).unwrap(), vec![
        0x86da5817, 0x3e07b10c, 0x278e01f9, 0x35f3be19, 0xa3e964b3, 0x7db52ab7,
        0x3cd2290e, 0x92007044, 0x8030a982, 0x97378ffa, 0xe50b28f6, 0x1cffad3c,
        0x921e82e1, 0x416703b9, 0xaed2594a, 0x31e914f7, 0x66e6ed93, 0x723ca70c,
        0xf9f485ca, 0x9ccf04be, 0xf189d1fd, 0xefb55af3, 0x9f3b4dbd, 0xa3f79616,
        0x231ef8e3, 0x8bc822c6, 0x653b8174, 0xfa29e92d, 0x9279501d, 0x708e174e,
        0x3cccdbab, 0x527e47eb, 0xd6bd2857, 0xeef3a3b2, 0x9f126859, 0xd93711ce,
        0x542f89c8, 0x4c42cce5, 0x6eb29c40, 0xc00717f6, 0x422c4f05, 0x71e1cbeb,
        0x46257997, 0x0f8a3999, 0x7919076b, 0x22f050a5, 0xaeb58bb6, 0x94289e3e,
        0x6d8532a0, 0x37c4b27c, 0x49af400e, 0x4da6769c, 0x7fa24799, 0x8c45db13,
        0x3a9d1588, 0xed319955, 0x265beda9, 0xc1d77cff, 0xb7decc0c, 0x5d96cf7f,
    ]);
}

#[test]
fn aes_key_schedule_reads_only_the_key_size() {
    let key = [
        0x3b4a3ee2, 0xb37523a5, 0xad915a36, 0x4de45321, 0xe6ba3ad7, 0x9823beb1,
        0x1fcfb980, 0xdd4eabbd,
    ];
    assert_eq!(getKeySchedule(4, &key).unwrap(), getKeySchedule(4, &key[..4]).unwrap());
    assert_eq!(getKeySchedule(4, &key).unwrap()[43], 0xc23e4a79);
}

#[test]
fn aes128_cbc_three_blocks() {
    let key = [0x0cc8af11, 0x683447c1, 0x5bae2d26, 0xbfb637dd];
    let iv = [0x4ca87fc2, 0xaed09b82, 0x9a0b2361, 0x158d003d];
    let ks = getKeySchedule(4, &key).unwrap();
    let inv = getInvKeySchedule(4, &key).unwrap();
    let plain = vec![
        0x2e825ce1, 0x1ff13534, 0x07f0cbd4, 0x33f5f288, 0x53a2f2b6, 0x00d9f4ad,
        0x3c234038, 0x4cc34636, 0x4d14cf1a, 0xd330a549, 0x6a423cf9, 0x668dc8f4,
        0x35c9a8c4, 0xd1784030,
    ];
    let mut data = plain.clone();
    let chain = doEncrypt("cbc", 10, 12, 4, &iv, &mut data, &ks);
    assert_eq!(data, vec![
        0xd485c5c9, 0x589bf300, 0xa52d7343, 0xdd3e818d, 0xcdf9fab2, 0x661623d4,
        0x3aa01e4e, 0x7929ed94, 0xb7551171, 0x905bba26, 0x420f6b64, 0x7f205f83,
        0x35c9a8c4, 0xd1784030,
    ]);
    assert_eq!(chain, Ok(vec![0xb7551171, 0x905bba26, 0x420f6b64, 0x7f205f83]));
    let back = doDecrypt("CBC", 10, 12, 4, &iv, &mut data, &ks, &inv);
    assert_eq!(data, plain);
    assert_eq!(back, chain);
}

#[test]
fn aes192_cbc_three_blocks() {
    let key = [0xf94855d0, 0x765890e0, 0x9f2e9ea4, 0xaf5d8bb0, 0xbaecde5b, 0xa9dfdec6];
    let iv = [0x5fd8e665, 0x699f071a, 0xef7d9967, 0xf82d5644];
    let ks = getKeySchedule(6, &key).unwrap();
    let inv = getInvKeySchedule(6, &key).unwrap();
    let plain = vec![
        0xd6fad8db, 0xfdfb462f, 0x3f20134c, 0xdb18bd76, 0xb5fa5b0c, 0x0e46c215,
        0xf1f0742a, 0xbf416c30, 0x9248b974, 0x422acab5, 0x5ed08d6b, 0x476354b6,
        0x6088155f, 0x3a7cfb36,
    ];
    let mut data = plain.clone();
    let chain = doEncrypt("cbc", 12, 12, 4, &iv, &mut data, &ks);
    assert_eq!(data, vec![
        0x8ebf658a, 0x4ebdd96a, 0x2d5100a6, 0x41f3cc0e, 0x472a1cec, 0x2525514f,
        0x06a4fe73, 0xadd04952, 0x75436837, 0x7c5d332f, 0x77dd92e8, 0x15f0b7e1,
        0x6088155f, 0x3a7cfb36,
    ]);
    assert_eq!(chain, Ok(vec![0x75436837, 0x7c5d332f, 0x77dd92e8, 0x15f0b7e1]));
    let back = doDecrypt("CBC", 12, 12, 4, &iv, &mut data, &ks, &inv);
    assert_eq!(data, plain);
    assert_eq!(back, chain);
}

#[test]
fn aes256_cbc_three_blocks() {
    let key = [
        0xd57dcafd, 0x37c990fa, 0x88c279d9, 0x26ad41ef, 0xef65ed78, 0x6dbb8cb8,
        0xafbec9a6, 0x0e0bc896,
    ];
    let iv = [0xd1764460, 0xdd63d2a5, 0xaa72870b, 0xda0aea0e];
    let ks = getKeySchedule(8, &key).unwrap();
    let inv = getInvKeySchedule(8, &key).unwrap();
    let plain = vec![
        0x604af42a, 0x07bda21c, 0x5438a5b5, 0xd1773781, 0xf585675f, 0xeee45145,
        0xb2e73ae0, 0x84d0c3f0, 0x67fd4c1e, 0x5c80f9be, 0x18677db7, 0xaa5bf365,
        0x6a42ed19, 0xea394aba,
    ];
    let mut data = plain.clone();
    let chain = doEncrypt("cbc", 14, 12, 4, &iv, &mut data, &ks);
    assert_eq!(data, vec![
        0xfd58b41c, 0x31e3ee01, 0x9bcf541a, 0x41a5df44, 0x2f30c6e3, 0x30ec8e0f,
        0x619b31ac, 0x8f22c3d5, 0x49a35c74, 0x71d46fde, 0x546328ce, 0x149f3a80,
        0x6a42ed19, 0xea394aba,
    ]);
    assert_eq!(chain, Ok(vec![0x49a35c74, 0x71d46fde, 0x546328ce, 0x149f3a80]));
    let back = doDecrypt("CBC", 14, 12, 4, &iv, &mut data, &ks, &inv);
    assert_eq!(data, plain);
    assert_eq!(back, chain);
}

#[test]
fn aes128_cfb_three_blocks() {
    let key = [0xb78eda4f, 0x70faf36f, 0x54c6c4b3, 0xca1ab215];
    let iv = [0xe1030fe1, 0x0f4bf777, 0x1dd257d5, 0x908a3e29];
    let ks = getKeySchedule(4, &key).unwrap();
    let inv = getInvKeySchedule(4, &key).unwrap();
    let plain = vec![
        0x9a72180d, 0x2e012631, 0xaf1ac6da, 0xfed5ce26, 0x0ff191f0, 0xcc31d7b9,
        0xa91b4e9d, 0xf768f221, 0xab8474cc, 0x4a66b263, 0xb6b81ec6, 0xc689c846,
        0xb9f7f89e, 0x535f2002,
    ];
    let mut data = plain.clone();
    let chain = doEncrypt("cfb", 10, 12, 4, &iv, &mut data, &ks);
    assert_eq!(data, vec![
        0xabaa63bb, 0xdb4477ac, 0xf91f1e32, 0x4a798cc4, 0xe3dd3342, 0xde559f99,
        0x3effcaca, 0x7c7f14d1, 0x9e98c10d, 0xa4fe008e, 0x87ce294f, 0x379b3e47,
        0xb9f7f89e, 0x535f2002,
    ]);
    assert_eq!(chain, Ok(vec![0x9e98c10d, 0xa4fe008e, 0x87ce294f, 0x379b3e47]));
    let back = doDecrypt("CFB", 10, 12, 4, &iv, &mut data, &ks, &inv);
    assert_eq!(data, plain);
    assert_eq!(back, chain);
}

#[test]
fn aes192_cfb_three_blocks() {
    let key = [0xb3c7b88e, 0x355cca5d, 0xf9a21be1, 0x857ce06b, 0xe98c5884, 0x02c89680];
    let iv = [0x559d7e79, 0xd6442260, 0x8ac03649, 0x0473b824];
    let ks = getKeySchedule(6, &key).unwrap();
    let inv = getInvKeySchedule(6, &key).unwrap();
    let plain = vec![
        0xf339a684, 0x3cc89b41, 0x3f91ed95, 0xd68c2005, 0x5c00d3d2, 0x5f4e4581,
        0xc599fac7, 0x86f4f14c, 0xb9ea43d4, 0xd2e06b36, 0x6d09cf94, 0xb2a57e60,
        0x0bab1534, 0x8d1eac03,
    ];
    let mut data = plain.clone();
    let chain = doEncrypt("cfb", 12, 12, 4, &iv, &mut data, &ks);
    assert_eq!(data, vec![
        0x7c33b266, 0xfdda0d66, 0x58037d39, 0xee4e80e3, 0x117cc344, 0x3c4d787a,
        0x48ad0a10, 0x7ee2673f, 0x98a17902, 0xa20a53a4, 0x0fcbfd77, 0xabbdd8f7,
        0x0bab1534, 0x8d1eac03,
    ]);
    assert_eq!(chain, Ok(vec![0x98a17902, 0xa20a53a4, 0x0fcbfd77, 0xabbdd8f7]));
    let back = doDecrypt("CFB", 12, 12, 4, &iv, &mut data, &ks, &inv);
    assert_eq!(data, plain);
    assert_eq!(back, chain);
}

#[test]
fn aes256_cfb_three_blocks() {
    let key = [
        0xc444a62e, 0x25609be3, 0xea70df2d, 0xed20eb98, 0xe4114d10, 0x133945ba,
        0xbe38fcbb, 0x40ba6f09,
    ];
    let iv = [0xdeef4351, 0xd31f0231, 0xc56309d2, 0xc8fd442e];
    let ks = getKeySchedule(8, &key).unwrap();
    let inv = getInvKeySchedule(8, &key).unwrap();
    let plain = vec![
        0x43432c6b, 0x0286ecec, 0x9fd583eb, 0xbbb458d3, 0x742de49b, 0x43e94334,
        0x9f374cd6, 0xf6bd8eca, 0x9e6024cd, 0x2293d03e, 0x162d85c6, 0x3d0d125a,
        0xdbda118b, 0xf2e25394,
    ];
    let mut data = plain.clone();
    let chain = doEncrypt("cfb", 14, 12, 4, &iv, &mut data, &ks);
    assert_eq!(data, vec![
        0x0b2c7ea5, 0x87d9f8fa, 0x406e8422, 0xb21d6751, 0x0cd0d458, 0xff38f3c4,
        0x7303b004, 0x86a045ae, 0x83ea9a60, 0xf971c78d, 0x59b95ee8, 0x52e1e0d3,
        0xdbda118b, 0xf2e25394,
    ]);
    assert_eq!(chain, Ok(vec![0x83ea9a60, 0xf971c78d, 0x59b95ee8, 0x52e1e0d3]));
    let back = doDecrypt("CFB", 14, 12, 4, &iv, &mut data, &ks, &inv);
    assert_eq!(data, plain);
    assert_eq!(back, chain);
}

#[test]
fn aes128_ofb_three_blocks() {
    let key = [0x507a4f34, 0x59227301, 0x705bdd12, 0x77a22873];
    let iv = [0x603c1616, 0x0c67a2cb, 0x13f8bb73, 0x498e0b0d];
    let ks = getKeySchedule(4, &key).unwrap();
    let inv = getInvKeySchedule(4, &key).unwrap();
    let plain = vec![
        0x38ccde1e, 0x2875a2d0, 0x7e3b9a59, 0xe6160abb, 0xfb7eca2f, 0x9d411e83,
        0xb110d30a, 0x6965c425, 0x2f862cec, 0x2f2a4442, 0x48f8f164, 0x9f61d62f,
        0x0ecb476f, 0xbdef9f4b,
    ];
    let mut data = plain.clone();
    let chain = doEncrypt("ofb", 10, 12, 4, &iv, &mut data, &ks);
    assert_eq!(data, vec![
        0x84813d7e, 0xb6ad8304, 0x0d418a0e, 0xbf9cfb7c, 0x9d3af93e, 0x7b50d961,
        0x00f79a37, 0xa3a1a10b, 0x687b4ca7, 0x84ac0dce, 0x2b291a5c, 0x53ec2169,
        0x0ecb476f, 0xbdef9f4b,
    ]);
    assert_eq!(chain, Ok(vec![0x47fd604b, 0xab86498c, 0x63d1eb38, 0xcc8df746]));
    let back = doDecrypt("OFB", 10, 12, 4, &iv, &mut data, &ks, &inv);
    assert_eq!(data, plain);
    assert_eq!(back, chain);
}

#[test]
fn aes192_ofb_three_blocks() {
    let key = [0xe220532f, 0xd2e83592, 0x8e18a60e, 0xe655f6aa, 0xf69ceaf6, 0xf4116bb4];
    let iv = [0x0d2671ef, 0xb49fe4dd, 0x7202aed9, 0xcca24337];
    let ks = getKeySchedule(6, &key).unwrap();
    let inv = getInvKeySchedule(6, &key).unwrap();
    let plain = vec![
        0xc1e6c246, 0xcde055b6, 0xcaf735c5, 0x55ed4a06, 0xac7a0c5d, 0xb1b0b480,
        0xcf737131, 0x12400dfa, 0x600fb75e, 0x5f17603f, 0xe3cfe64c, 0x6a2a4fac,
        0x190afbe8, 0xf1ab87be,
    ];
    let mut data = plain.clone();
    let chain = doEncrypt("ofb", 12, 12, 4, &iv, &mut data, &ks);
    assert_eq!(data, vec![
        0x90f61269, 0x5ada6820, 0xf91994d6, 0x9a88a750, 0xd2f999ad, 0x0b6d6842,
        0x51e3a5a3, 0x014c24f6, 0xe819a739, 0x582aa2dd, 0xd1866137, 0xa7fa9c4b,
        0x190afbe8, 0xf1ab87be,
    ]);
    assert_eq!(chain, Ok(vec![0x88161067, 0x073dc2e2, 0x3249877b, 0xcdd0d3e7]));
    let back = doDecrypt("OFB", 12, 12, 4, &iv, &mut data, &ks, &inv);
    assert_eq!(data, plain);
    assert_eq!(back, chain);
}

#[test]
fn aes256_ofb_three_blocks() {
    let key = [
        0xb216749a, 0x49a7a58c, 0x00ae623f, 0x5c6cf0c2, 0xb59ecf10, 0x3173f9f7,
        0x2ac954c3, 0x37848b77,
    ];
    let iv = [0x52a69ac0, 0x25c8e409, 0xead5c02a, 0xe345c182];
    let ks = getKeySchedule(8, &key).unwrap();
    let inv = getInvKeySchedule(8, &key).unwrap();
    let plain = vec![
        0x683d063f, 0xc55cd6e0, 0xe8cbb19d, 0xbea75def, 0x98dc6d62, 0xdad51d4e,
        0x131d9da7, 0x58c0d341, 0x987474ab, 0x517f1efe, 0x6ceebb95, 0xcad8f6bd,
        0xe82ce7ff, 0x46978deb,
    ];
    let mut data = plain.clone();
    let chain = doEncrypt("ofb", 14, 12, 4, &iv, &mut data, &ks);
    assert_eq!(data, vec![
        0x51948339, 0xe8940e75, 0x84effd2d, 0xaea6f033, 0x5cb40bf3, 0xdae723d6,
        0x949bd307, 0xa5272836, 0x4e41caba, 0xf7dc9840, 0xc54538ec, 0x54b221e6,
        0xe82ce7ff, 0x46978deb,
    ]);
    assert_eq!(chain, Ok(vec![0xd635be11, 0xa6a386be, 0xa9ab8379, 0x9e6ad75b]));
    let back = doDecrypt("OFB", 14, 12, 4, &iv, &mut data, &ks, &inv);
    assert_eq!(data, plain);
    assert_eq!(back, chain);
}

#[test]
fn aes128_ctr_three_blocks() {
    let key = [0x1454929e, 0x9f3c5548, 0xfecdeeb7, 0x0a8e9f78];
    let iv = [0x69e00599, 0x92a74c31, 0x798bf36c, 0x8a356a49];
    let ks = getKeySchedule(4, &key).unwrap();
    let inv = getInvKeySchedule(4, &key).unwrap();
    let plain = vec![
        0xa377cf5a, 0xb849a411, 0x4c7497b8, 0x4c7dae9d, 0xc900bbc0, 0x3ecce515,
        0x6a435a0e, 0xb44ac655, 0x8ae407f6, 0x2996b98c, 0xd92a2829, 0xec073ffe,
        0x16c60a7f, 0xe19cfa08,
    ];
    let mut data = plain.clone();
    let chain = doEncrypt("ctr", 10, 12, 4, &iv, &mut data, &ks);
    assert_eq!(data, vec![
        0x8cb09949, 0x65f4b254, 0x44d6e870, 0xfbeb51a4, 0x0f50601b, 0xbe284146,
        0x4e919d54, 0xc5d73382, 0x82d9abf5, 0x13ae3850, 0x462d4b64, 0x1f2665f8,
        0x16c60a7f, 0xe19cfa08,
    ]);
    assert_eq!(chain, Ok(vec![0x69e00599, 0x92a74c31, 0x798bf36c, 0x8a356a4c]));
    let back = doDecrypt("CTR", 10, 12, 4, &iv, &mut data, &ks, &inv);
    assert_eq!(data, plain);
    assert_eq!(back, chain);
}

#[test]
fn aes192_ctr_three_blocks() {
    let key = [0x4dccef77, 0xde83bc13, 0x4dbf539f, 0x83ab0c1e, 0x38c91278, 0x2c5747ba];
    let iv = [0xba52fff4, 0x6f7fa45f, 0x621477ba, 0x5f20c770];
    let ks = getKeySchedule(6, &key).unwrap();
    let inv = getInvKeySchedule(6, &key).unwrap();
    let plain = vec![
        0xaf6f5ad0, 0x31643087, 0xc67977f5, 0xffaf06a5, 0x6c738235, 0xcaf9a1f4,
        0xaa68268c, 0xd33cc8de, 0x765b1f48, 0xbe6f3d77, 0x06adf2a1, 0x3f108ac5,
        0x01f752bc, 0x1b227b51,
    ];
    let mut data = plain.clone();
    let chain = doEncrypt("ctr", 12, 12, 4, &iv, &mut data, &ks);
    assert_eq!(data, vec![
        0xdbd11667, 0xc16b6769, 0x6d115f70, 0xf7febb6f, 0xa672fb11, 0xc2f87ab2,
        0x882b298e, 0xff1beae8, 0x84b504f8, 0x904eeed8, 0x4448517f, 0x4227fa6e,
        0x01f752bc, 0x1b227b51,
    ]);
    assert_eq!(chain, Ok(vec![0xba52fff4, 0x6f7fa45f, 0x621477ba, 0x5f20c773]));
    let back = doDecrypt("CTR", 12, 12, 4, &iv, &mut data, &ks, &inv);
    assert_eq!(data, plain);
    assert_eq!(back, chain);
}

#[test]
fn aes256_ctr_three_blocks() {
    let key = [
        0xd6ebf52a, 0xfa69b704, 0x5d0a2a43, 0xc961c211, 0x924cfa31, 0x224f4790,
        0x50e2e001, 0x998b61a2,
    ];
    let iv = [0x5810acfc, 0xee8bfa0c, 0xb7fd3194, 0x3cc17d11];
    let ks = getKeySchedule(8, &key).unwrap();
    let inv = getInvKeySchedule(8, &key).unwrap();
    let plain = vec![
        0x86e6994b, 0x743c8bf4, 0xf009528b, 0x6d33cb78, 0x86cf6aba, 0x05a7a94b,
        0x9faa7001, 0x0fbc218a, 0xcf94926d, 0xb81bdf65, 0xd0b884f1, 0x9dd397a8,
        0xc88007a0, 0x8c43766a,
    ];
    let mut data = plain.clone();
    let chain = doEncrypt("ctr", 14, 12, 4, &iv, &mut data, &ks);
    assert_eq!(data, vec![
        0x09d66714, 0x4d876ca2, 0xf832db0e, 0xdf406e3e, 0x7ae4677f, 0xc08d4c20,
        0x95674400, 0x1279feca, 0x4d364696, 0xd5690164, 0x7e8f93bc, 0x19f303d7,
        0xc88007a0, 0x8c43766a,
    ]);
    assert_eq!(chain, Ok(vec![0x5810acfc, 0xee8bfa0c, 0xb7fd3194, 0x3cc17d14]));
    let back = doDecrypt("CTR", 14, 12, 4, &iv, &mut data, &ks, &inv);
    assert_eq!(data, plain);
    assert_eq!(back, chain);
}

#[test]
fn aes_engine_serves_many_calls() {
    let engine = AesTables::new();
    let key = [0xdb153e2b, 0x1b86236b, 0x70701936, 0x2f5ddb2d];
    let iv = [0x9c8bea5a, 0x070b9848, 0x0803b5b6, 0xed646318];
    let ks = getKeySchedule(4, &key).unwrap();
    let inv = getInvKeySchedule(4, &key).unwrap();
    let plain = vec![
        0x851be906, 0x477bbd87, 0x0dd7b1fe, 0xd39cea09, 0x6b748647, 0xa7ac1276,
        0x48c8b756, 0x33a07f4e,
    ];
    let mut data = plain.clone();
    let chain = engine.encrypt(Mode::Cbc, 10, 8, 4, &iv, &mut data, &ks);
    assert_eq!(data, vec![
        0xddbd9716, 0xc9d07cd3, 0x1b198c4c, 0x296235d0, 0x16081f3e, 0xc87cb98b,
        0xbfa9cddb, 0x2382c31a,
    ]);
    assert_eq!(chain, Ok(vec![0x16081f3e, 0xc87cb98b, 0xbfa9cddb, 0x2382c31a]));
    let back = engine.decrypt(Mode::Cbc, 10, 8, 4, &iv, &mut data, &ks, &inv);
    assert_eq!(data, plain);
    assert_eq!(back, chain);
}

#[test]
fn aes_rejects_a_key_of_five_words() {
    assert_eq!(getKeySchedule(5, &[0; 8]), Err(CipherError::InvalidKeySize));
    assert_eq!(getKeySchedule(0, &[0; 8]), Err(CipherError::InvalidKeySize));
    assert_eq!(getInvKeySchedule(7, &[0; 8]), Err(CipherError::InvalidKeySize));
}

#[test]
fn aes_rejects_a_key_that_is_not_all_there() {
    assert_eq!(getKeySchedule(6, &[0; 4]), Err(CipherError::OutOfBounds));
    assert_eq!(getInvKeySchedule(8, &[0; 7]), Err(CipherError::OutOfBounds));
}

#[test]
fn aes_rejects_an_unknown_mode() {
    let ks = getKeySchedule(4, &[0; 4]).unwrap();
    let mut data = vec![1u32, 2, 3, 4];
    assert_eq!(
        doEncrypt("gcm", 10, 4, 4, &[0; 4], &mut data, &ks),
        Err(CipherError::UnsupportedMode),
    );
    assert_eq!(doEncrypt("", 10, 4, 4, &[0; 4], &mut data, &ks), Err(CipherError::UnsupportedMode));
    assert_eq!(
        doDecrypt("cbcc", 10, 4, 4, &[0; 4], &mut data, &ks, &ks),
        Err(CipherError::UnsupportedMode),
    );
    assert_eq!(data, vec![1u32, 2, 3, 4]);
}

#[test]
fn aes_rejects_a_number_of_rounds_that_no_key_size_gives() {
    let ks = getKeySchedule(8, &[0; 8]).unwrap();
    let mut data = vec![1u32, 2, 3, 4];
    assert_eq!(doEncrypt("ecb", 11, 4, 4, &[], &mut data, &ks), Err(CipherError::InvalidKeySize));
    assert_eq!(doEncrypt("ecb", 0, 4, 4, &[], &mut data, &ks), Err(CipherError::InvalidKeySize));
    assert_eq!(
        doDecrypt("ecb", 16, 4, 4, &[], &mut data, &ks, &ks),
        Err(CipherError::InvalidKeySize),
    );
    assert_eq!(data, vec![1u32, 2, 3, 4]);
}

#[test]
fn aes_rejects_a_schedule_that_is_too_short() {
    let ks = getKeySchedule(4, &[0; 4]).unwrap();
    let mut data = vec![1u32, 2, 3, 4];
    assert_eq!(doEncrypt("ecb", 12, 4, 4, &[], &mut data, &ks), Err(CipherError::OutOfBounds));
    let inv = getInvKeySchedule(4, &[0; 4]).unwrap();
    for mode in ["cfb", "ofb", "ctr"] {
        assert_eq!(
            doDecrypt(mode, 10, 4, 4, &[0; 4], &mut data, &ks[..43], &inv),
            Err(CipherError::OutOfBounds),
        );
        assert_eq!(
            doDecrypt(mode, 10, 4, 4, &[0; 4], &mut data, &[], &inv),
            Err(CipherError::OutOfBounds),
        );
    }
    for mode in ["ecb", "cbc"] {
        assert_eq!(
            doDecrypt(mode, 10, 4, 4, &[0; 4], &mut data, &ks, &inv[..43]),
            Err(CipherError::OutOfBounds),
        );
        assert_eq!(
            doDecrypt(mode, 10, 4, 4, &[0; 4], &mut data, &ks, &[]),
            Err(CipherError::OutOfBounds),
        );
    }
    assert_eq!(data, vec![1u32, 2, 3, 4]);
}

#[test]
fn aes_decryption_asks_only_for_the_schedule_that_the_mode_reads() {
    let engine = AesTables::new();
    let key = [0x2b7e1516u32, 0x28aed2a6, 0xabf71588, 0x09cf4f3c];
    let ks = getKeySchedule(4, &key).unwrap();
    let inv = getInvKeySchedule(4, &key).unwrap();
    let iv = [0x00010203u32, 0x04050607, 0x08090a0b, 0x0c0d0e0f];
    let plain = vec![0x6bc1bee2u32, 0x2e409f96, 0xe93d7e11, 0x7393172a, 1, 2, 3, 4];
    // CFB, OFB and CTR run the cipher itself: the schedule for decryption
    // may be short, empty or another key's.
    for mode in ["cfb", "ofb", "ctr"] {
        let mut sealed = plain.clone();
        let chain = doEncrypt(mode, 10, 8, 4, &iv, &mut sealed, &ks);
        for other in [&inv[..], &inv[..43], &[][..], &ks[..]] {
            let mut data = sealed.clone();
            assert_eq!(doDecrypt(mode, 10, 8, 4, &iv, &mut data, &ks, other), chain);
            assert_eq!(data, plain);
        }
    }
    // ECB and CBC run the inverse cipher: the expanded key is not read.
    for mode in ["ecb", "cbc"] {
        let mut sealed = plain.clone();
        let chain = doEncrypt(mode, 10, 8, 4, &iv, &mut sealed, &ks);
        for other in [&ks[..], &ks[..40], &[][..], &inv[..]] {
            let mut data = sealed.clone();
            assert_eq!(doDecrypt(mode, 10, 8, 4, &iv, &mut data, other, &inv), chain);
            assert_eq!(data, plain);
        }
    }
    let mut sealed = plain.clone();
    let chain = engine.encrypt(Mode::Cfb, 10, 8, 4, &iv, &mut sealed, &ks);
    assert_eq!(engine.decrypt(Mode::Cfb, 10, 8, 4, &iv, &mut sealed, &ks, &[]), chain);
    assert_eq!(sealed, plain);
    let chain = engine.encrypt(Mode::Cbc, 10, 8, 4, &iv, &mut sealed, &ks);
    assert_eq!(engine.decrypt(Mode::Cbc, 10, 8, 4, &iv, &mut sealed, &[], &inv), chain);
    assert_eq!(sealed, plain);
}

#[test]
fn aes128_cbc_and_cfb_standard_examples() {
    let key = [0x2b7e1516u32, 0x28aed2a6, 0xabf71588, 0x09cf4f3c];
    let ks = getKeySchedule(4, &key).unwrap();
    let inv = getInvKeySchedule(4, &key).unwrap();
    let iv = [0x00010203u32, 0x04050607, 0x08090a0b, 0x0c0d0e0f];
    let plain = vec![0x6bc1bee2u32, 0x2e409f96, 0xe93d7e11, 0x7393172a];
    let mut data = plain.clone();
    let chain = doEncrypt("cbc", 10, 4, 4, &iv, &mut data, &ks);
    assert_eq!(data, vec![0x7649abac, 0x8119b246, 0xcee98e9b, 0x12e9197d]);
    assert_eq!(chain, Ok(vec![0x7649abac, 0x8119b246, 0xcee98e9b, 0x12e9197d]));
    // What comes back from decryption is the last block of ciphertext, not
    // the plaintext that has taken its place.
    assert_eq!(doDecrypt("cbc", 10, 4, 4, &iv, &mut data, &[], &inv), chain);
    assert_eq!(data, plain);
    let chain = doEncrypt("cfb", 10, 4, 4, &iv, &mut data, &ks);
    assert_eq!(data, vec![0x3b3fd92e, 0xb72dad20, 0x333449f8, 0xe83cfb4a]);
    assert_eq!(doDecrypt("cfb", 10, 4, 4, &iv, &mut data, &ks, &[]), chain);
    assert_eq!(data, plain);
}

#[test]
fn aes_rejects_misaligned_input() {
    let ks = getKeySchedule(4, &[0; 4]).unwrap();
    let mut data = vec![1u32, 2, 3, 4, 5, 6, 7, 8];
    assert_eq!(
        doEncrypt("cbc", 10, 6, 4, &[0; 4], &mut data, &ks),
        Err(CipherError::MisalignedInput),
    );
    assert_eq!(
        doEncrypt("cbc", 10, 8, 2, &[0; 4], &mut data, &ks),
        Err(CipherError::MisalignedInput),
    );
    assert_eq!(
        doEncrypt("cbc", 10, 8, 8, &[0; 8], &mut data, &ks),
        Err(CipherError::MisalignedInput),
    );
    assert_eq!(
        doEncrypt("cbc", 10, 8, 0, &[0; 4], &mut data, &ks),
        Err(CipherError::MisalignedInput),
    );
    assert_eq!(data, vec![1u32, 2, 3, 4, 5, 6, 7, 8]);
}

#[test]
fn aes_rejects_words_that_are_not_there() {
    let ks = getKeySchedule(4, &[0; 4]).unwrap();
    let mut data = vec![1u32, 2, 3, 4];
    assert_eq!(doEncrypt("cbc", 10, 8, 4, &[0; 4], &mut data, &ks), Err(CipherError::OutOfBounds));
    assert_eq!(doEncrypt("cbc", 10, 4, 4, &[0; 3], &mut data, &ks), Err(CipherError::OutOfBounds));
    assert_eq!(doDecrypt("ofb", 10, 4, 4, &[], &mut data, &ks, &ks), Err(CipherError::OutOfBounds));
    assert_eq!(data, vec![1u32, 2, 3, 4]);
}

#[test]
fn aes_ecb_does_not_read_the_iv() {
    let ks = getKeySchedule(4, &[0; 4]).unwrap();
    let mut data = vec![0u32; 4];
    assert_eq!(doEncrypt("ecb", 10, 4, 4, &[7], &mut data, &ks), Ok(vec![]));
    assert_eq!(data, vec![0x66e94bd4, 0xef8a2c3b, 0x884cfa59, 0xca342b2e]);
}

#[test]
fn aes_leaves_the_words_behind_the_ready_ones_alone() {
    let ks = getKeySchedule(4, &[0; 4]).unwrap();
    let mut data = vec![0u32, 0, 0, 0, 5, 6, 7, 8, 9];
    assert_eq!(doEncrypt("ecb", 10, 4, 4, &[], &mut data, &ks), Ok(vec![]));
    assert_eq!(data, vec![0x66e94bd4, 0xef8a2c3b, 0x884cfa59, 0xca342b2e, 5, 6, 7, 8, 9]);
}
