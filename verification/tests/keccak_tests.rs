use cipher_engine::keccak::{getPiIndexes, getRhoOffsets, getRoundConstants, X64Word};

#[test]
fn rho_offsets_are_the_triangular_numbers_along_the_lane_path() {
    let offsets = getRhoOffsets();
    assert_eq!(
        offsets,
        [0, 1, 62, 28, 27, 36, 44, 6, 55, 20, 3, 10, 43, 25, 39, 41, 45, 15, 21, 8, 18, 2, 61, 56, 14],
    );
    let (mut x, mut y) = (1usize, 0usize);
    for t in 0..24u32 {
        assert_eq!(offsets[x + 5 * y], ((t + 1) * (t + 2) / 2) % 64);
        let next = (y, (2 * x + 3 * y) % 5);
        x = next.0;
        y = next.1;
    }
}

#[test]
fn pi_indexes_send_lane_x_y_to_y_2x_plus_3y() {
    let indexes = getPiIndexes();
    assert_eq!(
        indexes,
        [0, 10, 20, 5, 15, 16, 1, 11, 21, 6, 7, 17, 2, 12, 22, 23, 8, 18, 3, 13, 14, 24, 9, 19, 4],
    );
    for x in 0..5u32 {
        for y in 0..5u32 {
            assert_eq!(indexes[(x + 5 * y) as usize], y + 5 * ((2 * x + 3 * y) % 5));
        }
    }
}

#[test]
fn round_constants_come_from_the_shift_register() {
    let constants = getRoundConstants();
    assert_eq!(constants.len(), 24);
    assert_eq!(constants[0], X64Word { high: 0, low: 1 });
    assert_eq!(constants[2], X64Word { high: 0x80000000, low: 0x0000808a });
    assert_eq!(constants[23], X64Word { high: 0x80000000, low: 0x80008008 });
    // Bit 2^j - 1 of round constant i is bit 7i + j of the output of the
    // shift register with feedback polynomial x^8 + x^6 + x^5 + x^4 + 1.
    let mut lfsr: u32 = 1;
    for i in 0..24 {
        let mut value: u64 = 0;
        for j in 0..7 {
            if lfsr & 1 == 1 {
                value |= 1u64 << ((1u32 << j) - 1);
            }
            lfsr = if lfsr & 0x80 != 0 { (lfsr << 1) ^ 0x171 } else { lfsr << 1 };
        }
        assert_eq!(constants[i].high, (value >> 32) as u32);
        assert_eq!(constants[i].low, value as u32);
    }
}
