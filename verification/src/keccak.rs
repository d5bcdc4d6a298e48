//! The constants of the Keccak permutation on 25 lanes of 64 bits, each lane
//! held as two 32-bit halves: the rotation offsets of the rho step, the lane
//! order of the pi step, and the round constants of the iota step.
use vstd::prelude::*;

verus! {

/// A 64-bit word as two 32-bit halves.
#[derive(Clone, Copy, Debug, PartialEq, Eq, Structural)]
pub struct X64Word {
    pub high: u32,
    pub low: u32,
}

/// By how far the rho step rotates lane `x + 5 * y` to the left: the
/// triangular number `(t + 1)(t + 2) / 2` modulo 64 for the `t`-th lane on
/// the path that starts at `(1, 0)` and goes from `(x, y)` to
/// `(y, 2x + 3y)`, and 0 for the lane at the origin.
pub open spec fn rho_offsets() -> Seq<u32> {
    seq![
        0, 1, 62, 28, 27, 36, 44, 6, 55, 20, 3, 10, 43, 25, 39, 41, 45, 15, 21, 8, 18, 2, 61, 56,
        14,
    ]
}

/// Where the pi step puts each lane: lane `x + 5 * y` goes to
/// `y + 5 * ((2x + 3y) mod 5)`.
pub open spec fn pi_index(lane: int) -> int {
    let x = lane % 5;
    let y = lane / 5;
    y + 5 * ((2 * x + 3 * y) % 5)
}

/// The lane order of the pi step, by lane.
pub open spec fn pi_indexes() -> Seq<u32> {
    seq![
        0, 10, 20, 5, 15, 16, 1, 11, 21, 6, 7, 17, 2, 12, 22, 23, 8, 18, 3, 13, 14, 24, 9, 19, 4,
    ]
}

/// The 24 round constants of the iota step: for round `i`, bit `2^j - 1` is
/// bit `7i + j` of the output of the shift register with the feedback
/// polynomial `x^8 + x^6 + x^5 + x^4 + 1`, and all other bits are zero.
pub open spec fn round_constants() -> Seq<X64Word> {
    seq![
        X64Word { high: 0x00000000, low: 0x00000001 },
        X64Word { high: 0x00000000, low: 0x00008082 },
        X64Word { high: 0x80000000, low: 0x0000808a },
        X64Word { high: 0x80000000, low: 0x80008000 },
        X64Word { high: 0x00000000, low: 0x0000808b },
        X64Word { high: 0x00000000, low: 0x80000001 },
        X64Word { high: 0x80000000, low: 0x80008081 },
        X64Word { high: 0x80000000, low: 0x00008009 },
        X64Word { high: 0x00000000, low: 0x0000008a },
        X64Word { high: 0x00000000, low: 0x00000088 },
        X64Word { high: 0x00000000, low: 0x80008009 },
        X64Word { high: 0x00000000, low: 0x8000000a },
        X64Word { high: 0x00000000, low: 0x8000808b },
        X64Word { high: 0x80000000, low: 0x0000008b },
        X64Word { high: 0x80000000, low: 0x00008089 },
        X64Word { high: 0x80000000, low: 0x00008003 },
        X64Word { high: 0x80000000, low: 0x00008002 },
        X64Word { high: 0x80000000, low: 0x00000080 },
        X64Word { high: 0x00000000, low: 0x0000800a },
        X64Word { high: 0x80000000, low: 0x8000000a },
        X64Word { high: 0x80000000, low: 0x80008081 },
        X64Word { high: 0x80000000, low: 0x00008080 },
        X64Word { high: 0x00000000, low: 0x80000001 },
        X64Word { high: 0x80000000, low: 0x80008008 },
    ]
}

/// The rotation offsets of the rho step, by lane.
pub fn getRhoOffsets() -> (offsets: [u32; 25])
    ensures
        offsets@ == rho_offsets(),
        forall|i: int| 0 <= i < 25 ==> offsets@[i] < 64,
{
    let offsets: [u32; 25] = [
        0, 1, 62, 28, 27, 36, 44, 6, 55, 20, 3, 10, 43, 25, 39, 41, 45, 15, 21, 8, 18, 2, 61, 56,
        14,
    ];
    assert(offsets@ =~= rho_offsets());
    offsets
}

/// The lane order of the pi step: entry `i` is the place that lane `i` goes
/// to.
pub fn getPiIndexes() -> (indexes: [u32; 25])
    ensures
        indexes@ == pi_indexes(),
        forall|i: int| 0 <= i < 25 ==> #[trigger] indexes@[i] == pi_index(i),
{
    let indexes: [u32; 25] = [
        0, 10, 20, 5, 15, 16, 1, 11, 21, 6, 7, 17, 2, 12, 22, 23, 8, 18, 3, 13, 14, 24, 9, 19, 4,
    ];
    assert(indexes@ =~= pi_indexes());
    indexes
}

/// The round constants of the iota step.
pub fn getRoundConstants() -> (constants: [X64Word; 24])
    ensures
        constants@ == round_constants(),
{
    let constants: [X64Word; 24] = [
        X64Word { high: 0, low: 1 },
        X64Word { high: 0, low: 32898 },
        X64Word { high: 2147483648, low: 32906 },
        X64Word { high: 2147483648, low: 2147516416 },
        X64Word { high: 0, low: 32907 },
        X64Word { high: 0, low: 2147483649 },
        X64Word { high: 2147483648, low: 2147516545 },
        X64Word { high: 2147483648, low: 32777 },
        X64Word { high: 0, low: 138 },
        X64Word { high: 0, low: 136 },
        X64Word { high: 0, low: 2147516425 },
        X64Word { high: 0, low: 2147483658 },
        X64Word { high: 0, low: 2147516555 },
        X64Word { high: 2147483648, low: 139 },
        X64Word { high: 2147483648, low: 32905 },
        X64Word { high: 2147483648, low: 32771 },
        X64Word { high: 2147483648, low: 32770 },
        X64Word { high: 2147483648, low: 128 },
        X64Word { high: 0, low: 32778 },
        X64Word { high: 2147483648, low: 2147483658 },
        X64Word { high: 2147483648, low: 2147516545 },
        X64Word { high: 2147483648, low: 32896 },
        X64Word { high: 0, low: 2147483649 },
        X64Word { high: 2147483648, low: 2147516424 },
    ];
    assert(constants@ =~= round_constants());
    constants
}

} // verus!
