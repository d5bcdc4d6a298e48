//! Helpers on sequences of 32-bit words, and the few bit-level facts that the
//! proofs about the ciphers share.
use vstd::prelude::*;

verus! {

/// Word-by-word exclusive or; the result is as long as `a`.
pub open spec fn xor_words(a: Seq<u32>, b: Seq<u32>) -> Seq<u32> {
    Seq::new(a.len(), |i: int| a[i] ^ b[i])
}

/// `x + 1` in 32-bit arithmetic that wraps around.
pub open spec fn wrapping_inc(x: u32) -> u32 {
    if x == u32::MAX {
        0
    } else {
        (x + 1) as u32
    }
}

/// `x + n` in 32-bit arithmetic that wraps around.
pub open spec fn wrapping_plus(x: u32, n: nat) -> u32 {
    ((x as nat + n) % 0x1_0000_0000) as u32
}

/// `a + b` in 32-bit arithmetic that wraps around.
pub open spec fn wrapping_sum(a: u32, b: u32) -> u32 {
    if a + b > u32::MAX {
        (a + b - 0x1_0000_0000) as u32
    } else {
        (a + b) as u32
    }
}

/// The most significant byte of a word.
pub open spec fn byte0(w: u32) -> u8 {
    (w >> 24) as u8
}

/// The second byte of a word, counted from the most significant.
pub open spec fn byte1(w: u32) -> u8 {
    ((w >> 16) & 0xff) as u8
}

/// The third byte of a word, counted from the most significant.
pub open spec fn byte2(w: u32) -> u8 {
    ((w >> 8) & 0xff) as u8
}

/// The least significant byte of a word.
pub open spec fn byte3(w: u32) -> u8 {
    (w & 0xff) as u8
}

/// The word made of four bytes, the most significant first.
pub open spec fn pack(a: u8, b: u8, c: u8, d: u8) -> u32 {
    ((a as u32) << 24) | ((b as u32) << 16) | ((c as u32) << 8) | (d as u32)
}

/// `data` with the words from `start` on replaced by `block`, as far as
/// `block` reaches.
pub open spec fn splice(data: Seq<u32>, start: int, block: Seq<u32>) -> Seq<u32> {
    data.subrange(0, start) + block + data.skip(start + block.len())
}

/// Exclusive or with the same word twice gives the first word back.
pub proof fn lemma_xor_cancel(a: u32, b: u32)
    by (bit_vector)
    ensures
        (a ^ b) ^ b == a,
        b ^ (b ^ a) == a,
        (b ^ a) ^ b == a,
        a ^ b == b ^ a,
{
}

/// Exclusive or may be regrouped, and what is mixed in twice drops out.
pub proof fn lemma_xor_regroup(a: u32, b: u32, c: u32)
    by (bit_vector)
    ensures
        a ^ ((a ^ b) ^ c) == b ^ c,
        (a ^ b) ^ c == a ^ (b ^ c),
        (a ^ c) ^ (b ^ c) == a ^ b,
{
}

/// Applying the same mask twice gives the words back.
pub proof fn lemma_xor_words_cancel(a: Seq<u32>, b: Seq<u32>)
    ensures
        xor_words(xor_words(a, b), b) == a,
{
    assert forall|i: int| 0 <= i < a.len() implies #[trigger] xor_words(xor_words(a, b), b)[i]
        == a[i] by {
        lemma_xor_cancel(a[i], b[i]);
    }
    assert(xor_words(xor_words(a, b), b) =~= a);
}

/// Two maskings of the same words agree only if the masks agree.
pub proof fn lemma_xor_words_injective(a: Seq<u32>, b: Seq<u32>, c: Seq<u32>)
    requires
        b.len() == a.len(),
        c.len() == a.len(),
        xor_words(a, b) == xor_words(a, c),
    ensures
        b == c,
{
    assert forall|i: int| 0 <= i < a.len() implies b[i] == c[i] by {
        let x = a[i];
        let y = b[i];
        let z = c[i];
        assert(xor_words(a, b)[i] == x ^ y);
        assert(xor_words(a, c)[i] == x ^ z);
        assert(x ^ y == x ^ z ==> y == z) by (bit_vector);
    }
    assert(b =~= c);
}

/// Taking a word apart and putting it together again changes nothing,
/// either way round.
pub proof fn lemma_pack_bytes(a: u8, b: u8, c: u8, d: u8, w: u32)
    by (bit_vector)
    ensures
        byte0(pack(a, b, c, d)) == a,
        byte1(pack(a, b, c, d)) == b,
        byte2(pack(a, b, c, d)) == c,
        byte3(pack(a, b, c, d)) == d,
        pack(byte0(w), byte1(w), byte2(w), byte3(w)) == w,
{
}

/// The four bytes of a word, the most significant first.
pub(crate) fn bytes_of(w: u32) -> (b: (u8, u8, u8, u8))
    ensures
        b.0 == byte0(w),
        b.1 == byte1(w),
        b.2 == byte2(w),
        b.3 == byte3(w),
{
    (
        #[verifier::truncate]
        ((w >> 24) as u8),
        #[verifier::truncate]
        (((w >> 16) & 0xff) as u8),
        #[verifier::truncate]
        (((w >> 8) & 0xff) as u8),
        #[verifier::truncate]
        ((w & 0xff) as u8),
    )
}

/// The word made of four bytes, the most significant first.
pub(crate) fn word_of(a: u8, b: u8, c: u8, d: u8) -> (w: u32)
    ensures
        w == pack(a, b, c, d),
{
    ((a as u32) << 24) | ((b as u32) << 16) | ((c as u32) << 8) | (d as u32)
}

/// A copy of `count` words of `src`, from `start` on.
pub(crate) fn copy_words(src: &[u32], start: usize, count: usize) -> (out: Vec<u32>)
    requires
        start + count <= src@.len(),
    ensures
        out@ == src@.subrange(start as int, start + count),
{
    let mut out: Vec<u32> = Vec::new();
    let mut i: usize = 0;
    assert(src@.len() == src.len());
    while i < count
        invariant
            i <= count,
            start + count <= src@.len(),
            src@.len() <= usize::MAX,
            out@ == src@.subrange(start as int, start + i),
        decreases count - i,
    {
        out.push(src[start + i]);
        i += 1;
        assert(out@ =~= src@.subrange(start as int, start + i));
    }
    out
}

/// A copy of `src`.
pub(crate) fn copy_vec(src: &Vec<u32>) -> (out: Vec<u32>)
    ensures
        out@ == src@,
{
    let mut out: Vec<u32> = Vec::new();
    let mut i: usize = 0;
    while i < src.len()
        invariant
            i <= src.len(),
            out@ == src@.take(i as int),
        decreases src.len() - i,
    {
        out.push(src[i]);
        i += 1;
        assert(out@ =~= src@.take(i as int));
    }
    assert(src@.take(src@.len() as int) =~= src@);
    out
}

/// Masks `dst` with `src`, word by word.
pub(crate) fn xor_in_place(dst: &mut Vec<u32>, src: &Vec<u32>)
    requires
        src@.len() >= old(dst)@.len(),
    ensures
        final(dst)@ == xor_words(old(dst)@, src@),
{
    let n: usize = dst.len();
    let mut i: usize = 0;
    while i < n
        invariant
            i <= n,
            n == dst@.len(),
            n == old(dst)@.len(),
            src@.len() >= n,
            forall|j: int| 0 <= j < i ==> dst@[j] == old(dst)@[j] ^ src@[j],
            forall|j: int| i <= j < n ==> dst@[j] == old(dst)@[j],
        decreases n - i,
    {
        dst[i] = dst[i] ^ src[i];
        i += 1;
    }
    assert(dst@ =~= xor_words(old(dst)@, src@));
}

/// Writes `block` over the words of `dst` from `start` on.
pub(crate) fn write_words(dst: &mut [u32], start: usize, block: &Vec<u32>)
    requires
        start + block@.len() <= old(dst)@.len(),
    ensures
        final(dst)@ == splice(old(dst)@, start as int, block@),
{
    let n: usize = block.len();
    let mut i: usize = 0;
    assert(dst@.len() == dst.len());
    while i < n
        invariant
            i <= n,
            n == block@.len(),
            dst@.len() == old(dst)@.len(),
            dst@.len() <= usize::MAX,
            start + n <= dst@.len(),
            forall|j: int| 0 <= j < start ==> dst@[j] == old(dst)@[j],
            forall|j: int| start <= j < start + i ==> dst@[j] == block@[j - start],
            forall|j: int| start + i <= j < dst@.len() ==> dst@[j] == old(dst)@[j],
        decreases n - i,
    {
        dst[start + i] = block[i];
        i += 1;
    }
    assert(dst@ =~= splice(old(dst)@, start as int, block@));
}

} // verus!
