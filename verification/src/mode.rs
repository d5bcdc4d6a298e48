//! The chaining modes: a state machine, shared by all ciphers, that walks the
//! ready blocks of a buffer and threads a chain state of one block from call
//! to call.
use crate::error::CipherError;
use crate::words::{
    copy_vec, copy_words, splice, wrapping_inc, write_words, xor_in_place, xor_words,
};
use vstd::prelude::*;

verus! {

/// How consecutive blocks are chained.
#[derive(Clone, Copy, Debug, PartialEq, Eq, Structural)]
pub enum Mode {
    /// Electronic codebook: every block on its own, no chain state.
    Ecb,
    /// Cipher block chaining.
    Cbc,
    /// Cipher feedback.
    Cfb,
    /// Output feedback.
    Ofb,
    /// Counter.
    Ctr,
}

/// Which way the data goes.
#[derive(Clone, Copy, Debug, PartialEq, Eq, Structural)]
pub enum Direction {
    /// From plaintext to ciphertext.
    Encrypt,
    /// From ciphertext to plaintext.
    Decrypt,
}

/// The code point of `c`, with the ASCII capitals folded onto the small
/// letters.
pub open spec fn fold_case(c: char) -> int {
    if 'A' as int <= c as int && c as int <= 'Z' as int {
        c as int + 32
    } else {
        c as int
    }
}

/// Whether `tag` spells the three small letters `a`, `b`, `c`, in any mix of
/// cases.
pub open spec fn tag_is(tag: Seq<char>, a: char, b: char, c: char) -> bool {
    &&& tag.len() == 3
    &&& fold_case(tag[0]) == a as int
    &&& fold_case(tag[1]) == b as int
    &&& fold_case(tag[2]) == c as int
}

/// The mode that a tag names: `ecb`, `cbc`, `cfb`, `ofb` or `ctr`, in any mix
/// of cases.
pub open spec fn mode_of_tag(tag: Seq<char>) -> Option<Mode> {
    if tag_is(tag, 'e', 'c', 'b') {
        Some(Mode::Ecb)
    } else if tag_is(tag, 'c', 'b', 'c') {
        Some(Mode::Cbc)
    } else if tag_is(tag, 'c', 'f', 'b') {
        Some(Mode::Cfb)
    } else if tag_is(tag, 'o', 'f', 'b') {
        Some(Mode::Ofb)
    } else if tag_is(tag, 'c', 't', 'r') {
        Some(Mode::Ctr)
    } else {
        None
    }
}

fn folded(c: char) -> (v: u32)
    ensures
        v == fold_case(c),
{
    let v: u32 = c as u32;
    if 65 <= v && v <= 90 {
        v + 32
    } else {
        v
    }
}

/// Reads a mode tag.
pub fn parse_mode(tag: &str) -> (r: Result<Mode, CipherError>)
    ensures
        r == match mode_of_tag(tag@) {
            Some(m) => Ok::<Mode, CipherError>(m),
            None => Err::<Mode, CipherError>(CipherError::UnsupportedMode),
        },
{
    if tag.unicode_len() != 3 {
        return Err(CipherError::UnsupportedMode);
    }
    let a: u32 = folded(tag.get_char(0));
    let b: u32 = folded(tag.get_char(1));
    let c: u32 = folded(tag.get_char(2));
    if a == 'e' as u32 && b == 'c' as u32 && c == 'b' as u32 {
        Ok(Mode::Ecb)
    } else if a == 'c' as u32 && b == 'b' as u32 && c == 'c' as u32 {
        Ok(Mode::Cbc)
    } else if a == 'c' as u32 && b == 'f' as u32 && c == 'b' as u32 {
        Ok(Mode::Cfb)
    } else if a == 'o' as u32 && b == 'f' as u32 && c == 'b' as u32 {
        Ok(Mode::Ofb)
    } else if a == 'c' as u32 && b == 't' as u32 && c == 'r' as u32 {
        Ok(Mode::Ctr)
    } else {
        Err(CipherError::UnsupportedMode)
    }
}

/// Whether a mode and a direction run the cipher's inverse block transform.
/// Only ECB and CBC decryption do; every other combination runs the forward
/// transform.
pub open spec fn uses_inverse(mode: Mode, dir: Direction) -> bool {
    dir == Direction::Decrypt && (mode == Mode::Ecb || mode == Mode::Cbc)
}

/// The block transform that a mode and a direction call for.
pub open spec fn pick(
    mode: Mode,
    dir: Direction,
    forward: spec_fn(Seq<u32>) -> Seq<u32>,
    inverse: spec_fn(Seq<u32>) -> Seq<u32>,
) -> spec_fn(Seq<u32>) -> Seq<u32> {
    if uses_inverse(mode, dir) {
        inverse
    } else {
        forward
    }
}

impl Mode {
    /// Whether this mode, in this direction, needs the inverse block
    /// transform.
    pub fn needs_inverse(&self, dir: Direction) -> (b: bool)
        ensures
            b == uses_inverse(*self, dir),
    {
        match dir {
            Direction::Encrypt => false,
            Direction::Decrypt => match self {
                Mode::Ecb => true,
                Mode::Cbc => true,
                _ => false,
            },
        }
    }
}

/// A keyed transform of one block, ready to be chained.
pub trait BlockTransform {
    /// The block size in words.
    spec fn block_words(&self) -> nat;

    /// What the transform needs of its key material and tables to run.
    spec fn ready(&self) -> bool;

    /// The transform as a function on blocks.
    spec fn function(&self) -> spec_fn(Seq<u32>) -> Seq<u32>;

    /// The block size in words.
    fn block_len(&self) -> (n: usize)
        requires
            self.ready(),
        ensures
            n == self.block_words(),
            n > 0,
    ;

    /// Transforms `block` in place.
    fn transform(&self, block: &mut Vec<u32>)
        requires
            self.ready(),
            old(block)@.len() == self.block_words(),
        ensures
            final(block)@ == (self.function())(old(block)@),
            final(block)@.len() == self.block_words(),
    ;
}

/// What has been produced so far, and the chain state to go on from.
pub struct Progress {
    pub output: Seq<u32>,
    pub chain: Seq<u32>,
}

/// The counter of the next block: the last word goes up by one and wraps
/// around, without a carry into the words before it.
pub open spec fn next_counter(counter: Seq<u32>) -> Seq<u32> {
    if counter.len() == 0 {
        counter
    } else {
        counter.update(counter.len() - 1, wrapping_inc(counter[counter.len() - 1]))
    }
}

/// One block of a chaining mode: from the chain state and an input block to
/// the output block and the next chain state. `f` is the block transform that
/// the mode and direction call for (see `uses_inverse`).
pub open spec fn step(
    mode: Mode,
    dir: Direction,
    f: spec_fn(Seq<u32>) -> Seq<u32>,
    chain: Seq<u32>,
    input: Seq<u32>,
) -> Progress {
    match mode {
        Mode::Ecb => Progress { output: f(input), chain },
        Mode::Cbc => match dir {
            Direction::Encrypt => {
                let c = f(xor_words(input, chain));
                Progress { output: c, chain: c }
            },
            Direction::Decrypt => Progress { output: xor_words(f(input), chain), chain: input },
        },
        Mode::Cfb => {
            let out = xor_words(input, f(chain));
            match dir {
                Direction::Encrypt => Progress { output: out, chain: out },
                Direction::Decrypt => Progress { output: out, chain: input },
            }
        },
        Mode::Ofb => {
            let keystream = f(chain);
            Progress { output: xor_words(input, keystream), chain: keystream }
        },
        Mode::Ctr => Progress {
            output: xor_words(input, f(chain)),
            chain: next_counter(chain),
        },
    }
}

/// The chain state that a session starts from: the first block of the IV, and
/// nothing for ECB.
pub open spec fn initial_chain(mode: Mode, block_words: nat, iv: Seq<u32>) -> Seq<u32> {
    if mode == Mode::Ecb {
        Seq::empty()
    } else {
        iv.take(block_words as int)
    }
}

/// The first `words` words of `data` taken through the mode, block after
/// block: the output, and the chain state after the last block.
pub open spec fn run(
    mode: Mode,
    dir: Direction,
    f: spec_fn(Seq<u32>) -> Seq<u32>,
    block_words: nat,
    iv: Seq<u32>,
    data: Seq<u32>,
    words: nat,
) -> Progress
    decreases words,
{
    if block_words == 0 || words < block_words {
        Progress { output: Seq::empty(), chain: initial_chain(mode, block_words, iv) }
    } else {
        let before = run(mode, dir, f, block_words, iv, data, (words - block_words) as nat);
        let input = data.subrange(words - block_words, words as int);
        let s = step(mode, dir, f, before.chain, input);
        Progress { output: before.output + s.output, chain: s.chain }
    }
}

/// Why a request cannot be served, if it cannot: the block size must be the
/// transform's, the word count a multiple of it and within the data, and for
/// every mode but ECB the IV must hold a whole block.
pub open spec fn request_error(
    mode: Mode,
    block_words: nat,
    block_size: nat,
    n_words: nat,
    iv_len: nat,
    data_len: nat,
) -> Option<CipherError> {
    if block_size != block_words || n_words % block_words != 0 {
        Some(CipherError::MisalignedInput)
    } else if n_words > data_len || (mode != Mode::Ecb && iv_len < block_words) {
        Some(CipherError::OutOfBounds)
    } else {
        None
    }
}

/// A request that was turned down: the error comes back and the buffer is as
/// it was.
pub open spec fn refused(
    e: CipherError,
    before: Seq<u32>,
    after: Seq<u32>,
    r: Result<Vec<u32>, CipherError>,
) -> bool {
    r == Err::<Vec<u32>, CipherError>(e) && after == before
}

/// A request that was served: the first `n_words` words of the buffer went
/// through the mode, the words behind them are as they were, and the chain
/// state after the last block comes back: one block, and nothing for ECB.
pub open spec fn served(
    mode: Mode,
    dir: Direction,
    f: spec_fn(Seq<u32>) -> Seq<u32>,
    block_words: nat,
    n_words: nat,
    iv: Seq<u32>,
    before: Seq<u32>,
    after: Seq<u32>,
    r: Result<Vec<u32>, CipherError>,
) -> bool {
    let p = run(mode, dir, f, block_words, iv, before, n_words);
    &&& r matches Ok(chain)
    &&& chain@ == p.chain
    &&& chain@.len() == (if mode == Mode::Ecb {
        0
    } else {
        block_words
    })
    &&& after == p.output + before.skip(n_words as int)
    &&& after.len() == before.len()
}

proof fn lemma_next_block(offset: nat, n_words: nat, bs: nat)
    requires
        bs > 0,
        offset % bs == 0,
        n_words % bs == 0,
        offset < n_words,
    ensures
        offset + bs <= n_words,
        (offset + bs) % bs == 0,
{
    vstd::arithmetic::div_mod::lemma_fundamental_div_mod(offset as int, bs as int);
    vstd::arithmetic::div_mod::lemma_fundamental_div_mod(n_words as int, bs as int);
    let a = offset as int / bs as int;
    let b = n_words as int / bs as int;
    assert(a < b) by (nonlinear_arith)
        requires
            bs > 0,
            bs * a < bs * b,
    ;
    assert(bs * (a + 1) <= bs * b) by (nonlinear_arith)
        requires
            bs > 0,
            a + 1 <= b,
    ;
    assert(bs * (a + 1) == bs * a + bs) by (nonlinear_arith);
    vstd::arithmetic::div_mod::lemma_mod_multiples_basic(a + 1, bs as int);
    assert((a + 1) * bs == bs * (a + 1)) by (nonlinear_arith);
}

fn bump(counter: &mut Vec<u32>)
    ensures
        final(counter)@ == next_counter(old(counter)@),
{
    let n: usize = counter.len();
    if n > 0 {
        let v: u32 = counter[n - 1];
        counter[n - 1] = v.wrapping_add(1);
    }
}

/// Takes one block through the mode: `block` becomes the output block and
/// `chain` the next chain state.
fn advance<T: BlockTransform>(
    mode: Mode,
    dir: Direction,
    t: &T,
    chain: &mut Vec<u32>,
    block: &mut Vec<u32>,
)
    requires
        t.ready(),
        old(block)@.len() == t.block_words(),
        mode != Mode::Ecb ==> old(chain)@.len() == t.block_words(),
    ensures
        final(block)@ == step(mode, dir, t.function(), old(chain)@, old(block)@).output,
        final(chain)@ == step(mode, dir, t.function(), old(chain)@, old(block)@).chain,
        final(block)@.len() == t.block_words(),
        final(chain)@.len() == old(chain)@.len(),
{
    match mode {
        Mode::Ecb => {
            t.transform(block);
        },
        Mode::Cbc => match dir {
            Direction::Encrypt => {
                xor_in_place(block, chain);
                t.transform(block);
                *chain = copy_vec(block);
            },
            Direction::Decrypt => {
                let input = copy_vec(block);
                t.transform(block);
                xor_in_place(block, chain);
                *chain = input;
            },
        },
        Mode::Cfb => {
            t.transform(chain);
            match dir {
                Direction::Encrypt => {
                    xor_in_place(block, chain);
                    *chain = copy_vec(block);
                },
                Direction::Decrypt => {
                    let input = copy_vec(block);
                    xor_in_place(block, chain);
                    *chain = input;
                },
            }
        },
        Mode::Ofb => {
            t.transform(chain);
            xor_in_place(block, chain);
        },
        Mode::Ctr => {
            let mut keystream = copy_vec(chain);
            t.transform(&mut keystream);
            bump(chain);
            xor_in_place(block, &keystream);
        },
    }
}

/// Takes the first `n_words` words of `data` through a chaining mode, in
/// place, and returns the chain state to hand in as the IV of the next call.
///
/// `t` is the block transform that the mode and direction call for: the
/// cipher's inverse transform for ECB and CBC decryption, its forward
/// transform otherwise. A request that is turned down leaves `data` as it
/// was. With no words to process the chain state is the one the session
/// starts from.
pub fn process<T: BlockTransform>(
    mode: Mode,
    dir: Direction,
    t: &T,
    block_size: usize,
    n_words: usize,
    iv: &[u32],
    data: &mut [u32],
) -> (r: Result<Vec<u32>, CipherError>)
    requires
        t.ready(),
    ensures
        match request_error(
            mode,
            t.block_words(),
            block_size as nat,
            n_words as nat,
            iv@.len(),
            old(data)@.len(),
        ) {
            Some(e) => refused(e, old(data)@, final(data)@, r),
            None => served(
                mode,
                dir,
                t.function(),
                t.block_words(),
                n_words as nat,
                iv@,
                old(data)@,
                final(data)@,
                r,
            ),
        },
{
    let bs: usize = t.block_len();
    if block_size != bs || n_words % bs != 0 {
        return Err(CipherError::MisalignedInput);
    }
    let is_ecb: bool = match mode {
        Mode::Ecb => true,
        _ => false,
    };
    if n_words > data.len() || (!is_ecb && iv.len() < bs) {
        return Err(CipherError::OutOfBounds);
    }
    let mut chain: Vec<u32> = if is_ecb {
        Vec::new()
    } else {
        copy_words(iv, 0, bs)
    };
    let ghost f = t.function();
    let ghost start = old(data)@;
    let mut offset: usize = 0;
    assert(chain@ =~= initial_chain(mode, bs as nat, iv@));
    assert(data@ =~= Seq::<u32>::empty() + start.skip(0));
    while offset < n_words
        invariant
            t.ready(),
            bs == t.block_words(),
            bs > 0,
            f == t.function(),
            start == old(data)@,
            offset <= n_words <= data@.len(),
            data@.len() == start.len(),
            offset as nat % bs as nat == 0,
            n_words as nat % bs as nat == 0,
            mode != Mode::Ecb ==> chain@.len() == bs,
            mode == Mode::Ecb ==> chain@.len() == 0,
            run(mode, dir, f, bs as nat, iv@, start, offset as nat).output.len() == offset,
            data@ == run(mode, dir, f, bs as nat, iv@, start, offset as nat).output + start.skip(
                offset as int,
            ),
            chain@ == run(mode, dir, f, bs as nat, iv@, start, offset as nat).chain,
        decreases n_words - offset,
    {
        proof {
            lemma_next_block(offset as nat, n_words as nat, bs as nat);
        }
        let ghost before = run(mode, dir, f, bs as nat, iv@, start, offset as nat);
        let ghost held = data@;
        let mut block = copy_words(data, offset, bs);
        assert(block@ =~= start.subrange(offset as int, offset + bs));
        advance(mode, dir, t, &mut chain, &mut block);
        write_words(data, offset, &block);
        offset += bs;
        proof {
            let after = run(mode, dir, f, bs as nat, iv@, start, offset as nat);
            assert(after.output == before.output + block@);
            assert(data@ == splice(held, offset - bs, block@));
            assert(data@ =~= after.output + start.skip(offset as int));
        }
    }
    Ok(chain)
}

} // verus!
