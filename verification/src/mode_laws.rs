//! What holds of the chaining modes whatever the cipher: decryption undoes
//! encryption, a message may be handed in in batches, the counter mode's
//! keystream depends on the block's index alone, and damage to one block of
//! ciphertext stays within two blocks of plaintext.
use crate::mode::{next_counter, pick, run, step, uses_inverse, Direction, Mode};
use crate::words::{
    lemma_xor_words_cancel, lemma_xor_words_injective, wrapping_inc, wrapping_plus, xor_words,
};
use vstd::prelude::*;

verus! {

/// The transform gives a block for a block.
pub open spec fn keeps_length(f: spec_fn(Seq<u32>) -> Seq<u32>, block_words: nat) -> bool {
    forall|b: Seq<u32>| b.len() == block_words ==> (#[trigger] f(b)).len() == block_words
}

/// `inverse` gives back every block that `forward` was applied to.
pub open spec fn undoes(
    inverse: spec_fn(Seq<u32>) -> Seq<u32>,
    forward: spec_fn(Seq<u32>) -> Seq<u32>,
    block_words: nat,
) -> bool {
    forall|b: Seq<u32>| b.len() == block_words ==> #[trigger] inverse(forward(b)) == b
}

/// Different blocks go to different blocks.
pub open spec fn one_to_one(f: spec_fn(Seq<u32>) -> Seq<u32>, block_words: nat) -> bool {
    forall|a: Seq<u32>, b: Seq<u32>|
        a.len() == block_words && b.len() == block_words && #[trigger] f(a) == #[trigger] f(b)
            ==> a == b
}

/// A request that the mode driver serves.
pub open spec fn fits(
    mode: Mode,
    block_words: nat,
    iv: Seq<u32>,
    data: Seq<u32>,
    words: nat,
) -> bool {
    &&& block_words > 0
    &&& words % block_words == 0
    &&& words <= data.len()
    &&& mode != Mode::Ecb ==> iv.len() >= block_words
}

/// Block `i` of a sequence of words.
pub open spec fn block_at(data: Seq<u32>, block_words: nat, i: nat) -> Seq<u32> {
    data.subrange((i * block_words) as int, ((i + 1) * block_words) as int)
}

/// The counter `i` blocks on: the last word has gone up by `i`, wrapping
/// around, and no other word has changed.
pub open spec fn counter_at(start: Seq<u32>, i: nat) -> Seq<u32> {
    if start.len() == 0 {
        start
    } else {
        start.update(start.len() - 1, wrapping_plus(start[start.len() - 1], i))
    }
}

proof fn lemma_aligned_step(words: nat, bs: nat)
    requires
        bs > 0,
        words % bs == 0,
        words > 0,
    ensures
        words >= bs,
        (words - bs) % (bs as int) == 0,
{
    vstd::arithmetic::div_mod::lemma_fundamental_div_mod(words as int, bs as int);
    let q = words as int / bs as int;
    assert(q >= 1) by (nonlinear_arith)
        requires
            bs > 0,
            words > 0,
            words == bs * q,
    ;
    assert(bs * q >= bs) by (nonlinear_arith)
        requires
            bs > 0,
            q >= 1,
    ;
    assert(words - bs == (q - 1) * bs) by (nonlinear_arith)
        requires
            words == bs * q,
    ;
    vstd::arithmetic::div_mod::lemma_mod_multiples_basic(q - 1, bs as int);
}

proof fn lemma_block_offsets(i: nat, bs: nat)
    requires
        bs > 0,
    ensures
        (i + 1) * bs == i * bs + bs,
        (i * bs) % bs == 0,
        ((i + 1) * bs) % bs == 0,
        i * bs >= 0,
{
    assert((i + 1) * bs == i * bs + bs) by (nonlinear_arith);
    vstd::arithmetic::div_mod::lemma_mod_multiples_basic(i as int, bs as int);
    vstd::arithmetic::div_mod::lemma_mod_multiples_basic((i + 1) as int, bs as int);
    assert(i * bs >= 0) by (nonlinear_arith);
}

proof fn lemma_blocks_in_order(i: nat, j: nat, bs: nat)
    requires
        i < j,
    ensures
        (i + 1) * bs <= j * bs,
{
    assert((i + 1) * bs <= j * bs) by (nonlinear_arith)
        requires
            i + 1 <= j,
            bs >= 0,
    ;
}

/// The output is as long as what went in, and the chain state is one block
/// (and empty for ECB).
pub proof fn lemma_run_shape(
    mode: Mode,
    dir: Direction,
    f: spec_fn(Seq<u32>) -> Seq<u32>,
    bs: nat,
    iv: Seq<u32>,
    data: Seq<u32>,
    words: nat,
)
    requires
        fits(mode, bs, iv, data, words),
        keeps_length(f, bs),
    ensures
        run(mode, dir, f, bs, iv, data, words).output.len() == words,
        mode != Mode::Ecb ==> run(mode, dir, f, bs, iv, data, words).chain.len() == bs,
        mode == Mode::Ecb ==> run(mode, dir, f, bs, iv, data, words).chain.len() == 0,
    decreases words,
{
    if words > 0 {
        lemma_aligned_step(words, bs);
        lemma_run_shape(mode, dir, f, bs, iv, data, (words - bs) as nat);
        let before = run(mode, dir, f, bs, iv, data, (words - bs) as nat);
        let input = data.subrange(words - bs, words as int);
        assert(input.len() == bs);
        assert(xor_words(input, before.chain).len() == bs);
        assert(f(input).len() == bs);
        assert(f(xor_words(input, before.chain)).len() == bs);
        if mode != Mode::Ecb {
            assert(f(before.chain).len() == bs);
        }
    }
}

/// Only the words that are processed are read.
pub proof fn lemma_run_reads_prefix(
    mode: Mode,
    dir: Direction,
    f: spec_fn(Seq<u32>) -> Seq<u32>,
    bs: nat,
    iv: Seq<u32>,
    data: Seq<u32>,
    other: Seq<u32>,
    words: nat,
)
    requires
        words <= data.len(),
        words <= other.len(),
        data.take(words as int) == other.take(words as int),
    ensures
        run(mode, dir, f, bs, iv, data, words) == run(mode, dir, f, bs, iv, other, words),
    decreases words,
{
    if bs > 0 && words >= bs {
        let a = data.take(words as int);
        let b = other.take(words as int);
        assert forall|k: int| 0 <= k < words implies data[k] == other[k] by {
            assert(a[k] == data[k]);
            assert(b[k] == other[k]);
        }
        assert(data.take(words - bs) =~= other.take(words - bs));
        lemma_run_reads_prefix(mode, dir, f, bs, iv, data, other, (words - bs) as nat);
        assert(data.subrange(words - bs, words as int) =~= other.subrange(
            words - bs,
            words as int,
        ));
    }
}

/// Round trip: decrypting what encryption left gives the message back, and
/// both directions end in the same chain state. For ECB and CBC this rests
/// on the cipher's inverse transform undoing its forward transform; the
/// other modes run the forward transform both ways.
pub proof fn lemma_round_trip(
    mode: Mode,
    forward: spec_fn(Seq<u32>) -> Seq<u32>,
    inverse: spec_fn(Seq<u32>) -> Seq<u32>,
    bs: nat,
    iv: Seq<u32>,
    data: Seq<u32>,
    words: nat,
)
    requires
        fits(mode, bs, iv, data, words),
        keeps_length(forward, bs),
        uses_inverse(mode, Direction::Decrypt) ==> undoes(inverse, forward, bs),
    ensures
        ({
            let sealed = run(mode, Direction::Encrypt, forward, bs, iv, data, words);
            let opened = run(
                mode,
                Direction::Decrypt,
                pick(mode, Direction::Decrypt, forward, inverse),
                bs,
                iv,
                sealed.output,
                words,
            );
            &&& opened.output == data.take(words as int)
            &&& opened.chain == sealed.chain
        }),
    decreases words,
{
    let g = pick(mode, Direction::Decrypt, forward, inverse);
    let sealed = run(mode, Direction::Encrypt, forward, bs, iv, data, words);
    let opened = run(mode, Direction::Decrypt, g, bs, iv, sealed.output, words);
    if words == 0 {
        assert(opened.output =~= data.take(0));
    } else {
        lemma_aligned_step(words, bs);
        let rest = (words - bs) as nat;
        lemma_round_trip(mode, forward, inverse, bs, iv, data, rest);
        lemma_run_shape(mode, Direction::Encrypt, forward, bs, iv, data, rest);
        lemma_run_shape(mode, Direction::Encrypt, forward, bs, iv, data, words);
        let sealed_rest = run(mode, Direction::Encrypt, forward, bs, iv, data, rest);
        let input = data.subrange(words - bs, words as int);
        let s = step(mode, Direction::Encrypt, forward, sealed_rest.chain, input);
        assert(sealed.output == sealed_rest.output + s.output);
        assert(sealed.output.take(rest as int) =~= sealed_rest.output.take(rest as int));
        lemma_run_reads_prefix(
            mode,
            Direction::Decrypt,
            g,
            bs,
            iv,
            sealed.output,
            sealed_rest.output,
            rest,
        );
        let opened_rest = run(mode, Direction::Decrypt, g, bs, iv, sealed_rest.output, rest);
        assert(sealed.output.subrange(words - bs, words as int) =~= s.output);
        let d = step(mode, Direction::Decrypt, g, opened_rest.chain, s.output);
        assert(opened.output == opened_rest.output + d.output);
        assert(input.len() == bs);
        let chain = sealed_rest.chain;
        match mode {
            Mode::Ecb => {
                assert(inverse(forward(input)) == input);
            },
            Mode::Cbc => {
                let mixed = xor_words(input, chain);
                assert(mixed.len() == bs);
                assert(inverse(forward(mixed)) == mixed);
                lemma_xor_words_cancel(input, chain);
            },
            Mode::Cfb => {
                lemma_xor_words_cancel(input, forward(chain));
            },
            Mode::Ofb => {
                lemma_xor_words_cancel(input, forward(chain));
            },
            Mode::Ctr => {
                lemma_xor_words_cancel(input, forward(chain));
            },
        }
        assert(d.output == input);
        assert(opened.output =~= data.take(words as int));
    }
}

/// Round trip on the caller's buffer: after encryption in place and
/// decryption in place the buffer holds what it held at first.
pub proof fn lemma_round_trip_in_place(
    mode: Mode,
    forward: spec_fn(Seq<u32>) -> Seq<u32>,
    inverse: spec_fn(Seq<u32>) -> Seq<u32>,
    bs: nat,
    iv: Seq<u32>,
    data: Seq<u32>,
    words: nat,
)
    requires
        fits(mode, bs, iv, data, words),
        keeps_length(forward, bs),
        uses_inverse(mode, Direction::Decrypt) ==> undoes(inverse, forward, bs),
    ensures
        ({
            let sealed = run(mode, Direction::Encrypt, forward, bs, iv, data, words);
            let buffer = sealed.output + data.skip(words as int);
            let opened = run(
                mode,
                Direction::Decrypt,
                pick(mode, Direction::Decrypt, forward, inverse),
                bs,
                iv,
                buffer,
                words,
            );
            &&& buffer.len() == data.len()
            &&& opened.output + buffer.skip(words as int) == data
            &&& opened.chain == sealed.chain
        }),
{
    let g = pick(mode, Direction::Decrypt, forward, inverse);
    let sealed = run(mode, Direction::Encrypt, forward, bs, iv, data, words);
    let buffer = sealed.output + data.skip(words as int);
    lemma_run_shape(mode, Direction::Encrypt, forward, bs, iv, data, words);
    lemma_round_trip(mode, forward, inverse, bs, iv, data, words);
    assert(buffer.take(words as int) =~= sealed.output.take(words as int));
    lemma_run_reads_prefix(mode, Direction::Decrypt, g, bs, iv, buffer, sealed.output, words);
    let opened = run(mode, Direction::Decrypt, g, bs, iv, buffer, words);
    assert(opened.output + buffer.skip(words as int) =~= data);
}

/// Batching: a message may be handed in in two calls, the second of which
/// takes the chain state that the first returned as its IV. The output and
/// the last chain state are those of a single call.
pub proof fn lemma_resume(
    mode: Mode,
    dir: Direction,
    f: spec_fn(Seq<u32>) -> Seq<u32>,
    bs: nat,
    iv: Seq<u32>,
    data: Seq<u32>,
    first: nat,
    second: nat,
)
    requires
        fits(mode, bs, iv, data, first + second),
        first % bs == 0,
        second % bs == 0,
        keeps_length(f, bs),
    ensures
        ({
            let head = run(mode, dir, f, bs, iv, data, first);
            let tail = run(mode, dir, f, bs, head.chain, data.skip(first as int), second);
            let whole = run(mode, dir, f, bs, iv, data, first + second);
            &&& whole.output == head.output + tail.output
            &&& whole.chain == tail.chain
        }),
    decreases second,
{
    let head = run(mode, dir, f, bs, iv, data, first);
    let later = data.skip(first as int);
    let tail = run(mode, dir, f, bs, head.chain, later, second);
    let whole = run(mode, dir, f, bs, iv, data, first + second);
    lemma_run_shape(mode, dir, f, bs, iv, data, first);
    if second == 0 {
        if mode != Mode::Ecb {
            assert(head.chain.take(bs as int) =~= head.chain);
        }
        assert(whole.output =~= head.output + tail.output);
    } else {
        lemma_aligned_step(second, bs);
        let rest = (second - bs) as nat;
        vstd::arithmetic::div_mod::lemma_add_mod_noop(first as int, rest as int, bs as int);
        vstd::arithmetic::div_mod::lemma_small_mod(0, bs);
        lemma_resume(mode, dir, f, bs, iv, data, first, rest);
        let tail_rest = run(mode, dir, f, bs, head.chain, later, rest);
        let whole_rest = run(mode, dir, f, bs, iv, data, first + rest);
        assert(first + second - bs == first + rest);
        let input = data.subrange(first + second - bs, (first + second) as int);
        assert(later.subrange(second - bs, second as int) =~= input);
        let s = step(mode, dir, f, whole_rest.chain, input);
        assert(whole.output == whole_rest.output + s.output);
        assert(tail.output == tail_rest.output + s.output);
        assert(whole.output =~= head.output + tail.output);
    }
}

/// What a call produced stays as it is when more blocks follow.
pub proof fn lemma_output_grows(
    mode: Mode,
    dir: Direction,
    f: spec_fn(Seq<u32>) -> Seq<u32>,
    bs: nat,
    iv: Seq<u32>,
    data: Seq<u32>,
    fewer: nat,
    words: nat,
)
    requires
        fits(mode, bs, iv, data, words),
        fewer % bs == 0,
        fewer <= words,
        keeps_length(f, bs),
    ensures
        run(mode, dir, f, bs, iv, data, words).output.take(fewer as int) == run(
            mode,
            dir,
            f,
            bs,
            iv,
            data,
            fewer,
        ).output,
    decreases words,
{
    lemma_run_shape(mode, dir, f, bs, iv, data, fewer);
    lemma_run_shape(mode, dir, f, bs, iv, data, words);
    let whole = run(mode, dir, f, bs, iv, data, words);
    let part = run(mode, dir, f, bs, iv, data, fewer);
    if fewer == words {
        assert(whole.output.take(fewer as int) =~= part.output);
    } else {
        lemma_aligned_step(words, bs);
        let rest = (words - bs) as nat;
        if fewer > rest {
            let gap = (words - fewer) as nat;
            vstd::arithmetic::div_mod::lemma_sub_mod_noop(words as int, fewer as int, bs as int);
            vstd::arithmetic::div_mod::lemma_small_mod(gap, bs);
            vstd::arithmetic::div_mod::lemma_small_mod(0, bs);
            assert(false);
        }
        lemma_output_grows(mode, dir, f, bs, iv, data, fewer, rest);
        lemma_run_shape(mode, dir, f, bs, iv, data, rest);
        let before = run(mode, dir, f, bs, iv, data, rest);
        assert(whole.output.take(fewer as int) =~= before.output.take(fewer as int));
    }
}

/// Block `i` of the output is one step of the mode, from the chain state
/// after `i` blocks and block `i` of the input.
pub proof fn lemma_block_of_output(
    mode: Mode,
    dir: Direction,
    f: spec_fn(Seq<u32>) -> Seq<u32>,
    bs: nat,
    iv: Seq<u32>,
    data: Seq<u32>,
    words: nat,
    i: nat,
)
    requires
        fits(mode, bs, iv, data, words),
        keeps_length(f, bs),
        (i + 1) * bs <= words,
    ensures
        block_at(run(mode, dir, f, bs, iv, data, words).output, bs, i) == step(
            mode,
            dir,
            f,
            run(mode, dir, f, bs, iv, data, i * bs).chain,
            block_at(data, bs, i),
        ).output,
{
    lemma_block_offsets(i, bs);
    let upto = (i + 1) * bs;
    lemma_output_grows(mode, dir, f, bs, iv, data, upto, words);
    lemma_run_shape(mode, dir, f, bs, iv, data, words);
    lemma_run_shape(mode, dir, f, bs, iv, data, upto);
    lemma_run_shape(mode, dir, f, bs, iv, data, i * bs);
    let whole = run(mode, dir, f, bs, iv, data, words);
    let part = run(mode, dir, f, bs, iv, data, upto);
    let before = run(mode, dir, f, bs, iv, data, i * bs);
    assert(upto - bs == i * bs);
    let s = step(mode, dir, f, before.chain, block_at(data, bs, i));
    assert(part.output == before.output + s.output);
    assert(block_at(whole.output, bs, i) =~= whole.output.take(upto as int).subrange(
        (i * bs) as int,
        upto as int,
    ));
    assert(part.output.subrange((i * bs) as int, upto as int) =~= s.output);
}

/// In ECB every block goes through the transform on its own, so the blocks
/// may be worked on in any order, or side by side.
pub proof fn lemma_ecb_block(
    dir: Direction,
    f: spec_fn(Seq<u32>) -> Seq<u32>,
    bs: nat,
    iv: Seq<u32>,
    data: Seq<u32>,
    words: nat,
    i: nat,
)
    requires
        fits(Mode::Ecb, bs, iv, data, words),
        keeps_length(f, bs),
        (i + 1) * bs <= words,
    ensures
        block_at(run(Mode::Ecb, dir, f, bs, iv, data, words).output, bs, i) == f(
            block_at(data, bs, i),
        ),
{
    lemma_block_of_output(Mode::Ecb, dir, f, bs, iv, data, words, i);
}

proof fn lemma_counter_step(start: Seq<u32>, i: nat)
    ensures
        next_counter(counter_at(start, i)) == counter_at(start, i + 1),
        counter_at(start, 0) == start,
{
    if start.len() > 0 {
        let x = start[start.len() - 1];
        assert(wrapping_inc(wrapping_plus(x, i)) == wrapping_plus(x, i + 1)) by {
            let m = 0x1_0000_0000int;
            vstd::arithmetic::div_mod::lemma_fundamental_div_mod(x + i, m);
            vstd::arithmetic::div_mod::lemma_fundamental_div_mod(x + i + 1, m);
            let q = (x + i) / m;
            let r = (x + i) % m;
            if r == m - 1 {
                assert(x + i + 1 == m * (q + 1)) by (nonlinear_arith)
                    requires
                        x + i == m * q + r,
                        r == m - 1,
                ;
                vstd::arithmetic::div_mod::lemma_mod_multiples_basic(q + 1, m);
                assert(m * (q + 1) == (q + 1) * m) by (nonlinear_arith);
            } else {
                vstd::arithmetic::div_mod::lemma_fundamental_div_mod_converse(
                    x + i + 1,
                    m,
                    q,
                    r + 1,
                );
            }
        }
        assert(wrapping_plus(x, 0) == x) by {
            vstd::arithmetic::div_mod::lemma_small_mod(x as nat, 0x1_0000_0000);
        }
        assert(next_counter(counter_at(start, i)) =~= counter_at(start, i + 1));
        assert(counter_at(start, 0) =~= start);
    }
}

/// In counter mode the chain state after `i` blocks is the IV with `i` added
/// to its last word, whatever the data.
pub proof fn lemma_counter_after(
    dir: Direction,
    f: spec_fn(Seq<u32>) -> Seq<u32>,
    bs: nat,
    iv: Seq<u32>,
    data: Seq<u32>,
    i: nat,
)
    requires
        bs > 0,
    ensures
        run(Mode::Ctr, dir, f, bs, iv, data, i * bs).chain == counter_at(iv.take(bs as int), i),
    decreases i,
{
    lemma_block_offsets(i, bs);
    lemma_counter_step(iv.take(bs as int), 0);
    if i > 0 {
        lemma_block_offsets((i - 1) as nat, bs);
        lemma_counter_after(dir, f, bs, iv, data, (i - 1) as nat);
        lemma_counter_step(iv.take(bs as int), (i - 1) as nat);
        assert(i * bs - bs == (i - 1) * bs);
        assert(i * bs >= bs);
    } else {
        assert(i * bs == 0) by (nonlinear_arith)
            requires
                i == 0,
        ;
    }
}

/// Counter mode is deterministic in the block index: block `i` of the output
/// is block `i` of the input masked with the forward transform of the IV
/// with `i` added to its last word (no carry), in either direction and
/// however the message is cut into calls (see `lemma_resume`).
pub proof fn lemma_counter_keystream(
    dir: Direction,
    f: spec_fn(Seq<u32>) -> Seq<u32>,
    bs: nat,
    iv: Seq<u32>,
    data: Seq<u32>,
    words: nat,
    i: nat,
)
    requires
        fits(Mode::Ctr, bs, iv, data, words),
        keeps_length(f, bs),
        (i + 1) * bs <= words,
    ensures
        block_at(run(Mode::Ctr, dir, f, bs, iv, data, words).output, bs, i) == xor_words(
            block_at(data, bs, i),
            f(counter_at(iv.take(bs as int), i)),
        ),
{
    lemma_block_of_output(Mode::Ctr, dir, f, bs, iv, data, words, i);
    lemma_counter_after(dir, f, bs, iv, data, i);
}

/// The keystream of OFB: the IV's first block taken through the forward
/// transform `i` times.
pub open spec fn feedback_at(f: spec_fn(Seq<u32>) -> Seq<u32>, start: Seq<u32>, i: nat) -> Seq<
    u32,
>
    decreases i,
{
    if i == 0 {
        start
    } else {
        f(feedback_at(f, start, (i - 1) as nat))
    }
}

/// In OFB the chain state after `i` blocks is the IV taken through the
/// forward transform `i` times, whatever the data and in either direction.
pub proof fn lemma_feedback_after(
    dir: Direction,
    f: spec_fn(Seq<u32>) -> Seq<u32>,
    bs: nat,
    iv: Seq<u32>,
    data: Seq<u32>,
    i: nat,
)
    requires
        bs > 0,
    ensures
        run(Mode::Ofb, dir, f, bs, iv, data, i * bs).chain == feedback_at(
            f,
            iv.take(bs as int),
            i,
        ),
    decreases i,
{
    lemma_block_offsets(i, bs);
    if i > 0 {
        lemma_block_offsets((i - 1) as nat, bs);
        lemma_feedback_after(dir, f, bs, iv, data, (i - 1) as nat);
        assert(i * bs - bs == (i - 1) * bs);
        assert(i * bs >= bs);
    } else {
        assert(i * bs == 0) by (nonlinear_arith)
            requires
                i == 0,
        ;
    }
}

/// OFB, in either direction: block `i` of the output is block `i` of the
/// input masked with the IV taken through the forward transform `i + 1`
/// times.
pub proof fn lemma_feedback_keystream(
    dir: Direction,
    f: spec_fn(Seq<u32>) -> Seq<u32>,
    bs: nat,
    iv: Seq<u32>,
    data: Seq<u32>,
    words: nat,
    i: nat,
)
    requires
        fits(Mode::Ofb, bs, iv, data, words),
        keeps_length(f, bs),
        (i + 1) * bs <= words,
    ensures
        block_at(run(Mode::Ofb, dir, f, bs, iv, data, words).output, bs, i) == xor_words(
            block_at(data, bs, i),
            feedback_at(f, iv.take(bs as int), i + 1),
        ),
{
    lemma_block_of_output(Mode::Ofb, dir, f, bs, iv, data, words, i);
    lemma_feedback_after(dir, f, bs, iv, data, i);
}

/// CBC and CFB encryption chain every block to the block of ciphertext
/// that they gave just before it, and the first block to the IV.
pub proof fn lemma_encrypted_block(
    mode: Mode,
    f: spec_fn(Seq<u32>) -> Seq<u32>,
    bs: nat,
    iv: Seq<u32>,
    data: Seq<u32>,
    words: nat,
    i: nat,
)
    requires
        mode == Mode::Cbc || mode == Mode::Cfb,
        fits(mode, bs, iv, data, words),
        keeps_length(f, bs),
        (i + 1) * bs <= words,
    ensures
        ({
            let sealed = run(mode, Direction::Encrypt, f, bs, iv, data, words).output;
            block_at(sealed, bs, i) == (if mode == Mode::Cbc {
                f(xor_words(block_at(data, bs, i), block_before(iv, sealed, bs, i)))
            } else {
                xor_words(block_at(data, bs, i), f(block_before(iv, sealed, bs, i)))
            })
        }),
{
    lemma_block_of_output(mode, Direction::Encrypt, f, bs, iv, data, words, i);
    lemma_block_offsets(i, bs);
    if i > 0 {
        let h = (i - 1) as nat;
        lemma_block_offsets(h, bs);
        assert(i * bs - bs == h * bs);
        assert(i * bs >= bs);
        lemma_block_of_output(mode, Direction::Encrypt, f, bs, iv, data, words, h);
    } else {
        assert(i * bs == 0) by (nonlinear_arith)
            requires
                i == 0,
        ;
    }
}

/// What CBC and CFB hand back, in either direction, is the last block of
/// ciphertext: the last block of the output of encryption, and the last
/// block of the input of decryption, as it was before the plaintext took
/// its place.
pub proof fn lemma_chain_is_last_ciphertext(
    mode: Mode,
    dir: Direction,
    f: spec_fn(Seq<u32>) -> Seq<u32>,
    bs: nat,
    iv: Seq<u32>,
    data: Seq<u32>,
    words: nat,
)
    requires
        mode == Mode::Cbc || mode == Mode::Cfb,
        fits(mode, bs, iv, data, words),
        keeps_length(f, bs),
        words > 0,
    ensures
        ({
            let p = run(mode, dir, f, bs, iv, data, words);
            p.chain == (if dir == Direction::Encrypt {
                p.output.subrange(words - bs, words as int)
            } else {
                data.subrange(words - bs, words as int)
            })
        }),
{
    lemma_aligned_step(words, bs);
    lemma_run_shape(mode, dir, f, bs, iv, data, (words - bs) as nat);
    lemma_run_shape(mode, dir, f, bs, iv, data, words);
    let before = run(mode, dir, f, bs, iv, data, (words - bs) as nat);
    let input = data.subrange(words - bs, words as int);
    let s = step(mode, dir, f, before.chain, input);
    let p = run(mode, dir, f, bs, iv, data, words);
    assert(p.output == before.output + s.output);
    assert(p.output.subrange(words - bs, words as int) =~= s.output);
}

/// The block that CBC and CFB decryption chain block `i` to: the block of
/// ciphertext before it, and the IV for the first block.
pub open spec fn block_before(iv: Seq<u32>, data: Seq<u32>, bs: nat, i: nat) -> Seq<u32> {
    if i == 0 {
        iv.take(bs as int)
    } else {
        block_at(data, bs, (i - 1) as nat)
    }
}

/// A block of plaintext that CBC or CFB decryption gives depends on two
/// blocks of ciphertext only: its own and the one before.
pub proof fn lemma_decrypted_block(
    mode: Mode,
    f: spec_fn(Seq<u32>) -> Seq<u32>,
    bs: nat,
    iv: Seq<u32>,
    data: Seq<u32>,
    words: nat,
    i: nat,
)
    requires
        mode == Mode::Cbc || mode == Mode::Cfb,
        fits(mode, bs, iv, data, words),
        keeps_length(f, bs),
        (i + 1) * bs <= words,
    ensures
        block_at(run(mode, Direction::Decrypt, f, bs, iv, data, words).output, bs, i) == (if mode
            == Mode::Cbc {
            xor_words(f(block_at(data, bs, i)), block_before(iv, data, bs, i))
        } else {
            xor_words(block_at(data, bs, i), f(block_before(iv, data, bs, i)))
        }),
{
    lemma_block_of_output(mode, Direction::Decrypt, f, bs, iv, data, words, i);
    lemma_block_offsets(i, bs);
    if i > 0 {
        lemma_block_offsets((i - 1) as nat, bs);
        assert(i * bs - bs == (i - 1) * bs);
        assert(i * bs >= bs);
    } else {
        assert(i * bs == 0) by (nonlinear_arith)
            requires
                i == 0,
        ;
    }
}

/// Where two ciphertexts differ in block `i` only, CBC and CFB decryption
/// give the same plaintext in every block but `i` and `i + 1`.
pub proof fn lemma_damage_stays_local(
    mode: Mode,
    f: spec_fn(Seq<u32>) -> Seq<u32>,
    bs: nat,
    iv: Seq<u32>,
    clean: Seq<u32>,
    damaged: Seq<u32>,
    words: nat,
    i: nat,
    j: nat,
)
    requires
        mode == Mode::Cbc || mode == Mode::Cfb,
        fits(mode, bs, iv, clean, words),
        damaged.len() == clean.len(),
        keeps_length(f, bs),
        (j + 1) * bs <= words,
        forall|k: int|
            0 <= k < words && !(i * bs <= k < (i + 1) * bs) ==> clean[k] == damaged[k],
        j != i,
        j != i + 1,
    ensures
        block_at(run(mode, Direction::Decrypt, f, bs, iv, damaged, words).output, bs, j)
            == block_at(run(mode, Direction::Decrypt, f, bs, iv, clean, words).output, bs, j),
{
    lemma_decrypted_block(mode, f, bs, iv, clean, words, j);
    lemma_decrypted_block(mode, f, bs, iv, damaged, words, j);
    lemma_block_offsets(j, bs);
    lemma_block_offsets(i, bs);
    if j < i {
        lemma_blocks_in_order(j, i, bs);
    } else {
        lemma_blocks_in_order(i, j, bs);
        lemma_blocks_in_order((i + 1) as nat, j, bs);
        lemma_block_offsets((i + 1) as nat, bs);
    }
    assert(block_at(clean, bs, j) =~= block_at(damaged, bs, j));
    if j > 0 {
        lemma_block_offsets((j - 1) as nat, bs);
        if j - 1 < i {
            lemma_blocks_in_order((j - 1) as nat, i, bs);
        } else {
            lemma_blocks_in_order(i, (j - 1) as nat, bs);
        }
        assert(block_at(clean, bs, (j - 1) as nat) =~= block_at(damaged, bs, (j - 1) as nat));
    }
}

/// Where two ciphertexts differ in block `i` and agree in the block before
/// it, the plaintexts that CBC and CFB decryption give differ in block `i`,
/// and in block `i + 1` if there is one and the ciphertexts agree in it.
/// This rests on the block transform being one-to-one.
pub proof fn lemma_damage_shows(
    mode: Mode,
    f: spec_fn(Seq<u32>) -> Seq<u32>,
    bs: nat,
    iv: Seq<u32>,
    clean: Seq<u32>,
    damaged: Seq<u32>,
    words: nat,
    i: nat,
)
    requires
        mode == Mode::Cbc || mode == Mode::Cfb,
        fits(mode, bs, iv, clean, words),
        damaged.len() == clean.len(),
        keeps_length(f, bs),
        one_to_one(f, bs),
        (i + 1) * bs <= words,
        block_at(clean, bs, i) != block_at(damaged, bs, i),
        i > 0 ==> block_at(clean, bs, (i - 1) as nat) == block_at(damaged, bs, (i - 1) as nat),
    ensures
        block_at(run(mode, Direction::Decrypt, f, bs, iv, damaged, words).output, bs, i)
            != block_at(run(mode, Direction::Decrypt, f, bs, iv, clean, words).output, bs, i),
        (i + 2) * bs <= words && block_at(clean, bs, i + 1) == block_at(damaged, bs, i + 1)
            ==> block_at(
            run(mode, Direction::Decrypt, f, bs, iv, damaged, words).output,
            bs,
            i + 1,
        ) != block_at(run(mode, Direction::Decrypt, f, bs, iv, clean, words).output, bs, i + 1),
{
    lemma_block_offsets(i, bs);
    lemma_block_offsets(i + 1, bs);
    lemma_decrypted_block(mode, f, bs, iv, clean, words, i);
    lemma_decrypted_block(mode, f, bs, iv, damaged, words, i);
    let a = block_at(clean, bs, i);
    let b = block_at(damaged, bs, i);
    let before = block_before(iv, clean, bs, i);
    assert(before == block_before(iv, damaged, bs, i));
    assert(a.len() == bs && b.len() == bs);
    assert(f(a) != f(b));
    assert(f(a).len() == bs && f(b).len() == bs);
    if i > 0 {
        lemma_block_offsets((i - 1) as nat, bs);
    }
    assert(before.len() == bs);
    assert(f(before).len() == bs);
    if mode == Mode::Cbc {
        lemma_xor_words_left_injective(f(a), f(b), before);
    } else {
        lemma_xor_words_left_injective(a, b, f(before));
    }
    if (i + 2) * bs <= words && block_at(clean, bs, i + 1) == block_at(damaged, bs, i + 1) {
        lemma_decrypted_block(mode, f, bs, iv, clean, words, i + 1);
        lemma_decrypted_block(mode, f, bs, iv, damaged, words, i + 1);
        let next = block_at(clean, bs, i + 1);
        assert(next.len() == bs);
        assert(f(next).len() == bs);
        if mode == Mode::Cbc {
            if xor_words(f(next), a) == xor_words(f(next), b) {
                lemma_xor_words_injective(f(next), a, b);
            }
        } else {
            if xor_words(next, f(a)) == xor_words(next, f(b)) {
                lemma_xor_words_injective(next, f(a), f(b));
            }
        }
    }
}

/// Error propagation: where two ciphertexts differ in block `i` and nowhere
/// else, the plaintexts that CBC and CFB decryption give differ in block
/// `i` and in block `i + 1`, and in no other block.
pub proof fn lemma_error_propagation(
    mode: Mode,
    f: spec_fn(Seq<u32>) -> Seq<u32>,
    bs: nat,
    iv: Seq<u32>,
    clean: Seq<u32>,
    damaged: Seq<u32>,
    words: nat,
    i: nat,
    j: nat,
)
    requires
        mode == Mode::Cbc || mode == Mode::Cfb,
        fits(mode, bs, iv, clean, words),
        damaged.len() == clean.len(),
        keeps_length(f, bs),
        one_to_one(f, bs),
        (i + 1) * bs <= words,
        (j + 1) * bs <= words,
        forall|k: int|
            0 <= k < words && !(i * bs <= k < (i + 1) * bs) ==> clean[k] == damaged[k],
        block_at(clean, bs, i) != block_at(damaged, bs, i),
    ensures
        (block_at(run(mode, Direction::Decrypt, f, bs, iv, damaged, words).output, bs, j)
            == block_at(run(mode, Direction::Decrypt, f, bs, iv, clean, words).output, bs, j)) <==> (
        j != i && j != i + 1),
{
    if j != i && j != i + 1 {
        lemma_damage_stays_local(mode, f, bs, iv, clean, damaged, words, i, j);
    } else {
        lemma_block_offsets(i, bs);
        if i > 0 {
            lemma_block_offsets((i - 1) as nat, bs);
            assert(block_at(clean, bs, (i - 1) as nat) =~= block_at(damaged, bs, (i - 1) as nat));
        }
        if j == i + 1 {
            lemma_block_offsets(j, bs);
            assert(block_at(clean, bs, j) =~= block_at(damaged, bs, j));
        }
        lemma_damage_shows(mode, f, bs, iv, clean, damaged, words, i);
    }
}

proof fn lemma_xor_words_left_injective(a: Seq<u32>, b: Seq<u32>, mask: Seq<u32>)
    requires
        a.len() == b.len(),
        a != b,
    ensures
        xor_words(a, mask) != xor_words(b, mask),
{
    if xor_words(a, mask) == xor_words(b, mask) {
        lemma_xor_words_cancel(a, mask);
        lemma_xor_words_cancel(b, mask);
    }
}

/// A transform that another one undoes is one-to-one.
pub proof fn lemma_undone_is_one_to_one(
    f: spec_fn(Seq<u32>) -> Seq<u32>,
    g: spec_fn(Seq<u32>) -> Seq<u32>,
    bs: nat,
)
    requires
        undoes(g, f, bs),
    ensures
        one_to_one(f, bs),
{
    assert forall|a: Seq<u32>, b: Seq<u32>|
        a.len() == bs && b.len() == bs && #[trigger] f(a) == #[trigger] f(b) implies a == b by {
        assert(g(f(a)) == a);
        assert(g(f(b)) == b);
    }
}

} // verus!
