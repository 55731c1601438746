//! The ChaCha block permutation: the add-rotate-xor mixing function over a
//! 4x4 matrix of 32-bit words, computed three ways that agree word for word:
//! a scalar path generic over the lane type, a four-block batched path, and
//! a row path whose steps treat the four lanes of a row alike.
use vstd::prelude::*;

pub mod lane;
pub mod block;
pub mod state;
pub mod codec;
pub mod rows;

pub use lane::{ChaChaElem, QuadState, roll_left};
pub use state::{
    ChaChaState,
    quarter_round,
    permute,
    permute_20,
    mega_permute_n,
    batch_permute,
    CHACHA20_DOUBLE_ROUNDS,
};
pub use codec::{decode_block, encode_block};
pub use rows::Row;

verus! {

/// Applies `rounds` rounds to the sixteen words of `xs` in place, column and
/// diagonal rounds in turn, with no final addition. `rounds` must be even.
pub fn permute_only(rounds: u8, xs: &mut [u32; 16])
    requires
        rounds % 2 == 0,
    ensures
        final(xs)@ == block::rounds(old(xs)@, (rounds / 2) as nat),
{
    rows::permute(rounds, xs, false)
}

/// The block function: applies `rounds` rounds to `xs` in place, then adds
/// the input words back, each modulo 2^32. `rounds` must be even; ChaCha20
/// uses 20.
pub fn permute_and_add(rounds: u8, xs: &mut [u32; 16])
    requires
        rounds % 2 == 0,
    ensures
        final(xs)@ == block::keystream(old(xs)@, (rounds / 2) as nat),
{
    rows::permute(rounds, xs, true)
}

/// The three paths agree: for every block `s` and every even round count
/// `n`, the row path after `n` single rounds, the scalar path after `n / 2`
/// double rounds, and lane 0 of the batched path (whose counter is advanced
/// by zero) hold the same words.
pub proof fn lemma_paths_agree(s: Seq<u32>, n: nat)
    requires
        s.len() == 16,
        n % 2 == 0,
    ensures
        rows::row_steps(s, n) == block::rounds(s, n / 2),
        block::rounds(block::with_counter(s, 0), n / 2) == block::rounds(s, n / 2),
{
    rows::lemma_row_steps(s, n);
    block::lemma_with_counter_zero(s);
}

} // verus!
