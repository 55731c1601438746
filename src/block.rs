//! The mathematical model of a block: sixteen words in row-major order,
//! four rows of four, and the rounds that mix them.
use vstd::prelude::*;
use crate::lane::{add_mod, rotl};

verus! {

/// The quarter round on four words, with the updates in their fixed order.
#[verifier::opaque]
pub open spec fn qr(a: u32, b: u32, c: u32, d: u32) -> (u32, u32, u32, u32) {
    let a = add_mod(a, b);
    let d = rotl(d ^ a, 16);
    let c = add_mod(c, d);
    let b = rotl(b ^ c, 12);
    let a = add_mod(a, b);
    let d = rotl(d ^ a, 8);
    let c = add_mod(c, d);
    let b = rotl(b ^ c, 7);
    (a, b, c, d)
}

/// A quarter round on each of the four columns `(s[i], s[4+i], s[8+i], s[12+i])`.
pub open spec fn column_round(s: Seq<u32>) -> Seq<u32> {
    let q0 = qr(s[0], s[4], s[8], s[12]);
    let q1 = qr(s[1], s[5], s[9], s[13]);
    let q2 = qr(s[2], s[6], s[10], s[14]);
    let q3 = qr(s[3], s[7], s[11], s[15]);
    seq![
        q0.0, q1.0, q2.0, q3.0,
        q0.1, q1.1, q2.1, q3.1,
        q0.2, q1.2, q2.2, q3.2,
        q0.3, q1.3, q2.3, q3.3,
    ]
}

/// A quarter round on each of the four diagonals: diagonal `i` holds row `r`'s
/// word in column `(i + r) % 4`.
pub open spec fn diagonal_round(s: Seq<u32>) -> Seq<u32> {
    let q0 = qr(s[0], s[5], s[10], s[15]);
    let q1 = qr(s[1], s[6], s[11], s[12]);
    let q2 = qr(s[2], s[7], s[8], s[13]);
    let q3 = qr(s[3], s[4], s[9], s[14]);
    seq![
        q0.0, q1.0, q2.0, q3.0,
        q3.1, q0.1, q1.1, q2.1,
        q2.2, q3.2, q0.2, q1.2,
        q1.3, q2.3, q3.3, q0.3,
    ]
}

/// A column round followed by a diagonal round.
pub open spec fn double_round(s: Seq<u32>) -> Seq<u32> {
    diagonal_round(column_round(s))
}

/// `n` double rounds applied to `s`.
pub open spec fn rounds(s: Seq<u32>, n: nat) -> Seq<u32>
    decreases n,
{
    if n == 0 {
        s
    } else {
        double_round(rounds(s, (n - 1) as nat))
    }
}

/// Word-by-word addition modulo 2^32.
pub open spec fn add_words(x: Seq<u32>, y: Seq<u32>) -> Seq<u32> {
    Seq::new(16, |i: int| add_mod(x[i], y[i]))
}

/// The block function: `n` double rounds, then the input added back.
pub open spec fn keystream(s: Seq<u32>, n: nat) -> Seq<u32> {
    add_words(rounds(s, n), s)
}

/// The block with its low counter word (row 3, column 0) advanced by `k`.
pub open spec fn with_counter(s: Seq<u32>, k: u32) -> Seq<u32> {
    s.update(12, add_mod(s[12], k))
}

/// The row layout that lines the diagonals up as columns: row 1 turned left
/// by one lane, row 2 by two, row 3 by three.
pub open spec fn to_diagonals(s: Seq<u32>) -> Seq<u32> {
    seq![
        s[0], s[1], s[2], s[3],
        s[5], s[6], s[7], s[4],
        s[10], s[11], s[8], s[9],
        s[15], s[12], s[13], s[14],
    ]
}

/// The inverse of `to_diagonals`: row 1 turned left by three lanes, row 2 by
/// two, row 3 by one.
pub open spec fn to_columns(s: Seq<u32>) -> Seq<u32> {
    seq![
        s[0], s[1], s[2], s[3],
        s[7], s[4], s[5], s[6],
        s[10], s[11], s[8], s[9],
        s[13], s[14], s[15], s[12],
    ]
}

/// A diagonal round is a column round taken between the two lane rotations.
pub proof fn lemma_diagonal_by_rotation(s: Seq<u32>)
    requires
        s.len() == 16,
    ensures
        to_columns(column_round(to_diagonals(s))) == diagonal_round(s),
{
    assert(to_columns(column_round(to_diagonals(s))) =~= diagonal_round(s));
}

/// After at least one double round the model holds sixteen words.
pub proof fn lemma_rounds_len(s: Seq<u32>, n: nat)
    ensures
        rounds(s, n).len() == if n == 0 { s.len() } else { 16 },
    decreases n,
{
    if n > 0 {
        lemma_rounds_len(s, (n - 1) as nat);
    }
}

/// `m` double rounds followed by `n` more are `m + n` double rounds.
pub proof fn lemma_rounds_add(s: Seq<u32>, m: nat, n: nat)
    ensures
        rounds(rounds(s, m), n) == rounds(s, m + n),
    decreases n,
{
    if n > 0 {
        lemma_rounds_add(s, m, (n - 1) as nat);
    }
}

/// Advancing the counter by zero leaves the block as it is.
pub proof fn lemma_with_counter_zero(s: Seq<u32>)
    requires
        s.len() == 16,
    ensures
        with_counter(s, 0) == s,
{
    assert(with_counter(s, 0) =~= s);
}

} // verus!
