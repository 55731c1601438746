//! The permutation on four rows of four lanes. Every step treats the four
//! lanes of a row alike; the diagonal rounds are reached by turning the
//! lanes of rows 1, 2 and 3 before them and turning them back after.
use vstd::prelude::*;
use crate::lane::{add_mod, rotl};
use crate::block::{
    qr,
    column_round,
    rounds,
    keystream,
    to_diagonals,
    to_columns,
    lemma_diagonal_by_rotation,
    lemma_rounds_len,
};

verus! {

/// One row of the block: four lanes.
#[derive(Clone, Copy, Debug, PartialEq, Eq, Structural)]
pub struct Row(pub u32, pub u32, pub u32, pub u32);

impl Row {
    /// Lane-wise addition modulo 2^32.
    pub fn add(self, x: Row) -> (r: Row)
        ensures
            r == Row(
                add_mod(self.0, x.0),
                add_mod(self.1, x.1),
                add_mod(self.2, x.2),
                add_mod(self.3, x.3),
            ),
    {
        Row(
            self.0.wrapping_add(x.0),
            self.1.wrapping_add(x.1),
            self.2.wrapping_add(x.2),
            self.3.wrapping_add(x.3),
        )
    }

    /// Lane-wise exclusive or.
    pub fn xor(self, x: Row) -> (r: Row)
        ensures
            r == Row(self.0 ^ x.0, self.1 ^ x.1, self.2 ^ x.2, self.3 ^ x.3),
    {
        Row(self.0 ^ x.0, self.1 ^ x.1, self.2 ^ x.2, self.3 ^ x.3)
    }

    /// Lane-wise inclusive or.
    pub fn or(self, x: Row) -> (r: Row)
        ensures
            r == Row(self.0 | x.0, self.1 | x.1, self.2 | x.2, self.3 | x.3),
    {
        Row(self.0 | x.0, self.1 | x.1, self.2 | x.2, self.3 | x.3)
    }

    /// Lane-wise left shift.
    pub fn shift_left(self, bit_distance: usize) -> (r: Row)
        requires
            bit_distance < 32,
        ensures
            ({
                let n = bit_distance as u32;
                r == Row(self.0 << n, self.1 << n, self.2 << n, self.3 << n)
            }),
    {
        let n = bit_distance as u32;
        Row(self.0 << n, self.1 << n, self.2 << n, self.3 << n)
    }

    /// Lane-wise right shift.
    pub fn shift_right(self, bit_distance: usize) -> (r: Row)
        requires
            bit_distance < 32,
        ensures
            ({
                let n = bit_distance as u32;
                r == Row(self.0 >> n, self.1 >> n, self.2 >> n, self.3 >> n)
            }),
    {
        let n = bit_distance as u32;
        Row(self.0 >> n, self.1 >> n, self.2 >> n, self.3 >> n)
    }

    /// Lane-wise left rotation by `bit_distance` bits.
    pub fn roll_left(self, bit_distance: usize) -> (r: Row)
        requires
            1 <= bit_distance <= 31,
        ensures
            ({
                let n = bit_distance as u32;
                r == Row(rotl(self.0, n), rotl(self.1, n), rotl(self.2, n), rotl(self.3, n))
            }),
    {
        let lefted = self.shift_left(bit_distance);
        let righted = self.shift_right(32 - bit_distance);
        lefted.or(righted)
    }
}

/// The sixteen words of rows `a`, `b`, `c`, `d`, in that order.
pub open spec fn row_words(a: Row, b: Row, c: Row, d: Row) -> Seq<u32> {
    seq![
        a.0, a.1, a.2, a.3,
        b.0, b.1, b.2, b.3,
        c.0, c.1, c.2, c.3,
        d.0, d.1, d.2, d.3,
    ]
}

/// The words of the row path after `n` single rounds from `s`: each round is
/// a column round on the rows as they stand, after which the lanes are turned
/// toward the diagonals (`n` odd) or back to the columns (`n` even).
pub open spec fn row_steps(s: Seq<u32>, n: nat) -> Seq<u32>
    decreases n,
{
    if n == 0 {
        s
    } else {
        let t = column_round(row_steps(s, (n - 1) as nat));
        if n % 2 == 1 {
            to_diagonals(t)
        } else {
            to_columns(t)
        }
    }
}

/// After an even number `n` of single rounds the row path holds exactly the
/// block after `n / 2` double rounds.
pub proof fn lemma_row_steps(s: Seq<u32>, n: nat)
    requires
        s.len() == 16,
        n % 2 == 0,
    ensures
        row_steps(s, n) == rounds(s, n / 2),
    decreases n,
{
    if n > 0 {
        lemma_row_steps(s, (n - 2) as nat);
        lemma_rounds_len(s, ((n - 2) / 2) as nat);
        let prev = rounds(s, ((n - 2) / 2) as nat);
        lemma_diagonal_by_rotation(column_round(prev));
        assert(row_steps(s, (n - 1) as nat) == to_diagonals(column_round(prev)));
        assert((n / 2 - 1) as nat == ((n - 2) / 2) as nat);
    }
}

/// The four rows of `xs`.
fn load(xs: &[u32; 16]) -> (r: (Row, Row, Row, Row))
    ensures
        row_words(r.0, r.1, r.2, r.3) == xs@,
{
    let a = Row(xs[0], xs[1], xs[2], xs[3]);
    let b = Row(xs[4], xs[5], xs[6], xs[7]);
    let c = Row(xs[8], xs[9], xs[10], xs[11]);
    let d = Row(xs[12], xs[13], xs[14], xs[15]);
    assert(row_words(a, b, c, d) =~= xs@);
    (a, b, c, d)
}

/// Writes the four rows back into `xs`.
fn store(xs: &mut [u32; 16], a: Row, b: Row, c: Row, d: Row)
    ensures
        final(xs)@ == row_words(a, b, c, d),
{
    xs[0] = a.0; xs[1] = a.1; xs[2] = a.2; xs[3] = a.3;
    xs[4] = b.0; xs[5] = b.1; xs[6] = b.2; xs[7] = b.3;
    xs[8] = c.0; xs[9] = c.1; xs[10] = c.2; xs[11] = c.3;
    xs[12] = d.0; xs[13] = d.1; xs[14] = d.2; xs[15] = d.3;
    assert(xs@ =~= row_words(a, b, c, d));
}

/// The quarter round in every lane of the four rows at once: on the columns
/// of the block, or on its diagonals once they are lined up as columns.
fn quarter_round_rows(a: Row, b: Row, c: Row, d: Row) -> (r: (Row, Row, Row, Row))
    ensures
        row_words(r.0, r.1, r.2, r.3) == column_round(row_words(a, b, c, d)),
{
    let (mut a, mut b, mut c, mut d) = (a, b, c, d);
    let ghost before = row_words(a, b, c, d);
    a = a.add(b); d = d.xor(a); d = d.roll_left(16);
    c = c.add(d); b = b.xor(c); b = b.roll_left(12);
    a = a.add(b); d = d.xor(a); d = d.roll_left(8);
    c = c.add(d); b = b.xor(c); b = b.roll_left(7);
    proof {
        reveal(qr);
    }
    assert(row_words(a, b, c, d) =~= column_round(before));
    (a, b, c, d)
}

/// Applies `rounds` single rounds to `xs`, alternating column and diagonal
/// rounds, and adds the input back when `do_add` holds.
pub(crate) fn permute(rounds: u8, xs: &mut [u32; 16], do_add: bool)
    requires
        rounds % 2 == 0,
    ensures
        final(xs)@ == if do_add {
            keystream(old(xs)@, (rounds / 2) as nat)
        } else {
            crate::block::rounds(old(xs)@, (rounds / 2) as nat)
        },
{
    let ghost s = xs@;
    let (mut a, mut b, mut c, mut d) = load(xs);

    let mut remaining: u8 = rounds;
    while remaining > 0
        invariant
            remaining <= rounds,
            rounds % 2 == 0,
            xs@ == s,
            s.len() == 16,
            row_words(a, b, c, d) == row_steps(s, (rounds - remaining) as nat),
        decreases remaining,
    {
        remaining = remaining - 1;

        let (a1, b1, c1, d1) = quarter_round_rows(a, b, c, d);
        a = a1;
        b = b1;
        c = c1;
        d = d1;
        let ghost mixed = row_words(a, b, c, d);

        if remaining % 2 == 1 {
            // A diagonal round comes next: line the diagonals up as columns.
            b = Row(b.1, b.2, b.3, b.0);
            c = Row(c.2, c.3, c.0, c.1);
            d = Row(d.3, d.0, d.1, d.2);
            assert(row_words(a, b, c, d) =~= to_diagonals(mixed));
        } else {
            // A column round comes next: put the columns back in place.
            b = Row(b.3, b.0, b.1, b.2);
            c = Row(c.2, c.3, c.0, c.1);
            d = Row(d.1, d.2, d.3, d.0);
            assert(row_words(a, b, c, d) =~= to_columns(mixed));
        }
    }
    proof {
        lemma_row_steps(s, rounds as nat);
    }

    if do_add {
        a = a.add(Row(xs[0], xs[1], xs[2], xs[3]));
        b = b.add(Row(xs[4], xs[5], xs[6], xs[7]));
        c = c.add(Row(xs[8], xs[9], xs[10], xs[11]));
        d = d.add(Row(xs[12], xs[13], xs[14], xs[15]));
        assert(row_words(a, b, c, d) =~= keystream(s, (rounds / 2) as nat));
    }

    store(xs, a, b, c, d);
}

} // verus!
