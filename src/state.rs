//! The block as a 4x4 matrix of lane values, and the permutation written
//! once for every kind of lane.
use vstd::prelude::*;
use crate::lane::{ChaChaElem, QuadState, add_mod};
use crate::block::{
    qr,
    column_round,
    diagonal_round,
    double_round,
    rounds,
    add_words,
    with_counter,
    lemma_rounds_add,
    lemma_with_counter_zero,
};
use crate::codec::{decode, encode, decode_block, encode_block};

verus! {

/// Whether, in every lane, `(a, b, c, d)` is the quarter round of `(a0, b0, c0, d0)`.
pub open spec fn qr_in_lanes<E: ChaChaElem>(
    a0: E,
    b0: E,
    c0: E,
    d0: E,
    a: E,
    b: E,
    c: E,
    d: E,
) -> bool {
    forall|k: int|
        0 <= k < E::lane_count() ==> (a.lane(k), b.lane(k), c.lane(k), d.lane(k)) == #[trigger] qr(
            a0.lane(k),
            b0.lane(k),
            c0.lane(k),
            d0.lane(k),
        )
}

/// Mixes four lane values: add, xor and rotate, in each lane independently.
pub fn quarter_round<E: ChaChaElem>(a: &mut E, b: &mut E, c: &mut E, d: &mut E)
    ensures
        qr_in_lanes(*old(a), *old(b), *old(c), *old(d), *final(a), *final(b), *final(c), *final(d)),
{
    a.increase_by(b); d.xor_by(a); d.roll_left_by(16);
    c.increase_by(d); b.xor_by(c); b.roll_left_by(12);
    a.increase_by(b); d.xor_by(a); d.roll_left_by(8);
    c.increase_by(d); b.xor_by(c); b.roll_left_by(7);
    proof {
        reveal(qr);
    }
}

/// Sixteen lane values in four rows of four.
pub struct ChaChaState<E> {
    pub row0: (E, E, E, E),
    pub row1: (E, E, E, E),
    pub row2: (E, E, E, E),
    pub row3: (E, E, E, E),
}

/// Adds `y` to `x`, position by position.
fn increase_row<E: ChaChaElem>(x: &mut (E, E, E, E), y: &(E, E, E, E))
    ensures
        forall|k: int|
            0 <= k < E::lane_count() ==> {
                &&& #[trigger] final(x).0.lane(k) == add_mod(old(x).0.lane(k), y.0.lane(k))
                &&& final(x).1.lane(k) == add_mod(old(x).1.lane(k), y.1.lane(k))
                &&& final(x).2.lane(k) == add_mod(old(x).2.lane(k), y.2.lane(k))
                &&& final(x).3.lane(k) == add_mod(old(x).3.lane(k), y.3.lane(k))
            },
{
    x.0.increase_by(&y.0);
    x.1.increase_by(&y.1);
    x.2.increase_by(&y.2);
    x.3.increase_by(&y.3);
}

impl<E: ChaChaElem> ChaChaState<E> {
    /// The sixteen words of lane `k`, row by row.
    pub open spec fn lane_words(self, k: int) -> Seq<u32> {
        seq![
            self.row0.0.lane(k), self.row0.1.lane(k), self.row0.2.lane(k), self.row0.3.lane(k),
            self.row1.0.lane(k), self.row1.1.lane(k), self.row1.2.lane(k), self.row1.3.lane(k),
            self.row2.0.lane(k), self.row2.1.lane(k), self.row2.2.lane(k), self.row2.3.lane(k),
            self.row3.0.lane(k), self.row3.1.lane(k), self.row3.2.lane(k), self.row3.3.lane(k),
        ]
    }

    /// One column round, then one diagonal round.
    pub fn double_round(&mut self)
        ensures
            forall|k: int|
                0 <= k < E::lane_count() ==> #[trigger] final(self).lane_words(k) == double_round(
                    old(self).lane_words(k),
                ),
    {
        let ghost s0 = *self;
        quarter_round(&mut self.row0.0, &mut self.row1.0, &mut self.row2.0, &mut self.row3.0);
        quarter_round(&mut self.row0.1, &mut self.row1.1, &mut self.row2.1, &mut self.row3.1);
        quarter_round(&mut self.row0.2, &mut self.row1.2, &mut self.row2.2, &mut self.row3.2);
        quarter_round(&mut self.row0.3, &mut self.row1.3, &mut self.row2.3, &mut self.row3.3);
        let ghost s1 = *self;
        assert forall|k: int| 0 <= k < E::lane_count() implies #[trigger] s1.lane_words(k)
            == column_round(s0.lane_words(k)) by {
            assert(s1.lane_words(k) =~= column_round(s0.lane_words(k)));
        }

        quarter_round(&mut self.row0.0, &mut self.row1.1, &mut self.row2.2, &mut self.row3.3);
        quarter_round(&mut self.row0.1, &mut self.row1.2, &mut self.row2.3, &mut self.row3.0);
        quarter_round(&mut self.row0.2, &mut self.row1.3, &mut self.row2.0, &mut self.row3.1);
        quarter_round(&mut self.row0.3, &mut self.row1.0, &mut self.row2.1, &mut self.row3.2);
        assert forall|k: int| 0 <= k < E::lane_count() implies #[trigger] self.lane_words(k)
            == diagonal_round(s1.lane_words(k)) by {
            assert(self.lane_words(k) =~= diagonal_round(s1.lane_words(k)));
        }
    }

    /// Adds `other` to `self`, word by word.
    pub fn increase_by(&mut self, other: &ChaChaState<E>)
        ensures
            forall|k: int|
                0 <= k < E::lane_count() ==> #[trigger] final(self).lane_words(k) == add_words(
                    old(self).lane_words(k),
                    other.lane_words(k),
                ),
    {
        let ghost s0 = *self;
        increase_row(&mut self.row0, &other.row0);
        increase_row(&mut self.row1, &other.row1);
        increase_row(&mut self.row2, &other.row2);
        increase_row(&mut self.row3, &other.row3);
        assert forall|k: int| 0 <= k < E::lane_count() implies #[trigger] self.lane_words(k)
            == add_words(s0.lane_words(k), other.lane_words(k)) by {
            assert(self.lane_words(k) =~= add_words(s0.lane_words(k), other.lane_words(k)));
        }
    }
}

/// Applies `double_rounds` double rounds to `s`, in every lane.
pub fn permute<E: ChaChaElem>(s: &mut ChaChaState<E>, double_rounds: usize)
    ensures
        forall|k: int|
            0 <= k < E::lane_count() ==> #[trigger] final(s).lane_words(k) == rounds(
                old(s).lane_words(k),
                double_rounds as nat,
            ),
{
    let mut i: usize = 0;
    while i < double_rounds
        invariant
            i <= double_rounds,
            forall|k: int|
                0 <= k < E::lane_count() ==> #[trigger] s.lane_words(k) == rounds(
                    old(s).lane_words(k),
                    i as nat,
                ),
        decreases double_rounds - i,
    {
        s.double_round();
        i = i + 1;
    }
}

impl ChaChaState<u32> {
    /// The state whose rows are `xs[0..4]`, `xs[4..8]`, `xs[8..12]`, `xs[12..16]`.
    pub fn from_words(xs: &[u32; 16]) -> (r: ChaChaState<u32>)
        ensures
            r.lane_words(0) == xs@,
    {
        let r = ChaChaState {
            row0: (xs[0], xs[1], xs[2], xs[3]),
            row1: (xs[4], xs[5], xs[6], xs[7]),
            row2: (xs[8], xs[9], xs[10], xs[11]),
            row3: (xs[12], xs[13], xs[14], xs[15]),
        };
        assert(r.lane_words(0) =~= xs@);
        r
    }

    /// The sixteen words, row by row.
    pub fn to_words(&self) -> (r: [u32; 16])
        ensures
            r@ == self.lane_words(0),
    {
        let r = [
            self.row0.0, self.row0.1, self.row0.2, self.row0.3,
            self.row1.0, self.row1.1, self.row1.2, self.row1.3,
            self.row2.0, self.row2.1, self.row2.2, self.row2.3,
            self.row3.0, self.row3.1, self.row3.2, self.row3.3,
        ];
        assert(r@ =~= self.lane_words(0));
        r
    }

    /// The state held little-endian in a 64-byte block.
    pub fn from_bytes(bs: &[u8; 64]) -> (r: ChaChaState<u32>)
        ensures
            r.lane_words(0) == decode(bs@),
    {
        ChaChaState::from_words(&decode_block(bs))
    }

    /// Writes the state little-endian into `dest`.
    pub fn into_bytes(&self, dest: &mut [u8; 64])
        ensures
            final(dest)@ == encode(self.lane_words(0)),
    {
        *dest = encode_block(&self.to_words());
    }
}

impl ChaChaState<QuadState> {
    /// Each word of `source` copied into all four lanes.
    pub fn quadify_row(
        source: &(u32, u32, u32, u32),
    ) -> (r: (QuadState, QuadState, QuadState, QuadState))
        ensures
            r == (
                QuadState(source.0, source.0, source.0, source.0),
                QuadState(source.1, source.1, source.1, source.1),
                QuadState(source.2, source.2, source.2, source.2),
                QuadState(source.3, source.3, source.3, source.3),
            ),
    {
        (
            QuadState::dup(source.0),
            QuadState::dup(source.1),
            QuadState::dup(source.2),
            QuadState::dup(source.3),
        )
    }

    /// Four copies of `source`, one per lane, with the low counter word of
    /// lane `k` advanced by `k`.
    pub fn next_four(source: ChaChaState<u32>) -> (r: ChaChaState<QuadState>)
        ensures
            forall|k: int|
                0 <= k < 4 ==> #[trigger] r.lane_words(k) == with_counter(
                    source.lane_words(0),
                    k as u32,
                ),
    {
        let mut st = ChaChaState {
            row0: ChaChaState::<QuadState>::quadify_row(&source.row0),
            row1: ChaChaState::<QuadState>::quadify_row(&source.row1),
            row2: ChaChaState::<QuadState>::quadify_row(&source.row2),
            row3: ChaChaState::<QuadState>::quadify_row(&source.row3),
        };
        let ghost c = source.row3.0;
        (st.row3.0).1.increase_by(&1);
        assert(st.row3.0.1.lane(0) == add_mod(c, 1));
        (st.row3.0).2.increase_by(&2);
        assert(st.row3.0.2.lane(0) == add_mod(c, 2));
        (st.row3.0).3.increase_by(&3);
        assert(st.row3.0.3.lane(0) == add_mod(c, 3));
        assert(st.row3.0.lane(0) == add_mod(c, 0));
        assert forall|k: int| 0 <= k < 4 implies #[trigger] st.lane_words(k) == with_counter(
            source.lane_words(0),
            k as u32,
        ) by {
            assert(st.lane_words(k) =~= with_counter(source.lane_words(0), k as u32));
        }
        st
    }

    /// The sixteen words of lane `k`, row by row.
    pub fn lane_block(&self, k: usize) -> (r: [u32; 16])
        requires
            k < 4,
        ensures
            r@ == self.lane_words(k as int),
    {
        let r = [
            self.row0.0.get(k), self.row0.1.get(k), self.row0.2.get(k), self.row0.3.get(k),
            self.row1.0.get(k), self.row1.1.get(k), self.row1.2.get(k), self.row1.3.get(k),
            self.row2.0.get(k), self.row2.1.get(k), self.row2.2.get(k), self.row2.3.get(k),
            self.row3.0.get(k), self.row3.1.get(k), self.row3.2.get(k), self.row3.3.get(k),
        ];
        assert(r@ =~= self.lane_words(k as int));
        r
    }
}

/// The number of double rounds of ChaCha20.
pub const CHACHA20_DOUBLE_ROUNDS: usize = 10;

/// Replaces the 64-byte block `bs` by its ChaCha20 permutation (twenty
/// rounds, no final addition).
pub fn permute_20(bs: &mut [u8; 64])
    ensures
        final(bs)@ == encode(rounds(decode(old(bs)@), CHACHA20_DOUBLE_ROUNDS as nat)),
{
    let mut state = ChaChaState::from_bytes(bs);
    permute(&mut state, CHACHA20_DOUBLE_ROUNDS);
    state.into_bytes(bs);
}

/// Runs `repeat` ChaCha20 permutations on four blocks at once: the block in
/// `bs` with its counter advanced by 0, 1, 2 and 3. Returns the first word of
/// the block whose counter was not advanced.
pub fn mega_permute_n(bs: &mut [u8; 64], repeat: usize) -> (r: u32)
    ensures
        *final(bs) == *old(bs),
        r == rounds(decode(old(bs)@), (CHACHA20_DOUBLE_ROUNDS * repeat) as nat)[0],
{
    let mut megastate = ChaChaState::<QuadState>::next_four(ChaChaState::from_bytes(bs));
    let ghost start = decode(bs@);
    let mut i: usize = 0;
    while i < repeat
        invariant
            i <= repeat,
            forall|k: int|
                0 <= k < 4 ==> #[trigger] megastate.lane_words(k) == rounds(
                    with_counter(start, k as u32),
                    (CHACHA20_DOUBLE_ROUNDS * i) as nat,
                ),
        decreases repeat - i,
    {
        permute(&mut megastate, CHACHA20_DOUBLE_ROUNDS);
        proof {
            assert forall|k: int| 0 <= k < 4 implies #[trigger] megastate.lane_words(k) == rounds(
                with_counter(start, k as u32),
                (CHACHA20_DOUBLE_ROUNDS * (i + 1)) as nat,
            ) by {
                lemma_rounds_add(
                    with_counter(start, k as u32),
                    (CHACHA20_DOUBLE_ROUNDS * i) as nat,
                    CHACHA20_DOUBLE_ROUNDS as nat,
                );
            }
        }
        i = i + 1;
    }
    proof {
        lemma_with_counter_zero(start);
        assert(megastate.lane_words(0)[0] == (megastate.row0.0).0);
    }
    (megastate.row0.0).0
}

/// Permutes four blocks at once: `xs` with its low counter word advanced by
/// 0, 1, 2 and 3, each through `rounds` rounds.
pub fn batch_permute(xs: &[u32; 16], rounds: u8) -> (r: [[u32; 16]; 4])
    requires
        rounds % 2 == 0,
    ensures
        forall|k: int|
            0 <= k < 4 ==> #[trigger] r[k]@ == crate::block::rounds(
                with_counter(xs@, k as u32),
                (rounds / 2) as nat,
            ),
{
    let mut st = ChaChaState::<QuadState>::next_four(ChaChaState::from_words(xs));
    permute(&mut st, (rounds / 2) as usize);
    let r = [st.lane_block(0), st.lane_block(1), st.lane_block(2), st.lane_block(3)];
    assert(r[0]@ == st.lane_words(0));
    assert(r[1]@ == st.lane_words(1));
    assert(r[2]@ == st.lane_words(2));
    assert(r[3]@ == st.lane_words(3));
    r
}

} // verus!
