//! Lane values: the 32-bit words that the mixing function adds, xors and
//! rotates, either one at a time or four in lockstep.
use vstd::prelude::*;

verus! {

/// Addition modulo 2^32.
pub open spec fn add_mod(x: u32, y: u32) -> u32 {
    ((x + y) % 0x1_0000_0000) as u32
}

/// Circular left rotation of the 32 bits of `x` by `n` positions, `1 <= n <= 31`.
pub open spec fn rotl(x: u32, n: u32) -> u32 {
    (x << n) | (x >> (32u32 - n) as u32)
}

proof fn lemma_wrapping_add(x: u32, y: u32)
    ensures
        vstd::wrapping::u32_specs::wrapping_add(x, y) == add_mod(x, y),
{
}

/// Rotating left by `n` and then by `32 - n` gives back the word.
pub proof fn lemma_rotl_inverse(x: u32, n: u32)
    requires
        1 <= n <= 31,
    ensures
        rotl(rotl(x, n), (32 - n) as u32) == x,
{
    assert(((x << n) | (x >> (32u32 - n) as u32)) << (32u32 - n) as u32 | ((x << n) | (x >> (
    32u32 - n) as u32)) >> (32u32 - (32u32 - n) as u32) as u32 == x) by (bit_vector)
        requires
            1 <= n <= 31,
    ;
}

/// Rotates `x` left by `bit_distance` bits.
pub fn roll_left(x: u32, bit_distance: usize) -> (r: u32)
    requires
        1 <= bit_distance <= 31,
    ensures
        r == rotl(x, bit_distance as u32),
{
    let n = bit_distance as u32;
    (x << n) | (x >> (32 - n))
}

/// What a lane value offers: wrapping addition, xor and rotation, applied
/// to each of its `lane_count()` 32-bit lanes independently.
pub trait ChaChaElem: Sized {
    /// The number of independent 32-bit lanes a value carries.
    spec fn lane_count() -> nat;

    /// The word in lane `k`.
    spec fn lane(&self, k: int) -> u32;

    /// Adds `other` to `self` in each lane, modulo 2^32.
    fn increase_by(&mut self, other: &Self)
        ensures
            forall|k: int|
                0 <= k < Self::lane_count() ==> #[trigger] final(self).lane(k) == add_mod(
                    old(self).lane(k),
                    other.lane(k),
                ),
    ;

    /// Xors `other` into `self` in each lane.
    fn xor_by(&mut self, other: &Self)
        ensures
            forall|k: int|
                0 <= k < Self::lane_count() ==> #[trigger] final(self).lane(k) == old(self).lane(k)
                    ^ other.lane(k),
    ;

    /// Rotates each lane left by `amount` bits.
    fn roll_left_by(&mut self, amount: usize)
        requires
            1 <= amount <= 31,
        ensures
            forall|k: int|
                0 <= k < Self::lane_count() ==> #[trigger] final(self).lane(k) == rotl(
                    old(self).lane(k),
                    amount as u32,
                ),
    ;
}

impl ChaChaElem for u32 {
    open spec fn lane_count() -> nat {
        1
    }

    open spec fn lane(&self, k: int) -> u32 {
        *self
    }

    fn increase_by(&mut self, other: &u32)
        ensures
            *final(self) == add_mod(*old(self), *other),
    {
        proof {
            lemma_wrapping_add(*self, *other);
        }
        *self = self.wrapping_add(*other);
    }

    fn xor_by(&mut self, other: &u32)
        ensures
            *final(self) == *old(self) ^ *other,
    {
        *self = *self ^ *other;
    }

    fn roll_left_by(&mut self, amount: usize)
        ensures
            *final(self) == rotl(*old(self), amount as u32),
    {
        *self = roll_left(*self, amount);
    }
}

/// Four independent 32-bit lanes, one per block of a four-block batch.
#[derive(Clone, Copy, Debug, PartialEq, Eq, Structural)]
pub struct QuadState(pub u32, pub u32, pub u32, pub u32);

impl QuadState {
    /// The same word in all four lanes.
    pub fn dup(x: u32) -> (r: QuadState)
        ensures
            r == QuadState(x, x, x, x),
    {
        QuadState(x, x, x, x)
    }

    /// The word in lane `k`.
    pub fn get(&self, k: usize) -> (r: u32)
        requires
            k < 4,
        ensures
            r == self.lane(k as int),
    {
        if k == 0 {
            self.0
        } else if k == 1 {
            self.1
        } else if k == 2 {
            self.2
        } else {
            self.3
        }
    }
}

impl ChaChaElem for QuadState {
    open spec fn lane_count() -> nat {
        4
    }

    open spec fn lane(&self, k: int) -> u32 {
        if k == 0 {
            self.0
        } else if k == 1 {
            self.1
        } else if k == 2 {
            self.2
        } else {
            self.3
        }
    }

    fn increase_by(&mut self, other: &QuadState)
        ensures
            *final(self) == QuadState(
                add_mod(old(self).0, other.0),
                add_mod(old(self).1, other.1),
                add_mod(old(self).2, other.2),
                add_mod(old(self).3, other.3),
            ),
    {
        proof {
            lemma_wrapping_add(self.0, other.0);
            lemma_wrapping_add(self.1, other.1);
            lemma_wrapping_add(self.2, other.2);
            lemma_wrapping_add(self.3, other.3);
        }
        self.0 = self.0.wrapping_add(other.0);
        self.1 = self.1.wrapping_add(other.1);
        self.2 = self.2.wrapping_add(other.2);
        self.3 = self.3.wrapping_add(other.3);
    }

    fn xor_by(&mut self, other: &QuadState)
        ensures
            *final(self) == QuadState(
                old(self).0 ^ other.0,
                old(self).1 ^ other.1,
                old(self).2 ^ other.2,
                old(self).3 ^ other.3,
            ),
    {
        self.0 = self.0 ^ other.0;
        self.1 = self.1 ^ other.1;
        self.2 = self.2 ^ other.2;
        self.3 = self.3 ^ other.3;
    }

    fn roll_left_by(&mut self, amount: usize)
        ensures
            ({
                let n = amount as u32;
                *final(self) == QuadState(
                    rotl(old(self).0, n),
                    rotl(old(self).1, n),
                    rotl(old(self).2, n),
                    rotl(old(self).3, n),
                )
            }),
    {
        self.0 = roll_left(self.0, amount);
        self.1 = roll_left(self.1, amount);
        self.2 = roll_left(self.2, amount);
        self.3 = roll_left(self.3, amount);
    }
}

} // verus!
