//! Bit vectors of fixed capacity: the buttons of a device that are
//! pressed, or that changed, one position for each button.

use std::ops::BitXor;
use vstd::prelude::*;
use vstd::std_specs::ops::BitXorSpecImpl;

verus! {

/// Whether bit `i` of `x` is one.
pub open spec fn bit_at(x: u128, i: nat) -> bool {
    i < 128 && (x >> (i as u128)) & 1 == 1
}

/// The lowest `n` bits of `x`, bit 0 first.
pub open spec fn low_bits(x: u128, n: nat) -> Seq<bool> {
    Seq::new(n, |i: int| bit_at(x, i as nat))
}

/// Number of `true` entries of `s`.
pub open spec fn count_true(s: Seq<bool>) -> nat
    decreases s.len(),
{
    if s.len() == 0 {
        0
    } else {
        count_true(s.drop_last()) + if s.last() {
            1nat
        } else {
            0nat
        }
    }
}

/// Calls `u32::count_ones` of std, which returns the number of ones in the
/// binary representation of its argument: as many as its 32 bits hold.
#[verifier::external_body]
fn ones_u32(x: u32) -> (r: u32)
    ensures
        r == count_true(low_bits(x as u128, 32)),
{
    x.count_ones()
}

/// Calls `u64::count_ones` of std, which returns the number of ones in the
/// binary representation of its argument: as many as its 64 bits hold.
#[verifier::external_body]
fn ones_u64(x: u64) -> (r: u32)
    ensures
        r == count_true(low_bits(x as u128, 64)),
{
    x.count_ones()
}

/// Calls `u128::count_ones` of std, which returns the number of ones in the
/// binary representation of its argument: as many as its 128 bits hold.
#[verifier::external_body]
fn ones_u128(x: u128) -> (r: u32)
    ensures
        r == count_true(low_bits(x, 128)),
{
    x.count_ones()
}

/// The positions at which `a` and `b` disagree, over the length of `a`.
pub open spec fn difference(a: Seq<bool>, b: Seq<bool>) -> Seq<bool> {
    Seq::new(a.len(), |i: int| a[i] != b[i])
}

/// A bit vector of fixed capacity `CAP`. Positions run from 0 to `CAP - 1`.
pub trait Bits: Sized + BitXor<Output = Self> + Default {
    const CAP: usize;

    /// The value of every position, position 0 first.
    spec fn bits(&self) -> Seq<bool>;

    /// A vector has exactly `CAP` positions.
    proof fn lemma_capacity(&self)
        ensures
            self.bits().len() == Self::CAP,
    ;

    /// The vector without any one.
    fn empty() -> (r: Self)
        ensures
            r.bits() == Seq::new(Self::CAP as nat, |i: int| false),
    ;

    /// Whether position `pos` holds a one; nothing for a position the
    /// vector does not have.
    fn bit(&self, pos: usize) -> (r: Option<bool>)
        ensures
            r == (if pos < Self::CAP {
                Some(self.bits()[pos as int])
            } else {
                None
            }),
    ;

    /// Puts a one at position `pos` and leaves the other positions as they
    /// are. Returns whether the vector has the position; if it has not,
    /// the vector stays as it is.
    fn set(&mut self, pos: usize) -> (ok: bool)
        ensures
            ok == (pos < Self::CAP),
            ok ==> final(self).bits() == old(self).bits().update(pos as int, true),
            !ok ==> *final(self) == *old(self),
    ;

    /// The number of positions that hold a one.
    fn count_ones(&self) -> (n: u32)
        ensures
            n == count_true(self.bits()),
    ;

    /// The bitwise difference: a one at every position at which the two
    /// vectors disagree.
    fn xor(self, rhs: Self) -> (r: Self)
        ensures
            r.bits() == difference(self.bits(), rhs.bits()),
    ;
}

/// A sequence without a `true` entry counts none.
pub proof fn lemma_count_all_false(s: Seq<bool>)
    requires
        forall|i: int| 0 <= i < s.len() ==> !s[i],
    ensures
        count_true(s) == 0,
    decreases s.len(),
{
    if s.len() > 0 {
        lemma_count_all_false(s.drop_last());
    }
}

/// A sequence has at most as many `true` entries as it has entries.
pub proof fn lemma_count_bound(s: Seq<bool>)
    ensures
        count_true(s) <= s.len(),
    decreases s.len(),
{
    if s.len() > 0 {
        lemma_count_bound(s.drop_last());
    }
}

/// The difference of two vectors holds a one exactly where they disagree,
/// and the difference of a vector with itself has population count zero.
pub proof fn lemma_xor<B: Bits>(a: B, b: B)
    ensures
        difference(a.bits(), b.bits()).len() == B::CAP,
        forall|i: int|
            0 <= i < B::CAP ==> difference(a.bits(), b.bits())[i] == (a.bits()[i] != b.bits()[i]),
        count_true(difference(a.bits(), a.bits())) == 0,
{
    a.lemma_capacity();
    lemma_count_all_false(difference(a.bits(), a.bits()));
}

proof fn lemma_test_u32(v: u32, p: u32)
    by (bit_vector)
    requires
        p < 32,
    ensures
        ((v & (1u32 << p)) != 0) == ((((v as u128) >> (p as u128)) & 1u128) == 1u128),
{
}

proof fn lemma_set_u32(v: u32, p: u32, i: u32)
    by (bit_vector)
    requires
        p < 32,
        i < 32,
    ensures
        (((((v | (1u32 << p)) as u128) >> (i as u128)) & 1u128) == 1u128) == ((((v as u128) >> (
        i as u128)) & 1u128) == 1u128 || i == p),
{
}

proof fn lemma_xor_u32(a: u32, b: u32, i: u32)
    by (bit_vector)
    requires
        i < 32,
    ensures
        (((((a ^ b) as u128) >> (i as u128)) & 1u128) == 1u128) == (((((a as u128) >> (
        i as u128)) & 1u128) == 1u128) != ((((b as u128) >> (i as u128)) & 1u128) == 1u128)),
{
}

proof fn lemma_zero_bit(i: u128)
    by (bit_vector)
    requires
        i < 128,
    ensures
        ((0u128 >> i) & 1u128) != 1u128,
{
}

impl Bits for u32 {
    const CAP: usize = 32;

    open spec fn bits(&self) -> Seq<bool> {
        low_bits(*self as u128, 32)
    }

    proof fn lemma_capacity(&self) {
    }

    fn empty() -> (r: Self) {
        assert forall|i: int| 0 <= i < 32 implies !(#[trigger] 0u32.bits()[i]) by {
            lemma_zero_bit(i as u128);
        }
        assert(0u32.bits() =~= Seq::new(32, |i: int| false));
        0
    }

    fn bit(&self, pos: usize) -> (r: Option<bool>) {
        if pos >= Self::CAP {
            return None;
        }
        let p: u32 = pos as u32;
        proof {
            lemma_test_u32(*self, p);
        }
        Some((*self & (1u32 << p)) != 0)
    }

    fn set(&mut self, pos: usize) -> (ok: bool) {
        if pos >= Self::CAP {
            return false;
        }
        let p: u32 = pos as u32;
        let ghost before: u32 = *self;
        *self = *self | (1u32 << p);
        assert forall|i: int| 0 <= i < 32 implies #[trigger] self.bits()[i] == before.bits().update(
            pos as int,
            true,
        )[i] by {
            lemma_set_u32(before, p, i as u32);
        }
        assert(self.bits() =~= before.bits().update(pos as int, true));
        true
    }

    fn count_ones(&self) -> (n: u32) {
        ones_u32(*self)
    }

    fn xor(self, rhs: Self) -> (r: Self) {
        let r = self ^ rhs;
        assert forall|i: int| 0 <= i < 32 implies #[trigger] r.bits()[i] == difference(
            self.bits(),
            rhs.bits(),
        )[i] by {
            lemma_xor_u32(self, rhs, i as u32);
        }
        assert(r.bits() =~= difference(self.bits(), rhs.bits()));
        r
    }
}

proof fn lemma_test_u64(v: u64, p: u64)
    by (bit_vector)
    requires
        p < 64,
    ensures
        ((v & (1u64 << p)) != 0) == ((((v as u128) >> (p as u128)) & 1u128) == 1u128),
{
}

proof fn lemma_set_u64(v: u64, p: u64, i: u64)
    by (bit_vector)
    requires
        p < 64,
        i < 64,
    ensures
        (((((v | (1u64 << p)) as u128) >> (i as u128)) & 1u128) == 1u128) == ((((v as u128) >> (
        i as u128)) & 1u128) == 1u128 || i == p),
{
}

proof fn lemma_xor_u64(a: u64, b: u64, i: u64)
    by (bit_vector)
    requires
        i < 64,
    ensures
        (((((a ^ b) as u128) >> (i as u128)) & 1u128) == 1u128) == (((((a as u128) >> (
        i as u128)) & 1u128) == 1u128) != ((((b as u128) >> (i as u128)) & 1u128) == 1u128)),
{
}

impl Bits for u64 {
    const CAP: usize = 64;

    open spec fn bits(&self) -> Seq<bool> {
        low_bits(*self as u128, 64)
    }

    proof fn lemma_capacity(&self) {
    }

    fn empty() -> (r: Self) {
        assert forall|i: int| 0 <= i < 64 implies !(#[trigger] 0u64.bits()[i]) by {
            lemma_zero_bit(i as u128);
        }
        assert(0u64.bits() =~= Seq::new(64, |i: int| false));
        0
    }

    fn bit(&self, pos: usize) -> (r: Option<bool>) {
        if pos >= Self::CAP {
            return None;
        }
        let p: u64 = pos as u64;
        proof {
            lemma_test_u64(*self, p);
        }
        Some((*self & (1u64 << p)) != 0)
    }

    fn set(&mut self, pos: usize) -> (ok: bool) {
        if pos >= Self::CAP {
            return false;
        }
        let p: u64 = pos as u64;
        let ghost before: u64 = *self;
        *self = *self | (1u64 << p);
        assert forall|i: int| 0 <= i < 64 implies #[trigger] self.bits()[i] == before.bits().update(
            pos as int,
            true,
        )[i] by {
            lemma_set_u64(before, p, i as u64);
        }
        assert(self.bits() =~= before.bits().update(pos as int, true));
        true
    }

    fn count_ones(&self) -> (n: u32) {
        ones_u64(*self)
    }

    fn xor(self, rhs: Self) -> (r: Self) {
        let r = self ^ rhs;
        assert forall|i: int| 0 <= i < 64 implies #[trigger] r.bits()[i] == difference(
            self.bits(),
            rhs.bits(),
        )[i] by {
            lemma_xor_u64(self, rhs, i as u64);
        }
        assert(r.bits() =~= difference(self.bits(), rhs.bits()));
        r
    }
}

proof fn lemma_test_u128(v: u128, p: u128)
    by (bit_vector)
    requires
        p < 128,
    ensures
        ((v & (1u128 << p)) != 0) == (((v >> p) & 1u128) == 1u128),
{
}

proof fn lemma_set_u128(v: u128, p: u128, i: u128)
    by (bit_vector)
    requires
        p < 128,
        i < 128,
    ensures
        ((((v | (1u128 << p)) >> i) & 1u128) == 1u128) == (((v >> i) & 1u128) == 1u128 || i == p),
{
}

proof fn lemma_xor_u128(a: u128, b: u128, i: u128)
    by (bit_vector)
    requires
        i < 128,
    ensures
        ((((a ^ b) >> i) & 1u128) == 1u128) == ((((a >> i) & 1u128) == 1u128) != (((b >> i)
            & 1u128) == 1u128)),
{
}

impl Bits for u128 {
    const CAP: usize = 128;

    open spec fn bits(&self) -> Seq<bool> {
        low_bits(*self, 128)
    }

    proof fn lemma_capacity(&self) {
    }

    fn empty() -> (r: Self) {
        assert forall|i: int| 0 <= i < 128 implies !(#[trigger] 0u128.bits()[i]) by {
            lemma_zero_bit(i as u128);
        }
        assert(0u128.bits() =~= Seq::new(128, |i: int| false));
        0
    }

    fn bit(&self, pos: usize) -> (r: Option<bool>) {
        if pos >= Self::CAP {
            return None;
        }
        let p: u128 = pos as u128;
        proof {
            lemma_test_u128(*self, p);
        }
        Some((*self & (1u128 << p)) != 0)
    }

    fn set(&mut self, pos: usize) -> (ok: bool) {
        if pos >= Self::CAP {
            return false;
        }
        let p: u128 = pos as u128;
        let ghost before: u128 = *self;
        *self = *self | (1u128 << p);
        assert forall|i: int| 0 <= i < 128 implies #[trigger] self.bits()[i]
            == before.bits().update(pos as int, true)[i] by {
            lemma_set_u128(before, p, i as u128);
        }
        assert(self.bits() =~= before.bits().update(pos as int, true));
        true
    }

    fn count_ones(&self) -> (n: u32) {
        ones_u128(*self)
    }

    fn xor(self, rhs: Self) -> (r: Self) {
        let r = self ^ rhs;
        assert forall|i: int| 0 <= i < 128 implies #[trigger] r.bits()[i] == difference(
            self.bits(),
            rhs.bits(),
        )[i] by {
            lemma_xor_u128(self, rhs, i as u128);
        }
        assert(r.bits() =~= difference(self.bits(), rhs.bits()));
        r
    }
}

/// A bit vector of 256 positions, held as two limbs of 128 bits.
/// Positions below 128 are in the low limb.
#[derive(Debug, Default)]
pub struct B256([u128; 2]);

impl B256 {
    /// The low and the high limb.
    pub closed spec fn limbs(self) -> (u128, u128) {
        (self.0[0], self.0[1])
    }

    /// The vector whose positions 0 to 127 are the bits of `low` and whose
    /// positions 128 to 255 are the bits of `high`.
    pub fn from_limbs(low: u128, high: u128) -> (r: Self)
        ensures
            r.limbs() == (low, high),
    {
        B256([low, high])
    }

    pub fn to_limbs(&self) -> (r: (u128, u128))
        ensures
            r == self.limbs(),
    {
        (self.0[0], self.0[1])
    }
}

impl BitXor for B256 {
    type Output = Self;

    fn bitxor(self, rhs: Self) -> (r: Self)
        ensures
            r.limbs() == (self.limbs().0 ^ rhs.limbs().0, self.limbs().1 ^ rhs.limbs().1),
            r.bits() == difference(self.bits(), rhs.bits()),
    {
        let r = B256([self.0[0] ^ rhs.0[0], self.0[1] ^ rhs.0[1]]);
        assert forall|i: int| 0 <= i < 256 implies #[trigger] r.bits()[i] == difference(
            self.bits(),
            rhs.bits(),
        )[i] by {
            if i < 128 {
                lemma_xor_u128(self.0[0], rhs.0[0], i as u128);
            } else {
                lemma_xor_u128(self.0[1], rhs.0[1], (i - 128) as u128);
            }
        }
        assert(r.bits() =~= difference(self.bits(), rhs.bits()));
        r
    }
}

impl BitXorSpecImpl for B256 {
    open spec fn obeys_bitxor_spec() -> bool {
        true
    }

    open spec fn bitxor_req(self, rhs: Self) -> bool {
        true
    }

    closed spec fn bitxor_spec(self, rhs: Self) -> Self {
        B256([self.0[0] ^ rhs.0[0], self.0[1] ^ rhs.0[1]])
    }
}

proof fn lemma_count_concat(a: Seq<bool>, b: Seq<bool>)
    ensures
        count_true(a + b) == count_true(a) + count_true(b),
    decreases b.len(),
{
    if b.len() == 0 {
        assert(a + b =~= a);
    } else {
        lemma_count_concat(a, b.drop_last());
        assert((a + b).drop_last() =~= a + b.drop_last());
    }
}

impl Bits for B256 {
    const CAP: usize = 256;

    open spec fn bits(&self) -> Seq<bool> {
        low_bits(self.limbs().0, 128) + low_bits(self.limbs().1, 128)
    }

    proof fn lemma_capacity(&self) {
    }

    fn empty() -> (r: Self) {
        let r = B256([0, 0]);
        assert forall|i: int| 0 <= i < 256 implies !(#[trigger] r.bits()[i]) by {
            if i < 128 {
                lemma_zero_bit(i as u128);
            } else {
                lemma_zero_bit((i - 128) as u128);
            }
        }
        assert(r.bits() =~= Seq::new(256, |i: int| false));
        r
    }

    fn bit(&self, pos: usize) -> (r: Option<bool>) {
        if pos >= Self::CAP {
            return None;
        }
        if pos < 128 {
            self.0[0].bit(pos)
        } else {
            self.0[1].bit(pos - 128)
        }
    }

    fn set(&mut self, pos: usize) -> (ok: bool) {
        if pos >= Self::CAP {
            return false;
        }
        let ghost before = *self;
        let mut low: u128 = self.0[0];
        let mut high: u128 = self.0[1];
        if pos < 128 {
            low.set(pos);
        } else {
            high.set(pos - 128);
        }
        *self = B256([low, high]);
        assert(self.bits() =~= before.bits().update(pos as int, true));
        true
    }

    fn count_ones(&self) -> (n: u32) {
        proof {
            lemma_count_concat(low_bits(self.limbs().0, 128), low_bits(self.limbs().1, 128));
            lemma_count_bound(low_bits(self.limbs().0, 128));
            lemma_count_bound(low_bits(self.limbs().1, 128));
        }
        let low: u32 = Bits::count_ones(&self.0[0]);
        let high: u32 = Bits::count_ones(&self.0[1]);
        low + high
    }

    fn xor(self, rhs: Self) -> (r: Self) {
        self ^ rhs
    }
}

/// The capacities of the bit vectors of this module.
pub proof fn lemma_capacities()
    ensures
        <u32 as Bits>::CAP == 32,
        <u64 as Bits>::CAP == 64,
        <u128 as Bits>::CAP == 128,
        <B256 as Bits>::CAP == 256,
{
}

} // verus!
