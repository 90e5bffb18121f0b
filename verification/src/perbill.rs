//! Parts per billion, and the share of a balance that they stand for.

use crate::types::Balance;
use vstd::prelude::*;

verus! {

/// The number of parts that make a whole.
pub const BILLION: u32 = 1_000_000_000;

/// `amount * parts / BILLION`, rounded to the nearest integer, and down where
/// two are equally near.
pub open spec fn per_billion_of(parts: nat, amount: nat) -> nat {
    let product = amount * parts;
    if product % (BILLION as nat) > (BILLION / 2) as nat {
        product / (BILLION as nat) + 1
    } else {
        product / (BILLION as nat)
    }
}

/// A share never exceeds the amount it is taken of.
pub proof fn lemma_per_billion_of_bounded(parts: nat, amount: nat)
    requires
        parts <= BILLION,
    ensures
        per_billion_of(parts, amount) <= amount,
{
    let b = BILLION as int;
    let product = (amount * parts) as int;
    assert(product <= amount * b) by (nonlinear_arith)
        requires
            product == amount * parts,
            parts <= b,
            0 <= amount,
    ;
    vstd::arithmetic::div_mod::lemma_fundamental_div_mod(product, b);
    let q = product / b;
    let r = product % b;
    assert(product == b * q + r);
    assert(0 <= r < b);
    if q >= amount {
        assert(b * q >= b * amount) by (nonlinear_arith)
            requires
                q >= amount,
                b > 0,
        ;
        assert(amount * b == b * amount) by (nonlinear_arith);
        assert(r == 0);
        assert(q == amount);
    }
}

/// The whole and nothing: a billion parts of an amount are the amount, and no
/// part of it is zero.
pub proof fn lemma_per_billion_of_ends(amount: nat)
    ensures
        per_billion_of(BILLION as nat, amount) == amount,
        per_billion_of(0, amount) == 0,
{
    let b = BILLION as int;
    vstd::arithmetic::div_mod::lemma_div_multiples_vanish(amount as int, b);
    vstd::arithmetic::div_mod::lemma_mod_multiples_basic(amount as int, b);
    assert(amount * 0 == 0) by (nonlinear_arith);
}

/// A fraction between nothing and the whole, in parts per billion.
#[derive(Clone, Copy, Debug, PartialEq, Eq)]
pub struct Perbill {
    parts: u32,
}

impl Perbill {
    /// The number of parts per billion.
    pub closed spec fn parts(self) -> nat {
        self.parts as nat
    }

    /// A fraction has no more than a billion parts.
    #[verifier::type_invariant]
    pub open spec fn within_whole(self) -> bool {
        self.parts() <= BILLION
    }

    /// The fraction of `parts` per billion; more than a billion parts count as
    /// the whole.
    pub fn from_parts(parts: u32) -> (p: Perbill)
        ensures
            p.parts() == if parts <= BILLION { parts } else { BILLION },
    {
        if parts <= BILLION {
            Perbill { parts }
        } else {
            Perbill { parts: BILLION }
        }
    }

    /// The fraction of `x` per cent; more than a hundred per cent count as the
    /// whole.
    pub fn from_percent(x: u32) -> (p: Perbill)
        ensures
            p.parts() == (if x <= 100 { x } else { 100 }) * 10_000_000,
    {
        let capped: u32 = if x <= 100 { x } else { 100 };
        Perbill { parts: capped * 10_000_000 }
    }

    /// The number of parts per billion.
    pub fn deconstruct(self) -> (parts: u32)
        ensures
            parts == self.parts(),
            parts <= BILLION,
    {
        proof {
            use_type_invariant(&self);
        }
        self.parts
    }

    /// This fraction of `amount`, rounded to the nearest unit, and down where
    /// two are equally near.
    pub fn of(self, amount: Balance) -> (share: Balance)
        ensures
            share == per_billion_of(self.parts(), amount as nat),
            share <= amount,
    {
        proof {
            use_type_invariant(&self);
            lemma_per_billion_of_bounded(self.parts(), amount as nat);
        }
        perbill_mul(self.parts, amount)
    }
}

/// `sp_runtime::Perbill::from_parts` and the product of a `Perbill` with a
/// balance. For no more than a billion parts, `from_parts` keeps them as they
/// are, and the product is the balance times the parts over a billion, computed
/// without overflow and rounded to the nearest integer, down on a tie.
#[verifier::external_body]
fn perbill_mul(parts: u32, amount: Balance) -> (share: Balance)
    requires
        parts <= BILLION,
    ensures
        share == per_billion_of(parts as nat, amount as nat),
{
    sp_runtime::Perbill::from_parts(parts) * amount
}

} // verus!
