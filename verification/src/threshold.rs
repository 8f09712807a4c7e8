//! The batch threshold policy: the ledger size that triggers the next flush,
//! drawn anew from the entropy generator after every flush.

use vstd::prelude::*;
use vstd::arithmetic::div_mod::{lemma_fundamental_div_mod, lemma_mod_multiples_vanish};

verus! {

/// The number that a byte string spells, most significant byte first.
pub open spec fn be_value(r: Seq<u8>) -> nat
    decreases r.len(),
{
    if r.len() == 0 {
        0
    } else {
        be_value(r.drop_last()) * 256 + r.last() as nat
    }
}

/// The threshold that the draw `r` selects between the two bounds.
pub open spec fn threshold_for(min_stack: u8, max_stack: u8, r: Seq<u8>) -> int {
    min_stack + (be_value(r) % ((max_stack - min_stack + 1) as nat))
}

/// The value nearest to `t` within the two bounds.
pub open spec fn clamped(t: u8, min_stack: u8, max_stack: u8) -> u8 {
    if t < min_stack {
        min_stack
    } else if t > max_stack {
        max_stack
    } else {
        t
    }
}

proof fn lemma_mod_step(x: nat, b: nat, n: nat)
    requires
        n > 0,
    ensures
        (x * 256 + b) % n == ((x % n) * 256 + b) % n,
{
    let q = x as int / n as int;
    let m = x as int % n as int;
    lemma_fundamental_div_mod(x as int, n as int);
    assert(x * 256 + b == n * (q * 256) + (m * 256 + b)) by (nonlinear_arith)
        requires
            x == n * q + m,
    ;
    lemma_mod_multiples_vanish(q * 256, m * 256 + b, n as int);
}

/// Whatever the draw, the threshold it selects lies within the bounds, and
/// equals them where they are equal.
pub proof fn threshold_within_bounds(min_stack: u8, max_stack: u8, r: Seq<u8>)
    requires
        min_stack <= max_stack,
    ensures
        min_stack <= threshold_for(min_stack, max_stack, r) <= max_stack,
        min_stack == max_stack ==> threshold_for(min_stack, max_stack, r) == min_stack,
{
    let span = (max_stack - min_stack + 1) as nat;
    let v = be_value(r);
    assert(0 <= v % span < span) by (nonlinear_arith)
        requires
            span > 0,
    ;
}

/// Selects the next threshold from a draw: `min_stack` plus the draw's value
/// modulo the number of admissible thresholds. With equal bounds the result
/// is that bound, whatever the draw.
pub fn next_threshold(min_stack: u8, max_stack: u8, r: &[u8]) -> (t: u8)
    requires
        min_stack <= max_stack,
    ensures
        t == threshold_for(min_stack, max_stack, r@),
        min_stack <= t <= max_stack,
        min_stack == max_stack ==> t == min_stack,
{
    let span: u32 = (max_stack - min_stack) as u32 + 1;
    let mut acc: u32 = 0;
    let mut i: usize = 0;
    assert(r@.take(0).len() == 0);
    assert(0nat % (span as nat) == 0) by (nonlinear_arith)
        requires
            span > 0,
    ;
    while i < r.len()
        invariant
            i <= r@.len(),
            span == max_stack - min_stack + 1,
            acc < span,
            acc == be_value(r@.take(i as int)) % (span as nat),
        decreases r@.len() - i,
    {
        proof {
            let t = r@.take(i + 1);
            assert(t.drop_last() =~= r@.take(i as int));
            assert(t.last() == r@[i as int]);
            lemma_mod_step(be_value(r@.take(i as int)), r@[i as int] as nat, span as nat);
        }
        acc = (acc * 256 + r[i] as u32) % span;
        i += 1;
    }
    assert(r@.take(r@.len() as int) =~= r@);
    min_stack + acc as u8
}

/// Moves a threshold into the two bounds.
pub fn clamp_threshold(t: u8, min_stack: u8, max_stack: u8) -> (r: u8)
    ensures
        r == clamped(t, min_stack, max_stack),
{
    if t < min_stack {
        min_stack
    } else if t > max_stack {
        max_stack
    } else {
        t
    }
}

} // verus!
