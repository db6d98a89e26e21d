//! Widths in bits, and how many 64-bit words a packed array needs.

use vstd::prelude::*;
use vstd::arithmetic::power2::pow2;
use vstd::arithmetic::power2::lemma_pow2_unfold;
use vstd::arithmetic::power2::lemma_pow2_pos;
use vstd::arithmetic::power2::lemma2_to64;

verus! {

/// The number of binary digits of `n`: zero for zero, and for any other
/// number one more than the width of its half.
pub open spec fn spec_bit_width(n: nat) -> nat
    decreases n,
{
    if n == 0 {
        0
    } else {
        1 + spec_bit_width(n / 2)
    }
}

/// A number below `2^k` has at most `k` binary digits.
pub proof fn lemma_bit_width_at_most(n: nat, k: nat)
    requires
        n < pow2(k),
    ensures
        spec_bit_width(n) <= k,
    decreases n,
{
    if n != 0 {
        if k == 0 {
            lemma2_to64();
        } else {
            lemma_pow2_unfold(k);
            lemma_bit_width_at_most(n / 2, (k - 1) as nat);
        }
    }
}

/// Every number is below two to the power of its own width.
pub proof fn lemma_below_pow2_of_bit_width(n: nat)
    ensures
        n < pow2(spec_bit_width(n)),
    decreases n,
{
    if n == 0 {
        lemma_pow2_pos(0);
    } else {
        lemma_below_pow2_of_bit_width(n / 2);
        lemma_pow2_unfold(spec_bit_width(n));
    }
}

/// The number of binary digits needed to write `n`.
pub fn bit_width(n: usize) -> (width: usize)
    ensures
        width == spec_bit_width(n as nat),
        width <= 64,
{
    let mut rest: usize = n;
    let mut width: usize = 0;
    proof {
        lemma2_to64();
        lemma_bit_width_at_most(n as nat, 64);
    }
    while rest > 0
        invariant
            width + spec_bit_width(rest as nat) == spec_bit_width(n as nat),
            spec_bit_width(n as nat) <= 64,
        decreases rest,
    {
        rest = rest / 2;
        width = width + 1;
    }
    width
}

/// How many values of `bits_per_val` bits fit into one 64-bit word when no
/// value may straddle two words.
pub open spec fn spec_vals_per_word(bits_per_val: nat) -> nat
    recommends
        1 <= bits_per_val <= 64,
{
    64nat / bits_per_val
}

/// The number of 64-bit words that hold `vals_count` values of
/// `bits_per_val` bits each: the count divided by the values per word,
/// rounded up.
pub open spec fn spec_compact_u64s_len(vals_count: nat, bits_per_val: nat) -> nat
    recommends
        1 <= bits_per_val <= 64,
{
    let per_word = spec_vals_per_word(bits_per_val);
    (vals_count + per_word - 1) as nat / per_word
}

/// The number of 64-bit words that hold `vals_count` packed values.
pub fn compact_u64s_len(vals_count: usize, bits_per_val: usize) -> (len: usize)
    requires
        1 <= bits_per_val <= 64,
    ensures
        len == spec_compact_u64s_len(vals_count as nat, bits_per_val as nat),
        len <= vals_count,
{
    let per_word: usize = 64 / bits_per_val;
    assert(1 <= per_word <= 64) by (nonlinear_arith)
        requires
            per_word == 64usize / bits_per_val,
            1 <= bits_per_val <= 64,
    ;
    let whole: usize = vals_count / per_word;
    assert(vals_count % per_word != 0 ==> whole < vals_count) by (nonlinear_arith)
        requires
            1 <= per_word,
            whole == vals_count / per_word,
    ;
    let len: usize = if vals_count % per_word == 0 {
        whole
    } else {
        whole + 1
    };
    assert(len == (vals_count + per_word - 1) / (per_word as int) && len <= vals_count)
        by (nonlinear_arith)
        requires
            1 <= per_word,
            whole == vals_count / per_word,
            vals_count % per_word == 0 ==> len == whole,
            vals_count % per_word != 0 ==> len == whole + 1,
    ;
    len
}

} // verus!
