//! The rule table: the six low bits of a rule order, one per neighbourhood sum.

use vstd::prelude::*;

verus! {

use vstd::arithmetic::power2::pow2;
use vstd::bits::lemma_u32_shr_is_div;

/// Number of entries in a rule table: one per possible neighbourhood sum.
pub const RULE_LEN: usize = 6;

/// Entry `s` of the rule table of `order`: bit `s` of `order`, that is
/// `(order / 2^s) mod 2`.
pub open spec fn rule_bit(order: u32, s: int) -> u8 {
    ((order as nat / pow2(s as nat)) % 2) as u8
}

/// The rule table of `order`: its six low bits, least significant first.
pub open spec fn rule_seq(order: u32) -> Seq<u8> {
    Seq::new(RULE_LEN as nat, |s: int| rule_bit(order, s))
}

/// Each entry of the rule table is bit `s` of `order` read by shift and mask.
pub proof fn lemma_rule_bit_is_shift_mask(order: u32, s: u32)
    requires
        s < RULE_LEN,
    ensures
        rule_seq(order)[s as int] as u32 == (order >> s) & 1,
{
    lemma_u32_shr_is_div(order, s);
    let t = order >> s;
    assert(t & 1 == t % 2) by (bit_vector);
}

/// Builds the rule table of `order`, one entry for each neighbourhood sum
/// in `0..=5`.
pub fn rule_table(order: u32) -> (r: Vec<u8>)
    ensures
        r@ == rule_seq(order),
{
    let mut rule: Vec<u8> = Vec::new();
    let mut s: u32 = 0;
    while s < 6
        invariant
            s <= 6,
            rule@.len() == s,
            forall|k: int| 0 <= k < s ==> rule@[k] == rule_bit(order, k),
        decreases 6 - s,
    {
        let bit = (order >> s) & 1;
        proof {
            lemma_u32_shr_is_div(order, s);
            let t = order >> s;
            assert(t & 1 == t % 2) by (bit_vector);
        }
        rule.push(bit as u8);
        s = s + 1;
    }
    assert(rule@ =~= rule_seq(order));
    rule
}

} // verus!
