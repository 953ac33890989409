//! Unsigned integers of any size, held as big-endian base-256 digits.

use vstd::arithmetic::div_mod::lemma_fundamental_div_mod_converse;
use vstd::prelude::*;

verus! {

/// The number that a big-endian sequence of base-256 digits denotes.
pub open spec fn be_value(digits: Seq<u8>) -> nat
    decreases digits.len(),
{
    if digits.len() == 0 {
        0
    } else {
        (be_value(digits.drop_last()) * 256 + digits.last()) as nat
    }
}

/// A sequence of digits denotes zero exactly when every digit is zero.
pub proof fn lemma_be_value_zero(digits: Seq<u8>)
    ensures
        be_value(digits) == 0 <==> forall|i: int| 0 <= i < digits.len() ==> digits[i] == 0,
    decreases digits.len(),
{
    if digits.len() > 0 {
        let init = digits.drop_last();
        lemma_be_value_zero(init);
        if be_value(digits) == 0 {
            assert forall|i: int| 0 <= i < digits.len() implies digits[i] == 0 by {
                if i < digits.len() - 1 {
                    assert(init[i] == digits[i]);
                }
            }
        } else {
            if forall|i: int| 0 <= i < digits.len() ==> digits[i] == 0 {
                assert forall|i: int| 0 <= i < init.len() implies init[i] == 0 by {
                    assert(init[i] == digits[i]);
                }
                assert(digits[digits.len() - 1] == 0);
            }
        }
    }
}

/// An unsigned integer of unbounded size, the amount of a token.
#[derive(Debug)]
pub struct Amount {
    digits: Vec<u8>,
}

impl View for Amount {
    type V = nat;

    closed spec fn view(&self) -> nat {
        be_value(self.digits@)
    }
}

impl Amount {
    /// The amount that `bytes` spells out, most significant byte first.
    pub fn from_be_bytes(bytes: Vec<u8>) -> (r: Amount)
        ensures
            r@ == be_value(bytes@),
    {
        Amount { digits: bytes }
    }

    /// The digits of this amount, most significant byte first.
    pub fn to_be_bytes(&self) -> (r: Vec<u8>)
        ensures
            be_value(r@) == self@,
    {
        let mut r: Vec<u8> = Vec::new();
        let mut i: usize = 0;
        while i < self.digits.len()
            invariant
                i <= self.digits.len(),
                r@ == self.digits@.take(i as int),
            decreases self.digits.len() - i,
        {
            r.push(self.digits[i]);
            i += 1;
            assert(r@ =~= self.digits@.take(i as int));
        }
        assert(self.digits@.take(i as int) =~= self.digits@);
        r
    }

    /// Whether the amount is zero.
    pub fn is_zero(&self) -> (r: bool)
        ensures
            r == (self@ == 0),
    {
        let mut i: usize = 0;
        while i < self.digits.len()
            invariant
                i <= self.digits.len(),
                forall|j: int| 0 <= j < i ==> self.digits@[j] == 0,
            decreases self.digits.len() - i,
        {
            if self.digits[i] != 0 {
                proof {
                    lemma_be_value_zero(self.digits@);
                    assert(self.digits@[i as int] != 0);
                }
                return false;
            }
            i += 1;
        }
        proof {
            lemma_be_value_zero(self.digits@);
        }
        true
    }

    /// The quotient of this amount by `d`, rounded down.
    pub fn div_small(&self, d: u8) -> (r: Amount)
        requires
            d > 0,
        ensures
            r@ == self@ / (d as nat),
    {
        let ghost s = self.digits@;
        let mut q: Vec<u8> = Vec::new();
        let mut rem: u8 = 0;
        let mut i: usize = 0;
        proof {
            assert(s.take(0) =~= Seq::<u8>::empty());
            assert(q@ =~= Seq::<u8>::empty());
            assert(d * be_value(q@) == 0) by (nonlinear_arith)
                requires
                    be_value(q@) == 0,
            ;
        }
        while i < self.digits.len()
            invariant
                s == self.digits@,
                d > 0,
                i <= s.len(),
                rem < d,
                be_value(s.take(i as int)) == d * be_value(q@) + rem,
            decreases s.len() - i,
        {
            let cur: u16 = (rem as u16) * 256 + (self.digits[i] as u16);
            let qi: u16 = cur / (d as u16);
            let ri: u16 = cur % (d as u16);
            proof {
                assert(qi < 256) by (nonlinear_arith)
                    requires
                        cur == rem * 256 + s[i as int],
                        s[i as int] < 256,
                        rem < d,
                        qi == cur / (d as u16),
                        d > 0,
                ;
            }
            let ghost q_old = q@;
            let ghost rem_old = rem;
            q.push(qi as u8);
            rem = ri as u8;
            proof {
                assert(s.take(i + 1).drop_last() =~= s.take(i as int));
                assert(q@.drop_last() =~= q_old);
                let v = be_value(q_old);
                assert(cur == d * qi + ri) by (nonlinear_arith)
                    requires
                        qi == cur / (d as u16),
                        ri == cur % (d as u16),
                        d > 0,
                ;
                assert(be_value(s.take(i + 1)) == d * be_value(q@) + rem) by (nonlinear_arith)
                    requires
                        be_value(s.take(i + 1)) == be_value(s.take(i as int)) * 256 + s[i as int],
                        be_value(s.take(i as int)) == d * v + rem_old,
                        be_value(q@) == v * 256 + qi,
                        cur == rem_old * 256 + s[i as int],
                        cur == d * qi + ri,
                        rem == ri,
                ;
            }
            i += 1;
        }
        proof {
            assert(s.take(i as int) =~= s);
            assert(be_value(q@) * d == d * be_value(q@)) by (nonlinear_arith);
            lemma_fundamental_div_mod_converse(
                be_value(s) as int,
                d as int,
                be_value(q@) as int,
                rem as int,
            );
        }
        Amount { digits: q }
    }
}

} // verus!
