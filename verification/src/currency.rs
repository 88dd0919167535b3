//! Amounts of money.

use vstd::prelude::*;

use crate::decimal::Decimal;
use crate::time::Date;

verus! {

/// An amount of money in a currency.
#[derive(Debug, Clone, Copy, PartialEq, Eq)]
pub struct Cash {
    pub currency: &'static str,
    pub amount: Decimal,
}

/// Money that was put on an account, or taken from it where the amount is negative.
#[derive(Debug, Clone, Copy, PartialEq, Eq)]
pub struct CashAssets {
    pub date: Date,
    pub cash: Cash,
}

impl Cash {
    /// The same amount with the other sign.
    pub open spec fn opposite(self) -> Cash {
        Cash { currency: self.currency, amount: self.amount.opposite() }
    }

    /// The amount, a space and the currency.
    pub open spec fn notation(self) -> Seq<char> {
        self.amount.notation() + seq![' '] + self.currency@
    }

    pub fn new(currency: &'static str, amount: Decimal) -> (r: Cash)
        ensures
            r == (Cash { currency, amount }),
    {
        Cash { currency, amount }
    }

    pub fn is_zero(self) -> (r: bool)
        ensures
            r == (self.amount.signed() == 0),
    {
        self.amount.is_zero()
    }

    pub fn is_positive(self) -> (r: bool)
        ensures
            r == (self.amount.signed() > 0),
    {
        self.amount.is_sign_positive() && !self.amount.is_zero()
    }

    /// The same amount with the other sign.
    pub fn negate(self) -> (r: Cash)
        ensures
            r == self.opposite(),
    {
        Cash { currency: self.currency, amount: self.amount.negate() }
    }

    /// Appends the amount, a space and the currency.
    pub fn push_to(self, out: &mut String)
        ensures
            final(out)@ == old(out)@ + self.notation(),
    {
        let ghost start = out@;
        self.amount.push_to(out);
        out.push(' ');
        out.append(self.currency);
        assert(out@ =~= start + self.notation());
    }
}

} // verus!
