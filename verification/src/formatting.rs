//! How dates are written.

use vstd::prelude::*;

use crate::text;
use crate::time::Date;

verus! {

/// A date in the form `DD.MM.YYYY`.
pub open spec fn date_text(date: Date) -> Seq<char> {
    text::padded_digits(date.day as nat, 2) + seq!['.'] + text::padded_digits(date.month as nat, 2)
        + seq!['.'] + text::padded_digits(date.year as nat, 4)
}

/// Writes a date in the form `DD.MM.YYYY`.
pub fn format_date(date: Date) -> (r: String)
    ensures
        r@ == date_text(date),
{
    let mut r = String::new();
    text::push_padded(&mut r, date.day as u128, 2);
    r.push('.');
    text::push_padded(&mut r, date.month as u128, 2);
    r.push('.');
    text::push_padded(&mut r, date.year as u128, 4);
    assert(r@ =~= date_text(date));
    r
}

} // verus!
