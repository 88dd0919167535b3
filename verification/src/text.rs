//! Text as sequences of characters: decimal digits, comparison, clean-up.

use vstd::prelude::*;

verus! {

/// `String::push` appends the character to the end of the string.
pub assume_specification[ String::push ](s: &mut String, c: char)
    ensures
        final(s)@ == old(s)@.push(c),
;

pub open spec fn is_digit(c: char) -> bool {
    '0' <= c <= '9'
}

pub open spec fn digit_value(c: char) -> nat {
    (c as int - '0' as int) as nat
}

/// The character that stands for a number below ten.
pub open spec fn digit_char(d: nat) -> char {
    ('0' as int + d) as char
}

pub open spec fn all_digits(s: Seq<char>) -> bool {
    forall|i: int| 0 <= i < s.len() ==> is_digit(#[trigger] s[i])
}

/// The number that a sequence of digits denotes.
pub open spec fn digits_value(s: Seq<char>) -> nat
    decreases s.len(),
{
    if s.len() == 0 {
        0
    } else {
        10 * digits_value(s.drop_last()) + digit_value(s.last())
    }
}

/// A non-empty sequence of digits whose number does not exceed `max`.
pub open spec fn bounded_number(s: Seq<char>, max: nat) -> Option<nat> {
    if s.len() > 0 && all_digits(s) && digits_value(s) <= max {
        Some(digits_value(s))
    } else {
        None
    }
}

/// How many digits a text begins with.
pub open spec fn leading_digits(s: Seq<char>) -> nat
    decreases s.len(),
{
    if s.len() > 0 && is_digit(s[0]) {
        1 + leading_digits(s.drop_first())
    } else {
        0
    }
}

/// The decimal digits of a number, without leading zeros.
pub open spec fn number_digits(n: nat) -> Seq<char>
    decreases n,
{
    if n < 10 {
        seq![digit_char(n)]
    } else {
        number_digits(n / 10).push(digit_char(n % 10))
    }
}

pub open spec fn zeros(count: nat) -> Seq<char> {
    Seq::new(count, |i: int| '0')
}

/// The digits of a number, with zeros in front up to the width.
pub open spec fn padded_digits(n: nat, width: nat) -> Seq<char> {
    let digits = number_digits(n);
    if digits.len() < width {
        zeros((width - digits.len()) as nat) + digits
    } else {
        digits
    }
}

/// The text with every run of spaces folded into one space.
pub open spec fn folded_spaces(s: Seq<char>) -> Seq<char>
    decreases s.len(),
{
    if s.len() == 0 {
        s
    } else {
        let head = folded_spaces(s.drop_last());
        if s.last() == ' ' && head.len() > 0 && head.last() == ' ' {
            head
        } else {
            head.push(s.last())
        }
    }
}

/// The text without the character.
pub open spec fn without(s: Seq<char>, c: char) -> Seq<char>
    decreases s.len(),
{
    if s.len() == 0 {
        s
    } else if s.last() == c {
        without(s.drop_last(), c)
    } else {
        without(s.drop_last(), c).push(s.last())
    }
}

pub fn to_chars(s: &str) -> (r: Vec<char>)
    ensures
        r@ == s@,
{
    let mut r: Vec<char> = Vec::new();
    for c in iter: s.chars()
        invariant
            iter.seq() == s@,
            r@ == s@.take(iter.index() as int),
    {
        assert(s@.take(iter.index() as int).push(c) =~= s@.take(iter.index() + 1));
        r.push(c);
    }
    assert(s@.take(s@.len() as int) =~= s@);
    r
}

pub fn from_chars(chars: &Vec<char>) -> (r: String)
    ensures
        r@ == chars@,
{
    let mut r = String::new();
    for i in 0..chars.len()
        invariant
            r@ == chars@.take(i as int),
    {
        assert(chars@.take(i as int).push(chars@[i as int]) =~= chars@.take(i + 1));
        r.push(chars[i]);
    }
    assert(chars@.take(chars@.len() as int) =~= chars@);
    r
}

/// Whether two texts are the same.
pub fn same_text(a: &str, b: &str) -> (r: bool)
    ensures
        r == (a@ == b@),
{
    a.to_owned() == b.to_owned()
}

/// The digits of a number.
pub fn digits_of(n: u128) -> (r: Vec<char>)
    ensures
        r@ == number_digits(n as nat),
        r@.len() > 0,
    decreases n,
{
    let last: char = (48u8 + (n % 10) as u8) as char;
    assert(last == digit_char((n % 10) as nat));
    if n < 10 {
        let mut r: Vec<char> = Vec::new();
        r.push(last);
        assert(r@ =~= number_digits(n as nat));
        r
    } else {
        let mut r = digits_of(n / 10);
        r.push(last);
        r
    }
}

/// The digits of a number as text, with zeros in front up to the width.
pub fn push_padded(out: &mut String, n: u128, width: usize)
    ensures
        final(out)@ == old(out)@ + padded_digits(n as nat, width as nat),
{
    let digits = digits_of(n);
    let ghost start = out@;
    let mut written: usize = digits.len();
    assert(start + zeros(0) =~= start);
    while written < width
        invariant
            digits@.len() <= written,
            written <= width || written == digits@.len(),
            out@ == start + zeros((written - digits@.len()) as nat),
        decreases width - written,
    {
        assert((start + zeros((written - digits@.len()) as nat)).push('0')
            =~= start + zeros((written + 1 - digits@.len()) as nat));
        out.push('0');
        written = written + 1;
    }
    let text = from_chars(&digits);
    out.append(text.as_str());
    assert(out@ =~= start + padded_digits(n as nat, width as nat));
}

/// A text that begins with so many digits has no fewer of them in front, and exactly as many where
/// no digit follows.
pub proof fn lemma_leading_digits(s: Seq<char>, count: int)
    requires
        0 <= count <= s.len(),
        all_digits(s.take(count)),
    ensures
        count <= leading_digits(s) <= s.len(),
        count == s.len() || !is_digit(s[count]) ==> leading_digits(s) == count,
    decreases s.len(),
{
    if s.len() > 0 && is_digit(s[0]) {
        if count > 0 {
            assert(s.take(count)[0] == s[0]);
            assert forall|i: int| 0 <= i < count - 1 implies is_digit(
                #[trigger] s.drop_first().take(count - 1)[i],
            ) by {
                assert(s.take(count)[i + 1] == s[i + 1]);
            }
            lemma_leading_digits(s.drop_first(), count - 1);
        } else {
            lemma_leading_digits(s.drop_first(), 0);
        }
    } else if count > 0 {
        assert(is_digit(s.take(count)[0]));
    }
}

/// More digits behind do not make a number smaller.
pub proof fn lemma_digits_value_grows(s: Seq<char>, i: int)
    requires
        0 <= i <= s.len(),
    ensures
        digits_value(s.take(i)) <= digits_value(s),
    decreases s.len() - i,
{
    if i < s.len() {
        assert(s.take(i + 1).drop_last() =~= s.take(i));
        lemma_digits_value_grows(s, i + 1);
    } else {
        assert(s.take(i) =~= s);
    }
}

/// Reads the digits between two positions as a number of at most `max`.
pub fn number_between(chars: &Vec<char>, from: usize, to: usize, max: u128) -> (r: Option<u128>)
    requires
        from <= to <= chars@.len(),
    ensures
        r is Some <==> bounded_number(chars@.subrange(from as int, to as int), max as nat) is Some,
        r matches Some(n) ==> bounded_number(chars@.subrange(from as int, to as int), max as nat)
            == Some(n as nat),
{
    let ghost s = chars@.subrange(from as int, to as int);
    if from == to {
        return None;
    }
    let mut value: u128 = 0;
    let mut i: usize = from;
    while i < to
        invariant
            from <= i <= to <= chars@.len(),
            s == chars@.subrange(from as int, to as int),
            all_digits(s.take(i - from)),
            value == digits_value(s.take(i - from)),
            value <= max,
        decreases to - i,
    {
        let c: char = chars[i];
        let ghost k = i - from;
        assert(s[k] == c);
        assert(s.take(k + 1).drop_last() =~= s.take(k));
        assert(s.take(k + 1).last() == c);
        if c < '0' || c > '9' {
            return None;
        }
        let digit: u128 = (c as u32 - '0' as u32) as u128;
        proof {
            assert(digits_value(s.take(k + 1)) == 10 * value + digit);
            lemma_digits_value_grows(s, k + 1);
        }
        match value.checked_mul(10) {
            None => {
                return None;
            },
            Some(shifted) => {
                match shifted.checked_add(digit) {
                    None => {
                        return None;
                    },
                    Some(next) => {
                        if next > max {
                            return None;
                        }
                        value = next;
                    },
                }
            },
        }
        assert(all_digits(s.take(k + 1))) by {
            assert forall|j: int| 0 <= j < k + 1 implies is_digit(#[trigger] s.take(k + 1)[j]) by {
                if j < k {
                    assert(s.take(k)[j] == s[j]);
                }
            }
        }
        i = i + 1;
    }
    assert(s.take(s.len() as int) =~= s);
    Some(value)
}

/// Folds every run of spaces into one space.
pub fn fold_spaces(s: &str) -> (r: String)
    ensures
        r@ == folded_spaces(s@),
{
    let chars = to_chars(s);
    let mut r: Vec<char> = Vec::new();
    for i in 0..chars.len()
        invariant
            chars@ == s@,
            r@ == folded_spaces(s@.take(i as int)),
    {
        assert(s@.take(i + 1).drop_last() =~= s@.take(i as int));
        if chars[i] != ' ' || r.len() == 0 || r[r.len() - 1] != ' ' {
            r.push(chars[i]);
        }
    }
    assert(s@.take(s@.len() as int) =~= s@);
    from_chars(&r)
}

/// Drops every occurrence of the character.
pub fn remove_char(s: &str, c: char) -> (r: String)
    ensures
        r@ == without(s@, c),
{
    let chars = to_chars(s);
    let mut r: Vec<char> = Vec::new();
    for i in 0..chars.len()
        invariant
            chars@ == s@,
            r@ == without(s@.take(i as int), c),
    {
        assert(s@.take(i + 1).drop_last() =~= s@.take(i as int));
        if chars[i] != c {
            r.push(chars[i]);
        }
    }
    assert(s@.take(s@.len() as int) =~= s@);
    from_chars(&r)
}

/// The digits of a number are digits, and they denote the number.
pub proof fn number_digits_denote_the_number(n: nat)
    ensures
        number_digits(n).len() > 0,
        all_digits(number_digits(n)),
        digits_value(number_digits(n)) == n,
    decreases n,
{
    let head = number_digits(n / 10);
    let last = digit_char(n % 10);
    assert(is_digit(last) && digit_value(last) == n % 10);
    if n < 10 {
        let single = seq![digit_char(n)];
        assert(single.drop_last() =~= Seq::empty());
        assert(digits_value(single.drop_last()) == 0);
        assert(single.last() == last);
    } else {
        number_digits_denote_the_number(n / 10);
        assert(head.push(last).drop_last() =~= head);
    }
}

/// Zeros in front do not change the number.
pub proof fn zeros_in_front_do_not_count(count: nat, s: Seq<char>)
    ensures
        digits_value(zeros(count) + s) == digits_value(s),
        all_digits(s) ==> all_digits(zeros(count) + s),
    decreases count + s.len(),
{
    if s.len() > 0 {
        zeros_in_front_do_not_count(count, s.drop_last());
        assert((zeros(count) + s).drop_last() =~= zeros(count) + s.drop_last());
        assert((zeros(count) + s).last() == s.last());
    } else if count > 0 {
        zeros_in_front_do_not_count((count - 1) as nat, s);
        assert((zeros(count) + s).drop_last() =~= zeros((count - 1) as nat) + s);
        assert((zeros(count) + s).last() == '0');
    }
}

/// No two spaces stand side by side in a folded text.
pub proof fn folded_text_has_single_spaces(s: Seq<char>, i: int)
    requires
        0 < i < folded_spaces(s).len(),
    ensures
        folded_spaces(s)[i] != ' ' || folded_spaces(s)[i - 1] != ' ',
    decreases s.len(),
{
    let head = folded_spaces(s.drop_last());
    if i < head.len() {
        folded_text_has_single_spaces(s.drop_last(), i);
    }
}

/// Folding a folded text changes nothing.
pub proof fn folding_twice_is_folding_once(s: Seq<char>)
    ensures
        folded_spaces(folded_spaces(s)) == folded_spaces(s),
    decreases s.len(),
{
    if s.len() > 0 {
        let head = folded_spaces(s.drop_last());
        folding_twice_is_folding_once(s.drop_last());
        assert(head.push(s.last()).drop_last() =~= head);
    }
}

} // verus!
