//! Laws of temperature extraction over whole inputs.
use vstd::prelude::*;
use crate::parse::{centi_celsius_of, extract, field_name, first_plausible, line_reading, plausible, ParseError};
use crate::text::{all_space, digit_value, digits_value, is_digit, is_space, line_end, skip_space, take_digits};

verus! {

/// The ASCII digit for `d`, which is below ten.
pub open spec fn digit_char(d: nat) -> char {
    seq!['0', '1', '2', '3', '4', '5', '6', '7', '8', '9'][d as int]
}

/// The decimal digits of `n`, most significant first, without leading zeros.
pub open spec fn decimal(n: nat) -> Seq<char>
    decreases n,
{
    if n < 10 {
        seq![digit_char(n)]
    } else {
        decimal(n / 10).push(digit_char(n % 10))
    }
}

/// The query output line `CurrentTemperature : <raw>`.
pub open spec fn reading_line(raw: nat) -> Seq<char> {
    field_name() + seq![' ', ':', ' '] + decimal(raw)
}

proof fn lemma_digit_char(d: nat)
    requires
        d < 10,
    ensures
        is_digit(digit_char(d)),
        digit_value(digit_char(d)) == d,
{
    let ds = seq!['0', '1', '2', '3', '4', '5', '6', '7', '8', '9'];
    assert(ds[d as int] == digit_char(d));
    if d == 0 {} else if d == 1 {} else if d == 2 {} else if d == 3 {} else if d == 4 {}
    else if d == 5 {} else if d == 6 {} else if d == 7 {} else if d == 8 {} else {}
}

proof fn lemma_decimal(n: nat)
    ensures
        decimal(n).len() > 0,
        forall|i: int| 0 <= i < decimal(n).len() ==> is_digit(#[trigger] decimal(n)[i]),
        digits_value(decimal(n)) == n,
    decreases n,
{
    if n < 10 {
        lemma_digit_char(n);
        assert(decimal(n).drop_last() =~= Seq::<char>::empty());
        assert(digits_value(decimal(n).drop_last()) == 0);
        assert(decimal(n).last() == digit_char(n));
    } else {
        lemma_decimal(n / 10);
        lemma_digit_char(n % 10);
        assert(decimal(n).drop_last() =~= decimal(n / 10));
        assert(decimal(n).last() == digit_char(n % 10));
        assert(digits_value(decimal(n)) == (n / 10) * 10 + n % 10);
    }
}

proof fn lemma_take_all_digits(s: Seq<char>)
    requires
        forall|i: int| 0 <= i < s.len() ==> is_digit(#[trigger] s[i]),
    ensures
        take_digits(s) == s,
    decreases s.len(),
{
    if s.len() > 0 {
        lemma_take_all_digits(s.drop_first());
        assert(seq![s[0]] + s.drop_first() =~= s);
    }
}

proof fn lemma_line_end_concat(a: Seq<char>, b: Seq<char>)
    requires
        forall|i: int| 0 <= i < a.len() ==> #[trigger] a[i] != '\n',
    ensures
        line_end(a + b) == a.len() + line_end(b),
    decreases a.len(),
{
    if a.len() > 0 {
        assert((a + b).drop_first() =~= a.drop_first() + b);
        lemma_line_end_concat(a.drop_first(), b);
    } else {
        assert(a + b =~= b);
    }
}

proof fn lemma_reading_line(raw: nat)
    ensures
        line_reading(reading_line(raw)) == Some(raw),
        forall|i: int| 0 <= i < reading_line(raw).len() ==> #[trigger] reading_line(raw)[i] != '\n',
{
    let d = decimal(raw);
    let l = reading_line(raw);
    lemma_decimal(raw);
    assert(!is_space(l[0]));
    assert(skip_space(l) == l);
    assert(l.take(18) =~= field_name());
    let a = l.skip(18);
    assert(a =~= seq![' ', ':', ' '] + d);
    assert(a.drop_first() =~= seq![':', ' '] + d);
    assert(skip_space(a.drop_first()) == a.drop_first());
    assert(skip_space(a) == a.drop_first());
    let b = a.drop_first();
    assert(b.skip(1) =~= seq![' '] + d);
    assert(b.skip(1).drop_first() =~= d);
    assert(!is_space(d[0]));
    assert(skip_space(d) == d);
    assert(skip_space(b.skip(1)) == d);
    lemma_take_all_digits(d);
    assert forall|i: int| 0 <= i < l.len() implies #[trigger] l[i] != '\n' by {
        if i >= 21 {
            assert(l[i] == d[i - 21]);
        }
    }
}

proof fn lemma_skip_blank(s: Seq<char>)
    requires
        all_space(s),
    ensures
        skip_space(s).len() == 0,
    decreases s.len(),
{
    if s.len() > 0 {
        assert(is_space(s[0]));
        assert forall|i: int| 0 <= i < s.drop_first().len() implies is_space(
            #[trigger] s.drop_first()[i],
        ) by {
            assert(s.drop_first()[i] == s[i + 1]);
        }
        lemma_skip_blank(s.drop_first());
    }
}

proof fn lemma_blank_has_no_reading(s: Seq<char>)
    requires
        all_space(s),
    ensures
        first_plausible(s) is None,
    decreases s.len(),
{
    let e = line_end(s);
    lemma_line_end_bound(s);
    let line = s.take(e as int);
    assert forall|i: int| 0 <= i < line.len() implies is_space(#[trigger] line[i]) by {
        assert(line[i] == s[i]);
    }
    lemma_skip_blank(line);
    assert(line_reading(line) is None);
    if e < s.len() {
        let rest = s.skip(e + 1 as int);
        assert forall|i: int| 0 <= i < rest.len() implies is_space(#[trigger] rest[i]) by {
            assert(rest[i] == s[i + e + 1]);
        }
        lemma_blank_has_no_reading(rest);
    }
}

proof fn lemma_line_end_bound(s: Seq<char>)
    ensures
        line_end(s) <= s.len(),
    decreases s.len(),
{
    if s.len() > 0 {
        lemma_line_end_bound(s.drop_first());
    }
}

/// An output that is empty or whitespace only gives `NoData`.
pub proof fn lemma_blank_is_no_data(s: Seq<char>)
    requires
        all_space(s),
    ensures
        extract(s) == Err::<int, ParseError>(ParseError::NoData),
{
    lemma_blank_has_no_reading(s);
}

/// An output made of one line `CurrentTemperature : <raw>` gives the Celsius
/// value of `raw` when that value is plausible, and `NoValidReading` otherwise.
pub proof fn lemma_single_reading(raw: nat)
    ensures
        extract(reading_line(raw)) == if plausible(raw) {
            Ok::<int, ParseError>(centi_celsius_of(raw))
        } else {
            Err::<int, ParseError>(ParseError::NoValidReading)
        },
{
    let l = reading_line(raw);
    lemma_reading_line(raw);
    lemma_line_end_concat(l, Seq::empty());
    assert(l + Seq::<char>::empty() =~= l);
    assert(l.take(l.len() as int) =~= l);
    assert(!is_space(l[0]));
}

/// Of two reading lines, the first one whose value is plausible decides the
/// result; an implausible first line is skipped.
pub proof fn lemma_first_plausible_wins(first: nat, second: nat)
    ensures
        extract(reading_line(first) + seq!['\n'] + reading_line(second)) == if plausible(first) {
            Ok::<int, ParseError>(centi_celsius_of(first))
        } else if plausible(second) {
            Ok::<int, ParseError>(centi_celsius_of(second))
        } else {
            Err::<int, ParseError>(ParseError::NoValidReading)
        },
{
    let a = reading_line(first);
    let b = reading_line(second);
    let s = a + seq!['\n'] + b;
    lemma_reading_line(first);
    lemma_reading_line(second);
    assert(s =~= a + (seq!['\n'] + b));
    lemma_line_end_concat(a, seq!['\n'] + b);
    assert(line_end(s) == a.len());
    assert(s.take(a.len() as int) =~= a);
    assert(s.skip(a.len() + 1 as int) =~= b);
    lemma_line_end_concat(b, Seq::empty());
    assert(b + Seq::<char>::empty() =~= b);
    assert(b.take(b.len() as int) =~= b);
    assert(first_plausible(b) == if plausible(second) { Some(second) } else { None::<nat> });
    assert(!is_space(s[0]));
}

} // verus!
