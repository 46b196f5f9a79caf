//! Character-level helpers over query output.
use vstd::prelude::*;

verus! {

/// The characters that Rust's `char::is_whitespace` accepts (Unicode `White_Space`).
pub open spec fn is_space(c: char) -> bool {
    ||| c == ' '
    ||| ('\t' <= c && c <= '\r')
    ||| c == '\u{85}'
    ||| c == '\u{a0}'
    ||| c == '\u{1680}'
    ||| ('\u{2000}' <= c && c <= '\u{200a}')
    ||| c == '\u{2028}'
    ||| c == '\u{2029}'
    ||| c == '\u{202f}'
    ||| c == '\u{205f}'
    ||| c == '\u{3000}'
}

/// An ASCII decimal digit.
pub open spec fn is_digit(c: char) -> bool {
    '0' <= c && c <= '9'
}

/// The value of an ASCII decimal digit.
pub open spec fn digit_value(c: char) -> nat {
    ((c as u32) - ('0' as u32)) as nat
}

/// Every character of `s` is whitespace.
pub open spec fn all_space(s: Seq<char>) -> bool {
    forall|i: int| 0 <= i < s.len() ==> is_space(#[trigger] s[i])
}

/// `s` without its leading whitespace.
pub open spec fn skip_space(s: Seq<char>) -> Seq<char>
    decreases s.len(),
{
    if s.len() > 0 && is_space(s[0]) {
        skip_space(s.drop_first())
    } else {
        s
    }
}

/// The longest prefix of `s` made of decimal digits.
pub open spec fn take_digits(s: Seq<char>) -> Seq<char>
    decreases s.len(),
{
    if s.len() > 0 && is_digit(s[0]) {
        seq![s[0]] + take_digits(s.drop_first())
    } else {
        Seq::empty()
    }
}

/// The number that a string of decimal digits writes, most significant first.
pub open spec fn digits_value(d: Seq<char>) -> nat
    decreases d.len(),
{
    if d.len() == 0 {
        0
    } else {
        digits_value(d.drop_last()) * 10 + digit_value(d.last())
    }
}

/// The number of characters before the first line feed of `s` (all of `s` if none).
pub open spec fn line_end(s: Seq<char>) -> nat
    decreases s.len(),
{
    if s.len() == 0 || s[0] == '\n' {
        0
    } else {
        1 + line_end(s.drop_first())
    }
}

/// Whether `c` is whitespace, as `is_space` states.
pub fn is_space_char(c: char) -> (r: bool)
    ensures
        r == is_space(c),
{
    c == ' ' || ('\t' <= c && c <= '\r') || c == '\u{85}' || c == '\u{a0}' || c == '\u{1680}'
        || ('\u{2000}' <= c && c <= '\u{200a}') || c == '\u{2028}' || c == '\u{2029}'
        || c == '\u{202f}' || c == '\u{205f}' || c == '\u{3000}'
}

/// Whether every character of `s` is whitespace.
pub fn is_blank(s: &Vec<char>) -> (r: bool)
    ensures
        r == all_space(s@),
{
    let mut i: usize = 0;
    while i < s.len()
        invariant
            i <= s@.len(),
            forall|j: int| 0 <= j < i ==> is_space(#[trigger] s@[j]),
        decreases s.len() - i,
    {
        if !is_space_char(s[i]) {
            return false;
        }
        i = i + 1;
    }
    true
}

/// The position of the first whitespace-free character of `s[start..end]`.
pub fn skip_spaces(s: &Vec<char>, start: usize, end: usize) -> (k: usize)
    requires
        start <= end <= s@.len(),
    ensures
        start <= k <= end,
        skip_space(s@.subrange(start as int, end as int)) == s@.subrange(k as int, end as int),
{
    let mut k = start;
    while k < end && is_space_char(s[k])
        invariant
            start <= k <= end <= s@.len(),
            skip_space(s@.subrange(start as int, end as int)) == skip_space(
                s@.subrange(k as int, end as int),
            ),
        decreases end - k,
    {
        assert(s@.subrange(k as int, end as int).drop_first() =~= s@.subrange(
            k + 1,
            end as int,
        ));
        k = k + 1;
    }
    k
}

/// The end of the line that starts at `start`: the position of the next line
/// feed, or the length of `s`.
pub fn find_line_end(s: &Vec<char>, start: usize) -> (e: usize)
    requires
        start <= s@.len(),
    ensures
        start <= e <= s@.len(),
        e == start + line_end(s@.subrange(start as int, s@.len() as int)),
{
    let mut e = start;
    while e < s.len() && s[e] != '\n'
        invariant
            start <= e <= s@.len(),
            line_end(s@.subrange(start as int, s@.len() as int)) == (e - start) + line_end(
                s@.subrange(e as int, s@.len() as int),
            ),
        decreases s.len() - e,
    {
        assert(s@.subrange(e as int, s@.len() as int).drop_first() =~= s@.subrange(
            e + 1,
            s@.len() as int,
        ));
        e = e + 1;
    }
    e
}

/// Copies the characters of `s` into a vector.
pub fn chars_of(s: &str) -> (r: Vec<char>)
    ensures
        r@ == s@,
{
    let n = s.unicode_len();
    let mut r: Vec<char> = Vec::new();
    let mut i: usize = 0;
    while i < n
        invariant
            n == s@.len(),
            i <= n,
            r@ == s@.subrange(0, i as int),
        decreases n - i,
    {
        r.push(s.get_char(i));
        i = i + 1;
        assert(r@ =~= s@.subrange(0, i as int));
    }
    assert(r@ =~= s@);
    r
}

/// Values of a digit run from this bound up are all reported as the bound.
pub const NUMBER_CAP: u64 = 1_000_000;

/// `n`, or `NUMBER_CAP` where `n` is larger.
pub open spec fn capped(n: nat) -> nat {
    if n < NUMBER_CAP {
        n
    } else {
        NUMBER_CAP as nat
    }
}

/// Reads the digit run that starts at `start`, stopping at `end`: returns its
/// end and its value, capped at `NUMBER_CAP`.
pub fn read_digits(s: &Vec<char>, start: usize, end: usize) -> (r: (usize, u64))
    requires
        start <= end <= s@.len(),
    ensures
        start <= r.0 <= end,
        take_digits(s@.subrange(start as int, end as int)) == s@.subrange(start as int, r.0 as int),
        r.1 == capped(digits_value(s@.subrange(start as int, r.0 as int))),
{
    let mut k = start;
    let mut acc: u64 = 0;
    assert(s@.subrange(start as int, k as int) =~= Seq::<char>::empty());
    while k < end && '0' <= s[k] && s[k] <= '9'
        invariant
            start <= k <= end <= s@.len(),
            take_digits(s@.subrange(start as int, end as int)) == s@.subrange(start as int, k as int)
                + take_digits(s@.subrange(k as int, end as int)),
            acc == capped(digits_value(s@.subrange(start as int, k as int))),
        decreases end - k,
    {
        let c = s[k];
        let d = (c as u32 - '0' as u32) as u64;
        let ghost prev = s@.subrange(start as int, k as int);
        let ghost next = s@.subrange(start as int, k + 1);
        proof {
            assert(s@.subrange(k as int, end as int).drop_first() =~= s@.subrange(k + 1, end as int));
            assert(next.drop_last() =~= prev);
            assert(next.last() == c);
            assert(prev + (seq![c] + take_digits(s@.subrange(k + 1, end as int))) =~= next
                + take_digits(s@.subrange(k + 1, end as int)));
        }
        if acc >= NUMBER_CAP {
            acc = NUMBER_CAP;
        } else {
            let t = acc * 10 + d;
            acc = if t > NUMBER_CAP {
                NUMBER_CAP
            } else {
                t
            };
        }
        k = k + 1;
    }
    proof {
        if k < end {
            assert(take_digits(s@.subrange(k as int, end as int)) == Seq::<char>::empty());
        } else {
            assert(s@.subrange(k as int, end as int) =~= Seq::<char>::empty());
        }
        assert(s@.subrange(start as int, k as int) + Seq::<char>::empty() =~= s@.subrange(
            start as int,
            k as int,
        ));
    }
    (k, acc)
}

} // verus!
