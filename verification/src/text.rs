//! Verified text building: decimal digits, month names, the date heading used
//! in page names, and whitespace trimming. Every function states the exact
//! character sequence it produces.

use vstd::prelude::*;
use crate::date::Date;

verus! {

pub open spec fn digit_char(d: int) -> char {
    if d == 0 {
        '0'
    } else if d == 1 {
        '1'
    } else if d == 2 {
        '2'
    } else if d == 3 {
        '3'
    } else if d == 4 {
        '4'
    } else if d == 5 {
        '5'
    } else if d == 6 {
        '6'
    } else if d == 7 {
        '7'
    } else if d == 8 {
        '8'
    } else {
        '9'
    }
}

pub open spec fn two_digit_seq(n: int) -> Seq<char> {
    seq![digit_char(n / 10), digit_char(n % 10)]
}

pub open spec fn four_digit_seq(n: int) -> Seq<char> {
    two_digit_seq(n / 100) + two_digit_seq(n % 100)
}

/// The decimal day without padding: one digit below ten, else two.
pub open spec fn day_seq(d: int) -> Seq<char> {
    if d < 10 {
        seq![digit_char(d)]
    } else {
        two_digit_seq(d)
    }
}

pub open spec fn month_name_seq(m: int) -> Seq<char> {
    if m == 1 {
        "January"@
    } else if m == 2 {
        "February"@
    } else if m == 3 {
        "March"@
    } else if m == 4 {
        "April"@
    } else if m == 5 {
        "May"@
    } else if m == 6 {
        "June"@
    } else if m == 7 {
        "July"@
    } else if m == 8 {
        "August"@
    } else if m == 9 {
        "September"@
    } else if m == 10 {
        "October"@
    } else if m == 11 {
        "November"@
    } else {
        "December"@
    }
}

/// The date heading used in per-day page names: month name, unpadded day,
/// a comma, and the four-digit year.
pub open spec fn date_heading_seq(d: Date) -> Seq<char> {
    month_name_seq(d.month as int) + seq![' '] + day_seq(d.day as int) + seq![',', ' ']
        + four_digit_seq(d.year as int)
}

pub fn digit_str(d: u32) -> (r: &'static str)
    requires
        d < 10,
    ensures
        r@ == seq![digit_char(d as int)],
{
    let r: &'static str = if d == 0 {
        "0"
    } else if d == 1 {
        "1"
    } else if d == 2 {
        "2"
    } else if d == 3 {
        "3"
    } else if d == 4 {
        "4"
    } else if d == 5 {
        "5"
    } else if d == 6 {
        "6"
    } else if d == 7 {
        "7"
    } else if d == 8 {
        "8"
    } else {
        "9"
    };
    proof {
        reveal_strlit("0");
        reveal_strlit("1");
        reveal_strlit("2");
        reveal_strlit("3");
        reveal_strlit("4");
        reveal_strlit("5");
        reveal_strlit("6");
        reveal_strlit("7");
        reveal_strlit("8");
        reveal_strlit("9");
        assert(r@ =~= seq![digit_char(d as int)]);
    }
    r
}

pub fn push_two_digits(s: &mut String, n: u32)
    requires
        n < 100,
    ensures
        final(s)@ == old(s)@ + two_digit_seq(n as int),
{
    s.append(digit_str(n / 10));
    s.append(digit_str(n % 10));
    proof {
        assert(s@ =~= old(s)@ + two_digit_seq(n as int));
    }
}

pub fn push_four_digits(s: &mut String, n: u32)
    requires
        n <= 9999,
    ensures
        final(s)@ == old(s)@ + four_digit_seq(n as int),
{
    push_two_digits(s, n / 100);
    push_two_digits(s, n % 100);
    proof {
        assert(s@ =~= old(s)@ + four_digit_seq(n as int));
    }
}

pub fn push_day(s: &mut String, d: u32)
    requires
        d <= 31,
    ensures
        final(s)@ == old(s)@ + day_seq(d as int),
{
    if d < 10 {
        s.append(digit_str(d));
    } else {
        push_two_digits(s, d);
    }
    proof {
        assert(s@ =~= old(s)@ + day_seq(d as int));
    }
}

pub fn month_name(m: u32) -> (r: &'static str)
    requires
        1 <= m <= 12,
    ensures
        r@ == month_name_seq(m as int),
{
    if m == 1 {
        "January"
    } else if m == 2 {
        "February"
    } else if m == 3 {
        "March"
    } else if m == 4 {
        "April"
    } else if m == 5 {
        "May"
    } else if m == 6 {
        "June"
    } else if m == 7 {
        "July"
    } else if m == 8 {
        "August"
    } else if m == 9 {
        "September"
    } else if m == 10 {
        "October"
    } else if m == 11 {
        "November"
    } else {
        "December"
    }
}

pub fn date_heading(d: Date) -> (r: String)
    requires
        d.wf(),
    ensures
        r@ == date_heading_seq(d),
{
    let mut s = String::new();
    s.append(month_name(d.month));
    s.append(" ");
    push_day(&mut s, d.day);
    s.append(", ");
    push_four_digits(&mut s, d.year);
    proof {
        reveal_strlit(" ");
        reveal_strlit(", ");
        assert(s@ =~= date_heading_seq(d));
    }
    s
}

/// The whitespace characters stripped from a fetched title.
pub open spec fn is_ws_char(c: char) -> bool {
    c == ' ' || c == '\t' || c == '\n' || c == '\r'
}

pub open spec fn trim_front_s(s: Seq<char>) -> Seq<char>
    decreases s.len(),
{
    if s.len() > 0 && is_ws_char(s[0]) {
        trim_front_s(s.drop_first())
    } else {
        s
    }
}

pub open spec fn trim_back_s(s: Seq<char>) -> Seq<char>
    decreases s.len(),
{
    if s.len() > 0 && is_ws_char(s.last()) {
        trim_back_s(s.drop_last())
    } else {
        s
    }
}

/// `s` with leading and trailing whitespace removed.
pub open spec fn trimmed(s: Seq<char>) -> Seq<char> {
    trim_back_s(trim_front_s(s))
}

fn is_ws(c: char) -> (r: bool)
    ensures
        r == is_ws_char(c),
{
    c == ' ' || c == '\t' || c == '\n' || c == '\r'
}

proof fn lemma_trim_front_step(s: Seq<char>, a: int)
    requires
        0 <= a < s.len(),
        is_ws_char(s[a]),
    ensures
        trim_front_s(s.skip(a)) == trim_front_s(s.skip(a + 1)),
{
    assert(s.skip(a).drop_first() =~= s.skip(a + 1));
}

proof fn lemma_trim_back_step(s: Seq<char>, a: int, b: int)
    requires
        0 <= a < b <= s.len(),
        is_ws_char(s[b - 1]),
    ensures
        trim_back_s(s.subrange(a, b)) == trim_back_s(s.subrange(a, b - 1)),
{
    assert(s.subrange(a, b).drop_last() =~= s.subrange(a, b - 1));
}

/// Strips leading and trailing whitespace.
pub fn trim(s: &str) -> (r: String)
    ensures
        r@ == trimmed(s@),
{
    let n = s.unicode_len();
    let mut a: usize = 0;
    proof {
        assert(s@.skip(0) =~= s@);
    }
    while a < n && is_ws(s.get_char(a))
        invariant
            a <= n,
            n == s@.len(),
            trim_front_s(s@) == trim_front_s(s@.skip(a as int)),
        decreases n - a,
    {
        proof {
            lemma_trim_front_step(s@, a as int);
        }
        a = a + 1;
    }
    proof {
        assert(trim_front_s(s@.skip(a as int)) == s@.skip(a as int));
        assert(s@.skip(a as int) =~= s@.subrange(a as int, n as int));
    }
    let mut b: usize = n;
    while b > a && is_ws(s.get_char(b - 1))
        invariant
            a <= b <= n,
            n == s@.len(),
            trimmed(s@) == trim_back_s(s@.subrange(a as int, b as int)),
        decreases b,
    {
        proof {
            lemma_trim_back_step(s@, a as int, b as int);
        }
        b = b - 1;
    }
    proof {
        assert(trim_back_s(s@.subrange(a as int, b as int)) == s@.subrange(a as int, b as int));
    }
    let out = s.substring_char(a, b);
    out.to_owned()
}

} // verus!
