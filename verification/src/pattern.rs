//! Tokens of the format patterns, and the matcher that runs a token list
//! against an input string.
//!
//! A pattern is a sequence of tokens; a string matches a pattern only as a
//! whole (no prefix or partial matches). Matching is deterministic: each
//! token either consumes a fixed piece of the input and records a field, or
//! fails.

use vstd::prelude::*;

use crate::calendar::civil_to_epoch;
use crate::calendar::day_index;
use crate::calendar::days_in_month_x;
use crate::calendar::day_index_x;
use crate::calendar::epoch_from_civil_x;
use crate::calendar::lemma_days_before_year_bounds;
use crate::calendar::valid_date;
use crate::calendar::weekday_of;
use crate::calendar::weekday_x;

verus! {

/// One token of a format pattern.
#[derive(Clone, Copy)]
pub enum Tok {
    /// An exact literal character.
    Lit(char),
    /// A three-letter weekday name, `Sun` through `Sat`.
    Wd,
    /// Two-digit day of month.
    Day2,
    /// Two-digit month number.
    Mon2,
    /// A three-letter month name, `Jan` through `Dec`.
    MonName,
    /// Four-digit year.
    Year4,
    /// Two-digit hour.
    Hour2,
    /// Two-digit minute.
    Min2,
    /// Two-digit second.
    Sec2,
    /// Numeric timezone offset: sign, two digits, optional colon, two digits.
    Offset,
    /// Meridiem marker, `AM` or `PM`.
    AmPm,
}

/// The fields a pattern can capture. Meridiem and offset stay separate so
/// that the semantic checks can tell 12-hour from 24-hour patterns and
/// offset-less from offset-carrying ones.
#[derive(Clone, Copy)]
pub struct Fields {
    pub year: i64,
    pub month: i64,
    pub day: i64,
    pub hour: i64,
    pub minute: i64,
    pub second: i64,
    pub wd: Option<i64>,
    pub off_min: Option<i64>,
    pub pm: Option<bool>,
}

pub open spec fn init_fields() -> Fields {
    Fields {
        year: 0,
        month: 1,
        day: 1,
        hour: 0,
        minute: 0,
        second: 0,
        wd: None,
        off_min: None,
        pm: None,
    }
}

pub fn init_fields_x() -> (f: Fields)
    ensures
        f == init_fields(),
{
    Fields {
        year: 0,
        month: 1,
        day: 1,
        hour: 0,
        minute: 0,
        second: 0,
        wd: None,
        off_min: None,
        pm: None,
    }
}

pub open spec fn is_digit(c: char) -> bool {
    48 <= c as u32 <= 57
}

pub open spec fn digit_val(c: char) -> int {
    c as u32 - 48
}

pub open spec fn num2_at(s: Seq<char>, i: int) -> Option<int> {
    if 0 <= i && i + 2 <= s.len() && is_digit(s[i]) && is_digit(s[i + 1]) {
        Some(10 * digit_val(s[i]) + digit_val(s[i + 1]))
    } else {
        None
    }
}

pub open spec fn num4_at(s: Seq<char>, i: int) -> Option<int> {
    if 0 <= i && i + 4 <= s.len() && is_digit(s[i]) && is_digit(s[i + 1]) && is_digit(s[i + 2])
        && is_digit(s[i + 3]) {
        Some(
            1000 * digit_val(s[i]) + 100 * digit_val(s[i + 1]) + 10 * digit_val(s[i + 2])
                + digit_val(s[i + 3]),
        )
    } else {
        None
    }
}

/// The weekday names, indexed 0 = Sunday through 6 = Saturday.
pub open spec fn wd_name(w: int) -> Seq<char> {
    if w == 0 {
        seq!['S', 'u', 'n']
    } else if w == 1 {
        seq!['M', 'o', 'n']
    } else if w == 2 {
        seq!['T', 'u', 'e']
    } else if w == 3 {
        seq!['W', 'e', 'd']
    } else if w == 4 {
        seq!['T', 'h', 'u']
    } else if w == 5 {
        seq!['F', 'r', 'i']
    } else {
        seq!['S', 'a', 't']
    }
}

/// The month names, indexed 1 = January through 12 = December.
pub open spec fn mon_name(m: int) -> Seq<char> {
    if m == 1 {
        seq!['J', 'a', 'n']
    } else if m == 2 {
        seq!['F', 'e', 'b']
    } else if m == 3 {
        seq!['M', 'a', 'r']
    } else if m == 4 {
        seq!['A', 'p', 'r']
    } else if m == 5 {
        seq!['M', 'a', 'y']
    } else if m == 6 {
        seq!['J', 'u', 'n']
    } else if m == 7 {
        seq!['J', 'u', 'l']
    } else if m == 8 {
        seq!['A', 'u', 'g']
    } else if m == 9 {
        seq!['S', 'e', 'p']
    } else if m == 10 {
        seq!['O', 'c', 't']
    } else if m == 11 {
        seq!['N', 'o', 'v']
    } else {
        seq!['D', 'e', 'c']
    }
}

pub open spec fn wd_at(s: Seq<char>, i: int) -> Option<int> {
    if 0 <= i && i + 3 <= s.len() {
        let c0 = s[i];
        let c1 = s[i + 1];
        let c2 = s[i + 2];
        if c0 == 'S' && c1 == 'u' && c2 == 'n' {
            Some(0)
        } else if c0 == 'M' && c1 == 'o' && c2 == 'n' {
            Some(1)
        } else if c0 == 'T' && c1 == 'u' && c2 == 'e' {
            Some(2)
        } else if c0 == 'W' && c1 == 'e' && c2 == 'd' {
            Some(3)
        } else if c0 == 'T' && c1 == 'h' && c2 == 'u' {
            Some(4)
        } else if c0 == 'F' && c1 == 'r' && c2 == 'i' {
            Some(5)
        } else if c0 == 'S' && c1 == 'a' && c2 == 't' {
            Some(6)
        } else {
            None
        }
    } else {
        None
    }
}

pub open spec fn mon_at(s: Seq<char>, i: int) -> Option<int> {
    if 0 <= i && i + 3 <= s.len() {
        let c0 = s[i];
        let c1 = s[i + 1];
        let c2 = s[i + 2];
        if c0 == 'J' && c1 == 'a' && c2 == 'n' {
            Some(1)
        } else if c0 == 'F' && c1 == 'e' && c2 == 'b' {
            Some(2)
        } else if c0 == 'M' && c1 == 'a' && c2 == 'r' {
            Some(3)
        } else if c0 == 'A' && c1 == 'p' && c2 == 'r' {
            Some(4)
        } else if c0 == 'M' && c1 == 'a' && c2 == 'y' {
            Some(5)
        } else if c0 == 'J' && c1 == 'u' && c2 == 'n' {
            Some(6)
        } else if c0 == 'J' && c1 == 'u' && c2 == 'l' {
            Some(7)
        } else if c0 == 'A' && c1 == 'u' && c2 == 'g' {
            Some(8)
        } else if c0 == 'S' && c1 == 'e' && c2 == 'p' {
            Some(9)
        } else if c0 == 'O' && c1 == 'c' && c2 == 't' {
            Some(10)
        } else if c0 == 'N' && c1 == 'o' && c2 == 'v' {
            Some(11)
        } else if c0 == 'D' && c1 == 'e' && c2 == 'c' {
            Some(12)
        } else {
            None
        }
    } else {
        None
    }
}

/// A numeric offset at position i: consumed length and signed minutes.
/// Hours run 00 through 23, minutes 00 through 59; a colon between them is
/// accepted and skipped.
pub open spec fn offset_at(s: Seq<char>, i: int) -> Option<(int, int)> {
    if 0 <= i && i + 5 <= s.len() && (s[i] == '+' || s[i] == '-') && is_digit(s[i + 1]) && is_digit(
        s[i + 2],
    ) {
        let neg = s[i] == '-';
        let hh = 10 * digit_val(s[i + 1]) + digit_val(s[i + 2]);
        if s[i + 3] == ':' {
            if i + 6 <= s.len() && is_digit(s[i + 4]) && is_digit(s[i + 5]) {
                let mm = 10 * digit_val(s[i + 4]) + digit_val(s[i + 5]);
                if hh <= 23 && mm <= 59 {
                    Some((6, if neg { -(hh * 60 + mm) } else { hh * 60 + mm }))
                } else {
                    None
                }
            } else {
                None
            }
        } else if is_digit(s[i + 3]) && is_digit(s[i + 4]) {
            let mm = 10 * digit_val(s[i + 3]) + digit_val(s[i + 4]);
            if hh <= 23 && mm <= 59 {
                Some((5, if neg { -(hh * 60 + mm) } else { hh * 60 + mm }))
            } else {
                None
            }
        } else {
            None
        }
    } else {
        None
    }
}

/// A meridiem marker at position i; true means PM.
pub open spec fn ampm_at(s: Seq<char>, i: int) -> Option<bool> {
    if 0 <= i && i + 2 <= s.len() && s[i + 1] == 'M' {
        if s[i] == 'A' {
            Some(false)
        } else if s[i] == 'P' {
            Some(true)
        } else {
            None
        }
    } else {
        None
    }
}

/// What one token does at position i: the position after it and the updated
/// fields, or failure.
pub open spec fn tok_match(t: Tok, s: Seq<char>, i: int, f: Fields) -> Option<(int, Fields)> {
    match t {
        Tok::Lit(c) => if 0 <= i < s.len() && s[i] == c {
            Some((i + 1, f))
        } else {
            None
        },
        Tok::Wd => match wd_at(s, i) {
            Some(w) => Some((i + 3, Fields { wd: Some(w as i64), ..f })),
            None => None,
        },
        Tok::Day2 => match num2_at(s, i) {
            Some(v) => Some((i + 2, Fields { day: v as i64, ..f })),
            None => None,
        },
        Tok::Mon2 => match num2_at(s, i) {
            Some(v) => Some((i + 2, Fields { month: v as i64, ..f })),
            None => None,
        },
        Tok::MonName => match mon_at(s, i) {
            Some(m) => Some((i + 3, Fields { month: m as i64, ..f })),
            None => None,
        },
        Tok::Year4 => match num4_at(s, i) {
            Some(v) => Some((i + 4, Fields { year: v as i64, ..f })),
            None => None,
        },
        Tok::Hour2 => match num2_at(s, i) {
            Some(v) => Some((i + 2, Fields { hour: v as i64, ..f })),
            None => None,
        },
        Tok::Min2 => match num2_at(s, i) {
            Some(v) => Some((i + 2, Fields { minute: v as i64, ..f })),
            None => None,
        },
        Tok::Sec2 => match num2_at(s, i) {
            Some(v) => Some((i + 2, Fields { second: v as i64, ..f })),
            None => None,
        },
        Tok::Offset => match offset_at(s, i) {
            Some((n, mins)) => Some((i + n, Fields { off_min: Some(mins as i64), ..f })),
            None => None,
        },
        Tok::AmPm => match ampm_at(s, i) {
            Some(p) => Some((i + 2, Fields { pm: Some(p), ..f })),
            None => None,
        },
    }
}

/// A whole-string match of a token list starting at position i with fields f.
pub open spec fn toks_match(toks: Seq<Tok>, s: Seq<char>, i: int, f: Fields) -> Option<Fields>
    decreases toks.len(),
{
    if toks.len() == 0 {
        if i == s.len() {
            Some(f)
        } else {
            None
        }
    } else {
        match tok_match(toks[0], s, i, f) {
            Some((j, f2)) => toks_match(toks.drop_first(), s, j, f2),
            None => None,
        }
    }
}

fn char_at(s: &str, n: usize, i: usize) -> (c: char)
    requires
        n == s@.len(),
        i < n,
    ensures
        c == s@[i as int],
{
    s.get_char(i)
}

fn digit_at_x(s: &str, n: usize, i: usize) -> (r: Option<i64>)
    requires
        n == s@.len(),
    ensures
        match r {
            Some(v) => i < n && is_digit(s@[i as int]) && v == digit_val(s@[i as int]),
            None => !(i < n && is_digit(s@[i as int])),
        },
{
    if i < n {
        let u: u32 = char_at(s, n, i) as u32;
        if 48 <= u && u <= 57 {
            Some((u - 48) as i64)
        } else {
            None
        }
    } else {
        None
    }
}

fn num2_x(s: &str, n: usize, i: usize) -> (r: Option<i64>)
    requires
        n == s@.len(),
        i <= n,
    ensures
        match r {
            Some(v) => num2_at(s@, i as int) == Some(v as int),
            None => num2_at(s@, i as int) is None,
        },
{
    if n - i >= 2 {
        match (digit_at_x(s, n, i), digit_at_x(s, n, i + 1)) {
            (Some(a), Some(b)) => Some(10 * a + b),
            _ => None,
        }
    } else {
        None
    }
}

fn num4_x(s: &str, n: usize, i: usize) -> (r: Option<i64>)
    requires
        n == s@.len(),
        i <= n,
    ensures
        match r {
            Some(v) => num4_at(s@, i as int) == Some(v as int),
            None => num4_at(s@, i as int) is None,
        },
{
    if n - i >= 4 {
        match (digit_at_x(s, n, i), digit_at_x(s, n, i + 1), digit_at_x(s, n, i + 2), digit_at_x(
            s,
            n,
            i + 3,
        )) {
            (Some(a), Some(b), Some(c), Some(d)) => Some(1000 * a + 100 * b + 10 * c + d),
            _ => None,
        }
    } else {
        None
    }
}

fn wd_x(s: &str, n: usize, i: usize) -> (r: Option<i64>)
    requires
        n == s@.len(),
        i <= n,
    ensures
        match r {
            Some(w) => wd_at(s@, i as int) == Some(w as int),
            None => wd_at(s@, i as int) is None,
        },
{
    if n - i >= 3 {
        let c0 = char_at(s, n, i);
        let c1 = char_at(s, n, i + 1);
        let c2 = char_at(s, n, i + 2);
        if c0 == 'S' && c1 == 'u' && c2 == 'n' {
            Some(0)
        } else if c0 == 'M' && c1 == 'o' && c2 == 'n' {
            Some(1)
        } else if c0 == 'T' && c1 == 'u' && c2 == 'e' {
            Some(2)
        } else if c0 == 'W' && c1 == 'e' && c2 == 'd' {
            Some(3)
        } else if c0 == 'T' && c1 == 'h' && c2 == 'u' {
            Some(4)
        } else if c0 == 'F' && c1 == 'r' && c2 == 'i' {
            Some(5)
        } else if c0 == 'S' && c1 == 'a' && c2 == 't' {
            Some(6)
        } else {
            None
        }
    } else {
        None
    }
}

fn mon_x(s: &str, n: usize, i: usize) -> (r: Option<i64>)
    requires
        n == s@.len(),
        i <= n,
    ensures
        match r {
            Some(m) => mon_at(s@, i as int) == Some(m as int),
            None => mon_at(s@, i as int) is None,
        },
{
    if n - i >= 3 {
        let c0 = char_at(s, n, i);
        let c1 = char_at(s, n, i + 1);
        let c2 = char_at(s, n, i + 2);
        if c0 == 'J' && c1 == 'a' && c2 == 'n' {
            Some(1)
        } else if c0 == 'F' && c1 == 'e' && c2 == 'b' {
            Some(2)
        } else if c0 == 'M' && c1 == 'a' && c2 == 'r' {
            Some(3)
        } else if c0 == 'A' && c1 == 'p' && c2 == 'r' {
            Some(4)
        } else if c0 == 'M' && c1 == 'a' && c2 == 'y' {
            Some(5)
        } else if c0 == 'J' && c1 == 'u' && c2 == 'n' {
            Some(6)
        } else if c0 == 'J' && c1 == 'u' && c2 == 'l' {
            Some(7)
        } else if c0 == 'A' && c1 == 'u' && c2 == 'g' {
            Some(8)
        } else if c0 == 'S' && c1 == 'e' && c2 == 'p' {
            Some(9)
        } else if c0 == 'O' && c1 == 'c' && c2 == 't' {
            Some(10)
        } else if c0 == 'N' && c1 == 'o' && c2 == 'v' {
            Some(11)
        } else if c0 == 'D' && c1 == 'e' && c2 == 'c' {
            Some(12)
        } else {
            None
        }
    } else {
        None
    }
}

fn offset_x(s: &str, n: usize, i: usize) -> (r: Option<(usize, i64)>)
    requires
        n == s@.len(),
        i <= n,
    ensures
        match r {
            Some((len, mins)) => offset_at(s@, i as int) == Some((len as int, mins as int)) && i
                + len <= n,
            None => offset_at(s@, i as int) is None,
        },
{
    if n - i >= 5 {
        let c0 = char_at(s, n, i);
        if c0 == '+' || c0 == '-' {
            match (digit_at_x(s, n, i + 1), digit_at_x(s, n, i + 2)) {
                (Some(h1), Some(h2)) => {
                    let hh: i64 = 10 * h1 + h2;
                    if char_at(s, n, i + 3) == ':' {
                        if n - i >= 6 {
                            match (digit_at_x(s, n, i + 4), digit_at_x(s, n, i + 5)) {
                                (Some(m1), Some(m2)) => {
                                    let mm: i64 = 10 * m1 + m2;
                                    if hh <= 23 && mm <= 59 {
                                        let v: i64 = hh * 60 + mm;
                                        Some((6, if c0 == '-' { -v } else { v }))
                                    } else {
                                        None
                                    }
                                },
                                _ => None,
                            }
                        } else {
                            None
                        }
                    } else {
                        match (digit_at_x(s, n, i + 3), digit_at_x(s, n, i + 4)) {
                            (Some(m1), Some(m2)) => {
                                let mm: i64 = 10 * m1 + m2;
                                if hh <= 23 && mm <= 59 {
                                    let v: i64 = hh * 60 + mm;
                                    Some((5, if c0 == '-' { -v } else { v }))
                                } else {
                                    None
                                }
                            },
                            _ => None,
                        }
                    }
                },
                _ => None,
            }
        } else {
            None
        }
    } else {
        None
    }
}

fn ampm_x(s: &str, n: usize, i: usize) -> (r: Option<bool>)
    requires
        n == s@.len(),
        i <= n,
    ensures
        match r {
            Some(p) => ampm_at(s@, i as int) == Some(p),
            None => ampm_at(s@, i as int) is None,
        },
{
    if n - i >= 2 {
        let c0 = char_at(s, n, i);
        let c1 = char_at(s, n, i + 1);
        if c1 == 'M' && c0 == 'A' {
            Some(false)
        } else if c1 == 'M' && c0 == 'P' {
            Some(true)
        } else {
            None
        }
    } else {
        None
    }
}

fn tok_step_x(s: &str, n: usize, i: usize, t: Tok, f: Fields) -> (r: Option<(usize, Fields)>)
    requires
        n == s@.len(),
        i <= n,
    ensures
        match r {
            Some((j, f2)) => tok_match(t, s@, i as int, f) == Some((j as int, f2)) && i <= j <= n,
            None => tok_match(t, s@, i as int, f) is None,
        },
{
    match t {
        Tok::Lit(c) => {
            if i < n && char_at(s, n, i) == c {
                Some((i + 1, f))
            } else {
                None
            }
        },
        Tok::Wd => match wd_x(s, n, i) {
            Some(w) => Some((i + 3, Fields { wd: Some(w), ..f })),
            None => None,
        },
        Tok::Day2 => match num2_x(s, n, i) {
            Some(v) => Some((i + 2, Fields { day: v, ..f })),
            None => None,
        },
        Tok::Mon2 => match num2_x(s, n, i) {
            Some(v) => Some((i + 2, Fields { month: v, ..f })),
            None => None,
        },
        Tok::MonName => match mon_x(s, n, i) {
            Some(m) => Some((i + 3, Fields { month: m, ..f })),
            None => None,
        },
        Tok::Year4 => match num4_x(s, n, i) {
            Some(v) => Some((i + 4, Fields { year: v, ..f })),
            None => None,
        },
        Tok::Hour2 => match num2_x(s, n, i) {
            Some(v) => Some((i + 2, Fields { hour: v, ..f })),
            None => None,
        },
        Tok::Min2 => match num2_x(s, n, i) {
            Some(v) => Some((i + 2, Fields { minute: v, ..f })),
            None => None,
        },
        Tok::Sec2 => match num2_x(s, n, i) {
            Some(v) => Some((i + 2, Fields { second: v, ..f })),
            None => None,
        },
        Tok::Offset => match offset_x(s, n, i) {
            Some((len, mins)) => Some((i + len, Fields { off_min: Some(mins), ..f })),
            None => None,
        },
        Tok::AmPm => match ampm_x(s, n, i) {
            Some(p) => Some((i + 2, Fields { pm: Some(p), ..f })),
            None => None,
        },
    }
}

/// Runs a whole pattern against the whole input.
pub fn run_toks_x(s: &str, n: usize, toks: &Vec<Tok>) -> (r: Option<Fields>)
    requires
        n == s@.len(),
    ensures
        match r {
            Some(f) => toks_match(toks@, s@, 0, init_fields()) == Some(f),
            None => toks_match(toks@, s@, 0, init_fields()) is None,
        },
{
    let ghost full = toks_match(toks@, s@, 0, init_fields());
    let mut i: usize = 0;
    let mut f: Fields = init_fields_x();
    let mut k: usize = 0;
    proof {
        assert(toks@.skip(0) =~= toks@);
    }
    while k < toks.len()
        invariant
            n == s@.len(),
            k <= toks@.len(),
            i <= n,
            full == toks_match(toks@, s@, 0, init_fields()),
            full == toks_match(toks@.skip(k as int), s@, i as int, f),
        decreases toks@.len() - k,
    {
        let t: Tok = toks[k];
        proof {
            assert(toks@.skip(k as int)[0] == toks@[k as int]);
            assert(toks@.skip(k as int).drop_first() =~= toks@.skip(k as int + 1));
            assert(toks@.skip(k as int).len() == toks@.len() - k);
        }
        match tok_step_x(s, n, i, t, f) {
            Some((j, f2)) => {
                i = j;
                f = f2;
                k = k + 1;
            },
            None => {
                return None;
            },
        }
    }
    proof {
        assert(toks@.skip(k as int) =~= Seq::<Tok>::empty());
    }
    if i == n {
        Some(f)
    } else {
        None
    }
}

/// Semantic validity of a captured field set: the date exists, the hour
/// agrees with the meridiem convention of the pattern, any captured weekday
/// names the date's actual weekday, and any offset is less than a day.
pub open spec fn fields_ok(f: Fields) -> bool {
    &&& valid_date(f.year as int, f.month as int, f.day as int)
    &&& match f.pm {
        None => 0 <= f.hour < 24,
        Some(_) => 1 <= f.hour <= 12,
    }
    &&& 0 <= f.minute < 60
    &&& 0 <= f.second < 60
    &&& match f.wd {
        Some(w) => w as int == weekday_of(day_index(f.year as int, f.month as int, f.day as int)),
        None => true,
    }
    &&& match f.off_min {
        Some(o) => -1440 < o < 1440,
        None => true,
    }
}

/// The captured hour on the 24-hour clock.
pub open spec fn hour24_of(f: Fields) -> int {
    match f.pm {
        None => f.hour as int,
        Some(p) => if f.hour == 12 {
            if p {
                12
            } else {
                0
            }
        } else {
            if p {
                f.hour + 12
            } else {
                f.hour as int
            }
        },
    }
}

pub open spec fn off_minutes(f: Fields) -> int {
    match f.off_min {
        Some(o) => o as int,
        None => 0,
    }
}

/// The instant a valid field set denotes: its civil time read in the
/// captured offset, converted to UTC; without an offset it is read as UTC.
pub open spec fn fields_epoch(f: Fields) -> int {
    civil_to_epoch(
        f.year as int,
        f.month as int,
        f.day as int,
        hour24_of(f),
        f.minute as int,
        f.second as int,
    ) - off_minutes(f) * 60
}

pub fn fields_ok_x(f: &Fields) -> (r: bool)
    ensures
        r == fields_ok(*f),
{
    if !(0 <= f.year && f.year <= 9999) {
        return false;
    }
    if !(1 <= f.month && f.month <= 12) {
        return false;
    }
    if !(1 <= f.day && f.day <= days_in_month_x(f.year, f.month)) {
        return false;
    }
    let hour_ok: bool = match f.pm {
        None => 0 <= f.hour && f.hour < 24,
        Some(_) => 1 <= f.hour && f.hour <= 12,
    };
    if !hour_ok {
        return false;
    }
    if !(0 <= f.minute && f.minute < 60 && 0 <= f.second && f.second < 60) {
        return false;
    }
    let off_ok: bool = match f.off_min {
        Some(o) => -1440 < o && o < 1440,
        None => true,
    };
    if !off_ok {
        return false;
    }
    match f.wd {
        Some(w) => {
            let di = day_index_x(f.year, f.month, f.day);
            proof {
                lemma_days_before_year_bounds(10000);
            }
            w == weekday_x(di)
        },
        None => true,
    }
}

pub fn fields_epoch_x(f: &Fields) -> (r: i64)
    requires
        fields_ok(*f),
    ensures
        r == fields_epoch(*f),
{
    let h24: i64 = match f.pm {
        None => f.hour,
        Some(p) => if f.hour == 12 {
            if p {
                12
            } else {
                0
            }
        } else {
            if p {
                f.hour + 12
            } else {
                f.hour
            }
        },
    };
    let base = epoch_from_civil_x(f.year, f.month, f.day, h24, f.minute, f.second);
    let off: i64 = match f.off_min {
        Some(o) => o,
        None => 0,
    };
    proof {
        lemma_days_before_year_bounds(10000);
        lemma_days_before_year_bounds(1970);
        crate::calendar::lemma_days_before_year_monotonic(0, 1970);
        crate::calendar::lemma_days_before_year_monotonic(1970, 10000);
    }
    base - off * 60
}

} // verus!
