//! Rendering of instants in the RFC 2822 convention, always with the
//! explicit UTC marker `+0000`, e.g. `Thu, 24 Apr 2025 16:28:26 +0000`.

use vstd::prelude::*;

use crate::calendar::day_index;
use crate::calendar::day_index_x;
use crate::calendar::civil_of_epoch;
use crate::calendar::epoch_to_civil_x;
use crate::calendar::lemma_days_before_year_bounds;
use crate::calendar::max_epoch;
use crate::calendar::min_epoch;
use crate::calendar::weekday_of;
use crate::calendar::weekday_x;
use crate::pattern::mon_name;
use crate::pattern::wd_name;

verus! {

/// The character of a decimal digit value.
pub open spec fn digit_char(d: int) -> char {
    if d == 0 {
        '0'
    } else if d == 1 {
        '1'
    } else if d == 2 {
        '2'
    } else if d == 3 {
        '3'
    } else if d == 4 {
        '4'
    } else if d == 5 {
        '5'
    } else if d == 6 {
        '6'
    } else if d == 7 {
        '7'
    } else if d == 8 {
        '8'
    } else {
        '9'
    }
}

/// A value rendered as exactly two digits.
pub open spec fn two_dig(v: int) -> Seq<char> {
    seq![digit_char(v / 10), digit_char(v % 10)]
}

/// A value rendered as exactly four digits.
pub open spec fn four_dig(v: int) -> Seq<char> {
    seq![
        digit_char(v / 1000),
        digit_char((v / 100) % 10),
        digit_char((v / 10) % 10),
        digit_char(v % 10),
    ]
}

/// The RFC 2822 text of a civil date-time whose weekday is wd.
pub open spec fn rfc2822_of(
    wd: int,
    y: int,
    m: int,
    d: int,
    h: int,
    mi: int,
    s: int,
) -> Seq<char> {
    wd_name(wd) + seq![',', ' '] + two_dig(d) + seq![' '] + mon_name(m) + seq![' '] + four_dig(y)
        + seq![' '] + two_dig(h) + seq![':'] + two_dig(mi) + seq![':'] + two_dig(s) + seq![
        ' ',
        '+',
        '0',
        '0',
        '0',
        '0',
    ]
}

/// The RFC 2822 rendering of an instant.
pub open spec fn rfc2822_spec(t: int) -> Seq<char> {
    let c = civil_of_epoch(t);
    rfc2822_of(
        weekday_of(day_index(c.year, c.month, c.day)),
        c.year,
        c.month,
        c.day,
        c.hour,
        c.minute,
        c.second,
    )
}

fn push_digit(out: &mut String, d: i64)
    requires
        0 <= d <= 9,
    ensures
        final(out)@ == old(out)@ + seq![digit_char(d as int)],
{
    let c: &str = if d == 0 {
        "0"
    } else if d == 1 {
        "1"
    } else if d == 2 {
        "2"
    } else if d == 3 {
        "3"
    } else if d == 4 {
        "4"
    } else if d == 5 {
        "5"
    } else if d == 6 {
        "6"
    } else if d == 7 {
        "7"
    } else if d == 8 {
        "8"
    } else {
        "9"
    };
    proof {
        reveal_strlit("0");
        reveal_strlit("1");
        reveal_strlit("2");
        reveal_strlit("3");
        reveal_strlit("4");
        reveal_strlit("5");
        reveal_strlit("6");
        reveal_strlit("7");
        reveal_strlit("8");
        reveal_strlit("9");
        assert(c@ =~= seq![digit_char(d as int)]);
    }
    out.append(c);
}

fn push_two(out: &mut String, v: i64)
    requires
        0 <= v <= 99,
    ensures
        final(out)@ == old(out)@ + two_dig(v as int),
{
    push_digit(out, v / 10);
    push_digit(out, v % 10);
    proof {
        assert(final(out)@ =~= old(out)@ + two_dig(v as int));
    }
}

fn push_four(out: &mut String, v: i64)
    requires
        0 <= v <= 9999,
    ensures
        final(out)@ == old(out)@ + four_dig(v as int),
{
    push_digit(out, v / 1000);
    push_digit(out, (v / 100) % 10);
    push_digit(out, (v / 10) % 10);
    push_digit(out, v % 10);
    proof {
        assert(final(out)@ =~= old(out)@ + four_dig(v as int));
    }
}

fn push_wd(out: &mut String, w: i64)
    requires
        0 <= w <= 6,
    ensures
        final(out)@ == old(out)@ + wd_name(w as int),
{
    let c: &str = if w == 0 {
        "Sun"
    } else if w == 1 {
        "Mon"
    } else if w == 2 {
        "Tue"
    } else if w == 3 {
        "Wed"
    } else if w == 4 {
        "Thu"
    } else if w == 5 {
        "Fri"
    } else {
        "Sat"
    };
    proof {
        reveal_strlit("Sun");
        reveal_strlit("Mon");
        reveal_strlit("Tue");
        reveal_strlit("Wed");
        reveal_strlit("Thu");
        reveal_strlit("Fri");
        reveal_strlit("Sat");
        assert(c@ =~= wd_name(w as int));
    }
    out.append(c);
}

fn push_mon(out: &mut String, m: i64)
    requires
        1 <= m <= 12,
    ensures
        final(out)@ == old(out)@ + mon_name(m as int),
{
    let c: &str = if m == 1 {
        "Jan"
    } else if m == 2 {
        "Feb"
    } else if m == 3 {
        "Mar"
    } else if m == 4 {
        "Apr"
    } else if m == 5 {
        "May"
    } else if m == 6 {
        "Jun"
    } else if m == 7 {
        "Jul"
    } else if m == 8 {
        "Aug"
    } else if m == 9 {
        "Sep"
    } else if m == 10 {
        "Oct"
    } else if m == 11 {
        "Nov"
    } else {
        "Dec"
    };
    proof {
        reveal_strlit("Jan");
        reveal_strlit("Feb");
        reveal_strlit("Mar");
        reveal_strlit("Apr");
        reveal_strlit("May");
        reveal_strlit("Jun");
        reveal_strlit("Jul");
        reveal_strlit("Aug");
        reveal_strlit("Sep");
        reveal_strlit("Oct");
        reveal_strlit("Nov");
        reveal_strlit("Dec");
        assert(c@ =~= mon_name(m as int));
    }
    out.append(c);
}

/// Renders a representable instant in the RFC 2822 convention.
pub fn rfc2822_x(t: i64) -> (r: String)
    requires
        min_epoch() <= t <= max_epoch(),
    ensures
        r@ == rfc2822_spec(t as int),
{
    let c = epoch_to_civil_x(t);
    let di = day_index_x(c.year, c.month, c.day);
    proof {
        lemma_days_before_year_bounds(10000);
        vstd::arithmetic::div_mod::lemma_mod_bound(di as int + 6, 7);
    }
    let wd = weekday_x(di);
    let mut out = String::new();
    push_wd(&mut out, wd);
    let comma = ", ";
    proof {
        reveal_strlit(", ");
        assert(comma@ =~= seq![',', ' ']);
    }
    out.append(comma);
    push_two(&mut out, c.day);
    let sp = " ";
    proof {
        reveal_strlit(" ");
        assert(sp@ =~= seq![' ']);
    }
    out.append(sp);
    push_mon(&mut out, c.month);
    out.append(sp);
    push_four(&mut out, c.year);
    out.append(sp);
    push_two(&mut out, c.hour);
    let colon = ":";
    proof {
        reveal_strlit(":");
        assert(colon@ =~= seq![':']);
    }
    out.append(colon);
    push_two(&mut out, c.minute);
    out.append(colon);
    push_two(&mut out, c.second);
    let zulu = " +0000";
    proof {
        reveal_strlit(" +0000");
        assert(zulu@ =~= seq![' ', '+', '0', '0', '0', '0']);
    }
    out.append(zulu);
    proof {
        assert(out@ =~= rfc2822_spec(t as int));
    }
    out
}

} // verus!
