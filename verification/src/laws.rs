//! Laws of the resolver, stated and proved over its specification.

use vstd::prelude::*;

use crate::calendar::civil_of_epoch;
use crate::calendar::day_index;
use crate::calendar::lemma_civil_of_epoch;
use crate::calendar::max_epoch;
use crate::calendar::min_epoch;
use crate::calendar::weekday_of;
use crate::catalog::catalog_label;
use crate::catalog::catalog_len;
use crate::catalog::catalog_toks;
use crate::catalog::unix_label;
use crate::pattern::digit_val;
use crate::pattern::fields_epoch;
use crate::pattern::fields_ok;
use crate::pattern::hour24_of;
use crate::pattern::init_fields;
use crate::pattern::mon_name;
use crate::pattern::offset_at;
use crate::pattern::wd_name;
use crate::pattern::is_digit;
use crate::pattern::tok_match;
use crate::pattern::toks_match;
use crate::pattern::wd_at;
use crate::pattern::mon_at;
use crate::pattern::num2_at;
use crate::pattern::num4_at;
use crate::pattern::Fields;
use crate::pattern::Tok;
use crate::resolver::all_digits;
use crate::resolver::first_match_from;
use crate::resolver::fmt_result;
use crate::resolver::int_value;
use crate::resolver::resolve_spec;
use crate::render::digit_char;
use crate::render::four_dig;
use crate::render::rfc2822_of;
use crate::render::rfc2822_spec;
use crate::render::two_dig;

verus! {

proof fn lemma_first_from(s: Seq<char>, i: int, k: int, e: int)
    requires
        0 <= i <= k < catalog_len(),
        fmt_result(k, s) == Some(e),
        forall|j: int| i <= j < k ==> fmt_result(j, s) is None,
    ensures
        first_match_from(s, i) == Some((k, e)),
    decreases k - i,
{
    if i < k {
        lemma_first_from(s, i + 1, k, e);
    }
}

/// The catalog order is the tie-break: if entry k resolves the input and no
/// earlier entry does, the resolver's answer comes from entry k, whatever
/// the later entries would have said.
pub proof fn lemma_earlier_format_wins(s: Seq<char>, k: int, e: int)
    requires
        0 <= k < catalog_len(),
        fmt_result(k, s) == Some(e),
        forall|j: int| 0 <= j < k ==> fmt_result(j, s) is None,
    ensures
        first_match_from(s, 0) == Some((k, e)),
        min_epoch() <= e <= max_epoch() ==> resolve_spec(s) == Some((e, catalog_label(k))),
        !(min_epoch() <= e <= max_epoch()) ==> resolve_spec(s) is None,
{
    lemma_first_from(s, 0, k, e);
}

proof fn lemma_int_shape(s: Seq<char>)
    requires
        int_value(s) is Some,
    ensures
        s.len() >= 1,
        is_digit(s[0]) || s[0] == '+' || s[0] == '-',
        forall|i: int| 1 <= i < s.len() ==> is_digit(s[i]),
{
    if s.len() > 0 && (s[0] == '+' || s[0] == '-') {
        let body = s.drop_first();
        assert(all_digits(body));
        assert forall|i: int| 1 <= i < s.len() implies is_digit(s[i]) by {
            assert(body[i - 1] == s[i]);
        }
    } else {
        assert(all_digits(s));
    }
}

/// No catalog pattern matches a string of sign and digits: each pattern
/// demands a letter at its start or a punctuation mark where such a string
/// can only carry a digit.
proof fn lemma_no_format_on_integer(s: Seq<char>, k: int)
    requires
        0 <= k < catalog_len(),
        s.len() >= 1,
        is_digit(s[0]) || s[0] == '+' || s[0] == '-',
        forall|i: int| 1 <= i < s.len() ==> is_digit(s[i]),
    ensures
        fmt_result(k, s) is None,
{
    let toks = catalog_toks(k);
    let f0 = init_fields();
    if toks_match(toks, s, 0, f0) is Some {
        assert(toks.len() > 0);
        assert(tok_match(toks[0], s, 0, f0) is Some);
        let r0 = tok_match(toks[0], s, 0, f0);
        if k == 0 || k == 1 || k == 13 {
            assert(toks[0] == Tok::Wd);
            assert(wd_at(s, 0) is Some);
            assert(false);
        } else if k == 12 {
            assert(toks[0] == Tok::MonName);
            assert(mon_at(s, 0) is Some);
            assert(false);
        } else if 2 <= k <= 7 {
            assert(toks[0] == Tok::Year4);
            assert(num4_at(s, 0) is Some);
            let j = r0->Some_0.0;
            let f1 = r0->Some_0.1;
            assert(j == 4);
            let rest = toks.drop_first();
            assert(toks_match(rest, s, 4, f1) is Some);
            assert(rest.len() > 0);
            assert(rest[0] == toks[1]);
            assert(tok_match(toks[1], s, 4, f1) is Some);
            assert(toks[1] == Tok::Lit('-') || toks[1] == Tok::Lit('/'));
            assert(4 < s.len() && (s[4] == '-' || s[4] == '/'));
            assert(is_digit(s[4]));
            assert(false);
        } else {
            assert(toks[0] == Tok::Day2 || toks[0] == Tok::Mon2);
            assert(num2_at(s, 0) is Some);
            let j = r0->Some_0.0;
            let f1 = r0->Some_0.1;
            assert(j == 2);
            let rest = toks.drop_first();
            assert(toks_match(rest, s, 2, f1) is Some);
            assert(rest.len() > 0);
            assert(rest[0] == toks[1]);
            assert(tok_match(toks[1], s, 2, f1) is Some);
            assert(toks[1] == Tok::Lit('/') || toks[1] == Tok::Lit('-') || toks[1] == Tok::Lit(
                ' ',
            ));
            assert(2 < s.len() && (s[2] == '/' || s[2] == '-' || s[2] == ' '));
            assert(is_digit(s[2]));
            assert(false);
        }
    }
}

proof fn lemma_no_first_match(s: Seq<char>, k: int)
    requires
        0 <= k <= catalog_len(),
        forall|j: int| k <= j < catalog_len() ==> fmt_result(j, s) is None,
    ensures
        first_match_from(s, k) is None,
    decreases catalog_len() - k,
{
    if k < catalog_len() {
        lemma_no_first_match(s, k + 1);
    }
}

/// A string that reads as a signed integer always falls through to the
/// epoch-seconds interpretation: in range it resolves to exactly that
/// instant under the `UNIX TIME` label, out of range it is no match
/// rather than a wrapped or clamped value.
pub proof fn lemma_unix_fallback(s: Seq<char>, v: int)
    requires
        int_value(s) == Some(v),
    ensures
        resolve_spec(s) == (if min_epoch() <= v <= max_epoch() {
            Some((v, unix_label()))
        } else {
            None::<(int, Seq<char>)>
        }),
{
    lemma_int_shape(s);
    assert forall|j: int| 0 <= j < catalog_len() implies fmt_result(j, s) is None by {
        lemma_no_format_on_integer(s, j);
    }
    lemma_no_first_match(s, 0);
}

proof fn lemma_digit_char_val(x: int)
    requires
        0 <= x <= 9,
    ensures
        is_digit(digit_char(x)),
        digit_val(digit_char(x)) == x,
{
}

proof fn lemma_num2_two_dig(s: Seq<char>, i: int, v: int)
    requires
        0 <= v <= 99,
        0 <= i,
        i + 2 <= s.len(),
        s[i] == two_dig(v)[0],
        s[i + 1] == two_dig(v)[1],
    ensures
        num2_at(s, i) == Some(v),
{
    vstd::arithmetic::div_mod::lemma_fundamental_div_mod(v, 10);
    vstd::arithmetic::div_mod::lemma_mod_bound(v, 10);
    lemma_digit_char_val(v / 10);
    lemma_digit_char_val(v % 10);
}

proof fn lemma_num4_four_dig(s: Seq<char>, i: int, v: int)
    requires
        0 <= v <= 9999,
        0 <= i,
        i + 4 <= s.len(),
        s[i] == four_dig(v)[0],
        s[i + 1] == four_dig(v)[1],
        s[i + 2] == four_dig(v)[2],
        s[i + 3] == four_dig(v)[3],
    ensures
        num4_at(s, i) == Some(v),
{
    vstd::arithmetic::div_mod::lemma_fundamental_div_mod(v, 10);
    vstd::arithmetic::div_mod::lemma_mod_bound(v, 10);
    vstd::arithmetic::div_mod::lemma_fundamental_div_mod(v / 10, 10);
    vstd::arithmetic::div_mod::lemma_mod_bound(v / 10, 10);
    vstd::arithmetic::div_mod::lemma_fundamental_div_mod(v / 100, 10);
    vstd::arithmetic::div_mod::lemma_mod_bound(v / 100, 10);
    vstd::arithmetic::div_mod::lemma_div_denominator(v, 10, 10);
    vstd::arithmetic::div_mod::lemma_div_denominator(v, 100, 10);
    assert(0 <= v / 1000 <= 9) by {
        vstd::arithmetic::div_mod::lemma_div_is_ordered(0, v, 1000);
        vstd::arithmetic::div_mod::lemma_div_is_ordered(v, 9999, 1000);
    }
    lemma_digit_char_val(v / 1000);
    lemma_digit_char_val((v / 100) % 10);
    lemma_digit_char_val((v / 10) % 10);
    lemma_digit_char_val(v % 10);
}

proof fn lemma_toks_step(toks: Seq<Tok>, s: Seq<char>, i: int, f: Fields, j: int, f2: Fields)
    requires
        toks.len() > 0,
        tok_match(toks[0], s, i, f) == Some((j, f2)),
    ensures
        toks_match(toks, s, i, f) == toks_match(toks.drop_first(), s, j, f2),
{
}

#[verifier::rlimit(100)]
proof fn lemma_entry0_span1(
    s: Seq<char>,
    w: int,
    y: int,
    m: int,
    d: int,
    h: int,
    mi: int,
    sec: int,
    g: Fields,
)
    requires
        s == rfc2822_of(w, y, m, d, h, mi, sec),
        0 <= w <= 6,
        1 <= m <= 12,
        0 <= d <= 99,
    ensures
        toks_match(catalog_toks(0), s, 0, g) == toks_match(
            catalog_toks(0).skip(4),
            s,
            7,
            Fields { wd: Some(w as i64), day: d as i64, ..g },
        ),
{
    let t0 = catalog_toks(0);
    assert(wd_name(w).len() == 3);
    assert(mon_name(m).len() == 3);
    assert(s.len() == 31);
    let a = wd_name(w);
    assert(s[0] == a[0] && s[1] == a[1] && s[2] == a[2]);
    assert(s[3] == ',' && s[4] == ' ');
    assert(s[5] == two_dig(d)[0] && s[6] == two_dig(d)[1]);
    assert(wd_at(s, 0) == Some(w));
    lemma_num2_two_dig(s, 5, d);
    let f1 = Fields { wd: Some(w as i64), ..g };
    let f4 = Fields { wd: Some(w as i64), day: d as i64, ..g };
    assert(t0[0] == Tok::Wd);
    assert(tok_match(Tok::Wd, s, 0, g) == Some((3 as int, f1)));
    lemma_toks_step(t0, s, 0, g, 3, f1);
    assert(t0.drop_first() =~= t0.skip(1));
    assert(t0.skip(1)[0] == t0[1] && t0[1] == Tok::Lit(','));
    assert(tok_match(Tok::Lit(','), s, 3, f1) == Some((4 as int, f1)));
    lemma_toks_step(t0.skip(1), s, 3, f1, 4, f1);
    assert(t0.skip(1).drop_first() =~= t0.skip(2));
    assert(t0.skip(2)[0] == t0[2] && t0[2] == Tok::Lit(' '));
    assert(tok_match(Tok::Lit(' '), s, 4, f1) == Some((5 as int, f1)));
    lemma_toks_step(t0.skip(2), s, 4, f1, 5, f1);
    assert(t0.skip(2).drop_first() =~= t0.skip(3));
    assert(t0.skip(3)[0] == t0[3] && t0[3] == Tok::Day2);
    assert(tok_match(Tok::Day2, s, 5, f1) == Some((7 as int, f4)));
    lemma_toks_step(t0.skip(3), s, 5, f1, 7, f4);
    assert(t0.skip(3).drop_first() =~= t0.skip(4));
}

#[verifier::rlimit(100)]
proof fn lemma_entry0_span2(
    s: Seq<char>,
    w: int,
    y: int,
    m: int,
    d: int,
    h: int,
    mi: int,
    sec: int,
    g: Fields,
)
    requires
        s == rfc2822_of(w, y, m, d, h, mi, sec),
        0 <= w <= 6,
        1 <= m <= 12,
        0 <= y <= 9999,
    ensures
        toks_match(catalog_toks(0).skip(4), s, 7, g) == toks_match(
            catalog_toks(0).skip(9),
            s,
            17,
            Fields { month: m as i64, year: y as i64, ..g },
        ),
{
    let t0 = catalog_toks(0);
    assert(wd_name(w).len() == 3);
    assert(mon_name(m).len() == 3);
    assert(s.len() == 31);
    let mn = mon_name(m);
    assert(s[7] == ' ');
    assert(s[8] == mn[0] && s[9] == mn[1] && s[10] == mn[2]);
    assert(s[11] == ' ');
    assert(s[12] == four_dig(y)[0] && s[13] == four_dig(y)[1] && s[14] == four_dig(y)[2] && s[15]
        == four_dig(y)[3]);
    assert(s[16] == ' ');
    assert(mon_at(s, 8) == Some(m));
    lemma_num4_four_dig(s, 12, y);
    let f5 = Fields { month: m as i64, ..g };
    let f8 = Fields { month: m as i64, year: y as i64, ..g };
    assert(t0.skip(4)[0] == t0[4] && t0[4] == Tok::Lit(' '));
    assert(tok_match(Tok::Lit(' '), s, 7, g) == Some((8 as int, g)));
    lemma_toks_step(t0.skip(4), s, 7, g, 8, g);
    assert(t0.skip(4).drop_first() =~= t0.skip(5));
    assert(t0.skip(5)[0] == t0[5] && t0[5] == Tok::MonName);
    assert(tok_match(Tok::MonName, s, 8, g) == Some((11 as int, f5)));
    lemma_toks_step(t0.skip(5), s, 8, g, 11, f5);
    assert(t0.skip(5).drop_first() =~= t0.skip(6));
    assert(t0.skip(6)[0] == t0[6] && t0[6] == Tok::Lit(' '));
    assert(tok_match(Tok::Lit(' '), s, 11, f5) == Some((12 as int, f5)));
    lemma_toks_step(t0.skip(6), s, 11, f5, 12, f5);
    assert(t0.skip(6).drop_first() =~= t0.skip(7));
    assert(t0.skip(7)[0] == t0[7] && t0[7] == Tok::Year4);
    assert(tok_match(Tok::Year4, s, 12, f5) == Some((16 as int, f8)));
    lemma_toks_step(t0.skip(7), s, 12, f5, 16, f8);
    assert(t0.skip(7).drop_first() =~= t0.skip(8));
    assert(t0.skip(8)[0] == t0[8] && t0[8] == Tok::Lit(' '));
    assert(tok_match(Tok::Lit(' '), s, 16, f8) == Some((17 as int, f8)));
    lemma_toks_step(t0.skip(8), s, 16, f8, 17, f8);
    assert(t0.skip(8).drop_first() =~= t0.skip(9));
}

#[verifier::rlimit(100)]
proof fn lemma_entry0_span3(
    s: Seq<char>,
    w: int,
    y: int,
    m: int,
    d: int,
    h: int,
    mi: int,
    sec: int,
    g: Fields,
)
    requires
        s == rfc2822_of(w, y, m, d, h, mi, sec),
        0 <= w <= 6,
        1 <= m <= 12,
        0 <= h <= 99,
        0 <= mi <= 99,
        0 <= sec <= 99,
    ensures
        toks_match(catalog_toks(0).skip(9), s, 17, g) == toks_match(
            catalog_toks(0).skip(14),
            s,
            25,
            Fields { hour: h as i64, minute: mi as i64, second: sec as i64, ..g },
        ),
{
    let t0 = catalog_toks(0);
    assert(wd_name(w).len() == 3);
    assert(mon_name(m).len() == 3);
    assert(s.len() == 31);
    assert(s[17] == two_dig(h)[0] && s[18] == two_dig(h)[1]);
    assert(s[19] == ':');
    assert(s[20] == two_dig(mi)[0] && s[21] == two_dig(mi)[1]);
    assert(s[22] == ':');
    assert(s[23] == two_dig(sec)[0] && s[24] == two_dig(sec)[1]);
    lemma_num2_two_dig(s, 17, h);
    lemma_num2_two_dig(s, 20, mi);
    lemma_num2_two_dig(s, 23, sec);
    let f10 = Fields { hour: h as i64, ..g };
    let f12 = Fields { hour: h as i64, minute: mi as i64, ..g };
    let f14 = Fields { hour: h as i64, minute: mi as i64, second: sec as i64, ..g };
    assert(t0.skip(9)[0] == t0[9] && t0[9] == Tok::Hour2);
    assert(tok_match(Tok::Hour2, s, 17, g) == Some((19 as int, f10)));
    lemma_toks_step(t0.skip(9), s, 17, g, 19, f10);
    assert(t0.skip(9).drop_first() =~= t0.skip(10));
    assert(t0.skip(10)[0] == t0[10] && t0[10] == Tok::Lit(':'));
    assert(tok_match(Tok::Lit(':'), s, 19, f10) == Some((20 as int, f10)));
    lemma_toks_step(t0.skip(10), s, 19, f10, 20, f10);
    assert(t0.skip(10).drop_first() =~= t0.skip(11));
    assert(t0.skip(11)[0] == t0[11] && t0[11] == Tok::Min2);
    assert(tok_match(Tok::Min2, s, 20, f10) == Some((22 as int, f12)));
    lemma_toks_step(t0.skip(11), s, 20, f10, 22, f12);
    assert(t0.skip(11).drop_first() =~= t0.skip(12));
    assert(t0.skip(12)[0] == t0[12] && t0[12] == Tok::Lit(':'));
    assert(tok_match(Tok::Lit(':'), s, 22, f12) == Some((23 as int, f12)));
    lemma_toks_step(t0.skip(12), s, 22, f12, 23, f12);
    assert(t0.skip(12).drop_first() =~= t0.skip(13));
    assert(t0.skip(13)[0] == t0[13] && t0[13] == Tok::Sec2);
    assert(tok_match(Tok::Sec2, s, 23, f12) == Some((25 as int, f14)));
    lemma_toks_step(t0.skip(13), s, 23, f12, 25, f14);
    assert(t0.skip(13).drop_first() =~= t0.skip(14));
}

#[verifier::rlimit(100)]
proof fn lemma_entry0_span4(
    s: Seq<char>,
    w: int,
    y: int,
    m: int,
    d: int,
    h: int,
    mi: int,
    sec: int,
    g: Fields,
)
    requires
        s == rfc2822_of(w, y, m, d, h, mi, sec),
        0 <= w <= 6,
        1 <= m <= 12,
    ensures
        toks_match(catalog_toks(0).skip(14), s, 25, g) == Some(
            Fields { off_min: Some(0 as i64), ..g },
        ),
{
    let t0 = catalog_toks(0);
    assert(wd_name(w).len() == 3);
    assert(mon_name(m).len() == 3);
    assert(s.len() == 31);
    assert(s[25] == ' ' && s[26] == '+' && s[27] == '0' && s[28] == '0' && s[29] == '0' && s[30]
        == '0');
    assert(digit_val('0') == 0);
    assert(offset_at(s, 26) == Some((5 as int, 0 as int)));
    let fz = Fields { off_min: Some(0 as i64), ..g };
    assert(t0.skip(14)[0] == t0[14] && t0[14] == Tok::Lit(' '));
    assert(tok_match(Tok::Lit(' '), s, 25, g) == Some((26 as int, g)));
    lemma_toks_step(t0.skip(14), s, 25, g, 26, g);
    assert(t0.skip(14).drop_first() =~= t0.skip(15));
    assert(t0.skip(15)[0] == t0[15] && t0[15] == Tok::Offset);
    assert(tok_match(Tok::Offset, s, 26, g) == Some((31 as int, fz)));
    lemma_toks_step(t0.skip(15), s, 26, g, 31, fz);
    assert(t0.skip(15).drop_first() =~= t0.skip(16));
    assert(t0.skip(16).len() == 0);
    assert(toks_match(t0.skip(16), s, 31, fz) == Some(fz));
}

/// Round trip: rendering any representable instant in the RFC 2822
/// convention and feeding the text back to the resolver returns exactly
/// that instant, resolved under the first catalog entry.
#[verifier::rlimit(100)]
pub proof fn lemma_rfc2822_round_trip(t: int)
    requires
        min_epoch() <= t <= max_epoch(),
    ensures
        resolve_spec(rfc2822_spec(t)) == Some((t, catalog_label(0))),
{
    lemma_civil_of_epoch(t);
    let c = civil_of_epoch(t);
    let di = day_index(c.year, c.month, c.day);
    let w = weekday_of(di);
    vstd::arithmetic::div_mod::lemma_mod_bound(di + 6, 7);
    let s = rfc2822_spec(t);
    let f0 = init_fields();
    let g1 = Fields { wd: Some(w as i64), day: c.day as i64, ..f0 };
    let g2 = Fields { month: c.month as i64, year: c.year as i64, ..g1 };
    let g3 = Fields { hour: c.hour as i64, minute: c.minute as i64, second: c.second as i64, ..g2 };
    let fz = Fields { off_min: Some(0 as i64), ..g3 };
    lemma_entry0_span1(s, w, c.year, c.month, c.day, c.hour, c.minute, c.second, f0);
    lemma_entry0_span2(s, w, c.year, c.month, c.day, c.hour, c.minute, c.second, g1);
    lemma_entry0_span3(s, w, c.year, c.month, c.day, c.hour, c.minute, c.second, g2);
    lemma_entry0_span4(s, w, c.year, c.month, c.day, c.hour, c.minute, c.second, g3);
    assert(toks_match(catalog_toks(0), s, 0, f0) == Some(fz));
    assert(fields_ok(fz));
    assert(hour24_of(fz) == c.hour);
    assert(fields_epoch(fz) == t);
    assert(fmt_result(0, s) == Some(t));
    assert(first_match_from(s, 0) == Some((0 as int, t)));
}

} // verus!
