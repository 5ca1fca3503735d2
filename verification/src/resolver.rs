//! The timestamp resolver.
//!
//! `resolve` tries the catalog patterns in their fixed order and returns the
//! first match, converted to UTC epoch seconds and paired with the matching
//! pattern's identifier. If no pattern matches, the whole input is read as a
//! signed count of epoch seconds under the label `UNIX TIME`. Instants
//! outside the representable range (years 0 through 9999 UTC) are refused
//! rather than wrapped. Anything else is no match.

use vstd::prelude::*;

use crate::calendar::max_epoch;
use crate::calendar::min_epoch;
use crate::calendar::max_epoch_x;
use crate::calendar::min_epoch_x;
use crate::calendar::lemma_days_before_year_bounds;
use crate::catalog::catalog_label;
use crate::catalog::catalog_label_x;
use crate::catalog::catalog_len;
use crate::catalog::catalog_toks;
use crate::catalog::catalog_toks_x;
use crate::catalog::unix_label;
use crate::pattern::digit_val;
use crate::pattern::fields_epoch;
use crate::pattern::fields_epoch_x;
use crate::pattern::fields_ok;
use crate::pattern::fields_ok_x;
use crate::pattern::init_fields;
use crate::pattern::is_digit;
use crate::pattern::run_toks_x;
use crate::pattern::toks_match;

verus! {

/// What catalog entry k makes of the input: the instant it denotes, if the
/// pattern matches the whole input and the captured fields are valid.
pub open spec fn fmt_result(k: int, s: Seq<char>) -> Option<int> {
    match toks_match(catalog_toks(k), s, 0, init_fields()) {
        Some(f) => if fields_ok(f) {
            Some(fields_epoch(f))
        } else {
            None
        },
        None => None,
    }
}

/// The first catalog entry at or after k that resolves the input, with the
/// instant it denotes.
pub open spec fn first_match_from(s: Seq<char>, k: int) -> Option<(int, int)>
    decreases catalog_len() - k,
{
    if k < 0 || k >= catalog_len() {
        None
    } else {
        match fmt_result(k, s) {
            Some(e) => Some((k, e)),
            None => first_match_from(s, k + 1),
        }
    }
}

/// The value of a digit string, most significant digit first.
pub open spec fn digits_val(s: Seq<char>) -> int
    decreases s.len(),
{
    if s.len() == 0 {
        0
    } else {
        10 * digits_val(s.drop_last()) + digit_val(s.last())
    }
}

pub open spec fn all_digits(s: Seq<char>) -> bool {
    forall|i: int| 0 <= i < s.len() ==> is_digit(s[i])
}

/// The mathematical value of the input read as a signed decimal integer:
/// an optional sign followed by one or more digits.
pub open spec fn int_value(s: Seq<char>) -> Option<int> {
    if s.len() > 0 && (s[0] == '+' || s[0] == '-') {
        let body = s.drop_first();
        if body.len() > 0 && all_digits(body) {
            Some(
                if s[0] == '-' {
                    -digits_val(body)
                } else {
                    digits_val(body)
                },
            )
        } else {
            None
        }
    } else {
        if s.len() > 0 && all_digits(s) {
            Some(digits_val(s))
        } else {
            None
        }
    }
}

/// What the whole resolver makes of the input.
pub open spec fn resolve_spec(s: Seq<char>) -> Option<(int, Seq<char>)> {
    match first_match_from(s, 0) {
        Some((k, e)) => if min_epoch() <= e <= max_epoch() {
            Some((e, catalog_label(k)))
        } else {
            None
        },
        None => match int_value(s) {
            Some(v) => if min_epoch() <= v <= max_epoch() {
                Some((v, unix_label()))
            } else {
                None
            },
            None => None,
        },
    }
}

/// A successful resolution: the instant in epoch seconds, and the identifier
/// of the format it was written in.
pub struct Resolution {
    pub epoch_seconds: i64,
    pub label: String,
}

proof fn lemma_digits_val_nonneg(s: Seq<char>)
    requires
        all_digits(s),
    ensures
        digits_val(s) >= 0,
    decreases s.len(),
{
    if s.len() > 0 {
        assert(all_digits(s.drop_last())) by {
            assert(forall|i: int|
                0 <= i < s.len() - 1 ==> s.drop_last()[i] == s[i] && is_digit(s[i]));
        }
        lemma_digits_val_nonneg(s.drop_last());
    }
}

/// Reads the whole input as epoch seconds, refusing values outside the
/// representable range.
fn parse_epoch_x(s: &str, n: usize) -> (r: Option<i64>)
    requires
        n == s@.len(),
    ensures
        match r {
            Some(v) => int_value(s@) == Some(v as int) && min_epoch() <= v <= max_epoch(),
            None => match int_value(s@) {
                Some(v) => !(min_epoch() <= v <= max_epoch()),
                None => true,
            },
        },
{
    proof {
        lemma_days_before_year_bounds(1970);
        lemma_days_before_year_bounds(10000);
    }
    if n == 0 {
        return None;
    }
    let c0 = s.get_char(0);
    let signed: bool = c0 == '+' || c0 == '-';
    let neg: bool = c0 == '-';
    let start: usize = if signed {
        1
    } else {
        0
    };
    let ghost body: Seq<char> = if signed {
        s@.drop_first()
    } else {
        s@
    };
    if n == start {
        return None;
    }
    let mut j: usize = start;
    let mut acc: i64 = 0;
    let mut over: bool = false;
    while j < n
        invariant
            n == s@.len(),
            start <= j <= n,
            start <= 1,
            (start == 1) == signed,
            signed ==> (s@[0] == '+' || s@[0] == '-'),
            !signed ==> !(s@[0] == '+' || s@[0] == '-'),
            !signed ==> body == s@,
            signed ==> body == s@.drop_first(),
            body.len() == n - start,
            forall|i: int| 0 <= i < j - start ==> is_digit(body[i]),
            !over ==> acc == digits_val(body.take(j - start)) && 0 <= acc
                <= 10000000000000,
            over ==> digits_val(body.take(j - start)) > 10000000000000,
            all_digits(body.take(j - start)),
        decreases n - j,
    {
        let c = s.get_char(j);
        let u: u32 = c as u32;
        proof {
            assert(body[j - start] == s@[j as int]);
        }
        if !(48 <= u && u <= 57) {
            proof {
                assert(!is_digit(body[j - start]));
                assert(!all_digits(body));
            }
            return None;
        }
        let d: i64 = (u - 48) as i64;
        proof {
            assert(body.take(j - start + 1).drop_last() =~= body.take(j - start));
            assert(body.take(j - start + 1).last() == body[j - start]);
            assert(all_digits(body.take(j - start + 1)));
            if over {
                lemma_digits_val_nonneg(body.take(j - start));
            }
        }
        if over {
            j = j + 1;
            continue ;
        }
        acc = acc * 10 + d;
        if acc > 10000000000000 {
            over = true;
        }
        j = j + 1;
    }
    proof {
        assert(body.take(n - start) =~= body);
        if signed {
            assert(int_value(s@) == Some(
                if s@[0] == '-' {
                    -digits_val(body)
                } else {
                    digits_val(body)
                },
            ));
        } else {
            assert(int_value(s@) == Some(digits_val(body)));
        }
    }
    let lo = min_epoch_x();
    let hi = max_epoch_x();
    if over {
        proof {
            assert(digits_val(body) > 10000000000000);
            assert(max_epoch() < 10000000000000);
            assert(min_epoch() > -10000000000000);
        }
        return None;
    }
    let v: i64 = if neg {
        -acc
    } else {
        acc
    };
    if lo <= v && v <= hi {
        Some(v)
    } else {
        None
    }
}

/// Resolves an arbitrary decoded string against the format catalog, falling
/// back to raw epoch seconds; the first matching format wins.
pub fn resolve(raw: &str) -> (r: Option<Resolution>)
    ensures
        match r {
            Some(res) => resolve_spec(raw@) == Some((res.epoch_seconds as int, res.label@)),
            None => resolve_spec(raw@) is None,
        },
{
    let n: usize = raw.unicode_len();
    let mut k: usize = 0;
    while k < 14
        invariant
            n == raw@.len(),
            0 <= k <= 14,
            first_match_from(raw@, 0) == first_match_from(raw@, k as int),
        decreases 14 - k,
    {
        let toks = catalog_toks_x(k);
        let mut step: Option<i64> = None;
        match run_toks_x(raw, n, &toks) {
            Some(f) => {
                if fields_ok_x(&f) {
                    step = Some(fields_epoch_x(&f));
                }
            },
            None => {},
        }
        match step {
            Some(e) => {
                proof {
                    assert(fmt_result(k as int, raw@) == Some(e as int));
                    assert(first_match_from(raw@, k as int) == Some((k as int, e as int)));
                }
                let lo = min_epoch_x();
                let hi = max_epoch_x();
                if lo <= e && e <= hi {
                    return Some(Resolution { epoch_seconds: e, label: catalog_label_x(k) });
                } else {
                    return None;
                }
            },
            None => {
                proof {
                    assert(fmt_result(k as int, raw@) is None);
                    assert(first_match_from(raw@, k as int) == first_match_from(
                        raw@,
                        k as int + 1,
                    ));
                }
                k = k + 1;
            },
        }
    }
    proof {
        assert(first_match_from(raw@, 14) is None);
    }
    match parse_epoch_x(raw, n) {
        Some(v) => Some(Resolution { epoch_seconds: v, label: String::from_str("UNIX TIME") }),
        None => None,
    }
}

} // verus!
