//! The fixed, ordered catalog of the fourteen recognized formats.
//!
//! Order is load-bearing: the resolver tries the patterns in this order and
//! the first match wins, which settles ambiguous inputs such as slash-dates
//! that fit both the US and the European ordering. Each entry's identifier
//! string is the pattern itself, reproduced verbatim in output.

use vstd::prelude::*;

use crate::pattern::Tok;

verus! {

/// The number of catalog entries.
pub open spec fn catalog_len() -> int {
    14
}

/// Hour, minute and second on the 24-hour clock: `H:M:S`.
pub open spec fn hms_toks() -> Seq<Tok> {
    seq![Tok::Hour2, Tok::Lit(':'), Tok::Min2, Tok::Lit(':'), Tok::Sec2]
}

/// Twelve-hour time with a meridiem marker: `I:M:S AM` or `I:M:S PM`.
pub open spec fn hms12_toks() -> Seq<Tok> {
    hms_toks() + seq![Tok::Lit(' '), Tok::AmPm]
}

/// The token pattern of catalog entry k.
pub open spec fn catalog_toks(k: int) -> Seq<Tok> {
    if k == 0 {
        seq![
            Tok::Wd,
            Tok::Lit(','),
            Tok::Lit(' '),
            Tok::Day2,
            Tok::Lit(' '),
            Tok::MonName,
            Tok::Lit(' '),
            Tok::Year4,
            Tok::Lit(' '),
        ] + hms_toks() + seq![Tok::Lit(' '), Tok::Offset]
    } else if k == 1 {
        seq![
            Tok::Wd,
            Tok::Lit(','),
            Tok::Lit(' '),
            Tok::Day2,
            Tok::Lit(' '),
            Tok::MonName,
            Tok::Lit(' '),
            Tok::Year4,
            Tok::Lit(' '),
        ] + hms_toks()
    } else if k == 2 {
        seq![Tok::Year4, Tok::Lit('-'), Tok::Mon2, Tok::Lit('-'), Tok::Day2, Tok::Lit('T')]
            + hms_toks() + seq![Tok::Offset]
    } else if k == 3 {
        seq![Tok::Year4, Tok::Lit('-'), Tok::Mon2, Tok::Lit('-'), Tok::Day2, Tok::Lit('T')]
            + hms_toks()
    } else if k == 4 {
        seq![Tok::Year4, Tok::Lit('-'), Tok::Mon2, Tok::Lit('-'), Tok::Day2, Tok::Lit(' ')]
            + hms_toks()
    } else if k == 5 {
        seq![Tok::Year4, Tok::Lit('-'), Tok::Mon2, Tok::Lit('-'), Tok::Day2, Tok::Lit(' ')]
            + hms12_toks()
    } else if k == 6 {
        seq![Tok::Year4, Tok::Lit('/'), Tok::Mon2, Tok::Lit('/'), Tok::Day2, Tok::Lit(' ')]
            + hms_toks()
    } else if k == 7 {
        seq![Tok::Year4, Tok::Lit('/'), Tok::Mon2, Tok::Lit('/'), Tok::Day2, Tok::Lit(' ')]
            + hms12_toks()
    } else if k == 8 {
        seq![Tok::Mon2, Tok::Lit('/'), Tok::Day2, Tok::Lit('/'), Tok::Year4, Tok::Lit(' ')]
            + hms_toks()
    } else if k == 9 {
        seq![Tok::Day2, Tok::Lit('/'), Tok::Mon2, Tok::Lit('/'), Tok::Year4, Tok::Lit(' ')]
            + hms_toks()
    } else if k == 10 {
        seq![Tok::Day2, Tok::Lit('-'), Tok::Mon2, Tok::Lit('-'), Tok::Year4, Tok::Lit(' ')]
            + hms_toks()
    } else if k == 11 {
        seq![Tok::Day2, Tok::Lit(' '), Tok::MonName, Tok::Lit(' '), Tok::Year4, Tok::Lit(' ')]
            + hms_toks()
    } else if k == 12 {
        seq![Tok::MonName, Tok::Lit(' '), Tok::Day2, Tok::Lit(' '), Tok::Year4, Tok::Lit(' ')]
            + hms_toks()
    } else {
        seq![Tok::Wd, Tok::Lit(' '), Tok::MonName, Tok::Lit(' '), Tok::Day2, Tok::Lit(' ')]
            + hms_toks() + seq![Tok::Lit(' '), Tok::Year4]
    }
}

/// The identifier string of catalog entry k, used verbatim as the label of a
/// successful resolution.
pub open spec fn catalog_label(k: int) -> Seq<char> {
    if k == 0 {
        "%a, %d %b %Y %H:%M:%S %z"@
    } else if k == 1 {
        "%a, %d %b %Y %H:%M:%S"@
    } else if k == 2 {
        "%Y-%m-%dT%H:%M:%S%z"@
    } else if k == 3 {
        "%Y-%m-%dT%H:%M:%S"@
    } else if k == 4 {
        "%Y-%m-%d %H:%M:%S"@
    } else if k == 5 {
        "%Y-%m-%d %I:%M:%S %p"@
    } else if k == 6 {
        "%Y/%m/%d %H:%M:%S"@
    } else if k == 7 {
        "%Y/%m/%d %I:%M:%S %p"@
    } else if k == 8 {
        "%m/%d/%Y %H:%M:%S"@
    } else if k == 9 {
        "%d/%m/%Y %H:%M:%S"@
    } else if k == 10 {
        "%d-%m-%Y %H:%M:%S"@
    } else if k == 11 {
        "%d %b %Y %H:%M:%S"@
    } else if k == 12 {
        "%b %d %Y %H:%M:%S"@
    } else {
        "%a %b %d %H:%M:%S %Y"@
    }
}

/// The label of the raw epoch-seconds fallback.
pub open spec fn unix_label() -> Seq<char> {
    "UNIX TIME"@
}

fn push_hms(v: &mut Vec<Tok>)
    ensures
        final(v)@ == old(v)@ + hms_toks(),
{
    v.push(Tok::Hour2);
    v.push(Tok::Lit(':'));
    v.push(Tok::Min2);
    v.push(Tok::Lit(':'));
    v.push(Tok::Sec2);
    proof {
        assert(v@ =~= old(v)@ + hms_toks());
    }
}

fn push_hms12(v: &mut Vec<Tok>)
    ensures
        final(v)@ == old(v)@ + hms12_toks(),
{
    push_hms(v);
    v.push(Tok::Lit(' '));
    v.push(Tok::AmPm);
    proof {
        assert(v@ =~= old(v)@ + hms12_toks());
    }
}

/// Builds the token pattern of catalog entry k.
pub fn catalog_toks_x(k: usize) -> (v: Vec<Tok>)
    requires
        0 <= k < catalog_len(),
    ensures
        v@ == catalog_toks(k as int),
{
    let mut v: Vec<Tok> = Vec::new();
    if k == 0 || k == 1 {
        v.push(Tok::Wd);
        v.push(Tok::Lit(','));
        v.push(Tok::Lit(' '));
        v.push(Tok::Day2);
        v.push(Tok::Lit(' '));
        v.push(Tok::MonName);
        v.push(Tok::Lit(' '));
        v.push(Tok::Year4);
        v.push(Tok::Lit(' '));
        push_hms(&mut v);
        if k == 0 {
            v.push(Tok::Lit(' '));
            v.push(Tok::Offset);
        }
    } else if k <= 7 {
        let sep: char = if k <= 5 {
            '-'
        } else {
            '/'
        };
        v.push(Tok::Year4);
        v.push(Tok::Lit(sep));
        v.push(Tok::Mon2);
        v.push(Tok::Lit(sep));
        v.push(Tok::Day2);
        if k == 2 || k == 3 {
            v.push(Tok::Lit('T'));
        } else {
            v.push(Tok::Lit(' '));
        }
        if k == 5 || k == 7 {
            push_hms12(&mut v);
        } else {
            push_hms(&mut v);
            if k == 2 {
                v.push(Tok::Offset);
            }
        }
    } else if k == 8 || k == 9 || k == 10 {
        let sep: char = if k == 10 {
            '-'
        } else {
            '/'
        };
        if k == 8 {
            v.push(Tok::Mon2);
        } else {
            v.push(Tok::Day2);
        }
        v.push(Tok::Lit(sep));
        if k == 8 {
            v.push(Tok::Day2);
        } else {
            v.push(Tok::Mon2);
        }
        v.push(Tok::Lit(sep));
        v.push(Tok::Year4);
        v.push(Tok::Lit(' '));
        push_hms(&mut v);
    } else if k == 11 {
        v.push(Tok::Day2);
        v.push(Tok::Lit(' '));
        v.push(Tok::MonName);
        v.push(Tok::Lit(' '));
        v.push(Tok::Year4);
        v.push(Tok::Lit(' '));
        push_hms(&mut v);
    } else if k == 12 {
        v.push(Tok::MonName);
        v.push(Tok::Lit(' '));
        v.push(Tok::Day2);
        v.push(Tok::Lit(' '));
        v.push(Tok::Year4);
        v.push(Tok::Lit(' '));
        push_hms(&mut v);
    } else {
        v.push(Tok::Wd);
        v.push(Tok::Lit(' '));
        v.push(Tok::MonName);
        v.push(Tok::Lit(' '));
        v.push(Tok::Day2);
        v.push(Tok::Lit(' '));
        push_hms(&mut v);
        v.push(Tok::Lit(' '));
        v.push(Tok::Year4);
    }
    proof {
        assert(v@ =~= catalog_toks(k as int));
    }
    v
}

/// The identifier string of catalog entry k.
pub fn catalog_label_x(k: usize) -> (r: String)
    requires
        0 <= k < catalog_len(),
    ensures
        r@ == catalog_label(k as int),
{
    if k == 0 {
        String::from_str("%a, %d %b %Y %H:%M:%S %z")
    } else if k == 1 {
        String::from_str("%a, %d %b %Y %H:%M:%S")
    } else if k == 2 {
        String::from_str("%Y-%m-%dT%H:%M:%S%z")
    } else if k == 3 {
        String::from_str("%Y-%m-%dT%H:%M:%S")
    } else if k == 4 {
        String::from_str("%Y-%m-%d %H:%M:%S")
    } else if k == 5 {
        String::from_str("%Y-%m-%d %I:%M:%S %p")
    } else if k == 6 {
        String::from_str("%Y/%m/%d %H:%M:%S")
    } else if k == 7 {
        String::from_str("%Y/%m/%d %I:%M:%S %p")
    } else if k == 8 {
        String::from_str("%m/%d/%Y %H:%M:%S")
    } else if k == 9 {
        String::from_str("%d/%m/%Y %H:%M:%S")
    } else if k == 10 {
        String::from_str("%d-%m-%Y %H:%M:%S")
    } else if k == 11 {
        String::from_str("%d %b %Y %H:%M:%S")
    } else if k == 12 {
        String::from_str("%b %d %Y %H:%M:%S")
    } else {
        String::from_str("%a %b %d %H:%M:%S %Y")
    }
}

/// The whole catalog in its fixed order: each entry's token pattern paired
/// with its identifier string.
pub fn patterns() -> (r: Vec<(Vec<Tok>, String)>)
    ensures
        r@.len() == catalog_len(),
        forall|k: int|
            0 <= k < catalog_len() ==> #[trigger] r@[k].0@ == catalog_toks(k) && r@[k].1@
                == catalog_label(k),
{
    let mut r: Vec<(Vec<Tok>, String)> = Vec::new();
    let mut k: usize = 0;
    while k < 14
        invariant
            0 <= k <= 14,
            r@.len() == k,
            forall|j: int|
                0 <= j < k ==> #[trigger] r@[j].0@ == catalog_toks(j) && r@[j].1@
                    == catalog_label(j),
        decreases 14 - k,
    {
        r.push((catalog_toks_x(k), catalog_label_x(k)));
        k = k + 1;
    }
    r
}

} // verus!
