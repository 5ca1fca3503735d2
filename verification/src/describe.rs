//! The presentation view of a resolution: the fields of the response body.
//!
//! The two original-string fields are present only when the description
//! comes from a parse request; a current-time description leaves them out.

use vstd::prelude::*;

use crate::calendar::max_epoch;
use crate::calendar::max_epoch_x;
use crate::calendar::min_epoch;
use crate::calendar::min_epoch_x;
use crate::render::rfc2822_spec;
use crate::render::rfc2822_x;
use crate::resolver::resolve;
use crate::resolver::resolve_spec;

verus! {

/// A timestamp description: optional original input and format label, the
/// instant as epoch seconds, and its RFC 2822 rendering.
pub struct Description {
    pub original_timestring: Option<String>,
    pub original_timestring_format: Option<String>,
    pub unix_time: i64,
    pub time_in_rfc2822: String,
}

/// Describes a bare instant, as the current-time endpoint does: no original
/// fields. Instants outside the representable range are refused.
pub fn describe_now(epoch: i64) -> (r: Option<Description>)
    ensures
        match r {
            Some(d) => min_epoch() <= epoch <= max_epoch() && d.original_timestring is None
                && d.original_timestring_format is None && d.unix_time == epoch
                && d.time_in_rfc2822@ == rfc2822_spec(epoch as int),
            None => !(min_epoch() <= epoch <= max_epoch()),
        },
{
    let lo = min_epoch_x();
    let hi = max_epoch_x();
    if lo <= epoch && epoch <= hi {
        Some(
            Description {
                original_timestring: None,
                original_timestring_format: None,
                unix_time: epoch,
                time_in_rfc2822: rfc2822_x(epoch),
            },
        )
    } else {
        None
    }
}

/// Resolves a decoded parse-request string and describes the result in
/// full: the original string, the matched format's identifier, the instant,
/// and its rendering. No match gives None.
pub fn describe_parse(raw: &str) -> (r: Option<Description>)
    ensures
        match r {
            Some(d) => match (
                d.original_timestring,
                d.original_timestring_format,
                resolve_spec(raw@),
            ) {
                (Some(orig), Some(lbl), Some((e, l))) => orig@ == raw@ && lbl@ == l
                    && d.unix_time == e && d.time_in_rfc2822@ == rfc2822_spec(e),
                _ => false,
            },
            None => resolve_spec(raw@) is None,
        },
{
    match resolve(raw) {
        Some(res) => {
            let rendered = rfc2822_x(res.epoch_seconds);
            Some(
                Description {
                    original_timestring: Some(raw.to_owned()),
                    original_timestring_format: Some(res.label),
                    unix_time: res.epoch_seconds,
                    time_in_rfc2822: rendered,
                },
            )
        },
        None => None,
    }
}

/// The usage banner of the service.
pub fn usage() -> (r: String)
    ensures
        r@ == "Usage: time/now, time/parse"@,
{
    String::from_str("Usage: time/now, time/parse")
}

} // verus!
