use vstd::prelude::*;

use crate::text::spec_parse_i64;

verus! {

/// `str::parse::<i64>` from std, its error mapped to `None`: an optional sign
/// and decimal digits within range, as its documentation describes.
#[verifier::external_body]
fn parse_i64(text: &str) -> (r: Option<i64>)
    ensures
        r == spec_parse_i64(text@),
{
    text.parse().ok()
}

/// The tick count a `/time set` argument names: a few named times of day, or
/// a number of ticks.
pub open spec fn spec_parse_time(value: Seq<char>) -> Option<i64> {
    if value == "day"@ {
        Some(1000)
    } else if value == "noon"@ {
        Some(6000)
    } else if value == "night"@ {
        Some(13000)
    } else if value == "midnight"@ {
        Some(18000)
    } else {
        spec_parse_i64(value)
    }
}

pub fn parse_time(value: &str) -> (r: Option<i64>)
    ensures
        r == spec_parse_time(value@),
{
    let v = value.to_owned();
    if v == "day".to_owned() {
        Some(1000)
    } else if v == "noon".to_owned() {
        Some(6000)
    } else if v == "night".to_owned() {
        Some(13000)
    } else if v == "midnight".to_owned() {
        Some(18000)
    } else {
        parse_i64(value)
    }
}

} // verus!
