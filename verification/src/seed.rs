use vstd::prelude::*;

use std::num::ParseIntError;

use crate::text::{spec_parse_u64, trim, trim_chars};

verus! {

#[verifier::external_type_specification]
#[verifier::external_body]
pub struct ExParseIntError(std::num::ParseIntError);

/// The environment variable a world seed can be configured with.
pub const SEED_VAR: &'static str = "VOID_DEMO_SEED";

/// Where the world seed came from, and its value.
#[derive(Debug, Clone, Copy, PartialEq, Eq)]
pub enum Seed {
    Configured(u64),
    Random(u64),
}

impl Seed {
    /// The seed's value, wherever it came from.
    pub open spec fn value_spec(self) -> u64 {
        match self {
            Seed::Configured(s) => s,
            Seed::Random(s) => s,
        }
    }

    pub fn value(self) -> (v: u64)
        ensures
            v == self.value_spec(),
    {
        match self {
            Seed::Configured(seed) | Seed::Random(seed) => seed,
        }
    }
}

/// `str::parse::<u64>` from std: an optional `+` and decimal digits within
/// range read as their value, anything else refused with the parse error.
#[verifier::external_body]
fn parse_u64(text: &str) -> (r: Result<u64, ParseIntError>)
    ensures
        match r {
            Ok(v) => spec_parse_u64(text@) == Some(v),
            Err(_) => spec_parse_u64(text@) is None,
        },
{
    text.parse()
}

/// A configured seed: the number the text spells once trimmed, used as is.
pub fn configured_seed(value: &str) -> (r: Result<Seed, ParseIntError>)
    ensures
        match r {
            Ok(seed) => seed is Configured && spec_parse_u64(trim_chars(value@)) == Some(seed->Configured_0),
            Err(_) => spec_parse_u64(trim_chars(value@)) is None,
        },
{
    match parse_u64(trim(value)) {
        Ok(v) => Ok(Seed::Configured(v)),
        Err(e) => Err(e),
    }
}

/// A random seed from one draw: a draw of zero is no seed, and the caller
/// draws again.
pub fn random_seed(draw: u64) -> (r: Option<Seed>)
    ensures
        draw == 0 ==> r is None,
        draw != 0 ==> r == Some(Seed::Random(draw)),
{
    if draw == 0 {
        None
    } else {
        Some(Seed::Random(draw))
    }
}

/// The argument of `/race` that replays a circuit: its seed.
#[derive(Debug, Clone, Copy, PartialEq, Eq)]
pub struct SeedArg;

impl SeedArg {
    /// The argument's name in command usage.
    pub fn usage_name(&self) -> (name: &'static str)
        ensures
            name@ == "seed"@,
    {
        "seed"
    }

    /// A circuit seed: an unsigned 64-bit integer as `str::parse` reads it;
    /// anything else is refused with a message naming the input.
    pub fn parse(&self, input: &str) -> (r: Result<u64, String>)
        ensures
            match r {
                Ok(seed) => spec_parse_u64(input@) == Some(seed),
                Err(message) => spec_parse_u64(input@) is None && message@ == "'"@ + input@
                    + "' is not a circuit seed (unsigned 64-bit integer)"@,
            },
    {
        match parse_u64(input) {
            Ok(seed) => Ok(seed),
            Err(_) => Err(
                String::from_str("'").concat(input).concat(
                    "' is not a circuit seed (unsigned 64-bit integer)",
                ),
            ),
        }
    }
}

} // verus!
