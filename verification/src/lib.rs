//! A high-fidelity time library: exact fixed-point durations and epochs over
//! the TAI scale, with lossless conversions to UTC, TT, ET, GPST and UNIX,
//! leap-second accounting and the Gregorian calendar.

pub mod calendar;
pub mod duration;
pub mod epoch;
pub mod fmt;
pub mod parse;

use vstd::prelude::*;

verus! {

/// The kinds of parsing failure a string input can produce.
#[derive(Copy, Clone, Debug, PartialEq, Eq, Structural)]
pub enum ParsingErrors {
    ParseIntError,
    TimeSystem,
    ISO8601,
    UnknownFormat,
    UnknownUnit,
    UnsupportedTimeSystem,
}

/// Every failure this library can signal.
#[derive(Copy, Clone, Debug, PartialEq, Eq, Structural)]
pub enum Errors {
    /// A calendar field is out of range (e.g. 61 seconds).
    Carry,
    /// A string could not be parsed into the requested value.
    ParseError(ParsingErrors),
    /// The hi and lo parts handed to a constructor overlap.
    ConversionOverlapError,
    /// A value cannot be represented.
    Overflow,
    /// The host clock reported an error.
    SystemTimeError,
    /// A floating-point input was NaN or infinite.
    NonFinite,
}

/// The time scales an `Epoch` can be expressed in. TAI is the internal
/// canonical scale.
#[derive(Copy, Clone, Debug, PartialEq, Eq, Structural)]
pub enum TimeSystem {
    /// Ephemeris Time, the SPICE flavour (close to, but distinct from, TDB).
    ET,
    /// International Atomic Time, the continuous internal scale.
    TAI,
    /// Terrestrial Time, exactly 32.184 s ahead of TAI.
    TT,
    /// Barycentric Dynamical Time: TT with a small periodic correction.
    TDB,
    /// Coordinated Universal Time: TAI minus the accumulated leap seconds.
    UTC,
}

impl core::str::FromStr for TimeSystem {
    type Err = Errors;

    /// Reads a scale tag: one of `UTC`, `TT`, `TAI`, `TDB` or `ET`.
    fn from_str(val: &str) -> Result<TimeSystem, Errors> {
        crate::parse::time_system_from_bytes(val.as_bytes())
    }
}

} // verus!
