//! Level selection for the kernel's console logger.
//!
//! The logger itself writes coloured lines to the console; that output stays
//! at the edge of the system. What is decided here is which maximum level the
//! logger runs at, from the `LOG` environment setting handed in as bytes, and
//! which colour a record of a given level is printed in.

use vstd::prelude::*;

verus! {

/// Severity of a single log record.
#[derive(Clone, Copy, PartialEq, Eq, Structural, Debug)]
pub enum Level {
    Error,
    Warn,
    Info,
    Debug,
    Trace,
}

/// Maximum severity the logger lets through; `Off` silences it.
#[derive(Clone, Copy, PartialEq, Eq, Structural, Debug)]
pub enum LevelFilter {
    Off,
    Error,
    Warn,
    Info,
    Debug,
    Trace,
}

/// The bytes of the word `ERROR`.
pub open spec fn word_error(b: Seq<u8>) -> bool {
    b.len() == 5 && b[0] == 69u8 && b[1] == 82u8 && b[2] == 82u8 && b[3] == 79u8 && b[4] == 82u8
}

/// The bytes of the word `WARN`.
pub open spec fn word_warn(b: Seq<u8>) -> bool {
    b.len() == 4 && b[0] == 87u8 && b[1] == 65u8 && b[2] == 82u8 && b[3] == 78u8
}

/// The bytes of the word `INFO`.
pub open spec fn word_info(b: Seq<u8>) -> bool {
    b.len() == 4 && b[0] == 73u8 && b[1] == 78u8 && b[2] == 70u8 && b[3] == 79u8
}

/// The bytes of the word `DEBUG`.
pub open spec fn word_debug(b: Seq<u8>) -> bool {
    b.len() == 5 && b[0] == 68u8 && b[1] == 69u8 && b[2] == 66u8 && b[3] == 85u8 && b[4] == 71u8
}

/// The bytes of the word `TRACE`.
pub open spec fn word_trace(b: Seq<u8>) -> bool {
    b.len() == 5 && b[0] == 84u8 && b[1] == 82u8 && b[2] == 65u8 && b[3] == 67u8 && b[4] == 69u8
}

/// The filter chosen for a present `LOG` setting: one of the five level
/// names selects that level, anything else switches logging off.
pub open spec fn filter_of_setting(b: Seq<u8>) -> LevelFilter {
    if word_error(b) {
        LevelFilter::Error
    } else if word_warn(b) {
        LevelFilter::Warn
    } else if word_info(b) {
        LevelFilter::Info
    } else if word_debug(b) {
        LevelFilter::Debug
    } else if word_trace(b) {
        LevelFilter::Trace
    } else {
        LevelFilter::Off
    }
}

/// Chooses the logger's maximum level from the `LOG` environment setting,
/// handed in as the setting's bytes, or `None` when the setting is absent.
pub fn init(setting: Option<&Vec<u8>>) -> (f: LevelFilter)
    ensures
        setting is None ==> f == LevelFilter::Off,
        setting matches Some(v) ==> f == filter_of_setting(v@),
{
    match setting {
        None => LevelFilter::Off,
        Some(v) => {
            let n = v.len();
            if n == 5 && v[0] == 69 && v[1] == 82 && v[2] == 82 && v[3] == 79 && v[4] == 82 {
                LevelFilter::Error
            } else if n == 4 && v[0] == 87 && v[1] == 65 && v[2] == 82 && v[3] == 78 {
                LevelFilter::Warn
            } else if n == 4 && v[0] == 73 && v[1] == 78 && v[2] == 70 && v[3] == 79 {
                LevelFilter::Info
            } else if n == 5 && v[0] == 68 && v[1] == 69 && v[2] == 66 && v[3] == 85 && v[4] == 71 {
                LevelFilter::Debug
            } else if n == 5 && v[0] == 84 && v[1] == 82 && v[2] == 65 && v[3] == 67 && v[4] == 69 {
                LevelFilter::Trace
            } else {
                LevelFilter::Off
            }
        },
    }
}

/// The ANSI colour a record of the given level is printed in.
pub open spec fn spec_color(l: Level) -> u8 {
    match l {
        Level::Error => 31u8,
        Level::Warn => 93u8,
        Level::Info => 34u8,
        Level::Debug => 32u8,
        Level::Trace => 92u8,
    }
}

/// Picks the ANSI colour code for one log record's level.
pub fn color_code(level: Level) -> (c: u8)
    ensures
        c == spec_color(level),
{
    match level {
        Level::Error => 31,
        Level::Warn => 93,
        Level::Info => 34,
        Level::Debug => 32,
        Level::Trace => 92,
    }
}

} // verus!
