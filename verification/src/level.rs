//! Severities: the host's five fixed levels, the facade's five generic
//! levels, and the mapping between them.

use vstd::prelude::*;

verus! {

/// A log level within the host's protocol.
///
/// Each level carries a fixed numeric code mandated by the host; the code is
/// what gets written to the send register.
#[derive(Clone, Copy, PartialEq, Eq, Structural, Debug)]
pub enum Level {
    /// Fatal causes the host to halt execution.
    Fatal,
    Error,
    Warning,
    Info,
    Debug,
}

/// A severity of the generic logging facade.
///
/// The facade knows one level more than the host: `Trace`, which has no host
/// analog and is rejected by the mapping.
#[derive(Clone, Copy, PartialEq, Eq, Structural, Debug)]
pub enum FacadeLevel {
    Error,
    Warn,
    Info,
    Debug,
    Trace,
}

impl Level {
    /// The numeric code the host protocol assigns to this level.
    pub open spec fn spec_code(self) -> u16 {
        match self {
            Level::Fatal => 0x100,
            Level::Error => 0x101,
            Level::Warning => 0x102,
            Level::Info => 0x103,
            Level::Debug => 0x104,
        }
    }

    /// Returns the numeric code written to the send register for this level.
    pub fn code(self) -> (code: u16)
        ensures
            code == self.spec_code(),
    {
        match self {
            Level::Fatal => 0x100,
            Level::Error => 0x101,
            Level::Warning => 0x102,
            Level::Info => 0x103,
            Level::Debug => 0x104,
        }
    }

    /// The severity mapping as a mathematical function: total on the four
    /// supported facade severities, failing exactly on `Trace`.
    pub open spec fn spec_try_from(level: FacadeLevel) -> Result<Level, ()> {
        match level {
            FacadeLevel::Error => Ok(Level::Error),
            FacadeLevel::Warn => Ok(Level::Warning),
            FacadeLevel::Info => Ok(Level::Info),
            FacadeLevel::Debug => Ok(Level::Debug),
            FacadeLevel::Trace => Err(()),
        }
    }

    /// Attempts to convert a facade severity to a host level.
    ///
    /// Succeeds for every severity except `Trace`, for which the host has no
    /// analog.
    pub fn try_from(level: FacadeLevel) -> (result: Result<Level, ()>)
        ensures
            result == Level::spec_try_from(level),
            result is Ok <==> level != FacadeLevel::Trace,
    {
        match level {
            FacadeLevel::Error => Ok(Level::Error),
            FacadeLevel::Warn => Ok(Level::Warning),
            FacadeLevel::Info => Ok(Level::Info),
            FacadeLevel::Debug => Ok(Level::Debug),
            FacadeLevel::Trace => Err(()),
        }
    }
}

} // verus!
