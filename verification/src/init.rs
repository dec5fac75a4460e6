//! The initialization handshake: request activation at the enable register,
//! verify the host's acknowledgment, then claim the facade's process-wide
//! logger slot — one shot, no retries, interrupts suspended around the
//! registration.

use vstd::prelude::*;

use crate::host::ENABLE_ACK;
use crate::host::ENABLE_REQUEST;
use crate::host::Host;
use crate::level::FacadeLevel;

verus! {

/// An error occurring during initialization.
#[derive(Clone, Copy, PartialEq, Eq, Structural, Debug)]
pub enum Error {
    /// Enabling of logging was not acknowledged at the enable register: no
    /// compatible host is listening. The logger was not registered.
    NotAcknowledgedByMgba,
    /// The facade's singleton logger slot was already claimed by another
    /// logger; the existing registration is left untouched.
    AlreadyRegistered,
}

impl Error {
    /// A human-readable description of the error.
    pub fn message(&self) -> (text: &'static str)
        ensures
            self is NotAcknowledgedByMgba ==> text@ =~= "mGBA did not acknowledge initialization"@,
            self is AlreadyRegistered ==> text@ =~= "a logger was already registered"@,
    {
        match self {
            Error::NotAcknowledgedByMgba => "mGBA did not acknowledge initialization",
            Error::AlreadyRegistered => "a logger was already registered",
        }
    }
}

/// The process-wide state of the logging facade, modelled at its interface:
/// a logger slot that can be claimed at most once, and the maximum enabled
/// severity.
pub struct Facade {
    /// Whether the singleton logger slot has been claimed.
    pub registered: bool,
    /// The maximum severity the facade lets through, once one is set.
    pub max_level: Option<FacadeLevel>,
}

impl Facade {
    /// The facade at process start: no logger registered, no level set.
    pub fn new() -> (facade: Facade)
        ensures
            facade.registered == false,
            facade.max_level is None,
    {
        Facade { registered: false, max_level: None }
    }

    /// The facade's claim-once registration: succeeds exactly on the first
    /// claim and never unseats an existing registration.
    pub fn claim(&mut self) -> (result: Result<(), ()>)
        ensures
            result is Ok <==> !old(self).registered,
            final(self).registered == true,
            final(self).max_level == old(self).max_level,
    {
        if self.registered {
            Err(())
        } else {
            self.registered = true;
            Ok(())
        }
    }

    /// Sets the maximum enabled severity.
    pub fn set_max_level(&mut self, level: FacadeLevel)
        ensures
            final(self).max_level == Some(level),
            final(self).registered == old(self).registered,
    {
        self.max_level = Some(level);
    }
}

/// Initializes logging against the host.
///
/// Requests activation at the enable register and reads it back; without
/// the host's acknowledgment it fails and touches nothing else. On
/// acknowledgment it claims the facade's logger slot and sets the maximum
/// enabled severity to `Debug`, the finest level the host supports, with
/// interrupts suspended for the registration and their previous state
/// restored on every exit path. Succeeds if and only if the host is present
/// and no logger was registered before.
pub fn init(host: &mut Host, facade: &mut Facade) -> (result: Result<(), Error>)
    requires
        old(host).wf(),
    ensures
        final(host).wf(),
        final(host).log() == old(host).log(),
        final(host).buffer == old(host).buffer,
        final(host).present == old(host).present,
        final(host).ime == old(host).ime,
        final(host).enable == (if old(host).present { ENABLE_ACK } else { 0u16 }),
        result is Ok <==> old(host).present && !old(facade).registered,
        !old(host).present ==> result == Err::<(), Error>(Error::NotAcknowledgedByMgba)
            && *final(facade) == *old(facade),
        old(host).present && old(facade).registered ==> result == Err::<(), Error>(
            Error::AlreadyRegistered,
        ) && *final(facade) == *old(facade),
        old(host).present && !old(facade).registered ==> {
            &&& result == Ok::<(), Error>(())
            &&& final(facade).registered == true
            &&& final(facade).max_level == Some(FacadeLevel::Debug)
        },
{
    host.write_enable(ENABLE_REQUEST);
    if host.read_enable() != ENABLE_ACK {
        return Err(Error::NotAcknowledgedByMgba);
    }
    // The enable/verify/register sequence must appear atomic to interrupt
    // handlers that may themselves log or initialize: suspend interrupts,
    // and restore the previous state exactly, on the error path too.
    let previous_ime = host.read_ime();
    host.write_ime(false);
    let result = match facade.claim() {
        Ok(()) => {
            facade.set_max_level(FacadeLevel::Debug);
            Ok(())
        },
        Err(()) => Err(Error::AlreadyRegistered),
    };
    host.write_ime(previous_ime);
    result
}

} // verus!
