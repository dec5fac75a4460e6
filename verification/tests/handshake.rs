//! The initialization handshake, the severity mapping, and the fatal
//! bypass path.

use mgba_log::Error;
use mgba_log::Facade;
use mgba_log::FacadeLevel;
use mgba_log::Host;
use mgba_log::Level;
use mgba_log::Logger;
use mgba_log::fatal;
use mgba_log::init;

#[test]
fn handshake_succeeds_on_present_host() {
    let mut host = Host::new(true);
    let mut facade = Facade::new();
    assert_eq!(init(&mut host, &mut facade), Ok(()));
    assert!(facade.registered);
    assert_eq!(facade.max_level, Some(FacadeLevel::Debug));
    assert_eq!(host.enable, 0x1DEA);
    assert!(host.ime);
}

#[test]
fn handshake_fails_without_acknowledgment() {
    let mut host = Host::new(false);
    let mut facade = Facade::new();
    assert_eq!(init(&mut host, &mut facade), Err(Error::NotAcknowledgedByMgba));
    assert!(!facade.registered);
    assert_eq!(facade.max_level, None);
    assert_eq!(host.enable, 0);
    // The facade never registered the dispatcher, so no record reaches it
    // and the host sees nothing.
    if facade.registered {
        Logger.log(&mut host, FacadeLevel::Info, b"never sent");
    }
    assert!(host.flushes.is_empty());
}

#[test]
fn handshake_does_not_unseat_an_existing_logger() {
    let mut host = Host::new(true);
    let mut facade = Facade::new();
    assert_eq!(facade.claim(), Ok(()));
    assert_eq!(init(&mut host, &mut facade), Err(Error::AlreadyRegistered));
    assert!(facade.registered);
    assert_eq!(facade.max_level, None);
    assert!(host.ime);
}

#[test]
fn second_init_reports_already_registered() {
    let mut host = Host::new(true);
    let mut facade = Facade::new();
    assert_eq!(init(&mut host, &mut facade), Ok(()));
    assert_eq!(init(&mut host, &mut facade), Err(Error::AlreadyRegistered));
}

#[test]
fn claim_is_one_shot() {
    let mut facade = Facade::new();
    assert_eq!(facade.claim(), Ok(()));
    assert_eq!(facade.claim(), Err(()));
    assert!(facade.registered);
}

#[test]
fn mapping_is_total_except_trace() {
    assert_eq!(Level::try_from(FacadeLevel::Error), Ok(Level::Error));
    assert_eq!(Level::try_from(FacadeLevel::Warn), Ok(Level::Warning));
    assert_eq!(Level::try_from(FacadeLevel::Info), Ok(Level::Info));
    assert_eq!(Level::try_from(FacadeLevel::Debug), Ok(Level::Debug));
    assert_eq!(Level::try_from(FacadeLevel::Trace), Err(()));
}

#[test]
fn enabled_for_all_but_trace() {
    assert!(Logger.enabled(FacadeLevel::Error));
    assert!(Logger.enabled(FacadeLevel::Warn));
    assert!(Logger.enabled(FacadeLevel::Info));
    assert!(Logger.enabled(FacadeLevel::Debug));
    assert!(!Logger.enabled(FacadeLevel::Trace));
}

#[test]
fn fatal_emits_boom_on_present_host() {
    let mut host = Host::new(true);
    let mut facade = Facade::new();
    init(&mut host, &mut facade).expect("handshake must succeed");
    fatal(&mut host, b"boom");
    assert_eq!(host.flushes.len(), 1);
    assert_eq!(host.flushes[0].level, 0x100);
    assert_eq!(host.flushes[0].bytes, b"boom".to_vec());
    // A fatal flush halts the host; interrupts stay suspended.
    assert!(!host.ime);
}

#[test]
fn fatal_is_inert_without_acknowledgment() {
    let mut host = Host::new(false);
    fatal(&mut host, b"boom");
    assert!(host.flushes.is_empty());
    assert!(host.ime);
}

#[test]
fn fatal_without_prior_handshake_is_inert() {
    let mut host = Host::new(true);
    fatal(&mut host, b"boom");
    assert!(host.flushes.is_empty());
}

#[test]
fn error_messages() {
    assert_eq!(
        Error::NotAcknowledgedByMgba.message(),
        "mGBA did not acknowledge initialization"
    );
    assert_eq!(Error::AlreadyRegistered.message(), "a logger was already registered");
}
