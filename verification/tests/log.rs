//! Records emitted through the dispatcher arrive at the host at the right
//! severity code and with the right bytes.

use mgba_log::Facade;
use mgba_log::FacadeLevel;
use mgba_log::Host;
use mgba_log::Logger;
use mgba_log::init;

fn ready_host() -> Host {
    let mut host = Host::new(true);
    let mut facade = Facade::new();
    init(&mut host, &mut facade).expect("handshake must succeed on a present host");
    host
}

fn contains(host: &Host, level: u16, message: &[u8]) -> bool {
    host.flushes
        .iter()
        .any(|flush| flush.level == level && flush.bytes == message)
}

#[test]
fn debug() {
    let mut host = ready_host();
    Logger.log(&mut host, FacadeLevel::Debug, b"Hello, world!");
    assert!(contains(&host, 0x104, b"Hello, world!"));
}

#[test]
fn info() {
    let mut host = ready_host();
    Logger.log(&mut host, FacadeLevel::Info, b"Hello, world!");
    assert!(contains(&host, 0x103, b"Hello, world!"));
}

#[test]
fn warn() {
    let mut host = ready_host();
    Logger.log(&mut host, FacadeLevel::Warn, b"Hello, world!");
    assert!(contains(&host, 0x102, b"Hello, world!"));
}

#[test]
fn error() {
    let mut host = ready_host();
    Logger.log(&mut host, FacadeLevel::Error, b"Hello, world!");
    assert!(contains(&host, 0x101, b"Hello, world!"));
}

#[test]
fn fatal() {
    let mut host = ready_host();
    mgba_log::fatal(&mut host, b"Hello, world!");
    assert!(contains(&host, 0x100, b"Hello, world!"));
}

#[test]
fn null() {
    let mut host = ready_host();
    Logger.log(&mut host, FacadeLevel::Info, b"\x00");
    assert!(contains(&host, 0x103, b"\x1a"));
}

#[test]
fn new_line() {
    let mut host = ready_host();
    Logger.log(&mut host, FacadeLevel::Info, b"Hello,\nworld!");
    assert!(contains(&host, 0x103, b"Hello,"));
    assert!(contains(&host, 0x103, b"world!"));
}

#[test]
fn one_flush_per_plain_record() {
    let mut host = ready_host();
    Logger.log(&mut host, FacadeLevel::Debug, b"Hello, world!");
    assert_eq!(host.flushes.len(), 1);
    assert_eq!(host.flushes[0].level, 0x104);
    assert_eq!(host.flushes[0].bytes, b"Hello, world!".to_vec());
}

#[test]
fn newline_record_makes_exactly_two_flushes() {
    let mut host = ready_host();
    Logger.log(&mut host, FacadeLevel::Info, b"Hello,\nworld!");
    assert_eq!(host.flushes.len(), 2);
    assert_eq!(host.flushes[0].bytes, b"Hello,".to_vec());
    assert_eq!(host.flushes[1].bytes, b"world!".to_vec());
}

#[test]
fn substitution_keeps_other_bytes() {
    let mut host = ready_host();
    Logger.log(&mut host, FacadeLevel::Info, b"a\x00b");
    assert_eq!(host.flushes.len(), 1);
    assert_eq!(host.flushes[0].bytes, b"a\x1ab".to_vec());
}

#[test]
fn trace_is_filtered() {
    let mut host = ready_host();
    assert!(!Logger.enabled(FacadeLevel::Trace));
    Logger.log(&mut host, FacadeLevel::Trace, b"never shown");
    assert!(host.flushes.is_empty());
}

#[test]
fn ime_restored_after_record() {
    let mut host = ready_host();
    assert!(host.ime);
    Logger.log(&mut host, FacadeLevel::Info, b"x");
    assert!(host.ime);
}
