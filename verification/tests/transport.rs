//! The transport writer's flush timing: the buffer boundary, newlines, the
//! unconditional scope-exit flush.

use mgba_log::Host;
use mgba_log::Level;
use mgba_log::Writer;

#[test]
fn empty_record_still_flushes_once() {
    let mut host = Host::new(true);
    let writer = Writer::new(Level::Info);
    writer.release(&mut host);
    assert_eq!(host.flushes.len(), 1);
    assert_eq!(host.flushes[0].level, 0x103);
    assert!(host.flushes[0].bytes.is_empty());
}

#[test]
fn only_newlines_flush_once_each_plus_scope_exit() {
    let mut host = Host::new(true);
    let mut writer = Writer::new(Level::Info);
    writer.write(&mut host, b"\n\n");
    writer.release(&mut host);
    assert_eq!(host.flushes.len(), 3);
    for flush in &host.flushes {
        assert!(flush.bytes.is_empty());
        assert_eq!(flush.level, 0x103);
    }
}

#[test]
fn no_flush_below_the_boundary() {
    let mut host = Host::new(true);
    let mut writer = Writer::new(Level::Debug);
    writer.write(&mut host, &[b'a'; 255]);
    assert!(host.flushes.is_empty());
    writer.release(&mut host);
    assert_eq!(host.flushes.len(), 1);
    assert_eq!(host.flushes[0].bytes, vec![b'a'; 255]);
}

#[test]
fn boundary_flushes_full_buffer_mid_write() {
    let mut host = Host::new(true);
    let mut writer = Writer::new(Level::Debug);
    writer.write(&mut host, &[b'a'; 256]);
    assert_eq!(host.flushes.len(), 1);
    assert_eq!(host.flushes[0].bytes, vec![b'a'; 256]);
    writer.release(&mut host);
    assert_eq!(host.flushes.len(), 2);
    assert!(host.flushes[1].bytes.is_empty());
}

#[test]
fn bytes_after_the_boundary_go_into_the_next_flush() {
    let mut host = Host::new(true);
    let mut writer = Writer::new(Level::Debug);
    let mut input = vec![b'a'; 256];
    input.push(b'b');
    writer.write(&mut host, &input);
    writer.release(&mut host);
    assert_eq!(host.flushes.len(), 2);
    assert_eq!(host.flushes[0].bytes, vec![b'a'; 256]);
    assert_eq!(host.flushes[1].bytes, vec![b'b']);
}

#[test]
fn two_exact_buffers_flush_at_each_boundary() {
    let mut host = Host::new(true);
    let mut writer = Writer::new(Level::Debug);
    let mut input = vec![b'x'; 256];
    input.extend_from_slice(&[b'y'; 256]);
    writer.write(&mut host, &input);
    writer.release(&mut host);
    assert_eq!(host.flushes.len(), 3);
    assert_eq!(host.flushes[0].bytes, vec![b'x'; 256]);
    assert_eq!(host.flushes[1].bytes, vec![b'y'; 256]);
    assert!(host.flushes[2].bytes.is_empty());
}

#[test]
fn null_at_the_boundary_is_substituted() {
    let mut host = Host::new(true);
    let mut writer = Writer::new(Level::Warning);
    let mut input = vec![b'a'; 255];
    input.push(0x00);
    writer.write(&mut host, &input);
    writer.release(&mut host);
    assert_eq!(host.flushes.len(), 2);
    let mut expected = vec![b'a'; 255];
    expected.push(0x1A);
    assert_eq!(host.flushes[0].bytes, expected);
    assert!(host.flushes[1].bytes.is_empty());
}

#[test]
fn split_writes_accumulate_in_one_record() {
    let mut host = Host::new(true);
    let mut writer = Writer::new(Level::Info);
    writer.write(&mut host, b"Hello, ");
    writer.write(&mut host, b"world!");
    writer.release(&mut host);
    assert_eq!(host.flushes.len(), 1);
    assert_eq!(host.flushes[0].bytes, b"Hello, world!".to_vec());
}

#[test]
fn no_newline_byte_ever_delivered() {
    let mut host = Host::new(true);
    let mut writer = Writer::new(Level::Info);
    writer.write(&mut host, b"a\nb\nc");
    writer.release(&mut host);
    assert_eq!(host.flushes.len(), 3);
    for flush in &host.flushes {
        assert!(!flush.bytes.contains(&0x0A));
    }
}

#[test]
fn level_codes_match_the_protocol() {
    assert_eq!(Level::Fatal.code(), 0x100);
    assert_eq!(Level::Error.code(), 0x101);
    assert_eq!(Level::Warning.code(), 0x102);
    assert_eq!(Level::Info.code(), 0x103);
    assert_eq!(Level::Debug.code(), 0x104);
}
