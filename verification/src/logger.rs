//! The dispatcher that bridges the logging facade to the transport writer,
//! and the fatal bypass path.

use vstd::prelude::*;

use crate::host::ENABLE_ACK;
use crate::host::Host;
use crate::level::FacadeLevel;
use crate::level::Level;
use crate::writer::Writer;
use crate::writer::emitted;
use crate::writer::lemma_stream_append;

verus! {

/// The logging interface offered to the facade: filters by severity and
/// emits each record through a fresh transport writer.
pub struct Logger;

impl Logger {
    /// Whether records at this severity are emitted at all: every facade
    /// severity except `Trace`, for which the host has no analog.
    pub fn enabled(&self, level: FacadeLevel) -> (result: bool)
        ensures
            result == (level != FacadeLevel::Trace),
    {
        match level {
            FacadeLevel::Trace => false,
            _ => true,
        }
    }

    /// Emits one record: maps the facade severity, and if the host supports
    /// it, writes the message through a fresh writer and releases it, all
    /// with interrupts suspended and their previous state restored. A
    /// `Trace` record leaves the host untouched.
    pub fn log(&self, host: &mut Host, level: FacadeLevel, message: &[u8])
        requires
            old(host).wf(),
        ensures
            final(host).wf(),
            match Level::spec_try_from(level) {
                Ok(mapped) => final(host).log() == old(host).log() + emitted(
                    mapped.spec_code(),
                    message@,
                ),
                Err(()) => *final(host) == *old(host),
            },
            final(host).present == old(host).present,
            final(host).enable == old(host).enable,
            final(host).ime == old(host).ime,
    {
        if let Ok(mapped) = Level::try_from(level) {
            let previous_ime = host.read_ime();
            host.write_ime(false);
            let ghost prior = *host;
            let mut writer = Writer::new(mapped);
            proof {
                assert(writer.staged(prior) =~= Seq::<u8>::empty());
            }
            writer.write(host, message);
            writer.release(host);
            host.write_ime(previous_ime);
            proof {
                lemma_emitted_append(mapped.spec_code(), prior.log(), message@);
            }
        }
    }

    /// No-op: each record is already flushed by its writer's scope exit.
    pub fn flush(&self) {
    }
}

/// Appending one record's emission to an existing host log is the stream run
/// from an empty buffer followed by the scope-exit flush.
proof fn lemma_emitted_append(code: u16, flushed: Seq<(u16, Seq<u8>)>, input: Seq<u8>)
    ensures
        crate::writer::stream(code, (Seq::<u8>::empty(), flushed), input).1.push(
            (code, crate::writer::stream(code, (Seq::<u8>::empty(), flushed), input).0),
        ) == flushed + emitted(code, input),
{
    lemma_stream_append(code, Seq::<u8>::empty(), flushed, input);
    let fresh = crate::writer::stream(
        code,
        (Seq::<u8>::empty(), Seq::<(u16, Seq<u8>)>::empty()),
        input,
    );
    assert((flushed + fresh.1).push((code, fresh.0)) =~= flushed + fresh.1.push((code, fresh.0)));
}

/// The bypass entry point at the `Fatal` severity, for contexts where going
/// through the dispatcher could fail recursively.
///
/// It re-checks the enable register itself: when the host has not
/// acknowledged activation it does nothing at all, and it never reports an
/// error. On a present host, interrupts stay suspended afterwards — a
/// fatal flush halts the host.
pub fn fatal(host: &mut Host, message: &[u8])
    requires
        old(host).wf(),
    ensures
        final(host).wf(),
        old(host).enable != ENABLE_ACK ==> *final(host) == *old(host),
        old(host).enable == ENABLE_ACK ==> {
            &&& final(host).log() == old(host).log() + emitted(
                Level::Fatal.spec_code(),
                message@,
            )
            &&& final(host).ime == false
            &&& final(host).present == old(host).present
            &&& final(host).enable == old(host).enable
        },
{
    if host.read_enable() == ENABLE_ACK {
        host.write_ime(false);
        let ghost prior = *host;
        let mut writer = Writer::new(Level::Fatal);
        proof {
            assert(writer.staged(prior) =~= Seq::<u8>::empty());
        }
        writer.write(host, message);
        writer.release(host);
        proof {
            lemma_emitted_append(Level::Fatal.spec_code(), prior.log(), message@);
        }
    }
}

} // verus!
