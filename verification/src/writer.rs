//! The buffered transport writer: packs a record's bytes into the shared
//! buffer, flushing at newlines and at the buffer boundary, substituting the
//! protocol-reserved 0x00 byte, and flushing once more when the record's
//! scope ends.

use vstd::prelude::*;

use crate::host::BUFFER_SIZE;
use crate::host::Host;
use crate::host::lemma_terminator;
use crate::host::message_of;
use crate::level::Level;

verus! {

/// What a byte is staged as: 0x00 is reserved by the host protocol as an
/// end-of-message marker, so a literal 0x00 is staged as 0x1A.
pub open spec fn substitute(byte: u8) -> u8 {
    if byte == 0 { 0x1A } else { byte }
}

/// `bytes` with every 0x00 substituted.
pub open spec fn substituted(bytes: Seq<u8>) -> Seq<u8> {
    bytes.map_values(|b: u8| substitute(b))
}

/// The writer's state against the host, abstractly: the bytes staged in the
/// buffer but not yet flushed, and the messages the host has consumed.
pub type Transport = (Seq<u8>, Seq<(u16, Seq<u8>)>);

/// Effect of writing one byte at severity code `code`.
///
/// A newline is an explicit flush boundary: the staged bytes are flushed and
/// the newline itself is not staged. Any other byte is staged, substituted
/// if it is 0x00; if that fills the buffer exactly, the full buffer is
/// flushed at once.
pub open spec fn step(code: u16, state: Transport, byte: u8) -> Transport {
    if byte == 0x0A {
        (Seq::<u8>::empty(), state.1.push((code, state.0)))
    } else {
        let staged = state.0.push(substitute(byte));
        if staged.len() == BUFFER_SIZE {
            (Seq::<u8>::empty(), state.1.push((code, staged)))
        } else {
            (staged, state.1)
        }
    }
}

/// Effect of writing a whole byte sequence, byte by byte, in order.
pub open spec fn stream(code: u16, state: Transport, input: Seq<u8>) -> Transport
    decreases input.len(),
{
    if input.len() == 0 {
        state
    } else {
        step(code, stream(code, state, input.drop_last()), input.last())
    }
}

/// What one whole record emits: its bytes written from an empty buffer,
/// then the unconditional scope-exit flush.
pub open spec fn emitted(code: u16, input: Seq<u8>) -> Seq<(u16, Seq<u8>)> {
    let state = stream(code, (Seq::<u8>::empty(), Seq::<(u16, Seq<u8>)>::empty()), input);
    state.1.push((code, state.0))
}

/// Writing never forgets a consumed message: the messages flushed before a
/// write stay in front, and what the write adds does not depend on them.
pub proof fn lemma_stream_append(
    code: u16,
    staged: Seq<u8>,
    flushed: Seq<(u16, Seq<u8>)>,
    input: Seq<u8>,
)
    ensures
        stream(code, (staged, flushed), input).0 == stream(
            code,
            (staged, Seq::<(u16, Seq<u8>)>::empty()),
            input,
        ).0,
        stream(code, (staged, flushed), input).1 == flushed + stream(
            code,
            (staged, Seq::<(u16, Seq<u8>)>::empty()),
            input,
        ).1,
    decreases input.len(),
{
    let fresh = stream(code, (staged, Seq::<(u16, Seq<u8>)>::empty()), input);
    if input.len() == 0 {
        assert(flushed + Seq::<(u16, Seq<u8>)>::empty() =~= flushed);
    } else {
        lemma_stream_append(code, staged, flushed, input.drop_last());
        let prior = stream(code, (staged, Seq::<(u16, Seq<u8>)>::empty()), input.drop_last());
        assert((flushed + prior.1).push((code, prior.0)) =~= flushed + prior.1.push(
            (code, prior.0),
        ));
        assert((flushed + prior.1).push((code, prior.0.push(substitute(input.last())))) =~= flushed
            + prior.1.push((code, prior.0.push(substitute(input.last())))));
    }
}

/// Writes bytes of one record into the host's shared buffer at a fixed
/// severity.
///
/// `index` is the cursor: the number of bytes staged in the buffer that have
/// not yet been flushed. A new writer is created for each record; releasing
/// it flushes whatever is still staged.
pub struct Writer {
    /// The host level this record is emitted at.
    pub level: Level,
    /// The current position within the shared buffer.
    pub index: u8,
}

impl Writer {
    /// The bytes this writer has staged in the buffer and not yet flushed.
    pub open spec fn staged(self, host: Host) -> Seq<u8> {
        host.buffer@.take(self.index as int)
    }

    /// The writer agrees with the host: the buffer has its fixed size and
    /// none of the staged bytes is the reserved 0x00.
    pub open spec fn inv(self, host: Host) -> bool {
        &&& host.wf()
        &&& forall|i: int| 0 <= i < self.index ==> host.buffer@[i] != 0
    }

    /// Creates a new writer for the given host level, with nothing staged.
    pub fn new(level: Level) -> (writer: Writer)
        ensures
            writer.level == level,
            writer.index == 0,
    {
        Writer { level, index: 0 }
    }

    /// Stages one byte at the cursor; when the buffer wraps from full, the
    /// whole buffer is flushed at once.
    fn write_byte(&mut self, host: &mut Host, byte: u8)
        requires
            old(host).wf(),
        ensures
            final(host).wf(),
            final(self).level == old(self).level,
            final(host).buffer@ == old(host).buffer@.update(old(self).index as int, byte),
            final(host).present == old(host).present,
            final(host).enable == old(host).enable,
            final(host).ime == old(host).ime,
            old(self).index < 255 ==> {
                &&& final(self).index == old(self).index + 1
                &&& final(host).log() == old(host).log()
            },
            old(self).index == 255 ==> {
                &&& final(self).index == 0
                &&& final(host).log() == old(host).log().push(
                    (
                        old(self).level.spec_code(),
                        message_of(old(host).buffer@.update(255, byte)),
                    ),
                )
            },
    {
        host.write_buffer(self.index, byte);
        if self.index == 255 {
            self.index = 0;
            host.write_send(self.level.code());
        } else {
            self.index = self.index + 1;
        }
    }

    /// Flushes the staged bytes: terminates them with the reserved 0x00
    /// marker and writes the severity to the send register, leaving the
    /// cursor at zero. The host consumes exactly the staged bytes.
    fn send(&mut self, host: &mut Host)
        requires
            old(self).inv(*old(host)),
        ensures
            final(self).inv(*final(host)),
            final(self).level == old(self).level,
            final(self).index == 0,
            final(host).log() == old(host).log().push(
                (old(self).level.spec_code(), old(self).staged(*old(host))),
            ),
            final(host).present == old(host).present,
            final(host).enable == old(host).enable,
            final(host).ime == old(host).ime,
    {
        let ghost prior_host = *old(host);
        let ghost prior_index = self.index as int;
        self.write_byte(host, 0);
        if self.index != 0 {
            proof {
                lemma_terminator(host.buffer@, prior_index);
                assert(host.buffer@.take(prior_index) =~= prior_host.buffer@.take(prior_index));
            }
            host.write_send(self.level.code());
            self.index = 0;
        } else {
            proof {
                lemma_terminator(prior_host.buffer@.update(255, 0), 255);
                assert(prior_host.buffer@.update(255, 0).take(255) =~= prior_host.buffer@.take(
                    255,
                ));
            }
        }
    }

    /// Writes the given bytes into the buffer in order, flushing at each
    /// newline and whenever the buffer fills exactly.
    #[verifier::loop_isolation(false)]
    pub fn write(&mut self, host: &mut Host, bytes: &[u8])
        requires
            old(self).inv(*old(host)),
        ensures
            final(self).inv(*final(host)),
            final(self).level == old(self).level,
            final(self).staged(*final(host)) == stream(
                old(self).level.spec_code(),
                (old(self).staged(*old(host)), old(host).log()),
                bytes@,
            ).0,
            final(host).log() == stream(
                old(self).level.spec_code(),
                (old(self).staged(*old(host)), old(host).log()),
                bytes@,
            ).1,
            final(host).present == old(host).present,
            final(host).enable == old(host).enable,
            final(host).ime == old(host).ime,
    {
        let ghost code = self.level.spec_code();
        let ghost start: Transport = (self.staged(*old(host)), old(host).log());
        let mut i: usize = 0;
        while i < bytes.len()
            invariant
                i <= bytes@.len(),
                self.level == old(self).level,
                self.inv(*host),
                self.staged(*host) == stream(code, start, bytes@.take(i as int)).0,
                host.log() == stream(code, start, bytes@.take(i as int)).1,
                host.present == old(host).present,
                host.enable == old(host).enable,
                host.ime == old(host).ime,
            decreases bytes@.len() - i,
        {
            let ghost prior_staged = self.staged(*host);
            let ghost prior_buffer = host.buffer@;
            let ghost prior_index = self.index as int;
            let byte = bytes[i];
            if byte == 0x0A {
                self.send(host);
            } else if byte == 0x00 {
                self.write_byte(host, 0x1A);
            } else {
                self.write_byte(host, byte);
            }
            proof {
                assert(bytes@.take(i + 1).drop_last() =~= bytes@.take(i as int));
                assert(bytes@.take(i + 1).last() == bytes@[i as int]);
                if byte != 0x0A {
                    if prior_index == 255 {
                        lemma_terminator(prior_buffer.update(255, substitute(byte)), 256);
                        assert(prior_buffer.update(255, substitute(byte)).take(256)
                            =~= prior_staged.push(substitute(byte)));
                    } else {
                        assert(self.staged(*host) =~= prior_staged.push(substitute(byte)));
                    }
                }
            }
            i = i + 1;
        }
        proof {
            assert(bytes@.take(bytes@.len() as int) =~= bytes@);
        }
    }

    /// Scoped release, the end of the record: flushes whatever is staged,
    /// unconditionally — the host is owed a send for this severity even when
    /// nothing is staged. Consumes the writer, so each record is released
    /// exactly once.
    pub fn release(self, host: &mut Host)
        requires
            self.inv(*old(host)),
        ensures
            final(host).log() == old(host).log().push(
                (self.level.spec_code(), self.staged(*old(host))),
            ),
            final(host).wf(),
            final(host).present == old(host).present,
            final(host).enable == old(host).enable,
            final(host).ime == old(host).ime,
    {
        let mut writer = self;
        writer.send(host);
    }
}

} // verus!
