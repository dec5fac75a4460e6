//! The host's register bank, modelled: a 256-byte shared buffer, the
//! severity-valued send register, the 16-bit enable register and the
//! interrupt-enable flag, together with the host's documented reaction to
//! each access.

use vstd::prelude::*;

verus! {

/// Number of bytes in the shared buffer.
pub const BUFFER_SIZE: usize = 256;

/// Value written to the enable register to request activation.
pub const ENABLE_REQUEST: u16 = 0xC0DE;

/// Value the enable register reads back once a compatible host has
/// acknowledged activation.
pub const ENABLE_ACK: u16 = 0x1DEA;

/// One message as the host consumed it: the severity code that was written
/// to the send register, and the bytes the host took from the buffer.
pub struct Flush {
    /// The severity code of this message.
    pub level: u16,
    /// The bytes of this message.
    pub bytes: Vec<u8>,
}

impl View for Flush {
    type V = (u16, Seq<u8>);

    open spec fn view(&self) -> (u16, Seq<u8>) {
        (self.level, self.bytes@)
    }
}

/// Position of the first 0x00 byte of `buffer`, or its length if none:
/// how far the host reads when the send register is written.
pub open spec fn terminator(buffer: Seq<u8>) -> int
    decreases buffer.len(),
{
    if buffer.len() == 0 {
        0
    } else if buffer[0] == 0 {
        0
    } else {
        1 + terminator(buffer.drop_first())
    }
}

/// The bytes the host consumes from `buffer` on a send: everything up to the
/// first 0x00, at most the whole buffer.
pub open spec fn message_of(buffer: Seq<u8>) -> Seq<u8> {
    buffer.take(terminator(buffer))
}

/// The terminator is where the first 0x00 stands: if the first `k` bytes are
/// non-zero and either the buffer ends there or byte `k` is 0x00, the host
/// reads exactly `k` bytes.
pub proof fn lemma_terminator(buffer: Seq<u8>, k: int)
    requires
        0 <= k <= buffer.len(),
        forall|i: int| 0 <= i < k ==> buffer[i] != 0,
        k < buffer.len() ==> buffer[k] == 0,
    ensures
        terminator(buffer) == k,
    decreases k,
{
    if buffer.len() == 0 {
    } else if k == 0 {
    } else {
        lemma_terminator(buffer.drop_first(), k - 1);
    }
}

/// The host's register bank.
///
/// `present` says whether a compatible host is listening; `flushes` records
/// every message the host has consumed, in order.
pub struct Host {
    /// Whether a compatible host is listening behind the registers.
    pub present: bool,
    /// Current value of the 16-bit enable register.
    pub enable: u16,
    /// Current value of the interrupt-enable flag.
    pub ime: bool,
    /// The shared buffer; always `BUFFER_SIZE` bytes.
    pub buffer: Vec<u8>,
    /// Every message the host has consumed so far.
    pub flushes: Vec<Flush>,
}

impl Host {
    /// The bank is well-formed: the buffer has its fixed size.
    pub open spec fn wf(&self) -> bool {
        self.buffer@.len() == BUFFER_SIZE
    }

    /// The messages the host has consumed, as severity-code/bytes pairs.
    pub open spec fn log(&self) -> Seq<(u16, Seq<u8>)> {
        self.flushes@.map_values(|f: Flush| f@)
    }

    /// A fresh register bank: nothing activated, interrupts enabled, buffer
    /// zeroed, no messages consumed.
    pub fn new(present: bool) -> (host: Host)
        ensures
            host.wf(),
            host.present == present,
            host.enable == 0,
            host.ime == true,
            host.log() == Seq::<(u16, Seq<u8>)>::empty(),
    {
        let mut buffer: Vec<u8> = Vec::new();
        let mut i: usize = 0;
        while i < BUFFER_SIZE
            invariant
                buffer@.len() == i,
                i <= BUFFER_SIZE,
            decreases BUFFER_SIZE - i,
        {
            buffer.push(0);
            i = i + 1;
        }
        let host = Host { present, enable: 0, ime: true, buffer, flushes: Vec::new() };
        proof {
            assert(host.log() =~= Seq::<(u16, Seq<u8>)>::empty());
        }
        host
    }

    /// Stores one byte of the in-flight record in the shared buffer.
    pub fn write_buffer(&mut self, index: u8, byte: u8)
        requires
            old(self).wf(),
        ensures
            final(self).wf(),
            final(self).buffer@ == old(self).buffer@.update(index as int, byte),
            final(self).flushes == old(self).flushes,
            final(self).log() == old(self).log(),
            final(self).present == old(self).present,
            final(self).enable == old(self).enable,
            final(self).ime == old(self).ime,
    {
        self.buffer[index as usize] = byte;
    }

    /// Writes a severity code to the send register: the host consumes the
    /// buffer up to the first 0x00 byte and records it at that severity.
    pub fn write_send(&mut self, level: u16)
        requires
            old(self).wf(),
        ensures
            final(self).wf(),
            final(self).log() == old(self).log().push((level, message_of(old(self).buffer@))),
            final(self).buffer == old(self).buffer,
            final(self).present == old(self).present,
            final(self).enable == old(self).enable,
            final(self).ime == old(self).ime,
    {
        let mut bytes: Vec<u8> = Vec::new();
        let mut i: usize = 0;
        while i < self.buffer.len() && self.buffer[i] != 0
            invariant
                self.wf(),
                i <= self.buffer@.len(),
                bytes@ == self.buffer@.take(i as int),
                forall|j: int| 0 <= j < i ==> self.buffer@[j] != 0,
            decreases self.buffer@.len() - i,
        {
            bytes.push(self.buffer[i]);
            proof {
                assert(bytes@ =~= self.buffer@.take(i + 1));
            }
            i = i + 1;
        }
        proof {
            lemma_terminator(self.buffer@, i as int);
        }
        let flush = Flush { level, bytes };
        self.flushes.push(flush);
        proof {
            assert(self.log() =~~= old(self).log().push(
                (level, message_of(old(self).buffer@)),
            ));
        }
    }

    /// Writes the enable register: a compatible host acknowledges an
    /// activation request; anything else deactivates the channel.
    pub fn write_enable(&mut self, value: u16)
        ensures
            final(self).enable == (
                if old(self).present && value == ENABLE_REQUEST { ENABLE_ACK } else { 0u16 }
            ),
            final(self).present == old(self).present,
            final(self).ime == old(self).ime,
            final(self).buffer == old(self).buffer,
            final(self).flushes == old(self).flushes,
            final(self).log() == old(self).log(),
    {
        if self.present && value == ENABLE_REQUEST {
            self.enable = ENABLE_ACK;
        } else {
            self.enable = 0;
        }
    }

    /// Reads the enable register.
    pub fn read_enable(&self) -> (value: u16)
        ensures
            value == self.enable,
    {
        self.enable
    }

    /// Reads the interrupt-enable flag.
    pub fn read_ime(&self) -> (value: bool)
        ensures
            value == self.ime,
    {
        self.ime
    }

    /// Writes the interrupt-enable flag.
    pub fn write_ime(&mut self, value: bool)
        ensures
            final(self).ime == value,
            final(self).present == old(self).present,
            final(self).enable == old(self).enable,
            final(self).buffer == old(self).buffer,
            final(self).flushes == old(self).flushes,
            final(self).log() == old(self).log(),
    {
        self.ime = value;
    }
}

} // verus!
