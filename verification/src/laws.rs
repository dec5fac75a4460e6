//! Laws of the transport: what one record's emission delivers, stated over
//! the stream semantics of [`crate::writer`] and proved for every input.

use vstd::prelude::*;

use crate::host::BUFFER_SIZE;
use crate::writer::Transport;
use crate::writer::emitted;
use crate::writer::step;
use crate::writer::stream;
use crate::writer::substitute;
use crate::writer::substituted;

verus! {

/// Whether `bytes` contains a newline byte.
pub open spec fn has_newline(bytes: Seq<u8>) -> bool {
    exists|i: int| 0 <= i < bytes.len() && bytes[i] == 0x0A
}

/// Whether no delivered message in `flushed` contains a newline byte.
pub open spec fn newline_free_log(flushed: Seq<(u16, Seq<u8>)>) -> bool {
    forall|j: int| 0 <= j < flushed.len() ==> !has_newline((#[trigger] flushed[j]).1)
}

/// Number of newline bytes in `bytes`.
pub open spec fn newline_count(bytes: Seq<u8>) -> int
    decreases bytes.len(),
{
    if bytes.len() == 0 {
        0
    } else {
        (if bytes[0] == 0x0A { 1int } else { 0int }) + newline_count(bytes.drop_first())
    }
}

/// Whether writing `bytes` after `pending` staged bytes never fills the
/// buffer exactly, so no flush happens at the buffer boundary: every
/// newline-separated stretch stays below `BUFFER_SIZE`.
pub open spec fn below_boundary(bytes: Seq<u8>, pending: int) -> bool
    decreases bytes.len(),
{
    if bytes.len() == 0 {
        true
    } else if bytes[0] == 0x0A {
        below_boundary(bytes.drop_first(), 0)
    } else {
        pending + 1 < BUFFER_SIZE && below_boundary(bytes.drop_first(), pending + 1)
    }
}

/// The stream, consumed from the front: used to walk inputs in the same
/// direction as `newline_count` and `below_boundary`.
spec fn stream_front(code: u16, state: Transport, input: Seq<u8>) -> Transport
    decreases input.len(),
{
    if input.len() == 0 {
        state
    } else {
        stream_front(code, step(code, state, input[0]), input.drop_first())
    }
}

proof fn lemma_stream_front_push(code: u16, state: Transport, input: Seq<u8>, byte: u8)
    ensures
        stream_front(code, state, input.push(byte)) == step(
            code,
            stream_front(code, state, input),
            byte,
        ),
    decreases input.len(),
{
    reveal_with_fuel(stream_front, 3);
    if input.len() == 0 {
        assert(input.push(byte)[0] == byte);
        assert(input.push(byte).drop_first() =~= input);
    } else {
        assert(input.push(byte)[0] == input[0]);
        assert(input.push(byte).drop_first() =~= input.drop_first().push(byte));
        lemma_stream_front_push(code, step(code, state, input[0]), input.drop_first(), byte);
    }
}

proof fn lemma_stream_front_eq(code: u16, state: Transport, input: Seq<u8>)
    ensures
        stream(code, state, input) == stream_front(code, state, input),
    decreases input.len(),
{
    if input.len() != 0 {
        lemma_stream_front_eq(code, state, input.drop_last());
        lemma_stream_front_push(code, state, input.drop_last(), input.last());
        assert(input.drop_last().push(input.last()) =~= input);
    }
}

/// The stream over a concatenation is the stream over the second part,
/// started from where the first part left off.
proof fn lemma_stream_concat(code: u16, state: Transport, left: Seq<u8>, right: Seq<u8>)
    ensures
        stream(code, state, left + right) == stream(
            code,
            stream(code, state, left),
            right,
        ),
    decreases right.len(),
{
    if right.len() == 0 {
        assert(left + right =~= left);
    } else {
        lemma_stream_concat(code, state, left, right.drop_last());
        assert((left + right).drop_last() =~= left + right.drop_last());
        assert((left + right).last() == right.last());
    }
}

/// A newline-free input that fits beside the staged bytes is simply staged,
/// substituted, with nothing flushed.
proof fn lemma_stream_no_boundary(
    code: u16,
    staged: Seq<u8>,
    flushed: Seq<(u16, Seq<u8>)>,
    input: Seq<u8>,
)
    requires
        staged.len() + input.len() < BUFFER_SIZE,
        forall|i: int| 0 <= i < input.len() ==> input[i] != 0x0A,
    ensures
        stream(code, (staged, flushed), input) == (staged + substituted(input), flushed),
    decreases input.len(),
{
    if input.len() == 0 {
        assert(substituted(input) =~= Seq::<u8>::empty());
        assert(staged + substituted(input) =~= staged);
    } else {
        lemma_stream_no_boundary(code, staged, flushed, input.drop_last());
        assert((staged + substituted(input.drop_last())).push(substitute(input.last())) =~= staged
            + substituted(input));
    }
}

/// Law: a record free of newlines and short enough to stay below the buffer
/// boundary is delivered in exactly one flush, at the record's severity
/// code, whose bytes are the input with every 0x00 byte replaced by 0x1A
/// and every other byte unchanged.
pub proof fn lemma_round_trip_substitution(code: u16, input: Seq<u8>)
    requires
        input.len() < BUFFER_SIZE,
        forall|i: int| 0 <= i < input.len() ==> input[i] != 0x0A,
    ensures
        emitted(code, input) == seq![(code, substituted(input))],
{
    lemma_stream_no_boundary(code, Seq::<u8>::empty(), Seq::<(u16, Seq<u8>)>::empty(), input);
    assert(Seq::<u8>::empty() + substituted(input) =~= substituted(input));
    assert(Seq::<(u16, Seq<u8>)>::empty().push((code, substituted(input))) =~= seq![
        (code, substituted(input)),
    ]);
}

/// Law: a record free of newlines and of 0x00 bytes, at most 255 bytes
/// long, is delivered verbatim in exactly one flush.
pub proof fn lemma_identity_round_trip(code: u16, input: Seq<u8>)
    requires
        input.len() < BUFFER_SIZE,
        forall|i: int| 0 <= i < input.len() ==> input[i] != 0x0A,
        forall|i: int| 0 <= i < input.len() ==> input[i] != 0x00,
    ensures
        emitted(code, input) == seq![(code, input)],
{
    lemma_round_trip_substitution(code, input);
    assert(substituted(input) =~= input);
}

proof fn lemma_count_front(
    code: u16,
    staged: Seq<u8>,
    flushed: Seq<(u16, Seq<u8>)>,
    input: Seq<u8>,
)
    requires
        staged.len() < BUFFER_SIZE,
        below_boundary(input, staged.len() as int),
    ensures
        stream_front(code, (staged, flushed), input).1.len() == flushed.len() + newline_count(
            input,
        ),
        stream_front(code, (staged, flushed), input).0.len() < BUFFER_SIZE,
    decreases input.len(),
{
    if input.len() != 0 {
        if input[0] == 0x0A {
            lemma_count_front(
                code,
                Seq::<u8>::empty(),
                flushed.push((code, staged)),
                input.drop_first(),
            );
        } else {
            lemma_count_front(
                code,
                staged.push(substitute(input[0])),
                flushed,
                input.drop_first(),
            );
        }
    }
}

/// Law: while no newline-separated stretch of the input reaches the buffer
/// boundary, a record containing `k` newline bytes is delivered in exactly
/// `k + 1` flushes — one per newline and one at scope exit.
pub proof fn lemma_newline_flush_count(code: u16, input: Seq<u8>)
    requires
        below_boundary(input, 0),
    ensures
        emitted(code, input).len() == newline_count(input) + 1,
{
    let fresh: Transport = (Seq::<u8>::empty(), Seq::<(u16, Seq<u8>)>::empty());
    lemma_stream_front_eq(code, fresh, input);
    lemma_count_front(code, Seq::<u8>::empty(), Seq::<(u16, Seq<u8>)>::empty(), input);
}

proof fn lemma_newline_free_stream(
    code: u16,
    staged: Seq<u8>,
    flushed: Seq<(u16, Seq<u8>)>,
    input: Seq<u8>,
)
    requires
        !has_newline(staged),
        newline_free_log(flushed),
    ensures
        !has_newline(stream(code, (staged, flushed), input).0),
        newline_free_log(stream(code, (staged, flushed), input).1),
    decreases input.len(),
{
    if input.len() != 0 {
        lemma_newline_free_stream(code, staged, flushed, input.drop_last());
        let prior = stream(code, (staged, flushed), input.drop_last());
        let byte = input.last();
        if byte == 0x0A {
            assert(newline_free_log(prior.1.push((code, prior.0))));
        } else {
            let grown = prior.0.push(substitute(byte));
            assert(substitute(byte) != 0x0A);
            assert(!has_newline(grown));
            if grown.len() == BUFFER_SIZE {
                assert(newline_free_log(prior.1.push((code, grown))));
            }
        }
    }
}

/// Law: newline bytes mark flush boundaries and are never staged — no
/// delivered message of any record contains a newline byte.
pub proof fn lemma_no_newline_delivered(code: u16, input: Seq<u8>)
    ensures
        newline_free_log(emitted(code, input)),
{
    let fresh: Transport = (Seq::<u8>::empty(), Seq::<(u16, Seq<u8>)>::empty());
    lemma_newline_free_stream(code, Seq::<u8>::empty(), Seq::<(u16, Seq<u8>)>::empty(), input);
    let state = stream(code, fresh, input);
    assert(newline_free_log(state.1.push((code, state.0))));
}

/// Processing one full buffer of newline-free bytes from an empty buffer
/// flushes it exactly once, at the boundary.
proof fn lemma_one_chunk(code: u16, flushed: Seq<(u16, Seq<u8>)>, chunk: Seq<u8>)
    requires
        chunk.len() == BUFFER_SIZE,
        forall|i: int| 0 <= i < chunk.len() ==> chunk[i] != 0x0A,
    ensures
        stream(code, (Seq::<u8>::empty(), flushed), chunk) == (
            Seq::<u8>::empty(),
            flushed.push((code, substituted(chunk))),
        ),
{
    lemma_stream_no_boundary(code, Seq::<u8>::empty(), flushed, chunk.drop_last());
    assert(Seq::<u8>::empty() + substituted(chunk.drop_last()) =~= substituted(chunk.drop_last()));
    assert(substituted(chunk.drop_last()).push(substitute(chunk.last())) =~= substituted(chunk));
}

/// Law: a newline-free input whose length is an exact multiple of the
/// buffer size is delivered in full-buffer flushes, one at every 256-byte
/// boundary, each carrying that 256-byte stretch substituted; nothing stays
/// staged, and the scope-exit flush that follows is empty.
pub proof fn lemma_boundary_flushes(code: u16, input: Seq<u8>, count: nat)
    requires
        input.len() == BUFFER_SIZE * count,
        forall|i: int| 0 <= i < input.len() ==> input[i] != 0x0A,
    ensures
        stream(code, (Seq::<u8>::empty(), Seq::<(u16, Seq<u8>)>::empty()), input).0
            == Seq::<u8>::empty(),
        stream(code, (Seq::<u8>::empty(), Seq::<(u16, Seq<u8>)>::empty()), input).1.len()
            == count,
        forall|j: int|
            0 <= j < count ==> stream(
                code,
                (Seq::<u8>::empty(), Seq::<(u16, Seq<u8>)>::empty()),
                input,
            ).1[j] == (
                code,
                substituted(
                    input.subrange(BUFFER_SIZE * j, BUFFER_SIZE * j + BUFFER_SIZE as int),
                ),
            ),
        emitted(code, input).len() == count + 1,
        emitted(code, input).last() == (code, Seq::<u8>::empty()),
    decreases count,
{
    let fresh: Transport = (Seq::<u8>::empty(), Seq::<(u16, Seq<u8>)>::empty());
    if count == 0 {
        assert(input =~= Seq::<u8>::empty());
    } else {
        let cut = input.len() - BUFFER_SIZE as int;
        let prefix = input.take(cut);
        let chunk = input.subrange(cut, input.len() as int);
        assert(prefix + chunk =~= input);
        lemma_boundary_flushes(code, prefix, (count - 1) as nat);
        lemma_stream_concat(code, fresh, prefix, chunk);
        lemma_one_chunk(code, stream(code, fresh, prefix).1, chunk);
        assert forall|j: int| 0 <= j < count implies stream(code, fresh, input).1[j] == (
            code,
            substituted(input.subrange(BUFFER_SIZE * j, BUFFER_SIZE * j + BUFFER_SIZE as int)),
        ) by {
            if j < count - 1 {
                assert(prefix.subrange(BUFFER_SIZE * j, BUFFER_SIZE * j + BUFFER_SIZE as int)
                    =~= input.subrange(BUFFER_SIZE * j, BUFFER_SIZE * j + BUFFER_SIZE as int));
            } else {
                assert(input.subrange(BUFFER_SIZE * j, BUFFER_SIZE * j + BUFFER_SIZE as int)
                    =~= chunk);
            }
        }
    }
}

} // verus!
