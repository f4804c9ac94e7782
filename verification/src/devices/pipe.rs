//! Pipes: a byte queue between a writing side and a reading side.
//!
//! Both sides share one `InnerPipe`; the caller holds it behind whatever
//! lock the two users need, and hands it to the side's operations.

use vstd::prelude::*;
use std::collections::VecDeque;

verus! {

/// Why a pipe operation failed.
#[derive(Debug, Clone, Copy, PartialEq, Eq, Structural)]
pub enum PipeError {
    /// Reading from the write side.
    ReadNotSupported,
    /// Writing to the read side.
    WriteNotSupported,
    /// The other side is closed.
    EndOfFile,
}

/// The state the two sides of a pipe share.
#[derive(Debug)]
pub struct InnerPipe {
    /// The bytes written and not read yet, oldest first.
    buffer: VecDeque<u8>,
    read_side_available: bool,
    write_side_available: bool,
}

/// A pipe: the bytes waiting to be read, oldest first, and which sides are
/// still open.
pub struct PipeView {
    pub pending: Seq<u8>,
    pub read_open: bool,
    pub write_open: bool,
}

impl View for InnerPipe {
    type V = PipeView;

    closed spec fn view(&self) -> PipeView {
        PipeView {
            pending: self.buffer@,
            read_open: self.read_side_available,
            write_open: self.write_side_available,
        }
    }
}

impl InnerPipe {
    /// An empty pipe with both sides open.
    pub fn new() -> (r: InnerPipe)
        ensures
            r@ == (PipeView { pending: Seq::empty(), read_open: true, write_open: true }),
    {
        InnerPipe { buffer: VecDeque::new(), read_side_available: true, write_side_available: true }
    }
}

/// The outcome of reading at most `max` bytes from the read side: the
/// oldest pending bytes, or end of file once the write side is closed
/// (pending bytes are then left unread).
pub open spec fn read_outcome(v: PipeView, is_read_side: bool, max: nat) -> (PipeView, Result<Seq<u8>, PipeError>) {
    if !is_read_side {
        (v, Err(PipeError::ReadNotSupported))
    } else if !v.write_open {
        (v, Err(PipeError::EndOfFile))
    } else {
        let n = if max < v.pending.len() { max } else { v.pending.len() };
        (PipeView { pending: v.pending.skip(n as int), ..v }, Ok(v.pending.take(n as int)))
    }
}

/// The outcome of writing `bytes` to the write side: they are queued
/// after the pending ones, unless the read side is closed.
pub open spec fn write_outcome(v: PipeView, is_read_side: bool, bytes: Seq<u8>) -> (PipeView, Result<nat, PipeError>) {
    if is_read_side {
        (v, Err(PipeError::WriteNotSupported))
    } else if !v.read_open {
        (v, Err(PipeError::EndOfFile))
    } else {
        (PipeView { pending: v.pending + bytes, ..v }, Ok(bytes.len()))
    }
}

/// One side of a pipe.
#[derive(Debug, Clone, Copy)]
pub struct PipeSide {
    pub is_read_side: bool,
}

/// The two sides of a new pipe: the read side first, the write side second.
pub fn create_pipe_pair() -> (r: (InnerPipe, PipeSide, PipeSide))
    ensures
        r.0@ == (PipeView { pending: Seq::empty(), read_open: true, write_open: true }),
        r.1.is_read_side,
        !r.2.is_read_side,
{
    (InnerPipe::new(), PipeSide { is_read_side: true }, PipeSide { is_read_side: false })
}

impl PipeSide {
    pub fn name(&self) -> (r: &'static str)
        ensures
            r@ == "pipe"@,
    {
        "pipe"
    }

    /// Reads at most `max` bytes (the size of the caller's buffer).
    pub fn read(&self, pipe: &mut InnerPipe, max: usize) -> (r: Result<Vec<u8>, PipeError>)
        ensures
            final(pipe)@ == read_outcome(old(pipe)@, self.is_read_side, max as nat).0,
            match (r, read_outcome(old(pipe)@, self.is_read_side, max as nat).1) {
                (Ok(bytes), Ok(s)) => bytes@ == s,
                (Err(e), Err(f)) => e == f,
                _ => false,
            },
    {
        if !self.is_read_side {
            return Err(PipeError::ReadNotSupported);
        }
        if !pipe.write_side_available {
            return Err(PipeError::EndOfFile);
        }
        let ghost start = pipe.buffer@;
        let ghost n: int = if max < start.len() { max as int } else { start.len() as int };
        let mut out: Vec<u8> = Vec::new();
        let mut i: usize = 0;
        while i < max
            invariant_except_break
                i <= max,
                i <= start.len(),
                out@ == start.take(i as int),
                pipe.buffer@ == start.skip(i as int),
                pipe.read_side_available == old(pipe).read_side_available,
                pipe.write_side_available == old(pipe).write_side_available,
                start == old(pipe).buffer@,
                n == if max < start.len() { max as int } else { start.len() as int },
            ensures
                out@ == start.take(n),
                pipe.buffer@ == start.skip(n),
                pipe.read_side_available == old(pipe).read_side_available,
                pipe.write_side_available == old(pipe).write_side_available,
            decreases max - i,
        {
            match pipe.buffer.pop_front() {
                Some(b) => {
                    assert(start.skip(i as int)[0] == start[i as int]);
                    out.push(b);
                    i = i + 1;
                    assert(out@ =~= start.take(i as int));
                    assert(pipe.buffer@ =~= start.skip(i as int));
                },
                None => {
                    assert(i == start.len());
                    break;
                },
            }
        }
        Ok(out)
    }

    /// Writes all of `buf`, returning its length.
    pub fn write(&self, pipe: &mut InnerPipe, buf: &[u8]) -> (r: Result<u64, PipeError>)
        ensures
            final(pipe)@ == write_outcome(old(pipe)@, self.is_read_side, buf@).0,
            match (r, write_outcome(old(pipe)@, self.is_read_side, buf@).1) {
                (Ok(k), Ok(n)) => k == n,
                (Err(e), Err(f)) => e == f,
                _ => false,
            },
    {
        if self.is_read_side {
            return Err(PipeError::WriteNotSupported);
        }
        if !pipe.read_side_available {
            return Err(PipeError::EndOfFile);
        }
        let ghost start = pipe.buffer@;
        let mut i: usize = 0;
        while i < buf.len()
            invariant
                i <= buf@.len(),
                pipe.buffer@ == start + buf@.take(i as int),
                pipe.read_side_available == old(pipe).read_side_available,
                pipe.write_side_available == old(pipe).write_side_available,
                start == old(pipe).buffer@,
            decreases buf@.len() - i,
        {
            pipe.buffer.push_back(buf[i]);
            i = i + 1;
            assert(buf@.take(i as int) =~= buf@.take(i - 1).push(buf@[i - 1]));
            assert(pipe.buffer@ =~= start + buf@.take(i as int));
        }
        assert(buf@.take(buf@.len() as int) =~= buf@);
        Ok(buf.len() as u64)
    }

    /// Closes this side; the other side then gets end of file.
    pub fn close(&self, pipe: &mut InnerPipe) -> (r: Result<(), PipeError>)
        ensures
            r is Ok,
            final(pipe)@ == if self.is_read_side {
                PipeView { read_open: false, ..old(pipe)@ }
            } else {
                PipeView { write_open: false, ..old(pipe)@ }
            },
    {
        if self.is_read_side {
            pipe.read_side_available = false;
        } else {
            pipe.write_side_available = false;
        }
        Ok(())
    }
}

/// What goes in comes out in order: while both sides are open, reading at
/// least as many bytes as are pending after a write gives the bytes that
/// were pending followed by those written, and leaves the pipe empty.
pub proof fn lemma_pipe_fifo(v: PipeView, bytes: Seq<u8>, max: nat)
    requires
        v.read_open,
        v.write_open,
        max >= v.pending.len() + bytes.len(),
    ensures
        ({
            let (after_write, written) = write_outcome(v, false, bytes);
            let (after_read, got) = read_outcome(after_write, true, max);
            &&& written == Ok::<nat, PipeError>(bytes.len())
            &&& got == Ok::<Seq<u8>, PipeError>(v.pending + bytes)
            &&& after_read.pending.len() == 0
        }),
{
    let all = v.pending + bytes;
    assert(all.take(all.len() as int) =~= all);
    assert(all.skip(all.len() as int) =~= Seq::<u8>::empty());
}

/// Bytes are read in the order they were written: a read of `max` bytes
/// gives the first `max` pending bytes, and the next read continues where
/// it stopped.
pub proof fn lemma_pipe_reads_in_order(v: PipeView, a: nat, b: nat)
    requires
        v.write_open,
        a + b <= v.pending.len(),
    ensures
        ({
            let (mid, first) = read_outcome(v, true, a);
            let (_, second) = read_outcome(mid, true, b);
            first == Ok::<Seq<u8>, PipeError>(v.pending.take(a as int))
                && second == Ok::<Seq<u8>, PipeError>(v.pending.subrange(a as int, (a + b) as int))
        }),
{
    assert(v.pending.skip(a as int).take(b as int) =~= v.pending.subrange(a as int, (a + b) as int));
}

} // verus!
