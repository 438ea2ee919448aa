//! What to do after each read from and each write to the transport.

use vstd::prelude::*;

verus! {

/// How a read or a write on the transport ended.
#[derive(Clone, Copy, Debug, PartialEq, Eq, Structural)]
pub enum IoOutcome {
    /// It moved this many bytes.
    Done(usize),
    /// The transport is not ready.
    WouldBlock,
    /// It failed.
    Failed,
}

/// What follows a read.
#[derive(Clone, Copy, Debug, PartialEq, Eq, Structural)]
pub enum ReadStep {
    /// Read again.
    Again,
    /// Stop reading; what was read is to be looked at.
    Stop,
    /// The peer closed the connection before anything was read.
    UnexpectedEof,
    /// The transport failed before anything was read.
    Fail,
}

/// What follows a read that ended as `outcome`, where the read buffer held
/// `start` bytes before the first read and holds `len` bytes now, and may
/// grow to `limit` bytes.
///
/// Reading goes on until the transport blocks, the peer closes, or the
/// buffer is full. The end of the input and a failure count only where
/// nothing at all was read; otherwise what was read is looked at first.
pub open spec fn read_step_spec(start: nat, len: nat, limit: nat, outcome: IoOutcome) -> ReadStep {
    match outcome {
        IoOutcome::Done(n) => if n == 0 {
            if len == start {
                ReadStep::UnexpectedEof
            } else {
                ReadStep::Stop
            }
        } else if len >= limit {
            ReadStep::Stop
        } else {
            ReadStep::Again
        },
        IoOutcome::WouldBlock => ReadStep::Stop,
        IoOutcome::Failed => if len == start {
            ReadStep::Fail
        } else {
            ReadStep::Stop
        },
    }
}

/// Decides what follows a read; see [`read_step_spec`].
pub fn read_step(start: usize, len: usize, limit: usize, outcome: IoOutcome) -> (r: ReadStep)
    ensures
        r == read_step_spec(start as nat, len as nat, limit as nat, outcome),
{
    match outcome {
        IoOutcome::Done(n) => {
            if n == 0 {
                if len == start {
                    ReadStep::UnexpectedEof
                } else {
                    ReadStep::Stop
                }
            } else if len >= limit {
                ReadStep::Stop
            } else {
                ReadStep::Again
            }
        },
        IoOutcome::WouldBlock => ReadStep::Stop,
        IoOutcome::Failed => {
            if len == start {
                ReadStep::Fail
            } else {
                ReadStep::Stop
            }
        },
    }
}

/// The least room that a read is given.
pub const READ_CHUNK: usize = 4096;

/// How much room is to be added to a read buffer of `len` bytes and a
/// capacity of `capacity` bytes before a read, so that the read has room
/// for [`READ_CHUNK`] bytes.
pub fn reserve_hint(len: usize, capacity: usize) -> (more: usize)
    requires
        len <= capacity,
    ensures
        more == if capacity - len < READ_CHUNK {
            READ_CHUNK - (capacity - len)
        } else {
            0
        },
{
    let remaining = capacity - len;
    if remaining < READ_CHUNK {
        READ_CHUNK - remaining
    } else {
        0
    }
}

/// What follows a write.
#[derive(Clone, Copy, Debug, PartialEq, Eq, Structural)]
pub enum WriteStep {
    /// Everything is written.
    Done,
    /// Write again, from this position on.
    Again(usize),
    /// The transport took no byte.
    WriteZero,
    /// The transport failed.
    Fail,
}

/// What follows a write that ended as `outcome`, where `written` of
/// `total` bytes were written before it.
///
/// Writing goes on until every byte is written. A write that takes no
/// byte, and one that fails, ends it. A transport that is not ready is
/// tried again.
pub open spec fn write_step_spec(written: nat, total: nat, outcome: IoOutcome) -> WriteStep {
    match outcome {
        IoOutcome::Done(n) => if n == 0 {
            WriteStep::WriteZero
        } else if written + n >= total {
            WriteStep::Done
        } else {
            WriteStep::Again((written + n) as usize)
        },
        IoOutcome::WouldBlock => WriteStep::Again(written as usize),
        IoOutcome::Failed => WriteStep::Fail,
    }
}

/// Decides what follows a write; see [`write_step_spec`].
pub fn write_step(written: usize, total: usize, outcome: IoOutcome) -> (r: WriteStep)
    requires
        written < total,
    ensures
        r == write_step_spec(written as nat, total as nat, outcome),
        r matches WriteStep::Again(next) ==> written <= next < total,
{
    match outcome {
        IoOutcome::Done(n) => {
            if n == 0 {
                WriteStep::WriteZero
            } else if n >= total - written {
                WriteStep::Done
            } else {
                WriteStep::Again(written + n)
            }
        },
        IoOutcome::WouldBlock => WriteStep::Again(written),
        IoOutcome::Failed => WriteStep::Fail,
    }
}

} // verus!
