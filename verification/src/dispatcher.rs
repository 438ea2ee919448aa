//! The decisions of the connection loop. The loop itself waits on the
//! transport, the handler and the clock; what it does with what comes back
//! is decided here, over the state of one connection.

use vstd::prelude::*;
use crate::body::BodyReader;
use crate::buf::{ReadBuf, WriteBuf};
use crate::coding::TransferCoding;
use crate::context::Context;
use crate::decode::{decode_spec, Decoded, RequestHead};
use crate::encode::{
    head_bound, head_fits, head_spec, lemma_head_keeps_close, status_line, status_only_tail,
    ResponseParts,
};
use crate::error::ProtoError;
use crate::head::{canonical_reason, drained, BodySize, StatusCode, Version};
use crate::timer::{TimeoutKind, Timer, TimerState};

verus! {

/// Why serving a connection stopped.
pub enum Error<S, B, I> {
    /// The connection stayed idle for too long.
    KeepAliveExpire,
    /// A request head took too long.
    RequestTimeout,
    /// The peer broke the protocol.
    Proto(ProtoError),
    /// The transport failed.
    Io(I),
    /// The handler failed.
    Service(S),
    /// The response body failed.
    Body(B),
}

/// What the connection loop does about an error.
pub enum Recovery {
    /// The connection closes without a response.
    Exit,
    /// The request is answered with this status, and the connection closes.
    Respond(StatusCode),
    /// The error is handed to the caller.
    Propagate,
}

impl<S, B, I> Error<S, B, I> {
    /// The error that an expired deadline stands for.
    pub fn from_timeout(kind: TimeoutKind) -> (e: Self)
        ensures
            kind == TimeoutKind::KeepAliveExpire ==> e is KeepAliveExpire,
            kind == TimeoutKind::RequestTimeout ==> e is RequestTimeout,
    {
        match kind {
            TimeoutKind::KeepAliveExpire => Error::KeepAliveExpire,
            TimeoutKind::RequestTimeout => Error::RequestTimeout,
        }
    }

    /// The status with which the error is answered, where it is answered:
    /// 408 for a request head that took too long, 431 for one that is too
    /// large, 400 for every other breach of the protocol.
    pub open spec fn answer(self) -> Option<u16> {
        match self {
            Error::RequestTimeout => Some(408u16),
            Error::Proto(ProtoError::HeaderTooLarge) => Some(431u16),
            Error::Proto(_) => Some(400u16),
            _ => None,
        }
    }

    /// What the connection loop does about the error: an idle connection
    /// closes in silence, a breach of the protocol and a slow request are
    /// answered, and failures of the transport, the handler and the
    /// response body are handed to the caller.
    pub fn recovery(&self) -> (r: Recovery)
        ensures
            match r {
                Recovery::Exit => *self is KeepAliveExpire,
                Recovery::Respond(status) => self.answer() == Some(status.value()),
                Recovery::Propagate => !(*self is KeepAliveExpire) && self.answer().is_none(),
            },
    {
        match self {
            Error::KeepAliveExpire => Recovery::Exit,
            Error::RequestTimeout => Recovery::Respond(StatusCode::request_timeout()),
            Error::Proto(ProtoError::HeaderTooLarge) => Recovery::Respond(
                StatusCode::request_header_fields_too_large(),
            ),
            Error::Proto(_) => Recovery::Respond(StatusCode::bad_request()),
            _ => Recovery::Propagate,
        }
    }
}

/// What the response pump does next.
#[derive(Clone, Copy, Debug, PartialEq, Eq, Structural)]
pub enum PumpStep {
    /// Ask the response body for its next piece.
    Poll,
    /// Wait for the response body; nothing is there to be written.
    Wait,
    /// Write the write buffer to the transport.
    Drain,
}

/// A request as it is handed to the handler: its head, and its body where
/// it has one.
pub struct Incoming<const READ_BUF_LIMIT: usize> {
    pub head: RequestHead,
    pub body: Option<BodyReader<READ_BUF_LIMIT>>,
}

/// The state of one connection.
pub struct Dispatcher<const HEADER_LIMIT: usize, const READ_BUF_LIMIT: usize, const WRITE_BUF_LIMIT: usize> {
    pub ctx: Context<HEADER_LIMIT>,
    pub timer: Timer,
    /// The read buffer, while no request body holds it.
    pub read_buf: Option<ReadBuf<READ_BUF_LIMIT>>,
    pub write_buf: WriteBuf<WRITE_BUF_LIMIT>,
    /// A request body holds the read buffer and has not ended.
    pub waiting: bool,
}

impl<
    const HEADER_LIMIT: usize,
    const READ_BUF_LIMIT: usize,
    const WRITE_BUF_LIMIT: usize,
> Dispatcher<HEADER_LIMIT, READ_BUF_LIMIT, WRITE_BUF_LIMIT> {
    /// The read buffer is with the connection, with a request body that
    /// has not ended, or lost; and where it is lost, the connection is
    /// marked to close. While it is with the connection, it holds no more
    /// than its limit.
    pub open spec fn wf(self) -> bool {
        &&& self.waiting ==> self.read_buf is None
        &&& self.read_buf is None && !self.waiting ==> self.ctx.close
        &&& self.read_buf matches Some(b) ==> b.wf()
    }

    /// What the read buffer holds, where the connection has it.
    pub open spec fn input(self) -> Seq<u8> {
        match self.read_buf {
            Some(b) => b@,
            None => Seq::empty(),
        }
    }

    /// What the write buffer holds.
    pub open spec fn output(self) -> Seq<u8> {
        self.write_buf@
    }

    /// The state of a connection that was accepted at `now`.
    pub fn new(keep_alive: u64, request_head: u64, date: Vec<u8>, now: u64) -> (d: Self)
        ensures
            d.wf(),
            d.read_buf is Some,
            d.input().len() == 0,
            d.output().len() == 0,
            !d.waiting,
            !d.ctx.close,
            !d.ctx.head_method,
            !d.ctx.connect_method,
            !d.ctx.expect_continue,
            d.ctx.date == date,
            drained(d.ctx.header_cache).len() == 0,
            d.timer == Timer::started(keep_alive, request_head, now),
    {
        Dispatcher {
            ctx: Context::new(date),
            timer: Timer::new(keep_alive, request_head, now),
            read_buf: Some(ReadBuf::new()),
            write_buf: WriteBuf::new(),
            waiting: false,
        }
    }

    /// Begins a wait for input at `now`: the date text is refreshed and
    /// the timer is updated. Returns the deadline of the wait.
    pub fn begin_read(&mut self, date: Vec<u8>, now: u64) -> (deadline: u64)
        ensures
            old(self).wf() ==> final(self).wf(),
            final(self).timer == old(self).timer.updated(now),
            deadline == final(self).timer.deadline,
            final(self).ctx.date == date,
            final(self).ctx.flags() == old(self).ctx.flags(),
            final(self).ctx.header_cache == old(self).ctx.header_cache,
            final(self).read_buf == old(self).read_buf,
            final(self).write_buf == old(self).write_buf,
            final(self).waiting == old(self).waiting,
    {
        self.ctx.set_date(date);
        self.timer.update(now);
        self.timer.get()
    }

    /// How many bytes a read may add to the read buffer.
    pub fn read_room(&self) -> (n: usize)
        ensures
            n == match self.read_buf {
                Some(b) => if b@.len() <= READ_BUF_LIMIT {
                    READ_BUF_LIMIT - b@.len()
                } else {
                    0
                },
                None => 0,
            },
    {
        match &self.read_buf {
            Some(b) => b.room(),
            None => 0,
        }
    }

    /// Takes in what a read from the transport gave.
    pub fn fill(&mut self, data: &[u8])
        requires
            old(self).wf(),
            old(self).read_buf is Some,
            old(self).input().len() + data@.len() <= READ_BUF_LIMIT,
        ensures
            final(self).wf(),
            final(self).read_buf is Some,
            final(self).input() == old(self).input() + data@,
            final(self).write_buf == old(self).write_buf,
            final(self).waiting == old(self).waiting,
            final(self).timer == old(self).timer,
            final(self).ctx == old(self).ctx,
    {
        let mut buf = self.read_buf.take().unwrap();
        buf.fill(data);
        self.read_buf = Some(buf);
    }

    /// Takes note of a read that gave `n` bytes at `now`. A read that gave
    /// nothing means that the peer has closed: the connection is marked to
    /// close and `false` is returned. Otherwise the time of the request
    /// head begins, unless it has begun, and `true` is returned.
    pub fn on_read(&mut self, n: usize, now: u64) -> (go_on: bool)
        ensures
            old(self).wf() ==> final(self).wf(),
            go_on == (n > 0),
            final(self).ctx.close == (old(self).ctx.close || n == 0),
            final(self).timer == if n == 0 {
                old(self).timer
            } else {
                old(self).timer.begun(now)
            },
            final(self).ctx.date == old(self).ctx.date,
            final(self).ctx.head_method == old(self).ctx.head_method,
            final(self).ctx.connect_method == old(self).ctx.connect_method,
            final(self).ctx.expect_continue == old(self).ctx.expect_continue,
            final(self).ctx.header_cache == old(self).ctx.header_cache,
            final(self).read_buf == old(self).read_buf,
            final(self).write_buf == old(self).write_buf,
            final(self).waiting == old(self).waiting,
    {
        if n == 0 {
            self.ctx.set_close();
            false
        } else {
            self.timer.first_byte(now);
            true
        }
    }

    /// Tells what it means that the deadline passed during a wait for
    /// input.
    pub fn on_timeout(&self) -> (kind: TimeoutKind)
        ensures
            kind == self.timer.expiry(self.input().len()),
    {
        let buffered = match &self.read_buf {
            Some(b) => b.len(),
            None => 0,
        };
        self.timer.map_to_err(buffered)
    }

    /// Takes the next request from the read buffer.
    ///
    /// On a complete head the timer waits for the next request again. A
    /// request without body leaves the read buffer with the connection; a
    /// request with a body takes it along, and the connection waits for
    /// it. `Ok(None)` tells that more input is needed.
    pub fn next_request(&mut self) -> (r: Result<Option<Incoming<READ_BUF_LIMIT>>, ProtoError>)
        requires
            old(self).wf(),
            old(self).read_buf is Some,
        ensures
            final(self).wf(),
            final(self).write_buf == old(self).write_buf,
            final(self).ctx.date == old(self).ctx.date,
            final(self).ctx.header_cache == old(self).ctx.header_cache,
            match decode_spec(
                old(self).ctx.close,
                old(self).input(),
                HEADER_LIMIT as nat,
                READ_BUF_LIMIT as nat,
            ) {
                Decoded::Ready { head, len, asks } => {
                    &&& r matches Ok(Some(incoming))
                    &&& incoming.head@ == head
                    &&& incoming.head.headers@.len() <= HEADER_LIMIT
                    &&& 0 < len <= READ_BUF_LIMIT
                    &&& final(self).timer == (Timer {
                        state: TimerState::OnKeepAlive,
                        ..old(self).timer
                    })
                    &&& final(self).ctx.flags() == (
                        asks.close,
                        asks.expect_continue,
                        asks.head_method,
                        asks.connect_method,
                    )
                    &&& if asks.coding.done() {
                        &&& incoming.body is None
                        &&& !final(self).waiting
                        &&& final(self).read_buf is Some
                        &&& final(self).input() == old(self).input().skip(len)
                    } else {
                        &&& incoming.body matches Some(body)
                        &&& body.wf()
                        &&& body.coding == asks.coding
                        &&& body.read_buf@ == old(self).input().skip(len)
                        &&& body.expect_continue == asks.expect_continue
                        &&& final(self).waiting
                        &&& final(self).read_buf is None
                    }
                },
                Decoded::NeedMore => {
                    &&& r matches Ok(None)
                    &&& final(self).read_buf is Some
                    &&& final(self).input() == old(self).input()
                    &&& final(self).ctx.flags() == old(self).ctx.flags()
                    &&& final(self).timer == old(self).timer
                    &&& final(self).waiting == old(self).waiting
                },
                Decoded::Failed(e) => {
                    &&& r matches Err(x)
                    &&& x == e
                    &&& final(self).read_buf is Some
                    &&& final(self).input() == old(self).input()
                    &&& final(self).ctx.flags() == old(self).ctx.flags()
                    &&& final(self).timer == old(self).timer
                    &&& final(self).waiting == old(self).waiting
                },
            },
    {
        let mut buf = self.read_buf.take().unwrap();
        match self.ctx.decode_head::<READ_BUF_LIMIT>(&mut buf.buf) {
            Ok(Some((head, coding))) => {
                self.timer.reset_state();
                if coding.is_eof() {
                    self.read_buf = Some(buf);
                    Ok(Some(Incoming { head, body: None }))
                } else {
                    let body = BodyReader::new(self.ctx.is_expect_header(), coding, buf);
                    self.waiting = true;
                    Ok(Some(Incoming { head, body: Some(body) }))
                }
            },
            Ok(None) => {
                self.read_buf = Some(buf);
                Ok(None)
            },
            Err(e) => {
                self.read_buf = Some(buf);
                Err(e)
            },
        }
    }

    /// Writes the head of a response into the write buffer and tells the
    /// framing of its body; see [`Context::encode_head`].
    pub fn respond(&mut self, parts: ResponseParts, size: BodySize) -> (r: Result<
        TransferCoding,
        ProtoError,
    >)
        requires
            old(self).output().len() + head_bound(
                drained(parts.headers),
                old(self).ctx.date@.len(),
            ) <= usize::MAX,
        ensures
            final(self).read_buf == old(self).read_buf,
            final(self).waiting == old(self).waiting,
            final(self).timer == old(self).timer,
            final(self).ctx.date == old(self).ctx.date,
            final(self).ctx.head_method == old(self).ctx.head_method,
            final(self).ctx.connect_method == old(self).ctx.connect_method,
            final(self).ctx.expect_continue == old(self).ctx.expect_continue,
            old(self).ctx.close ==> final(self).ctx.close,
            old(self).wf() ==> final(self).wf(),
            ({
                let head = head_spec(
                    old(self).ctx.close,
                    old(self).ctx.head_method,
                    old(self).ctx.connect_method,
                    old(self).ctx.date@,
                    parts.version,
                    parts.status.value(),
                    canonical_reason(parts.status.value()),
                    drained(parts.headers),
                    size,
                );
                match r {
                    Ok(coding) => {
                        &&& head matches Ok(h)
                        &&& coding == h.coding
                        &&& final(self).output() == old(self).output() + h.bytes
                        &&& final(self).ctx.close == h.close
                        &&& drained(final(self).ctx.header_cache).len() == 0
                    },
                    Err(e) => {
                        &&& head matches Err(x)
                        &&& x == e
                        &&& final(self).output() == old(self).output()
                        &&& final(self).ctx.close == old(self).ctx.close
                        &&& final(self).ctx.header_cache == old(self).ctx.header_cache
                    },
                }
            }),
    {
        self.ctx.encode_head(parts, size, &mut self.write_buf.buf)
    }

    /// Writes the head of a response into the write buffer where it fits,
    /// and tells the framing of its body. `None` tells that the head does
    /// not fit behind what the write buffer holds; then nothing has
    /// changed. See [`Context::try_encode_head`].
    pub fn try_respond(&mut self, parts: ResponseParts, size: BodySize) -> (r: Option<
        Result<TransferCoding, ProtoError>,
    >)
        ensures
            final(self).read_buf == old(self).read_buf,
            final(self).waiting == old(self).waiting,
            final(self).timer == old(self).timer,
            old(self).ctx.close ==> final(self).ctx.close,
            old(self).wf() ==> final(self).wf(),
            match r {
                Some(res) => {
                    &&& head_fits(
                        old(self).output().len(),
                        drained(parts.headers),
                        old(self).ctx.date@.len(),
                    )
                    &&& old(self).ctx.head_encoded(
                        final(self).ctx,
                        old(self).output(),
                        final(self).output(),
                        parts.version,
                        parts.status.value(),
                        canonical_reason(parts.status.value()),
                        drained(parts.headers),
                        size,
                        res,
                    )
                },
                None => {
                    &&& !head_fits(
                        old(self).output().len(),
                        drained(parts.headers),
                        old(self).ctx.date@.len(),
                    )
                    &&& final(self).output() == old(self).output()
                    &&& final(self).ctx == old(self).ctx
                },
            },
    {
        let ghost close = self.ctx.close;
        let r = self.ctx.try_encode_head(parts, size, &mut self.write_buf.buf);
        proof {
            if close {
                lemma_head_keeps_close(
                    self.ctx.head_method,
                    self.ctx.connect_method,
                    self.ctx.date@,
                    parts.version,
                    parts.status.value(),
                    canonical_reason(parts.status.value()),
                    drained(parts.headers),
                    size,
                );
            }
        }
        r
    }

    /// What the response pump does next while the response body has not
    /// ended: it asks the body for more as long as the write buffer is
    /// below its limit, and drains the buffer once it is not.
    pub fn pump_step(&self) -> (step: PumpStep)
        ensures
            step == if self.output().len() < WRITE_BUF_LIMIT {
                PumpStep::Poll
            } else {
                PumpStep::Drain
            },
    {
        if self.write_buf.want_write_buf() {
            PumpStep::Poll
        } else {
            PumpStep::Drain
        }
    }

    /// What the response pump does when the response body has no piece at
    /// hand: it drains what is in the write buffer, so that no byte waits
    /// behind a slow body, and waits where there is nothing to drain.
    pub fn on_body_pending(&self) -> (step: PumpStep)
        ensures
            step == if self.output().len() == 0 {
                PumpStep::Wait
            } else {
                PumpStep::Drain
            },
    {
        if self.write_buf.want_write_io() {
            PumpStep::Drain
        } else {
            PumpStep::Wait
        }
    }

    /// Writes a piece of the response body into the write buffer, in the
    /// framing of the response. A piece whose encoding fits into what the
    /// write buffer has left below its limit keeps the buffer within the
    /// limit.
    pub fn push_body(&mut self, encoder: &mut TransferCoding, piece: &[u8])
        requires
            old(encoder).accepts(piece@),
            old(self).output().len() + old(encoder).encoded(piece@).len()
                <= usize::MAX,
        ensures
            final(self).output() == old(self).output() + old(encoder).encoded(
                piece@,
            ),
            *final(encoder) == old(encoder).after_encode(piece@),
            old(self).output().len() + old(encoder).encoded(piece@).len()
                <= WRITE_BUF_LIMIT ==> final(self).output().len() <= WRITE_BUF_LIMIT,
            final(self).read_buf == old(self).read_buf,
            final(self).waiting == old(self).waiting,
            final(self).timer == old(self).timer,
            final(self).ctx == old(self).ctx,
    {
        encoder.encode(piece, &mut self.write_buf.buf);
    }

    /// Writes what ends the response body into the write buffer.
    pub fn end_body(&mut self, encoder: &mut TransferCoding)
        requires
            old(self).output().len() + 5 <= usize::MAX,
        ensures
            final(self).output() == old(self).output()
                + old(encoder).encoded_eof(),
            *final(encoder) == *old(encoder),
            final(self).read_buf == old(self).read_buf,
            final(self).waiting == old(self).waiting,
            final(self).timer == old(self).timer,
            final(self).ctx == old(self).ctx,
    {
        encoder.encode_eof(&mut self.write_buf.buf);
    }

    /// Takes back what the request body left: the read buffer, or nothing
    /// where the body ended before it was complete. Without the read
    /// buffer the connection is marked to close.
    pub fn reclaim(&mut self, returned: Option<ReadBuf<READ_BUF_LIMIT>>)
        requires
            old(self).waiting,
            returned matches Some(b) ==> b.wf(),
        ensures
            final(self).wf(),
            !final(self).waiting,
            final(self).read_buf == returned,
            final(self).ctx.close == (old(self).ctx.close || returned is None),
            final(self).write_buf == old(self).write_buf,
            final(self).timer == old(self).timer,
            final(self).ctx.date == old(self).ctx.date,
            final(self).ctx.head_method == old(self).ctx.head_method,
            final(self).ctx.connect_method == old(self).ctx.connect_method,
            final(self).ctx.expect_continue == old(self).ctx.expect_continue,
            final(self).ctx.header_cache == old(self).ctx.header_cache,
    {
        self.waiting = false;
        match returned {
            Some(buf) => {
                self.read_buf = Some(buf);
            },
            None => {
                self.read_buf = None;
                self.ctx.set_close();
            },
        }
    }

    /// Acts on an error of the connection loop; see [`Error::recovery`].
    /// Where the error is answered, the connection is marked to close and
    /// a response that holds nothing but the status is written into the
    /// write buffer.
    pub fn recover<S, B, I>(&mut self, error: &Error<S, B, I>) -> (r: Recovery)
        requires
            old(self).output().len() + 128 <= usize::MAX,
        ensures
            old(self).wf() ==> final(self).wf(),
            final(self).read_buf == old(self).read_buf,
            final(self).waiting == old(self).waiting,
            final(self).timer == old(self).timer,
            final(self).ctx.date == old(self).ctx.date,
            final(self).ctx.head_method == old(self).ctx.head_method,
            final(self).ctx.connect_method == old(self).ctx.connect_method,
            final(self).ctx.expect_continue == old(self).ctx.expect_continue,
            final(self).ctx.header_cache == old(self).ctx.header_cache,
            match r {
                Recovery::Exit => *error is KeepAliveExpire && final(self).ctx == old(self).ctx
                    && final(self).write_buf == old(self).write_buf,
                Recovery::Respond(status) => {
                    &&& error.answer() == Some(status.value())
                    &&& final(self).ctx.close
                    &&& final(self).output() == old(self).output()
                        + status_line(
                        Version::Http11,
                        status.value(),
                        canonical_reason(status.value()),
                    ) + status_only_tail()
                },
                Recovery::Propagate => {
                    &&& !(*error is KeepAliveExpire)
                    &&& error.answer().is_none()
                    &&& final(self).ctx == old(self).ctx
                    &&& final(self).write_buf == old(self).write_buf
                },
            },
    {
        let recovery = error.recovery();
        match &recovery {
            Recovery::Respond(status) => {
                self.ctx.request_error(*status, &mut self.write_buf.buf);
            },
            _ => {},
        }
        recovery
    }

    /// Takes note that the write buffer was written to the transport: the
    /// buffer is emptied. Tells whether the connection is to shut down.
    ///
    /// A connection that is kept, and waits for no request body, has its
    /// read buffer, and its write buffer is empty.
    pub fn flushed(&mut self) -> (shutdown: bool)
        ensures
            shutdown == old(self).ctx.close,
            final(self).output().len() == 0,
            final(self).read_buf == old(self).read_buf,
            final(self).waiting == old(self).waiting,
            final(self).timer == old(self).timer,
            final(self).ctx == old(self).ctx,
            old(self).wf() ==> final(self).wf(),
            old(self).wf() && !shutdown && !final(self).waiting ==> final(self).read_buf is Some
                && final(self).input().len() <= READ_BUF_LIMIT && final(self).output().len()
                == 0,
    {
        self.write_buf.clear();
        self.ctx.is_connection_closed()
    }
}

/// On a connection that is kept and waits for no request body, the read
/// buffer is with the connection and within its limit. Every step of the
/// connection loop keeps the state well formed, so this holds after every
/// request and response on such a connection; and once the write buffer
/// is written out, that is empty.
pub proof fn lemma_kept_connection_owns_read_buffer<
    const HEADER_LIMIT: usize,
    const READ_BUF_LIMIT: usize,
    const WRITE_BUF_LIMIT: usize,
>(d: Dispatcher<HEADER_LIMIT, READ_BUF_LIMIT, WRITE_BUF_LIMIT>)
    requires
        d.wf(),
        !d.ctx.close,
        !d.waiting,
    ensures
        d.read_buf is Some,
        d.input().len() <= READ_BUF_LIMIT,
{
}

} // verus!
