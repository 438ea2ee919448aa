//! The request body as the handler pulls it: it owns the read buffer while
//! the body is read, and gives it up when the body is complete.

use vstd::prelude::*;
use bytes::BytesMut;
use crate::buf::{contents, ReadBuf};
use crate::coding::{lemma_decode_bounds, ChunkResult, Outcome, TransferCoding};
use crate::error::ChunkError;

verus! {

/// Why a request body cannot be read further.
#[derive(Clone, Copy, Debug, PartialEq, Eq, Structural)]
pub enum BodyError {
    /// The framing is malformed.
    Chunk(ChunkError),
    /// The read buffer is full and holds no piece of the body.
    ReadBufLimit { limit: usize, length: usize },
    /// The peer closed the connection within the body.
    UnexpectedEof,
}

/// What pulling on the body gives.
pub enum Pull {
    /// `100 Continue` is to be sent before the body is pulled again.
    SendContinue,
    /// A piece of the body.
    Data(BytesMut),
    /// The body is complete.
    End,
    /// The body cannot be read further.
    Failed(BodyError),
    /// More input is to be read into the read buffer before the body is
    /// pulled again.
    Read,
}

/// What pulling on the body gives, with the bytes of a piece as a
/// sequence.
pub ghost enum Pulled {
    SendContinue,
    Data(Seq<u8>),
    End,
    Failed(BodyError),
    Read,
}

impl Pull {
    /// What the pull gave, with the bytes of a piece as a sequence.
    pub open spec fn view(self) -> Pulled {
        match self {
            Pull::SendContinue => Pulled::SendContinue,
            Pull::Data(b) => Pulled::Data(contents(b)),
            Pull::End => Pulled::End,
            Pull::Failed(e) => Pulled::Failed(e),
            Pull::Read => Pulled::Read,
        }
    }
}

/// The body of one request. It holds the read buffer of the connection
/// while the body is read.
pub struct BodyReader<const LIMIT: usize> {
    /// The framing of the body, as far as it is decoded.
    pub coding: TransferCoding,
    /// The read buffer of the connection.
    pub read_buf: ReadBuf<LIMIT>,
    /// `100 Continue` is still to be sent.
    pub expect_continue: bool,
}

impl<const LIMIT: usize> BodyReader<LIMIT> {
    /// The read buffer holds no more than its limit.
    pub open spec fn wf(self) -> bool {
        self.read_buf.wf()
    }

    /// The body of a request with the given framing, over the read buffer
    /// of the connection. `is_expect` tells that the request waits for
    /// `100 Continue`.
    pub fn new(is_expect: bool, coding: TransferCoding, read_buf: ReadBuf<LIMIT>) -> (r: Self)
        ensures
            r.coding == coding,
            r.read_buf == read_buf,
            r.expect_continue == is_expect,
    {
        BodyReader { coding, read_buf, expect_continue: is_expect }
    }

    /// What a pull gives on a body with the given framing and input, once
    /// `100 Continue` is out of the way: what the framing decodes, and
    /// where that needs more input, a read, unless the read buffer is
    /// full.
    pub open spec fn pulled(coding: TransferCoding, input: Seq<u8>) -> Pulled {
        match coding.decoding(input).outcome {
            Outcome::Chunk(piece) => Pulled::Data(piece),
            Outcome::Eof => Pulled::End,
            Outcome::Failed(e) => Pulled::Failed(BodyError::Chunk(e)),
            Outcome::InsufficientData => if coding.decoding(input).rest.len() >= LIMIT {
                Pulled::Failed(
                    BodyError::ReadBufLimit {
                        limit: LIMIT,
                        length: coding.decoding(input).rest.len() as usize,
                    },
                )
            } else {
                Pulled::Read
            },
        }
    }

    /// Pulls on the body.
    ///
    /// The first pull on a request that waits for `100 Continue` asks for
    /// it to be sent and leaves the body untouched. Every other pull
    /// decodes from the read buffer; see [`BodyReader::pulled`]. A read
    /// is asked for only while the read buffer has room.
    pub fn pull(&mut self) -> (r: Pull)
        ensures
            !final(self).expect_continue,
            old(self).wf() ==> final(self).wf(),
            r is Read ==> final(self).read_buf@.len() < LIMIT,
            old(self).expect_continue ==> {
                &&& r is SendContinue
                &&& final(self).coding == old(self).coding
                &&& final(self).read_buf == old(self).read_buf
            },
            !old(self).expect_continue ==> ({
                let step = old(self).coding.decoding(old(self).read_buf@);
                &&& r.view() == Self::pulled(old(self).coding, old(self).read_buf@)
                &&& final(self).coding == step.coding
                &&& final(self).read_buf@ == step.rest
            }),
    {
        if self.expect_continue {
            self.expect_continue = false;
            return Pull::SendContinue;
        }
        proof {
            lemma_decode_bounds(self.coding, self.read_buf@);
        }
        match self.coding.decode(&mut self.read_buf.buf) {
            ChunkResult::Data(piece) => Pull::Data(piece),
            ChunkResult::Failed(e) => Pull::Failed(BodyError::Chunk(e)),
            ChunkResult::Eof => Pull::End,
            ChunkResult::InsufficientData => {
                let length = self.read_buf.len();
                if length >= LIMIT {
                    Pull::Failed(BodyError::ReadBufLimit { limit: LIMIT, length })
                } else {
                    Pull::Read
                }
            },
        }
    }

    /// Takes in what a read from the transport gave. A read that gave
    /// nothing means that the peer closed the connection within the body.
    pub fn on_read(&mut self, data: &[u8]) -> (r: Result<(), BodyError>)
        requires
            old(self).read_buf@.len() + data@.len() <= LIMIT,
        ensures
            match r {
                Ok(()) => {
                    &&& data@.len() > 0
                    &&& final(self).read_buf@ == old(self).read_buf@ + data@
                },
                Err(e) => {
                    &&& data@.len() == 0
                    &&& e == BodyError::UnexpectedEof
                    &&& final(self).read_buf == old(self).read_buf
                },
            },
            final(self).wf(),
            final(self).coding == old(self).coding,
            final(self).expect_continue == old(self).expect_continue,
    {
        if data.len() == 0 {
            return Err(BodyError::UnexpectedEof);
        }
        self.read_buf.fill(data);
        Ok(())
    }

    /// Takes note of a read that the transport made into the read buffer
    /// itself and that gave `n` bytes. A read that gave nothing means that
    /// the peer closed the connection within the body.
    pub fn read_done(&self, n: usize) -> (r: Result<(), BodyError>)
        ensures
            r == if n == 0 {
                Err::<(), BodyError>(BodyError::UnexpectedEof)
            } else {
                Ok::<(), BodyError>(())
            },
    {
        if n == 0 {
            Err(BodyError::UnexpectedEof)
        } else {
            Ok(())
        }
    }

    /// Ends the body. The read buffer is given back where the body is
    /// complete; where it is not, the buffer is lost, and with it the
    /// connection.
    pub fn finish(self) -> (r: Option<ReadBuf<LIMIT>>)
        ensures
            r == if self.coding.done() {
                Some(self.read_buf)
            } else {
                None
            },
    {
        if self.coding.is_eof() {
            Some(self.read_buf)
        } else {
            None
        }
    }
}

} // verus!
