//! Growable byte buffers. The storage is `bytes::BytesMut`; what it holds is
//! spoken of through [`contents`], and every operation on it used by this crate
//! is declared here with the effect it has on those contents.

use vstd::prelude::*;
use bytes::BytesMut;
use bytes::Buf;
use crate::text::ascii;
use crate::text::str_bytes;

verus! {

/// `bytes::BytesMut`, of which nothing is known but what the functions
/// below state.
#[verifier::external_type_specification]
#[verifier::external_body]
pub struct ExBytesMut(BytesMut);

/// The bytes held by a buffer, first to last.
pub uninterp spec fn contents(buf: BytesMut) -> Seq<u8>;

/// `BytesMut::new`: a buffer that holds no bytes.
#[verifier::external_body]
pub(crate) fn buf_new() -> (buf: BytesMut)
    ensures
        contents(buf) == Seq::<u8>::empty(),
{
    BytesMut::new()
}

/// `BytesMut::len`: the number of bytes held.
#[verifier::external_body]
pub(crate) fn buf_len(buf: &BytesMut) -> (n: usize)
    ensures
        n == contents(*buf).len(),
{
    buf.len()
}

/// `AsRef<[u8]>` of `BytesMut`: the bytes held, as a slice.
#[verifier::external_body]
pub(crate) fn buf_as_slice(buf: &BytesMut) -> (s: &[u8])
    ensures
        s@ == contents(*buf),
{
    buf.as_ref()
}

/// `BytesMut::extend_from_slice`: the bytes of `data` are added at the end.
/// It panics when the new length overflows `usize`, which `requires` excludes.
#[verifier::external_body]
pub(crate) fn buf_extend(buf: &mut BytesMut, data: &[u8])
    requires
        contents(*old(buf)).len() + data@.len() <= usize::MAX,
    ensures
        contents(*final(buf)) == contents(*old(buf)) + data@,
{
    buf.extend_from_slice(data)
}

/// `Buf::advance` of `BytesMut`: the first `n` bytes are dropped.
/// It panics when `n` is larger than the length, which `requires` excludes.
#[verifier::external_body]
pub(crate) fn buf_advance(buf: &mut BytesMut, n: usize)
    requires
        n <= contents(*old(buf)).len(),
    ensures
        contents(*final(buf)) == contents(*old(buf)).skip(n as int),
{
    buf.advance(n)
}

/// `BytesMut::split_to`: the first `at` bytes leave the buffer and are returned.
/// It panics when `at` is larger than the length, which `requires` excludes.
#[verifier::external_body]
pub(crate) fn buf_split_to(buf: &mut BytesMut, at: usize) -> (head: BytesMut)
    requires
        at <= contents(*old(buf)).len(),
    ensures
        contents(head) == contents(*old(buf)).take(at as int),
        contents(*final(buf)) == contents(*old(buf)).skip(at as int),
{
    buf.split_to(at)
}

/// `BytesMut::truncate`: only the first `len` bytes are kept; a `len` beyond
/// the length leaves the buffer as it is.
#[verifier::external_body]
pub(crate) fn buf_truncate(buf: &mut BytesMut, len: usize)
    ensures
        contents(*final(buf)) == if len <= contents(*old(buf)).len() {
            contents(*old(buf)).take(len as int)
        } else {
            contents(*old(buf))
        },
{
    buf.truncate(len)
}

/// `BytesMut::clear`: no byte is kept.
#[verifier::external_body]
pub(crate) fn buf_clear(buf: &mut BytesMut)
    ensures
        contents(*final(buf)) == Seq::<u8>::empty(),
{
    buf.clear()
}

/// Appends the bytes of an ASCII string.
pub fn put_str(buf: &mut BytesMut, s: &str)
    requires
        s.is_ascii(),
        contents(*old(buf)).len() + s@.len() <= usize::MAX,
    ensures
        contents(*final(buf)) == contents(*old(buf)) + ascii(s@),
{
    let b = str_bytes(s);
    buf_extend(buf, b);
}

/// The read buffer of a connection: what has come from the peer and is not
/// yet decoded. It never holds more than `LIMIT` bytes.
pub struct ReadBuf<const LIMIT: usize> {
    pub buf: BytesMut,
}

impl<const LIMIT: usize> View for ReadBuf<LIMIT> {
    type V = Seq<u8>;

    open spec fn view(&self) -> Seq<u8> {
        contents(self.buf)
    }
}

impl<const LIMIT: usize> ReadBuf<LIMIT> {
    /// The buffer holds no more than its limit.
    pub open spec fn wf(self) -> bool {
        self@.len() <= LIMIT
    }

    /// An empty read buffer.
    pub fn new() -> (r: Self)
        ensures
            r@ == Seq::<u8>::empty(),
            r.wf(),
    {
        ReadBuf { buf: buf_new() }
    }

    /// The number of bytes held.
    pub fn len(&self) -> (n: usize)
        ensures
            n == self@.len(),
    {
        buf_len(&self.buf)
    }

    /// How many bytes the buffer may still take.
    pub fn room(&self) -> (n: usize)
        ensures
            n == if self@.len() <= LIMIT {
                LIMIT - self@.len()
            } else {
                0
            },
    {
        let len = buf_len(&self.buf);
        if len <= LIMIT {
            LIMIT - len
        } else {
            0
        }
    }

    /// Whether the buffer may still take bytes.
    pub fn want_write_buf(&self) -> (r: bool)
        ensures
            r == (self@.len() < LIMIT),
    {
        buf_len(&self.buf) < LIMIT
    }

    /// Takes in what a read from the transport gave.
    pub fn fill(&mut self, data: &[u8])
        requires
            old(self)@.len() + data@.len() <= LIMIT,
        ensures
            final(self)@ == old(self)@ + data@,
            final(self).wf(),
    {
        buf_extend(&mut self.buf, data);
    }

    /// The read buffer over the given storage, if that holds no more than
    /// the limit.
    pub fn restore(buf: BytesMut) -> (r: Option<Self>)
        ensures
            match r {
                Some(b) => b.buf == buf && b.wf(),
                None => contents(buf).len() > LIMIT,
            },
    {
        if buf_len(&buf) <= LIMIT {
            Some(ReadBuf { buf })
        } else {
            None
        }
    }
}

/// The write buffer of a connection: what is to go to the peer. Responses
/// are queued in it until it has reached `LIMIT` bytes; then it is drained
/// to the transport before more of a response body is taken.
pub struct WriteBuf<const LIMIT: usize> {
    pub buf: BytesMut,
}

impl<const LIMIT: usize> View for WriteBuf<LIMIT> {
    type V = Seq<u8>;

    open spec fn view(&self) -> Seq<u8> {
        contents(self.buf)
    }
}

impl<const LIMIT: usize> WriteBuf<LIMIT> {
    /// An empty write buffer.
    pub fn new() -> (r: Self)
        ensures
            r@ == Seq::<u8>::empty(),
    {
        WriteBuf { buf: buf_new() }
    }

    /// The number of bytes held.
    pub fn len(&self) -> (n: usize)
        ensures
            n == self@.len(),
    {
        buf_len(&self.buf)
    }

    /// Whether more may be queued before the buffer is drained.
    pub fn want_write_buf(&self) -> (r: bool)
        ensures
            r == (self@.len() < LIMIT),
    {
        buf_len(&self.buf) < LIMIT
    }

    /// Whether there is anything to be written to the transport.
    pub fn want_write_io(&self) -> (r: bool)
        ensures
            r == (self@.len() > 0),
    {
        buf_len(&self.buf) > 0
    }

    /// Empties the buffer after it was written to the transport.
    pub fn clear(&mut self)
        ensures
            final(self)@ == Seq::<u8>::empty(),
    {
        buf_clear(&mut self.buf);
    }
}

} // verus!
