//! Per-connection state that the head decoder and the head encoder share.

use vstd::prelude::*;
use http::HeaderMap;
use http::HeaderValue;
use crate::head::{drained, header_map_new};

verus! {

/// State of one connection: what the last decoded request asked for, the
/// cached date text, and a header map kept for reuse.
pub struct Context<const HEADER_LIMIT: usize> {
    /// The connection is to close after the current response.
    pub close: bool,
    /// The current request is a `HEAD` request.
    pub head_method: bool,
    /// The current request is a `CONNECT` request.
    pub connect_method: bool,
    /// The current request expects `100 Continue` before it sends its body.
    pub expect_continue: bool,
    /// The text of the `Date` header, as last refreshed.
    pub date: Vec<u8>,
    /// An empty header map whose storage is reused from request to request.
    pub header_cache: HeaderMap<HeaderValue>,
}

impl<const HEADER_LIMIT: usize> Context<HEADER_LIMIT> {
    /// What the current request asks for: whether the connection is to
    /// close, whether `100 Continue` is expected, and whether the method
    /// is `HEAD` or `CONNECT`.
    pub open spec fn flags(self) -> (bool, bool, bool, bool) {
        (self.close, self.expect_continue, self.head_method, self.connect_method)
    }

    /// The state of a fresh connection, with the given date text.
    pub fn new(date: Vec<u8>) -> (ctx: Self)
        ensures
            !ctx.close,
            !ctx.head_method,
            !ctx.connect_method,
            !ctx.expect_continue,
            ctx.date == date,
            drained(ctx.header_cache).len() == 0,
    {
        Context {
            close: false,
            head_method: false,
            connect_method: false,
            expect_continue: false,
            date,
            header_cache: header_map_new(),
        }
    }

    /// Forgets what the last request asked for. Whether the connection is
    /// to close is kept.
    pub fn reset(&mut self)
        ensures
            !final(self).head_method,
            !final(self).connect_method,
            !final(self).expect_continue,
            final(self).close == old(self).close,
            final(self).date == old(self).date,
            final(self).header_cache == old(self).header_cache,
    {
        self.head_method = false;
        self.connect_method = false;
        self.expect_continue = false;
    }

    /// Replaces the cached date text.
    pub fn set_date(&mut self, date: Vec<u8>)
        ensures
            final(self).date == date,
            final(self).close == old(self).close,
            final(self).head_method == old(self).head_method,
            final(self).connect_method == old(self).connect_method,
            final(self).expect_continue == old(self).expect_continue,
            final(self).header_cache == old(self).header_cache,
    {
        self.date = date;
    }

    /// Marks the connection to close after the current response.
    pub fn set_close(&mut self)
        ensures
            final(self).close,
            final(self).head_method == old(self).head_method,
            final(self).connect_method == old(self).connect_method,
            final(self).expect_continue == old(self).expect_continue,
            final(self).date == old(self).date,
            final(self).header_cache == old(self).header_cache,
    {
        self.close = true;
    }

    /// Withdraws the mark to close the connection.
    pub fn remove_close(&mut self)
        ensures
            !final(self).close,
            final(self).head_method == old(self).head_method,
            final(self).connect_method == old(self).connect_method,
            final(self).expect_continue == old(self).expect_continue,
            final(self).date == old(self).date,
            final(self).header_cache == old(self).header_cache,
    {
        self.close = false;
    }

    /// Whether the connection is to close after the current response.
    pub fn is_connection_closed(&self) -> (r: bool)
        ensures
            r == self.close,
    {
        self.close
    }

    /// Whether the current request is a `HEAD` request.
    pub fn is_head_method(&self) -> (r: bool)
        ensures
            r == self.head_method,
    {
        self.head_method
    }

    /// Whether the current request is a `CONNECT` request.
    pub fn is_connect_method(&self) -> (r: bool)
        ensures
            r == self.connect_method,
    {
        self.connect_method
    }

    /// Whether the current request expects `100 Continue`.
    pub fn is_expect_header(&self) -> (r: bool)
        ensures
            r == self.expect_continue,
    {
        self.expect_continue
    }

    /// Takes the cached header map, leaving a fresh one in its place.
    pub fn take_headers(&mut self) -> (headers: HeaderMap<HeaderValue>)
        ensures
            headers == old(self).header_cache,
            drained(final(self).header_cache).len() == 0,
            final(self).close == old(self).close,
            final(self).head_method == old(self).head_method,
            final(self).connect_method == old(self).connect_method,
            final(self).expect_continue == old(self).expect_continue,
            final(self).date == old(self).date,
    {
        let mut taken = header_map_new();
        core::mem::swap(&mut self.header_cache, &mut taken);
        taken
    }

    /// Puts a header map into the cache for reuse.
    pub fn replace_headers(&mut self, headers: HeaderMap<HeaderValue>)
        ensures
            final(self).header_cache == headers,
            final(self).close == old(self).close,
            final(self).head_method == old(self).head_method,
            final(self).connect_method == old(self).connect_method,
            final(self).expect_continue == old(self).expect_continue,
            final(self).date == old(self).date,
    {
        self.header_cache = headers;
    }
}

} // verus!
