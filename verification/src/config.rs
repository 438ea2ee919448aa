//! Configuration of the HTTP service.

use vstd::prelude::*;
use core::time::Duration;

verus! {

/// The default maximum read buffer size, 1 MiB. A request head that gets this big
/// without being complete is refused; a request body that fills the buffer
/// this far is not read further until the buffer is emptied.
pub const DEFAULT_READ_BUF_LIMIT: usize = 1048576;

/// The default maximum write buffer size, 416 KiB. A buffer that gets this
/// big is drained to the transport before more of a response body is
/// taken.
pub const DEFAULT_WRITE_BUF_LIMIT: usize = 425984;

/// The default maximum number of header fields of one request.
pub const DEFAULT_HEADER_LIMIT: usize = 64;

/// The duration of a whole number of seconds.
pub uninterp spec fn seconds(secs: u64) -> Duration;

/// `Duration::from_secs`: the duration of `secs` seconds.
#[verifier::external_body]
pub(crate) fn duration_from_secs(secs: u64) -> (d: Duration)
    ensures
        d == seconds(secs),
{
    Duration::from_secs(secs)
}

/// Settings of the service; the three limits are part of its type.
#[derive(Clone, Copy)]
pub struct HttpServiceConfig<
    const HEADER_LIMIT: usize,
    const READ_BUF_LIMIT: usize,
    const WRITE_BUF_LIMIT: usize,
> {
    pub vectored_write: bool,
    pub keep_alive_timeout: Duration,
    pub request_head_timeout: Duration,
    pub tls_accept_timeout: Duration,
    pub peek_protocol: bool,
}

impl HttpServiceConfig<DEFAULT_HEADER_LIMIT, DEFAULT_READ_BUF_LIMIT, DEFAULT_WRITE_BUF_LIMIT> {
    /// The default settings: vectored writes, five seconds to keep an idle
    /// connection and to receive a request head, three seconds for a TLS
    /// handshake, no protocol peeking.
    pub fn new() -> (config: Self)
        ensures
            config.vectored_write,
            config.keep_alive_timeout == seconds(5),
            config.request_head_timeout == seconds(5),
            config.tls_accept_timeout == seconds(3),
            !config.peek_protocol,
    {
        HttpServiceConfig {
            vectored_write: true,
            keep_alive_timeout: duration_from_secs(5),
            request_head_timeout: duration_from_secs(5),
            tls_accept_timeout: duration_from_secs(3),
            peek_protocol: false,
        }
    }
}

impl Default for HttpServiceConfig<
    DEFAULT_HEADER_LIMIT,
    DEFAULT_READ_BUF_LIMIT,
    DEFAULT_WRITE_BUF_LIMIT,
> {
    fn default() -> (config: Self)
        ensures
            config.vectored_write,
            config.keep_alive_timeout == seconds(5),
            config.request_head_timeout == seconds(5),
            config.tls_accept_timeout == seconds(3),
            !config.peek_protocol,
    {
        Self::new()
    }
}

impl<
    const HEADER_LIMIT: usize,
    const READ_BUF_LIMIT: usize,
    const WRITE_BUF_LIMIT: usize,
> HttpServiceConfig<HEADER_LIMIT, READ_BUF_LIMIT, WRITE_BUF_LIMIT> {
    /// The settings, apart from the limits in the type.
    pub open spec fn settings(self) -> (bool, Duration, Duration, Duration, bool) {
        (
            self.vectored_write,
            self.keep_alive_timeout,
            self.request_head_timeout,
            self.tls_accept_timeout,
            self.peek_protocol,
        )
    }

    /// Disables vectored writes even where the transport offers them.
    pub fn disable_vectored_write(self) -> (config: Self)
        ensures
            config == (Self { vectored_write: false, ..self }),
    {
        let mut config = self;
        config.vectored_write = false;
        config
    }

    /// Sets how long an idle connection is kept.
    pub fn keep_alive_timeout(self, dur: Duration) -> (config: Self)
        ensures
            config == (Self { keep_alive_timeout: dur, ..self }),
    {
        let mut config = self;
        config.keep_alive_timeout = dur;
        config
    }

    /// Sets how long a request head may take from its first byte on.
    pub fn request_head_timeout(self, dur: Duration) -> (config: Self)
        ensures
            config == (Self { request_head_timeout: dur, ..self }),
    {
        let mut config = self;
        config.request_head_timeout = dur;
        config
    }

    /// Sets how long a TLS handshake may take.
    pub fn tls_accept_timeout(self, dur: Duration) -> (config: Self)
        ensures
            config == (Self { tls_accept_timeout: dur, ..self }),
    {
        let mut config = self;
        config.tls_accept_timeout = dur;
        config
    }

    /// Sets the maximum read buffer size.
    pub fn max_read_buf_size<const READ_BUF_LIMIT_2: usize>(self) -> (config: HttpServiceConfig<
        HEADER_LIMIT,
        READ_BUF_LIMIT_2,
        WRITE_BUF_LIMIT,
    >)
        ensures
            config.settings() == self.settings(),
    {
        self.mutate_const_generic::<HEADER_LIMIT, READ_BUF_LIMIT_2, WRITE_BUF_LIMIT>()
    }

    /// Sets the maximum write buffer size.
    pub fn max_write_buf_size<const WRITE_BUF_LIMIT_2: usize>(self) -> (config: HttpServiceConfig<
        HEADER_LIMIT,
        READ_BUF_LIMIT,
        WRITE_BUF_LIMIT_2,
    >)
        ensures
            config.settings() == self.settings(),
    {
        self.mutate_const_generic::<HEADER_LIMIT, READ_BUF_LIMIT, WRITE_BUF_LIMIT_2>()
    }

    /// Sets the maximum number of header fields of one request.
    pub fn max_request_headers<const HEADER_LIMIT_2: usize>(self) -> (config: HttpServiceConfig<
        HEADER_LIMIT_2,
        READ_BUF_LIMIT,
        WRITE_BUF_LIMIT,
    >)
        ensures
            config.settings() == self.settings(),
    {
        self.mutate_const_generic::<HEADER_LIMIT_2, READ_BUF_LIMIT, WRITE_BUF_LIMIT>()
    }

    /// Lets the service look at the first bytes of a connection to tell its
    /// protocol, whatever was negotiated.
    pub fn peek_protocol(self) -> (config: Self)
        ensures
            config == (Self { peek_protocol: true, ..self }),
    {
        let mut config = self;
        config.peek_protocol = true;
        config
    }

    /// The same settings under other limits.
    pub fn mutate_const_generic<
        const HEADER_LIMIT2: usize,
        const READ_BUF_LIMIT2: usize,
        const WRITE_BUF_LIMIT2: usize,
    >(self) -> (config: HttpServiceConfig<HEADER_LIMIT2, READ_BUF_LIMIT2, WRITE_BUF_LIMIT2>)
        ensures
            config.settings() == self.settings(),
    {
        HttpServiceConfig {
            vectored_write: self.vectored_write,
            keep_alive_timeout: self.keep_alive_timeout,
            request_head_timeout: self.request_head_timeout,
            tls_accept_timeout: self.tls_accept_timeout,
            peek_protocol: self.peek_protocol,
        }
    }

    /// The maximum number of header fields of one request.
    pub fn header_limit(&self) -> (n: usize)
        ensures
            n == HEADER_LIMIT,
    {
        HEADER_LIMIT
    }

    /// The maximum read buffer size.
    pub fn read_buf_limit(&self) -> (n: usize)
        ensures
            n == READ_BUF_LIMIT,
    {
        READ_BUF_LIMIT
    }

    /// The maximum write buffer size.
    pub fn write_buf_limit(&self) -> (n: usize)
        ensures
            n == WRITE_BUF_LIMIT,
    {
        WRITE_BUF_LIMIT
    }
}

} // verus!
