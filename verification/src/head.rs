//! The plain values of a message head: version, status, declared body size
//! and header entries, and the header map they are carried in.

use vstd::prelude::*;
use http::HeaderMap;
use http::HeaderValue;

verus! {

/// Protocol version of a message.
#[derive(Clone, Copy, Debug, PartialEq, Eq, Structural)]
pub enum Version {
    Http09,
    Http10,
    Http11,
    Http2,
    Http3,
}

/// What a response body declares about its size.
#[derive(Clone, Copy, Debug, PartialEq, Eq, Structural)]
pub enum BodySize {
    /// There is no body.
    NoBody,
    /// The body has exactly this many bytes.
    Sized(usize),
    /// The size is not known in advance.
    Stream,
}

/// The size hint by which a body tells that it is no body at all.
pub open spec fn none_body_hint() -> (usize, Option<usize>) {
    (usize::MAX, Some(0usize))
}

/// What a size hint declares: the hint of no body stands for itself, an
/// upper bound is the size of the body, and without upper bound the size
/// is not known.
pub open spec fn size_of_hint(hint: (usize, Option<usize>)) -> BodySize {
    if hint == none_body_hint() {
        BodySize::NoBody
    } else {
        match hint.1 {
            Some(size) => BodySize::Sized(size),
            None => BodySize::Stream,
        }
    }
}

impl BodySize {
    /// The size hint by which a body tells that it is no body at all.
    pub fn none_hint() -> (hint: (usize, Option<usize>))
        ensures
            hint == none_body_hint(),
    {
        (usize::MAX, Some(0))
    }

    /// What the size hint of a body stream declares; see [`size_of_hint`].
    pub fn from_hint(lower: usize, upper: Option<usize>) -> (size: BodySize)
        ensures
            size == size_of_hint((lower, upper)),
    {
        match upper {
            Some(size) => {
                if lower == usize::MAX && size == 0 {
                    BodySize::NoBody
                } else {
                    BodySize::Sized(size)
                }
            },
            None => BodySize::Stream,
        }
    }
}

/// A response status code, always within 100 to 999.
#[derive(Clone, Copy, Debug, PartialEq, Eq)]
pub struct StatusCode {
    code: u16,
}

impl StatusCode {
    #[verifier::type_invariant]
    spec fn in_range(self) -> bool {
        100 <= self.code <= 999
    }

    /// The numeric code.
    pub closed spec fn value(self) -> u16 {
        self.code
    }

    /// The status with the given code, if the code lies within 100 to 999.
    pub fn from_u16(code: u16) -> (r: Option<StatusCode>)
        ensures
            r.is_some() <==> 100 <= code <= 999,
            r.is_some() ==> r.unwrap().value() == code,
    {
        if 100 <= code && code <= 999 {
            Some(StatusCode { code })
        } else {
            None
        }
    }

    /// The numeric code.
    pub fn as_u16(&self) -> (code: u16)
        ensures
            code == self.value(),
            100 <= code <= 999,
    {
        proof {
            use_type_invariant(self);
        }
        self.code
    }

    /// `200 OK`.
    pub fn ok() -> (s: StatusCode)
        ensures
            s.value() == 200,
    {
        StatusCode { code: 200 }
    }

    /// `400 Bad Request`.
    pub fn bad_request() -> (s: StatusCode)
        ensures
            s.value() == 400,
    {
        StatusCode { code: 400 }
    }

    /// `408 Request Timeout`.
    pub fn request_timeout() -> (s: StatusCode)
        ensures
            s.value() == 408,
    {
        StatusCode { code: 408 }
    }

    /// `431 Request Header Fields Too Large`.
    pub fn request_header_fields_too_large() -> (s: StatusCode)
        ensures
            s.value() == 431,
    {
        StatusCode { code: 431 }
    }

    /// Whether the code lies within 100 to 199.
    pub fn is_informational(&self) -> (r: bool)
        ensures
            r == (100 <= self.value() < 200),
    {
        let c = self.as_u16();
        c < 200
    }

    /// Whether the code lies within 200 to 299.
    pub fn is_success(&self) -> (r: bool)
        ensures
            r == (200 <= self.value() < 300),
    {
        let c = self.as_u16();
        200 <= c && c < 300
    }
}

/// The reason phrase that goes with a status code, where it has one.
pub uninterp spec fn canonical_reason(code: u16) -> Option<Seq<char>>;

/// `http::StatusCode::canonical_reason`, on the status that
/// `http::StatusCode::from_u16` makes of `code`: the reason phrase of the
/// code, if it has one. Every phrase is ASCII text of at most 31 bytes.
#[verifier::external_body]
pub(crate) fn reason_phrase(code: u16) -> (r: Option<&'static str>)
    requires
        100 <= code <= 999,
    ensures
        r matches Some(s) ==> canonical_reason(code) == Some(s@) && s.is_ascii() && s@.len() <= 31,
        r is None ==> canonical_reason(code) is None,
{
    match http::StatusCode::from_u16(code) {
        Ok(status) => status.canonical_reason(),
        Err(_) => None,
    }
}

/// `http::HeaderMap`, of which nothing is known but what the functions
/// below state.
#[verifier::external_type_specification]
#[verifier::external_body]
#[verifier::reject_recursive_types(T)]
pub struct ExHeaderMap<T>(HeaderMap<T>);

/// `http::HeaderValue`, the kind of value that the header maps of this
/// crate hold.
#[verifier::external_type_specification]
#[verifier::external_body]
pub struct ExHeaderValue(HeaderValue);

/// One entry of a header map as it is handed out: the name in lower case,
/// or `None` where the name is that of the entry before, and the value.
pub struct HeaderEntry {
    pub name: Option<Vec<u8>>,
    pub value: Vec<u8>,
}

impl View for HeaderEntry {
    type V = (Option<Seq<u8>>, Seq<u8>);

    open spec fn view(&self) -> (Option<Seq<u8>>, Seq<u8>) {
        (
            match self.name {
                Some(n) => Some(n@),
                None => None,
            },
            self.value@,
        )
    }
}

/// The views of a list of entries.
pub open spec fn entry_views(entries: Seq<HeaderEntry>) -> Seq<(Option<Seq<u8>>, Seq<u8>)> {
    Seq::new(entries.len(), |i: int| entries[i]@)
}

/// The entries of a header map in the order in which it hands them out:
/// each with its name in lower case, or with `None` where the name is that
/// of the entry before, and its value.
pub uninterp spec fn drained(headers: HeaderMap<HeaderValue>) -> Seq<(Option<Seq<u8>>, Seq<u8>)>;

/// `http::HeaderMap::new`: a map without entries.
#[verifier::external_body]
pub(crate) fn header_map_new() -> (headers: HeaderMap<HeaderValue>)
    ensures
        drained(headers) == Seq::<(Option<Seq<u8>>, Seq<u8>)>::empty(),
{
    HeaderMap::new()
}

/// `http::HeaderMap::drain`: hands out every entry and leaves the map
/// without entries.
#[verifier::external_body]
pub(crate) fn drain_headers(headers: &mut HeaderMap<HeaderValue>) -> (entries: Vec<HeaderEntry>)
    ensures
        entry_views(entries@) == drained(*old(headers)),
        drained(*final(headers)) == Seq::<(Option<Seq<u8>>, Seq<u8>)>::empty(),
{
    let mut entries = Vec::new();
    for (name, value) in headers.drain() {
        entries.push(
            HeaderEntry {
                name: name.map(|n| n.as_str().as_bytes().to_vec()),
                value: value.as_bytes().to_vec(),
            },
        );
    }
    entries
}


/// The views of a list of byte strings.
pub open spec fn value_views(values: Seq<Vec<u8>>) -> Seq<Seq<u8>> {
    Seq::new(values.len(), |i: int| values[i]@)
}

/// The values that a header map holds under a name, in the order in which
/// they were put in.
pub uninterp spec fn header_values(headers: HeaderMap<HeaderValue>, name: Seq<char>) -> Seq<
    Seq<u8>,
>;

/// `http::HeaderMap::get_all`: every value held under `name`, in the order
/// in which they were put in; none where the map does not hold the name.
#[verifier::external_body]
pub(crate) fn get_all_values(headers: &HeaderMap<HeaderValue>, name: &str) -> (values: Vec<
    Vec<u8>,
>)
    ensures
        value_views(values@) == header_values(*headers, name@),
{
    let mut values = Vec::new();
    for value in headers.get_all(name).iter() {
        values.push(value.as_bytes().to_vec());
    }
    values
}

} // verus!
