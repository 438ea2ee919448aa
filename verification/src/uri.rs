//! URIs by the kind of connection that reaches them.

use vstd::prelude::*;
use crate::error::InvalidUri;
use crate::text::{ascii, bytes_eq, str_bytes};

verus! {

/// The components of a URI.
pub struct UriParts {
    pub scheme: Option<Vec<u8>>,
    pub authority: Option<Vec<u8>>,
    pub host: Option<Vec<u8>>,
    pub path: Vec<u8>,
    pub path_and_query: Option<Vec<u8>>,
}

/// The components of a URI as byte sequences.
pub ghost struct UriText {
    pub scheme: Option<Seq<u8>>,
    pub authority: Option<Seq<u8>>,
    pub host: Option<Seq<u8>>,
    pub path: Seq<u8>,
    pub path_and_query: Option<Seq<u8>>,
}

/// The view of an optional byte string.
pub open spec fn opt_view(v: Option<Vec<u8>>) -> Option<Seq<u8>> {
    match v {
        Some(b) => Some(b@),
        None => None,
    }
}

impl View for UriParts {
    type V = UriText;

    open spec fn view(&self) -> UriText {
        UriText {
            scheme: opt_view(self.scheme),
            authority: opt_view(self.authority),
            host: opt_view(self.host),
            path: self.path@,
            path_and_query: opt_view(self.path_and_query),
        }
    }
}

/// The components of the URI that a text states, where it states one.
pub uninterp spec fn parsed_uri(text: Seq<char>) -> Option<UriText>;

/// `FromStr` of `http::Uri`, with the accessors `scheme_str`, `authority`,
/// `host`, `path` and `path_and_query` on what it returns: the components
/// of the URI that `text` states, and `None` where `text` states none.
#[verifier::external_body]
pub(crate) fn parse_uri(text: &str) -> (r: Option<UriParts>)
    ensures
        match r {
            Some(parts) => parsed_uri(text@) == Some(parts@),
            None => parsed_uri(text@).is_none(),
        },
{
    match text.parse::<http::Uri>() {
        Ok(uri) => Some(
            UriParts {
                scheme: uri.scheme_str().map(|s| s.as_bytes().to_vec()),
                authority: uri.authority().map(|a| a.as_str().as_bytes().to_vec()),
                host: uri.host().map(|h| h.as_bytes().to_vec()),
                path: uri.path().as_bytes().to_vec(),
                path_and_query: uri.path_and_query().map(|p| p.as_str().as_bytes().to_vec()),
            },
        ),
        Err(_) => None,
    }
}

/// Whether the bytes state a URI.
pub uninterp spec fn states_uri(bytes: Seq<u8>) -> bool;

/// `TryFrom<&[u8]>` of `http::Uri`: whether the bytes state a URI.
#[verifier::external_body]
pub(crate) fn uri_accepts(bytes: &[u8]) -> (r: bool)
    ensures
        r == states_uri(bytes@),
{
    http::Uri::try_from(bytes).is_ok()
}

impl UriParts {
    /// Reads a URI from text.
    pub fn parse(text: &str) -> (r: Option<UriParts>)
        ensures
            match r {
                Some(parts) => parsed_uri(text@) == Some(parts@),
                None => parsed_uri(text@).is_none(),
            },
    {
        parse_uri(text)
    }
}

/// The kind of connection that reaches a URI.
#[derive(Clone, Copy, Debug, PartialEq, Eq, Structural)]
pub enum UriKind {
    /// Plain TCP.
    Tcp,
    /// TLS over TCP.
    Tls,
    /// A Unix domain socket.
    Unix,
}

/// The kind of connection that a scheme asks for: `http` and `ws` plain
/// TCP, `https` and `wss` TLS, `unix` a Unix domain socket.
pub open spec fn scheme_kind(scheme: Seq<u8>) -> Option<UriKind> {
    if scheme == ascii("http"@) || scheme == ascii("ws"@) {
        Some(UriKind::Tcp)
    } else if scheme == ascii("https"@) || scheme == ascii("wss"@) {
        Some(UriKind::Tls)
    } else if scheme == ascii("unix"@) {
        Some(UriKind::Unix)
    } else {
        None
    }
}

/// How a URI is sorted: by the kind of connection that its scheme asks
/// for. A URI without authority, without host or without scheme, in this
/// order, and one with a scheme that is not known, is refused.
pub open spec fn sorted(uri: UriText) -> Result<UriKind, InvalidUri> {
    if uri.authority.is_none() {
        Err(InvalidUri::MissingAuthority)
    } else if uri.host.is_none() {
        Err(InvalidUri::MissingHost)
    } else {
        match uri.scheme {
            None => Err(InvalidUri::MissingScheme),
            Some(scheme) => match scheme_kind(scheme) {
                Some(kind) => Ok(kind),
                None => Err(InvalidUri::UnknownScheme),
            },
        }
    }
}

/// The kind of connection that a scheme asks for; see [`scheme_kind`].
pub fn kind_of_scheme(scheme: &[u8]) -> (r: Option<UriKind>)
    ensures
        r == scheme_kind(scheme@),
{
    proof {
        reveal_strlit("http");
        reveal_strlit("ws");
        reveal_strlit("https");
        reveal_strlit("wss");
        reveal_strlit("unix");
    }
    if bytes_eq(scheme, str_bytes("http")) || bytes_eq(scheme, str_bytes("ws")) {
        Some(UriKind::Tcp)
    } else if bytes_eq(scheme, str_bytes("https")) || bytes_eq(scheme, str_bytes("wss")) {
        Some(UriKind::Tls)
    } else if bytes_eq(scheme, str_bytes("unix")) {
        Some(UriKind::Unix)
    } else {
        None
    }
}

/// A URI, sorted by the kind of connection that reaches it.
pub enum Uri {
    Tcp(UriParts),
    Tls(UriParts),
    Unix(UriParts),
}

impl Uri {
    /// The components of the URI.
    pub open spec fn parts(self) -> UriParts {
        match self {
            Uri::Tcp(p) => p,
            Uri::Tls(p) => p,
            Uri::Unix(p) => p,
        }
    }

    /// The kind of connection that reaches the URI.
    pub open spec fn kind(self) -> UriKind {
        match self {
            Uri::Tcp(_) => UriKind::Tcp,
            Uri::Tls(_) => UriKind::Tls,
            Uri::Unix(_) => UriKind::Unix,
        }
    }

    /// Sorts a URI by the kind of connection that reaches it; see
    /// [`sorted`].
    pub fn try_parse(uri: UriParts) -> (r: Result<Uri, InvalidUri>)
        ensures
            match r {
                Ok(u) => sorted(uri@) == Ok::<UriKind, InvalidUri>(u.kind()) && u.parts() == uri,
                Err(e) => sorted(uri@) == Err::<UriKind, InvalidUri>(e),
            },
    {
        if uri.authority.is_none() {
            return Err(InvalidUri::MissingAuthority);
        }
        if uri.host.is_none() {
            return Err(InvalidUri::MissingHost);
        }
        let kind = match &uri.scheme {
            None => {
                return Err(InvalidUri::MissingScheme);
            },
            Some(scheme) => kind_of_scheme(scheme.as_slice()),
        };
        match kind {
            Some(UriKind::Tcp) => Ok(Uri::Tcp(uri)),
            Some(UriKind::Tls) => Ok(Uri::Tls(uri)),
            Some(UriKind::Unix) => Ok(Uri::Unix(uri)),
            None => Err(InvalidUri::UnknownScheme),
        }
    }

    /// Reads a URI from text and sorts it. Text that states no URI is
    /// refused without a reason.
    pub fn parse(text: &str) -> (r: Result<Uri, InvalidUri>)
        ensures
            match r {
                Ok(u) => parsed_uri(text@) == Some(u.parts()@) && sorted(u.parts()@) == Ok::<
                    UriKind,
                    InvalidUri,
                >(u.kind()),
                Err(e) => match parsed_uri(text@) {
                    Some(uri) => sorted(uri) == Err::<UriKind, InvalidUri>(e),
                    None => e == InvalidUri::ReasonUnknown,
                },
            },
    {
        match parse_uri(text) {
            Some(parts) => Self::try_parse(parts),
            None => Err(InvalidUri::ReasonUnknown),
        }
    }

    /// The components of the URI.
    pub fn get(&self) -> (p: &UriParts)
        ensures
            *p == self.parts(),
    {
        match self {
            Uri::Tcp(p) => p,
            Uri::Tls(p) => p,
            Uri::Unix(p) => p,
        }
    }

    /// The scheme of the URI.
    pub fn scheme_str(&self) -> (s: Option<&[u8]>)
        ensures
            match s {
                Some(b) => self.parts()@.scheme == Some(b@),
                None => self.parts()@.scheme.is_none(),
            },
    {
        match &self.get().scheme {
            Some(v) => Some(v.as_slice()),
            None => None,
        }
    }

    /// The host of the URI.
    pub fn host(&self) -> (s: Option<&[u8]>)
        ensures
            match s {
                Some(b) => self.parts()@.host == Some(b@),
                None => self.parts()@.host.is_none(),
            },
    {
        match &self.get().host {
            Some(v) => Some(v.as_slice()),
            None => None,
        }
    }

    /// The path of the URI.
    pub fn path(&self) -> (s: &[u8])
        ensures
            s@ == self.parts()@.path,
    {
        self.get().path.as_slice()
    }
}

} // verus!
