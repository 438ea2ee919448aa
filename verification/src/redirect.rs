//! What a client does with a redirect response.

use vstd::prelude::*;
use crate::error::InvalidUri;
use crate::text::{ascii, bytes_eq, copy_range, str_bytes};
use crate::uri::{opt_view, UriParts, UriText};

verus! {

/// How a response status redirects.
#[derive(Clone, Copy, Debug, PartialEq, Eq, Structural)]
pub enum Redirect {
    /// `301`, `302` and `303`: the request is repeated as `GET`, without
    /// its body.
    Rewrite,
    /// `307` and `308`: the request is repeated as it is.
    Preserve,
    /// Every other status: the response is the answer.
    Final,
}

/// How a response of the given status redirects.
pub open spec fn redirect_of(status: u16) -> Redirect {
    if status == 301 || status == 302 || status == 303 {
        Redirect::Rewrite
    } else if status == 307 || status == 308 {
        Redirect::Preserve
    } else {
        Redirect::Final
    }
}

/// Tells how a response of the given status redirects.
pub fn redirect_kind(status: u16) -> (r: Redirect)
    ensures
        r == redirect_of(status),
{
    if status == 301 || status == 302 || status == 303 {
        Redirect::Rewrite
    } else if status == 307 || status == 308 {
        Redirect::Preserve
    } else {
        Redirect::Final
    }
}

/// The method of the request that follows a redirect: a rewritten request
/// becomes `GET`, unless it is `HEAD`; a preserved one keeps its method.
pub open spec fn method_after(kind: Redirect, method: Seq<u8>) -> Seq<u8> {
    if kind == Redirect::Rewrite && method != ascii("HEAD"@) {
        ascii("GET"@)
    } else {
        method
    }
}

/// Computes the method of the request that follows a redirect.
pub fn redirect_method(kind: Redirect, method: &[u8]) -> (r: Vec<u8>)
    ensures
        r@ == method_after(kind, method@),
{
    proof {
        reveal_strlit("HEAD");
        reveal_strlit("GET");
    }
    let rewrite = match kind {
        Redirect::Rewrite => true,
        _ => false,
    };
    if rewrite && !bytes_eq(method, str_bytes("HEAD")) {
        let get = str_bytes("GET");
        let r = copy_range(get, 0, get.len());
        assert(r@ =~= get@);
        r
    } else {
        let r = copy_range(method, 0, method.len());
        assert(r@ =~= method@);
        r
    }
}

/// A header that describes the body of a request. A rewritten request has
/// no body, and drops these headers.
pub open spec fn is_body_header(name: Seq<u8>) -> bool {
    name == ascii("transfer-encoding"@) || name == ascii("content-encoding"@) || name == ascii(
        "content-type"@,
    ) || name == ascii("content-length"@)
}

/// Tells whether a header, named in lower case, describes the body of a
/// request.
pub fn describes_body(name: &[u8]) -> (r: bool)
    ensures
        r == is_body_header(name@),
{
    proof {
        reveal_strlit("transfer-encoding");
        reveal_strlit("content-encoding");
        reveal_strlit("content-type");
        reveal_strlit("content-length");
    }
    bytes_eq(name, str_bytes("transfer-encoding")) || bytes_eq(name, str_bytes("content-encoding"))
        || bytes_eq(name, str_bytes("content-type")) || bytes_eq(
        name,
        str_bytes("content-length"),
    )
}

/// Where a redirected request goes.
pub struct Target {
    pub scheme: Option<Vec<u8>>,
    pub authority: Option<Vec<u8>>,
    pub path_and_query: Vec<u8>,
}

/// Where a redirected request goes, as byte sequences.
pub ghost struct TargetText {
    pub scheme: Option<Seq<u8>>,
    pub authority: Option<Seq<u8>>,
    pub path_and_query: Seq<u8>,
}

impl View for Target {
    type V = TargetText;

    open spec fn view(&self) -> TargetText {
        TargetText {
            scheme: opt_view(self.scheme),
            authority: opt_view(self.authority),
            path_and_query: self.path_and_query@,
        }
    }
}

/// Where a request to `base` goes that is redirected to `location`:
/// scheme and authority are those of the location where it has them, else
/// those of the request; path and query are those of the location, which
/// must have them.
pub open spec fn redirected(base: UriText, location: UriText) -> Result<TargetText, InvalidUri> {
    match location.path_and_query {
        None => Err(InvalidUri::MissingPathQuery),
        Some(path_and_query) => Ok(
            TargetText {
                scheme: if location.scheme.is_some() {
                    location.scheme
                } else {
                    base.scheme
                },
                authority: if location.authority.is_some() {
                    location.authority
                } else {
                    base.authority
                },
                path_and_query,
            },
        ),
    }
}

/// Computes where a redirected request goes; see [`redirected`].
pub fn merge_location(base: UriParts, location: UriParts) -> (r: Result<Target, InvalidUri>)
    ensures
        match r {
            Ok(target) => redirected(base@, location@) == Ok::<TargetText, InvalidUri>(target@),
            Err(e) => redirected(base@, location@) == Err::<TargetText, InvalidUri>(e),
        },
{
    let path_and_query = match location.path_and_query {
        Some(p) => p,
        None => {
            return Err(InvalidUri::MissingPathQuery);
        },
    };
    let scheme = if location.scheme.is_some() {
        location.scheme
    } else {
        base.scheme
    };
    let authority = if location.authority.is_some() {
        location.authority
    } else {
        base.authority
    };
    Ok(Target { scheme, authority, path_and_query })
}

} // verus!
