//! What holds of a whole request on the wire: decoding its head and its
//! body takes exactly its bytes.

use vstd::prelude::*;
use crate::coding::{Decoding, Outcome, TransferCoding};
use crate::coding_laws::{
    concat, decode_all, encode_body, lemma_chunked_round_trip, lemma_length_decoded,
    lemma_no_body, lemma_sized_body_written,
};
use crate::decode::{decode_spec, Decoded};

verus! {

/// The framing delimits a body from `pieces`: there is no body, or
/// content-length framing of as many bytes as the pieces hold, or chunked
/// framing from its start.
pub open spec fn delimits(coding: TransferCoding, pieces: Seq<Seq<u8>>) -> bool {
    match coding {
        TransferCoding::Eof => true,
        TransferCoding::Length(n) => concat(pieces).len() == n,
        TransferCoding::Chunked(_) => coding == TransferCoding::chunked_start() && forall|i: int|
            0 <= i < pieces.len() ==> (#[trigger] pieces[i]).len() <= u64::MAX,
        _ => false,
    }
}

/// Decoding a request takes exactly the bytes of the request.
///
/// Let the input begin with a request: a head that is accepted, then the
/// body that the head announces, written in the framing that the head
/// settles, then anything. Decoding the head takes the bytes of the head.
/// Decoding the body from what is left ends with the end of the body and
/// leaves exactly what followed the request. So what the two take together
/// is the length of the request on the wire.
pub proof fn lemma_request_consumed(
    close: bool,
    wire: Seq<u8>,
    header_limit: nat,
    read_limit: nat,
    pieces: Seq<Seq<u8>>,
    rest: Seq<u8>,
)
    requires
        decode_spec(close, wire, header_limit, read_limit) matches Decoded::Ready {
            head,
            len,
            asks,
        } && 0 <= len <= wire.len() && delimits(asks.coding, pieces) && wire.skip(len)
            == encode_body(asks.coding, pieces) + rest,
    ensures
        decode_spec(close, wire, header_limit, read_limit) matches Decoded::Ready {
            head,
            len,
            asks,
        } && decode_all(asks.coding, wire.skip(len)).last == (Decoding {
            outcome: Outcome::Eof,
            coding: TransferCoding::Eof,
            rest,
        }) && len + encode_body(asks.coding, pieces).len() + rest.len() == wire.len(),
{
    match decode_spec(close, wire, header_limit, read_limit) {
        Decoded::Ready { head, len, asks } => {
            let body = encode_body(asks.coding, pieces);
            assert(wire.skip(len).len() == body.len() + rest.len());
            match asks.coding {
                TransferCoding::Eof => {
                    lemma_no_body(pieces, rest);
                    assert(body + rest =~= rest);
                },
                TransferCoding::Length(n) => {
                    lemma_sized_body_written(n, pieces);
                    lemma_length_decoded(n, concat(pieces), rest);
                },
                TransferCoding::Chunked(_) => {
                    lemma_chunked_round_trip(pieces, rest);
                },
                _ => {},
            }
        },
        _ => {},
    }
}

} // verus!
