//! Response framing: a status line, one `Content-Length` header, a blank
//! line, then the body bytes, with nothing else.
use vstd::prelude::*;
use crate::request::blank_line;
use crate::status::{ResCode, Response};
use crate::text::{ascii, ascii_bytes, decimal, lemma_decimal_parses, parse_unsigned, push_decimal};

verus! {

/// What precedes the status code.
pub open spec fn version_prefix() -> Seq<u8> {
    ascii("HTTP/1.1 "@)
}

/// What stands between the status code and the length value.
pub open spec fn length_header_prefix() -> Seq<u8> {
    ascii("\r\nContent-Length: "@)
}

/// The bytes sent for a response with the given status and body.
pub open spec fn response_bytes(status: ResCode, body: Seq<u8>) -> Seq<u8> {
    version_prefix() + decimal(status.number()) + length_header_prefix() + decimal(body.len())
        + blank_line() + body
}

/// Frames a response for the wire.
pub fn build_response(response: &Response) -> (r: Vec<u8>)
    ensures
        r@ == response_bytes(response.status, response.body@),
{
    proof {
        reveal_strlit("HTTP/1.1 ");
        reveal_strlit("\r\nContent-Length: ");
    }
    let mut out = ascii_bytes("HTTP/1.1 ");
    push_decimal(&mut out, response.status.code() as usize);
    let header = ascii_bytes("\r\nContent-Length: ");
    out.extend_from_slice(header.as_slice());
    push_decimal(&mut out, response.body.len());
    let sep: [u8; 4] = [13, 10, 13, 10];
    assert(sep@ =~= blank_line());
    out.extend_from_slice(sep.as_slice());
    out.extend_from_slice(response.body.as_slice());
    assert(out@ =~= response_bytes(response.status, response.body@));
    out
}

/// In a framed response the `Content-Length` value reads back as the body's
/// length; the status line and that one header are followed directly by the
/// blank line and then exactly the body.
pub proof fn lemma_length_header_matches_body(status: ResCode, body: Seq<u8>)
    ensures
        ({
            let r = response_bytes(status, body);
            let head = version_prefix() + decimal(status.number()) + length_header_prefix();
            let value_end = r.len() - body.len() - 4;
            &&& head.len() <= value_end
            &&& r.subrange(0, head.len() as int) == head
            &&& parse_unsigned(r.subrange(head.len() as int, value_end)) == Some(body.len())
            &&& r.subrange(value_end, value_end + 4) == blank_line()
            &&& r.subrange(r.len() - body.len(), r.len() as int) == body
        }),
{
    let r = response_bytes(status, body);
    let head = version_prefix() + decimal(status.number()) + length_header_prefix();
    let value_end = r.len() - body.len() - 4;
    lemma_decimal_parses(body.len());
    assert(r =~= head + decimal(body.len()) + blank_line() + body);
    assert(r.subrange(0, head.len() as int) =~= head);
    assert(r.subrange(head.len() as int, value_end) =~= decimal(body.len()));
    assert(r.subrange(value_end, value_end + 4) =~= blank_line());
    assert(r.subrange(r.len() - body.len(), r.len() as int) =~= body);
}

} // verus!
