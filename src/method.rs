//! Method sniffing: the request method is decided by the first three bytes of
//! the connection, before any line is parsed.
use vstd::prelude::*;

verus! {

/// The request methods this server tells apart.
#[derive(Clone, Copy, Debug, PartialEq, Eq, Structural)]
pub enum HttpMethod {
    Get,
    Post,
    Put,
    Delete,
    Patch,
}

/// The method named by a three-byte prefix: `GET`, `POS`, `PUT`, `DEL` or
/// `PAT`, upper case only; anything else names none.
pub open spec fn method_of(prefix: Seq<u8>) -> Option<HttpMethod> {
    if prefix == seq![71u8, 69u8, 84u8] {
        Some(HttpMethod::Get)
    } else if prefix == seq![80u8, 79u8, 83u8] {
        Some(HttpMethod::Post)
    } else if prefix == seq![80u8, 85u8, 84u8] {
        Some(HttpMethod::Put)
    } else if prefix == seq![68u8, 69u8, 76u8] {
        Some(HttpMethod::Delete)
    } else if prefix == seq![80u8, 65u8, 84u8] {
        Some(HttpMethod::Patch)
    } else {
        None
    }
}

fn is_prefix3(prefix: &[u8], a: u8, b: u8, c: u8) -> (r: bool)
    ensures
        r == (prefix@ == seq![a, b, c]),
{
    if prefix.len() == 3 && prefix[0] == a && prefix[1] == b && prefix[2] == c {
        assert(prefix@ =~= seq![a, b, c]);
        true
    } else {
        proof {
            if prefix@ == seq![a, b, c] {
                assert(prefix@[0] == a && prefix@[1] == b && prefix@[2] == c);
            }
        }
        false
    }
}

/// The method that a three-byte prefix names, if it names one.
pub fn classify_method(prefix: &[u8]) -> (r: Option<HttpMethod>)
    ensures
        r == method_of(prefix@),
{
    if is_prefix3(prefix, 71, 69, 84) {
        Some(HttpMethod::Get)
    } else if is_prefix3(prefix, 80, 79, 83) {
        Some(HttpMethod::Post)
    } else if is_prefix3(prefix, 80, 85, 84) {
        Some(HttpMethod::Put)
    } else if is_prefix3(prefix, 68, 69, 76) {
        Some(HttpMethod::Delete)
    } else if is_prefix3(prefix, 80, 65, 84) {
        Some(HttpMethod::Patch)
    } else {
        None
    }
}

/// The sniffed method: an unrecognised prefix is taken for `GET`.
pub fn sniff_method(prefix: &[u8]) -> (r: HttpMethod)
    ensures
        r == match method_of(prefix@) {
            Some(m) => m,
            None => HttpMethod::Get,
        },
{
    match classify_method(prefix) {
        Some(m) => m,
        None => HttpMethod::Get,
    }
}

} // verus!
