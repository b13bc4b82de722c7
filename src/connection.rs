//! The per-connection request cycle, as decisions between reads.
//!
//! The caller reads the three method bytes and the header window and hands
//! them to [`begin_request`]. The step it gets back says what to do next:
//! load a file (then [`load_response`]), read a body of a given length (then
//! [`parse_post`] and [`acknowledge`]), or reply at once. The chosen response
//! goes through [`crate::response::build_response`] to the wire.
use vstd::prelude::*;
use crate::method::{classify_method, method_of, HttpMethod};
use crate::request::{
    accept_key, body_of, content_length, content_type_key, decode_lossy, declared_length,
    declared_length_of, extract_body, header_line, lossy_of, simple_find,
};
use crate::resolve::{
    content_root, index_path, is_traversal, not_found_path, resolve_request, resolve_target,
    resolve_window, ResolvedResource,
};
use crate::status::{ResCode, Response};
use crate::text::{ascii, ascii_bytes, occurs_at};

verus! {

/// What the connection needs next once the method and the header window
/// are known.
#[derive(Debug, PartialEq, Eq)]
pub enum Step {
    /// Read the file of this resource, then call `load_response`.
    Load(ResolvedResource),
    /// Read exactly this many further bytes, then call `parse_post`.
    ReadBody(usize),
    /// Send this response.
    Reply(Response),
}

/// The body sent with `501 Not Implemented`.
pub open spec fn not_implemented_body() -> Seq<u8> {
    ascii("<h1>501 Error</h1><p>Not Implemented</p>"@)
}

/// The response for a method this server does not implement.
pub fn not_implemented() -> (r: Response)
    ensures
        r.status == ResCode::NotImplemented,
        r.body@ == not_implemented_body(),
{
    proof {
        reveal_strlit("<h1>501 Error</h1><p>Not Implemented</p>");
    }
    Response {
        status: ResCode::NotImplemented,
        body: ascii_bytes("<h1>501 Error</h1><p>Not Implemented</p>"),
    }
}

/// Decides the first step of a request from its three method bytes and its
/// header window. `GET` resolves the target; `POST` asks for the declared
/// body length; every other prefix, recognised or not, is answered with
/// `501 Not Implemented`.
pub fn begin_request(prefix: &[u8], window: &[u8]) -> (r: Step)
    ensures
        match method_of(prefix@) {
            Some(HttpMethod::Get) => r matches Step::Load(res) && (res.path@, res.found)
                == resolve_window(window@),
            Some(HttpMethod::Post) => r == Step::ReadBody(declared_length(window@)),
            _ => r matches Step::Reply(resp) && resp.status == ResCode::NotImplemented
                && resp.body@ == not_implemented_body(),
        },
{
    match classify_method(prefix) {
        Some(HttpMethod::Get) => Step::Load(resolve_request(window)),
        Some(HttpMethod::Post) => Step::ReadBody(content_length(window)),
        _ => Step::Reply(not_implemented()),
    }
}

/// The bytes of an optional file, as a sequence.
pub open spec fn file_view(file: Option<Vec<u8>>) -> Option<Seq<u8>> {
    match file {
        Some(v) => Some(v@),
        None => None,
    }
}

/// The response to a `GET`: the file's bytes with `200` when the resource
/// was found and its file could be read; otherwise the not-found document
/// with `404`.
pub open spec fn load_outcome(found: bool, file: Option<Seq<u8>>, fallback: Seq<u8>) -> (
    ResCode,
    Seq<u8>,
) {
    if found && file is Some {
        (ResCode::Success, file->0)
    } else {
        (ResCode::NotFound, fallback)
    }
}

/// Builds the response to a `GET` from what reading the resource's file gave
/// (`None`: it could not be opened or read) and the not-found document.
pub fn load_response(resource: &ResolvedResource, file: Option<Vec<u8>>, fallback: Vec<u8>) -> (r:
    Response)
    ensures
        (r.status, r.body@) == load_outcome(resource.found, file_view(file), fallback@),
{
    match file {
        Some(bytes) => if resource.found {
            Response { status: ResCode::Success, body: bytes }
        } else {
            Response { status: ResCode::NotFound, body: fallback }
        },
        None => Response { status: ResCode::NotFound, body: fallback },
    }
}

/// What a `POST` request carries: its declared body length, the lines of
/// its `Accept` and `Content-Type` headers (decoded, in lower case, empty
/// when absent),
/// and its body.
#[derive(Debug, PartialEq, Eq)]
pub struct PostRequest {
    pub content_length: usize,
    pub accept: String,
    pub content_type: String,
    pub body: Vec<u8>,
}

/// A header line, or empty when there is none.
pub open spec fn line_or_empty(line: Option<Seq<char>>) -> Seq<char> {
    match line {
        Some(l) => l,
        None => Seq::empty(),
    }
}

/// Reads a `POST` request from its header window and the further bytes read
/// for its body.
pub fn parse_post(window: &[u8], extra: &[u8]) -> (r: PostRequest)
    ensures
        r.content_length == declared_length(window@),
        r.accept@ == line_or_empty(header_line(lossy_of(window@), accept_key())),
        r.content_type@ == line_or_empty(header_line(lossy_of(window@), content_type_key())),
        r.body@ == body_of(window@ + extra@),
{
    let text = decode_lossy(window);
    let mut buffer: Vec<u8> = Vec::new();
    buffer.extend_from_slice(window);
    buffer.extend_from_slice(extra);
    assert(buffer@ =~= window@ + extra@);
    PostRequest {
        content_length: declared_length_of(text.as_str()),
        accept: simple_find(text.as_str(), "accept:"),
        content_type: simple_find(text.as_str(), "content-type:"),
        body: extract_body(buffer.as_slice()),
    }
}

/// The response to a `POST`: `200` with an empty acknowledgement, whatever
/// the body and its content type.
pub fn acknowledge(request: &PostRequest) -> (r: Response)
    ensures
        r.status == ResCode::Success,
        r.body@ == Seq::<u8>::empty(),
{
    Response { status: ResCode::Success, body: Vec::new() }
}

/// A target that holds neither `..` nor `~` is found: `/` names the index
/// document and any other target the content root followed by the target.
/// When its file is read, the response is `200` with exactly those bytes.
pub proof fn lemma_plain_target_served(target: Seq<u8>, file: Seq<u8>, fallback: Seq<u8>)
    requires
        !is_traversal(target),
    ensures
        resolve_target(target).1,
        resolve_target(target).0 == if target == seq![47u8] {
            index_path()
        } else {
            content_root() + target
        },
        load_outcome(resolve_target(target).1, Some(file), fallback) == (ResCode::Success, file),
{
}

/// A target that holds `..` or `~` anywhere leads to the not-found document,
/// and the response is `404` with that document, whatever else is on disk.
pub proof fn lemma_traversal_refused(target: Seq<u8>, file: Option<Seq<u8>>, fallback: Seq<u8>)
    requires
        is_traversal(target),
    ensures
        resolve_target(target) == (not_found_path(), false),
        load_outcome(resolve_target(target).1, file, fallback) == (ResCode::NotFound, fallback),
{
    if target == seq![47u8] {
        assert forall|k: int| !occurs_at(target, seq![46u8, 46u8], k) by {
            if occurs_at(target, seq![46u8, 46u8], k) {
                assert(target.subrange(k, k + 2).len() == 2);
            }
        }
        assert forall|k: int| !occurs_at(target, seq![126u8], k) by {
            if occurs_at(target, seq![126u8], k) {
                assert(target.subrange(k, k + 1)[0] == target[k]);
            }
        }
    }
}

/// Only the exact target `/` names the index document; every other target
/// without `..` or `~` (one with a query string, say) is taken as a path
/// under the content root, unchanged.
pub proof fn lemma_index_exact_match(target: Seq<u8>)
    ensures
        target == seq![47u8] ==> resolve_target(target) == (index_path(), true),
        target != seq![47u8] && !is_traversal(target) ==> resolve_target(target) == (
            content_root() + target,
            true,
        ),
{
}

} // verus!
