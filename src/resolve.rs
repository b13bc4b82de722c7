//! Resource resolution: maps a request target to a path under the content
//! root, refusing targets that could step outside it.
use vstd::prelude::*;
use crate::text::{occurs_at, ascii, ascii_bytes, contains, contains_bytes, find_bytes, find_from, lemma_find_from};

verus! {

/// The directory that request targets are resolved against.
pub open spec fn content_root() -> Seq<u8> {
    ascii("./server/server_content"@)
}

/// The document served for `/`.
pub open spec fn index_path() -> Seq<u8> {
    ascii("./server/server_content/index.html"@)
}

/// The document served when a resource cannot be found.
pub open spec fn not_found_path() -> Seq<u8> {
    ascii("./server/server_content/404.html"@)
}

/// The path of the document served for `/`.
pub fn index_path_bytes() -> (r: Vec<u8>)
    ensures
        r@ == index_path(),
{
    proof {
        reveal_strlit("./server/server_content/index.html");
    }
    ascii_bytes("./server/server_content/index.html")
}

/// The path of the document served when a resource cannot be found.
pub fn not_found_path_bytes() -> (r: Vec<u8>)
    ensures
        r@ == not_found_path(),
{
    proof {
        reveal_strlit("./server/server_content/404.html");
    }
    ascii_bytes("./server/server_content/404.html")
}

/// The content root directory.
pub fn content_root_bytes() -> (r: Vec<u8>)
    ensures
        r@ == content_root(),
{
    proof {
        reveal_strlit("./server/server_content");
    }
    ascii_bytes("./server/server_content")
}

/// The path chosen for a request, and whether it names the requested
/// resource (`false`: the not-found document stands in for it).
#[derive(Debug, PartialEq, Eq)]
pub struct ResolvedResource {
    pub path: Vec<u8>,
    pub found: bool,
}

/// A target holds `..` or `~` somewhere, as a plain substring.
pub open spec fn is_traversal(target: Seq<u8>) -> bool {
    contains(target, seq![46u8, 46u8]) || contains(target, seq![126u8])
}

/// Where a request target leads: `/` to the index document, a target with
/// `..` or `~` to the not-found document, anything else to the content root
/// followed by the target, unchanged.
pub open spec fn resolve_target(target: Seq<u8>) -> (Seq<u8>, bool) {
    if target == seq![47u8] {
        (index_path(), true)
    } else if is_traversal(target) {
        (not_found_path(), false)
    } else {
        (content_root() + target, true)
    }
}

/// The request target of a header window: the second of its space-separated
/// pieces. The window starts right after the method, so the first piece is
/// what remains of the method name.
pub open spec fn request_target(window: Seq<u8>) -> Option<Seq<u8>> {
    match find_from(window, seq![32u8], 0) {
        None => None,
        Some(i) => {
            let end = match find_from(window, seq![32u8], i + 1) {
                Some(j) => j,
                None => window.len() as int,
            };
            Some(window.subrange(i + 1, end))
        },
    }
}

/// Where the request of a header window leads; a window with no target leads
/// to the not-found document.
pub open spec fn resolve_window(window: Seq<u8>) -> (Seq<u8>, bool) {
    match request_target(window) {
        Some(t) => resolve_target(t),
        None => (not_found_path(), false),
    }
}

/// Resolves a request target.
pub fn resolve(target: &[u8]) -> (r: ResolvedResource)
    ensures
        (r.path@, r.found) == resolve_target(target@),
{
    if target.len() == 1 && target[0] == 47 {
        assert(target@ =~= seq![47u8]);
        return ResolvedResource { path: index_path_bytes(), found: true };
    }
    proof {
        if target@ == seq![47u8] {
            assert(target@[0] == 47);
        }
    }
    let dots: [u8; 2] = [46, 46];
    let tilde: [u8; 1] = [126];
    assert(dots@ =~= seq![46u8, 46u8]);
    assert(tilde@ =~= seq![126u8]);
    if contains_bytes(target, dots.as_slice()) || contains_bytes(target, tilde.as_slice()) {
        return ResolvedResource { path: not_found_path_bytes(), found: false };
    }
    let mut path = content_root_bytes();
    path.extend_from_slice(target);
    ResolvedResource { path, found: true }
}

/// Extracts the request target from a header window.
pub fn target_of(window: &[u8]) -> (r: Option<Vec<u8>>)
    ensures
        match r {
            Some(t) => request_target(window@) == Some(t@),
            None => request_target(window@) is None,
        },
{
    let space: [u8; 1] = [32];
    assert(space@ =~= seq![32u8]);
    let n: usize = window.len();
    match find_bytes(window, space.as_slice(), 0) {
        None => None,
        Some(i) => {
            proof {
                lemma_find_from(window@, seq![32u8], 0);
                assert(occurs_at(window@, seq![32u8], i as int));
            }
            let end: usize = match find_bytes(window, space.as_slice(), i + 1) {
                Some(j) => {
                    proof {
                        lemma_find_from(window@, seq![32u8], i + 1);
                    }
                    j
                },
                None => n,
            };
            let mut t: Vec<u8> = Vec::new();
            t.extend_from_slice(&window[i + 1..end]);
            assert(t@ =~= window@.subrange(i + 1, end as int));
            Some(t)
        },
    }
}

/// Resolves the request of a header window.
pub fn resolve_request(window: &[u8]) -> (r: ResolvedResource)
    ensures
        (r.path@, r.found) == resolve_window(window@),
{
    match target_of(window) {
        Some(t) => resolve(t.as_slice()),
        None => ResolvedResource { path: not_found_path_bytes(), found: false },
    }
}

} // verus!
