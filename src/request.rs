//! Header scanning and body extraction for requests that carry a body.
//!
//! The header window is decoded as UTF-8, invalid sequences replaced. A
//! header line is found by taking each line in Unicode lower case and
//! searching it for the key anywhere.
use vstd::prelude::*;
use crate::text::{
    chars_of, contains, contains_chars, find_bytes, find_from, lemma_find_from, occurs_at,
    parse_usize, parse_usize_range, trim, trim_range,
};
use vstd::string::StrSliceExecFns;
use vstd::utf8::encode_utf8;

verus! {

/// The text that `String::from_utf8_lossy` makes of a byte sequence.
pub uninterp spec fn lossy_of(b: Seq<u8>) -> Seq<char>;

/// Relies on `String::from_utf8_lossy`: decodes UTF-8, putting U+FFFD in
/// place of each invalid sequence; the text depends on the bytes alone.
#[verifier::external_body]
pub(crate) fn decode_lossy(b: &[u8]) -> (r: String)
    ensures
        r@ == lossy_of(b@),
{
    String::from_utf8_lossy(b).into_owned()
}

/// The Unicode lower case that `str::to_lowercase` gives of a text.
pub uninterp spec fn lower_of(s: Seq<char>) -> Seq<char>;

/// Relies on `str::to_lowercase`: the Unicode lower case of a text, which
/// depends on its characters alone.
#[verifier::external_body]
pub(crate) fn lowercase(s: &str) -> (r: String)
    ensures
        r@ == lower_of(s@),
{
    s.to_lowercase()
}

/// The pieces of `s` between line feeds, in order. A text without a line
/// feed is one piece; the empty text is one empty piece.
pub open spec fn pieces(s: Seq<char>) -> Seq<Seq<char>>
    decreases s.len(),
{
    if s.len() == 0 {
        seq![Seq::empty()]
    } else {
        let p = pieces(s.drop_last());
        if s.last() == '\n' {
            p.push(Seq::empty())
        } else {
            p.update(p.len() - 1, p.last().push(s.last()))
        }
    }
}

proof fn lemma_pieces_len(s: Seq<char>)
    ensures
        pieces(s).len() >= 1,
    decreases s.len(),
{
    if s.len() > 0 {
        lemma_pieces_len(s.drop_last());
    }
}

/// Extending a text leaves all but the last of its pieces as they were.
proof fn lemma_pieces_prefix(s: Seq<char>, k: int, m: int)
    requires
        0 <= k <= m <= s.len(),
    ensures
        pieces(s.subrange(0, k)).len() <= pieces(s.subrange(0, m)).len(),
        forall|j: int|
            0 <= j < pieces(s.subrange(0, k)).len() - 1 ==> pieces(s.subrange(0, m))[j]
                == pieces(s.subrange(0, k))[j],
    decreases m - k,
{
    if k < m {
        lemma_pieces_prefix(s, k, m - 1);
        assert(s.subrange(0, m).drop_last() =~= s.subrange(0, m - 1));
        lemma_pieces_len(s.subrange(0, m - 1));
    }
}

/// Piece `i` is the first of `ps` whose lower case contains `key`.
pub open spec fn first_with(ps: Seq<Seq<char>>, key: Seq<char>, i: int) -> bool {
    &&& 0 <= i < ps.len()
    &&& contains(lower_of(ps[i]), key)
    &&& forall|j: int| 0 <= j < i ==> !contains(lower_of(#[trigger] ps[j]), key)
}

/// The lower case of the first line of `text` whose lower case contains
/// `key`, if there is one.
pub open spec fn header_line(text: Seq<char>, key: Seq<char>) -> Option<Seq<char>> {
    if exists|i: int| first_with(pieces(text), key, i) {
        Some(lower_of(pieces(text)[choose|i: int| first_with(pieces(text), key, i)]))
    } else {
        None
    }
}

proof fn lemma_first_with_unique(ps: Seq<Seq<char>>, key: Seq<char>, i: int, j: int)
    requires
        first_with(ps, key, i),
        first_with(ps, key, j),
    ensures
        i == j,
{
}

/// The first line of `resource` whose lower case contains `to_find`, in
/// lower case; empty when there is none.
pub fn simple_find(resource: &str, to_find: &str) -> (r: String)
    ensures
        r@ == match header_line(resource@, to_find@) {
            Some(line) => line,
            None => Seq::empty(),
        },
{
    let text = chars_of(resource);
    let key = chars_of(to_find);
    let n: usize = text.len();
    let mut start: usize = 0;
    let mut k: usize = 0;
    let ghost mut done: Seq<Seq<char>> = Seq::empty();
    assert(text@.subrange(0, 0) =~= Seq::<char>::empty());
    assert(done.push(text@.subrange(0, 0)) =~= seq![Seq::<char>::empty()]);
    loop
        invariant
            n == text@.len(),
            text@ == resource@,
            key@ == to_find@,
            start <= k <= n,
            pieces(text@.subrange(0, k as int)) == done.push(text@.subrange(start as int, k as int)),
            forall|j: int| 0 <= j < done.len() ==> !contains(lower_of(#[trigger] done[j]), key@),
        decreases n - k,
    {
        if k == n || text[k] == '\n' {
            let ghost cur = text@.subrange(start as int, k as int);
            let low = lowercase(resource.substring_char(start, k));
            let low_chars = chars_of(low.as_str());
            let hit = contains_chars(low_chars.as_slice(), key.as_slice());
            proof {
                let ps = pieces(resource@);
                let idx = done.len() as int;
                if k == n {
                    assert(text@.subrange(0, n as int) =~= text@);
                } else {
                    assert(text@.subrange(0, k + 1).drop_last() =~= text@.subrange(0, k as int));
                    lemma_pieces_prefix(text@, k + 1, n as int);
                    assert(text@.subrange(0, n as int) =~= text@);
                }
                assert(ps[idx] == cur);
                assert forall|j: int| 0 <= j < idx implies ps[j] == done[j] by {}
                if hit {
                    assert(first_with(ps, key@, idx));
                    let c = choose|i: int| first_with(ps, key@, i);
                    lemma_first_with_unique(ps, key@, c, idx);
                } else if k == n {
                    assert forall|i: int| !first_with(ps, key@, i) by {
                        if first_with(ps, key@, i) {
                            if i < idx {
                                assert(!contains(lower_of(done[i]), key@));
                            }
                        }
                    }
                }
            }
            if hit {
                return low;
            }
            if k == n {
                return String::new();
            }
            proof {
                done = done.push(cur);
                assert(text@.subrange(k + 1, k + 1) =~= Seq::<char>::empty());
            }
            start = k + 1;
        } else {
            proof {
                assert(text@.subrange(0, k + 1).drop_last() =~= text@.subrange(0, k as int));
                lemma_pieces_len(text@.subrange(0, k as int));
                assert(text@.subrange(start as int, k + 1) =~= text@.subrange(
                    start as int,
                    k as int,
                ).push(text@[k as int]));
            }
        }
        k += 1;
    }
}

/// The key of the header that declares a body's length.
pub open spec fn content_length_key() -> Seq<char> {
    "content-length:"@
}

/// The key of the header that names the accepted response types.
pub open spec fn accept_key() -> Seq<char> {
    "accept:"@
}

/// The key of the header that names the body's type.
pub open spec fn content_type_key() -> Seq<char> {
    "content-type:"@
}

/// The length that a header line declares: what follows its first `:`, with
/// surrounding whitespace removed, read as an unsigned decimal number; 0
/// when there is no `:` or the number cannot be read.
pub open spec fn length_value(line: Seq<u8>) -> usize {
    match find_from(line, seq![58u8], 0) {
        Some(c) => match parse_usize(trim(line.subrange(c + 1, line.len() as int))) {
            Some(n) => n,
            None => 0,
        },
        None => 0,
    }
}

/// The body length that a request text declares: the value of its first
/// `Content-Length` line, read from that line's UTF-8 bytes; 0 without one.
pub open spec fn text_declared_length(text: Seq<char>) -> usize {
    match header_line(text, content_length_key()) {
        Some(line) => length_value(encode_utf8(line)),
        None => 0,
    }
}

/// The body length that a header window declares, once decoded.
pub open spec fn declared_length(window: Seq<u8>) -> usize {
    text_declared_length(lossy_of(window))
}

/// Reads the declared length from a header line.
pub fn line_length(line: &[u8]) -> (r: usize)
    ensures
        r == length_value(line@),
{
    let colon: [u8; 1] = [58];
    assert(colon@ =~= seq![58u8]);
    let n: usize = line.len();
    match find_bytes(line, colon.as_slice(), 0) {
        Some(c) => {
            proof {
                lemma_find_from(line@, seq![58u8], 0);
                assert(occurs_at(line@, seq![58u8], c as int));
            }
            let (a, b) = trim_range(line, c + 1, n);
            match parse_usize_range(line, a, b) {
                Some(v) => v,
                None => 0,
            }
        },
        None => 0,
    }
}

/// The body length that a decoded request text declares.
pub fn declared_length_of(text: &str) -> (r: usize)
    ensures
        r == text_declared_length(text@),
{
    let line = simple_find(text, "content-length:");
    let bytes = line.as_str().as_bytes();
    let r = line_length(bytes);
    proof {
        if header_line(text@, content_length_key()) is None {
            assert(line@ =~= Seq::<char>::empty());
            assert(encode_utf8(line@) =~= Seq::<u8>::empty());
            assert(find_from(bytes@, seq![58u8], 0) is None);
        }
    }
    r
}

/// The body length that a header window declares: the value of its first
/// `Content-Length` line, 0 when there is none or it cannot be read.
pub fn content_length(window: &[u8]) -> (r: usize)
    ensures
        r == declared_length(window@),
{
    let text = decode_lossy(window);
    declared_length_of(text.as_str())
}

/// The separator between the header block and the body.
pub open spec fn blank_line() -> Seq<u8> {
    seq![13u8, 10u8, 13u8, 10u8]
}

/// The body of a request buffer: the piece after the first blank line up to
/// the next blank line or the end; empty without a blank line.
pub open spec fn body_of(buffer: Seq<u8>) -> Seq<u8> {
    match find_from(buffer, blank_line(), 0) {
        None => Seq::empty(),
        Some(i) => {
            let end = match find_from(buffer, blank_line(), i + 4) {
                Some(j) => j,
                None => buffer.len() as int,
            };
            buffer.subrange(i + 4, end)
        },
    }
}

/// Extracts the body of a request buffer.
pub fn extract_body(buffer: &[u8]) -> (r: Vec<u8>)
    ensures
        r@ == body_of(buffer@),
{
    let sep: [u8; 4] = [13, 10, 13, 10];
    assert(sep@ =~= blank_line());
    let n: usize = buffer.len();
    match find_bytes(buffer, sep.as_slice(), 0) {
        None => Vec::new(),
        Some(i) => {
            proof {
                lemma_find_from(buffer@, blank_line(), 0);
                assert(occurs_at(buffer@, blank_line(), i as int));
            }
            let end: usize = match find_bytes(buffer, sep.as_slice(), i + 4) {
                Some(j) => {
                    proof {
                        lemma_find_from(buffer@, blank_line(), i + 4);
                    }
                    j
                },
                None => n,
            };
            let mut body: Vec<u8> = Vec::new();
            body.extend_from_slice(&buffer[i + 4..end]);
            assert(body@ =~= buffer@.subrange(i + 4, end as int));
            body
        },
    }
}

} // verus!

verus! {

/// When the first `Content-Length` line of a request text holds, after its
/// first `:` and apart from surrounding whitespace, the decimal digits of
/// `n`, the declared length is `n`: that many further bytes are read.
pub proof fn lemma_declared_length_read(text: Seq<char>, line: Seq<char>, colon: int, n: usize)
    requires
        header_line(text, content_length_key()) == Some(line),
        find_from(encode_utf8(line), seq![58u8], 0) == Some(colon),
        trim(encode_utf8(line).subrange(colon + 1, encode_utf8(line).len() as int))
            == crate::text::decimal(n as nat),
    ensures
        text_declared_length(text) == n,
{
    crate::text::lemma_decimal_parses(n as nat);
}

/// A request text with no `Content-Length` line declares no body: no
/// further bytes are read.
pub proof fn lemma_no_length_reads_nothing(text: Seq<char>)
    requires
        header_line(text, content_length_key()) is None,
    ensures
        text_declared_length(text) == 0,
{
}

} // verus!
