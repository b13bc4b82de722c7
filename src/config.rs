//! Server configuration: four `key=value` lines, read in order as the bind
//! address, the port, the header window size and the page-counter switch.
use vstd::prelude::*;
use crate::text::{find_bytes, find_from, lemma_find_from, occurs_at, parse_usize, parse_usize_range};

verus! {

/// The configuration a server runs with; it does not change once read.
#[derive(Debug, PartialEq, Eq)]
pub struct ServerConfig {
    pub address: Vec<u8>,
    pub port: Vec<u8>,
    pub header_read_size: usize,
    pub page_counter_enabled: bool,
}

/// A line without its trailing carriage return, if it has one.
pub open spec fn strip_cr(line: Seq<u8>) -> Seq<u8> {
    if line.len() > 0 && line.last() == 13 {
        line.drop_last()
    } else {
        line
    }
}

/// The lines of `s` from the line that starts at `start`, with `k` the
/// position reached within it. Lines end at a line feed, which is dropped
/// with a carriage return before it; a final line feed starts no new line.
pub open spec fn lines_from(s: Seq<u8>, start: int, k: int) -> Seq<Seq<u8>>
    decreases s.len() - k,
{
    if k >= s.len() {
        if start < s.len() {
            seq![strip_cr(s.subrange(start, s.len() as int))]
        } else {
            Seq::empty()
        }
    } else if s[k] == 10 {
        seq![strip_cr(s.subrange(start, k))] + lines_from(s, k + 1, k + 1)
    } else {
        lines_from(s, start, k + 1)
    }
}

/// The lines of a text.
pub open spec fn lines_of(s: Seq<u8>) -> Seq<Seq<u8>> {
    lines_from(s, 0, 0)
}

/// The value of a `key=value` line: everything after its first `=`.
pub open spec fn config_value(line: Seq<u8>) -> Option<Seq<u8>> {
    match find_from(line, seq![61u8], 0) {
        Some(e) => Some(line.subrange(e + 1, line.len() as int)),
        None => None,
    }
}

/// The configuration that a text describes: it must have at least four
/// lines, each line must hold a `=`, and the third value must be a positive
/// decimal number. The first four values are the address, the port, the
/// header window size and the page-counter switch, which is on only for the
/// value `T`; further values are not used.
pub open spec fn config_of(text: Seq<u8>) -> Option<(Seq<u8>, Seq<u8>, usize, bool)> {
    let lines = lines_of(text);
    if lines.len() < 4 {
        None
    } else if exists|i: int| 0 <= i < lines.len() && config_value(#[trigger] lines[i]) is None {
        None
    } else {
        match parse_usize(config_value(lines[2])->0) {
            Some(n) => if n > 0 {
                Some(
                    (
                        config_value(lines[0])->0,
                        config_value(lines[1])->0,
                        n,
                        config_value(lines[3])->0 == seq![84u8],
                    ),
                )
            } else {
                None
            },
            None => None,
        }
    }
}

fn strip_cr_range(s: &[u8], lo: usize, hi: usize) -> (r: Vec<u8>)
    requires
        lo <= hi <= s@.len(),
    ensures
        r@ == strip_cr(s@.subrange(lo as int, hi as int)),
{
    let end: usize = if lo < hi && s[hi - 1] == 13 {
        hi - 1
    } else {
        hi
    };
    let mut line: Vec<u8> = Vec::new();
    line.extend_from_slice(&s[lo..end]);
    assert(line@ =~= strip_cr(s@.subrange(lo as int, hi as int)));
    line
}

/// The byte sequences held by a vector of lines.
pub open spec fn lines_view(v: Seq<Vec<u8>>) -> Seq<Seq<u8>> {
    v.map_values(|l: Vec<u8>| l@)
}

/// Splits a text into lines.
pub fn split_lines(text: &[u8]) -> (r: Vec<Vec<u8>>)
    ensures
        lines_view(r@) == lines_of(text@),
{
    let n: usize = text.len();
    let mut out: Vec<Vec<u8>> = Vec::new();
    let mut start: usize = 0;
    let mut k: usize = 0;
    while k < n
        invariant
            n == text@.len(),
            start <= k <= n,
            lines_view(out@) + lines_from(text@, start as int, k as int) == lines_of(text@),
        decreases n - k,
    {
        if text[k] == 10 {
            let line = strip_cr_range(text, start, k);
            let ghost before = lines_view(out@);
            let ghost line_bytes = line@;
            out.push(line);
            assert(lines_view(out@) =~= before.push(line_bytes));
            assert(before + lines_from(text@, start as int, k as int) =~= lines_view(out@)
                + lines_from(text@, k + 1, k + 1));
            start = k + 1;
        }
        k += 1;
    }
    if start < n {
        let line = strip_cr_range(text, start, n);
        let ghost before = lines_view(out@);
        let ghost line_bytes = line@;
        out.push(line);
        assert(lines_view(out@) =~= before.push(line_bytes));
        assert(lines_view(out@) =~= before + lines_from(text@, start as int, n as int));
    } else {
        assert(lines_view(out@) =~= lines_view(out@) + lines_from(text@, start as int, n as int));
    }
    out
}

/// The value of a `key=value` line.
pub fn line_value(line: &[u8]) -> (r: Option<Vec<u8>>)
    ensures
        match r {
            Some(v) => config_value(line@) == Some(v@),
            None => config_value(line@) is None,
        },
{
    let eq: [u8; 1] = [61];
    assert(eq@ =~= seq![61u8]);
    let n: usize = line.len();
    match find_bytes(line, eq.as_slice(), 0) {
        Some(e) => {
            proof {
                lemma_find_from(line@, seq![61u8], 0);
                assert(occurs_at(line@, seq![61u8], e as int));
            }
            let mut v: Vec<u8> = Vec::new();
            v.extend_from_slice(&line[e + 1..n]);
            assert(v@ =~= line@.subrange(e + 1, n as int));
            Some(v)
        },
        None => None,
    }
}

/// Reads a configuration from the text of its file; `None` when the text
/// does not describe one.
pub fn parse_config(text: &[u8]) -> (r: Option<ServerConfig>)
    ensures
        match r {
            Some(c) => config_of(text@) == Some(
                (c.address@, c.port@, c.header_read_size, c.page_counter_enabled),
            ),
            None => config_of(text@) is None,
        },
{
    let lines = split_lines(text);
    proof {
        assert(lines_view(lines@).len() == lines@.len());
    }
    if lines.len() < 4 {
        return None;
    }
    let mut values: Vec<Vec<u8>> = Vec::new();
    let mut i: usize = 0;
    while i < lines.len()
        invariant
            i <= lines@.len(),
            lines_view(lines@) == lines_of(text@),
            values@.len() == i,
            forall|j: int|
                0 <= j < i ==> config_value(#[trigger] lines_of(text@)[j]) == Some(values@[j]@),
        decreases lines@.len() - i,
    {
        assert(lines_view(lines@)[i as int] == lines@[i as int]@);
        match line_value(lines[i].as_slice()) {
            Some(v) => {
                values.push(v);
            },
            None => {
                return None;
            },
        }
        i += 1;
    }
    let address = values[0].clone();
    let port = values[1].clone();
    let size_text = values[2].clone();
    let counter = values[3].clone();
    let header_read_size = match parse_usize_range(size_text.as_slice(), 0, size_text.len()) {
        Some(n) => n,
        None => {
            assert(size_text@.subrange(0, size_text@.len() as int) =~= size_text@);
            return None;
        },
    };
    assert(size_text@.subrange(0, size_text@.len() as int) =~= size_text@);
    if header_read_size == 0 {
        return None;
    }
    let page_counter_enabled = counter.len() == 1 && counter[0] == 84;
    proof {
        if counter@ == seq![84u8] {
            assert(counter@[0] == 84);
        }
        if page_counter_enabled {
            assert(counter@ =~= seq![84u8]);
        }
    }
    Some(ServerConfig { address, port, header_read_size, page_counter_enabled })
}

} // verus!
