//! Tolerant reader of one HTTP request head from a byte buffer.
//!
//! The listener serves exactly one narrow transaction, so this is not a
//! general HTTP parser: it extracts a request path and the header block
//! well enough to classify the connection. The head is read line by line;
//! lines end with CRLF and an empty line ends the head, the body beginning
//! right after it. The request path is the text between the first and the
//! second space of the first line; each further line must hold a colon,
//! splitting it into a header name and a value (the value stripped of
//! leading and trailing spaces). Bytes that do not have this shape do not
//! fail the connection: parsing degrades to an explicit
//! [`ParseOutcome::Malformed`] marker, which callers answer like any other
//! non-submission request.

use vstd::prelude::*;

verus! {

/// Position of the first CRLF pair at or after `i`, if any.
pub open spec fn find_crlf(b: Seq<u8>, i: int) -> Option<int>
    decreases b.len() - i,
{
    if i < 0 || i + 2 > b.len() {
        None
    } else if b[i] == 13 && b[i + 1] == 10 {
        Some(i)
    } else {
        find_crlf(b, i + 1)
    }
}

/// Position of the first occurrence of `x` at or after `i`, if any.
pub open spec fn find_byte(b: Seq<u8>, x: u8, i: int) -> Option<int>
    decreases b.len() - i,
{
    if i < 0 || i >= b.len() {
        None
    } else if b[i] == x {
        Some(i)
    } else {
        find_byte(b, x, i + 1)
    }
}

/// Splits the head of `b`, starting at `i`, into its CRLF-ended lines.
/// Returns the lines before the first empty line, and the position right
/// after that empty line, where the body begins. `None` when no empty line
/// ends the head within `b`.
pub open spec fn split_head(b: Seq<u8>, i: int) -> Option<(Seq<Seq<u8>>, int)>
    decreases b.len() - i,
{
    match find_crlf(b, i) {
        None => None,
        Some(j) => if j < i || j + 2 > b.len() {
            None
        } else if j == i {
            Some((Seq::empty(), i + 2))
        } else {
            match split_head(b, j + 2) {
                None => None,
                Some((rest, e)) => Some((seq![b.subrange(i, j)].add(rest), e)),
            }
        },
    }
}

/// The request path of a request line: the text between the first and the
/// second space. `None` when the line does not hold two spaces.
pub open spec fn parse_path(line: Seq<u8>) -> Option<Seq<u8>> {
    match find_byte(line, 32, 0) {
        None => None,
        Some(s1) => match find_byte(line, 32, s1 + 1) {
            None => None,
            Some(s2) => Some(line.subrange(s1 + 1, s2)),
        },
    }
}

/// First position at or after `i` (and before `j`) that does not hold a
/// space.
pub open spec fn skip_spaces_left(b: Seq<u8>, i: int, j: int) -> int
    decreases j - i,
{
    if 0 <= i && i < j && i < b.len() && b[i] == 32 {
        skip_spaces_left(b, i + 1, j)
    } else {
        i
    }
}

/// Last position at or before `j` (and after `i`) such that no space
/// precedes it within the range.
pub open spec fn skip_spaces_right(b: Seq<u8>, i: int, j: int) -> int
    decreases j - i,
{
    if i < j && 0 < j && j <= b.len() && b[j - 1] == 32 {
        skip_spaces_right(b, i, j - 1)
    } else {
        j
    }
}

/// The range `[i, j)` of `b` with leading and trailing spaces stripped.
pub open spec fn trim_range(b: Seq<u8>, i: int, j: int) -> Seq<u8> {
    let lo = skip_spaces_left(b, i, j);
    let hi = skip_spaces_right(b, lo, j);
    b.subrange(lo, hi)
}

/// Splits a header line at its first colon into a name and a trimmed
/// value. `None` when the line holds no colon.
pub open spec fn parse_header_line(line: Seq<u8>) -> Option<(Seq<u8>, Seq<u8>)> {
    match find_byte(line, 58, 0) {
        None => None,
        Some(c) => Some((line.subrange(0, c), trim_range(line, c + 1, line.len() as int))),
    }
}

/// Parses every line of `lines` from position `k` on as a header line.
/// `None` as soon as one line holds no colon.
pub open spec fn parse_header_lines(lines: Seq<Seq<u8>>, k: int) -> Option<
    Seq<(Seq<u8>, Seq<u8>)>,
>
    decreases lines.len() - k,
{
    if !(0 <= k && k <= lines.len()) {
        None
    } else if k == lines.len() {
        Some(Seq::empty())
    } else {
        match parse_header_line(lines[k]) {
            None => None,
            Some(h) => match parse_header_lines(lines, k + 1) {
                None => None,
                Some(rest) => Some(seq![h].add(rest)),
            },
        }
    }
}

/// What one request head means: the path, the headers as name/value pairs,
/// and the position where the body begins. `None` when the bytes do not
/// have that shape.
pub open spec fn spec_parse(b: Seq<u8>) -> Option<(Seq<u8>, Seq<(Seq<u8>, Seq<u8>)>, int)> {
    match split_head(b, 0) {
        None => None,
        Some((lines, e)) => if lines.len() == 0 {
            None
        } else {
            match parse_path(lines[0]) {
                None => None,
                Some(p) => match parse_header_lines(lines, 1) {
                    None => None,
                    Some(hs) => Some((p, hs, e)),
                },
            }
        },
    }
}

/// A found CRLF lies at or after the start of the search, inside `b`.
pub proof fn lemma_find_crlf_bounds(b: Seq<u8>, i: int)
    ensures
        find_crlf(b, i) matches Some(j) ==> 0 <= j && i <= j && j + 2 <= b.len(),
    decreases b.len() - i,
{
    if 0 <= i && i + 2 <= b.len() && !(b[i] == 13 && b[i + 1] == 10) {
        lemma_find_crlf_bounds(b, i + 1);
    }
}

/// The body of a split head begins inside the buffer.
pub proof fn lemma_split_head_bounds(b: Seq<u8>, i: int)
    ensures
        split_head(b, i) matches Some(t) ==> 0 <= t.1 && t.1 <= b.len(),
    decreases b.len() - i,
{
    lemma_find_crlf_bounds(b, i);
    if let Some(j) = find_crlf(b, i) {
        if i <= j && j + 2 <= b.len() && j != i {
            lemma_split_head_bounds(b, j + 2);
        }
    }
}

/// The body of a parsed request begins inside the buffer.
pub proof fn lemma_parse_bounds(b: Seq<u8>)
    ensures
        spec_parse(b) matches Some(t) ==> 0 <= t.2 && t.2 <= b.len(),
{
    lemma_split_head_bounds(b, 0);
}

/// One parsed header: a name and a value, both as raw bytes.
pub struct Header {
    pub name: Vec<u8>,
    pub value: Vec<u8>,
}

/// A parsed request head.
pub struct ParsedRequest {
    /// The request path, as raw bytes.
    pub path: Vec<u8>,
    /// The headers, in the order received.
    pub headers: Vec<Header>,
    /// Offset into the read buffer where the body begins.
    pub body_start: usize,
}

/// Result of reading one request head: either the structured request, or
/// an explicit marker that the bytes were not a well-formed head.
pub enum ParseOutcome {
    Valid(ParsedRequest),
    Malformed,
}

/// The views of a sequence of line buffers.
pub open spec fn views_of(lines: Seq<Vec<u8>>) -> Seq<Seq<u8>> {
    lines.map_values(|l: Vec<u8>| l@)
}

/// The views of a sequence of headers, as name/value pairs.
pub open spec fn header_views(hs: Seq<Header>) -> Seq<(Seq<u8>, Seq<u8>)> {
    hs.map_values(|h: Header| (h.name@, h.value@))
}

/// Copies the range `[from, to)` of `b` into a fresh buffer.
pub(crate) fn copy_range(b: &Vec<u8>, from: usize, to: usize) -> (r: Vec<u8>)
    requires
        from <= to && to <= b.len(),
    ensures
        r@ == b@.subrange(from as int, to as int),
{
    let mut r: Vec<u8> = Vec::new();
    let mut i = from;
    while i < to
        invariant
            from <= i && i <= to && to <= b.len(),
            r@ == b@.subrange(from as int, i as int),
        decreases to - i,
    {
        r.push(b[i]);
        proof {
            assert(b@.subrange(from as int, i + 1) =~= b@.subrange(from as int, i as int).push(
                b@[i as int],
            ));
        }
        i = i + 1;
    }
    r
}

/// Finds the first CRLF pair at or after `from`.
fn find_crlf_from(b: &Vec<u8>, from: usize) -> (r: Option<usize>)
    requires
        from <= b.len(),
    ensures
        match r {
            Some(j) => find_crlf(b@, from as int) == Some(j as int) && from <= j && j + 2
                <= b.len(),
            None => find_crlf(b@, from as int) is None,
        },
{
    let mut i = from;
    loop
        invariant
            from <= i && i <= b.len(),
            find_crlf(b@, from as int) == find_crlf(b@, i as int),
        decreases b.len() - i,
    {
        if b.len() < 2 || i > b.len() - 2 {
            return None;
        }
        if b[i] == 13 && b[i + 1] == 10 {
            return Some(i);
        }
        i = i + 1;
    }
}

/// Finds the first occurrence of `x` at or after `from`.
fn find_byte_from(b: &Vec<u8>, x: u8, from: usize) -> (r: Option<usize>)
    requires
        from <= b.len(),
    ensures
        match r {
            Some(j) => find_byte(b@, x, from as int) == Some(j as int) && from <= j && j
                < b.len(),
            None => find_byte(b@, x, from as int) is None,
        },
{
    let mut i = from;
    loop
        invariant
            from <= i && i <= b.len(),
            find_byte(b@, x, from as int) == find_byte(b@, x, i as int),
        decreases b.len() - i,
    {
        if i >= b.len() {
            return None;
        }
        if b[i] == x {
            return Some(i);
        }
        i = i + 1;
    }
}

/// Splits the head of `b`, starting at `from`, into its lines.
fn head_lines(b: &Vec<u8>, from: usize) -> (r: Option<(Vec<Vec<u8>>, usize)>)
    requires
        from <= b.len(),
    ensures
        match r {
            None => split_head(b@, from as int) is None,
            Some((lines, e)) => split_head(b@, from as int) == Some(
                (views_of(lines@), e as int),
            ) && e <= b.len(),
        },
    decreases b.len() - from,
{
    match find_crlf_from(b, from) {
        None => None,
        Some(j) => {
            if j == from {
                let lines: Vec<Vec<u8>> = Vec::new();
                proof {
                    assert(views_of(lines@) =~= Seq::<Seq<u8>>::empty());
                }
                Some((lines, from + 2))
            } else {
                let line = copy_range(b, from, j);
                match head_lines(b, j + 2) {
                    None => None,
                    Some((mut lines, e)) => {
                        let ghost old_lines = lines@;
                        lines.insert(0, line);
                        proof {
                            assert(views_of(lines@) =~= seq![line@].add(views_of(old_lines)));
                        }
                        Some((lines, e))
                    },
                }
            }
        },
    }
}

/// Extracts the request path from a request line.
fn path_of_line(line: &Vec<u8>) -> (r: Option<Vec<u8>>)
    ensures
        match r {
            None => parse_path(line@) is None,
            Some(p) => parse_path(line@) == Some(p@),
        },
{
    match find_byte_from(line, 32, 0) {
        None => None,
        Some(s1) => match find_byte_from(line, 32, s1 + 1) {
            None => None,
            Some(s2) => Some(copy_range(line, s1 + 1, s2)),
        },
    }
}

/// First position at or after `from` (before `to`) without a space.
fn skip_left(b: &Vec<u8>, from: usize, to: usize) -> (r: usize)
    requires
        from <= to && to <= b.len(),
    ensures
        r as int == skip_spaces_left(b@, from as int, to as int),
        from <= r && r <= to,
{
    let mut i = from;
    loop
        invariant
            from <= i && i <= to && to <= b.len(),
            skip_spaces_left(b@, from as int, to as int) == skip_spaces_left(
                b@,
                i as int,
                to as int,
            ),
        decreases to - i,
    {
        if i < to && b[i] == 32 {
            i = i + 1;
        } else {
            return i;
        }
    }
}

/// End of the range `[from, to)` with trailing spaces stripped.
fn skip_right(b: &Vec<u8>, from: usize, to: usize) -> (r: usize)
    requires
        from <= to && to <= b.len(),
    ensures
        r as int == skip_spaces_right(b@, from as int, to as int),
        from <= r && r <= to,
{
    let mut j = to;
    loop
        invariant
            from <= j && j <= to && to <= b.len(),
            skip_spaces_right(b@, from as int, to as int) == skip_spaces_right(
                b@,
                from as int,
                j as int,
            ),
        decreases j,
    {
        if j > from && b[j - 1] == 32 {
            j = j - 1;
        } else {
            return j;
        }
    }
}

/// Parses one header line into a name and a trimmed value.
fn header_of_line(line: &Vec<u8>) -> (r: Option<Header>)
    ensures
        match r {
            None => parse_header_line(line@) is None,
            Some(h) => parse_header_line(line@) == Some((h.name@, h.value@)),
        },
{
    match find_byte_from(line, 58, 0) {
        None => None,
        Some(c) => {
            let name = copy_range(line, 0, c);
            let lo = skip_left(line, c + 1, line.len());
            let hi = skip_right(line, lo, line.len());
            let value = copy_range(line, lo, hi);
            Some(Header { name, value })
        },
    }
}

/// Parses every line of `lines` from position `k` on as a header line.
fn headers_of_lines(lines: &Vec<Vec<u8>>, k: usize) -> (r: Option<Vec<Header>>)
    requires
        k <= lines.len(),
    ensures
        match r {
            None => parse_header_lines(views_of(lines@), k as int) is None,
            Some(hs) => parse_header_lines(views_of(lines@), k as int) == Some(
                header_views(hs@),
            ),
        },
    decreases lines.len() - k,
{
    if k == lines.len() {
        let hs: Vec<Header> = Vec::new();
        proof {
            assert(header_views(hs@) =~= Seq::<(Seq<u8>, Seq<u8>)>::empty());
        }
        Some(hs)
    } else {
        match header_of_line(&lines[k]) {
            None => None,
            Some(h) => match headers_of_lines(lines, k + 1) {
                None => None,
                Some(mut hs) => {
                    let ghost old_hs = hs@;
                    let ghost hv = (h.name@, h.value@);
                    hs.insert(0, h);
                    proof {
                        assert(header_views(hs@) =~= seq![hv].add(header_views(old_hs)));
                    }
                    Some(hs)
                },
            },
        }
    }
}

/// Reads one request head from the bytes of one connection's first read.
///
/// Bytes that do not form a complete, well-shaped head do not fail: the
/// result is then the explicit [`ParseOutcome::Malformed`] marker, which is
/// classified as a request with no path and no headers.
pub fn parse_request(buf: &Vec<u8>) -> (r: ParseOutcome)
    ensures
        match r {
            ParseOutcome::Malformed => spec_parse(buf@) is None,
            ParseOutcome::Valid(pr) => spec_parse(buf@) == Some(
                (pr.path@, header_views(pr.headers@), pr.body_start as int),
            ) && pr.body_start <= buf.len(),
        },
{
    match head_lines(buf, 0) {
        None => ParseOutcome::Malformed,
        Some((lines, e)) => {
            if lines.len() == 0 {
                ParseOutcome::Malformed
            } else {
                match path_of_line(&lines[0]) {
                    None => ParseOutcome::Malformed,
                    Some(path) => match headers_of_lines(&lines, 1) {
                        None => ParseOutcome::Malformed,
                        Some(headers) => ParseOutcome::Valid(
                            ParsedRequest { path, headers, body_start: e },
                        ),
                    },
                }
            }
        },
    }
}

} // verus!
