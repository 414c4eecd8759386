//! Classification of one accepted connection.
//!
//! The bytes of the connection's first read are classified into exactly one
//! of: the out-of-band cancellation magic, the sentinel exit path, a
//! submission with a positive declared `Content-Length`, some other
//! well-formed request, or malformed bytes. A submission names how many of
//! its body bytes were already read and how many one further read must
//! still deliver; everything else needs no body. Both termination signals
//! stop the accept loop; the sentinel exit path is the protocol's own
//! channel, and the raw magic sequence is recognized explicitly as well so
//! that the cancellation operation works without forming an HTTP request.

use vstd::prelude::*;
use crate::http::Header;
use crate::http::ParseOutcome;
use crate::http::copy_range;
use crate::http::header_views;
use crate::http::parse_request;
use crate::http::spec_parse;

verus! {

/// The sentinel exit path, `/exit`.
pub open spec fn exit_path() -> Seq<u8> {
    seq!['/' as u8, 'e' as u8, 'x' as u8, 'i' as u8, 't' as u8]
}

/// The submission path, `/submit`.
pub open spec fn submit_path() -> Seq<u8> {
    seq!['/' as u8, 's' as u8, 'u' as u8, 'b' as u8, 'm' as u8, 'i' as u8, 't' as u8]
}

/// The fixed four-byte magic sequence of the cancellation channel.
pub open spec fn exit_magic_seq() -> Seq<u8> {
    seq![1u8, 3u8, 3u8, 7u8]
}

/// The header name that declares the body length, compared case-sensitively
/// as received.
pub open spec fn content_length_name() -> Seq<u8> {
    seq![
        'C' as u8,
        'o' as u8,
        'n' as u8,
        't' as u8,
        'e' as u8,
        'n' as u8,
        't' as u8,
        '-' as u8,
        'L' as u8,
        'e' as u8,
        'n' as u8,
        'g' as u8,
        't' as u8,
        'h' as u8,
    ]
}

/// The numeric value of a sequence of decimal digit bytes.
pub open spec fn dec_value(s: Seq<u8>) -> int
    decreases s.len(),
{
    if s.len() == 0 {
        0
    } else {
        dec_value(s.drop_last()) * 10 + (s.last() - 48)
    }
}

/// A non-empty sequence of decimal digit bytes.
pub open spec fn is_dec_digits(s: Seq<u8>) -> bool {
    s.len() > 0 && forall|i: int| 0 <= i < s.len() ==> 48 <= #[trigger] s[i] && s[i] <= 57
}

/// What a declared `Content-Length` value counts for: its numeric value
/// when it is one to nine decimal digits, and zero otherwise. A missing,
/// non-numeric or over-long declaration thus degrades to "no body" instead
/// of failing the connection.
pub open spec fn declared_value(v: Seq<u8>) -> int {
    if is_dec_digits(v) && v.len() <= 9 {
        dec_value(v)
    } else {
        0
    }
}

/// The value of the last `Content-Length` header among the first `k`, if
/// any.
pub open spec fn last_content_length_from(hs: Seq<(Seq<u8>, Seq<u8>)>, k: int) -> Option<Seq<u8>>
    decreases k,
{
    if k <= 0 || k > hs.len() {
        None
    } else if hs[k - 1].0 == content_length_name() {
        Some(hs[k - 1].1)
    } else {
        last_content_length_from(hs, k - 1)
    }
}

/// The declared body length of a header block: the value of its last
/// `Content-Length` header, read by the [`declared_value`] policy.
pub open spec fn declared_length(hs: Seq<(Seq<u8>, Seq<u8>)>) -> int {
    match last_content_length_from(hs, hs.len() as int) {
        None => 0,
        Some(v) => declared_value(v),
    }
}

/// Powers of ten, for bounding parsed declarations.
pub open spec fn pow10(k: int) -> int
    decreases k,
{
    if k <= 0 {
        1
    } else {
        10 * pow10(k - 1)
    }
}

/// A submission's framing: which body bytes the first read already holds,
/// and how many one further read must deliver.
pub struct SubmissionPlan {
    /// Body bytes already present, capped at the declared length.
    pub body_prefix: Vec<u8>,
    /// The shortfall: how many more bytes belong to the body.
    pub missing: usize,
}

/// What one connection's first read means.
pub enum Classification {
    /// The raw cancellation magic: stop the loop, answer nothing.
    TerminateMagic,
    /// The sentinel exit path: stop the loop, answer nothing.
    TerminatePath,
    /// The submission path with a positive declared length: answer, and
    /// capture the body.
    Submission(SubmissionPlan),
    /// Any other well-formed request: answer, capture nothing.
    Unrecognized,
    /// Bytes without the shape of a request head: answer, capture nothing.
    Malformed,
}

/// How the bytes `b` of a first read are classified.
pub open spec fn classified(b: Seq<u8>, c: Classification) -> bool {
    match c {
        Classification::TerminateMagic => b == exit_magic_seq(),
        Classification::TerminatePath => b != exit_magic_seq() && (spec_parse(b) matches Some(t)
            && t.0 == exit_path()),
        Classification::Submission(plan) => b != exit_magic_seq() && (spec_parse(
            b,
        ) matches Some(t) && t.0 == submit_path() && declared_length(t.1) > 0 && {
            let n = declared_length(t.1);
            let avail = b.len() - t.2;
            let take = if n <= avail {
                n
            } else {
                avail
            };
            &&& plan.body_prefix@ == b.subrange(t.2, t.2 + take)
            &&& plan.missing == n - take
        }),
        Classification::Unrecognized => b != exit_magic_seq() && (spec_parse(b) matches Some(t)
            && t.0 != exit_path() && (t.0 != submit_path() || declared_length(t.1) == 0)),
        Classification::Malformed => b != exit_magic_seq() && spec_parse(b) is None,
    }
}

/// Whether `p` is the sentinel exit path.
fn is_exit_path(p: &Vec<u8>) -> (r: bool)
    ensures
        r == (p@ == exit_path()),
{
    if p.len() != 5 {
        return false;
    }
    let r = p[0] == 47 && p[1] == 101 && p[2] == 120 && p[3] == 105 && p[4] == 116;
    proof {
        if r {
            assert(p@ =~= exit_path());
        }
    }
    r
}

/// Whether `p` is the submission path.
fn is_submit_path(p: &Vec<u8>) -> (r: bool)
    ensures
        r == (p@ == submit_path()),
{
    if p.len() != 7 {
        return false;
    }
    let r = p[0] == 47 && p[1] == 115 && p[2] == 117 && p[3] == 98 && p[4] == 109 && p[5] == 105
        && p[6] == 116;
    proof {
        if r {
            assert(p@ =~= submit_path());
        }
    }
    r
}

/// Whether the read was exactly the cancellation magic.
fn is_exit_magic(b: &Vec<u8>) -> (r: bool)
    ensures
        r == (b@ == exit_magic_seq()),
{
    if b.len() != 4 {
        return false;
    }
    let r = b[0] == 1 && b[1] == 3 && b[2] == 3 && b[3] == 7;
    proof {
        if r {
            assert(b@ =~= exit_magic_seq());
        }
    }
    r
}

/// Whether `name` is exactly `Content-Length`.
fn is_content_length_name(name: &Vec<u8>) -> (r: bool)
    ensures
        r == (name@ == content_length_name()),
{
    if name.len() != 14 {
        return false;
    }
    let r = name[0] == 67 && name[1] == 111 && name[2] == 110 && name[3] == 116 && name[4] == 101
        && name[5] == 110 && name[6] == 116 && name[7] == 45 && name[8] == 76 && name[9] == 101
        && name[10] == 110 && name[11] == 103 && name[12] == 116 && name[13] == 104;
    proof {
        if r {
            assert(name@ =~= content_length_name());
        }
    }
    r
}

/// Reads a declared length value by the [`declared_value`] policy.
fn parse_declared(v: &Vec<u8>) -> (n: usize)
    ensures
        n as int == declared_value(v@),
{
    if v.len() == 0 || v.len() > 9 {
        return 0;
    }
    let mut acc: usize = 0;
    let mut i: usize = 0;
    while i < v.len()
        invariant
            i <= v.len() && v.len() <= 9,
            forall|k: int| 0 <= k < i ==> 48 <= #[trigger] v@[k] && v@[k] <= 57,
            acc as int == dec_value(v@.subrange(0, i as int)),
            acc < pow10(i as int),
        decreases v.len() - i,
    {
        let d = v[i];
        if d < 48 || d > 57 {
            return 0;
        }
        proof {
            reveal_with_fuel(pow10, 10);
            assert(v@.subrange(0, i + 1).drop_last() =~= v@.subrange(0, i as int));
        }
        acc = acc * 10 + ((d - 48) as usize);
        i = i + 1;
    }
    proof {
        assert(v@.subrange(0, v@.len() as int) =~= v@);
    }
    acc
}

/// Finds the last `Content-Length` header among the first `k`.
fn last_content_length_index(headers: &Vec<Header>, k: usize) -> (r: Option<usize>)
    requires
        k <= headers.len(),
    ensures
        match r {
            None => last_content_length_from(header_views(headers@), k as int) is None,
            Some(i) => i < headers.len() && last_content_length_from(
                header_views(headers@),
                k as int,
            ) == Some(headers[i as int].value@),
        },
    decreases k,
{
    if k == 0 {
        None
    } else if is_content_length_name(&headers[k - 1].name) {
        Some(k - 1)
    } else {
        last_content_length_index(headers, k - 1)
    }
}

/// The declared body length of a parsed header block.
fn declared_length_of(headers: &Vec<Header>) -> (n: usize)
    ensures
        n as int == declared_length(header_views(headers@)),
{
    match last_content_length_index(headers, headers.len()) {
        None => 0,
        Some(i) => parse_declared(&headers[i].value),
    }
}

/// Classifies the bytes of one connection's first read.
pub fn classify(buf: &Vec<u8>) -> (c: Classification)
    ensures
        classified(buf@, c),
{
    if is_exit_magic(buf) {
        return Classification::TerminateMagic;
    }
    match parse_request(buf) {
        ParseOutcome::Malformed => Classification::Malformed,
        ParseOutcome::Valid(pr) => {
            if is_exit_path(&pr.path) {
                Classification::TerminatePath
            } else {
                let n = declared_length_of(&pr.headers);
                if n > 0 && is_submit_path(&pr.path) {
                    let avail = buf.len() - pr.body_start;
                    let take = if n <= avail {
                        n
                    } else {
                        avail
                    };
                    let body_prefix = copy_range(buf, pr.body_start, pr.body_start + take);
                    Classification::Submission(SubmissionPlan { body_prefix, missing: n - take })
                } else {
                    Classification::Unrecognized
                }
            }
        },
    }
}

/// Completes a submission body: the prefix already read, then the bytes of
/// the one further read. An empty result counts as nothing captured, so
/// "no `Content-Length`" and "`Content-Length: 0`" end the same way.
pub fn assemble_body(prefix: Vec<u8>, extra: &Vec<u8>) -> (r: Option<Vec<u8>>)
    ensures
        match r {
            None => prefix@.len() + extra@.len() == 0,
            Some(c) => c@ == prefix@ + extra@ && c@.len() > 0,
        },
{
    let ghost p = prefix@;
    let mut c = prefix;
    let mut i: usize = 0;
    while i < extra.len()
        invariant
            i <= extra.len(),
            c@ == p + extra@.subrange(0, i as int),
        decreases extra.len() - i,
    {
        c.push(extra[i]);
        proof {
            assert(p + extra@.subrange(0, i + 1) =~= (p + extra@.subrange(0, i as int)).push(
                extra@[i as int],
            ));
        }
        i = i + 1;
    }
    proof {
        assert(extra@.subrange(0, extra@.len() as int) =~= extra@);
    }
    if c.len() == 0 {
        None
    } else {
        Some(c)
    }
}

/// How one handled connection ends.
pub enum ConnectionOutcome {
    /// An intentional termination was received: the loop must stop.
    Terminated,
    /// A submission body was captured for the caller.
    Captured(Vec<u8>),
    /// The connection was answered (or abandoned) with nothing captured.
    NoCapture,
    /// The connection faulted partway and was abandoned; the loop goes on.
    Fault,
}

/// How a classification and the bytes of the one further read conclude:
/// the connection's outcome, and whether the fixed response is owed.
pub open spec fn concluded(
    c: Classification,
    extra: Option<Vec<u8>>,
    out: ConnectionOutcome,
    respond: bool,
) -> bool {
    match c {
        Classification::TerminateMagic => out is Terminated && !respond,
        Classification::TerminatePath => out is Terminated && !respond,
        Classification::Submission(plan) => respond && match out {
            ConnectionOutcome::Captured(body) => extra matches Some(x) && body@
                == plan.body_prefix@ + x@ && body@.len() > 0,
            ConnectionOutcome::NoCapture => extra matches Some(x) && plan.body_prefix@.len()
                + x@.len() == 0,
            _ => false,
        },
        Classification::Unrecognized => out is NoCapture && respond,
        Classification::Malformed => out is NoCapture && respond,
    }
}

/// Concludes a classified connection once the one further read, if any was
/// owed, has delivered exactly the shortfall. Returns the outcome and
/// whether the fixed response is owed on this connection.
pub fn conclude(c: Classification, extra: Option<Vec<u8>>) -> (r: (ConnectionOutcome, bool))
    requires
        c matches Classification::Submission(plan) ==> (extra matches Some(x) && x@.len()
            == plan.missing),
    ensures
        concluded(c, extra, r.0, r.1),
{
    match c {
        Classification::TerminateMagic => (ConnectionOutcome::Terminated, false),
        Classification::TerminatePath => (ConnectionOutcome::Terminated, false),
        Classification::Submission(plan) => {
            let x = match extra {
                Some(x) => x,
                None => {
                    proof {
                        assert(false);
                    }
                    Vec::new()
                },
            };
            match assemble_body(plan.body_prefix, &x) {
                Some(body) => (ConnectionOutcome::Captured(body), true),
                None => (ConnectionOutcome::NoCapture, true),
            }
        },
        Classification::Unrecognized => (ConnectionOutcome::NoCapture, true),
        Classification::Malformed => (ConnectionOutcome::NoCapture, true),
    }
}

} // verus!
