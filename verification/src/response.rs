//! The fixed response written back on every answered connection.
//!
//! Whatever the request looked like, a connection that is answered at all is
//! answered with one literal HTTP/1.1 200 message: CORS headers that allow
//! any origin, a cache-disabling directive, and the four-byte JSON body
//! `true`. The `Content-Length` header names exactly the length of that body.

use vstd::prelude::*;
use vstd::string::StringExecFns;

verus! {

pub open spec fn status_line() -> Seq<char> {
    "HTTP/1.1 200 OK\r\n"@
}

pub open spec fn content_length_header() -> Seq<char> {
    "Content-Length: 4\r\n"@
}

pub open spec fn allow_headers_header() -> Seq<char> {
    "Access-Control-Allow-Headers: *\r\n"@
}

pub open spec fn allow_methods_header() -> Seq<char> {
    "Access-Control-Allow-Methods: POST, GET, OPTIONS\r\n"@
}

pub open spec fn allow_credentials_header() -> Seq<char> {
    "Access-Control-Allow-Credentials: true\r\n"@
}

pub open spec fn allow_origin_header() -> Seq<char> {
    "Access-Control-Allow-Origin: *\r\n"@
}

pub open spec fn content_type_header() -> Seq<char> {
    "Content-Type: application/json; charset=utf-8\r\n"@
}

pub open spec fn cache_control_header() -> Seq<char> {
    "cache-control: max-age=0, private, must-revalidate\r\n"@
}

/// The body of the fixed response: the literal JSON text `true`.
pub open spec fn response_body_text() -> Seq<char> {
    "true"@
}

/// The head of the fixed response: status line, headers, blank line.
pub open spec fn response_head_text() -> Seq<char> {
    status_line() + content_length_header() + allow_headers_header()
        + allow_methods_header() + allow_credentials_header() + allow_origin_header()
        + content_type_header() + cache_control_header() + "\r\n"@
}

/// The whole fixed response, as the character sequence put on the wire.
pub open spec fn response_text() -> Seq<char> {
    response_head_text() + response_body_text()
}

/// `needle` occurs contiguously somewhere inside `hay`.
pub open spec fn contains_seq(hay: Seq<char>, needle: Seq<char>) -> bool {
    exists|i: int|
        0 <= i && i + needle.len() <= hay.len() && #[trigger] hay.subrange(i, i + needle.len())
            == needle
}

/// Builds the fixed response message.
pub fn response_message() -> (r: String)
    ensures
        r@ == response_text(),
{
    let mut r = String::new();
    r.append("HTTP/1.1 200 OK\r\n");
    r.append("Content-Length: 4\r\n");
    r.append("Access-Control-Allow-Headers: *\r\n");
    r.append("Access-Control-Allow-Methods: POST, GET, OPTIONS\r\n");
    r.append("Access-Control-Allow-Credentials: true\r\n");
    r.append("Access-Control-Allow-Origin: *\r\n");
    r.append("Content-Type: application/json; charset=utf-8\r\n");
    r.append("cache-control: max-age=0, private, must-revalidate\r\n");
    r.append("\r\n");
    r.append("true");
    proof {
        assert(r@ =~= response_text());
    }
    r
}

/// Every response carries the permissive CORS origin header and declares a
/// content length of exactly four bytes, the length of its body `true`.
pub proof fn lemma_response_cors_and_length()
    ensures
        contains_seq(response_text(), "Access-Control-Allow-Origin: *"@),
        contains_seq(response_text(), "Content-Length: 4"@),
        response_body_text().len() == 4,
{
    reveal_strlit("true");
    reveal_strlit("Access-Control-Allow-Origin: *");
    reveal_strlit("Access-Control-Allow-Origin: *\r\n");
    reveal_strlit("Content-Length: 4");
    reveal_strlit("Content-Length: 4\r\n");
    let origin_at: int = status_line().len() as int + content_length_header().len()
        + allow_headers_header().len() + allow_methods_header().len()
        + allow_credentials_header().len();
    let origin = "Access-Control-Allow-Origin: *"@;
    assert(response_text().subrange(origin_at, origin_at + origin.len()) =~= origin);
    let length_at: int = status_line().len() as int;
    let length_header = "Content-Length: 4"@;
    assert(response_text().subrange(length_at, length_at + length_header.len())
        =~= length_header);
}

} // verus!
