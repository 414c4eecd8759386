//! Startup configuration of the listener.
//!
//! A caller may pin the listener to an explicit ordered list of candidate
//! ports, and may override the informational page that a host application
//! can show once the browser has returned. Both are optional: without a
//! port list the operating system picks any free loopback port, and without
//! an override the built-in page is used.
//!
//! The informational page is deliberately distinct from the machine
//! response of the wire protocol (see the response module): every answered
//! connection receives the fixed JSON `true` message, while the page
//! computed by [`effective_response`] is surfaced to the embedding host,
//! which decides whether to show it to the user.

use vstd::prelude::*;

verus! {

/// The optional server configuration.
pub struct OauthConfig {
    /// Hard-coded candidate ports the server should try to bind, in order.
    /// `None` asks the system for any free port.
    pub ports: Option<Vec<u16>>,
    /// Optional static informational page for the host application.
    /// `None` falls back to a host-supplied default, then to the built-in
    /// page.
    pub response: Option<String>,
}

impl Default for OauthConfig {
    /// The default configuration: no pinned ports, no page override.
    fn default() -> (c: Self)
        ensures
            c.ports is None,
            c.response is None,
    {
        OauthConfig { ports: None, response: None }
    }
}

/// The built-in informational page.
pub open spec fn default_response_text() -> Seq<char> {
    "<html><body>Please return to the app.</body></html>"@
}

/// Builds the built-in informational page.
pub fn default_response() -> (r: String)
    ensures
        r@ == default_response_text(),
{
    "<html><body>Please return to the app.</body></html>".to_owned()
}

/// Picks the informational page: the configured override if present, else
/// the host application's default if present, else the built-in page.
pub fn effective_response(preferred: Option<String>, host_default: Option<String>) -> (r: String)
    ensures
        preferred matches Some(p) ==> r@ == p@,
        preferred is None ==> (host_default matches Some(h) ==> r@ == h@),
        preferred is None && host_default is None ==> r@ == default_response_text(),
{
    match preferred {
        Some(p) => p,
        None => match host_default {
            Some(h) => h,
            None => default_response(),
        },
    }
}

} // verus!
