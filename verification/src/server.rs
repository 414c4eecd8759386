//! Decisions of the listener itself: which port to bind, what the accept
//! loop does after each connection, and the out-of-band cancellation
//! protocol.
//!
//! The accept loop is strictly sequential: one connection is read,
//! classified, possibly completed and answered before the next is
//! accepted. The loop stops only through its two intentional channels, a
//! request to the sentinel exit path or the raw cancellation magic; every
//! fault is confined to its own connection.

use vstd::prelude::*;
use crate::connection::Classification;
use crate::connection::ConnectionOutcome;
use crate::connection::classified;
use crate::connection::concluded;
use crate::connection::declared_length;
use crate::connection::exit_magic_seq;
use crate::connection::exit_path;
use crate::connection::submit_path;
use crate::http::find_crlf;
use crate::http::spec_parse;
use crate::http::split_head;

verus! {

/// The errors of the listener, each confined as narrowly as it can be.
#[derive(Clone, Copy, PartialEq, Eq, Debug)]
pub enum ServerError {
    /// No usable port at startup: fatal to `start`, nothing runs after it.
    BindError,
    /// One connection's read failed; that connection is abandoned.
    ConnectionReadFault,
    /// A declared body remainder never arrived; that connection is
    /// abandoned.
    IncompleteBodyStall,
    /// The fixed response could not be written; that connection is
    /// abandoned.
    ResponseWriteFault,
    /// The cancellation call could not reach the target port.
    CancellationUnreachable,
}

impl ServerError {
    /// A short description of the error.
    pub fn message(&self) -> (m: String)
        ensures
            self is BindError ==> m@ == "no candidate port could be bound"@,
            self is ConnectionReadFault ==> m@ == "reading the connection failed"@,
            self is IncompleteBodyStall ==> m@ == "the declared body never arrived"@,
            self is ResponseWriteFault ==> m@ == "writing the response failed"@,
            self is CancellationUnreachable ==> m@ == "the cancellation target port could not be reached"@,
    {
        match self {
            ServerError::BindError => "no candidate port could be bound".to_owned(),
            ServerError::ConnectionReadFault => "reading the connection failed".to_owned(),
            ServerError::IncompleteBodyStall => "the declared body never arrived".to_owned(),
            ServerError::ResponseWriteFault => "writing the response failed".to_owned(),
            ServerError::CancellationUnreachable => "the cancellation target port could not be reached".to_owned(),
        }
    }
}

/// The port-binding strategy over an explicit candidate list: the
/// candidates are tried in order, and the first that binds wins. The
/// caller asks for one candidate at a time and reports elsewhere whether
/// the bind succeeded; when the search is exhausted, startup fails with
/// [`ServerError::BindError`].
pub struct PortSearch {
    candidates: Vec<u16>,
    next_idx: usize,
}

impl PortSearch {
    /// The candidate ports, in the order they are to be tried.
    pub closed spec fn candidates_view(self) -> Seq<u16> {
        self.candidates@
    }

    /// How many candidates have been handed out already.
    pub closed spec fn position(self) -> int {
        self.next_idx as int
    }

    /// The search never runs past its candidate list.
    pub open spec fn wf(self) -> bool {
        0 <= self.position() <= self.candidates_view().len()
    }

    /// Starts a search over the given candidates.
    pub fn new(ports: Vec<u16>) -> (s: Self)
        ensures
            s.wf(),
            s.candidates_view() == ports@,
            s.position() == 0,
    {
        PortSearch { candidates: ports, next_idx: 0 }
    }

    /// The next candidate port to try, in order; `None` once every
    /// candidate has been handed out. Every port handed out is one of the
    /// candidates.
    pub fn next_port(&mut self) -> (r: Option<u16>)
        requires
            old(self).wf(),
        ensures
            final(self).wf(),
            final(self).candidates_view() == old(self).candidates_view(),
            match r {
                Some(p) => {
                    &&& old(self).position() < old(self).candidates_view().len()
                    &&& p == old(self).candidates_view()[old(self).position()]
                    &&& old(self).candidates_view().contains(p)
                    &&& final(self).position() == old(self).position() + 1
                },
                None => {
                    &&& old(self).position() == old(self).candidates_view().len()
                    &&& final(self).position() == old(self).position()
                },
            },
    {
        if self.next_idx < self.candidates.len() {
            let p = self.candidates[self.next_idx];
            self.next_idx = self.next_idx + 1;
            Some(p)
        } else {
            None
        }
    }
}

/// What the accept loop does after one connection.
pub enum LoopAction {
    /// Stop accepting; the listener is being torn down.
    Stop,
    /// Hand the captured content to the caller's handler, then accept the
    /// next connection.
    Deliver(Vec<u8>),
    /// Accept the next connection.
    Continue,
}

/// How a connection's outcome decides the loop's next action.
pub open spec fn decided(out: ConnectionOutcome, a: LoopAction) -> bool {
    match a {
        LoopAction::Stop => out is Terminated,
        LoopAction::Deliver(content) => out matches ConnectionOutcome::Captured(c) && content@
            == c@ && content@.len() > 0,
        LoopAction::Continue => {
            ||| out is NoCapture
            ||| out is Fault
            ||| (out matches ConnectionOutcome::Captured(c) && c@.len() == 0)
        },
    }
}

/// Decides the accept loop's next action: an intentional termination stops
/// the loop, a captured body is delivered to the caller's handler, and
/// everything else — including any per-connection fault — only moves on to
/// the next connection.
pub fn loop_decision(out: ConnectionOutcome) -> (a: LoopAction)
    ensures
        decided(out, a),
{
    match out {
        ConnectionOutcome::Terminated => LoopAction::Stop,
        ConnectionOutcome::Captured(c) => {
            if c.len() > 0 {
                LoopAction::Deliver(c)
            } else {
                LoopAction::Continue
            }
        },
        ConnectionOutcome::NoCapture => LoopAction::Continue,
        ConnectionOutcome::Fault => LoopAction::Continue,
    }
}

/// The four bytes that the cancellation operation writes to the listener.
pub fn exit_magic() -> (r: Vec<u8>)
    ensures
        r@ == exit_magic_seq(),
{
    let mut r: Vec<u8> = Vec::new();
    r.push(1);
    r.push(3);
    r.push(3);
    r.push(7);
    proof {
        assert(r@ =~= exit_magic_seq());
    }
    r
}

/// What the cancellation operation reports: success exactly when the
/// outbound connection to the target port could be opened and written, and
/// [`ServerError::CancellationUnreachable`] otherwise. A failure never
/// affects a listener that is in fact still running.
pub fn cancel_result(reached: bool) -> (r: Result<(), ServerError>)
    ensures
        r is Ok <==> reached,
        !reached ==> r == Err::<(), ServerError>(ServerError::CancellationUnreachable),
{
    if reached {
        Ok(())
    } else {
        Err(ServerError::CancellationUnreachable)
    }
}

/// The cancellation magic is never a well-formed request head: it holds no
/// CRLF at all.
pub proof fn lemma_magic_is_malformed()
    ensures
        spec_parse(exit_magic_seq()) is None,
{
    reveal_with_fuel(find_crlf, 5);
    assert(find_crlf(exit_magic_seq(), 0) is None);
    assert(split_head(exit_magic_seq(), 0) is None);
}

/// A request to the submission path that declares no positive content
/// length is answered and captures nothing, and the loop goes on.
pub proof fn lemma_no_declared_length_no_capture(
    b: Seq<u8>,
    c: Classification,
    extra: Option<Vec<u8>>,
    out: ConnectionOutcome,
    respond: bool,
    a: LoopAction,
)
    requires
        classified(b, c),
        concluded(c, extra, out, respond),
        decided(out, a),
        spec_parse(b) matches Some(t) && t.0 == submit_path() && declared_length(t.1) == 0,
    ensures
        out is NoCapture,
        respond,
        a is Continue,
{
    lemma_magic_is_malformed();
}

/// A submission whose declared body arrived whole in the first read is
/// captured byte-identical, answered, and handed to the caller's handler.
pub proof fn lemma_whole_body_captured(
    b: Seq<u8>,
    hs: Seq<(Seq<u8>, Seq<u8>)>,
    bodypos: int,
    c: Classification,
    extra: Option<Vec<u8>>,
    out: ConnectionOutcome,
    respond: bool,
    a: LoopAction,
)
    requires
        classified(b, c),
        concluded(c, extra, out, respond),
        decided(out, a),
        spec_parse(b) == Some((submit_path(), hs, bodypos)),
        declared_length(hs) == b.len() - bodypos,
        declared_length(hs) > 0,
        extra matches Some(x) && x@.len() == 0,
    ensures
        out matches ConnectionOutcome::Captured(body) && body@ == b.subrange(
            bodypos,
            b.len() as int,
        ),
        a matches LoopAction::Deliver(d) && d@ == b.subrange(bodypos, b.len() as int),
        respond,
{
    lemma_magic_is_malformed();
    crate::http::lemma_parse_bounds(b);
    assert(c matches Classification::Submission(plan) && plan.body_prefix@ == b.subrange(
        bodypos,
        b.len() as int,
    ) && plan.missing == 0);
    if let Classification::Submission(plan) = c {
        if let Some(x) = extra {
            if let ConnectionOutcome::Captured(body) = out {
                assert(body@ =~= b.subrange(bodypos, b.len() as int));
            }
        }
    }
}

/// A submission split across two reads is owed one further read of exactly
/// the shortfall, and is captured as the byte-identical concatenation of
/// what the first read already held and what that further read delivered.
pub proof fn lemma_split_body_captured(
    b: Seq<u8>,
    hs: Seq<(Seq<u8>, Seq<u8>)>,
    bodypos: int,
    c: Classification,
    extra: Option<Vec<u8>>,
    out: ConnectionOutcome,
    respond: bool,
    a: LoopAction,
)
    requires
        classified(b, c),
        concluded(c, extra, out, respond),
        decided(out, a),
        spec_parse(b) == Some((submit_path(), hs, bodypos)),
        declared_length(hs) > b.len() - bodypos,
        extra matches Some(x) && x@.len() == declared_length(hs) - (b.len() - bodypos),
    ensures
        c matches Classification::Submission(plan) && plan.missing == declared_length(hs) - (
        b.len() - bodypos),
        extra matches Some(x) && out matches ConnectionOutcome::Captured(body) && body@
            == b.subrange(bodypos, b.len() as int) + x@,
        extra matches Some(x) && a matches LoopAction::Deliver(d) && d@ == b.subrange(
            bodypos,
            b.len() as int,
        ) + x@,
        respond,
{
    lemma_magic_is_malformed();
    crate::http::lemma_parse_bounds(b);
}

/// After the sentinel exit path, or the raw cancellation magic, the
/// connection is not answered, its outcome is an intentional termination,
/// and the accept loop stops.
pub proof fn lemma_termination_stops_loop(
    b: Seq<u8>,
    c: Classification,
    extra: Option<Vec<u8>>,
    out: ConnectionOutcome,
    respond: bool,
    a: LoopAction,
)
    requires
        classified(b, c),
        concluded(c, extra, out, respond),
        decided(out, a),
        b == exit_magic_seq() || (spec_parse(b) matches Some(t) && t.0 == exit_path()),
    ensures
        out is Terminated,
        !respond,
        a is Stop,
{
    lemma_magic_is_malformed();
}

} // verus!
