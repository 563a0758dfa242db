//! The host's side of a session, from the call it begins with to the outcome it ends in: what
//! to do next, after each thing that happened.

use vstd::prelude::*;

use crate::kernel::{
    grants, Capability, Error, ErrorView, Representation, RepresentationView, Request, RequestView,
};
use crate::module_side::{
    law_an_endpoints_outcome_is_what_the_host_reads, ModuleAction, ModuleEvent, ModuleEventView,
    ModuleSession,
};
use crate::session::{fault_text, next_for, on_reply, Fault, ReplyStep, ReplyStepView};
use crate::wire::{
    answer_for, answer_of, crossed, host_answer, is_failure, law_an_answer_survives_the_boundary,
    outcome, outcome_of, same_outcome, ModuleCall, ModuleCallView, ModuleReply, ModuleReplyView,
};

verus! {

/// What happened.
#[derive(Debug)]
pub enum HostEvent {
    /// The session may begin.
    Begin,
    /// The message was sent.
    Sent,
    /// The module replied.
    Received(ModuleReply),
    /// The kernel gave this for what was issued.
    Issued(Result<Representation, Error>),
    /// The pipe or the encoding failed.
    Failed(Fault),
}

/// [`HostEvent`] as a value.
pub enum HostEventView {
    /// The session may begin.
    Begin,
    /// The message was sent.
    Sent,
    /// The module replied.
    Received(ModuleReplyView),
    /// The kernel gave this for what was issued.
    Issued(Result<RepresentationView, ErrorView>),
    /// The pipe or the encoding failed, and this is what it says.
    Failed(Seq<char>),
}

impl View for HostEvent {
    type V = HostEventView;

    open spec fn view(&self) -> HostEventView {
        match self {
            HostEvent::Begin => HostEventView::Begin,
            HostEvent::Sent => HostEventView::Sent,
            HostEvent::Received(reply) => HostEventView::Received(reply@),
            HostEvent::Issued(result) => HostEventView::Issued(outcome(*result)),
            HostEvent::Failed(fault) => HostEventView::Failed(fault_text(*fault)),
        }
    }
}

/// What to do.
#[derive(Debug)]
pub enum HostAction {
    /// Send this to the module.
    Send(ModuleCall),
    /// Wait for the module's reply.
    Receive,
    /// Issue this on the host's kernel.
    Issue {
        /// What is asked.
        request: Request,
        /// Under what authority.
        capability: Capability,
    },
    /// End, with this outcome.
    Finish(Result<Representation, Error>),
}

/// [`HostAction`] as a value.
pub enum HostActionView {
    /// Send this to the module.
    Send(ModuleCallView),
    /// Wait for the module's reply.
    Receive,
    /// Issue this on the host's kernel.
    Issue(RequestView, Option<Set<Seq<char>>>),
    /// End, with this outcome.
    Finish(Result<RepresentationView, ErrorView>),
}

impl View for HostAction {
    type V = HostActionView;

    open spec fn view(&self) -> HostActionView {
        match self {
            HostAction::Send(call) => HostActionView::Send(call@),
            HostAction::Receive => HostActionView::Receive,
            HostAction::Issue { request, capability } => HostActionView::Issue(
                request@,
                capability@,
            ),
            HostAction::Finish(result) => HostActionView::Finish(outcome(*result)),
        }
    }
}

/// Where the host is in a session.
#[derive(Debug)]
enum Phase {
    Ready(Request),
    Sending,
    Receiving,
    Issuing,
    Over,
}

/// Where a host is in a session, as a value.
pub enum HostPhase {
    /// It has this to ask, and has not begun.
    Ready(RequestView),
    /// It is sending a message.
    Sending,
    /// It waits for a reply.
    Receiving,
    /// It waits for what it issued on its kernel.
    Issuing,
    /// The session is over.
    Over,
}

/// The host's side of a session.
#[derive(Debug)]
pub struct HostSession {
    capability: Capability,
    phase: Phase,
}

/// [`HostSession`] as a value.
pub struct HostSessionView {
    /// The authority of the session.
    pub held: Option<Set<Seq<char>>>,
    /// Where the host is in it.
    pub phase: HostPhase,
}

impl View for HostSession {
    type V = HostSessionView;

    closed spec fn view(&self) -> HostSessionView {
        HostSessionView {
            held: self.capability@,
            phase: match self.phase {
                Phase::Ready(request) => HostPhase::Ready(request@),
                Phase::Sending => HostPhase::Sending,
                Phase::Receiving => HostPhase::Receiving,
                Phase::Issuing => HostPhase::Issuing,
                Phase::Over => HostPhase::Over,
            },
        }
    }
}

/// Whether `event` can happen in `phase`: what a host waits for there, or a failure of the pipe
/// while it is used.
pub open spec fn expects(phase: HostPhase, event: HostEventView) -> bool {
    match phase {
        HostPhase::Ready(_) => event is Begin,
        HostPhase::Sending => event is Sent || event is Failed,
        HostPhase::Receiving => event is Received || event is Failed,
        HostPhase::Issuing => event is Issued,
        HostPhase::Over => false,
    }
}

/// What a host does after `event`, and where it is then.
pub open spec fn after(session: HostSessionView, event: HostEventView) -> (
    HostSessionView,
    HostActionView,
) {
    let at = |phase: HostPhase| HostSessionView { phase, ..session };
    match event {
        HostEventView::Begin => (
            at(HostPhase::Sending),
            HostActionView::Send(
                ModuleCallView::Invoke(session.phase->Ready_0, session.held),
            ),
        ),
        HostEventView::Sent => (at(HostPhase::Receiving), HostActionView::Receive),
        HostEventView::Received(reply) => match next_for(reply, session.held) {
            ReplyStepView::Issue(request, authority) => (
                at(HostPhase::Issuing),
                HostActionView::Issue(request, authority),
            ),
            ReplyStepView::Done(result) => (at(HostPhase::Over), HostActionView::Finish(result)),
        },
        HostEventView::Issued(result) => (
            at(HostPhase::Sending),
            HostActionView::Send(answer_for(result)),
        ),
        HostEventView::Failed(text) => (
            at(HostPhase::Over),
            HostActionView::Finish(Err(ErrorView::Endpoint(text))),
        ),
    }
}

impl HostSession {
    /// A session that asks `request` under `capability`.
    pub fn new(request: Request, capability: Capability) -> (r: Self)
        ensures
            r@ == (HostSessionView { held: capability@, phase: HostPhase::Ready(request@) }),
    {
        HostSession { capability, phase: Phase::Ready(request) }
    }

    /// What to do after `event`.
    pub fn step(self, event: HostEvent) -> (r: (Self, HostAction))
        requires
            expects(self@.phase, event@),
        ensures
            (r.0@, r.1@) == after(self@, event@),
    {
        let HostSession { capability, phase } = self;
        match event {
            HostEvent::Begin => match phase {
                Phase::Ready(request) => {
                    let call = ModuleCall::Invoke { request, capability: capability.clone() };
                    (HostSession { capability, phase: Phase::Sending }, HostAction::Send(call))
                },
                _ => (
                    HostSession { capability, phase: Phase::Over },
                    HostAction::Finish(Err(Error::Endpoint("nothing was to be sent".to_owned()))),
                ),
            },
            HostEvent::Sent => (
                HostSession { capability, phase: Phase::Receiving },
                HostAction::Receive,
            ),
            HostEvent::Received(reply) => match on_reply(reply, &capability) {
                ReplyStep::Issue { request, capability: authority } => (
                    HostSession { capability, phase: Phase::Issuing },
                    HostAction::Issue { request, capability: authority },
                ),
                ReplyStep::Done(result) => (
                    HostSession { capability, phase: Phase::Over },
                    HostAction::Finish(result),
                ),
            },
            HostEvent::Issued(result) => (
                HostSession { capability, phase: Phase::Sending },
                HostAction::Send(host_answer(result)),
            ),
            HostEvent::Failed(fault) => (
                HostSession { capability, phase: Phase::Over },
                HostAction::Finish(Err(fault.error())),
            ),
        }
    }
}

// ---------------------------------------------------------------------------
// Laws.
// ---------------------------------------------------------------------------

/// Whether `events` can happen one after the other in `session`.
pub open spec fn can_happen(session: HostSessionView, events: Seq<HostEventView>) -> bool
    decreases events.len(),
{
    events.len() > 0 ==> {
        &&& expects(session.phase, events[0])
        &&& can_happen(after(session, events[0]).0, events.drop_first())
    }
}

/// What a host does while `events` happen.
pub open spec fn doings(session: HostSessionView, events: Seq<HostEventView>) -> Seq<HostActionView>
    decreases events.len(),
{
    if events.len() == 0 {
        Seq::empty()
    } else {
        seq![after(session, events[0]).1] + doings(after(session, events[0]).0, events.drop_first())
    }
}

/// Whatever happens in a session, nothing is issued under more than its authority.
pub proof fn law_nothing_is_issued_beyond_the_session(
    session: HostSessionView,
    events: Seq<HostEventView>,
    scope: Seq<char>,
)
    ensures
        forall|i: int|
            0 <= i < doings(session, events).len() ==> ((#[trigger] doings(session, events)[i])
                matches HostActionView::Issue(_, authority) ==> (grants(authority, scope)
                ==> grants(session.held, scope))),
    decreases events.len(),
{
    if events.len() > 0 {
        let then = after(session, events[0]).0;
        let rest = doings(then, events.drop_first());
        law_nothing_is_issued_beyond_the_session(then, events.drop_first(), scope);
        assert(then.held == session.held);
        assert forall|i: int| 0 <= i < doings(session, events).len() implies ((
        #[trigger] doings(session, events)[i]) matches HostActionView::Issue(_, authority) ==> (
        grants(authority, scope) ==> grants(session.held, scope))) by {
            if i > 0 {
                assert(doings(session, events)[i] == rest[i - 1]);
            }
        }
    }
}

/// A session begins by sending its request under its whole authority, and nothing else.
pub proof fn law_a_session_begins_with_its_request(session: HostSessionView, event: HostEventView)
    requires
        session.phase is Ready,
        expects(session.phase, event),
    ensures
        after(session, event).1 == HostActionView::Send(
            ModuleCallView::Invoke(session.phase->Ready_0, session.held),
        ),
{
}

/// One callback is one exchange: what the module asked for is issued once, what came of it is
/// sent back as an answer, and the host waits for the next reply, where it was before.
pub proof fn law_one_callback_is_one_exchange(
    session: HostSessionView,
    request: RequestView,
    carried: Option<Set<Seq<char>>>,
    result: Result<RepresentationView, ErrorView>,
)
    requires
        session.phase is Receiving,
    ensures
        ({
            let events = seq![
                HostEventView::Received(ModuleReplyView::HostCall(request, carried)),
                HostEventView::Issued(result),
                HostEventView::Sent,
            ];
            let (asked, first) = after(session, events[0]);
            let (answered, second) = after(asked, events[1]);
            let (waiting, third) = after(answered, events[2]);
            &&& can_happen(session, events)
            &&& first == HostActionView::Issue(
                request,
                crate::kernel::clamped(session.held, carried),
            )
            &&& second == HostActionView::Send(answer_for(result))
            &&& third is Receive
            &&& waiting == session
        }),
{
    reveal_with_fuel(can_happen, 4);
    let events = seq![
        HostEventView::Received(ModuleReplyView::HostCall(request, carried)),
        HostEventView::Issued(result),
        HostEventView::Sent,
    ];
    assert(events.drop_first()[0] == events[1]);
    assert(events.drop_first().drop_first()[0] == events[2]);
}

/// A session ends exactly with the module's first reply that is no callback, whose meaning is
/// the outcome, or with the first failure of the pipe; then nothing more happens in it.
pub proof fn law_a_session_ends_once(session: HostSessionView, event: HostEventView)
    requires
        expects(session.phase, event),
    ensures
        after(session, event).1 is Finish <==> (event is Failed || (event
            matches HostEventView::Received(reply) && reply !is HostCall)),
        event matches HostEventView::Received(reply) ==> (reply !is HostCall ==> after(
            session,
            event,
        ).1 == HostActionView::Finish(outcome_of(reply))),
        event matches HostEventView::Failed(text) ==> after(session, event).1
            == HostActionView::Finish(Err(ErrorView::Endpoint(text))),
        after(session, event).1 is Finish <==> after(session, event).0.phase is Over,
        forall|later: HostEventView| #[trigger]
            expects(after(session, event).0.phase, later) ==> after(session, event).1 !is Finish,
{
}

/// A session begins by sending the module the very request it was made for, under its whole
/// authority.
pub proof fn law_the_request_is_sent_as_it_was_made(
    made: Request,
    carried: Capability,
    session: HostSession,
    r: (HostSession, HostAction),
)
    requires
        call_ensures(HostSession::new, (made, carried), session),
        call_ensures(HostSession::step, (session, HostEvent::Begin), r),
    ensures
        r.1 matches HostAction::Send(ModuleCall::Invoke { request, capability }) && {
            &&& request@.verb == made@.verb
            &&& request@.target == made@.target
            &&& request@.args == made@.args
            &&& capability@ == carried@
        },
        r.0@.held == carried@,
        r.0@.phase is Sending,
{
    let event = HostEvent::Begin;
    assert(event@ is Begin);
    assert(expects(session@.phase, event@));
}

/// Once a message is sent the host waits for the module's reply, and it does nothing else.
pub proof fn law_what_was_sent_is_waited_on(session: HostSession, r: (HostSession, HostAction))
    requires
        session@.phase is Sending,
        call_ensures(HostSession::step, (session, HostEvent::Sent), r),
    ensures
        r.1 is Receive,
        r.0@.phase is Receiving,
        r.0@.held == session@.held,
{
    let event = HostEvent::Sent;
    assert(event@ is Sent);
    assert(expects(session@.phase, event@));
}

/// A callback is issued as the very request it is, under exactly the authority that both the
/// session and the callback hold; any other reply ends the session with what it means.
pub proof fn law_a_reply_is_issued_or_ends_the_session(
    session: HostSession,
    reply: ModuleReply,
    r: (HostSession, HostAction),
    scope: Seq<char>,
)
    requires
        session@.phase is Receiving,
        call_ensures(HostSession::step, (session, HostEvent::Received(reply)), r),
    ensures
        match reply {
            ModuleReply::HostCall { request: made, capability: carried } => {
                &&& r.1 matches HostAction::Issue { request, capability }
                &&& request@.verb == made@.verb
                &&& request@.target == made@.target
                &&& request@.args == made@.args
                &&& grants(capability@, scope) <==> grants(session@.held, scope) && grants(
                    carried@,
                    scope,
                )
                &&& r.0@.phase is Issuing
            },
            _ => {
                &&& r.1 matches HostAction::Finish(result)
                &&& outcome(result) == outcome_of(reply@)
                &&& r.0@.phase is Over
            },
        },
        r.0@.held == session@.held,
{
    let event = HostEvent::Received(reply);
    assert(event@ == HostEventView::Received(reply@));
    assert(expects(session@.phase, event@));
}

/// What came of a callback is sent to the module, which reads it as what it is.
pub proof fn law_what_was_issued_is_answered(
    session: HostSession,
    result: Result<Representation, Error>,
    r: (HostSession, HostAction),
)
    requires
        session@.phase is Issuing,
        call_ensures(HostSession::step, (session, HostEvent::Issued(result)), r),
        result matches Err(error) ==> is_failure(error@),
    ensures
        r.1 matches HostAction::Send(call) && answer_of(call@) == outcome(result),
        r.0@.phase is Sending,
        r.0@.held == session@.held,
{
    let event = HostEvent::Issued(result);
    assert(event@ == HostEventView::Issued(outcome(result)));
    assert(expects(session@.phase, event@));
    law_an_answer_survives_the_boundary(outcome(result));
}

/// A fault of the pipe ends the session with the failure it is.
pub proof fn law_a_fault_ends_the_session(
    session: HostSession,
    fault: Fault,
    failure: Error,
    r: (HostSession, HostAction),
)
    requires
        session@.phase is Sending || session@.phase is Receiving,
        call_ensures(Fault::error, (fault,), failure),
        call_ensures(HostSession::step, (session, HostEvent::Failed(fault)), r),
    ensures
        r.1 matches HostAction::Finish(Err(error)) && error@ == failure@,
        r.0@.phase is Over,
{
    let event = HostEvent::Failed(fault);
    assert(event@ == HostEventView::Failed(fault_text(fault)));
    assert(expects(session@.phase, event@));
}

/// From end to end: whatever the endpoint gives inside the module, the host's session ends with
/// it, result, threads and type of failure, whether or not the reply is encoded on the way.
pub proof fn law_an_outcome_reaches_the_host_as_if_linked(
    module: ModuleSession,
    result: Result<Representation, Error>,
    replied: (ModuleSession, ModuleAction),
    arrived: ModuleReply,
    host: HostSession,
    r: (HostSession, HostAction),
)
    requires
        module@.phase is Invoking,
        call_ensures(ModuleSession::step, (module, ModuleEvent::Invoked(result)), replied),
        replied.1 matches ModuleAction::Reply(reply) ==> arrived@ == reply@ || arrived@ == crossed(
            reply@,
        ),
        host@.phase is Receiving,
        call_ensures(HostSession::step, (host, HostEvent::Received(arrived)), r),
        result matches Err(error) ==> is_failure(error@),
    ensures
        r.1 matches HostAction::Finish(end) && same_outcome(end, result),
{
    law_an_endpoints_outcome_is_what_the_host_reads(module, result, replied);
    let event = HostEvent::Received(arrived);
    assert(event@ == HostEventView::Received(arrived@));
    assert(expects(host@.phase, event@));
    let sent = ModuleEvent::Invoked(result);
    assert(sent@ == ModuleEventView::Invoked(outcome(result)));
    assert(arrived@ !is HostCall);
}

} // verus!
