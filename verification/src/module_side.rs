//! The module's side of a session, from the call it receives to the reply it gives: what to do
//! next, after each thing that happened.

use vstd::prelude::*;

use crate::card::ModuleCard;
use crate::cards::{cards_from, cards_of, Answer, AnswerView};
use crate::kernel::{
    Capability, Error, ErrorView, Representation, RepresentationView, Request, RequestView,
    SpaceEntry, SpaceEntryView,
};
use crate::floor::{demanded, first_lacking};
use crate::outside::iri_accepts;
use crate::rewrite::{ModuleManifest, ModuleManifestView, ModuleRewrite, ModuleRewriteView};
use crate::session::{
    dispatch, on_call, received_call, reply_unasked, step_for, CallStep, CallStepView, Receiver,
    Resolution, ResolutionView,
};
use crate::wire::{
    crossed, is_failure, law_an_outcome_survives_the_boundary, outcome, outcome_of, replies,
    reply_for, ModuleCall, ModuleCallView, ModuleReply, ModuleReplyView,
};

verus! {

/// What happened.
#[derive(Debug)]
pub enum ModuleEvent {
    /// The host called, or sent what is no call.
    Called(Result<ModuleCall, Error>),
    /// The module's space binds these, if it can say.
    Bound(Option<Vec<SpaceEntry>>),
    /// Each of the module's bindings, with what its space answered for it.
    Asked(Vec<(SpaceEntry, Option<Answer>)>),
    /// The module's space made this of the request.
    Resolved(Resolution),
    /// The endpoint gave this.
    Invoked(Result<Representation, Error>),
}

/// [`ModuleEvent`] as a value.
pub enum ModuleEventView {
    /// The host called, or sent what is no call.
    Called(Result<ModuleCallView, ErrorView>),
    /// The module's space binds these, if it can say.
    Bound(Option<Seq<SpaceEntryView>>),
    /// Each of the module's bindings, with what its space answered for it.
    Asked(Seq<(SpaceEntryView, Option<AnswerView>)>),
    /// The module's space made this of the request.
    Resolved(ResolutionView),
    /// The endpoint gave this.
    Invoked(Result<RepresentationView, ErrorView>),
}

impl View for ModuleEvent {
    type V = ModuleEventView;

    open spec fn view(&self) -> ModuleEventView {
        match self {
            ModuleEvent::Called(call) => ModuleEventView::Called(received_call(*call)),
            ModuleEvent::Bound(entries) => ModuleEventView::Bound(entries.deep_view()),
            ModuleEvent::Asked(asked) => ModuleEventView::Asked(asked.deep_view()),
            ModuleEvent::Resolved(resolution) => ModuleEventView::Resolved(resolution@),
            ModuleEvent::Invoked(result) => ModuleEventView::Invoked(outcome(*result)),
        }
    }
}

/// What to do.
#[derive(Debug)]
pub enum ModuleAction {
    /// Ask the module's space what it binds.
    ListEntries,
    /// Ask the module's space for the card of each binding.
    AskCards,
    /// Resolve this in the module's space.
    Resolve {
        /// What is asked.
        request: Request,
        /// Under what authority.
        capability: Capability,
    },
    /// Invoke the endpoint it was resolved to.
    Invoke,
    /// End, with this reply.
    Reply(ModuleReply),
}

/// Where a module is in a session.
#[derive(Debug)]
enum Phase {
    Ready,
    Listing,
    Declaring,
    Asking,
    Resolving(Request, Capability),
    Invoking,
    Over,
}

/// Where a module is in a session, as a value.
pub enum ModulePhase {
    /// It waits for a call.
    Ready,
    /// It looks up its bindings, to list them.
    Listing,
    /// It looks up its bindings, for its manifest.
    Declaring,
    /// It asks for the cards of its bindings.
    Asking,
    /// It resolves this request, made under this authority.
    Resolving(RequestView, Option<Set<Seq<char>>>),
    /// It runs an endpoint.
    Invoking,
    /// The session is over.
    Over,
}

/// The module's side of a session.
#[derive(Debug)]
pub struct ModuleSession {
    rewrite: ModuleRewrite,
    receiver: Receiver,
    phase: Phase,
}

/// [`ModuleSession`] as a value.
pub struct ModuleSessionView {
    /// How the module declares that it rewrites names.
    pub rewrite: ModuleRewriteView,
    /// How it names itself.
    pub receiver: Receiver,
    /// Where it is in the session.
    pub phase: ModulePhase,
}

impl View for ModuleSession {
    type V = ModuleSessionView;

    closed spec fn view(&self) -> ModuleSessionView {
        ModuleSessionView {
            rewrite: self.rewrite@,
            receiver: self.receiver,
            phase: match self.phase {
                Phase::Ready => ModulePhase::Ready,
                Phase::Listing => ModulePhase::Listing,
                Phase::Declaring => ModulePhase::Declaring,
                Phase::Asking => ModulePhase::Asking,
                Phase::Resolving(request, capability) => ModulePhase::Resolving(
                    request@,
                    capability@,
                ),
                Phase::Invoking => ModulePhase::Invoking,
                Phase::Over => ModulePhase::Over,
            },
        }
    }
}

/// Whether `event` is what a module waits for in `phase`.
pub open spec fn awaits(phase: ModulePhase, event: ModuleEventView) -> bool {
    match phase {
        ModulePhase::Ready => event is Called,
        ModulePhase::Listing => event is Bound,
        ModulePhase::Declaring => event is Bound,
        ModulePhase::Asking => event is Asked,
        ModulePhase::Resolving(..) => event is Resolved,
        ModulePhase::Invoking => event is Invoked,
        ModulePhase::Over => false,
    }
}

/// Where a module is after `event`.
pub open spec fn phase_after(session: ModuleSessionView, event: ModuleEventView) -> ModulePhase {
    match event {
        ModuleEventView::Called(call) => match step_for(call, session.receiver) {
            CallStepView::Dispatch(request, held) => ModulePhase::Resolving(request, held),
            CallStepView::ListEntries => ModulePhase::Listing,
            CallStepView::ShowManifest => ModulePhase::Declaring,
            CallStepView::ShowCards => ModulePhase::Asking,
            CallStepView::Answer(_) => ModulePhase::Over,
        },
        ModuleEventView::Resolved(resolution) => if reply_unasked(
            resolution,
            session.rewrite,
            session.phase->Resolving_0,
            session.phase->Resolving_1,
        ) is None {
            ModulePhase::Invoking
        } else {
            ModulePhase::Over
        },
        _ => ModulePhase::Over,
    }
}

/// Whether `action` is what a module does after `event`.
pub open spec fn acts(
    session: ModuleSessionView,
    event: ModuleEventView,
    action: ModuleAction,
) -> bool {
    match event {
        ModuleEventView::Called(call) => match step_for(call, session.receiver) {
            CallStepView::Dispatch(asked, held) => action matches ModuleAction::Resolve {
                request,
                capability,
            } && request@ == asked && capability@ == held,
            CallStepView::ListEntries => action is ListEntries,
            CallStepView::ShowManifest => action is ListEntries,
            CallStepView::ShowCards => action is AskCards,
            CallStepView::Answer(answer) => action matches ModuleAction::Reply(reply) && reply@
                == answer,
        },
        ModuleEventView::Bound(entries) => action matches ModuleAction::Reply(reply) && reply@
            == if session.phase is Declaring {
            ModuleReplyView::Manifest(ModuleManifestView { entries, rewrite: session.rewrite })
        } else {
            ModuleReplyView::Bindings(entries)
        },
        ModuleEventView::Asked(asked) => action matches ModuleAction::Reply(reply) && reply@
            == ModuleReplyView::Cards(cards_from(asked)),
        ModuleEventView::Resolved(resolution) => match reply_unasked(
            resolution,
            session.rewrite,
            session.phase->Resolving_0,
            session.phase->Resolving_1,
        ) {
            Some(answer) => action matches ModuleAction::Reply(reply) && reply@ == answer,
            None => action is Invoke,
        },
        ModuleEventView::Invoked(result) => action matches ModuleAction::Reply(reply) && replies(
            result,
            reply@,
        ),
    }
}

impl ModuleSession {
    /// The session of a module that declares `rewrite`.
    pub fn new(rewrite: ModuleRewrite, receiver: Receiver) -> (r: Self)
        ensures
            r@ == (ModuleSessionView { rewrite: rewrite@, receiver, phase: ModulePhase::Ready }),
    {
        ModuleSession { rewrite, receiver, phase: Phase::Ready }
    }

    /// What to do after `event`.
    pub fn step(self, event: ModuleEvent) -> (r: (Self, ModuleAction))
        requires
            awaits(self@.phase, event@),
        ensures
            r.0@ == (ModuleSessionView { phase: phase_after(self@, event@), ..self@ }),
            acts(self@, event@, r.1),
    {
        let ModuleSession { rewrite, receiver, phase } = self;
        let (phase, action) = match event {
            ModuleEvent::Called(call) => match on_call(call, receiver) {
                CallStep::Dispatch { request, capability } => {
                    let action = ModuleAction::Resolve {
                        request: request.clone(),
                        capability: capability.clone(),
                    };
                    (Phase::Resolving(request, capability), action)
                },
                CallStep::ListEntries => (Phase::Listing, ModuleAction::ListEntries),
                CallStep::ShowManifest => (Phase::Declaring, ModuleAction::ListEntries),
                CallStep::ShowCards => (Phase::Asking, ModuleAction::AskCards),
                CallStep::Answer(reply) => (Phase::Over, ModuleAction::Reply(reply)),
            },
            ModuleEvent::Bound(entries) => {
                let reply = match phase {
                    Phase::Declaring => ModuleReply::Manifest(
                        ModuleManifest::new(entries, rewrite.clone()),
                    ),
                    _ => ModuleReply::Bindings(entries),
                };
                (Phase::Over, ModuleAction::Reply(reply))
            },
            ModuleEvent::Asked(asked) => (
                Phase::Over,
                ModuleAction::Reply(ModuleReply::Cards(cards_of(&asked))),
            ),
            ModuleEvent::Resolved(resolution) => match phase {
                Phase::Resolving(request, capability) => {
                    match dispatch(&resolution, &rewrite, &request, &capability) {
                        Some(reply) => (Phase::Over, ModuleAction::Reply(reply)),
                        None => (Phase::Invoking, ModuleAction::Invoke),
                    }
                },
                _ => (
                    Phase::Over,
                    ModuleAction::Reply(ModuleReply::Error("nothing was being resolved".to_owned())),
                ),
            },
            ModuleEvent::Invoked(result) => (
                Phase::Over,
                ModuleAction::Reply(reply_for(result)),
            ),
        };
        (ModuleSession { rewrite, receiver, phase }, action)
    }
}

// ---------------------------------------------------------------------------
// Laws.
// ---------------------------------------------------------------------------

/// A session ends exactly with its one reply, and nothing happens in it afterwards.
pub proof fn law_a_session_ends_with_its_reply(
    session: ModuleSessionView,
    event: ModuleEventView,
    action: ModuleAction,
)
    requires
        awaits(session.phase, event),
        acts(session, event, action),
    ensures
        action is Reply <==> phase_after(session, event) is Over,
        forall|later: ModuleEventView| #[trigger]
            awaits(phase_after(session, event), later) ==> action !is Reply,
{
}

/// An endpoint runs only for a call to invoke one, once it was resolved and both guards let it
/// pass; whatever else the host sends, none runs.
pub proof fn law_an_endpoint_runs_only_when_dispatched(
    session: ModuleSessionView,
    event: ModuleEventView,
    action: ModuleAction,
)
    requires
        awaits(session.phase, event),
        acts(session, event, action),
    ensures
        action is Invoke <==> {
            &&& session.phase matches ModulePhase::Resolving(request, held)
            &&& event matches ModuleEventView::Resolved(resolution)
            &&& reply_unasked(resolution, session.rewrite, request, held) is None
        },
        action is Resolve <==> (event matches ModuleEventView::Called(call) && (call
            matches Ok(called) && called is Invoke)),
{
}

/// A question is answered with what was asked for: the bindings, the manifest with the declared
/// rewriting, or the cards.
pub proof fn law_a_question_gets_its_answer(
    session: ModuleSessionView,
    event: ModuleEventView,
    action: ModuleAction,
)
    requires
        awaits(session.phase, event),
        acts(session, event, action),
    ensures
        session.phase is Listing ==> (action matches ModuleAction::Reply(reply) && reply@
            is Bindings),
        session.phase is Declaring ==> (action matches ModuleAction::Reply(reply) && (reply@
            matches ModuleReplyView::Manifest(manifest) && manifest.rewrite == session.rewrite)),
        session.phase is Asking ==> (action matches ModuleAction::Reply(reply) && reply@
            is Cards),
{
}

/// Whatever an endpoint gives, the session ends with a reply that the host reads as that,
/// result, threads and type of failure, whether or not the reply is encoded on the way.
pub proof fn law_an_endpoints_outcome_is_what_the_host_reads(
    session: ModuleSession,
    result: Result<Representation, Error>,
    r: (ModuleSession, ModuleAction),
)
    requires
        session@.phase is Invoking,
        call_ensures(ModuleSession::step, (session, ModuleEvent::Invoked(result)), r),
        result matches Err(error) ==> is_failure(error@),
    ensures
        r.0@.phase is Over,
        r.1 matches ModuleAction::Reply(reply) && match result {
            Ok(representation) => {
                &&& outcome_of(reply@) == Ok::<RepresentationView, ErrorView>(representation@)
                &&& outcome_of(crossed(reply@)) == Ok::<RepresentationView, ErrorView>(
                    representation@,
                )
            },
            Err(error) => {
                &&& outcome_of(reply@) == Err::<RepresentationView, ErrorView>(error@)
                &&& outcome_of(crossed(reply@)) == Err::<RepresentationView, ErrorView>(error@)
            },
        },
{
    let event = ModuleEvent::Invoked(result);
    assert(event@ == ModuleEventView::Invoked(outcome(result)));
    assert(awaits(session@.phase, event@));
    if let ModuleAction::Reply(reply) = r.1 {
        law_an_outcome_survives_the_boundary(outcome(result), reply@);
    }
}

/// A session takes its first call as what it is: a request is resolved as the very request it
/// is, under the very authority it carries; a question is looked up; anything else ends the
/// session with a failure.
pub proof fn law_a_session_takes_its_call_as_what_it_is(
    session: ModuleSession,
    call: Result<ModuleCall, Error>,
    r: (ModuleSession, ModuleAction),
)
    requires
        session@.phase is Ready,
        call_ensures(ModuleSession::step, (session, ModuleEvent::Called(call)), r),
    ensures
        match call {
            Ok(ModuleCall::Invoke { request: made, capability: carried }) => {
                &&& r.1 matches ModuleAction::Resolve { request, capability }
                &&& request@.verb == made@.verb
                &&& request@.target == made@.target
                &&& request@.args == made@.args
                &&& capability@ == carried@
                &&& r.0@.phase == ModulePhase::Resolving(made@, carried@)
            },
            Ok(ModuleCall::Describe) => r.1 is ListEntries && r.0@.phase is Listing,
            Ok(ModuleCall::Manifest) => r.1 is ListEntries && r.0@.phase is Declaring,
            Ok(ModuleCall::Cards) => r.1 is AskCards && r.0@.phase is Asking,
            _ => {
                &&& r.0@.phase is Over
                &&& r.1 matches ModuleAction::Reply(reply)
                &&& outcome_of(reply@) matches Err(error)
                &&& error is Endpoint
            },
        },
        r.0@.rewrite == session@.rewrite,
        r.0@.receiver == session@.receiver,
{
    let event = ModuleEvent::Called(call);
    assert(event@ == ModuleEventView::Called(received_call(call)));
    assert(awaits(session@.phase, event@));
}

/// A question is answered with the very thing that was looked up: the bindings, the bindings
/// with the rewriting the module declares, or the cards.
pub proof fn law_a_question_is_answered_with_what_was_looked_up(
    session: ModuleSession,
    entries: Option<Vec<SpaceEntry>>,
    bound: (ModuleSession, ModuleAction),
    other: ModuleSession,
    asked: Vec<(SpaceEntry, Option<Answer>)>,
    carded: (ModuleSession, ModuleAction),
    cards: Vec<ModuleCard>,
)
    requires
        session@.phase is Listing || session@.phase is Declaring,
        call_ensures(ModuleSession::step, (session, ModuleEvent::Bound(entries)), bound),
        other@.phase is Asking,
        call_ensures(ModuleSession::step, (other, ModuleEvent::Asked(asked)), carded),
        call_ensures(cards_of, (&asked,), cards),
    ensures
        bound.0@.phase is Over,
        carded.0@.phase is Over,
        bound.1 matches ModuleAction::Reply(reply) && if session@.phase is Listing {
            reply@ == ModuleReplyView::Bindings(entries.deep_view())
        } else {
            &&& reply@ matches ModuleReplyView::Manifest(manifest)
            &&& manifest.entries == entries.deep_view()
            &&& manifest.rewrite == session@.rewrite
        },
        carded.1 matches ModuleAction::Reply(reply) && reply@ == ModuleReplyView::Cards(
            cards.deep_view(),
        ),
{
    let event = ModuleEvent::Bound(entries);
    assert(event@ == ModuleEventView::Bound(entries.deep_view()));
    assert(awaits(session@.phase, event@));
    let event = ModuleEvent::Asked(asked);
    assert(event@ == ModuleEventView::Asked(asked.deep_view()));
    assert(awaits(other@.phase, event@));
}

/// Once a request was resolved the endpoint runs, unless nothing is bound there, or it was
/// resolved under a name the host was never told of, or its card turns the caller away; each of
/// these ends the session with the failure it is.
pub proof fn law_a_resolved_request_runs_or_is_refused(
    session: ModuleSession,
    resolution: Resolution,
    r: (ModuleSession, ModuleAction),
)
    requires
        session@.phase is Resolving,
        iri_accepts(session@.phase->Resolving_0.target),
        call_ensures(ModuleSession::step, (session, ModuleEvent::Resolved(resolution)), r),
    ensures
        ({
            let request = session@.phase->Resolving_0;
            let held = session@.phase->Resolving_1;
            match resolution@ {
                ResolutionView::Miss => {
                    &&& r.0@.phase is Over
                    &&& r.1 matches ModuleAction::Reply(reply)
                    &&& outcome_of(reply@) == Err::<RepresentationView, ErrorView>(
                        ErrorView::Unresolved(request.target),
                    )
                },
                ResolutionView::Hit(card, canonical) => {
                    if session@.rewrite !is Undeclarable && canonical is Some && canonical->0
                        != request.target {
                        &&& r.0@.phase is Over
                        &&& r.1 matches ModuleAction::Reply(reply)
                        &&& outcome_of(reply@) matches Err(error)
                        &&& error is Endpoint
                    } else if first_lacking(demanded(card, request.verb), held) is Some {
                        &&& r.0@.phase is Over
                        &&& r.1 matches ModuleAction::Reply(reply)
                        &&& outcome_of(reply@) matches Err(error)
                        &&& error is Denied
                    } else {
                        r.1 is Invoke && r.0@.phase is Invoking
                    }
                },
            }
        }),
        r.0@.rewrite == session@.rewrite,
{
    let event = ModuleEvent::Resolved(resolution);
    assert(event@ == ModuleEventView::Resolved(resolution@));
    assert(awaits(session@.phase, event@));
}

/// A session starts ready, with the rewriting the module declares.
pub proof fn law_a_session_starts_ready(
    rewrite: ModuleRewrite,
    receiver: Receiver,
    r: ModuleSession,
)
    requires
        call_ensures(ModuleSession::new, (rewrite, receiver), r),
    ensures
        r@.phase is Ready,
        r@.rewrite == rewrite@,
        r@.receiver == receiver,
{
}

} // verus!
