//! The decisions of a session, at either end, between one message and the next.

use vstd::prelude::*;

use crate::card::{Description, DescriptionView, ModuleCard};
use crate::floor::{declaration_text, demanded, first_lacking, refuse_unsatisfied_declaration};
use crate::kernel::{
    clamped, error_text, grants, transient, Capability, Error, ErrorView, Iri, Representation,
    RepresentationView, Request, RequestView, SpaceEntry,
};
use crate::outside::iri_accepts;
use crate::rewrite::{
    is_undeclared, lemma_undeclared_names, refuse_undeclared_rewrite, undeclared_text, ModuleManifest, ModuleRewrite,
    ModuleRewriteView,
};
use crate::text::{lemma_mentions, lemma_mentions_before, lemma_mentions_last, mentions};
use crate::wire::{
    answer_of, crossed, is_failure, law_an_outcome_survives_the_boundary, outcome, outcome_from,
    outcome_of, same_outcome, ModuleCall, ModuleCallView, ModuleError, ModuleReply,
    ModuleReplyView,
};

verus! {

// ---------------------------------------------------------------------------
// What breaks a session.
// ---------------------------------------------------------------------------

/// What went wrong with the pipe or the encoding.
#[derive(PartialEq, Eq, Debug)]
pub enum Fault {
    /// A message could not be encoded.
    Unencodable(String),
    /// A message could not be decoded.
    Undecodable(String),
    /// The module hung up before its final reply.
    ClosedEarly,
    /// The channel to the other end is gone.
    ChannelClosed,
    /// The host hung up instead of answering a callback.
    HostClosed,
    /// The socket failed.
    Socket(String),
}

/// What a fault says.
pub open spec fn fault_text(fault: Fault) -> Seq<char> {
    match fault {
        Fault::Unencodable(detail) => "module-protocol encode failed: "@ + detail@,
        Fault::Undecodable(detail) => "module-protocol decode failed: "@ + detail@,
        Fault::ClosedEarly => "module closed the session early"@,
        Fault::ChannelClosed => "module session channel closed"@,
        Fault::HostClosed => "host closed the session"@,
        Fault::Socket(detail) => "module socket transport: "@ + detail@,
    }
}

impl Fault {
    /// The failure a fault is to whoever waits for an outcome.
    pub fn error(self) -> (r: Error)
        ensures
            r@ == ErrorView::Endpoint(fault_text(self)),
    {
        let text = match self {
            Fault::Unencodable(detail) => {
                let mut text = "module-protocol encode failed: ".to_owned();
                text.append(detail.as_str());
                text
            },
            Fault::Undecodable(detail) => {
                let mut text = "module-protocol decode failed: ".to_owned();
                text.append(detail.as_str());
                text
            },
            Fault::ClosedEarly => "module closed the session early".to_owned(),
            Fault::ChannelClosed => "module session channel closed".to_owned(),
            Fault::HostClosed => "host closed the session".to_owned(),
            Fault::Socket(detail) => {
                let mut text = "module socket transport: ".to_owned();
                text.append(detail.as_str());
                text
            },
        };
        Error::Endpoint(text)
    }
}

/// What a module sends when its reply cannot be encoded.
pub fn unencodable_reply() -> (r: ModuleReply)
    ensures
        r@ == ModuleReplyView::Error("module reply encode failed"@),
{
    ModuleReply::Error("module reply encode failed".to_owned())
}

// ---------------------------------------------------------------------------
// The module side.
// ---------------------------------------------------------------------------

/// Who receives a call: how it names itself in a refusal.
#[derive(Clone, Copy, PartialEq, Eq, Debug, Structural)]
pub enum Receiver {
    /// A module at the end of a byte channel.
    Module,
    /// A module server on a socket.
    Server,
}

/// What the module side does with a call.
#[derive(Debug)]
pub enum CallStep {
    /// Resolve the request and [`dispatch`] it.
    Dispatch {
        /// What is asked.
        request: Request,
        /// Under what authority.
        capability: Capability,
    },
    /// Reply with the bound entries.
    ListEntries,
    /// Reply with the manifest.
    ShowManifest,
    /// Reply with the cards of the bound entries.
    ShowCards,
    /// Reply with this.
    Answer(ModuleReply),
}

/// [`CallStep`] as a value.
pub enum CallStepView {
    /// Resolve the request and dispatch it.
    Dispatch(RequestView, Option<Set<Seq<char>>>),
    /// Reply with the bound entries.
    ListEntries,
    /// Reply with the manifest.
    ShowManifest,
    /// Reply with the cards of the bound entries.
    ShowCards,
    /// Reply with this.
    Answer(ModuleReplyView),
}

impl View for CallStep {
    type V = CallStepView;

    open spec fn view(&self) -> CallStepView {
        match self {
            CallStep::Dispatch { request, capability } => CallStepView::Dispatch(
                request@,
                capability@,
            ),
            CallStep::ListEntries => CallStepView::ListEntries,
            CallStep::ShowManifest => CallStepView::ShowManifest,
            CallStep::ShowCards => CallStepView::ShowCards,
            CallStep::Answer(reply) => CallStepView::Answer(reply@),
        }
    }
}

/// What a receiver says to an answer it never asked for.
pub open spec fn premature_text(receiver: Receiver) -> Seq<char> {
    match receiver {
        Receiver::Module => "module received HostResult before Invoke"@,
        Receiver::Server => "server received HostResult before Invoke"@,
    }
}

/// What the module side does with the first call of a session, or with the failure to decode
/// one.
pub open spec fn step_for(
    call: Result<ModuleCallView, ErrorView>,
    receiver: Receiver,
) -> CallStepView {
    match call {
        Ok(ModuleCallView::Invoke(request, capability)) => CallStepView::Dispatch(
            request,
            capability,
        ),
        Ok(ModuleCallView::Describe) => CallStepView::ListEntries,
        Ok(ModuleCallView::Manifest) => CallStepView::ShowManifest,
        Ok(ModuleCallView::Cards) => CallStepView::ShowCards,
        Ok(ModuleCallView::HostResult(_)) => CallStepView::Answer(
            ModuleReplyView::Error(premature_text(receiver)),
        ),
        Ok(ModuleCallView::HostError(_)) => CallStepView::Answer(
            ModuleReplyView::Error(premature_text(receiver)),
        ),
        Err(error) => CallStepView::Answer(ModuleReplyView::Error(error_text(error))),
    }
}

/// A received call as a value.
pub open spec fn received_call(call: Result<ModuleCall, Error>) -> Result<
    ModuleCallView,
    ErrorView,
> {
    match call {
        Ok(call) => Ok(call@),
        Err(error) => Err(error@),
    }
}

/// Decides what the module side does with the first call of a session. A call that could not
/// be decoded is answered, so that a host newer than the module learns that it cannot say.
pub fn on_call(call: Result<ModuleCall, Error>, receiver: Receiver) -> (r: CallStep)
    ensures
        r@ == step_for(received_call(call), receiver),
{
    match call {
        Ok(ModuleCall::Invoke { request, capability }) => CallStep::Dispatch {
            request,
            capability,
        },
        Ok(ModuleCall::Describe) => CallStep::ListEntries,
        Ok(ModuleCall::Manifest) => CallStep::ShowManifest,
        Ok(ModuleCall::Cards) => CallStep::ShowCards,
        Ok(ModuleCall::HostResult(_)) | Ok(ModuleCall::HostError(_)) => {
            let text = match receiver {
                Receiver::Module => "module received HostResult before Invoke",
                Receiver::Server => "server received HostResult before Invoke",
            };
            CallStep::Answer(ModuleReply::Error(text.to_owned()))
        },
        Err(error) => CallStep::Answer(ModuleReply::Error(error.text())),
    }
}

/// What the module's space made of a request.
#[derive(Debug)]
pub enum Resolution {
    /// It found an endpoint.
    Hit {
        /// The endpoint's card.
        card: Description,
        /// The name it resolved under, if it reports one.
        canonical: Option<Iri>,
    },
    /// Nothing is bound there.
    Miss,
}

/// [`Resolution`] as a value.
pub enum ResolutionView {
    /// It found an endpoint.
    Hit(DescriptionView, Option<Seq<char>>),
    /// Nothing is bound there.
    Miss,
}

impl View for Resolution {
    type V = ResolutionView;

    open spec fn view(&self) -> ResolutionView {
        match self {
            Resolution::Hit { card, canonical } => ResolutionView::Hit(
                card@,
                canonical.deep_view(),
            ),
            Resolution::Miss => ResolutionView::Miss,
        }
    }
}

/// The module's reply to `request` without invoking anything, if it has one: nothing is bound
/// there; or it was resolved under a name the host was never told of; or the endpoint's own
/// card demands what the caller does not hold.
pub open spec fn reply_unasked(
    resolution: ResolutionView,
    rewrite: ModuleRewriteView,
    request: RequestView,
    held: Option<Set<Seq<char>>>,
) -> Option<ModuleReplyView> {
    match resolution {
        ResolutionView::Miss => Some(
            ModuleReplyView::ErrorTyped(ErrorView::Unresolved(request.target)),
        ),
        ResolutionView::Hit(card, canonical) => if is_undeclared(
            rewrite,
            request.target,
            canonical,
        ) {
            Some(ModuleReplyView::Error(undeclared_text(request.target, canonical->0)))
        } else {
            match first_lacking(demanded(card, request.verb), held) {
                Some(scope) => Some(
                    ModuleReplyView::ErrorTyped(
                        ErrorView::Denied(declaration_text(scope, request.target)),
                    ),
                ),
                None => None,
            }
        },
    }
}

/// Decides a dispatch: the reply to give without invoking the endpoint, or none, and then the
/// reply is that of [`reply_for`](crate::wire::reply_for) for what the endpoint gives. Every
/// transport goes through here, so none can differ in what crosses.
pub fn dispatch(
    resolution: &Resolution,
    rewrite: &ModuleRewrite,
    request: &Request,
    capability: &Capability,
) -> (r: Option<ModuleReply>)
    ensures
        match r {
            Some(reply) => reply_unasked(resolution@, rewrite@, request@, capability@) == Some(
                reply@,
            ),
            None => reply_unasked(resolution@, rewrite@, request@, capability@) is None,
        },
{
    match resolution {
        Resolution::Miss => Some(
            ModuleReply::ErrorTyped(
                ModuleError::Unresolved(request.target.as_str().to_owned()),
            ),
        ),
        Resolution::Hit { card, canonical } => {
            match refuse_undeclared_rewrite(request, canonical.as_ref(), rewrite) {
                Some(message) => {
                    return Some(ModuleReply::Error(message));
                },
                None => {},
            }
            match refuse_unsatisfied_declaration(request, card, capability) {
                Some(message) => Some(ModuleReply::ErrorTyped(ModuleError::Denied(message))),
                None => None,
            }
        },
    }
}

// ---------------------------------------------------------------------------
// The host side.
// ---------------------------------------------------------------------------

/// What the host side does with a reply.
#[derive(Debug)]
pub enum ReplyStep {
    /// Issue this on the host kernel, and answer the callback with what comes of it.
    Issue {
        /// What is asked.
        request: Request,
        /// Under what authority.
        capability: Capability,
    },
    /// The session is over, with this outcome.
    Done(Result<Representation, Error>),
}

/// [`ReplyStep`] as a value.
pub enum ReplyStepView {
    /// Issue this on the host kernel.
    Issue(RequestView, Option<Set<Seq<char>>>),
    /// The session is over, with this outcome.
    Done(Result<RepresentationView, ErrorView>),
}

impl View for ReplyStep {
    type V = ReplyStepView;

    open spec fn view(&self) -> ReplyStepView {
        match self {
            ReplyStep::Issue { request, capability } => ReplyStepView::Issue(request@, capability@),
            ReplyStep::Done(result) => ReplyStepView::Done(outcome(*result)),
        }
    }
}

/// What the host side of a session under the authority `held` does with `reply`: a callback
/// is issued under no more than both the session and the callback hold; any other reply ends
/// the session.
pub open spec fn next_for(reply: ModuleReplyView, held: Option<Set<Seq<char>>>) -> ReplyStepView {
    match reply {
        ModuleReplyView::HostCall(request, carried) => ReplyStepView::Issue(
            request,
            clamped(held, carried),
        ),
        _ => ReplyStepView::Done(outcome_of(reply)),
    }
}

/// Decides what the host side does with a reply.
pub fn on_reply(reply: ModuleReply, capability: &Capability) -> (r: ReplyStep)
    ensures
        r@ == next_for(reply@, capability@),
{
    match reply {
        ModuleReply::HostCall { request, capability: carried } => {
            let clamped = capability.clamp(&carried);
            ReplyStep::Issue { request, capability: clamped }
        },
        reply => ReplyStep::Done(outcome_from(reply)),
    }
}

/// What a host does with a callback that reaches it apart from the session it belongs to.
#[derive(Debug)]
pub enum ServeStep {
    /// Resolve this, record it, and answer with what comes of it.
    Resolve {
        /// What is asked.
        request: Request,
        /// Under what authority.
        capability: Capability,
    },
    /// Answer with this.
    Answer(ModuleCall),
}

/// [`ServeStep`] as a value.
pub enum ServeStepView {
    /// Resolve this.
    Resolve(RequestView, Option<Set<Seq<char>>>),
    /// Answer with this.
    Answer(ModuleCallView),
}

impl View for ServeStep {
    type V = ServeStepView;

    open spec fn view(&self) -> ServeStepView {
        match self {
            ServeStep::Resolve { request, capability } => ServeStepView::Resolve(
                request@,
                capability@,
            ),
            ServeStep::Answer(call) => ServeStepView::Answer(call@),
        }
    }
}

/// A received reply as a value.
pub open spec fn received_reply(reply: Result<ModuleReply, Error>) -> Result<
    ModuleReplyView,
    ErrorView,
> {
    match reply {
        Ok(reply) => Ok(reply@),
        Err(error) => Err(error@),
    }
}

/// What a host does with a callback, or with the failure to decode one.
pub open spec fn serve_for(reply: Result<ModuleReplyView, ErrorView>) -> ServeStepView {
    match reply {
        Ok(ModuleReplyView::HostCall(request, capability)) => ServeStepView::Resolve(
            request,
            capability,
        ),
        Ok(_) => ServeStepView::Answer(
            ModuleCallView::HostResult(Err("serve_host_call: expected a HostCall"@)),
        ),
        Err(error) => ServeStepView::Answer(
            ModuleCallView::HostResult(
                Err("serve_host_call: undecodable HostCall: "@ + error_text(error)),
            ),
        ),
    }
}

/// Decides what a host does with a callback.
pub fn serve_host_call(reply: Result<ModuleReply, Error>) -> (r: ServeStep)
    ensures
        r@ == serve_for(received_reply(reply)),
{
    match reply {
        Ok(ModuleReply::HostCall { request, capability }) => ServeStep::Resolve {
            request,
            capability,
        },
        Ok(_) => ServeStep::Answer(
            ModuleCall::HostResult(Err("serve_host_call: expected a HostCall".to_owned())),
        ),
        Err(error) => {
            let mut text = "serve_host_call: undecodable HostCall: ".to_owned();
            text.append(error.text().as_str());
            ServeStep::Answer(ModuleCall::HostResult(Err(text)))
        },
    }
}

// ---------------------------------------------------------------------------
// What a host reads in the answers to its mount-time questions.
// ---------------------------------------------------------------------------

/// The manifest in a reply. `Ok(None)` where the module could not make sense of the question:
/// its naming is then unknown, not absent.
pub fn manifest_answered(reply: ModuleReply) -> (r: Result<Option<ModuleManifest>, Error>)
    ensures
        match reply@ {
            ModuleReplyView::Manifest(manifest) => r matches Ok(Some(found)) && found@ == manifest,
            ModuleReplyView::Error(_) => r matches Ok(None),
            _ => r matches Err(error) && error@ == ErrorView::Endpoint(
                "module answered Manifest with something else"@,
            ),
        },
{
    match reply {
        ModuleReply::Manifest(manifest) => Ok(Some(manifest)),
        ModuleReply::Error(_) => Ok(None),
        _ => Err(Error::Endpoint("module answered Manifest with something else".to_owned())),
    }
}

/// The cards in a reply. A module that could not make sense of the question has none.
pub fn cards_answered(reply: ModuleReply) -> (r: Result<Vec<ModuleCard>, Error>)
    ensures
        match reply@ {
            ModuleReplyView::Cards(cards) => r matches Ok(found) && found.deep_view() == cards,
            ModuleReplyView::Error(_) => r matches Ok(found) && found@.len() == 0,
            _ => r matches Err(error) && error@ == ErrorView::Endpoint(
                "module answered Cards with something else"@,
            ),
        },
{
    match reply {
        ModuleReply::Cards(cards) => Ok(cards),
        ModuleReply::Error(_) => Ok(Vec::new()),
        _ => Err(Error::Endpoint("module answered Cards with something else".to_owned())),
    }
}

/// A reply that may not have come, as a value.
pub open spec fn possible_reply(reply: Option<ModuleReply>) -> Option<ModuleReplyView> {
    match reply {
        Some(reply) => Some(reply@),
        None => None,
    }
}

/// The manifest a peer over a socket gave, if it gave one: a peer that does not know the
/// question hangs up, and its naming is then unknown.
pub fn manifest_given(reply: Option<ModuleReply>) -> (r: Option<ModuleManifest>)
    ensures
        match possible_reply(reply) {
            Some(ModuleReplyView::Manifest(manifest)) => r matches Some(found) && found@
                == manifest,
            _ => r is None,
        },
{
    match reply {
        Some(ModuleReply::Manifest(manifest)) => Some(manifest),
        _ => None,
    }
}

/// The cards a peer over a socket gave: none, if it gave none.
pub fn cards_given(reply: Option<ModuleReply>) -> (r: Vec<ModuleCard>)
    ensures
        match possible_reply(reply) {
            Some(ModuleReplyView::Cards(cards)) => r.deep_view() == cards,
            _ => r@.len() == 0,
        },
{
    match reply {
        Some(ModuleReply::Cards(cards)) => cards,
        _ => Vec::new(),
    }
}

/// The bound entries a peer over a socket gave, if it gave them.
pub fn entries_given(reply: Option<ModuleReply>) -> (r: Option<Vec<SpaceEntry>>)
    ensures
        r.deep_view() == (match possible_reply(reply) {
            Some(ModuleReplyView::Bindings(entries)) => entries,
            _ => None,
        }),
{
    match reply {
        Some(ModuleReply::Bindings(entries)) => entries,
        _ => None,
    }
}

// ---------------------------------------------------------------------------
// Laws.
// ---------------------------------------------------------------------------

/// Whatever a module asks for, the host issues it under no more than the authority of the
/// session.
pub proof fn law_a_callback_never_exceeds_its_session(
    reply: ModuleReplyView,
    held: Option<Set<Seq<char>>>,
    scope: Seq<char>,
)
    ensures
        next_for(reply, held) matches ReplyStepView::Issue(_, issued) ==> (grants(issued, scope)
            ==> grants(held, scope)),
{
}

/// What a host issues in the course of a session in which the module sends `replies`, and under
/// what authority.
pub open spec fn issued_in(replies: Seq<ModuleReplyView>, held: Option<Set<Seq<char>>>) -> Seq<
    (RequestView, Option<Set<Seq<char>>>),
>
    decreases replies.len(),
{
    if replies.len() == 0 {
        Seq::empty()
    } else {
        match next_for(replies[0], held) {
            ReplyStepView::Issue(request, authority) => seq![(request, authority)] + issued_in(
                replies.drop_first(),
                held,
            ),
            ReplyStepView::Done(_) => Seq::empty(),
        }
    }
}

/// The outcome of a session in which the module sends `replies`; none yet, if it has only
/// called back so far.
pub open spec fn outcome_in(replies: Seq<ModuleReplyView>, held: Option<Set<Seq<char>>>) -> Option<
    Result<RepresentationView, ErrorView>,
>
    decreases replies.len(),
{
    if replies.len() == 0 {
        None
    } else {
        match next_for(replies[0], held) {
            ReplyStepView::Issue(..) => outcome_in(replies.drop_first(), held),
            ReplyStepView::Done(result) => Some(result),
        }
    }
}

/// In a session of some callbacks and then a final reply, the host issues each callback once, in
/// order, each under no more than the authority of the session, and reads the outcome in the
/// final reply; what the module sends after that is not looked at.
pub proof fn law_a_session_serves_its_callbacks_and_ends(
    callbacks: Seq<ModuleReplyView>,
    last: ModuleReplyView,
    after: Seq<ModuleReplyView>,
    held: Option<Set<Seq<char>>>,
)
    requires
        forall|i: int| 0 <= i < callbacks.len() ==> (#[trigger] callbacks[i]) is HostCall,
        last !is HostCall,
    ensures
        ({
            let replies = callbacks.push(last) + after;
            &&& issued_in(replies, held).len() == callbacks.len()
            &&& forall|i: int|
                0 <= i < callbacks.len() ==> {
                    let (request, authority) = #[trigger] issued_in(replies, held)[i];
                    &&& callbacks[i] matches ModuleReplyView::HostCall(asked, carried)
                    &&& request == asked
                    &&& authority == clamped(held, carried)
                    &&& forall|scope: Seq<char>| #[trigger]
                        grants(authority, scope) ==> grants(held, scope)
                }
            &&& outcome_in(replies, held) == Some(outcome_of(last))
        }),
    decreases callbacks.len(),
{
    let replies = callbacks.push(last) + after;
    if callbacks.len() == 0 {
        assert(replies[0] == last);
    } else {
        let rest = callbacks.drop_first();
        assert(replies[0] == callbacks[0]);
        assert(replies.drop_first() =~= rest.push(last) + after);
        assert forall|i: int| 0 <= i < rest.len() implies (#[trigger] rest[i]) is HostCall by {
            assert(rest[i] == callbacks[i + 1]);
        }
        law_a_session_serves_its_callbacks_and_ends(rest, last, after, held);
        let all = issued_in(replies, held);
        let others = issued_in(rest.push(last) + after, held);
        assert forall|i: int| 0 <= i < callbacks.len() implies {
            let (request, authority) = #[trigger] all[i];
            &&& callbacks[i] matches ModuleReplyView::HostCall(asked, carried)
            &&& request == asked
            &&& authority == clamped(held, carried)
            &&& forall|scope: Seq<char>| #[trigger]
                grants(authority, scope) ==> grants(held, scope)
        } by {
            if i > 0 {
                assert(all[i] == others[i - 1]);
                assert(rest[i - 1] == callbacks[i]);
            }
        }
    }
}

/// A session goes on exactly as long as the module calls back.
pub proof fn law_only_a_callback_keeps_the_session_open(
    reply: ModuleReplyView,
    held: Option<Set<Seq<char>>>,
)
    ensures
        next_for(reply, held) is Done <==> reply !is HostCall,
{
}

/// A module's refusals arrive at the host as what they are, and are permanent: an unbound
/// target as unresolved, a caller the endpoint's own card turns away as denied, a rewrite the
/// host was never told of as a failure of the endpoint.
pub proof fn law_a_refusal_arrives_as_what_it_is(
    resolution: ResolutionView,
    rewrite: ModuleRewriteView,
    request: RequestView,
    held: Option<Set<Seq<char>>>,
)
    requires
        iri_accepts(request.target),
    ensures
        reply_unasked(resolution, rewrite, request, held) matches Some(reply) ==> {
            &&& outcome_of(crossed(reply)) == outcome_of(reply)
            &&& outcome_of(reply) matches Err(error)
            &&& !transient(error)
            &&& error is Unresolved <==> resolution is Miss
            &&& error is Denied <==> (resolution matches ResolutionView::Hit(card, canonical)
                && !is_undeclared(rewrite, request.target, canonical))
            &&& error is Endpoint <==> (resolution matches ResolutionView::Hit(card, canonical)
                && is_undeclared(rewrite, request.target, canonical))
        },
{
}

/// An endpoint runs only for a request that was resolved under the name the host used, or under
/// one the host was told it cannot know, and only for a caller its own card lets in.
pub proof fn law_an_endpoint_runs_only_past_both_guards(
    resolution: ResolutionView,
    rewrite: ModuleRewriteView,
    request: RequestView,
    held: Option<Set<Seq<char>>>,
)
    ensures
        reply_unasked(resolution, rewrite, request, held) is None <==> {
            &&& resolution matches ResolutionView::Hit(card, canonical)
            &&& rewrite is Undeclarable || canonical is None || canonical == Some(request.target)
            &&& first_lacking(demanded(card, request.verb), held) is None
        },
{
}

/// A callback that reaches the host apart is resolved as the very request it is, verb, target
/// and arguments, under the very authority it carries; whatever else arrives is answered with
/// a failure, and nothing is resolved for it.
pub proof fn law_a_callback_is_resolved_as_it_was_made(
    reply: Result<ModuleReply, Error>,
    r: ServeStep,
)
    requires
        call_ensures(serve_host_call, (reply,), r),
    ensures
        match reply {
            Ok(ModuleReply::HostCall { request: made, capability: carried }) => {
                &&& r matches ServeStep::Resolve { request, capability }
                &&& request@.verb == made@.verb
                &&& request@.target == made@.target
                &&& request@.args == made@.args
                &&& forall|scope: Seq<char>| #[trigger]
                    grants(capability@, scope) <==> grants(carried@, scope)
                &&& capability@ is None <==> carried@ is None
            },
            Ok(_) => r matches ServeStep::Answer(call) && answer_of(call@) matches Err(error)
                && error is Endpoint,
            Err(failure) => r matches ServeStep::Answer(call) && answer_of(call@) matches Err(
                ErrorView::Endpoint(message),
            ) && mentions(message, error_text(failure@)),
        },
{
    if let Err(failure) = reply {
        lemma_mentions_last(
            "serve_host_call: undecodable HostCall: "@,
            error_text(failure@),
        );
    }
}

/// A module takes a call to invoke as the very request and authority it carries, and a question
/// as the question it is; whatever else the host sends first, and what cannot be decoded, is
/// answered with a failure.
pub proof fn law_a_call_is_taken_as_what_it_is(
    call: Result<ModuleCall, Error>,
    receiver: Receiver,
    r: CallStep,
)
    requires
        call_ensures(on_call, (call, receiver), r),
    ensures
        match call {
            Ok(ModuleCall::Invoke { request: made, capability: carried }) => {
                &&& r matches CallStep::Dispatch { request, capability }
                &&& request@.verb == made@.verb
                &&& request@.target == made@.target
                &&& request@.args == made@.args
                &&& capability@ == carried@
            },
            Ok(ModuleCall::Describe) => r is ListEntries,
            Ok(ModuleCall::Manifest) => r is ShowManifest,
            Ok(ModuleCall::Cards) => r is ShowCards,
            Ok(_) => r matches CallStep::Answer(reply) && outcome_of(reply@) matches Err(error)
                && error is Endpoint,
            Err(failure) => r matches CallStep::Answer(reply) && outcome_of(reply@) == Err::<
                RepresentationView,
                ErrorView,
            >(ErrorView::Endpoint(error_text(failure@))),
        },
{
}

/// What the module decides without running anything, told by what the host reads: an unbound
/// target is unresolved; one resolved under a name the host was never told of is a failure that
/// gives both names; a caller that lacks a scope the endpoint's card demands is denied, and
/// told the scope and the target. In every other case the endpoint runs.
pub proof fn law_a_dispatch_runs_the_endpoint_or_says_why_not(
    resolution: &Resolution,
    rewrite: &ModuleRewrite,
    request: &Request,
    capability: &Capability,
    r: Option<ModuleReply>,
)
    requires
        call_ensures(dispatch, (resolution, rewrite, request, capability), r),
        iri_accepts(request@.target),
    ensures
        match resolution@ {
            ResolutionView::Miss => r matches Some(reply) && outcome_of(reply@) == Err::<
                RepresentationView,
                ErrorView,
            >(ErrorView::Unresolved(request@.target)),
            ResolutionView::Hit(card, canonical) => {
                let lacking = first_lacking(demanded(card, request@.verb), capability@);
                if rewrite@ !is Undeclarable && canonical is Some && canonical->0
                    != request@.target {
                    &&& r matches Some(reply)
                    &&& outcome_of(reply@) matches Err(ErrorView::Endpoint(message))
                    &&& mentions(message, request@.target)
                    &&& mentions(message, canonical->0)
                } else if lacking is Some {
                    &&& r matches Some(reply)
                    &&& outcome_of(reply@) matches Err(ErrorView::Denied(message))
                    &&& mentions(message, request@.target)
                    &&& mentions(message, lacking->0)
                } else {
                    r is None
                }
            },
        },
{
    if let ResolutionView::Hit(card, canonical) = resolution@ {
        if canonical is Some {
            lemma_undeclared_names(request@.target, canonical->0);
        }
        if let Some(scope) = first_lacking(demanded(card, request@.verb), capability@) {
            let target = request@.target;
            let a = "capability does not grant `"@;
            let b = "` (declared by `"@;
            let c = "`, inside the module)"@;
            lemma_mentions(a, scope, b);
            lemma_mentions_before(a + scope + b, scope, target);
            lemma_mentions_before(a + scope + b + target, scope, c);
            lemma_mentions(a + scope + b, target, c);
        }
    }
}

/// A callback within a session is issued as the very request it is, under exactly the authority
/// that both the session and the callback hold; any other reply ends the session with what it
/// means.
pub proof fn law_a_callback_is_issued_as_it_was_made(
    reply: ModuleReply,
    session: &Capability,
    r: ReplyStep,
    scope: Seq<char>,
)
    requires
        call_ensures(on_reply, (reply, session), r),
    ensures
        match reply {
            ModuleReply::HostCall { request: made, capability: carried } => {
                &&& r matches ReplyStep::Issue { request, capability }
                &&& request@.verb == made@.verb
                &&& request@.target == made@.target
                &&& request@.args == made@.args
                &&& grants(capability@, scope) <==> grants(session@, scope) && grants(
                    carried@,
                    scope,
                )
                &&& capability@ is None <==> session@ is None && carried@ is None
            },
            _ => r matches ReplyStep::Done(result) && outcome(result) == outcome_of(reply@),
        },
{
}

/// A session ends with exactly what the endpoint gave, whether or not the reply was encoded on
/// the way.
pub proof fn law_a_session_ends_with_what_the_endpoint_gave(
    result: Result<Representation, Error>,
    reply: ModuleReply,
    arrived: ModuleReply,
    session: &Capability,
    r: ReplyStep,
)
    requires
        call_ensures(crate::wire::reply_for, (result,), reply),
        arrived@ == reply@ || arrived@ == crossed(reply@),
        call_ensures(on_reply, (arrived, session), r),
        result matches Err(error) ==> is_failure(error@),
    ensures
        r matches ReplyStep::Done(end) && same_outcome(end, result),
{
    law_an_outcome_survives_the_boundary(outcome(result), reply@);
}

/// A host takes from the answer to its question exactly what was given: the manifest, or that
/// the module could not make sense of the question; and anything else is a failure.
pub proof fn law_a_manifest_is_taken_as_it_was_given(
    reply: ModuleReply,
    r: Result<Option<ModuleManifest>, Error>,
)
    requires
        call_ensures(manifest_answered, (reply,), r),
    ensures
        r matches Ok(Some(found)) <==> reply@ is Manifest,
        r matches Ok(Some(found)) ==> reply@ == ModuleReplyView::Manifest(found@),
        r matches Ok(None) <==> reply@ is Error,
        r matches Err(error) ==> error@ is Endpoint,
{
}

/// A host takes from the answer to its question exactly the cards that were given; a module
/// that could not make sense of the question has none, and anything else is a failure.
pub proof fn law_cards_are_taken_as_they_were_given(
    reply: ModuleReply,
    r: Result<Vec<ModuleCard>, Error>,
)
    requires
        call_ensures(cards_answered, (reply,), r),
    ensures
        r is Ok <==> reply@ is Cards || reply@ is Error,
        reply@ matches ModuleReplyView::Cards(cards) ==> r->Ok_0.deep_view() == cards,
        reply@ is Error ==> r->Ok_0.deep_view().len() == 0,
        r matches Err(error) ==> error@ is Endpoint,
{
}

/// What a peer over a socket gave is taken as it was given; a peer that gave something else, or
/// nothing, has given no manifest, no cards and no bindings.
pub proof fn law_a_peer_has_given_what_it_gave(
    reply: Option<ModuleReply>,
    manifest: Option<ModuleManifest>,
    cards: Vec<ModuleCard>,
    entries: Option<Vec<SpaceEntry>>,
)
    requires
        call_ensures(manifest_given, (reply,), manifest),
        call_ensures(cards_given, (reply,), cards),
        call_ensures(entries_given, (reply,), entries),
    ensures
        manifest is Some <==> reply is Some && reply->0@ is Manifest,
        manifest matches Some(found) ==> reply->0@ == ModuleReplyView::Manifest(found@),
        reply is Some && reply->0@ is Cards ==> reply->0@ == ModuleReplyView::Cards(
            cards.deep_view(),
        ),
        !(reply is Some && reply->0@ is Cards) ==> cards.deep_view().len() == 0,
        reply is Some && reply->0@ is Bindings ==> reply->0@ == ModuleReplyView::Bindings(
            entries.deep_view(),
        ),
        !(reply is Some && reply->0@ is Bindings) ==> entries is None,
{
}

/// A fault is a failure of the endpoint to whoever waits for an outcome, and says what it knows
/// of itself; so is a reply that cannot be encoded.
pub proof fn law_a_fault_is_a_failure_that_says_what_it_knows(
    fault: Fault,
    r: Error,
    reply: ModuleReply,
)
    requires
        call_ensures(Fault::error, (fault,), r),
        call_ensures(unencodable_reply, (), reply),
    ensures
        r@ matches ErrorView::Endpoint(message) && match fault {
            Fault::Unencodable(detail) => mentions(message, detail@),
            Fault::Undecodable(detail) => mentions(message, detail@),
            Fault::Socket(detail) => mentions(message, detail@),
            _ => true,
        },
        outcome_of(reply@) matches Err(error) && error is Endpoint,
{
    match fault {
        Fault::Unencodable(detail) => lemma_mentions_last(
            "module-protocol encode failed: "@,
            detail@,
        ),
        Fault::Undecodable(detail) => lemma_mentions_last(
            "module-protocol decode failed: "@,
            detail@,
        ),
        Fault::Socket(detail) => lemma_mentions_last("module socket transport: "@, detail@),
        _ => {},
    }
}

/// Two resolutions that are the same value found the same: the same card, under the same name.
pub proof fn law_a_resolution_is_all_that_was_found(a: Resolution, b: Resolution)
    requires
        a@ == b@,
    ensures
        match (a, b) {
            (
                Resolution::Hit { card: x, canonical: m },
                Resolution::Hit { card: y, canonical: n },
            ) => x@ == y@ && m.deep_view() == n.deep_view(),
            (Resolution::Miss, Resolution::Miss) => true,
            _ => false,
        },
{
}

/// Faults that know nothing more of themselves are told apart by what they say.
pub proof fn law_faults_are_told_apart(a: Fault, b: Fault, said: Error, told: Error)
    requires
        call_ensures(Fault::error, (a,), said),
        call_ensures(Fault::error, (b,), told),
        a is ClosedEarly || a is ChannelClosed || a is HostClosed,
        b is ClosedEarly || b is ChannelClosed || b is HostClosed,
    ensures
        said@ == told@ <==> (a is ClosedEarly <==> b is ClosedEarly) && (a is ChannelClosed
            <==> b is ChannelClosed),
{
    reveal_strlit("module closed the session early");
    reveal_strlit("module session channel closed");
    reveal_strlit("host closed the session");
    let early = "module closed the session early"@;
    let channel = "module session channel closed"@;
    let host = "host closed the session"@;
    assert(early.len() != channel.len() && channel.len() != host.len() && early.len()
        != host.len());
}

} // verus!
