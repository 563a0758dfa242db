//! The messages of a module session, and what each end makes of the other's.
//!
//! An invocation is a session: the module may call back to the host any number of times before
//! it replies. Failures keep their type and results keep their declared golden threads: each
//! end sends the plain message wherever it loses nothing, the fuller one otherwise.

use vstd::prelude::*;

use crate::card::{ModuleCard, ModuleCardView};
use crate::kernel::{
    ascending, copy_entries, error_text, transient, Capability, Error, ErrorView, Iri, Representation, RepresentationView,
    Request, RequestView, SpaceEntry, SpaceEntryView,
};
use crate::outside::iri_accepts;
use crate::rewrite::{ModuleManifest, ModuleManifestView};
use crate::text::copy_texts;

verus! {

// ---------------------------------------------------------------------------
// Failures.
// ---------------------------------------------------------------------------

/// A failure on the wire: a mirror of [`Error`], variant for variant, in an order that is part
/// of the encoding and only ever grows at the end.
#[derive(PartialEq, Eq, Debug)]
pub enum ModuleError {
    /// The module's space found no binding for the target, given as text.
    Unresolved(String),
    /// A required argument was absent.
    MissingArgument(String),
    /// An argument was present but unusable.
    InvalidArgument {
        /// The argument's name.
        name: String,
        /// What was wrong with it.
        detail: String,
    },
    /// The endpoint failed while producing its result.
    Endpoint(String),
    /// Permanent: the authority held does not allow it.
    Denied(String),
    /// Permanent: a bound endpoint reports the thing it fronts absent.
    NotFound(String),
    /// Transient: it took too long.
    Timeout(String),
    /// Transient: something it depends on is down.
    Unavailable(String),
}

impl View for ModuleError {
    type V = ErrorView;

    open spec fn view(&self) -> ErrorView {
        match self {
            ModuleError::Unresolved(iri) => ErrorView::Unresolved(iri@),
            ModuleError::MissingArgument(name) => ErrorView::MissingArgument(name@),
            ModuleError::InvalidArgument { name, detail } => ErrorView::InvalidArgument(
                name@,
                detail@,
            ),
            ModuleError::Endpoint(message) => ErrorView::Endpoint(message@),
            ModuleError::Denied(message) => ErrorView::Denied(message@),
            ModuleError::NotFound(message) => ErrorView::NotFound(message@),
            ModuleError::Timeout(message) => ErrorView::Timeout(message@),
            ModuleError::Unavailable(message) => ErrorView::Unavailable(message@),
        }
    }
}

impl Clone for ModuleError {
    fn clone(&self) -> (r: Self)
        ensures
            r@ == self@,
    {
        match self {
            ModuleError::Unresolved(iri) => ModuleError::Unresolved(iri.clone()),
            ModuleError::MissingArgument(name) => ModuleError::MissingArgument(name.clone()),
            ModuleError::InvalidArgument { name, detail } => ModuleError::InvalidArgument {
                name: name.clone(),
                detail: detail.clone(),
            },
            ModuleError::Endpoint(message) => ModuleError::Endpoint(message.clone()),
            ModuleError::Denied(message) => ModuleError::Denied(message.clone()),
            ModuleError::NotFound(message) => ModuleError::NotFound(message.clone()),
            ModuleError::Timeout(message) => ModuleError::Timeout(message.clone()),
            ModuleError::Unavailable(message) => ModuleError::Unavailable(message.clone()),
        }
    }
}

/// What a failure on the wire is to the side that receives it: the same, but for an unresolved
/// target whose text is no IRI.
pub open spec fn received(error: ErrorView) -> ErrorView {
    match error {
        ErrorView::Unresolved(text) if !iri_accepts(text) => ErrorView::Endpoint(
            "no endpoint resolved for "@ + text,
        ),
        _ => error,
    }
}

impl vstd::std_specs::convert::FromSpecImpl<&Error> for ModuleError {
    open spec fn obeys_from_spec() -> bool {
        false
    }

    open spec fn from_spec(error: &Error) -> Self {
        arbitrary()
    }
}

impl From<&Error> for ModuleError {
    fn from(error: &Error) -> (r: Self)
        ensures
            r@ == error@,
    {
        match error {
            Error::Unresolved(iri) => ModuleError::Unresolved(iri.as_str().to_owned()),
            Error::MissingArgument(name) => ModuleError::MissingArgument(name.clone()),
            Error::InvalidArgument { name, detail } => ModuleError::InvalidArgument {
                name: name.clone(),
                detail: detail.clone(),
            },
            Error::Endpoint(message) => ModuleError::Endpoint(message.clone()),
            Error::Denied(message) => ModuleError::Denied(message.clone()),
            Error::NotFound(message) => ModuleError::NotFound(message.clone()),
            Error::Timeout(message) => ModuleError::Timeout(message.clone()),
            Error::Unavailable(message) => ModuleError::Unavailable(message.clone()),
        }
    }
}

impl vstd::std_specs::convert::FromSpecImpl<ModuleError> for Error {
    open spec fn obeys_from_spec() -> bool {
        false
    }

    open spec fn from_spec(error: ModuleError) -> Self {
        arbitrary()
    }
}

impl From<ModuleError> for Error {
    fn from(error: ModuleError) -> (r: Self)
        ensures
            r@ == received(error@),
    {
        match error {
            ModuleError::Unresolved(text) => match Iri::parse(text.as_str()) {
                Some(iri) => Error::Unresolved(iri),
                None => {
                    let mut message = "no endpoint resolved for ".to_owned();
                    message.append(text.as_str());
                    Error::Endpoint(message)
                },
            },
            ModuleError::MissingArgument(name) => Error::MissingArgument(name),
            ModuleError::InvalidArgument { name, detail } => Error::InvalidArgument {
                name,
                detail,
            },
            ModuleError::Endpoint(message) => Error::Endpoint(message),
            ModuleError::Denied(message) => Error::Denied(message),
            ModuleError::NotFound(message) => Error::NotFound(message),
            ModuleError::Timeout(message) => Error::Timeout(message),
            ModuleError::Unavailable(message) => Error::Unavailable(message),
        }
    }
}

// ---------------------------------------------------------------------------
// Messages.
// ---------------------------------------------------------------------------

/// From the host to the module. The order is part of the encoding and only grows at the end.
#[derive(Debug)]
pub enum ModuleCall {
    /// Begin an invocation.
    Invoke {
        /// What is asked.
        request: Request,
        /// Under what authority.
        capability: Capability,
    },
    /// The answer to a callback: a success, or a failure that a text carries whole.
    HostResult(Result<Representation, String>),
    /// Ask for the bound entries.
    Describe,
    /// Ask for the manifest: the bound entries and how names are rewritten.
    Manifest,
    /// The answer to a callback that failed, its type kept.
    HostError(ModuleError),
    /// Ask for the card of every bound entry.
    Cards,
}

/// [`ModuleCall`] as a value.
pub enum ModuleCallView {
    /// Begin an invocation.
    Invoke(RequestView, Option<Set<Seq<char>>>),
    /// The answer to a callback: a success, or a failure that a text carries whole.
    HostResult(Result<RepresentationView, Seq<char>>),
    /// Ask for the bound entries.
    Describe,
    /// Ask for the manifest.
    Manifest,
    /// The answer to a callback that failed, its type kept.
    HostError(ErrorView),
    /// Ask for the card of every bound entry.
    Cards,
}

impl View for ModuleCall {
    type V = ModuleCallView;

    open spec fn view(&self) -> ModuleCallView {
        match self {
            ModuleCall::Invoke { request, capability } => ModuleCallView::Invoke(
                request@,
                capability@,
            ),
            ModuleCall::HostResult(Ok(representation)) => ModuleCallView::HostResult(
                Ok(representation@),
            ),
            ModuleCall::HostResult(Err(message)) => ModuleCallView::HostResult(Err(message@)),
            ModuleCall::Describe => ModuleCallView::Describe,
            ModuleCall::Manifest => ModuleCallView::Manifest,
            ModuleCall::HostError(error) => ModuleCallView::HostError(error@),
            ModuleCall::Cards => ModuleCallView::Cards,
        }
    }
}

impl Clone for ModuleCall {
    fn clone(&self) -> (r: Self)
        ensures
            r@ == self@,
    {
        match self {
            ModuleCall::Invoke { request, capability } => ModuleCall::Invoke {
                request: request.clone(),
                capability: capability.clone(),
            },
            ModuleCall::HostResult(Ok(representation)) => ModuleCall::HostResult(
                Ok(representation.clone()),
            ),
            ModuleCall::HostResult(Err(message)) => ModuleCall::HostResult(Err(message.clone())),
            ModuleCall::Describe => ModuleCall::Describe,
            ModuleCall::Manifest => ModuleCall::Manifest,
            ModuleCall::HostError(error) => ModuleCall::HostError(error.clone()),
            ModuleCall::Cards => ModuleCall::Cards,
        }
    }
}

/// From the module to the host. The order is part of the encoding and only grows at the end.
#[derive(Debug)]
pub enum ModuleReply {
    /// The module needs something resolved on the host.
    HostCall {
        /// What is asked.
        request: Request,
        /// Under what authority.
        capability: Capability,
    },
    /// The invocation gave a result that declares no golden thread.
    Resolved(Representation),
    /// The invocation failed, and a text carries the failure whole.
    Error(String),
    /// The bound entries.
    Bindings(Option<Vec<SpaceEntry>>),
    /// The manifest.
    Manifest(ModuleManifest),
    /// The invocation failed, the type of the failure kept.
    ErrorTyped(ModuleError),
    /// The invocation gave a result, and these are the golden threads declared on it: the
    /// encoding of a result leaves its own out.
    ResolvedThreaded {
        /// The result.
        representation: Representation,
        /// The names of the threads.
        threads: Vec<String>,
    },
    /// The cards of the bound entries.
    Cards(Vec<ModuleCard>),
}

/// [`ModuleReply`] as a value.
pub enum ModuleReplyView {
    /// The module needs something resolved on the host.
    HostCall(RequestView, Option<Set<Seq<char>>>),
    /// The invocation gave a result that declares no golden thread.
    Resolved(RepresentationView),
    /// The invocation failed, and a text carries the failure whole.
    Error(Seq<char>),
    /// The bound entries.
    Bindings(Option<Seq<SpaceEntryView>>),
    /// The manifest.
    Manifest(ModuleManifestView),
    /// The invocation failed, the type of the failure kept.
    ErrorTyped(ErrorView),
    /// The invocation gave a result, and these are the golden threads declared on it.
    ResolvedThreaded(RepresentationView, Seq<Seq<char>>),
    /// The cards of the bound entries.
    Cards(Seq<ModuleCardView>),
}

impl View for ModuleReply {
    type V = ModuleReplyView;

    open spec fn view(&self) -> ModuleReplyView {
        match self {
            ModuleReply::HostCall { request, capability } => ModuleReplyView::HostCall(
                request@,
                capability@,
            ),
            ModuleReply::Resolved(representation) => ModuleReplyView::Resolved(representation@),
            ModuleReply::Error(message) => ModuleReplyView::Error(message@),
            ModuleReply::Bindings(entries) => ModuleReplyView::Bindings(entries.deep_view()),
            ModuleReply::Manifest(manifest) => ModuleReplyView::Manifest(manifest@),
            ModuleReply::ErrorTyped(error) => ModuleReplyView::ErrorTyped(error@),
            ModuleReply::ResolvedThreaded { representation, threads } => {
                ModuleReplyView::ResolvedThreaded(representation@, threads.deep_view())
            },
            ModuleReply::Cards(cards) => ModuleReplyView::Cards(cards.deep_view()),
        }
    }
}

impl Clone for ModuleReply {
    fn clone(&self) -> (r: Self)
        ensures
            r@ == self@,
    {
        match self {
            ModuleReply::HostCall { request, capability } => ModuleReply::HostCall {
                request: request.clone(),
                capability: capability.clone(),
            },
            ModuleReply::Resolved(representation) => ModuleReply::Resolved(representation.clone()),
            ModuleReply::Error(message) => ModuleReply::Error(message.clone()),
            ModuleReply::Bindings(entries) => ModuleReply::Bindings(copy_entries(entries)),
            ModuleReply::Manifest(manifest) => ModuleReply::Manifest(manifest.clone()),
            ModuleReply::ErrorTyped(error) => ModuleReply::ErrorTyped(error.clone()),
            ModuleReply::ResolvedThreaded { representation, threads } => {
                ModuleReply::ResolvedThreaded {
                    representation: representation.clone(),
                    threads: copy_texts(threads),
                }
            },
            ModuleReply::Cards(cards) => {
                let copy = cards.clone();
                assert(copy.deep_view() =~= cards.deep_view());
                ModuleReply::Cards(copy)
            },
        }
    }
}

/// An outcome as a value.
pub open spec fn outcome(result: Result<Representation, Error>) -> Result<
    RepresentationView,
    ErrorView,
> {
    match result {
        Ok(representation) => Ok(representation@),
        Err(error) => Err(error@),
    }
}

/// Whether `reply` is how a module answers with `result`: the plain form exactly where it
/// loses nothing, the threads listed once each in dictionary order.
pub open spec fn replies(
    result: Result<RepresentationView, ErrorView>,
    reply: ModuleReplyView,
) -> bool {
    match result {
        Ok(representation) => if representation.threads =~= Set::empty() {
            reply == ModuleReplyView::Resolved(representation)
        } else {
            &&& reply matches ModuleReplyView::ResolvedThreaded(carried, threads)
            &&& carried == representation
            &&& ascending(threads)
            &&& threads.to_set() == representation.threads
        },
        Err(ErrorView::Endpoint(message)) => reply == ModuleReplyView::Error(message),
        Err(error) => reply == ModuleReplyView::ErrorTyped(error),
    }
}

/// What a module's final reply means to the host.
pub open spec fn outcome_of(reply: ModuleReplyView) -> Result<RepresentationView, ErrorView> {
    match reply {
        ModuleReplyView::Resolved(representation) => Ok(representation),
        ModuleReplyView::ResolvedThreaded(representation, threads) => Ok(
            RepresentationView {
                threads: representation.threads.union(threads.to_set()),
                ..representation
            },
        ),
        ModuleReplyView::Error(message) => Err(ErrorView::Endpoint(message)),
        ModuleReplyView::ErrorTyped(error) => Err(received(error)),
        ModuleReplyView::HostCall(..) => Err(
            ErrorView::Endpoint("module made a HostCall where a final reply was expected"@),
        ),
        _ => Err(ErrorView::Endpoint("module answered Invoke with a description"@)),
    }
}

/// How a host answers a callback with `result`.
pub open spec fn answer_for(result: Result<RepresentationView, ErrorView>) -> ModuleCallView {
    match result {
        Ok(representation) => ModuleCallView::HostResult(Ok(representation)),
        Err(ErrorView::Endpoint(message)) => ModuleCallView::HostResult(Err(message)),
        Err(error) => ModuleCallView::HostError(error),
    }
}

/// What a host's answer to a callback means to the module.
pub open spec fn answer_of(call: ModuleCallView) -> Result<RepresentationView, ErrorView> {
    match call {
        ModuleCallView::HostResult(Ok(representation)) => Ok(representation),
        ModuleCallView::HostResult(Err(message)) => Err(ErrorView::Endpoint(message)),
        ModuleCallView::HostError(error) => Err(received(error)),
        _ => Err(ErrorView::Endpoint("expected HostResult answering a HostCall"@)),
    }
}

/// The module's reply for an endpoint's outcome.
pub fn reply_for(result: Result<Representation, Error>) -> (r: ModuleReply)
    ensures
        replies(outcome(result), r@),
{
    match result {
        Ok(representation) => {
            let threads = copy_texts(representation.threads.names());
            if threads.len() == 0 {
                assert(threads.deep_view().to_set() =~= Set::<Seq<char>>::empty());
                ModuleReply::Resolved(representation)
            } else {
                assert(threads.deep_view().to_set().contains(threads.deep_view()[0]));
                ModuleReply::ResolvedThreaded { representation, threads }
            }
        },
        Err(Error::Endpoint(message)) => ModuleReply::Error(message),
        Err(other) => ModuleReply::ErrorTyped(ModuleError::from(&other)),
    }
}

/// What a module's final reply means: the result with its declared threads attached, or the
/// failure.
pub fn outcome_from(reply: ModuleReply) -> (r: Result<Representation, Error>)
    ensures
        outcome(r) == outcome_of(reply@),
{
    match reply {
        ModuleReply::Resolved(representation) => Ok(representation),
        ModuleReply::ResolvedThreaded { representation, threads } => Ok(
            representation.depends_on_all(&threads),
        ),
        ModuleReply::Error(message) => Err(Error::Endpoint(message)),
        ModuleReply::ErrorTyped(error) => Err(Error::from(error)),
        ModuleReply::HostCall { .. } => Err(
            Error::Endpoint("module made a HostCall where a final reply was expected".to_owned()),
        ),
        ModuleReply::Bindings(_) | ModuleReply::Manifest(_) | ModuleReply::Cards(_) => Err(
            Error::Endpoint("module answered Invoke with a description".to_owned()),
        ),
    }
}

/// The host's answer to a callback.
pub fn host_answer(result: Result<Representation, Error>) -> (r: ModuleCall)
    ensures
        r@ == answer_for(outcome(result)),
{
    match result {
        Ok(representation) => ModuleCall::HostResult(Ok(representation)),
        Err(Error::Endpoint(message)) => ModuleCall::HostResult(Err(message)),
        Err(other) => ModuleCall::HostError(ModuleError::from(&other)),
    }
}

/// What the host's answer to a callback means.
pub fn answer_from(call: ModuleCall) -> (r: Result<Representation, Error>)
    ensures
        outcome(r) == answer_of(call@),
{
    match call {
        ModuleCall::HostResult(Ok(representation)) => Ok(representation),
        ModuleCall::HostResult(Err(message)) => Err(Error::Endpoint(message)),
        ModuleCall::HostError(error) => Err(Error::from(error)),
        ModuleCall::Invoke { .. }
        | ModuleCall::Describe
        | ModuleCall::Manifest
        | ModuleCall::Cards => Err(
            Error::Endpoint("expected HostResult answering a HostCall".to_owned()),
        ),
    }
}

// ---------------------------------------------------------------------------
// Laws.
// ---------------------------------------------------------------------------

/// A reply after the encoding: a result's own threads do not cross.
pub open spec fn crossed(reply: ModuleReplyView) -> ModuleReplyView {
    match reply {
        ModuleReplyView::Resolved(representation) => ModuleReplyView::Resolved(
            RepresentationView { threads: Set::empty(), ..representation },
        ),
        ModuleReplyView::ResolvedThreaded(representation, threads) => {
            ModuleReplyView::ResolvedThreaded(
                RepresentationView { threads: Set::empty(), ..representation },
                threads,
            )
        },
        _ => reply,
    }
}

/// A call after the encoding: of a host's answer, too, a result's own threads do not cross.
pub open spec fn crossed_call(call: ModuleCallView) -> ModuleCallView {
    match call {
        ModuleCallView::HostResult(Ok(representation)) => ModuleCallView::HostResult(
            Ok(RepresentationView { threads: Set::empty(), ..representation }),
        ),
        _ => call,
    }
}

/// Whether a failure is one a kernel can raise: an unresolved target is an IRI.
pub open spec fn is_failure(error: ErrorView) -> bool {
    error matches ErrorView::Unresolved(text) ==> iri_accepts(text)
}

/// A failure crosses and comes back as the variant it was, whether it is transient included.
pub proof fn law_a_failure_keeps_its_type(error: ErrorView)
    requires
        is_failure(error),
    ensures
        received(error) == error,
        transient(received(error)) == transient(error),
{
}

/// Whatever text an unresolved target crossed as, what is received is permanent, as it was.
pub proof fn law_reception_never_makes_a_failure_transient(error: ErrorView)
    ensures
        transient(received(error)) == transient(error),
{
}

/// An endpoint's outcome is what the host reads in the reply, threads and type of failure
/// included, whether or not the reply was encoded on the way.
pub proof fn law_an_outcome_survives_the_boundary(
    result: Result<RepresentationView, ErrorView>,
    reply: ModuleReplyView,
)
    requires
        replies(result, reply),
        result matches Err(error) ==> is_failure(error),
    ensures
        outcome_of(reply) == result,
        outcome_of(crossed(reply)) == result,
{
    match result {
        Ok(representation) => {
            if representation.threads =~= Set::empty() {
                assert(crossed(reply) == ModuleReplyView::Resolved(representation));
            } else {
                let threads = reply->ResolvedThreaded_1;
                assert(representation.threads.union(threads.to_set()) =~= representation.threads);
                assert(Set::<Seq<char>>::empty().union(threads.to_set())
                    =~= representation.threads);
            }
        },
        Err(_) => {},
    }
}

/// What the host answers a callback with is what the module reads, type of failure included,
/// as long as the answer is not encoded.
pub proof fn law_an_answer_survives_the_boundary(result: Result<RepresentationView, ErrorView>)
    requires
        result matches Err(error) ==> is_failure(error),
    ensures
        answer_of(answer_for(result)) == result,
{
}

/// What the module reads in an answer that was encoded: a result without its threads, which
/// the host keeps account of, and a failure as it was, its type included.
pub proof fn law_an_encoded_answer_loses_only_threads(result: Result<RepresentationView, ErrorView>)
    requires
        result matches Err(error) ==> is_failure(error),
    ensures
        answer_of(crossed_call(answer_for(result))) == (match result {
            Ok(representation) => Ok(
                RepresentationView { threads: Set::empty(), ..representation },
            ),
            Err(error) => Err::<RepresentationView, ErrorView>(error),
        }),
{
}

/// The plain forms are used exactly where they lose nothing: for a result without threads, and
/// for a failure that is nothing but a text.
pub proof fn law_plain_exactly_where_lossless(
    result: Result<RepresentationView, ErrorView>,
    reply: ModuleReplyView,
)
    requires
        replies(result, reply),
    ensures
        reply is Resolved <==> (result matches Ok(representation) && representation.threads
            == Set::<Seq<char>>::empty()),
        reply is Error <==> (result matches Err(error) && error is Endpoint),
        reply is ResolvedThreaded <==> (result matches Ok(representation)
            && representation.threads != Set::<Seq<char>>::empty()),
        reply is ErrorTyped <==> (result matches Err(error) && error !is Endpoint),
        answer_for(result) is HostError <==> (result matches Err(error) && error !is Endpoint),
{
}

/// Whether two outcomes are the same: the same result, threads and expiry included, or the
/// same failure, its type included.
pub open spec fn same_outcome(
    a: Result<Representation, Error>,
    b: Result<Representation, Error>,
) -> bool {
    match (a, b) {
        (Ok(x), Ok(y)) => x@ == y@,
        (Err(x), Err(y)) => x@ == y@,
        _ => false,
    }
}

/// Whatever an endpoint gives, a module's reply for it is read back as that, and still is once
/// the encoding has dropped what it drops.
pub proof fn law_a_reply_is_read_as_what_it_was_made_for(
    result: Result<Representation, Error>,
    reply: ModuleReply,
    encoded: ModuleReply,
    read: Result<Representation, Error>,
    read_encoded: Result<Representation, Error>,
)
    requires
        call_ensures(reply_for, (result,), reply),
        encoded@ == crossed(reply@),
        call_ensures(outcome_from, (reply,), read),
        call_ensures(outcome_from, (encoded,), read_encoded),
        result matches Err(error) ==> is_failure(error@),
    ensures
        same_outcome(read, result),
        same_outcome(read_encoded, result),
{
    law_an_outcome_survives_the_boundary(outcome(result), reply@);
}

/// A result with threads listed beside it is the result, depending on those threads as well;
/// and a reply that is no outcome of an invocation is read as a failure of the module's.
pub proof fn law_a_reply_means_what_it_carries(
    reply: ModuleReply,
    read: Result<Representation, Error>,
    thread: Seq<char>,
)
    requires
        call_ensures(outcome_from, (reply,), read),
    ensures
        match reply@ {
            ModuleReplyView::Resolved(given) => read matches Ok(result) && result@ == given,
            ModuleReplyView::ResolvedThreaded(given, threads) => {
                &&& read matches Ok(result)
                &&& result@ == (RepresentationView { threads: result@.threads, ..given })
                &&& result@.threads.contains(thread) <==> given.threads.contains(thread)
                    || threads.contains(thread)
            },
            ModuleReplyView::Error(message) => read matches Err(error) && error@
                == ErrorView::Endpoint(message),
            ModuleReplyView::ErrorTyped(given) => read matches Err(error) && (is_failure(given)
                ==> error@ == given) && transient(error@) == transient(given),
            _ => read matches Err(error) && error@ is Endpoint,
        },
{
}

/// A module reads in the host's answer exactly what the host answered with; a call that is no
/// answer is read as a failure.
pub proof fn law_an_answer_is_read_as_what_it_was_made_for(
    result: Result<Representation, Error>,
    answer: ModuleCall,
    read: Result<Representation, Error>,
    other: ModuleCall,
    misread: Result<Representation, Error>,
)
    requires
        call_ensures(host_answer, (result,), answer),
        call_ensures(answer_from, (answer,), read),
        result matches Err(error) ==> is_failure(error@),
        call_ensures(answer_from, (other,), misread),
        other@ !is HostResult,
        other@ !is HostError,
    ensures
        same_outcome(read, result),
        misread matches Err(error) && error@ is Endpoint,
{
    law_an_answer_survives_the_boundary(outcome(result));
}

/// A failure put on the wire is taken off it as the failure it was.
pub proof fn law_a_failure_goes_over_the_wire_and_back(
    error: &Error,
    wire: ModuleError,
    back: Error,
)
    requires
        call_ensures(<ModuleError as From<&Error>>::from, (error,), wire),
        call_ensures(<Error as From<ModuleError>>::from, (wire,), back),
        is_failure(error@),
    ensures
        wire@ == error@,
        back@ == error@,
{
}

/// An unresolved target that is no IRI is received as a failure that says of it what an
/// unresolved target says of itself; every other failure is received as it is.
pub proof fn law_a_target_that_is_no_iri_is_still_told(wire: ModuleError, r: Error)
    requires
        call_ensures(<Error as From<ModuleError>>::from, (wire,), r),
    ensures
        wire@ matches ErrorView::Unresolved(text) ==> (!iri_accepts(text) ==> r@
            == ErrorView::Endpoint(error_text(wire@))),
        wire@ !is Unresolved ==> r@ == wire@,
{
}

/// A copied failure carries all that the copied one does.
pub proof fn law_a_copied_failure_carries_the_same(error: &ModuleError, r: ModuleError)
    requires
        call_ensures(<ModuleError as Clone>::clone, (error,), r),
    ensures
        match (*error, r) {
            (ModuleError::Unresolved(x), ModuleError::Unresolved(y)) => x@ == y@,
            (ModuleError::MissingArgument(x), ModuleError::MissingArgument(y)) => x@ == y@,
            (
                ModuleError::InvalidArgument { name: m, detail: x },
                ModuleError::InvalidArgument { name: n, detail: y },
            ) => m@ == n@ && x@ == y@,
            (ModuleError::Endpoint(x), ModuleError::Endpoint(y)) => x@ == y@,
            (ModuleError::Denied(x), ModuleError::Denied(y)) => x@ == y@,
            (ModuleError::NotFound(x), ModuleError::NotFound(y)) => x@ == y@,
            (ModuleError::Timeout(x), ModuleError::Timeout(y)) => x@ == y@,
            (ModuleError::Unavailable(x), ModuleError::Unavailable(y)) => x@ == y@,
            _ => false,
        },
{
    assert(r@ == error@);
}

/// A copied call carries all that the copied one does.
pub proof fn law_a_copied_call_carries_the_same(call: &ModuleCall, r: ModuleCall)
    requires
        call_ensures(<ModuleCall as Clone>::clone, (call,), r),
    ensures
        match (*call, r) {
            (
                ModuleCall::Invoke { request: a, capability: c },
                ModuleCall::Invoke { request: b, capability: d },
            ) => a@ == b@ && c@ == d@,
            (ModuleCall::HostResult(Ok(a)), ModuleCall::HostResult(Ok(b))) => a@ == b@,
            (ModuleCall::HostResult(Err(a)), ModuleCall::HostResult(Err(b))) => a@ == b@,
            (ModuleCall::Describe, ModuleCall::Describe) => true,
            (ModuleCall::Manifest, ModuleCall::Manifest) => true,
            (ModuleCall::HostError(a), ModuleCall::HostError(b)) => a@ == b@,
            (ModuleCall::Cards, ModuleCall::Cards) => true,
            _ => false,
        },
{
    assert(r@ == call@);
}

/// A copied reply carries all that the copied one does.
pub proof fn law_a_copied_reply_carries_the_same(reply: &ModuleReply, r: ModuleReply)
    requires
        call_ensures(<ModuleReply as Clone>::clone, (reply,), r),
    ensures
        match (*reply, r) {
            (
                ModuleReply::HostCall { request: a, capability: c },
                ModuleReply::HostCall { request: b, capability: d },
            ) => a@ == b@ && c@ == d@,
            (ModuleReply::Resolved(a), ModuleReply::Resolved(b)) => a@ == b@,
            (ModuleReply::Error(a), ModuleReply::Error(b)) => a@ == b@,
            (ModuleReply::Bindings(a), ModuleReply::Bindings(b)) => a.deep_view() == b.deep_view(),
            (ModuleReply::Manifest(a), ModuleReply::Manifest(b)) => a@ == b@,
            (ModuleReply::ErrorTyped(a), ModuleReply::ErrorTyped(b)) => a@ == b@,
            (
                ModuleReply::ResolvedThreaded { representation: a, threads: c },
                ModuleReply::ResolvedThreaded { representation: b, threads: d },
            ) => a@ == b@ && c.deep_view() == d.deep_view(),
            (ModuleReply::Cards(a), ModuleReply::Cards(b)) => a.deep_view() == b.deep_view(),
            _ => false,
        },
{
    assert(r@ == reply@);
}

} // verus!
