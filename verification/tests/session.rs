//! Sessions, step by step.

use ikigai_module::card::{Description, ModuleCard};
use ikigai_module::cards::Answer;
use ikigai_module::host_side::{HostAction, HostEvent, HostSession};
use ikigai_module::kernel::{
    Capability, Error, Expiry, Iri, ReprType, Representation, Request, SpaceEntry, Verb,
};
use ikigai_module::module_side::{ModuleAction, ModuleEvent, ModuleSession};
use ikigai_module::provenance::{answered, finished, outcome_with, DepSink, DepSinks};
use ikigai_module::rewrite::{ModuleManifest, ModuleRewrite};
use ikigai_module::session::{
    cards_answered, cards_given, dispatch, entries_given, manifest_answered, manifest_given, on_call,
    on_reply, serve_host_call, unencodable_reply, CallStep, Fault, Receiver, ReplyStep, Resolution,
    ServeStep,
};
use ikigai_module::wire::{
    answer_from, host_answer, outcome_from, reply_for, ModuleCall, ModuleError, ModuleReply,
};

const READ: &str = "urn:cap:demo:read";
const GREET: &str = "urn:cap:demo:greet";

fn iri(text: &str) -> Iri {
    Iri::parse(text).unwrap()
}

fn scoped(scopes: &[&str]) -> Capability {
    Capability::scoped(scopes.iter().map(|s| s.to_string()).collect())
}

fn source(target: &str) -> Request {
    Request::new(Verb::Source, iri(target))
}

fn plain(bytes: &[u8]) -> Representation {
    Representation::new(ReprType::new("text/plain"), bytes.to_vec())
}

fn gated() -> Resolution {
    let mut card = Description::new("stub-greet");
    card.title = "Greet (gated test stub)".to_string();
    card.verbs = vec![Verb::Source];
    card.scopes = vec![GREET.to_string()];
    Resolution::Hit {
        card,
        canonical: None,
    }
}

/// The host's two resources, permanently cacheable, each depending on itself.
fn host_resource(request: &Request) -> Result<Representation, Error> {
    let body: &[u8] = match request.target.as_str() {
        "urn:test:greeting" => b"hello, ",
        "urn:test:subject" => b"module",
        _ => return Err(Error::Unresolved(request.target.clone())),
    };
    Ok(plain(body)
        .with_expiry(Expiry::Never)
        .depends_on(request.target.as_str()))
}

/// The module's endpoint: joins the two resources it calls back for.
fn concat(
    request: &Request,
    mut call_back: impl FnMut(ModuleReply) -> ModuleCall,
) -> Result<Representation, Error> {
    let mut out = Vec::new();
    for target in ["urn:test:greeting", "urn:test:subject"] {
        let answer = call_back(ModuleReply::HostCall {
            request: source(target),
            capability: Capability::root(),
        });
        out.extend_from_slice(&answer_from(answer)?.bytes);
    }
    Ok(plain(&out)
        .with_expiry(Expiry::Never)
        .depends_on(request.target.as_str()))
}

/// The module side of one call.
fn module_side(call: ModuleCall, call_back: impl FnMut(ModuleReply) -> ModuleCall) -> ModuleReply {
    let CallStep::Dispatch {
        request,
        capability,
    } = on_call(Ok(call), Receiver::Module)
    else {
        panic!("an Invoke is dispatched");
    };
    let mut card = Description::new("stub-concat");
    card.verbs = vec![Verb::Source];
    let resolution = Resolution::Hit {
        card,
        canonical: None,
    };
    match dispatch(&resolution, &ModuleRewrite::Unknown, &request, &capability) {
        Some(reply) => reply,
        None => reply_for(concat(&request, call_back)),
    }
}

fn invoke() -> ModuleCall {
    ModuleCall::Invoke {
        request: source("urn:stub:concat"),
        capability: Capability::root(),
    }
}

#[test]
fn run_session_pumps_host_calls_through_a_closure() {
    let session = Capability::root();
    let reply = module_side(invoke(), |reply| match on_reply(reply, &session) {
        ReplyStep::Issue { request, .. } => host_answer(host_resource(&request)),
        ReplyStep::Done(_) => panic!("expected HostCall"),
    });
    let rep = outcome_from(reply).expect("the session resolved");
    assert_eq!(String::from_utf8(rep.bytes.clone()).unwrap(), "hello, module");
    assert_eq!(rep.threads.names(), &["urn:stub:concat"]);
}

#[test]
fn wasm_module_space_drives_a_session_with_out_of_band_callbacks() {
    let mut sinks = DepSinks::new();
    let id: u64 = sinks.install_sink();
    let reply = module_side(invoke(), |reply| match serve_host_call(Ok(reply)) {
        ServeStep::Resolve { request, .. } => answered(&mut sinks, host_resource(&request)),
        ServeStep::Answer(answer) => answer,
    });
    let rep = finished(&mut sinks, id, Ok(reply)).expect("wasm invoke");
    assert!(sinks.sinks.is_empty());
    assert_eq!(String::from_utf8(rep.bytes.clone()).unwrap(), "hello, module");
    assert_eq!(rep.expiry, Expiry::Never);
    assert_eq!(
        rep.threads.names(),
        &["urn:stub:concat", "urn:test:greeting", "urn:test:subject"]
    );
}

#[test]
fn a_failure_is_left_as_it_is_whatever_was_collected() {
    let mut collected = DepSink::default();
    collected.record(&plain(b"x").depends_on("urn:a"));
    let reply = ModuleReply::ErrorTyped(ModuleError::Timeout("slow".to_string()));
    assert_eq!(
        outcome_with(reply, &collected).unwrap_err(),
        Error::Timeout("slow".to_string())
    );
}

#[test]
fn a_callback_that_fails_comes_back_typed() {
    let answer = module_side(invoke(), |reply| match on_reply(reply, &Capability::root()) {
        ReplyStep::Issue { .. } => host_answer(Err(Error::NotFound("gone".into()))),
        ReplyStep::Done(_) => panic!("expected HostCall"),
    });
    assert_eq!(
        outcome_from(answer).unwrap_err(),
        Error::NotFound("gone".into())
    );
}

#[test]
fn a_callback_is_issued_under_no_more_than_the_session() {
    let session = scoped(&[READ]);
    let step = on_reply(
        ModuleReply::HostCall {
            request: source("urn:a:b"),
            capability: Capability::root(),
        },
        &session,
    );
    let ReplyStep::Issue {
        request,
        capability,
    } = step
    else {
        panic!("a callback is issued");
    };
    assert_eq!(request, source("urn:a:b"));
    assert!(capability.allows(READ));
    assert!(!capability.allows(GREET));
    let step = on_reply(
        ModuleReply::HostCall {
            request: source("urn:a:b"),
            capability: scoped(&[GREET]),
        },
        &session,
    );
    let ReplyStep::Issue { capability, .. } = step else {
        panic!("a callback is issued");
    };
    assert!(!capability.allows(READ));
    assert!(!capability.allows(GREET));
}

#[test]
fn any_other_reply_ends_the_session() {
    let ReplyStep::Done(result) = on_reply(ModuleReply::Resolved(plain(b"x")), &Capability::root())
    else {
        panic!("the session is over");
    };
    assert_eq!(result.unwrap().bytes, b"x");
    let ReplyStep::Done(result) = on_reply(ModuleReply::Bindings(None), &Capability::root()) else {
        panic!("the session is over");
    };
    assert_eq!(
        result.unwrap_err(),
        Error::Endpoint("module answered Invoke with a description".into())
    );
}

#[test]
fn the_other_questions_are_told_apart() {
    assert!(matches!(
        on_call(Ok(ModuleCall::Manifest), Receiver::Server),
        CallStep::ShowManifest
    ));
    assert!(matches!(
        on_call(Ok(ModuleCall::Cards), Receiver::Server),
        CallStep::ShowCards
    ));
}

fn told(step: CallStep) -> String {
    match step {
        CallStep::Answer(ModuleReply::Error(text)) => text,
        other => panic!("expected an error, got {other:?}"),
    }
}

#[test]
fn an_answer_nobody_asked_for_is_refused_by_name() {
    let early = || Ok(ModuleCall::HostResult(Err("x".to_string())));
    assert_eq!(
        told(on_call(early(), Receiver::Module)),
        "module received HostResult before Invoke"
    );
    assert_eq!(
        told(on_call(early(), Receiver::Server)),
        "server received HostResult before Invoke"
    );
    let typed = Ok(ModuleCall::HostError(ModuleError::Denied("x".to_string())));
    assert_eq!(
        told(on_call(typed, Receiver::Module)),
        "module received HostResult before Invoke"
    );
}

#[test]
fn a_call_that_cannot_be_decoded_is_answered() {
    let fault = Fault::Undecodable("Hit the end of buffer".to_string());
    assert_eq!(
        told(on_call(Err(fault.error()), Receiver::Module)),
        "endpoint error: module-protocol decode failed: Hit the end of buffer"
    );
}

#[test]
fn every_fault_has_its_text() {
    for (fault, text) in [
        (
            Fault::Unencodable("e".to_string()),
            "module-protocol encode failed: e",
        ),
        (
            Fault::Undecodable("e".to_string()),
            "module-protocol decode failed: e",
        ),
        (Fault::ClosedEarly, "module closed the session early"),
        (Fault::ChannelClosed, "module session channel closed"),
        (Fault::HostClosed, "host closed the session"),
        (
            Fault::Socket("refused".to_string()),
            "module socket transport: refused",
        ),
    ] {
        assert_eq!(fault.error(), Error::Endpoint(text.to_string()));
    }
    assert!(
        matches!(unencodable_reply(), ModuleReply::Error(text) if text == "module reply encode failed")
    );
}

#[test]
fn a_module_side_refusal_is_a_typed_denied_over_every_transport() {
    let mut card = Description::new("gated");
    card.verbs = vec![Verb::Source];
    card.scopes = vec![READ.to_string()];
    let resolution = Resolution::Hit {
        card,
        canonical: None,
    };
    let request = source("urn:mod:gated");
    let reply = dispatch(&resolution, &ModuleRewrite::Unknown, &request, &scoped(&[])).unwrap();
    let denial = outcome_from(reply).unwrap_err();
    assert!(matches!(denial, Error::Denied(_)), "{denial:?}");
    assert!(!denial.is_transient());
    assert!(denial.text().contains(READ), "{denial:?}");
    assert!(
        denial.text().contains("inside the module"),
        "the refusal names its side: {denial:?}"
    );
    assert!(dispatch(&resolution, &ModuleRewrite::Unknown, &request, &scoped(&[READ])).is_none());
}

#[test]
fn an_unbound_target_is_unresolved_at_the_host() {
    let request = source("urn:mod:nothing");
    let reply = dispatch(
        &Resolution::Miss,
        &ModuleRewrite::Unknown,
        &request,
        &Capability::root(),
    )
    .unwrap();
    assert_eq!(
        outcome_from(reply).unwrap_err(),
        Error::Unresolved(iri("urn:mod:nothing"))
    );
}

#[test]
fn the_identity_guard_comes_before_the_authority_guard() {
    let Resolution::Hit { card, .. } = gated() else {
        panic!("a hit");
    };
    let both = Resolution::Hit {
        card,
        canonical: Some(iri("urn:stub:other")),
    };
    let reply = dispatch(
        &both,
        &ModuleRewrite::AsGiven,
        &source("urn:stub:greet"),
        &scoped(&[]),
    );
    assert!(matches!(reply, Some(ModuleReply::Error(_))), "{reply:?}");
}

#[test]
fn a_callback_out_of_band_is_resolved_or_answered() {
    let step = serve_host_call(Ok(ModuleReply::HostCall {
        request: source("urn:a:b"),
        capability: scoped(&[READ]),
    }));
    let ServeStep::Resolve {
        request,
        capability,
    } = step
    else {
        panic!("a callback is resolved");
    };
    assert_eq!(request, source("urn:a:b"));
    assert!(capability.allows(READ));
    let answer = |step: ServeStep| match step {
        ServeStep::Answer(call) => answer_from(call).unwrap_err(),
        other => panic!("expected an answer, got {other:?}"),
    };
    assert_eq!(
        answer(serve_host_call(Ok(ModuleReply::Bindings(None)))),
        Error::Endpoint("serve_host_call: expected a HostCall".to_string())
    );
    assert_eq!(
        answer(serve_host_call(Err(Fault::Undecodable("e".to_string()).error()))),
        Error::Endpoint(
            "serve_host_call: undecodable HostCall: endpoint error: module-protocol decode \
             failed: e"
                .to_string()
        )
    );
}

#[test]
fn a_peer_that_cannot_say_is_not_one_that_says_nothing() {
    let manifest = || ModuleManifest::new(None, ModuleRewrite::AsGiven);
    assert_eq!(
        manifest_answered(ModuleReply::Manifest(manifest())),
        Ok(Some(manifest()))
    );
    assert_eq!(
        manifest_answered(ModuleReply::Error("what?".to_string())),
        Ok(None)
    );
    assert_eq!(
        manifest_answered(ModuleReply::Bindings(None)),
        Err(Error::Endpoint(
            "module answered Manifest with something else".to_string()
        ))
    );
    assert_eq!(
        manifest_given(Some(ModuleReply::Manifest(manifest()))),
        Some(manifest())
    );
    assert_eq!(manifest_given(Some(ModuleReply::Bindings(None))), None);
    assert_eq!(manifest_given(None), None);
}

#[test]
fn a_peer_without_cards_has_none() {
    let cards = || {
        vec![ModuleCard {
            entry: SpaceEntry::new("urn:a:b", "b"),
            description: Description::new("b"),
        }]
    };
    assert_eq!(cards_answered(ModuleReply::Cards(cards())), Ok(cards()));
    assert_eq!(
        cards_answered(ModuleReply::Error("what?".to_string())),
        Ok(Vec::new())
    );
    assert_eq!(
        cards_answered(ModuleReply::Bindings(None)),
        Err(Error::Endpoint(
            "module answered Cards with something else".to_string()
        ))
    );
    assert_eq!(cards_given(Some(ModuleReply::Cards(cards()))), cards());
    assert_eq!(cards_given(Some(ModuleReply::Bindings(None))), Vec::new());
    assert_eq!(cards_given(None), Vec::new());
    assert_eq!(entries_given(Some(ModuleReply::Cards(cards()))), None);
    assert_eq!(entries_given(None), None);
}

/// The host's side, as one that waits for a reply.
fn waiting(host: HostSession) -> HostSession {
    match host.step(HostEvent::Sent) {
        (host, HostAction::Receive) => host,
        (_, other) => panic!("expected to wait, got {other:?}"),
    }
}

#[test]
fn both_sides_of_a_session_step_to_one_outcome() {
    let host = HostSession::new(source("urn:stub:concat"), scoped(&[READ]));
    let (host, HostAction::Send(call)) = host.step(HostEvent::Begin) else {
        panic!("the session begins with a call");
    };
    let module = ModuleSession::new(ModuleRewrite::Unknown, Receiver::Module);
    let (module, ModuleAction::Resolve { request, capability }) =
        module.step(ModuleEvent::Called(Ok(call)))
    else {
        panic!("a call to invoke is resolved");
    };
    assert_eq!(request, source("urn:stub:concat"));
    assert!(capability.allows(READ));
    assert!(!capability.allows(GREET));
    let resolution = Resolution::Hit {
        card: Description::new("stub-concat"),
        canonical: None,
    };
    let (module, ModuleAction::Invoke) = module.step(ModuleEvent::Resolved(resolution)) else {
        panic!("nothing keeps the endpoint from running");
    };
    let mut side = Some(host);
    let result = concat(&request, |callback| {
        let host = waiting(side.take().unwrap());
        let (host, HostAction::Issue { request, capability }) =
            host.step(HostEvent::Received(callback))
        else {
            panic!("a callback is issued");
        };
        assert!(!capability.allows(GREET), "never more than the session");
        let (host, HostAction::Send(answer)) =
            host.step(HostEvent::Issued(host_resource(&request)))
        else {
            panic!("a callback is answered");
        };
        side = Some(host);
        answer
    });
    let (_, ModuleAction::Reply(reply)) = module.step(ModuleEvent::Invoked(result)) else {
        panic!("the session ends with a reply");
    };
    let host = waiting(side.take().unwrap());
    let (_, HostAction::Finish(outcome)) = host.step(HostEvent::Received(reply)) else {
        panic!("a final reply ends the session");
    };
    let rep = outcome.expect("the session resolved");
    assert_eq!(String::from_utf8(rep.bytes.clone()).unwrap(), "hello, module");
    assert_eq!(rep.threads.names(), &["urn:stub:concat"]);
}

#[test]
fn a_fault_ends_the_hosts_side() {
    let host = HostSession::new(source("urn:a:b"), Capability::root());
    let (host, _) = host.step(HostEvent::Begin);
    let (_, action) = waiting(host).step(HostEvent::Failed(Fault::ClosedEarly));
    let HostAction::Finish(Err(error)) = action else {
        panic!("a fault ends the session");
    };
    assert_eq!(
        error,
        Error::Endpoint("module closed the session early".to_string())
    );
    let host = HostSession::new(source("urn:a:b"), Capability::root());
    let (host, _) = host.step(HostEvent::Begin);
    let (_, action) = host.step(HostEvent::Failed(Fault::ChannelClosed));
    assert!(matches!(action, HostAction::Finish(Err(_))), "{action:?}");
}

#[test]
fn the_modules_side_answers_questions_without_running_anything() {
    let session = || {
        ModuleSession::new(
            ModuleRewrite::Undeclarable("closure".to_string()),
            Receiver::Server,
        )
    };
    let entries = || Some(vec![SpaceEntry::new("urn:a:b", "b")]);

    let (listing, action) = session().step(ModuleEvent::Called(Ok(ModuleCall::Describe)));
    assert!(matches!(action, ModuleAction::ListEntries), "{action:?}");
    let (_, action) = listing.step(ModuleEvent::Bound(entries()));
    let ModuleAction::Reply(ModuleReply::Bindings(listed)) = action else {
        panic!("the bindings are listed");
    };
    assert_eq!(listed, entries());

    let (declaring, action) = session().step(ModuleEvent::Called(Ok(ModuleCall::Manifest)));
    assert!(matches!(action, ModuleAction::ListEntries), "{action:?}");
    let (_, action) = declaring.step(ModuleEvent::Bound(entries()));
    let ModuleAction::Reply(ModuleReply::Manifest(manifest)) = action else {
        panic!("the manifest is shown");
    };
    assert_eq!(manifest.entries, entries());
    assert_eq!(
        manifest.rewrite,
        ModuleRewrite::Undeclarable("closure".to_string())
    );

    let (asking, action) = session().step(ModuleEvent::Called(Ok(ModuleCall::Cards)));
    assert!(matches!(action, ModuleAction::AskCards), "{action:?}");
    let asked = vec![(
        SpaceEntry::new("urn:a:b", "b"),
        Some(Answer {
            name: "b".to_string(),
            description: Description::new("b"),
        }),
    )];
    let (_, action) = asking.step(ModuleEvent::Asked(asked));
    let ModuleAction::Reply(ModuleReply::Cards(cards)) = action else {
        panic!("the cards are shown");
    };
    assert_eq!(cards.len(), 1);
    assert_eq!(cards[0].description, Description::new("b"));

    let early = Ok(ModuleCall::HostResult(Err("x".to_string())));
    let (_, action) = session().step(ModuleEvent::Called(early));
    let ModuleAction::Reply(ModuleReply::Error(text)) = action else {
        panic!("an early answer is refused");
    };
    assert_eq!(text, "server received HostResult before Invoke");
}

#[test]
fn the_modules_side_refuses_before_it_invokes() {
    let session = ModuleSession::new(ModuleRewrite::Unknown, Receiver::Module);
    let call = ModuleCall::Invoke {
        request: source("urn:stub:greet"),
        capability: scoped(&[READ]),
    };
    let (session, _) = session.step(ModuleEvent::Called(Ok(call)));
    let (_, action) = session.step(ModuleEvent::Resolved(gated()));
    let ModuleAction::Reply(ModuleReply::ErrorTyped(error)) = action else {
        panic!("the endpoint's own card turns the caller away");
    };
    assert!(matches!(error, ModuleError::Denied(_)), "{error:?}");
}
