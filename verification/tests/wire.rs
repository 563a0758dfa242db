//! What crosses the boundary, and how it comes back.

use ikigai_module::kernel::{
    Capability, Error, Expiry, Iri, ReprType, Representation, Request, Verb,
};
use ikigai_module::rewrite::ModuleManifest;
use ikigai_module::wire::{
    answer_from, host_answer, outcome_from, reply_for, ModuleCall, ModuleError, ModuleReply,
};

fn iri(text: &str) -> Iri {
    Iri::parse(text).unwrap()
}

fn plain(bytes: &[u8]) -> Representation {
    Representation::new(ReprType::new("text/plain"), bytes.to_vec())
}

fn every_error() -> Vec<Error> {
    vec![
        Error::Unresolved(iri("urn:test:nowhere")),
        Error::MissingArgument("in".into()),
        Error::InvalidArgument {
            name: "in".into(),
            detail: "not a thing".into(),
        },
        Error::Endpoint("boom".into()),
        Error::Denied("not yours".into()),
        Error::NotFound("gone".into()),
        Error::Timeout("slow".into()),
        Error::Unavailable("down".into()),
    ]
}

/// What a result is once it was encoded and decoded: its own threads are left out.
fn crossed(reply: ModuleReply) -> ModuleReply {
    let bare = |r: Representation| {
        Representation::new(r.repr_type, r.bytes).with_expiry(r.expiry)
    };
    match reply {
        ModuleReply::Resolved(representation) => ModuleReply::Resolved(bare(representation)),
        ModuleReply::ResolvedThreaded {
            representation,
            threads,
        } => ModuleReply::ResolvedThreaded {
            representation: bare(representation),
            threads,
        },
        other => other,
    }
}

#[test]
fn typed_errors_survive_in_both_directions() {
    for (error, again) in every_error().into_iter().zip(every_error()) {
        let transient = error.is_transient();
        let out = outcome_from(reply_for(Err(error))).unwrap_err();
        assert_eq!(out, again, "module to host");
        assert_eq!(out.is_transient(), transient);
        let relayed = answer_from(host_answer(Err(out))).unwrap_err();
        assert_eq!(relayed, again, "host to module");
        let out = outcome_from(reply_for(Err(relayed))).unwrap_err();
        assert_eq!(out, again, "host to module to host");
    }
}

#[test]
fn a_failure_keeps_its_variant_and_its_transience() {
    let denied = Error::Denied("not yours".to_string());
    let back = Error::from(ModuleError::from(&denied));
    assert_eq!(back, denied);
    assert!(!back.is_transient(), "a denial stays permanent across the boundary");
    let timeout = Error::Timeout("slow".to_string());
    let back = Error::from(ModuleError::from(&timeout));
    assert_eq!(back, timeout);
    assert!(back.is_transient());
}

#[test]
fn an_unresolved_target_that_is_no_iri_degrades_to_a_text() {
    let error = Error::from(ModuleError::Unresolved("not an iri".to_string()));
    assert_eq!(
        error,
        Error::Endpoint("no endpoint resolved for not an iri".to_string())
    );
    assert!(!error.is_transient());
    assert_eq!(
        Error::from(ModuleError::Unresolved("urn:a:b".to_string())),
        Error::Unresolved(iri("urn:a:b"))
    );
}

#[test]
fn the_plain_form_is_sent_exactly_where_it_loses_nothing() {
    assert!(matches!(reply_for(Ok(plain(b"x"))), ModuleReply::Resolved(_)));
    let threaded = reply_for(Ok(plain(b"x").depends_on("urn:b").depends_on("urn:a")));
    let ModuleReply::ResolvedThreaded { threads, .. } = threaded else {
        panic!("threads ride beside the result");
    };
    assert_eq!(threads, ["urn:a", "urn:b"]);
    for error in every_error() {
        let untyped = matches!(error, Error::Endpoint(_));
        let answer = host_answer(Err(outcome_from(reply_for(Err(error))).unwrap_err()));
        assert_eq!(matches!(answer, ModuleCall::HostResult(Err(_))), untyped);
        assert_eq!(matches!(answer, ModuleCall::HostError(_)), !untyped);
    }
    assert!(matches!(
        reply_for(Err(Error::Endpoint("boom".into()))),
        ModuleReply::Error(_)
    ));
    assert!(matches!(
        reply_for(Err(Error::Denied("no".into()))),
        ModuleReply::ErrorTyped(ModuleError::Denied(_))
    ));
    assert!(matches!(
        host_answer(Ok(plain(b"x"))),
        ModuleCall::HostResult(Ok(_))
    ));
}

#[test]
fn declared_threads_survive_the_encoding() {
    let result = || {
        plain(b"body")
            .with_expiry(Expiry::At(7))
            .depends_on("urn:b")
            .depends_on("urn:a")
            .depends_on("urn:b")
    };
    for reply in [reply_for(Ok(result())), crossed(reply_for(Ok(result())))] {
        let back = outcome_from(reply).unwrap();
        assert_eq!(back.bytes, b"body");
        assert_eq!(back.expiry, Expiry::At(7));
        assert_eq!(back.threads.names(), &["urn:a", "urn:b"]);
    }
    let back = outcome_from(crossed(reply_for(Ok(plain(b"bare"))))).unwrap();
    assert!(back.threads.names().is_empty());
    let back = answer_from(host_answer(Ok(result()))).unwrap();
    assert_eq!(back.bytes, b"body");
}

#[test]
fn a_reply_that_is_no_outcome_is_an_error() {
    let request = Request::new(Verb::Source, iri("urn:a:b"));
    assert_eq!(
        outcome_from(ModuleReply::HostCall {
            request,
            capability: Capability::root(),
        })
        .unwrap_err(),
        Error::Endpoint("module made a HostCall where a final reply was expected".to_string())
    );
    for reply in [
        ModuleReply::Bindings(None),
        ModuleReply::Manifest(ModuleManifest::unknown(None)),
        ModuleReply::Cards(Vec::new()),
    ] {
        assert_eq!(
            outcome_from(reply).unwrap_err(),
            Error::Endpoint("module answered Invoke with a description".to_string())
        );
    }
}

#[test]
fn a_call_that_is_no_answer_is_an_error() {
    let request = Request::new(Verb::Source, iri("urn:a:b"));
    for call in [
        ModuleCall::Invoke {
            request,
            capability: Capability::root(),
        },
        ModuleCall::Describe,
        ModuleCall::Manifest,
        ModuleCall::Cards,
    ] {
        assert_eq!(
            answer_from(call).unwrap_err(),
            Error::Endpoint("expected HostResult answering a HostCall".to_string())
        );
    }
}

#[test]
fn a_copied_message_is_the_same_message() {
    let request = Request::new(Verb::Source, iri("urn:a:b"));
    let whole = plain(b"x").with_expiry(Expiry::At(3)).depends_on("urn:t");
    let calls = [
        ModuleCall::Invoke {
            request: request.clone(),
            capability: Capability::scoped(vec!["s".to_string()]),
        },
        ModuleCall::HostResult(Ok(whole.clone())),
        ModuleCall::HostResult(Err("no".to_string())),
        ModuleCall::Describe,
        ModuleCall::Manifest,
        ModuleCall::HostError(ModuleError::Denied("no".to_string())),
        ModuleCall::Cards,
    ];
    for call in &calls {
        assert_eq!(format!("{:?}", call.clone()), format!("{call:?}"));
    }
    let manifest = ModuleManifest::unknown(None);
    let replies = [
        ModuleReply::HostCall {
            request,
            capability: Capability::root(),
        },
        ModuleReply::Resolved(whole.clone()),
        ModuleReply::Error("no".to_string()),
        ModuleReply::Bindings(None),
        ModuleReply::Manifest(manifest.clone()),
        ModuleReply::ResolvedThreaded {
            representation: whole,
            threads: vec!["urn:t".to_string()],
        },
        ModuleReply::Cards(Vec::new()),
    ];
    for reply in &replies {
        assert_eq!(format!("{:?}", reply.clone()), format!("{reply:?}"));
    }
    for error in every_error() {
        let error = ModuleError::from(&error);
        assert_eq!(error.clone(), error);
        let reply = ModuleReply::ErrorTyped(error);
        assert_eq!(format!("{:?}", reply.clone()), format!("{reply:?}"));
    }
}

#[test]
fn an_answer_is_read_as_it_was_given() {
    let whole = || plain(b"x").with_expiry(Expiry::At(3)).depends_on("urn:t");
    let read = answer_from(host_answer(Ok(whole()))).unwrap();
    assert_eq!(read.bytes, whole().bytes);
    assert_eq!(read.expiry, Expiry::At(3));
    assert_eq!(read.threads.names(), &["urn:t"]);
    for (given, again) in every_error().into_iter().zip(every_error()) {
        assert_eq!(answer_from(host_answer(Err(given))).unwrap_err(), again);
    }
}
