//! What callbacks leave on a result.

use ikigai_module::kernel::{Expiry, ReprType, Representation, Threads};
use ikigai_module::kernel::Error;
use ikigai_module::provenance::{answered, finished, DepSink, DepSinks};
use ikigai_module::wire::{ModuleCall, ModuleError, ModuleReply};

fn plain(expiry: Expiry, threads: &[&str]) -> Representation {
    let names: Vec<String> = threads.iter().map(|t| t.to_string()).collect();
    Representation::new(ReprType::new("text/plain"), b"x".to_vec())
        .with_expiry(expiry)
        .depends_on_all(&names)
}

#[test]
fn the_sooner_expiry_wins() {
    let both = |a: Expiry, b: Expiry| {
        assert_eq!(a.most_restrictive(b), b.most_restrictive(a));
        a.most_restrictive(b)
    };
    assert_eq!(both(Expiry::Always, Expiry::Never), Expiry::Always);
    assert_eq!(both(Expiry::Always, Expiry::At(3)), Expiry::Always);
    assert_eq!(both(Expiry::At(3), Expiry::Never), Expiry::At(3));
    assert_eq!(both(Expiry::At(3), Expiry::At(5)), Expiry::At(3));
    assert_eq!(both(Expiry::Never, Expiry::Never), Expiry::Never);
}

#[test]
fn a_result_is_no_fresher_than_what_it_reached_for() {
    let mut sink = DepSink::default();
    sink.record(&plain(Expiry::Never, &["urn:b"]));
    sink.record(&plain(Expiry::At(9), &["urn:a", "urn:b"]));
    sink.record(&plain(Expiry::At(11), &[]));
    assert_eq!(sink.expiry, Some(Expiry::At(9)));
    let whole = sink.fold_into(plain(Expiry::Never, &["urn:own"]));
    assert_eq!(whole.expiry, Expiry::At(9));
    assert_eq!(whole.threads.names(), &["urn:a", "urn:b", "urn:own"]);
    assert_eq!(whole.bytes, b"x");
    let sooner = sink.fold_into(plain(Expiry::Always, &[]));
    assert_eq!(sooner.expiry, Expiry::Always);
}

#[test]
fn a_result_that_reached_for_nothing_is_unchanged() {
    let whole = DepSink::default().fold_into(plain(Expiry::Never, &["urn:own"]));
    assert_eq!(whole.expiry, Expiry::Never);
    assert_eq!(whole.threads.names(), &["urn:own"]);
}

#[test]
fn a_sink_collects_while_it_is_open() {
    let mut sinks = DepSinks::new();
    sinks.record(&plain(Expiry::Always, &["urn:before"]));
    let outer: u64 = sinks.install_sink();
    sinks.record(&plain(Expiry::Never, &["urn:one"]));
    let inner: u64 = sinks.install_sink();
    assert_ne!(outer, inner);
    sinks.record(&plain(Expiry::At(4), &["urn:two"]));
    let inside = sinks.take_sink(inner);
    assert_eq!(inside.expiry, Some(Expiry::At(4)));
    assert_eq!(inside.threads.names(), &["urn:two"]);
    sinks.record(&plain(Expiry::At(6), &["urn:three"]));
    let outside = sinks.take_sink(outer);
    assert_eq!(outside.expiry, Some(Expiry::At(4)));
    assert_eq!(
        outside.threads.names(),
        &["urn:one", "urn:three", "urn:two"]
    );
    let gone = sinks.take_sink(outer);
    assert_eq!(gone.expiry, None);
    assert!(gone.threads.names().is_empty());
    assert!(sinks.sinks.is_empty());
}

#[test]
fn the_numbers_wrap() {
    let mut sinks = DepSinks::new();
    sinks.next = u64::MAX;
    assert_eq!(sinks.install_sink(), u64::MAX);
    assert_eq!(sinks.install_sink(), 0);
    assert_eq!(sinks.next, 1);
}

#[test]
fn threads_are_a_set_in_dictionary_order() {
    let threads = Threads::new()
        .with("urn:b")
        .with("urn:a")
        .with("urn:b")
        .with("urn")
        .with("urn:é");
    assert_eq!(threads.names(), &["urn", "urn:a", "urn:b", "urn:é"]);
    assert_eq!(threads.clone(), threads);
}

#[test]
fn a_callback_is_recorded_exactly_if_it_succeeded() {
    let mut sinks = DepSinks::new();
    let outer: u64 = sinks.install_sink();
    let inner: u64 = sinks.install_sink();
    let answer = answered(&mut sinks, Ok(plain(Expiry::At(4), &["urn:one"])));
    let ModuleCall::HostResult(Ok(representation)) = answer else {
        panic!("a result crosses as one");
    };
    assert_eq!(representation.threads.names(), &["urn:one"]);
    let answer = answered(&mut sinks, Err(Error::Timeout("slow".to_string())));
    assert!(matches!(
        answer,
        ModuleCall::HostError(ModuleError::Timeout(_))
    ));
    let answer = answered(&mut sinks, Err(Error::Endpoint("no".to_string())));
    assert!(matches!(answer, ModuleCall::HostResult(Err(_))));
    assert_eq!(sinks.sinks.len(), 2);
    for id in [outer, inner] {
        let sink = sinks.take_sink(id);
        assert_eq!(sink.expiry, Some(Expiry::At(4)));
        assert_eq!(sink.threads.names(), &["urn:one"]);
    }
}

#[test]
fn the_sink_of_an_invocation_is_closed_however_it_ends() {
    let replies: Vec<Result<ModuleReply, Error>> = vec![
        Ok(ModuleReply::Resolved(plain(Expiry::Never, &[]))),
        Ok(ModuleReply::Error("broken".to_string())),
        Ok(ModuleReply::Bindings(None)),
        Err(Error::Endpoint("gone".to_string())),
    ];
    let mut ends: Vec<Result<Vec<String>, Error>> = Vec::new();
    for reply in replies {
        let mut sinks = DepSinks::new();
        let other: u64 = sinks.install_sink();
        let id: u64 = sinks.install_sink();
        answered(&mut sinks, Ok(plain(Expiry::At(9), &["urn:dep"])));
        let result = finished(&mut sinks, id, reply);
        assert_eq!(sinks.sinks.len(), 1, "only its own sink is closed");
        assert_eq!(sinks.take_sink(other).threads.names(), &["urn:dep"]);
        if let Ok(representation) = &result {
            assert_eq!(representation.expiry, Expiry::At(9));
        }
        ends.push(result.map(|r| r.threads.names().clone()));
    }
    assert_eq!(ends[0], Ok(vec!["urn:dep".to_string()]));
    assert_eq!(ends[1], Err(Error::Endpoint("broken".to_string())));
    assert_eq!(
        ends[2],
        Err(Error::Endpoint(
            "module answered Invoke with a description".to_string()
        ))
    );
    assert_eq!(ends[3], Err(Error::Endpoint("gone".to_string())));
}
