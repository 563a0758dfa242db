//! Names, texts and failures.

use ikigai_module::kernel::{
    ArgRef, Error, Expiry, Iri, ReprType, Representation, Request, Verb,
};
use ikigai_module::text::{has_prefix, join_texts, same_text, side_of, starts_under, Side};

#[test]
fn an_iri_is_validated() {
    assert_eq!(Iri::parse("urn:a:b").unwrap().as_str(), "urn:a:b");
    assert!(Iri::parse("http://example.com/foo").is_some());
    assert!(Iri::parse("").is_none());
    assert!(Iri::parse("foo/bar").is_none());
    assert!(Iri::parse("http://exa mple.com").is_none());
}

#[test]
fn a_failure_reads_as_the_kernels() {
    let core = [
        ikigai_core::Error::Unresolved(ikigai_core::Iri::parse("urn:a:b").unwrap()),
        ikigai_core::Error::MissingArgument("in".into()),
        ikigai_core::Error::InvalidArgument {
            name: "in".into(),
            detail: "bad".into(),
        },
        ikigai_core::Error::Endpoint("boom".into()),
        ikigai_core::Error::Denied("no".into()),
        ikigai_core::Error::NotFound("gone".into()),
        ikigai_core::Error::Timeout("slow".into()),
        ikigai_core::Error::Unavailable("down".into()),
    ];
    let own = [
        Error::Unresolved(Iri::parse("urn:a:b").unwrap()),
        Error::MissingArgument("in".into()),
        Error::InvalidArgument {
            name: "in".into(),
            detail: "bad".into(),
        },
        Error::Endpoint("boom".into()),
        Error::Denied("no".into()),
        Error::NotFound("gone".into()),
        Error::Timeout("slow".into()),
        Error::Unavailable("down".into()),
    ];
    for (core, own) in core.iter().zip(&own) {
        assert_eq!(own.text(), core.to_string());
        assert_eq!(own.is_transient(), core.is_transient());
    }
}

#[test]
fn a_request_starts_without_arguments() {
    let request = Request::new(Verb::Sink, Iri::parse("urn:a:b").unwrap());
    assert!(request.args.entries().is_empty());
    assert_eq!(request.verb, Verb::Sink);
    assert_eq!(request.target.as_str(), "urn:a:b");
}

#[test]
fn texts_are_read_by_character() {
    assert!(has_prefix("urn:é:x", "urn:é"));
    assert!(has_prefix("x", ""));
    assert!(!has_prefix("ur", "urn"));
    assert!(same_text("é", "é"));
    assert!(!same_text("a", "ab"));
    assert_eq!(side_of("a", "b"), Side::Before);
    assert_eq!(side_of("ab", "a"), Side::After);
    assert_eq!(side_of("é", "é"), Side::Same);
    let prefixes = vec!["urn:a:".to_string(), "urn:b:".to_string()];
    assert!(starts_under(&prefixes, "urn:b:x"));
    assert!(!starts_under(&prefixes, "urn:c:x"));
    assert!(!starts_under(&Vec::new(), "urn:c:x"));
    assert_eq!(join_texts(&prefixes, ", "), "urn:a:, urn:b:");
    assert_eq!(join_texts(&Vec::new(), ", "), "");
}

#[test]
fn arguments_are_kept_by_name_in_order() {
    let mut request = Request::new(Verb::Source, Iri::parse("urn:a:b").unwrap());
    for (name, value) in [("b", "1"), ("a", "2"), ("c", "3"), ("a", "4")] {
        request.args = request
            .args
            .with(name, ArgRef::Inline(value.as_bytes().to_vec()));
    }
    let names: Vec<&str> = request
        .args
        .entries()
        .iter()
        .map(|(name, _)| name.as_str())
        .collect();
    assert_eq!(names, ["a", "b", "c"]);
    assert_eq!(request.args.entries()[0].1, ArgRef::Inline(b"4".to_vec()));
    assert_eq!(request.clone(), request);
}

#[test]
fn a_copy_is_the_same_value() {
    let mut repr_type = ReprType::new("text/plain");
    repr_type.params = repr_type
        .params
        .with("charset", "utf-8".to_string())
        .with("boundary", "x".to_string());
    let whole = Representation::new(repr_type, b"x".to_vec())
        .with_expiry(Expiry::At(3))
        .depends_on("urn:a");
    let copy = whole.clone();
    assert_eq!(copy.repr_type, whole.repr_type);
    assert_eq!(copy.bytes, whole.bytes);
    assert_eq!(copy.expiry, whole.expiry);
    assert_eq!(copy.threads, whole.threads);
    let keys: Vec<&str> = copy
        .repr_type
        .params
        .entries()
        .iter()
        .map(|(key, _)| key.as_str())
        .collect();
    assert_eq!(keys, ["boundary", "charset"]);
}
