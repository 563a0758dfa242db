//! Cards asked for, matched and listed through a mount.

use std::sync::Arc;

use ikigai_core::{Exact, FnEndpoint, Invocation, Scope, Space, UriTemplate};
use ikigai_module::card::{Description, ModuleCard};
use ikigai_module::cards::{
    cards_of, describe_entry, match_card, pattern_matches, probe_target, Answer, PROBE,
};
use ikigai_module::floor::{unsatisfied_scope, ModuleFloor};
use ikigai_module::kernel::{Capability, Iri, Request, SpaceEntry, Verb};
use ikigai_module::lazy::{WasmModuleSpace, LAZY_NAME};
use ikigai_module::mount::{Mounted, ModuleSpace};
use ikigai_module::rewrite::{ModuleManifest, ModuleRewrite};

const GREET: &str = "urn:cap:demo:greet";
const READ: &str = "urn:cap:demo:read";
const VERBS: [Verb; 5] = [
    Verb::Source,
    Verb::Sink,
    Verb::Exists,
    Verb::Delete,
    Verb::Meta,
];

fn texts(items: &[&str]) -> Vec<String> {
    items.iter().map(|s| s.to_string()).collect()
}

fn iri(text: &str) -> Iri {
    Iri::parse(text).unwrap()
}

fn scoped(scopes: &[&str]) -> Capability {
    Capability::scoped(texts(scopes))
}

fn titled(id: &str, title: &str) -> Description {
    let mut card = Description::new(id);
    card.title = title.to_string();
    card
}

fn served(mounted: Mounted) -> (String, Description) {
    match mounted {
        Mounted::Served { name, card, .. } => (name, card),
        other => panic!("should be served: {other:?}"),
    }
}

fn patterns(entries: &[SpaceEntry]) -> Vec<&str> {
    entries.iter().map(|e| e.pattern.as_str()).collect()
}

fn greet_card() -> Description {
    let mut card = titled("stub-greet", "Greet (gated test stub)");
    card.verbs = vec![Verb::Source];
    card.scopes = texts(&[GREET]);
    card.outputs = texts(&["text/plain"]);
    card
}

fn plain_endpoint(name: &'static str) -> FnEndpoint {
    FnEndpoint::new(name, |_inv: &Invocation<'_>| {
        Ok(ikigai_core::Representation::new(
            ikigai_core::ReprType::new("text/plain"),
            Vec::new(),
        ))
    })
}

/// Every binding of `space`, with what it answers where it is asked.
fn asked(space: &dyn Space, card: impl Fn(&str) -> Description) -> Vec<(SpaceEntry, Option<Answer>)> {
    space
        .entries()
        .unwrap_or_default()
        .into_iter()
        .map(|e| {
            let entry = SpaceEntry {
                pattern: e.pattern,
                endpoint: e.endpoint,
                origin: e.origin,
            };
            let answer = probe_target(&entry).and_then(|target| {
                let request = ikigai_core::Request::new(
                    ikigai_core::Verb::Meta,
                    ikigai_core::Iri::parse(target.as_str()).unwrap(),
                );
                match space.resolve(&request, &Scope::empty()) {
                    ikigai_core::Resolution::Hit(hit) => Some(Answer {
                        name: hit.endpoint.name().to_string(),
                        description: card(hit.endpoint.name()),
                    }),
                    ikigai_core::Resolution::Miss => None,
                }
            });
            (entry, answer)
        })
        .collect()
}

#[test]
fn connect_installs_the_modules_cards_through_the_codec() {
    let module: Arc<dyn Space> = Arc::new(
        ikigai_core::EndpointSpace::new()
            .bind(Exact::new("urn:stub:greet"), plain_endpoint("stub-greet"))
            .bind(
                UriTemplate::parse("urn:stub:echo:{word}").unwrap(),
                plain_endpoint("stub-echo"),
            ),
    );
    let own_card = |name: &str| match name {
        "stub-greet" => greet_card(),
        _ => Description::new(name),
    };
    let cards = cards_of(&asked(&*module, own_card));
    let space = ModuleSpace::connect(
        texts(&["urn:stub:"]),
        ModuleManifest::unknown(None),
        ModuleFloor::public(),
    )
    .map_err(|e| e.text())
    .unwrap()
    .with_cards(cards);
    let meta = |target: &str| Request::new(Verb::Meta, iri(target));
    let (name, card) = served(space.resolve(&meta("urn:stub:greet")));
    assert_eq!(card, greet_card(), "an exact binding's card is the module's");
    assert_eq!(name, "stub-greet");
    let (_, echo) = served(space.resolve(&meta("urn:stub:echo:anything")));
    assert_eq!(
        echo.id, "stub-echo",
        "a template binding's card is found by matching"
    );
    assert_eq!(
        patterns(&space.entries(None).unwrap()),
        ["urn:stub:greet", "urn:stub:echo:{word}"]
    );
    assert_eq!(
        unsatisfied_scope(&card, Verb::Source, &scoped(&[READ])).as_deref(),
        Some(GREET)
    );

    let unasked = ModuleSpace::new(texts(&["urn:stub:"]), ModuleFloor::public());
    assert_eq!(served(unasked.resolve(&meta("urn:stub:greet"))).1.id, "module");
}

#[test]
fn a_mount_that_never_asked_describes_one_endpoint_named_module() {
    let unasked = ModuleSpace::new(texts(&["urn:mod:"]), ModuleFloor::public());
    for target in ["urn:mod:cell", "urn:mod:live", "urn:mod:echo:x"] {
        let (name, card) = served(unasked.resolve(&Request::new(Verb::Meta, iri(target))));
        assert_eq!(name, "module");
        assert_eq!(card, Description::new("module"));
        for verb in VERBS {
            assert_eq!(card.scopes_of(verb), None, "declares no action");
        }
    }
    let template = SpaceEntry::new("urn:mod:echo:{word}", "echo");
    let answer = Some(Answer {
        name: "module".to_string(),
        description: Description::new("module"),
    });
    assert_eq!(describe_entry(&template, &answer), None, "describes nothing");

    let described = ModuleSpace::new(texts(&["urn:mod:"]), ModuleFloor::public())
        .describing(titled("demo-module", "The demo module"));
    let (_, card) = served(described.resolve(&Request::new(Verb::Meta, iri("urn:mod:cell"))));
    assert_eq!(card.id, "demo-module");
}

#[test]
fn the_floor_is_visible_and_enforced() {
    const MOUNT: &str = "urn:cap:module:demo";
    let leaf = |id: &str, verbs: &[Verb], scopes: &[&str]| {
        let mut card = Description::new(id);
        card.verbs = verbs.to_vec();
        card.scopes = texts(scopes);
        card
    };
    let leaves = [
        ("cell", "urn:mod:cell", leaf("cell", &[Verb::Source, Verb::Sink], &[])),
        ("live", "urn:mod:live", leaf("live", &[Verb::Source], &[])),
        ("gated", "urn:mod:gated", leaf("gated", &[Verb::Source], &[READ])),
        ("echo", "urn:mod:echo:{word}", leaf("echo", &[Verb::Source], &[])),
    ];
    let cards: Vec<ModuleCard> = leaves
        .iter()
        .map(|(id, pattern, card)| ModuleCard {
            entry: SpaceEntry::new(pattern, id),
            description: card.clone(),
        })
        .collect();
    let space = ModuleSpace::new(texts(&["urn:mod:"]), ModuleFloor::requiring(MOUNT))
        .with_cards(cards);
    for target in ["urn:mod:cell", "urn:mod:live", "urn:mod:gated", "urn:mod:echo:hi"] {
        let (_, card) = served(space.resolve(&Request::new(Verb::Source, iri(target))));
        let demands: Vec<Vec<String>> =
            VERBS.into_iter().filter_map(|verb| card.scopes_of(verb)).collect();
        assert!(!demands.is_empty(), "{target}");
        for scopes in demands {
            assert!(
                scopes.contains(&MOUNT.to_string()),
                "{target} carries the floor: {scopes:?}"
            );
        }
    }
    let denial = space.floor().clears(&scoped(&[]), "urn:mod:live").unwrap_err();
    assert!(denial.text().contains(MOUNT), "{denial:?}");
    let mount_only = scoped(&[MOUNT]);
    assert!(space.floor().clears(&mount_only, "urn:mod:live").is_ok());
    let (_, gated) = served(space.resolve(&Request::new(Verb::Source, iri("urn:mod:gated"))));
    assert_eq!(
        unsatisfied_scope(&gated, Verb::Source, &mount_only).as_deref(),
        Some(READ),
        "the module's own card adds to the floor"
    );
    assert_eq!(
        unsatisfied_scope(&gated, Verb::Source, &scoped(&[MOUNT, READ])),
        None
    );
}

#[test]
fn declared_endpoints_enumerate_and_meta_without_loading_the_module() {
    let space = WasmModuleSpace::new(
        texts(&["urn:jsonld:"]),
        Description::new("jsonld"),
        ModuleFloor::public(),
    )
    .with_endpoint("urn:jsonld:expand", titled("urn:jsonld:expand", "Expand"))
    .with_endpoint("urn:jsonld:compact", titled("urn:jsonld:compact", "Compact"));

    let entries = space.entries().expect("declared endpoints enumerate");
    assert_eq!(
        patterns(&entries),
        ["urn:jsonld:expand", "urn:jsonld:compact"]
    );
    assert_eq!(entries[0], SpaceEntry::new("urn:jsonld:expand", "urn:jsonld:expand"));

    let (name, card) = served(space.resolve(&Request::new(Verb::Meta, iri("urn:jsonld:expand"))));
    assert_eq!(card.title, "Expand", "a declared IRI should resolve");
    assert_eq!(name, LAZY_NAME);

    let (_, generic) = served(space.resolve(&Request::new(Verb::Meta, iri("urn:jsonld:flatten"))));
    assert_eq!(generic.id, "jsonld", "a prefix-matched IRI should resolve");

    assert!(matches!(
        space.resolve(&Request::new(Verb::Meta, iri("urn:other:x"))),
        Mounted::Miss
    ));
}

#[test]
fn a_module_space_with_no_declared_endpoints_does_not_enumerate() {
    let space = WasmModuleSpace::new(
        texts(&["urn:stub:"]),
        Description::new("stub"),
        ModuleFloor::public(),
    );
    assert!(space.entries().is_none());
    let asked = ModuleSpace::new(texts(&["urn:stub:"]), ModuleFloor::public());
    assert!(asked.entries(None).is_none());
    assert!(asked.entries(Some(Vec::new())).is_none());
}

#[test]
fn the_host_card_wins_over_the_modules_and_that_over_the_generic() {
    let module_card = |pattern: &str, name: &str| ModuleCard {
        entry: SpaceEntry::new(pattern, name),
        description: titled("module-card", "from the module"),
    };
    let space = ModuleSpace::new(texts(&["urn:m:"]), ModuleFloor::public())
        .with_cards(vec![
            module_card("urn:m:a", "a"),
            module_card("urn:m:b:{x}", "b"),
        ])
        .with_endpoint("urn:m:a", titled("host-card", "from the host"))
        .with_endpoint("urn:elsewhere:{x}", titled("far", "not under the prefix"))
        .describing(titled("generic", "the rest"));
    let at = |target: &str| served(space.resolve(&Request::new(Verb::Source, iri(target))));
    assert_eq!(at("urn:m:a").0, "host-card");
    assert_eq!(at("urn:m:a").1.title, "from the host");
    assert_eq!(at("urn:m:b:1").0, "b");
    assert_eq!(at("urn:m:b:1").1.title, "from the module");
    assert_eq!(at("urn:m:c").0, "module");
    assert_eq!(at("urn:m:c").1.title, "the rest");
    assert_eq!(at("urn:elsewhere:1").0, "far");
    assert!(matches!(
        space.resolve(&Request::new(Verb::Source, iri("urn:n:a"))),
        Mounted::Miss
    ));
    assert_eq!(
        space.host_card(&iri("urn:m:a")).map(|c| c.id.as_str()),
        Some("host-card")
    );
    assert!(space.host_card(&iri("urn:m:b:1")).is_none());
    assert!(space.routes("urn:m:{x}"));
    assert!(!space.routes("urn:elsewhere:{x}"));
}

#[test]
fn a_card_for_a_name_that_is_not_routed_is_not_kept() {
    let card = |pattern: &str| ModuleCard {
        entry: SpaceEntry::new(pattern, "x"),
        description: Description::new("x"),
    };
    let space = ModuleSpace::new(texts(&["urn:m:"]), ModuleFloor::public())
        .with_cards(vec![card("urn:m:a"), card("urn:other:a"), card("urn:m:b")]);
    assert_eq!(patterns(&space.entries(None).unwrap()), ["urn:m:a", "urn:m:b"]);
}

#[test]
fn a_listing_names_each_pattern_once_host_first() {
    let card = |pattern: &str| ModuleCard {
        entry: SpaceEntry::new(pattern, "card"),
        description: Description::new("card"),
    };
    let space = ModuleSpace::new(texts(&["urn:m:"]), ModuleFloor::public())
        .with_cards(vec![card("urn:m:a"), card("urn:m:b")])
        .with_endpoint("urn:m:a", Description::new("host-a"));
    let live = vec![
        SpaceEntry::new("urn:m:b", "live"),
        SpaceEntry::new("urn:m:c", "live"),
        SpaceEntry::new("urn:other:d", "live"),
        SpaceEntry::new("urn:m:c", "again"),
    ];
    let entries = space.entries(Some(live)).unwrap();
    assert_eq!(
        entries,
        [
            SpaceEntry::new("urn:m:a", "host-a"),
            SpaceEntry::new("urn:m:b", "card"),
            SpaceEntry::new("urn:m:c", "live"),
        ]
    );
}

#[test]
fn a_binding_is_asked_at_its_iri_or_at_its_probed_template() {
    let at = |pattern: &str| {
        probe_target(&SpaceEntry::new(pattern, "x")).map(|t| t.as_str().to_string())
    };
    assert_eq!(at("urn:m:a").as_deref(), Some("urn:m:a"));
    assert_eq!(
        at("urn:m:{x}/of/{y}").as_deref(),
        Some("urn:m:probe/of/probe")
    );
    assert_eq!(PROBE, "probe");
    assert_eq!(at("not an iri"), None, "no variables");
    assert_eq!(at("urn:{a}{b}"), None, "ambiguous");
    assert_eq!(at("{a} b"), None, "expands to no IRI");
}

#[test]
fn a_probe_swallowed_by_a_sibling_does_not_count() {
    let template = SpaceEntry::new("urn:m:{x}", "long");
    let exact = SpaceEntry::new("urn:m:a", "long");
    let answer = |name: &str, id: &str| {
        Some(Answer {
            name: name.to_string(),
            description: Description::new(id),
        })
    };
    assert_eq!(describe_entry(&template, &answer("short", "short")), None);
    assert_eq!(
        describe_entry(&template, &answer("long", "other")),
        Some(Description::new("other"))
    );
    assert_eq!(
        describe_entry(&template, &answer("other", "long")),
        Some(Description::new("long"))
    );
    assert_eq!(
        describe_entry(&exact, &answer("short", "short")),
        Some(Description::new("short"))
    );
    assert_eq!(describe_entry(&exact, &None), None);
    let cards = cards_of(&vec![
        (template, answer("short", "short")),
        (exact, answer("short", "short")),
        (SpaceEntry::new("urn:m:none", "x"), None),
    ]);
    assert_eq!(
        cards,
        [ModuleCard {
            entry: SpaceEntry::new("urn:m:a", "long"),
            description: Description::new("short"),
        }]
    );
}

#[test]
fn the_first_matching_card_wins() {
    let one = Description::new("one");
    let two = Description::new("two");
    let cards = vec![
        ("urn:m:{x}/y", "tail", &one),
        ("urn:m:{x}", "rest", &two),
        ("urn:m:a", "exact", &one),
    ];
    assert_eq!(match_card(&cards, &iri("urn:m:a")), Some(("rest", &two)));
    assert_eq!(match_card(&cards, &iri("urn:m:a/y")), Some(("tail", &one)));
    assert_eq!(match_card(&cards, &iri("urn:n:a")), None);
    assert!(pattern_matches("urn:m:a", &iri("urn:m:a")));
    assert!(!pattern_matches("urn:m:a", &iri("urn:m:ab")));
    assert!(!pattern_matches("urn:m:{x}", &iri("urn:m:")));
    assert!(!pattern_matches("urn:m:{", &iri("urn:m:a")));
}

#[test]
fn a_refused_name_is_not_one_the_mount_does_not_know() {
    let space = ModuleSpace::new(texts(&["urn:m:"]), ModuleFloor::public())
        .declaring(ModuleRewrite::Undeclarable("closure".to_string()))
        .map_err(|e| e.text())
        .unwrap();
    assert!(matches!(
        space.resolve(&Request::new(Verb::Source, iri("urn:m:a"))),
        Mounted::Refused(_)
    ));
    assert!(matches!(
        space.resolve(&Request::new(Verb::Source, iri("urn:n:a"))),
        Mounted::Miss
    ));
}

#[test]
fn a_pattern_with_two_cards_is_listed_once() {
    let listed = vec![SpaceEntry::new("urn:stub:x", "a")];
    let space = ModuleSpace::new(texts(&["urn:stub:"]), ModuleFloor::public())
        .with_endpoint("urn:stub:x", titled("a", "first"))
        .with_endpoint("urn:stub:x", titled("b", "second"));
    assert_eq!(space.entries(None).unwrap(), listed);
    assert_eq!(
        space
            .entries(Some(vec![SpaceEntry::new("urn:stub:x", "c")]))
            .unwrap(),
        listed
    );
    let (name, _) = served(space.resolve(&Request::new(Verb::Source, iri("urn:stub:x"))));
    assert_eq!(name, "a", "the card that is listed is the one that serves");

    let lazy = WasmModuleSpace::new(
        texts(&["urn:stub:"]),
        Description::new("demo"),
        ModuleFloor::public(),
    )
    .with_endpoint("urn:stub:x", titled("a", "first"))
    .with_endpoint("urn:stub:y", titled("y", "between"))
    .with_endpoint("urn:stub:x", titled("b", "second"));
    assert_eq!(
        lazy.entries().unwrap(),
        vec![
            SpaceEntry::new("urn:stub:x", "a"),
            SpaceEntry::new("urn:stub:y", "y"),
        ]
    );
}

#[test]
fn a_rewritten_name_has_the_card_of_what_it_is_rewritten_to() {
    let table = ikigai_core::AliasTable::new().exact("urn:stub:join", "urn:stub:concat");
    let rewrite = ModuleRewrite::from_table(&table);
    let mut backing = titled("concat", "Concatenate");
    backing.verbs = vec![Verb::Source];
    backing.scopes = texts(&[READ]);
    let space = ModuleSpace::new(texts(&["urn:stub:"]), ModuleFloor::requiring(GREET))
        .declaring(rewrite.clone())
        .unwrap_or_else(|e| panic!("{}", e.text()))
        .with_endpoint("urn:stub:concat", backing.clone());
    let lazy = WasmModuleSpace::new(
        texts(&["urn:stub:"]),
        Description::new("demo"),
        ModuleFloor::requiring(GREET),
    )
    .declaring(rewrite)
    .unwrap_or_else(|e| panic!("{}", e.text()))
    .with_endpoint("urn:stub:concat", backing);
    let ask = |target: &str| Request::new(Verb::Source, iri(target));
    for (logical, direct) in [
        (space.resolve(&ask("urn:stub:join")), space.resolve(&ask("urn:stub:concat"))),
        (lazy.resolve(&ask("urn:stub:join")), lazy.resolve(&ask("urn:stub:concat"))),
    ] {
        let Mounted::Served {
            name,
            card,
            canonical,
            warning,
        } = logical
        else {
            panic!("should be served");
        };
        assert_eq!(canonical, Some(iri("urn:stub:concat")));
        assert_eq!(warning, None);
        assert_eq!(card.scopes, texts(&[READ, GREET]));
        assert_eq!((name, card), served(direct));
    }
}

#[test]
fn a_card_of_the_host_is_used_for_a_name_that_is_rewritten() {
    let table = ikigai_core::AliasTable::new().exact("urn:stub:join", "urn:stub:concat");
    let rewrite = ModuleRewrite::from_table(&table);
    let mut logical = titled("join", "Join");
    logical.verbs = vec![Verb::Source];
    logical.scopes = texts(&["urn:cap:join"]);
    let mut backing = titled("concat", "Concatenate");
    backing.scopes = texts(&[READ]);
    let space = ModuleSpace::new(texts(&["urn:stub:"]), ModuleFloor::requiring(GREET))
        .declaring(rewrite.clone())
        .unwrap_or_else(|e| panic!("{}", e.text()))
        .with_endpoint("urn:stub:concat", backing.clone())
        .with_endpoint("urn:stub:join", logical.clone());
    let lazy = WasmModuleSpace::new(
        texts(&["urn:stub:"]),
        Description::new("demo"),
        ModuleFloor::requiring(GREET),
    )
    .declaring(rewrite)
    .unwrap_or_else(|e| panic!("{}", e.text()))
    .with_endpoint("urn:stub:concat", backing)
    .with_endpoint("urn:stub:join", logical);
    let ask = |target: &str| Request::new(Verb::Source, iri(target));
    for (mounted, expected) in [
        (space.resolve(&ask("urn:stub:join")), "join"),
        (lazy.resolve(&ask("urn:stub:join")), LAZY_NAME),
    ] {
        let Mounted::Served {
            name,
            card,
            canonical,
            ..
        } = mounted
        else {
            panic!("should be served");
        };
        assert_eq!(name, expected);
        assert_eq!(card.id, "join");
        assert_eq!(card.scopes, texts(&["urn:cap:join", GREET]));
        assert_eq!(canonical, Some(iri("urn:stub:concat")));
    }
    for mounted in [
        space.resolve(&ask("urn:stub:concat")),
        lazy.resolve(&ask("urn:stub:concat")),
    ] {
        assert_eq!(served(mounted).1.scopes, texts(&[READ, GREET]));
    }
}

#[test]
fn a_pattern_without_variables_covers_only_itself() {
    assert!(pattern_matches("urn:stub:x", &iri("urn:stub:x")));
    for pattern in ["urn:stub:x", "urn:stub:", "", "urn:stub:y}"] {
        assert!(!pattern_matches(pattern, &iri("urn:stub:xy")), "{pattern}");
    }
    assert!(pattern_matches("urn:stub:{y}", &iri("urn:stub:xy")));
    let space = ModuleSpace::new(texts(&["urn:stub:"]), ModuleFloor::public())
        .with_endpoint("urn:stub:x", titled("x", "X"));
    let (name, card) = served(space.resolve(&Request::new(Verb::Source, iri("urn:stub:xy"))));
    assert_eq!(name, "module");
    assert_eq!(card, Description::new("module"));
}
