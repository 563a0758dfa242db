//! What the floor demands, and what a card adds to it.

use ikigai_module::card::{ActionSpec, Description};
use ikigai_module::floor::{
    cap_satisfies, first_unheld, refuse_unsatisfied_declaration, unsatisfied_scope, ModuleFloor,
};
use ikigai_module::kernel::{Capability, Error, Iri, Request, Verb};
use ikigai_module::lazy::WasmModuleSpace;
use ikigai_module::mount::{Mounted, ModuleSpace};

const GREET: &str = "urn:cap:demo:greet";
const READ: &str = "urn:cap:demo:read";

fn texts(items: &[&str]) -> Vec<String> {
    items.iter().map(|s| s.to_string()).collect()
}

fn scoped(scopes: &[&str]) -> Capability {
    Capability::scoped(texts(scopes))
}

fn iri(text: &str) -> Iri {
    Iri::parse(text).unwrap()
}

fn card(id: &str, verbs: &[Verb], scopes: &[&str]) -> Description {
    let mut card = Description::new(id);
    card.verbs = verbs.to_vec();
    card.scopes = texts(scopes);
    card
}

fn action(verb: Verb, scopes: &[&str]) -> ActionSpec {
    ActionSpec {
        verb,
        summary: String::new(),
        inputs: Vec::new(),
        outputs: Vec::new(),
        scopes: texts(scopes),
    }
}

fn served_card(mounted: Mounted) -> Description {
    match mounted {
        Mounted::Served { card, .. } => card,
        other => panic!("should be served: {other:?}"),
    }
}

#[test]
fn capability_scopes_match_the_kernels_predicate() {
    assert!(cap_satisfies(&Capability::root(), "urn:cap:anything"));
    assert!(cap_satisfies(&Capability::root(), "urn:cap:net:*"));
    let held = scoped(&["urn:cap:net:example.com"]);
    assert!(cap_satisfies(&held, "urn:cap:net:*"));
    assert!(cap_satisfies(&held, "urn:cap:net:example.com"));
    assert!(!cap_satisfies(&held, "urn:cap:net:other.com"));
    assert!(!cap_satisfies(&held, "urn:cap:fs:*"));
}

#[test]
fn a_bare_star_is_satisfied_by_any_scope_and_by_no_scopes_not() {
    assert!(cap_satisfies(&scoped(&[READ]), "*"));
    assert!(!cap_satisfies(&scoped(&[]), "*"));
    assert!(!cap_satisfies(&scoped(&[READ]), ""));
    assert!(cap_satisfies(&scoped(&[""]), ""));
    assert!(cap_satisfies(&scoped(&["urn:cap:é:x"]), "urn:cap:é*"));
}

#[test]
fn a_public_floor_is_a_sentence_the_host_writes_not_one_it_omits() {
    assert!(ModuleFloor::public().scopes().is_empty());
    assert!(ModuleFloor::public()
        .unsatisfied(&scoped(&[READ]))
        .is_none());
    let floor = ModuleFloor::requiring("urn:cap:a").and("urn:cap:b");
    assert_eq!(
        floor.unsatisfied(&scoped(&["urn:cap:a"])),
        Some("urn:cap:b")
    );
    assert_eq!(floor.unsatisfied(&Capability::root()), None);
}

#[test]
fn a_floor_keeps_its_scopes_in_order() {
    let net = ModuleFloor::requiring("urn:cap:net:*").and("urn:cap:xslt");
    assert_eq!(net.scopes(), ["urn:cap:net:*", "urn:cap:xslt"]);
    assert_eq!(net.clone().scopes(), net.scopes());
}

#[test]
fn the_denial_says_what_to_add() {
    let floor = ModuleFloor::requiring("urn:cap:a");
    let denied = floor.clears(&scoped(&[READ]), "urn:x:y").unwrap_err();
    assert_eq!(
        denied,
        Error::Denied(
            "capability does not grant `urn:cap:a` (the capability floor of the module mount \
             serving `urn:x:y`). Grant the scope, or mount the module with a floor the \
             caller clears — `ModuleFloor::requiring(..)` at the mount, refined per endpoint \
             with `with_endpoint(iri, Description::new(..).verb(..).requires(..))`."
                .to_string()
        )
    );
    assert!(!denied.is_transient());
    assert_eq!(floor.clears(&scoped(&["urn:cap:a"]), "urn:x:y"), Ok(()));
    assert_eq!(floor.clears(&Capability::root(), "urn:x:y"), Ok(()));
}

#[test]
fn a_module_that_declares_nothing_does_not_thereby_become_ungated() {
    const MOUNT: &str = "urn:cap:module:stub";
    let space = ModuleSpace::new(texts(&["urn:stub:"]), ModuleFloor::requiring(MOUNT));
    let request = Request::new(Verb::Source, iri("urn:stub:whoami"));
    served_card(space.resolve(&request));
    let denial = space
        .floor()
        .clears(&scoped(&[READ]), request.target.as_str())
        .expect_err("the mount's floor gates an endpoint that declares nothing");
    assert!(matches!(denial, Error::Denied(_)), "{denial:?}");
    assert!(denial.text().contains(MOUNT), "{denial:?}");
    assert!(
        denial.text().contains("ModuleFloor::requiring"),
        "{denial:?}"
    );
    assert!(space
        .floor()
        .clears(&scoped(&[MOUNT]), request.target.as_str())
        .is_ok());
}

#[test]
fn an_iri_with_no_host_card_is_gated_exactly_as_one_with() {
    const MOUNT: &str = "urn:cap:module:stub";
    let space = ModuleSpace::new(texts(&["urn:stub:"]), ModuleFloor::requiring(MOUNT))
        .with_endpoint("urn:stub:concat", card("stub-concat", &[Verb::Source], &[]));
    let unrelated = scoped(&[READ]);
    for target in ["urn:stub:concat", "urn:stub:whoami"] {
        let card = served_card(space.resolve(&Request::new(Verb::Source, iri(target))));
        assert_eq!(card.scopes, [MOUNT], "{target}");
        let denial = space
            .floor()
            .clears(&unrelated, target)
            .expect_err("every IRI under the mount is gated by the floor")
            .text();
        assert!(denial.contains(MOUNT), "{target}: {denial}");
    }
}

#[test]
fn the_floor_rides_in_the_card_the_kernel_enforces() {
    const MOUNT: &str = "urn:cap:module:stub";
    let mut declared = card("stub-concat", &[Verb::Source, Verb::Sink], &[READ]);
    declared.actions = vec![action(Verb::Sink, &[GREET])];
    let space = ModuleSpace::new(texts(&["urn:stub:"]), ModuleFloor::requiring(MOUNT))
        .with_endpoint("urn:stub:concat", declared);

    let card = served_card(space.resolve(&Request::new(Verb::Source, iri("urn:stub:concat"))));
    assert!(card.scopes.contains(&MOUNT.to_string()), "{card:?}");
    assert!(card.scopes.contains(&READ.to_string()), "{card:?}");
    let sink = card
        .scopes_of(Verb::Sink)
        .expect("the declared Sink action");
    assert!(sink.contains(&MOUNT.to_string()), "{sink:?}");
    assert!(sink.contains(&GREET.to_string()), "{sink:?}");

    let fallback = served_card(space.resolve(&Request::new(Verb::Source, iri("urn:stub:whoami"))));
    assert_eq!(fallback.scopes, vec![MOUNT.to_string()]);
}

#[test]
fn folding_the_floor_in_only_adds_and_only_once() {
    let floor = ModuleFloor::requiring(READ).and(GREET).and(READ);
    let mut before = card("x", &[Verb::Source, Verb::Sink, Verb::Meta], &[GREET, "own"]);
    before.title = "X".to_string();
    before.actions = vec![action(Verb::Sink, &["own"]), action(Verb::Meta, &["own"])];
    let after = floor.applied_to(before.clone());
    assert_eq!(after.scopes, [GREET, "own", READ]);
    assert_eq!(after.actions[0].scopes, ["own", READ, GREET]);
    assert_eq!(after.actions[1], before.actions[1]);
    assert_eq!(after.title, "X");
    assert_eq!(after.verbs, before.verbs);
    assert_eq!(floor.applied_to(after.clone()), after);
    assert_eq!(ModuleFloor::public().applied_to(before.clone()), before);
}

#[test]
fn the_folded_card_demands_the_floor_and_the_card() {
    let floor = ModuleFloor::requiring("urn:cap:floor");
    let folded = floor.applied_to(card("x", &[Verb::Source], &[READ]));
    let lacks = |scopes: &[&str]| unsatisfied_scope(&folded, Verb::Source, &scoped(scopes));
    assert_eq!(lacks(&[]).as_deref(), Some(READ));
    assert_eq!(lacks(&[READ]).as_deref(), Some("urn:cap:floor"));
    assert_eq!(lacks(&["urn:cap:floor"]).as_deref(), Some(READ));
    assert_eq!(lacks(&["urn:cap:floor", READ]), None);
    assert_eq!(unsatisfied_scope(&folded, Verb::Source, &Capability::root()), None);
}

#[test]
fn a_verb_the_card_does_not_declare_is_checked_against_nothing() {
    let folded = ModuleFloor::requiring(READ).applied_to(card("x", &[], &[GREET]));
    assert_eq!(unsatisfied_scope(&folded, Verb::Source, &scoped(&[])), None);
}

#[test]
fn a_declared_action_wins_over_the_flat_scopes() {
    let mut declared = card("calendar", &[Verb::Source, Verb::Sink], &[READ]);
    declared.actions = vec![action(Verb::Sink, &[GREET]), action(Verb::Sink, &["later"])];
    assert_eq!(
        unsatisfied_scope(&declared, Verb::Sink, &scoped(&[READ])).as_deref(),
        Some(GREET)
    );
    assert_eq!(unsatisfied_scope(&declared, Verb::Sink, &scoped(&[GREET])), None);
    assert_eq!(
        unsatisfied_scope(&declared, Verb::Source, &scoped(&[GREET])).as_deref(),
        Some(READ)
    );
    assert_eq!(declared.scopes_of(Verb::Source).unwrap(), [READ]);
    assert_eq!(declared.scopes_of(Verb::Sink).unwrap(), [GREET]);
    assert_eq!(declared.scopes_of(Verb::Delete), None);
    assert_eq!(declared.scopes_of(Verb::Meta), None);
    declared.verbs = vec![Verb::Meta, Verb::Sink, Verb::Exists, Verb::Delete, Verb::Sink];
    assert_eq!(declared.scopes_of(Verb::Exists).unwrap(), [READ]);
    assert_eq!(declared.scopes_of(Verb::Sink).unwrap(), [GREET]);
    assert_eq!(declared.scopes_of(Verb::Source), None);
    assert_eq!(declared.scopes_of(Verb::Meta), None);
}

#[test]
fn meta_stays_readable_under_a_floor_the_caller_cannot_clear() {
    let space = ModuleSpace::new(
        texts(&["urn:stub:"]),
        ModuleFloor::requiring("urn:cap:module:stub"),
    );
    let meta = Request::new(Verb::Meta, iri("urn:stub:whoami"));
    let mut card = served_card(space.resolve(&meta));
    card.verbs = vec![Verb::Source, Verb::Meta];
    assert_eq!(unsatisfied_scope(&card, Verb::Meta, &scoped(&[READ])), None);
    assert_eq!(refuse_unsatisfied_declaration(&meta, &card, &scoped(&[READ])), None);
    assert_eq!(
        unsatisfied_scope(&card, Verb::Source, &scoped(&[READ])).as_deref(),
        Some("urn:cap:module:stub")
    );
}

#[test]
fn a_wasm_mounts_generic_card_is_gated_as_well() {
    const MOUNT: &str = "urn:cap:xslt";
    let space = WasmModuleSpace::new(
        texts(&["urn:xslt:"]),
        card("xslt", &[Verb::Source], &[]),
        ModuleFloor::requiring(MOUNT),
    );
    let request = Request::new(Verb::Source, iri("urn:xslt:anything"));
    let card = served_card(space.resolve(&request));
    assert_eq!(
        unsatisfied_scope(&card, Verb::Source, &scoped(&[READ])).as_deref(),
        Some(MOUNT)
    );
    let denial = space
        .floor()
        .clears(&scoped(&[READ]), request.target.as_str())
        .expect_err("the floor gates an un-enumerated IRI under the prefix");
    assert!(matches!(denial, Error::Denied(_)), "{denial:?}");
    assert!(denial.text().contains(MOUNT), "{denial:?}");
}

#[test]
fn clamping_only_narrows() {
    let ceiling = scoped(&[READ, GREET]);
    let carried = scoped(&[GREET, "urn:cap:other"]);
    let both = ceiling.clamp(&carried);
    assert!(both.allows(GREET));
    assert!(!both.allows(READ));
    assert!(!both.allows("urn:cap:other"));
    assert!(ceiling.clamp(&Capability::root()).allows(READ));
    assert!(!ceiling.clamp(&Capability::root()).allows("urn:cap:other"));
    assert!(Capability::root().clamp(&carried).allows("urn:cap:other"));
    assert!(!Capability::root().clamp(&carried).allows(READ));
    assert!(Capability::root().clamp(&Capability::root()).allows("anything"));
}

#[test]
fn the_first_scope_not_held_is_named() {
    let scopes = texts(&[READ, "urn:cap:family:*", GREET]);
    assert_eq!(first_unheld(&scopes, &scoped(&[])), Some(READ));
    assert_eq!(first_unheld(&scopes, &scoped(&[READ])), Some("urn:cap:family:*"));
    assert_eq!(
        first_unheld(&scopes, &scoped(&[READ, "urn:cap:family:x"])),
        Some(GREET)
    );
    assert_eq!(
        first_unheld(&scopes, &scoped(&[GREET, "urn:cap:family:x", READ])),
        None
    );
    assert_eq!(first_unheld(&scopes, &Capability::root()), None);
    assert_eq!(first_unheld(&Vec::new(), &scoped(&[])), None);
}
