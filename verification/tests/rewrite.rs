//! What a module declares of its naming, and what a host makes of it.

use std::sync::Arc;

use ikigai_core::{Alias, AliasTable, Exact, FnEndpoint, Invocation, Rewrite, Scope, Space};
use ikigai_module::card::Description;
use ikigai_module::floor::ModuleFloor;
use ikigai_module::kernel::{Capability, Error, Iri, Request, SpaceEntry, Verb};
use ikigai_module::lazy::WasmModuleSpace;
use ikigai_module::mount::{Mounted, ModuleSpace};
use ikigai_module::rewrite::{
    check_rules, refuse_undeclared_rewrite, routing_of, ModuleAliases, ModuleManifest,
    ModuleRewrite, OnUndeclarable, Routing,
};
use ikigai_module::session::{dispatch, Resolution};
use ikigai_module::wire::{outcome_from, ModuleReply};

fn texts(items: &[&str]) -> Vec<String> {
    items.iter().map(|s| s.to_string()).collect()
}

fn iri(text: &str) -> Iri {
    Iri::parse(text).unwrap()
}

fn source(target: &str) -> Request {
    Request::new(Verb::Source, iri(target))
}

fn stub_module() -> ikigai_core::EndpointSpace {
    let fixed = |name: &'static str| {
        FnEndpoint::new(name, |_inv: &Invocation<'_>| {
            Ok(ikigai_core::Representation::new(
                ikigai_core::ReprType::new("text/plain"),
                Vec::new(),
            ))
        })
    };
    ikigai_core::EndpointSpace::new()
        .bind(Exact::new("urn:stub:concat"), fixed("stub-concat"))
        .bind(Exact::new("urn:stub:whoami"), fixed("stub-whoami"))
}

fn join_table() -> Arc<AliasTable> {
    Arc::new(
        AliasTable::new()
            .exact("urn:stub:join", "urn:stub:concat")
            .exact("urn:stub:me", "urn:stub:whoami"),
    )
}

fn aliasing_module(table: &Arc<AliasTable>) -> Arc<dyn Space> {
    Arc::new(Alias::new(Arc::clone(table), Arc::new(stub_module())))
}

/// What the module's space makes of a target, in this library's terms.
fn resolved(space: &dyn Space, target: &str) -> Resolution {
    let request = ikigai_core::Request::new(
        ikigai_core::Verb::Source,
        ikigai_core::Iri::parse(target).unwrap(),
    );
    match space.resolve(&request, &Scope::empty()) {
        ikigai_core::Resolution::Hit(hit) => Resolution::Hit {
            card: Description::new(hit.endpoint.name()),
            canonical: hit.canonical.map(|name| iri(name.as_str())),
        },
        ikigai_core::Resolution::Miss => Resolution::Miss,
    }
}

fn mount(rewrite: ModuleRewrite) -> Result<ModuleSpace, Error> {
    ModuleSpace::connect(
        texts(&["urn:stub:"]),
        ModuleManifest::new(None, rewrite),
        ModuleFloor::public(),
    )
}

#[test]
fn a_table_is_declared_in_its_text_form() {
    let table = AliasTable::new().exact("urn:xslt:render", "urn:xslt:transform");
    assert_eq!(
        ModuleRewrite::from_table(&table),
        ModuleRewrite::Table("exact urn:xslt:render urn:xslt:transform\n".to_string()),
    );
    let table = AliasTable::new()
        .prefix("urn:a:", "urn:b:")
        .with_max_hops(12);
    assert_eq!(
        ModuleRewrite::from_table(&table),
        ModuleRewrite::Table("max-hops 12\nprefix urn:a: urn:b:\n".to_string()),
    );
}

#[test]
fn the_declaration_survives_the_codec() {
    let table = join_table();
    let space = aliasing_module(&table);
    let entries: Vec<SpaceEntry> = space
        .entries()
        .unwrap()
        .into_iter()
        .map(|e| SpaceEntry {
            pattern: e.pattern,
            endpoint: e.endpoint,
            origin: e.origin,
        })
        .collect();
    let ModuleRewrite::Table(text) = ModuleRewrite::from_table(&table) else {
        panic!("a table is declared as a table");
    };
    let crossed: String = postcard::from_bytes(&postcard::to_allocvec(&text).unwrap()).unwrap();
    let manifest = ModuleManifest::new(Some(entries), ModuleRewrite::Table(crossed));
    assert_eq!(manifest.rewrite, ModuleRewrite::from_table(&table));
    let parsed = manifest
        .rewrite
        .table()
        .expect("the declared table parses")
        .expect("a table was declared");
    assert_eq!(parsed.rules().len(), 2);
    assert_eq!(
        parsed
            .canonicalize(&ikigai_core::Iri::parse("urn:stub:join").unwrap())
            .canonical()
            .map(ikigai_core::Iri::as_str),
        Some("urn:stub:concat"),
    );
    assert_eq!(
        manifest.entries.as_deref(),
        Some(
            &[
                SpaceEntry::new("urn:stub:concat", "stub-concat"),
                SpaceEntry::new("urn:stub:whoami", "stub-whoami"),
            ][..]
        ),
    );
}

#[test]
fn a_declaration_without_a_table_has_none() {
    for rewrite in [
        ModuleRewrite::AsGiven,
        ModuleRewrite::Undeclarable("why".to_string()),
        ModuleRewrite::Unknown,
    ] {
        assert!(matches!(rewrite.table(), Ok(None)), "{rewrite:?}");
    }
    assert!(ModuleRewrite::AsGiven.is_declared());
    assert!(ModuleRewrite::Table(String::new()).is_declared());
    assert!(!ModuleRewrite::Undeclarable("why".to_string()).is_declared());
    assert!(!ModuleRewrite::Unknown.is_declared());
}

#[test]
fn a_name_with_a_hash_is_not_read_back_as_it_was() {
    let table = AliasTable::new().exact("urn:stub:a#b", "urn:stub:c");
    assert!(ModuleRewrite::from_table(&table).table().is_err());
}

#[test]
fn a_table_that_cannot_be_read_says_where() {
    let error = ModuleRewrite::Table("# fine\nwobble urn:stub:join\n".to_string())
        .table()
        .map(|_| ())
        .unwrap_err();
    assert_eq!(error.line, 2);
    assert_eq!(
        error.text(),
        format!("alias table line 2: {}", error.detail)
    );
    let error = ModuleRewrite::Table("max-hops many\n".to_string())
        .table()
        .map(|_| ())
        .unwrap_err();
    assert_eq!(error.text(), "alias table line 1: `many` is not a hop count");
}

#[test]
fn a_rewrite_pointing_outside_the_modules_prefixes_is_refused_at_mount_time() {
    let err = ModuleSpace::new(texts(&["urn:stub:"]), ModuleFloor::public())
        .declaring(ModuleRewrite::Table(
            "exact urn:stub:join urn:test:greeting\n".to_string(),
        ))
        .map(|_| ())
        .expect_err("a rule leaving the module's namespace must not mount");
    assert!(err.text().contains("outside the prefixes"), "{err:?}");
    assert_eq!(
        err,
        Error::Endpoint(
            "module rewrite rule `exact urn:stub:join urn:test:greeting` has a to outside the \
             prefixes this module is mounted at (urn:stub:); a module may only canonicalize \
             names the host routed to it"
                .to_string()
        )
    );
}

#[test]
fn the_left_side_is_looked_at_first_and_every_prefix_is_named() {
    let err = ModuleAliases::install(
        &texts(&["urn:a:", "urn:b:"]),
        ModuleRewrite::Table("prefix urn:c: urn:d:\n".to_string()),
    )
    .map(|_| ())
    .unwrap_err();
    assert_eq!(
        err,
        Error::Endpoint(
            "module rewrite rule `prefix urn:c: urn:d:` has a from outside the prefixes this \
             module is mounted at (urn:a:, urn:b:); a module may only canonicalize names the \
             host routed to it"
                .to_string()
        )
    );
}

#[test]
fn a_rewrite_naming_the_kernel_namespace_is_refused_at_mount_time() {
    let err = ModuleSpace::new(texts(&["urn:stub:", "urn:kernel:"]), ModuleFloor::public())
        .declaring(ModuleRewrite::Table(
            "exact urn:stub:join urn:kernel:cut\n".to_string(),
        ))
        .map(|_| ())
        .expect_err("the reserved namespace is not aliasable");
    assert!(err.text().contains("reserved kernel namespace"), "{err:?}");
    assert_eq!(
        err,
        Error::Endpoint(
            "module rewrite rule `exact urn:stub:join urn:kernel:cut` names the reserved kernel \
             namespace on the to side; `urn:kernel:*` is resolved by the kernel ahead of any \
             space and cannot be aliased"
                .to_string()
        )
    );
}

#[test]
fn an_unparseable_declared_table_is_refused_at_mount_time() {
    let err = ModuleSpace::new(texts(&["urn:stub:"]), ModuleFloor::public())
        .declaring(ModuleRewrite::Table("wobble urn:stub:join\n".to_string()))
        .map(|_| ())
        .expect_err("a malformed table fails when it is read");
    assert!(err.text().contains("unparseable"), "{err:?}");
    assert!(
        err.text()
            .contains("module declared an unparseable rewrite table: alias table line 1: "),
        "{err:?}"
    );
    let lazy = WasmModuleSpace::new(
        texts(&["urn:stub:"]),
        Description::new("stub"),
        ModuleFloor::public(),
    )
    .declaring(ModuleRewrite::Table("wobble urn:stub:join\n".to_string()))
    .map(|_| ());
    assert_eq!(lazy, Err(err));
}

#[test]
fn a_declared_alias_is_applied_by_the_host_and_passes_the_guard() {
    let table = join_table();
    let module = aliasing_module(&table);
    let space = mount(ModuleRewrite::from_table(&table)).unwrap();
    for (logical, backing) in [
        ("urn:stub:join", "urn:stub:concat"),
        ("urn:stub:me", "urn:stub:whoami"),
    ] {
        let Mounted::Served { canonical, warning, .. } = space.resolve(&source(logical)) else {
            panic!("{logical} is served");
        };
        assert_eq!(canonical.as_ref().map(|c| c.as_str()), Some(backing));
        assert_eq!(warning, None);
        let applied = source(backing);
        let reply = dispatch(
            &resolved(&*module, backing),
            space.rewrite(),
            &applied,
            &Capability::root(),
        );
        assert!(reply.is_none(), "{reply:?}");
        let Mounted::Served { canonical, .. } = space.resolve(&applied) else {
            panic!("{backing} is served");
        };
        assert_eq!(canonical, None);
    }
}

#[test]
fn a_prefix_rule_carries_the_rest_over_and_a_cycle_is_refused() {
    let aliases = ModuleAliases::install(
        &texts(&["urn:stub:"]),
        ModuleRewrite::Table(
            "prefix urn:stub:old: urn:stub:new:\nexact urn:stub:a urn:stub:b\nexact urn:stub:b urn:stub:a\n"
                .to_string(),
        ),
    )
    .map_err(|e| e.text())
    .unwrap();
    assert_eq!(
        aliases.route(&iri("urn:stub:old:thing")),
        Routing::Canonical(iri("urn:stub:new:thing"))
    );
    assert_eq!(aliases.route(&iri("urn:stub:new:thing")), Routing::Direct);
    let Routing::Refuse(message) = aliases.route(&iri("urn:stub:a")) else {
        panic!("a cycle is refused");
    };
    assert!(message.starts_with("module alias rewrite refused: "), "{message}");
    assert!(message.contains("alias cycle"), "{message}");
}

#[test]
fn the_kernels_own_names_are_never_rewritten() {
    let aliases = ModuleAliases::install(
        &texts(&["urn:"]),
        ModuleRewrite::Table("prefix urn:k urn:other:\n".to_string()),
    )
    .map_err(|e| e.text())
    .unwrap();
    assert_eq!(aliases.route(&iri("urn:kernel:cut")), Routing::Direct);
    assert_eq!(
        aliases.route(&iri("urn:kind:x")),
        Routing::Canonical(iri("urn:other:ind:x"))
    );
}

fn undeclared_error(declared: &ModuleRewrite) -> Error {
    let module = aliasing_module(&join_table());
    let reply = dispatch(
        &resolved(&*module, "urn:stub:join"),
        declared,
        &source("urn:stub:join"),
        &Capability::root(),
    )
    .expect("an undeclared rewrite must not be served");
    assert!(matches!(reply, ModuleReply::Error(_)), "{reply:?}");
    outcome_from(reply).unwrap_err()
}

#[test]
fn an_undeclared_rewrite_is_refused_rather_than_split_in_two() {
    let message = undeclared_error(&ModuleRewrite::Unknown).text();
    assert!(message.contains("urn:stub:join"), "{message}");
    assert!(message.contains("urn:stub:concat"), "{message}");
    assert!(message.contains("never declared"), "{message}");
    assert_eq!(
        message,
        "endpoint error: module resolved urn:stub:join under urn:stub:concat, a rewrite it never \
         declared: the host has already keyed its cache, cut its golden thread and checked the \
         capability floor under urn:stub:join, so the two names would be two resources. Declare \
         the rewrite (`ModuleRewrite::from_table`) so the host can apply it before it resolves, \
         or — if it cannot be written as a table — declare `ModuleRewrite::Undeclarable` so the \
         host refuses or accepts it deliberately."
    );
}

#[test]
fn declaring_none_is_a_claim_and_a_module_that_breaks_it_is_refused() {
    let space = mount(ModuleRewrite::AsGiven).unwrap();
    assert_eq!(space.rewrite(), &ModuleRewrite::AsGiven);
    let Mounted::Served { canonical: None, .. } = space.resolve(&source("urn:stub:join")) else {
        panic!("resolved as given");
    };
    let err = undeclared_error(space.rewrite());
    assert!(err.text().contains("never declared"), "{err:?}");
}

#[test]
fn the_guard_passes_what_names_the_target_itself_or_was_said_to_be_unsayable() {
    let request = source("urn:stub:join");
    let other = iri("urn:stub:concat");
    let same = iri("urn:stub:join");
    let unsayable = ModuleRewrite::Undeclarable("closure".to_string());
    assert_eq!(
        refuse_undeclared_rewrite(&request, None, &ModuleRewrite::Unknown),
        None
    );
    assert_eq!(
        refuse_undeclared_rewrite(&request, Some(&same), &ModuleRewrite::AsGiven),
        None
    );
    assert_eq!(
        refuse_undeclared_rewrite(&request, Some(&other), &unsayable),
        None
    );
    assert!(
        refuse_undeclared_rewrite(&request, Some(&other), &ModuleRewrite::Table(String::new()))
            .is_some()
    );
}

fn undeclarable_module() -> Arc<dyn Space> {
    Arc::new(Rewrite::new(Arc::new(stub_module()), |name| {
        if name.as_str() == "urn:stub:join" {
            ikigai_core::Iri::parse("urn:stub:concat").ok()
        } else {
            None
        }
    }))
}

#[test]
fn an_undeclarable_rewrite_is_refused_by_default() {
    let space = mount(ModuleRewrite::Undeclarable(
        "rewrites through a host-supplied closure".to_string(),
    ))
    .unwrap();
    let Mounted::Refused(message) = space.resolve(&source("urn:stub:join")) else {
        panic!("an undeclarable rewrite is refused by default");
    };
    assert!(message.contains("cannot declare"), "{message}");
    assert!(message.contains("host-supplied closure"), "{message}");
    assert_eq!(
        message,
        "module may rewrite urn:stub:join in a way it cannot declare (rewrites through a \
         host-supplied closure), so the host cannot give a logical name and its backing name one \
         identity: they would be two cache entries and two golden threads over one resource. \
         Which targets are affected is exactly what the module could not say. Refused. Express \
         the rewrite as an alias table and declare it, or set `OnUndeclarable::Warn` to accept \
         the split deliberately."
    );
    assert_eq!(OnUndeclarable::default(), OnUndeclarable::Refuse);
}

#[test]
fn a_split_that_is_accepted_is_warned_of_and_invoked() {
    let space = mount(ModuleRewrite::Undeclarable(
        "rewrites through a host-supplied closure".to_string(),
    ))
    .unwrap()
    .on_undeclarable(OnUndeclarable::Warn);
    let Mounted::Served { canonical, warning, .. } = space.resolve(&source("urn:stub:join")) else {
        panic!("accepted, so it resolves");
    };
    assert_eq!(canonical, None);
    let warning = warning.expect("the operator is warned");
    assert!(warning.contains("cannot declare"), "{warning}");
    assert!(warning.ends_with(" Accepted (OnUndeclarable::Warn)."), "{warning}");
    let reply = dispatch(
        &resolved(&*undeclarable_module(), "urn:stub:join"),
        space.rewrite(),
        &source("urn:stub:join"),
        &Capability::root(),
    );
    assert!(reply.is_none(), "accepted, so it is invoked: {reply:?}");
}

#[test]
fn declaring_again_goes_back_to_refusing() {
    let space = mount(ModuleRewrite::Unknown)
        .unwrap()
        .on_undeclarable(OnUndeclarable::Warn)
        .declaring(ModuleRewrite::Undeclarable("closure".to_string()))
        .unwrap();
    assert!(matches!(
        space.resolve(&source("urn:stub:join")),
        Mounted::Refused(_)
    ));
}

#[test]
fn a_transport_that_cannot_answer_reports_unknown_not_none() {
    let manifest = ModuleManifest::unknown(None);
    assert_eq!(manifest.rewrite, ModuleRewrite::Unknown);
    assert!(!manifest.rewrite.is_declared());
    let module = ModuleSpace::connect(texts(&["urn:stub:"]), manifest, ModuleFloor::public())
        .map_err(|e| e.text())
        .expect("mounting an unasked module still works")
        .with_cards(Vec::new());
    assert_eq!(module.rewrite(), &ModuleRewrite::Unknown);
}

#[test]
fn a_rewritten_name_is_reported_by_both_mounts() {
    let table = AliasTable::new().exact("urn:mod:alias-cell", "urn:mod:cell");
    let prefixes = || texts(&["urn:mod:"]);
    let asked = ModuleSpace::connect(
        prefixes(),
        ModuleManifest::new(None, ModuleRewrite::from_table(&table)),
        ModuleFloor::public(),
    )
    .map_err(|e| e.text())
    .unwrap();
    let lazy = WasmModuleSpace::new(prefixes(), Description::new("demo"), ModuleFloor::public())
        .declaring(ModuleRewrite::from_table(&table))
        .map_err(|e| e.text())
        .unwrap();
    for mounted in [
        asked.resolve(&source("urn:mod:alias-cell")),
        lazy.resolve(&source("urn:mod:alias-cell")),
    ] {
        let Mounted::Served { canonical, .. } = mounted else {
            panic!("served");
        };
        assert_eq!(canonical, Some(iri("urn:mod:cell")));
    }
    for mounted in [
        asked.resolve(&source("urn:mod:cell")),
        lazy.resolve(&source("urn:mod:cell")),
    ] {
        let Mounted::Served { canonical, .. } = mounted else {
            panic!("served");
        };
        assert_eq!(canonical, None);
    }
}

#[test]
fn a_peer_that_gives_no_manifest_is_recorded_as_unknown() {
    let entries = || Some(vec![SpaceEntry::new("urn:stub:concat", "stub-concat")]);
    let recorded = ModuleManifest::given_or_unknown(None, entries());
    assert_eq!(recorded, ModuleManifest::unknown(entries()));
    assert_eq!(recorded.rewrite, ModuleRewrite::Unknown);
    let given = ModuleManifest::new(entries(), ModuleRewrite::AsGiven);
    assert_eq!(
        ModuleManifest::given_or_unknown(Some(given.clone()), None),
        given
    );
}

#[test]
fn rules_are_checked_in_order_and_the_left_side_first() {
    let rule = |kind: &str, from: &str, to: &str| {
        (kind.to_string(), from.to_string(), to.to_string())
    };
    let prefixes = texts(&["urn:a:", "urn:b:"]);
    let inside = rule("exact", "urn:a:x", "urn:b:y");
    assert_eq!(check_rules(&prefixes, &Vec::new()), None);
    assert_eq!(check_rules(&prefixes, &vec![inside.clone()]), None);
    assert_eq!(
        check_rules(
            &prefixes,
            &vec![
                inside.clone(),
                rule("prefix", "urn:c:", "urn:kernel:"),
                rule("exact", "urn:kernel:x", "urn:a:x"),
            ],
        )
        .unwrap(),
        "module rewrite rule `prefix urn:c: urn:kernel:` has a from outside the prefixes this \
         module is mounted at (urn:a:, urn:b:); a module may only canonicalize names the host \
         routed to it"
    );
    let reserved = check_rules(&prefixes, &vec![rule("exact", "urn:a:x", "urn:kernel:y")]).unwrap();
    assert!(
        reserved.contains("names the reserved kernel namespace on the to side"),
        "{reserved}"
    );
}

#[test]
fn a_walk_decides_where_a_name_goes() {
    assert!(matches!(routing_of(None), Routing::Direct));
    let Routing::Canonical(name) = routing_of(Some(Ok(iri("urn:stub:concat")))) else {
        panic!("a walk that ends at a name gives that name");
    };
    assert_eq!(name, iri("urn:stub:concat"));
    let Routing::Refuse(message) = routing_of(Some(Err("a cycle".to_string()))) else {
        panic!("a refused walk is refused");
    };
    assert_eq!(message, "module alias rewrite refused: a cycle");
}
