//! How a module names things: what it declares of its rewriting, and what a host makes of it.

use vstd::prelude::*;

use ikigai_core::AliasTable;

use crate::kernel::{copy_entries, Error, ErrorView, Iri, Request, SpaceEntry, SpaceEntryView};
use crate::outside::{
    alias_canonicalize, alias_error_text, alias_limit, alias_parse, alias_reading, alias_rules,
    alias_table_rules, alias_walk, decimal, iri_accepts, reads_as, table_text, writable_rules,
};
use crate::text::{
    has_prefix, join_texts, joined, lemma_mentions, lemma_mentions_before, lemma_mentions_last,
    mentions, same_text, starts_under, under_any,
};

verus! {

// ---------------------------------------------------------------------------
// The declaration.
// ---------------------------------------------------------------------------

/// A module's answer to whether anything under its prefixes resolves under another name.
#[derive(PartialEq, Eq, Debug)]
pub enum ModuleRewrite {
    /// Every target resolves under the name it was given. A claim, not a default.
    AsGiven,
    /// Names are rewritten through this table, in its line-oriented text form
    /// (`prefix urn:a: urn:b:` or `exact urn:x urn:y`).
    Table(String),
    /// The module rewrites in a way it cannot write down, for this reason.
    Undeclarable(String),
    /// No claim was made. Not the same as [`AsGiven`](ModuleRewrite::AsGiven).
    Unknown,
}

/// [`ModuleRewrite`] as a value.
pub enum ModuleRewriteView {
    /// Every target resolves under the name it was given.
    AsGiven,
    /// Names are rewritten through the table this text is.
    Table(Seq<char>),
    /// The module rewrites in a way it cannot write down, for this reason.
    Undeclarable(Seq<char>),
    /// No claim was made.
    Unknown,
}

impl View for ModuleRewrite {
    type V = ModuleRewriteView;

    open spec fn view(&self) -> ModuleRewriteView {
        match self {
            ModuleRewrite::AsGiven => ModuleRewriteView::AsGiven,
            ModuleRewrite::Table(text) => ModuleRewriteView::Table(text@),
            ModuleRewrite::Undeclarable(reason) => ModuleRewriteView::Undeclarable(reason@),
            ModuleRewrite::Unknown => ModuleRewriteView::Unknown,
        }
    }
}

/// Whether `rewrite` is a statement of how the module names things.
pub open spec fn states_naming(rewrite: ModuleRewriteView) -> bool {
    rewrite is AsGiven || rewrite is Table
}

/// Whether `rewrite` declares a table of exactly these rules and this limit.
pub open spec fn declares(
    rewrite: ModuleRewriteView,
    rules: Seq<(Seq<char>, Seq<char>, Seq<char>)>,
    limit: nat,
) -> bool {
    rewrite matches ModuleRewriteView::Table(text) && reads_as(text, rules, limit)
}

/// Whether every rule of `rules` names IRIs on both sides.
pub open spec fn names_iris(rules: Seq<(Seq<char>, Seq<char>, Seq<char>)>) -> bool {
    forall|i: int|
        0 <= i < rules.len() ==> iri_accepts((#[trigger] rules[i]).1) && iri_accepts(rules[i].2)
}

/// Why a declared table could not be read.
#[derive(PartialEq, Eq, Debug)]
pub struct AliasParseError {
    /// The line, counted from one.
    pub line: usize,
    /// What was wrong with it.
    pub detail: String,
}

/// A parse failure as the operator reads it.
pub open spec fn parse_error_text(line: nat, detail: Seq<char>) -> Seq<char> {
    "alias table line "@ + decimal(line) + ": "@ + detail
}

impl AliasParseError {
    /// The failure as the operator reads it.
    pub fn text(&self) -> (r: String)
        ensures
            r@ == parse_error_text(self.line as nat, self.detail@),
    {
        alias_error_text(self.line, self.detail.as_str())
    }
}

impl ModuleRewrite {
    /// Declares `table`, the very table the module rewrites through. Read back with
    /// [`table`](Self::table), the declaration gives the same rules and limit wherever every
    /// name in the table can be written in its text form.
    pub fn from_table(table: &AliasTable) -> (r: Self)
        ensures
            r@ == ModuleRewriteView::Table(table_text(alias_rules(*table), alias_limit(*table))),
            writable_rules(alias_rules(*table)) ==> declares(
                r@,
                alias_rules(*table),
                alias_limit(*table),
            ),
    {
        ModuleRewrite::Table(table.to_text())
    }

    /// The declared table. `Ok(None)` for every declaration that holds none.
    pub fn table(&self) -> (r: Result<Option<AliasTable>, AliasParseError>)
        ensures
            r matches Ok(None) <==> self@ !is Table,
            r matches Ok(Some(table)) ==> {
                &&& declares(self@, alias_rules(table), alias_limit(table))
                &&& names_iris(alias_rules(table))
            },
            r matches Err(error) ==> {
                &&& self@ matches ModuleRewriteView::Table(text)
                &&& alias_reading(text) == Err::<
                    (Seq<(Seq<char>, Seq<char>, Seq<char>)>, nat),
                    (nat, Seq<char>),
                >((error.line as nat, error.detail@))
            },
    {
        match self {
            ModuleRewrite::Table(text) => match alias_parse(text.as_str()) {
                Ok(table) => Ok(Some(table)),
                Err((line, detail)) => Err(AliasParseError { line, detail }),
            },
            _ => Ok(None),
        }
    }

    /// Whether the module stated how it names things.
    pub fn is_declared(&self) -> (r: bool)
        ensures
            r == states_naming(self@),
    {
        matches!(self, ModuleRewrite::AsGiven | ModuleRewrite::Table(_))
    }
}

impl Clone for ModuleRewrite {
    fn clone(&self) -> (r: Self)
        ensures
            r@ == self@,
    {
        match self {
            ModuleRewrite::AsGiven => ModuleRewrite::AsGiven,
            ModuleRewrite::Table(text) => ModuleRewrite::Table(text.clone()),
            ModuleRewrite::Undeclarable(reason) => ModuleRewrite::Undeclarable(reason.clone()),
            ModuleRewrite::Unknown => ModuleRewrite::Unknown,
        }
    }
}

/// A module's description of itself: what it binds, and how it rewrites names.
#[derive(PartialEq, Eq, Debug)]
pub struct ModuleManifest {
    /// What it binds, if it can say.
    pub entries: Option<Vec<SpaceEntry>>,
    /// How it rewrites names.
    pub rewrite: ModuleRewrite,
}

/// [`ModuleManifest`] as a value.
pub struct ModuleManifestView {
    /// What it binds, if it can say.
    pub entries: Option<Seq<SpaceEntryView>>,
    /// How it rewrites names.
    pub rewrite: ModuleRewriteView,
}

impl View for ModuleManifest {
    type V = ModuleManifestView;

    open spec fn view(&self) -> ModuleManifestView {
        ModuleManifestView { entries: self.entries.deep_view(), rewrite: self.rewrite@ }
    }
}

impl ModuleManifest {
    /// The manifest of a module that declares `rewrite`.
    pub fn new(entries: Option<Vec<SpaceEntry>>, rewrite: ModuleRewrite) -> (r: Self)
        ensures
            r@ == (ModuleManifestView { entries: entries.deep_view(), rewrite: rewrite@ }),
    {
        ModuleManifest { entries, rewrite }
    }

    /// What a host records of a module that could not be asked: its bindings may be known,
    /// its naming is not.
    pub fn unknown(entries: Option<Vec<SpaceEntry>>) -> (r: Self)
        ensures
            r@ == (ModuleManifestView {
                entries: entries.deep_view(),
                rewrite: ModuleRewriteView::Unknown,
            }),
    {
        ModuleManifest { entries, rewrite: ModuleRewrite::Unknown }
    }

    /// What a host records of a module: the manifest it gave, or, where it gave none, that its
    /// naming is not known. The `entries` are then all there is.
    pub fn given_or_unknown(
        given: Option<ModuleManifest>,
        entries: Option<Vec<SpaceEntry>>,
    ) -> (r: Self)
        ensures
            r@ == (match given {
                Some(manifest) => manifest@,
                None => ModuleManifestView {
                    entries: entries.deep_view(),
                    rewrite: ModuleRewriteView::Unknown,
                },
            }),
    {
        match given {
            Some(manifest) => manifest,
            None => ModuleManifest::unknown(entries),
        }
    }
}

impl Clone for ModuleManifest {
    fn clone(&self) -> (r: Self)
        ensures
            r@ == self@,
    {
        ModuleManifest { entries: copy_entries(&self.entries), rewrite: self.rewrite.clone() }
    }
}

// ---------------------------------------------------------------------------
// The module side: the identity guard.
// ---------------------------------------------------------------------------

/// Whether a resolution of `target` that reports `canonical` is a rewrite the host was never
/// told of: it names something else, and the module did not say that it cannot say.
pub open spec fn is_undeclared(
    declared: ModuleRewriteView,
    target: Seq<char>,
    canonical: Option<Seq<char>>,
) -> bool {
    declared !is Undeclarable && (canonical matches Some(name) && name != target)
}

/// What the host is told of a rewrite that was never declared.
pub open spec fn undeclared_text(target: Seq<char>, canonical: Seq<char>) -> Seq<char> {
    "module resolved "@ + target + " under "@ + canonical
        + ", a rewrite it never declared: the host has already keyed its cache, cut its golden thread and checked the capability floor under "@
        + target
        + ", so the two names would be two resources. Declare the rewrite (`ModuleRewrite::from_table`) so the host can apply it before it resolves, or — if it cannot be written as a table — declare `ModuleRewrite::Undeclarable` so the host refuses or accepts it deliberately."@
}

/// Why the module refuses `request`, which it resolved under `canonical`: the host has filed
/// the answer under the name it gave, and this is another one.
pub fn refuse_undeclared_rewrite(
    request: &Request,
    canonical: Option<&Iri>,
    declared: &ModuleRewrite,
) -> (r: Option<String>)
    ensures
        r is Some <==> is_undeclared(declared@, request@.target, canonical.deep_view()),
        r matches Some(message) ==> message@ == undeclared_text(
            request@.target,
            canonical.deep_view()->0,
        ),
{
    if matches!(declared, ModuleRewrite::Undeclarable(_)) {
        return None;
    }
    match canonical {
        None => None,
        Some(canonical) => {
            if same_text(canonical.as_str(), request.target.as_str()) {
                return None;
            }
            let mut text = "module resolved ".to_owned();
            text.append(request.target.as_str());
            text.append(" under ");
            text.append(canonical.as_str());
            text.append(", a rewrite it never declared: the host has already keyed its cache, cut its golden thread and checked the capability floor under ");
            text.append(request.target.as_str());
            text.append(", so the two names would be two resources. Declare the rewrite (`ModuleRewrite::from_table`) so the host can apply it before it resolves, or — if it cannot be written as a table — declare `ModuleRewrite::Undeclarable` so the host refuses or accepts it deliberately.");
            Some(text)
        },
    }
}

// ---------------------------------------------------------------------------
// The host side: what is installed, and where it routes a target.
// ---------------------------------------------------------------------------

/// What a host does about a module that rewrites in a way it cannot declare.
#[derive(Clone, Copy, PartialEq, Eq, Debug, Structural)]
pub enum OnUndeclarable {
    /// Refuse every target routed to the module.
    Refuse,
    /// Resolve anyway, and say so.
    Warn,
}

impl Default for OnUndeclarable {
    fn default() -> (r: Self)
        ensures
            r is Refuse,
    {
        OnUndeclarable::Refuse
    }
}

/// Where a target goes.
#[derive(PartialEq, Eq, Debug)]
pub enum Routing {
    /// It resolves under the name as given.
    Direct,
    /// It resolves under this name instead, which is reported to the kernel.
    Canonical(Iri),
    /// It does not resolve; whoever invokes it is told this.
    Refuse(String),
    /// It resolves under the name as given, and the operator is warned of this.
    Accept(String),
}

/// [`Routing`] as a value.
pub enum RoutingView {
    /// It resolves under the name as given.
    Direct,
    /// It resolves under this name instead.
    Canonical(Seq<char>),
    /// It does not resolve; whoever invokes it is told this.
    Refuse(Seq<char>),
    /// It resolves under the name as given, and the operator is warned of this.
    Accept(Seq<char>),
}

impl View for Routing {
    type V = RoutingView;

    open spec fn view(&self) -> RoutingView {
        match self {
            Routing::Direct => RoutingView::Direct,
            Routing::Canonical(iri) => RoutingView::Canonical(iri@),
            Routing::Refuse(message) => RoutingView::Refuse(message@),
            Routing::Accept(message) => RoutingView::Accept(message@),
        }
    }
}

/// What is wrong with routing `target` to a module that cannot declare its rewriting.
pub open spec fn split_text(target: Seq<char>, reason: Seq<char>) -> Seq<char> {
    "module may rewrite "@ + target + " in a way it cannot declare ("@ + reason
        + "), so the host cannot give a logical name and its backing name one identity: they would be two cache entries and two golden threads over one resource. Which targets are affected is exactly what the module could not say."@
}

/// Where a name goes that a walk through an alias table ended so for: no rule applied, or it
/// ended at a name, or it was refused.
pub open spec fn walked_to(walk: Option<Result<Seq<char>, Seq<char>>>) -> RoutingView {
    match walk {
        None => RoutingView::Direct,
        Some(Ok(name)) => RoutingView::Canonical(name),
        Some(Err(refusal)) => RoutingView::Refuse("module alias rewrite refused: "@ + refusal),
    }
}

/// How a walk through an alias table ended, as a value.
pub open spec fn walk_ended(walk: Option<Result<Iri, String>>) -> Option<
    Result<Seq<char>, Seq<char>>,
> {
    match walk {
        None => None,
        Some(Ok(name)) => Some(Ok(name@)),
        Some(Err(refusal)) => Some(Err(refusal@)),
    }
}

/// Where a name goes, given how its walk through an alias table ended.
pub fn routing_of(walk: Option<Result<Iri, String>>) -> (r: Routing)
    ensures
        r@ == walked_to(walk_ended(walk)),
{
    match walk {
        None => Routing::Direct,
        Some(Ok(name)) => Routing::Canonical(name),
        Some(Err(refusal)) => {
            let mut text = "module alias rewrite refused: ".to_owned();
            text.append(refusal.as_str());
            Routing::Refuse(text)
        },
    }
}

/// Where a host that installed `rewrite` under `policy` routes `target`.
pub open spec fn routed(
    rewrite: ModuleRewriteView,
    policy: OnUndeclarable,
    target: Seq<char>,
) -> RoutingView {
    match rewrite {
        ModuleRewriteView::AsGiven => RoutingView::Direct,
        ModuleRewriteView::Unknown => RoutingView::Direct,
        ModuleRewriteView::Undeclarable(reason) => match policy {
            OnUndeclarable::Refuse => RoutingView::Refuse(
                split_text(target, reason)
                    + " Refused. Express the rewrite as an alias table and declare it, or set `OnUndeclarable::Warn` to accept the split deliberately."@,
            ),
            OnUndeclarable::Warn => RoutingView::Accept(
                split_text(target, reason) + " Accepted (OnUndeclarable::Warn)."@,
            ),
        },
        ModuleRewriteView::Table(text) => match alias_reading(text) {
            Ok((rules, limit)) => walked_to(alias_walk(rules, limit, target)),
            Err(_) => RoutingView::Direct,
        },
    }
}

/// What is wrong with `name` on the `side` of `rule`, in a module mounted at `prefixes`.
pub open spec fn side_fault(
    prefixes: Seq<Seq<char>>,
    rule: (Seq<char>, Seq<char>, Seq<char>),
    side: Seq<char>,
    name: Seq<char>,
) -> Option<Seq<char>> {
    let shown = "module rewrite rule `"@ + rule.0 + " "@ + rule.1 + " "@ + rule.2;
    if "urn:kernel:"@.is_prefix_of(name) {
        Some(
            shown + "` names the reserved kernel namespace on the "@ + side
                + " side; `urn:kernel:*` is resolved by the kernel ahead of any space and cannot be aliased"@,
        )
    } else if !under_any(prefixes, name) {
        Some(
            shown + "` has a "@ + side + " outside the prefixes this module is mounted at ("@
                + joined(prefixes, ", "@)
                + "); a module may only canonicalize names the host routed to it"@,
        )
    } else {
        None
    }
}

/// What is wrong with `rule` in a module mounted at `prefixes`: its left side is looked at
/// first, then its right.
pub open spec fn rule_fault(
    prefixes: Seq<Seq<char>>,
    rule: (Seq<char>, Seq<char>, Seq<char>),
) -> Option<Seq<char>> {
    match side_fault(prefixes, rule, "from"@, rule.1) {
        Some(fault) => Some(fault),
        None => side_fault(prefixes, rule, "to"@, rule.2),
    }
}

/// The first fault of `rules` in a module mounted at `prefixes`.
pub open spec fn first_fault(
    prefixes: Seq<Seq<char>>,
    rules: Seq<(Seq<char>, Seq<char>, Seq<char>)>,
) -> Option<Seq<char>>
    decreases rules.len(),
{
    if rules.len() == 0 {
        None
    } else {
        match rule_fault(prefixes, rules[0]) {
            Some(fault) => Some(fault),
            None => first_fault(prefixes, rules.drop_first()),
        }
    }
}

/// Why `rewrite` cannot be installed for a module mounted at `prefixes`.
pub open spec fn install_fault(
    prefixes: Seq<Seq<char>>,
    rewrite: ModuleRewriteView,
) -> Option<Seq<char>> {
    match rewrite {
        ModuleRewriteView::Table(text) => match alias_reading(text) {
            Ok((rules, _)) => first_fault(prefixes, rules),
            Err((line, detail)) => Some(
                "module declared an unparseable rewrite table: "@ + parse_error_text(line, detail),
            ),
        },
        _ => None,
    }
}

/// Looks at one side of a rule.
fn check_side(
    prefixes: &Vec<String>,
    rule: &(String, String, String),
    side: &str,
    name: &str,
) -> (r: Option<String>)
    ensures
        r.deep_view() == side_fault(prefixes.deep_view(), rule.deep_view(), side@, name@),
{
    let mut text = "module rewrite rule `".to_owned();
    text.append(rule.0.as_str());
    text.append(" ");
    text.append(rule.1.as_str());
    text.append(" ");
    text.append(rule.2.as_str());
    if has_prefix(name, "urn:kernel:") {
        text.append("` names the reserved kernel namespace on the ");
        text.append(side);
        text.append(" side; `urn:kernel:*` is resolved by the kernel ahead of any space and cannot be aliased");
        return Some(text);
    }
    if !starts_under(prefixes, name) {
        text.append("` has a ");
        text.append(side);
        text.append(" outside the prefixes this module is mounted at (");
        text.append(join_texts(prefixes, ", ").as_str());
        text.append("); a module may only canonicalize names the host routed to it");
        return Some(text);
    }
    None
}

/// Looks at one rule.
fn check_rule(prefixes: &Vec<String>, rule: &(String, String, String)) -> (r: Option<String>)
    ensures
        r.deep_view() == rule_fault(prefixes.deep_view(), rule.deep_view()),
{
    match check_side(prefixes, rule, "from", rule.1.as_str()) {
        Some(fault) => Some(fault),
        None => check_side(prefixes, rule, "to", rule.2.as_str()),
    }
}

/// Why a table of `rules`, each with its kind and its two sides, cannot be installed for a
/// module mounted at `prefixes`.
pub fn check_rules(prefixes: &Vec<String>, rules: &Vec<(String, String, String)>) -> (r: Option<
    String,
>)
    ensures
        r.deep_view() == first_fault(prefixes.deep_view(), rules.deep_view()),
{
    let ghost all = rules.deep_view();
    assert(all.skip(0) == all);
    let mut i: usize = 0;
    while i < rules.len()
        invariant
            i <= rules.len(),
            all == rules.deep_view(),
            first_fault(prefixes.deep_view(), all) == first_fault(
                prefixes.deep_view(),
                all.skip(i as int),
            ),
        decreases rules.len() - i,
    {
        assert(all.skip(i as int)[0] == rules[i as int].deep_view());
        let fault = check_rule(prefixes, &rules[i]);
        if fault.is_some() {
            return fault;
        }
        assert(all.skip(i as int).drop_first() == all.skip(i + 1));
        i += 1;
    }
    None
}

/// A host's copy of what a module declared, held where a resolution can consult it at once.
pub struct ModuleAliases {
    rewrite: ModuleRewrite,
    table: Option<AliasTable>,
    policy: OnUndeclarable,
}

/// [`ModuleAliases`] as a value.
pub struct ModuleAliasesView {
    /// What the module said.
    pub rewrite: ModuleRewriteView,
    /// What to do where it could not say.
    pub policy: OnUndeclarable,
}

impl View for ModuleAliases {
    type V = ModuleAliasesView;

    closed spec fn view(&self) -> ModuleAliasesView {
        ModuleAliasesView { rewrite: self.rewrite@, policy: self.policy }
    }
}

impl ModuleAliases {
    /// The table is the one the declaration holds.
    #[verifier::type_invariant]
    spec fn table_is_declared(&self) -> bool {
        match self.table {
            Some(table) => declares(self.rewrite@, alias_rules(table), alias_limit(table)),
            None => self.rewrite@ !is Table,
        }
    }

    /// Nothing declared: the state of a host that never asked.
    pub fn unknown() -> (r: Self)
        ensures
            r@ == (ModuleAliasesView {
                rewrite: ModuleRewriteView::Unknown,
                policy: OnUndeclarable::Refuse,
            }),
    {
        ModuleAliases {
            rewrite: ModuleRewrite::Unknown,
            table: None,
            policy: OnUndeclarable::default(),
        }
    }

    /// Installs `rewrite` for a module mounted at `prefixes`. A module may rewrite only names
    /// the host routed to it, so a rule with a side elsewhere is refused here, once.
    pub fn install(prefixes: &Vec<String>, rewrite: ModuleRewrite) -> (r: Result<Self, Error>)
        ensures
            match r {
                Ok(aliases) => {
                    &&& install_fault(prefixes.deep_view(), rewrite@) is None
                    &&& aliases@ == (ModuleAliasesView {
                        rewrite: rewrite@,
                        policy: OnUndeclarable::Refuse,
                    })
                },
                Err(error) => {
                    &&& install_fault(prefixes.deep_view(), rewrite@) matches Some(fault)
                    &&& error@ == ErrorView::Endpoint(fault)
                },
            },
    {
        match rewrite.table() {
            Err(error) => {
                let mut text = "module declared an unparseable rewrite table: ".to_owned();
                text.append(error.text().as_str());
                Err(Error::Endpoint(text))
            },
            Ok(None) => Ok(
                ModuleAliases { rewrite, table: None, policy: OnUndeclarable::default() },
            ),
            Ok(Some(table)) => {
                let rules = alias_table_rules(&table);
                match check_rules(prefixes, &rules) {
                    Some(fault) => Err(Error::Endpoint(fault)),
                    None => Ok(
                        ModuleAliases {
                            rewrite,
                            table: Some(table),
                            policy: OnUndeclarable::default(),
                        },
                    ),
                }
            },
        }
    }

    /// The same, with what to do where the module could not say.
    pub fn with_policy(self, policy: OnUndeclarable) -> (r: Self)
        ensures
            r@ == (ModuleAliasesView { policy, ..self@ }),
    {
        proof {
            use_type_invariant(&self);
        }
        ModuleAliases { rewrite: self.rewrite, table: self.table, policy }
    }

    /// What the module said.
    pub fn rewrite(&self) -> (r: &ModuleRewrite)
        ensures
            r@ == self@.rewrite,
    {
        &self.rewrite
    }

    /// Where `target` goes. A name it is rewritten to is another name, stands as given itself
    /// under the same declaration, and is under the prefixes the declaration was installed for.
    pub fn route(&self, target: &Iri) -> (r: Routing)
        ensures
            r@ == routed(self@.rewrite, self@.policy, target@),
            r matches Routing::Canonical(name) ==> {
                &&& name@ != target@
                &&& routed(self@.rewrite, self@.policy, name@) is Direct
                &&& forall|prefixes: Seq<Seq<char>>|
                    #![trigger install_fault(prefixes, self@.rewrite)]
                    install_fault(prefixes, self@.rewrite) is None ==> under_any(prefixes, name@)
            },
    {
        proof {
            use_type_invariant(self);
        }
        match &self.rewrite {
            ModuleRewrite::Undeclarable(reason) => {
                let mut text = "module may rewrite ".to_owned();
                text.append(target.as_str());
                text.append(" in a way it cannot declare (");
                text.append(reason.as_str());
                text.append("), so the host cannot give a logical name and its backing name one identity: they would be two cache entries and two golden threads over one resource. Which targets are affected is exactly what the module could not say.");
                match self.policy {
                    OnUndeclarable::Refuse => {
                        text.append(" Refused. Express the rewrite as an alias table and declare it, or set `OnUndeclarable::Warn` to accept the split deliberately.");
                        Routing::Refuse(text)
                    },
                    OnUndeclarable::Warn => {
                        text.append(" Accepted (OnUndeclarable::Warn).");
                        Routing::Accept(text)
                    },
                }
            },
            _ => match &self.table {
                None => Routing::Direct,
                Some(table) => {
                    let given = target.as_str();
                    match alias_canonicalize(table, given) {
                        None => routing_of(None),
                        Some(Ok(name)) => {
                            proof {
                                let rules = alias_rules(*table);
                                assert forall|prefixes: Seq<Seq<char>>|
                                    #![trigger install_fault(prefixes, self@.rewrite)]
                                    install_fault(prefixes, self@.rewrite) is None implies under_any(
                                    prefixes,
                                    name@,
                                ) by {
                                    law_installed_rules_stay_inside(prefixes, rules);
                                    let i = choose|i: int|
                                        0 <= i < rules.len() && (#[trigger] rules[i]).2.is_prefix_of(
                                            name@,
                                        );
                                    lemma_under_any_extends(prefixes, rules[i].2, name@);
                                }
                            }
                            routing_of(
                                match Iri::parse(name.as_str()) {
                                    Some(iri) => Some(Ok(iri)),
                                    None => None,
                                },
                            )
                        },
                        Some(Err(refusal)) => routing_of(Some(Err(refusal))),
                    }
                },
            },
        }
    }
}

// ---------------------------------------------------------------------------
// Laws.
// ---------------------------------------------------------------------------

proof fn lemma_under_any_extends(prefixes: Seq<Seq<char>>, short: Seq<char>, long: Seq<char>)
    requires
        under_any(prefixes, short),
        short.is_prefix_of(long),
    ensures
        under_any(prefixes, long),
{
    let i = choose|i: int| 0 <= i < prefixes.len() && (#[trigger] prefixes[i]).is_prefix_of(short);
    let p = prefixes[i];
    assert(long.subrange(0, p.len() as int) =~= short.subrange(0, p.len() as int));
    assert(p.is_prefix_of(long));
}

/// Rules that were installed name, on both sides, only what is under the prefixes they were
/// installed for, and never the kernel's own namespace.
pub proof fn law_installed_rules_stay_inside(
    prefixes: Seq<Seq<char>>,
    rules: Seq<(Seq<char>, Seq<char>, Seq<char>)>,
)
    requires
        first_fault(prefixes, rules) is None,
    ensures
        forall|i: int|
            0 <= i < rules.len() ==> {
                &&& under_any(prefixes, (#[trigger] rules[i]).1)
                &&& under_any(prefixes, rules[i].2)
                &&& !"urn:kernel:"@.is_prefix_of(rules[i].1)
                &&& !"urn:kernel:"@.is_prefix_of(rules[i].2)
            },
    decreases rules.len(),
{
    if rules.len() > 0 {
        law_installed_rules_stay_inside(prefixes, rules.drop_first());
        assert forall|i: int| 0 <= i < rules.len() implies {
            &&& under_any(prefixes, (#[trigger] rules[i]).1)
            &&& under_any(prefixes, rules[i].2)
            &&& !"urn:kernel:"@.is_prefix_of(rules[i].1)
            &&& !"urn:kernel:"@.is_prefix_of(rules[i].2)
        } by {
            if i > 0 {
                assert(rules[i] == rules.drop_first()[i - 1]);
            }
        }
    }
}

/// A rule that reaches outside the prefixes, or into the kernel's namespace, keeps its whole
/// table from being installed.
pub proof fn law_a_rule_outside_is_refused(
    prefixes: Seq<Seq<char>>,
    rules: Seq<(Seq<char>, Seq<char>, Seq<char>)>,
    i: int,
)
    requires
        0 <= i < rules.len(),
        !under_any(prefixes, rules[i].1) || !under_any(prefixes, rules[i].2)
            || "urn:kernel:"@.is_prefix_of(rules[i].1) || "urn:kernel:"@.is_prefix_of(rules[i].2),
    ensures
        first_fault(prefixes, rules) is Some,
{
    if first_fault(prefixes, rules) is None {
        law_installed_rules_stay_inside(prefixes, rules);
        assert(under_any(prefixes, rules[i].1));
    }
}

/// A host routes through a declared table exactly as the table itself rewrites: a name it
/// leaves alone resolves as given, one it rewrites resolves under its new name, one it refuses
/// is refused.
pub proof fn law_a_declared_table_routes_as_it_rewrites(
    rewrite: ModuleRewriteView,
    rules: Seq<(Seq<char>, Seq<char>, Seq<char>)>,
    limit: nat,
    policy: OnUndeclarable,
    target: Seq<char>,
)
    requires
        declares(rewrite, rules, limit),
    ensures
        match alias_walk(rules, limit, target) {
            None => routed(rewrite, policy, target) is Direct,
            Some(Ok(name)) => routed(rewrite, policy, target) == RoutingView::Canonical(name),
            Some(Err(refusal)) => routed(rewrite, policy, target) == RoutingView::Refuse(
                "module alias rewrite refused: "@ + refusal,
            ),
        },
        states_naming(rewrite),
{
}

/// The name a space that rewrites through these rules reports for `name`.
pub open spec fn reported(
    rules: Seq<(Seq<char>, Seq<char>, Seq<char>)>,
    limit: nat,
    name: Seq<char>,
) -> Option<Seq<char>> {
    match alias_walk(rules, limit, name) {
        Some(Ok(other)) => Some(other),
        _ => None,
    }
}

/// A module that rewrites through the table it declared is never caught by its own guard on a
/// name the host has settled: on the module's side such a name is rewritten no further.
pub proof fn law_a_settled_name_passes_the_guard(
    rewrite: ModuleRewriteView,
    rules: Seq<(Seq<char>, Seq<char>, Seq<char>)>,
    limit: nat,
    policy: OnUndeclarable,
    name: Seq<char>,
)
    requires
        declares(rewrite, rules, limit),
        routed(rewrite, policy, name) is Direct,
    ensures
        reported(rules, limit, name) is None,
        !is_undeclared(rewrite, name, reported(rules, limit, name)),
{
}

/// Saying nothing is not saying that nothing is rewritten: the host resolves under the name as
/// given in either case, but only one of the two is a statement.
pub proof fn law_silence_is_no_claim(policy: OnUndeclarable, target: Seq<char>)
    ensures
        states_naming(ModuleRewriteView::AsGiven),
        !states_naming(ModuleRewriteView::Unknown),
        routed(ModuleRewriteView::AsGiven, policy, target) is Direct,
        routed(ModuleRewriteView::Unknown, policy, target) is Direct,
{
}

/// A rewrite that cannot be declared is never applied in silence: the target is refused or,
/// where the host chose so, accepted with a warning.
pub proof fn law_undeclarable_is_never_silent(
    reason: Seq<char>,
    policy: OnUndeclarable,
    target: Seq<char>,
)
    ensures
        !states_naming(ModuleRewriteView::Undeclarable(reason)),
        routed(ModuleRewriteView::Undeclarable(reason), policy, target) is Refuse <==> policy
            is Refuse,
        routed(ModuleRewriteView::Undeclarable(reason), policy, target) is Accept <==> policy
            is Warn,
{
}

/// The guard lets through what the host applied: a name that stands as given, or is reported
/// as itself, is no undeclared rewrite. Anything else is, unless the module said that it
/// cannot say.
pub proof fn law_guard_passes_what_was_applied(
    declared: ModuleRewriteView,
    target: Seq<char>,
    canonical: Seq<char>,
)
    ensures
        !is_undeclared(declared, target, None),
        !is_undeclared(declared, target, Some(target)),
        declared !is Undeclarable && canonical != target ==> is_undeclared(
            declared,
            target,
            Some(canonical),
        ),
        declared is Undeclarable ==> !is_undeclared(declared, target, Some(canonical)),
{
}

/// What the host is told of an undeclared rewrite gives both names.
pub(crate) proof fn lemma_undeclared_names(target: Seq<char>, canonical: Seq<char>)
    ensures
        mentions(undeclared_text(target, canonical), target),
        mentions(undeclared_text(target, canonical), canonical),
{
    let a = "module resolved "@;
    let b = " under "@;
    let c =
        ", a rewrite it never declared: the host has already keyed its cache, cut its golden thread and checked the capability floor under "@;
    let d =
        ", so the two names would be two resources. Declare the rewrite (`ModuleRewrite::from_table`) so the host can apply it before it resolves, or — if it cannot be written as a table — declare `ModuleRewrite::Undeclarable` so the host refuses or accepts it deliberately."@;
    lemma_mentions(a + target + b + canonical + c, target, d);
    lemma_mentions(a + target + b, canonical, c);
    lemma_mentions_before(a + target + b + canonical + c, canonical, target);
    lemma_mentions_before(a + target + b + canonical + c + target, canonical, d);
}

/// Whether a rule stays inside `prefixes`: both its sides are under one of them, and neither is
/// in the kernel's own namespace.
pub open spec fn stays_inside(
    prefixes: Seq<Seq<char>>,
    rule: (Seq<char>, Seq<char>, Seq<char>),
) -> bool {
    &&& under_any(prefixes, rule.1)
    &&& under_any(prefixes, rule.2)
    &&& !"urn:kernel:"@.is_prefix_of(rule.1)
    &&& !"urn:kernel:"@.is_prefix_of(rule.2)
}

/// Rules are in order exactly if every one of them stays inside the prefixes.
pub proof fn law_rules_are_in_order_if_each_stays_inside(
    prefixes: &Vec<String>,
    rules: &Vec<(String, String, String)>,
    r: Option<String>,
)
    requires
        call_ensures(check_rules, (prefixes, rules), r),
    ensures
        r is None <==> forall|i: int|
            0 <= i < rules.deep_view().len() ==> stays_inside(
                prefixes.deep_view(),
                #[trigger] rules.deep_view()[i],
            ),
{
    lemma_no_fault_if_inside(prefixes.deep_view(), rules.deep_view());
}

pub(crate) proof fn lemma_no_fault_if_inside(
    prefixes: Seq<Seq<char>>,
    rules: Seq<(Seq<char>, Seq<char>, Seq<char>)>,
)
    ensures
        first_fault(prefixes, rules) is None <==> forall|i: int|
            0 <= i < rules.len() ==> stays_inside(prefixes, #[trigger] rules[i]),
    decreases rules.len(),
{
    if rules.len() > 0 {
        let rest = rules.drop_first();
        lemma_no_fault_if_inside(prefixes, rest);
        if forall|i: int| 0 <= i < rules.len() ==> stays_inside(prefixes, #[trigger] rules[i]) {
            assert(stays_inside(prefixes, rules[0]));
            assert forall|i: int| 0 <= i < rest.len() implies stays_inside(
                prefixes,
                #[trigger] rest[i],
            ) by {
                assert(rest[i] == rules[i + 1]);
            }
        }
        if first_fault(prefixes, rules) is None {
            assert forall|i: int| 0 <= i < rules.len() implies stays_inside(
                prefixes,
                #[trigger] rules[i],
            ) by {
                if i > 0 {
                    assert(rules[i] == rest[i - 1]);
                }
            }
        }
    }
}

/// Of rules that are not all in order the first that is not is named, both its sides included.
pub proof fn law_the_first_rule_outside_is_named(
    prefixes: &Vec<String>,
    rules: &Vec<(String, String, String)>,
    at: int,
    r: Option<String>,
)
    requires
        call_ensures(check_rules, (prefixes, rules), r),
        0 <= at < rules.deep_view().len(),
        !stays_inside(prefixes.deep_view(), rules.deep_view()[at]),
        forall|j: int|
            0 <= j < at ==> stays_inside(prefixes.deep_view(), #[trigger] rules.deep_view()[j]),
    ensures
        r matches Some(fault) && mentions(
            fault@,
            rules.deep_view()[at].0 + " "@ + rules.deep_view()[at].1 + " "@
                + rules.deep_view()[at].2,
        ),
{
    let rule = rules.deep_view()[at];
    lemma_first_fault_is_of(prefixes.deep_view(), rules.deep_view(), at);
    lemma_side_fault_names(prefixes.deep_view(), rule, "from"@, rule.1);
    lemma_side_fault_names(prefixes.deep_view(), rule, "to"@, rule.2);
}

proof fn lemma_first_fault_is_of(
    prefixes: Seq<Seq<char>>,
    rules: Seq<(Seq<char>, Seq<char>, Seq<char>)>,
    at: int,
)
    requires
        0 <= at < rules.len(),
        !stays_inside(prefixes, rules[at]),
        forall|j: int| 0 <= j < at ==> stays_inside(prefixes, #[trigger] rules[j]),
    ensures
        rule_fault(prefixes, rules[at]) is Some,
        first_fault(prefixes, rules) == rule_fault(prefixes, rules[at]),
    decreases at,
{
    if at > 0 {
        let rest = rules.drop_first();
        assert(stays_inside(prefixes, rules[0]));
        assert forall|j: int| 0 <= j < at - 1 implies stays_inside(
            prefixes,
            #[trigger] rest[j],
        ) by {
            assert(rest[j] == rules[j + 1]);
        }
        lemma_first_fault_is_of(prefixes, rest, at - 1);
    }
}

proof fn lemma_side_fault_names(
    prefixes: Seq<Seq<char>>,
    rule: (Seq<char>, Seq<char>, Seq<char>),
    side: Seq<char>,
    name: Seq<char>,
)
    ensures
        side_fault(prefixes, rule, side, name) matches Some(fault) ==> mentions(
            fault,
            rule.0 + " "@ + rule.1 + " "@ + rule.2,
        ),
{
    let whole = rule.0 + " "@ + rule.1 + " "@ + rule.2;
    let lead = "module rewrite rule `"@;
    let shown = lead + rule.0 + " "@ + rule.1 + " "@ + rule.2;
    if let Some(fault) = side_fault(prefixes, rule, side, name) {
        assert(shown =~= lead + whole);
        assert(shown.is_prefix_of(fault)) by {
            assert(fault.subrange(0, shown.len() as int) =~= shown);
        }
        let rest = fault.skip(shown.len() as int);
        assert(fault =~= lead + whole + rest);
        lemma_mentions(lead, whole, rest);
    }
}

/// What is installed is what was declared, and it waits to be told what to do where the module
/// cannot say. A table is installed exactly if it can be read and every rule of it stays inside
/// the prefixes; whatever holds no table always is.
pub proof fn law_a_declaration_is_installed_if_it_stays_inside(
    prefixes: &Vec<String>,
    rewrite: ModuleRewrite,
    rules: Seq<(Seq<char>, Seq<char>, Seq<char>)>,
    limit: nat,
    r: Result<ModuleAliases, Error>,
)
    requires
        call_ensures(ModuleAliases::install, (prefixes, rewrite), r),
    ensures
        r matches Ok(aliases) ==> aliases@.rewrite == rewrite@ && aliases@.policy is Refuse,
        r matches Err(error) ==> error@ is Endpoint,
        rewrite@ !is Table ==> r is Ok,
        declares(rewrite@, rules, limit) ==> (r is Ok <==> forall|i: int|
            0 <= i < rules.len() ==> stays_inside(prefixes.deep_view(), #[trigger] rules[i])),
        rewrite@ matches ModuleRewriteView::Table(text) ==> (alias_reading(text) is Err ==> r
            is Err),
{
    lemma_no_fault_if_inside(prefixes.deep_view(), rules);
}

/// A host that installed a declaration routes a target as the module names things: through its
/// table where it declared one, as given where it declared none or said nothing, and with the
/// target and the reason told where it cannot say.
pub proof fn law_a_target_is_routed_as_the_module_names_it(
    aliases: &ModuleAliases,
    target: &Iri,
    rules: Seq<(Seq<char>, Seq<char>, Seq<char>)>,
    limit: nat,
    r: Routing,
)
    requires
        call_ensures(ModuleAliases::route, (aliases, target), r),
    ensures
        match aliases@.rewrite {
            ModuleRewriteView::AsGiven => r is Direct,
            ModuleRewriteView::Unknown => r is Direct,
            ModuleRewriteView::Undeclarable(reason) => match aliases@.policy {
                OnUndeclarable::Refuse => r matches Routing::Refuse(message) && mentions(
                    message@,
                    target@,
                ) && mentions(message@, reason),
                OnUndeclarable::Warn => r matches Routing::Accept(message) && mentions(
                    message@,
                    target@,
                ) && mentions(message@, reason),
            },
            ModuleRewriteView::Table(text) => true,
        },
        declares(aliases@.rewrite, rules, limit) ==> match alias_walk(rules, limit, target@) {
            None => r is Direct,
            Some(Ok(name)) => r matches Routing::Canonical(other) && other@ == name,
            Some(Err(refusal)) => r matches Routing::Refuse(message) && mentions(message@, refusal),
        },
{
    if let ModuleRewriteView::Undeclarable(reason) = aliases@.rewrite {
        lemma_split_names(target@, reason);
        let text = split_text(target@, reason);
        let refused =
            " Refused. Express the rewrite as an alias table and declare it, or set `OnUndeclarable::Warn` to accept the split deliberately."@;
        let accepted = " Accepted (OnUndeclarable::Warn)."@;
        lemma_mentions_before(text, target@, refused);
        lemma_mentions_before(text, reason, refused);
        lemma_mentions_before(text, target@, accepted);
        lemma_mentions_before(text, reason, accepted);
    }
    if let Some(Err(refusal)) = alias_walk(rules, limit, target@) {
        lemma_mentions_last("module alias rewrite refused: "@, refusal);
    }
}

proof fn lemma_split_names(target: Seq<char>, reason: Seq<char>)
    ensures
        mentions(split_text(target, reason), target),
        mentions(split_text(target, reason), reason),
{
    let a = "module may rewrite "@;
    let b = " in a way it cannot declare ("@;
    let c =
        "), so the host cannot give a logical name and its backing name one identity: they would be two cache entries and two golden threads over one resource. Which targets are affected is exactly what the module could not say."@;
    lemma_mentions(a, target, b);
    lemma_mentions_before(a + target + b, target, reason);
    lemma_mentions_before(a + target + b + reason, target, c);
    lemma_mentions(a + target + b, reason, c);
}

/// Where a walk ended is where the name goes; a refused walk is refused for the same reason.
pub proof fn law_a_name_goes_where_its_walk_ended(
    walk: Option<Result<Iri, String>>,
    r: Routing,
)
    requires
        call_ensures(routing_of, (walk,), r),
    ensures
        match walk {
            None => r is Direct,
            Some(Ok(name)) => r matches Routing::Canonical(other) && other@ == name@,
            Some(Err(refusal)) => r matches Routing::Refuse(message) && mentions(
                message@,
                refusal@,
            ),
        },
{
    if let Some(Err(refusal)) = walk {
        lemma_mentions_last("module alias rewrite refused: "@, refusal@);
    }
}

/// A host that never asked records no claim, and what it is told to do where a module cannot
/// say changes nothing of what the module said.
pub proof fn law_a_policy_is_not_a_declaration(
    unasked: ModuleAliases,
    aliases: ModuleAliases,
    policy: OnUndeclarable,
    r: ModuleAliases,
    said: &ModuleRewrite,
)
    requires
        call_ensures(ModuleAliases::unknown, (), unasked),
        call_ensures(ModuleAliases::with_policy, (aliases, policy), r),
        call_ensures(ModuleAliases::rewrite, (&r,), said),
    ensures
        unasked@.rewrite is Unknown,
        unasked@.policy is Refuse,
        r@.policy == policy,
        said@ == aliases@.rewrite,
{
}

/// A table that is declared is read back with the same rules and limit, wherever its names can
/// be written down; a declaration that holds no table gives none.
pub proof fn law_a_declared_table_is_read_back(
    table: &AliasTable,
    declared: ModuleRewrite,
    r: Result<Option<AliasTable>, AliasParseError>,
    other: &ModuleRewrite,
    none: Result<Option<AliasTable>, AliasParseError>,
)
    requires
        call_ensures(ModuleRewrite::from_table, (table,), declared),
        call_ensures(ModuleRewrite::table, (&declared,), r),
        writable_rules(alias_rules(*table)),
        other@ !is Table,
        call_ensures(ModuleRewrite::table, (other,), none),
    ensures
        r matches Ok(Some(read)) && alias_rules(read) == alias_rules(*table) && alias_limit(read)
            == alias_limit(*table),
        none matches Ok(None),
{
}

/// A module has stated its naming exactly if it declared a table or that there is nothing to
/// declare; neither silence nor being unable to say is a statement.
pub proof fn law_only_a_claim_is_a_statement(rewrite: &ModuleRewrite, r: bool)
    requires
        call_ensures(ModuleRewrite::is_declared, (rewrite,), r),
    ensures
        rewrite@ is AsGiven ==> r,
        rewrite@ is Table ==> r,
        rewrite@ is Undeclarable ==> !r,
        rewrite@ is Unknown ==> !r,
{
}

/// The module refuses a request exactly if its space resolved it under another name than the
/// host used and the module has not said that it cannot say; the refusal gives both names.
pub proof fn law_another_name_is_refused_with_both_names(
    request: &Request,
    canonical: Option<&Iri>,
    declared: &ModuleRewrite,
    r: Option<String>,
)
    requires
        call_ensures(refuse_undeclared_rewrite, (request, canonical, declared), r),
    ensures
        r is Some <==> declared@ !is Undeclarable && canonical is Some && canonical->0@
            != request@.target,
        r matches Some(message) ==> mentions(message@, request@.target) && mentions(
            message@,
            canonical->0@,
        ),
{
    if canonical is Some {
        lemma_undeclared_names(request@.target, canonical->0@);
    }
}

/// A manifest is recorded as it was given; where none was, the bindings are recorded and no
/// claim is.
pub proof fn law_a_manifest_that_was_not_given_claims_nothing(
    given: Option<ModuleManifest>,
    entries: Option<Vec<SpaceEntry>>,
    r: ModuleManifest,
)
    requires
        call_ensures(ModuleManifest::given_or_unknown, (given, entries), r),
    ensures
        match given {
            Some(manifest) => r@.entries == manifest@.entries && r@.rewrite == manifest@.rewrite,
            None => r@.entries == entries.deep_view() && r@.rewrite is Unknown,
        },
{
}

/// A manifest holds the bindings and the rewriting it was made of, and that of a module that
/// could not be asked claims nothing.
pub proof fn law_a_manifest_holds_what_it_was_made_of(
    entries: Option<Vec<SpaceEntry>>,
    rewrite: ModuleRewrite,
    whole: ModuleManifest,
    unknown: ModuleManifest,
)
    requires
        call_ensures(ModuleManifest::new, (entries, rewrite), whole),
        call_ensures(ModuleManifest::unknown, (entries,), unknown),
    ensures
        whole@.entries == entries.deep_view(),
        whole@.rewrite == rewrite@,
        unknown@.entries == entries.deep_view(),
        unknown@.rewrite is Unknown,
{
}

/// A table that cannot be read is reported with what is wrong with it.
pub proof fn law_an_unreadable_table_says_what_is_wrong(error: &AliasParseError, r: String)
    requires
        call_ensures(AliasParseError::text, (error,), r),
    ensures
        mentions(r@, error.detail@),
        mentions(r@, decimal(error.line as nat)),
{
    let a = "alias table line "@;
    let b = decimal(error.line as nat);
    let c = ": "@;
    lemma_mentions(a, b, c);
    lemma_mentions_before(a + b + c, b, error.detail@);
    lemma_mentions_last(a + b + c, error.detail@);
}

/// A copied declaration or manifest says all that the copied one does.
pub proof fn law_a_copied_declaration_says_the_same(
    rewrite: &ModuleRewrite,
    rewrite_copy: ModuleRewrite,
    manifest: &ModuleManifest,
    manifest_copy: ModuleManifest,
)
    requires
        call_ensures(<ModuleRewrite as Clone>::clone, (rewrite,), rewrite_copy),
        call_ensures(<ModuleManifest as Clone>::clone, (manifest,), manifest_copy),
    ensures
        match (*rewrite, rewrite_copy) {
            (ModuleRewrite::AsGiven, ModuleRewrite::AsGiven) => true,
            (ModuleRewrite::Table(a), ModuleRewrite::Table(b)) => a@ == b@,
            (ModuleRewrite::Undeclarable(a), ModuleRewrite::Undeclarable(b)) => a@ == b@,
            (ModuleRewrite::Unknown, ModuleRewrite::Unknown) => true,
            _ => false,
        },
        manifest_copy.entries.deep_view() == manifest.entries.deep_view(),
        manifest_copy.rewrite@ == manifest.rewrite@,
{
    assert(rewrite_copy@ == rewrite@);
    assert(manifest_copy@ == manifest@);
}

/// A declaration that cannot be installed is refused with what is wrong: the first rule that
/// does not stay inside, or what is wrong with a table that cannot be read.
pub proof fn law_a_refused_declaration_is_told_what_is_wrong(
    prefixes: &Vec<String>,
    rewrite: ModuleRewrite,
    rules: Seq<(Seq<char>, Seq<char>, Seq<char>)>,
    limit: nat,
    at: int,
    r: Result<ModuleAliases, Error>,
)
    requires
        call_ensures(ModuleAliases::install, (prefixes, rewrite), r),
    ensures
        declares(rewrite@, rules, limit) && 0 <= at < rules.len() && !stays_inside(
            prefixes.deep_view(),
            rules[at],
        ) && (forall|j: int|
            0 <= j < at ==> stays_inside(prefixes.deep_view(), #[trigger] rules[j])) ==> (r matches Err(
            error,
        ) && error@ matches ErrorView::Endpoint(message) && mentions(
            message,
            rules[at].0 + " "@ + rules[at].1 + " "@ + rules[at].2,
        )),
        rewrite@ matches ModuleRewriteView::Table(text) ==> (alias_reading(text) matches Err(wrong)
            ==> (r matches Err(error) && error@ matches ErrorView::Endpoint(message) && mentions(
            message,
            wrong.1,
        ))),
{
    if declares(rewrite@, rules, limit) && 0 <= at < rules.len() && !stays_inside(
        prefixes.deep_view(),
        rules[at],
    ) && (forall|j: int| 0 <= j < at ==> stays_inside(prefixes.deep_view(), #[trigger] rules[j])) {
        lemma_first_fault_is_of(prefixes.deep_view(), rules, at);
        lemma_side_fault_names(prefixes.deep_view(), rules[at], "from"@, rules[at].1);
        lemma_side_fault_names(prefixes.deep_view(), rules[at], "to"@, rules[at].2);
    }
    if let ModuleRewriteView::Table(text) = rewrite@ {
        if let Err(wrong) = alias_reading(text) {
            let lead = "module declared an unparseable rewrite table: "@;
            let before = "alias table line "@ + decimal(wrong.0) + ": "@;
            assert(lead + parse_error_text(wrong.0, wrong.1) =~= (lead + before) + wrong.1);
            lemma_mentions_last(lead + before, wrong.1);
        }
    }
}

} // verus!
