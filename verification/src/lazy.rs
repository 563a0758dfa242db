//! A module that is loaded only when it is called, and so is never asked anything: all that is
//! known of it is what the host declares.

use vstd::prelude::*;

use crate::card::{Description, DescriptionView};
use crate::cards::{
    first_match, law_matched_exactly_when_covered, match_card, pattern_covers,
};
use crate::floor::{floored, law_floor_only_adds, ModuleFloor};
use crate::kernel::{Error, ErrorView, Iri, Request, SpaceEntry, SpaceEntryView, Verb};
use crate::mount::{
    each_once, entries_of, first_host_card, host_entries, host_listing, host_offers, is_listed,
    law_the_host_lists_what_it_has_cards_for, lemma_host_offer, lemma_lists_the_firsts,
    lists_the_firsts, offers_of, served, settled_name, Mounted, MountedView,
};
use crate::rewrite::{
    declares, install_fault, lemma_no_fault_if_inside, routed, stays_inside, ModuleAliases, ModuleRewrite, ModuleRewriteView, OnUndeclarable,
    Routing, RoutingView,
};
use crate::text::{starts_under, under_any};

verus! {

/// The name every endpoint of such a mount goes by.
pub const LAZY_NAME: &'static str = "wasm-module";

/// A module mounted at some prefixes, over sessions that load it on demand.
pub struct WasmModuleSpace {
    prefixes: Vec<String>,
    describe: Description,
    endpoints: Vec<(String, Description)>,
    aliases: ModuleAliases,
    floor: ModuleFloor,
}

/// [`WasmModuleSpace`] as a value.
#[verifier::ext_equal]
pub struct WasmModuleSpaceView {
    /// What is routed to the module.
    pub prefixes: Seq<Seq<char>>,
    /// The card of a name that no other card is for.
    pub describe: DescriptionView,
    /// The cards of its endpoints, each with its pattern.
    pub endpoints: Seq<(Seq<char>, DescriptionView)>,
    /// What was declared of the module's naming.
    pub rewrite: ModuleRewriteView,
    /// What to do where that cannot be said.
    pub policy: OnUndeclarable,
    /// What the host demands of every caller.
    pub floor: Seq<Seq<char>>,
}

impl View for WasmModuleSpace {
    type V = WasmModuleSpaceView;

    closed spec fn view(&self) -> WasmModuleSpaceView {
        WasmModuleSpaceView {
            prefixes: self.prefixes.deep_view(),
            describe: self.describe@,
            endpoints: self.endpoints.deep_view(),
            rewrite: self.aliases@.rewrite,
            policy: self.aliases@.policy,
            floor: self.floor@,
        }
    }
}

/// What holds of every such mount: the module rewrites only names that are routed to it.
pub open spec fn is_lazy_mount(space: WasmModuleSpaceView) -> bool {
    install_fault(space.prefixes, space.rewrite) is None
}

/// The card `space` has for `target`, before the floor.
pub open spec fn lazy_card(space: WasmModuleSpaceView, target: Seq<char>) -> DescriptionView {
    match first_match(host_offers(space.endpoints), target) {
        Some(found) => found.1,
        None => space.describe,
    }
}

/// The name `target` is one resource with: what the module rewrites it to, else itself.
pub open spec fn lazily_settled(space: WasmModuleSpaceView, target: Seq<char>) -> Seq<char> {
    settled_name(routed(space.rewrite, space.policy, target), target)
}

/// The name whose card `target` gets: its own if there is a card for it, else that of the name
/// it is one resource with.
pub open spec fn lazily_carded_name(space: WasmModuleSpaceView, target: Seq<char>) -> Seq<char> {
    if first_match(host_offers(space.endpoints), target) is Some {
        target
    } else {
        lazily_settled(space, target)
    }
}

/// What `space` makes of `target`.
pub open spec fn lazily_mounted(space: WasmModuleSpaceView, target: Seq<char>) -> MountedView {
    if under_any(space.prefixes, target) || first_match(host_offers(space.endpoints), target)
        is Some {
        served(
            routed(space.rewrite, space.policy, target),
            LAZY_NAME@,
            floored(space.floor, lazy_card(space, lazily_carded_name(space, target))),
        )
    } else {
        MountedView::Miss
    }
}

impl WasmModuleSpace {
    #[verifier::type_invariant]
    spec fn valid(&self) -> bool {
        is_lazy_mount(self@)
    }

    /// Mounts a module at `prefixes`, with the card of what it serves and the authority it
    /// takes to call it.
    pub fn new(prefixes: Vec<String>, describe: Description, floor: ModuleFloor) -> (r: Self)
        ensures
            r@ == (WasmModuleSpaceView {
                prefixes: prefixes.deep_view(),
                describe: describe@,
                endpoints: Seq::empty(),
                rewrite: ModuleRewriteView::Unknown,
                policy: OnUndeclarable::Refuse,
                floor: floor@,
            }),
            is_lazy_mount(r@),
    {
        let endpoints: Vec<(String, Description)> = Vec::new();
        assert(endpoints.deep_view() =~= Seq::empty());
        WasmModuleSpace { prefixes, describe, endpoints, aliases: ModuleAliases::unknown(), floor }
    }

    /// Installs what is declared of the module's naming. Fails if the declared table cannot be
    /// read or reaches outside the prefixes. What to do where the module cannot say is to
    /// refuse, until [`on_undeclarable`](Self::on_undeclarable) says otherwise.
    pub fn declaring(self, rewrite: ModuleRewrite) -> (r: Result<Self, Error>)
        ensures
            match r {
                Ok(space) => {
                    &&& install_fault(self@.prefixes, rewrite@) is None
                    &&& space@ == (WasmModuleSpaceView {
                        rewrite: rewrite@,
                        policy: OnUndeclarable::Refuse,
                        ..self@
                    })
                    &&& is_lazy_mount(space@)
                },
                Err(error) => {
                    &&& install_fault(self@.prefixes, rewrite@) matches Some(fault)
                    &&& error@ == ErrorView::Endpoint(fault)
                },
            },
    {
        match ModuleAliases::install(&self.prefixes, rewrite) {
            Ok(aliases) => Ok(WasmModuleSpace { aliases, ..self }),
            Err(error) => Err(error),
        }
    }

    /// What to do about a module that rewrites in a way it cannot declare.
    pub fn on_undeclarable(self, policy: OnUndeclarable) -> (r: Self)
        ensures
            r@ == (WasmModuleSpaceView { policy, ..self@ }),
            is_lazy_mount(r@),
    {
        proof {
            use_type_invariant(&self);
        }
        let WasmModuleSpace { prefixes, describe, endpoints, aliases, floor } = self;
        let aliases = aliases.with_policy(policy);
        WasmModuleSpace { prefixes, describe, endpoints, aliases, floor }
    }

    /// Adds the card of an endpoint, for an IRI or a template: it is then listed and answers
    /// for itself without the module being loaded. It is the card of every name it is for, also
    /// of one the module rewrites.
    pub fn with_endpoint(self, iri: &str, describe: Description) -> (r: Self)
        ensures
            r@ == (WasmModuleSpaceView {
                endpoints: self@.endpoints.push((iri@, describe@)),
                ..self@
            }),
            is_lazy_mount(r@),
    {
        proof {
            use_type_invariant(&self);
        }
        let WasmModuleSpace { prefixes, describe: generic, mut endpoints, aliases, floor } = self;
        endpoints.push((iri.to_owned(), describe));
        assert(endpoints.deep_view() =~= self@.endpoints.push((iri@, describe@)));
        WasmModuleSpace { prefixes, describe: generic, endpoints, aliases, floor }
    }

    /// The declared card for `target`.
    pub fn host_card(&self, target: &Iri) -> (r: Option<&Description>)
        ensures
            match r {
                Some(card) => first_match(host_offers(self@.endpoints), target@) matches Some(found)
                    && found.1 == card@,
                None => first_match(host_offers(self@.endpoints), target@) is None,
            },
    {
        match match_card(&offers_of(&self.endpoints), target) {
            Some((_, card)) => Some(card),
            None => None,
        }
    }

    /// The card of `target`, the floor folded in.
    pub fn card_for(&self, target: &Iri) -> (r: Description)
        ensures
            r@ == floored(self@.floor, lazy_card(self@, target@)),
    {
        let card = match self.host_card(target) {
            Some(card) => card.clone(),
            None => self.describe.clone(),
        };
        self.floor.applied_to(card)
    }

    /// What the host demands of every caller.
    pub fn floor(&self) -> (r: &ModuleFloor)
        ensures
            r@ == self@.floor,
    {
        &self.floor
    }

    /// What the mount makes of a request. A name it is rewritten to is another one, is under
    /// the prefixes, and resolves as given itself: the two names are one resource. They have
    /// one card, unless there is a card for the name that was asked for.
    pub fn resolve(&self, request: &Request) -> (r: Mounted)
        ensures
            r@ == lazily_mounted(self@, request@.target),
            r@ matches MountedView::Served(_, _, Some(canonical), _) ==> {
                &&& canonical != request@.target
                &&& under_any(self@.prefixes, canonical)
                &&& lazily_mounted(self@, canonical) matches MountedView::Served(
                    name,
                    card,
                    None,
                    None,
                )
                &&& first_match(host_offers(self@.endpoints), request@.target) is None ==> r@
                    == MountedView::Served(name, card, Some(canonical), None)
            },
    {
        proof {
            use_type_invariant(self);
        }
        let target = request.target.as_str();
        let has_card = self.host_card(&request.target).is_some();
        if !(has_card || starts_under(&self.prefixes, target)) {
            return Mounted::Miss;
        }
        let (canonical, warning) = match self.aliases.route(&request.target) {
            Routing::Direct => (None, None),
            Routing::Canonical(iri) => (Some(iri), None),
            Routing::Accept(warning) => (None, Some(warning)),
            Routing::Refuse(message) => {
                return Mounted::Refused(message);
            },
        };
        let card = match &canonical {
            Some(iri) if !has_card => self.card_for(iri),
            _ => self.card_for(&request.target),
        };
        Mounted::Served { name: LAZY_NAME.to_owned(), card, canonical, warning }
    }

    /// What the mount lists: each pattern it has a card for, or `None` if it has none.
    pub fn entries(&self) -> (r: Option<Vec<SpaceEntry>>)
        ensures
            match r {
                Some(entries) => entries.deep_view() == host_listing(self@.endpoints)
                    && self@.endpoints.len() > 0,
                None => self@.endpoints.len() == 0,
            },
    {
        if self.endpoints.len() == 0 {
            return None;
        }
        Some(entries_of(&self.endpoints))
    }
}

// ---------------------------------------------------------------------------
// Laws.
// ---------------------------------------------------------------------------

/// Whichever card a name gets, the declared one or the one for the rest, every scope of the
/// floor is in it.
pub proof fn law_every_lazy_card_carries_the_floor(
    space: WasmModuleSpaceView,
    target: Seq<char>,
    scope: Seq<char>,
)
    requires
        space.floor.contains(scope),
    ensures
        lazily_mounted(space, target) matches MountedView::Served(_, card, _, _) ==> {
            &&& card.scopes.contains(scope)
            &&& forall|i: int|
                0 <= i < card.actions.len() && (#[trigger] card.actions[i]).verb != Verb::Meta
                    ==> card.actions[i].scopes.contains(scope)
        },
{
    law_floor_only_adds(space.floor, lazy_card(space, lazily_carded_name(space, target)));
}

/// A card that is declared for a name is the one it is served under, the floor folded in,
/// whether or not the module rewrites the name.
pub proof fn law_a_declared_card_is_used(space: WasmModuleSpaceView, target: Seq<char>)
    requires
        first_match(host_offers(space.endpoints), target) is Some,
    ensures
        first_match(host_offers(space.endpoints), target) matches Some(found) && lazily_mounted(
            space,
            target,
        ) == served(
            routed(space.rewrite, space.policy, target),
            LAZY_NAME@,
            floored(space.floor, found.1),
        ),
{
}

/// A name without a declared card is served under the card of the name it is rewritten to:
/// whatever that card demands is demanded of it.
pub proof fn law_a_lazily_rewritten_name_has_the_card_of_the_resource(
    space: WasmModuleSpaceView,
    target: Seq<char>,
    canonical: Seq<char>,
)
    requires
        under_any(space.prefixes, target),
        first_match(host_offers(space.endpoints), target) is None,
        routed(space.rewrite, space.policy, target) == RoutingView::Canonical(canonical),
        under_any(space.prefixes, canonical),
        routed(space.rewrite, space.policy, canonical) is Direct,
    ensures
        lazily_mounted(space, canonical) matches MountedView::Served(name, card, None, None)
            && lazily_mounted(space, target) == MountedView::Served(
            name,
            card,
            Some(canonical),
            None,
        ),
{
}

/// No card is made weaker on the way to the kernel: every scope that the card of a name
/// declares is still demanded.
pub proof fn law_no_lazy_card_is_weakened(
    space: WasmModuleSpaceView,
    target: Seq<char>,
    scope: Seq<char>,
)
    requires
        lazy_card(space, lazily_carded_name(space, target)).scopes.contains(scope),
    ensures
        lazily_mounted(space, target) matches MountedView::Served(_, card, _, _)
            ==> card.scopes.contains(scope),
{
    let own = lazy_card(space, lazily_carded_name(space, target));
    law_floor_only_adds(space.floor, own);
    let folded = floored(space.floor, own);
    let k = choose|k: int| 0 <= k < own.scopes.len() && own.scopes[k] == scope;
    assert(folded.scopes[k] == scope);
}

/// Such a mount lists each pattern it has a card for once, and serves it.
pub proof fn law_a_lazy_listing_is_complete(space: WasmModuleSpaceView, pattern: Seq<char>)
    ensures
        each_once(host_listing(space.endpoints)),
        is_listed(host_listing(space.endpoints), pattern) <==> exists|i: int|
            0 <= i < space.endpoints.len() && (#[trigger] space.endpoints[i]).0 == pattern,
        is_listed(host_listing(space.endpoints), pattern) ==> !(lazily_mounted(
            space,
            pattern,
        ) is Miss),
{
    law_the_host_lists_what_it_has_cards_for(space.endpoints, pattern);
    if is_listed(host_listing(space.endpoints), pattern) {
        let i = choose|i: int|
            0 <= i < space.endpoints.len() && (#[trigger] space.endpoints[i]).0 == pattern;
        let offers = host_offers(space.endpoints);
        assert(pattern_covers(offers[i].0, pattern));
        law_matched_exactly_when_covered(offers, pattern);
    }
}

/// A mount without declared cards lists nothing, and serves every routed name under the one
/// card it has.
pub proof fn law_nothing_declared_nothing_listed(
    space: WasmModuleSpaceView,
    target: Seq<char>,
)
    requires
        space.endpoints.len() == 0,
    ensures
        host_listing(space.endpoints).len() == 0,
        lazily_mounted(space, target) is Miss <==> !under_any(space.prefixes, target),
        lazy_card(space, target) == space.describe,
{
}

/// The card of a name is the first declared one that covers it, else the one for the rest; the
/// floor is folded into each.
pub proof fn law_the_lazy_card_of_a_name_is_the_first_that_covers_it(
    space: &WasmModuleSpace,
    target: &Iri,
    at: int,
    r: Description,
    declared: Option<&Description>,
)
    requires
        call_ensures(WasmModuleSpace::card_for, (space, target), r),
        call_ensures(WasmModuleSpace::host_card, (space, target), declared),
        first_host_card(space@.endpoints, target@, at),
    ensures
        declared is Some <==> at < space@.endpoints.len(),
        declared matches Some(card) ==> card@ == space@.endpoints[at].1,
        r@ == if at < space@.endpoints.len() {
            floored(space@.floor, space@.endpoints[at].1)
        } else {
            floored(space@.floor, space@.describe)
        },
{
    lemma_host_offer(space@.endpoints, target@, at);
}

/// Such a mount answers for exactly the names under its prefixes and those there is a card for.
/// What it answers for is refused, or served as given, or under another name, or with a
/// warning, exactly as the declared naming routes it, and always by the one name its endpoints
/// go by.
pub proof fn law_a_lazy_mount_serves_as_the_naming_routes(
    space: &WasmModuleSpace,
    request: &Request,
    at: int,
    r: Mounted,
)
    requires
        call_ensures(WasmModuleSpace::resolve, (space, request), r),
        first_host_card(space@.endpoints, request@.target, at),
    ensures
        r is Miss <==> !under_any(space@.prefixes, request@.target) && at
            == space@.endpoints.len(),
        r !is Miss ==> match routed(space@.rewrite, space@.policy, request@.target) {
            RoutingView::Direct => r matches Mounted::Served { canonical: None, warning: None, .. },
            RoutingView::Canonical(other) => r matches Mounted::Served {
                canonical: Some(iri),
                warning: None,
                ..
            } && iri@ == other,
            RoutingView::Refuse(message) => r matches Mounted::Refused(told) && told@ == message,
            RoutingView::Accept(message) => r matches Mounted::Served {
                canonical: None,
                warning: Some(told),
                ..
            } && told@ == message,
        },
        r matches Mounted::Served { name, .. } ==> name@ == LAZY_NAME@,
{
    lemma_host_offer(space@.endpoints, request@.target, at);
    let view = r@;
}

/// A name that is served gets its own card if one is declared for it; else it gets the card of
/// the resource it is a name of, the one it is rewritten to if it is rewritten.
pub proof fn law_a_name_is_served_under_its_lazy_card(
    space: &WasmModuleSpace,
    request: &Request,
    own_at: int,
    resource: Iri,
    expected: Description,
    r: Mounted,
)
    requires
        call_ensures(WasmModuleSpace::resolve, (space, request), r),
        first_host_card(space@.endpoints, request@.target, own_at),
        resource@ == if own_at < space@.endpoints.len() {
            request@.target
        } else {
            match routed(space@.rewrite, space@.policy, request@.target) {
                RoutingView::Canonical(other) => other,
                _ => request@.target,
            }
        },
        call_ensures(WasmModuleSpace::card_for, (space, &resource), expected),
    ensures
        r matches Mounted::Served { card, .. } ==> card@ == expected@,
{
    lemma_host_offer(space@.endpoints, request@.target, own_at);
}

/// Such a mount lists the patterns of its cards, each once and for the first card that has it,
/// in their order, as bindings of this kernel's own; and nothing where it has no cards.
pub proof fn law_a_lazy_mount_lists_the_first_of_each_pattern(
    space: &WasmModuleSpace,
    r: Option<Vec<SpaceEntry>>,
)
    requires
        call_ensures(WasmModuleSpace::entries, (space,), r),
    ensures
        r is None <==> space@.endpoints.len() == 0,
        r matches Some(entries) ==> lists_the_firsts(
            Seq::new(
                space@.endpoints.len(),
                |i: int|
                    SpaceEntryView {
                        pattern: space@.endpoints[i].0,
                        endpoint: space@.endpoints[i].1.id,
                        origin: None,
                    },
            ),
            entries.deep_view(),
        ),
{
    let all = Seq::new(
        space@.endpoints.len(),
        |i: int|
            SpaceEntryView {
                pattern: space@.endpoints[i].0,
                endpoint: space@.endpoints[i].1.id,
                origin: None,
            },
    );
    assert(all =~= host_entries(space@.endpoints));
    lemma_lists_the_firsts(all);
}

/// Such a mount starts with what it was given and nothing else: it has no other cards, and
/// nothing is claimed of the module's naming.
pub proof fn law_a_lazy_mount_starts_with_what_it_was_given(
    prefixes: Vec<String>,
    describe: Description,
    floor: ModuleFloor,
    r: WasmModuleSpace,
)
    requires
        call_ensures(WasmModuleSpace::new, (prefixes, describe, floor), r),
    ensures
        r@.prefixes == prefixes.deep_view(),
        r@.describe == describe@,
        r@.floor == floor@,
        r@.rewrite is Unknown,
        r@.policy is Refuse,
        r@.endpoints.len() == 0,
{
}

/// Each thing that is said of such a mount changes that and nothing else; a declaration is
/// taken exactly if it stays inside the prefixes.
pub proof fn law_saying_more_of_a_lazy_mount_changes_only_that(
    space: WasmModuleSpace,
    iri: &str,
    card: Description,
    with_card: WasmModuleSpace,
    policy: OnUndeclarable,
    with_policy: WasmModuleSpace,
    rewrite: ModuleRewrite,
    rules: Seq<(Seq<char>, Seq<char>, Seq<char>)>,
    limit: nat,
    declared: Result<WasmModuleSpace, Error>,
)
    requires
        call_ensures(WasmModuleSpace::with_endpoint, (space, iri, card), with_card),
        call_ensures(WasmModuleSpace::on_undeclarable, (space, policy), with_policy),
        call_ensures(WasmModuleSpace::declaring, (space, rewrite), declared),
    ensures
        with_card@.endpoints.len() == space@.endpoints.len() + 1,
        forall|i: int|
            0 <= i < space@.endpoints.len() ==> #[trigger] with_card@.endpoints[i]
                == space@.endpoints[i],
        with_card@.endpoints.last() == (iri@, card@),
        with_card@ == (WasmModuleSpaceView { endpoints: with_card@.endpoints, ..space@ }),
        with_policy@ == (WasmModuleSpaceView { policy, ..space@ }),
        declared matches Ok(after) ==> after@ == (WasmModuleSpaceView {
            rewrite: rewrite@,
            policy: OnUndeclarable::Refuse,
            ..space@
        }),
        rewrite@ !is Table ==> declared is Ok,
        declares(rewrite@, rules, limit) ==> (declared is Ok <==> forall|i: int|
            0 <= i < rules.len() ==> stays_inside(space@.prefixes, #[trigger] rules[i])),
        declared matches Err(error) ==> error@ is Endpoint,
{
    lemma_no_fault_if_inside(space@.prefixes, rules);
}

/// The floor such a mount was given is the one it enforces.
pub proof fn law_a_lazy_mount_says_its_floor(space: &WasmModuleSpace, floor: &ModuleFloor)
    requires
        call_ensures(WasmModuleSpace::floor, (space,), floor),
    ensures
        floor@ == space@.floor,
{
}

} // verus!
