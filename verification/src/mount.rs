//! A module mounted in a host: what it routes, what it lists, and the card it gives the kernel
//! for each name, the floor always folded in.

use vstd::prelude::*;

use crate::card::{bare_card, Description, DescriptionView, ModuleCard, ModuleCardView};
use crate::cards::{
    first_match, law_earlier_offers_win, lemma_first_match_is_first, law_matched_exactly_when_covered, match_card,
    pattern_covers,
};
use crate::floor::{floored, law_floor_only_adds, ModuleFloor};
use crate::kernel::{local_entry, Error, ErrorView, Iri, Request, SpaceEntry, SpaceEntryView, Verb};
use crate::rewrite::{
    declares, install_fault, law_a_declaration_is_installed_if_it_stays_inside,
    lemma_no_fault_if_inside, routed, stays_inside, ModuleAliases, ModuleManifest, ModuleRewrite, ModuleRewriteView,
    OnUndeclarable, Routing, RoutingView,
};
use crate::text::{same_text, starts_under, under_any};

verus! {

// ---------------------------------------------------------------------------
// What both kinds of mount share.
// ---------------------------------------------------------------------------

/// What a mount makes of a target.
#[derive(Debug)]
pub enum Mounted {
    /// It is not the mount's.
    Miss,
    /// It is the mount's, and whoever invokes it is told this.
    Refused(String),
    /// It is served by the module.
    Served {
        /// The name of the endpoint.
        name: String,
        /// Its card.
        card: Description,
        /// The name it resolves under, if that is another one.
        canonical: Option<Iri>,
        /// What the operator is warned of.
        warning: Option<String>,
    },
}

/// [`Mounted`] as a value.
pub enum MountedView {
    /// It is not the mount's.
    Miss,
    /// It is the mount's, and whoever invokes it is told this.
    Refused(Seq<char>),
    /// It is served by the module: the name of the endpoint, its card, the name it resolves
    /// under if that is another one, and what the operator is warned of.
    Served(Seq<char>, DescriptionView, Option<Seq<char>>, Option<Seq<char>>),
}

impl View for Mounted {
    type V = MountedView;

    open spec fn view(&self) -> MountedView {
        match self {
            Mounted::Miss => MountedView::Miss,
            Mounted::Refused(message) => MountedView::Refused(message@),
            Mounted::Served { name, card, canonical, warning } => MountedView::Served(
                name@,
                card@,
                canonical.deep_view(),
                warning.deep_view(),
            ),
        }
    }
}

/// What serving `name` with `card` comes to, once a target was routed.
pub open spec fn served(
    routing: RoutingView,
    name: Seq<char>,
    card: DescriptionView,
) -> MountedView {
    match routing {
        RoutingView::Direct => MountedView::Served(name, card, None, None),
        RoutingView::Canonical(iri) => MountedView::Served(name, card, Some(iri), None),
        RoutingView::Refuse(message) => MountedView::Refused(message),
        RoutingView::Accept(warning) => MountedView::Served(name, card, None, Some(warning)),
    }
}

/// The name `target` is one resource with, once it was routed.
pub open spec fn settled_name(routing: RoutingView, target: Seq<char>) -> Seq<char> {
    match routing {
        RoutingView::Canonical(iri) => iri,
        _ => target,
    }
}

/// The host's own cards as offers: each goes by the identifier of its card.
pub open spec fn host_offers(endpoints: Seq<(Seq<char>, DescriptionView)>) -> Seq<
    (Seq<char>, Seq<char>, DescriptionView),
> {
    Seq::new(
        endpoints.len(),
        |i: int| (endpoints[i].0, endpoints[i].1.id, endpoints[i].1),
    )
}

/// The module's cards as offers: each goes by the name of the endpoint.
pub open spec fn module_offers(cards: Seq<ModuleCardView>) -> Seq<
    (Seq<char>, Seq<char>, DescriptionView),
> {
    Seq::new(
        cards.len(),
        |i: int| (cards[i].entry.pattern, cards[i].entry.endpoint, cards[i].description),
    )
}

/// The host's own cards as bindings.
pub open spec fn host_entries(endpoints: Seq<(Seq<char>, DescriptionView)>) -> Seq<SpaceEntryView> {
    Seq::new(endpoints.len(), |i: int| local_entry(endpoints[i].0, endpoints[i].1.id))
}

/// Whether the pattern of `entry` is listed.
pub open spec fn is_listed(entries: Seq<SpaceEntryView>, pattern: Seq<char>) -> bool {
    exists|i: int| 0 <= i < entries.len() && (#[trigger] entries[i]).pattern == pattern
}

/// `have`, then each of `add` whose pattern is not listed yet.
pub open spec fn with_unlisted(
    have: Seq<SpaceEntryView>,
    add: Seq<SpaceEntryView>,
) -> Seq<SpaceEntryView>
    decreases add.len(),
{
    if add.len() == 0 {
        have
    } else {
        let most = with_unlisted(have, add.drop_last());
        if is_listed(most, add.last().pattern) {
            most
        } else {
            most.push(add.last())
        }
    }
}

/// What the host's own cards list: each pattern once, for the first card that has it.
pub open spec fn host_listing(endpoints: Seq<(Seq<char>, DescriptionView)>) -> Seq<SpaceEntryView> {
    with_unlisted(Seq::empty(), host_entries(endpoints))
}

/// Those of `entries` whose pattern is under one of `prefixes`.
pub open spec fn routed_entries(
    prefixes: Seq<Seq<char>>,
    entries: Seq<SpaceEntryView>,
) -> Seq<SpaceEntryView> {
    entries.filter(|entry: SpaceEntryView| under_any(prefixes, entry.pattern))
}

/// Those of `cards` whose pattern is under one of `prefixes`.
pub open spec fn routed_cards(
    prefixes: Seq<Seq<char>>,
    cards: Seq<ModuleCardView>,
) -> Seq<ModuleCardView> {
    cards.filter(|card: ModuleCardView| under_any(prefixes, card.entry.pattern))
}

/// The host's own cards, each with its pattern and name.
pub(crate) fn offers_of<'a>(endpoints: &'a Vec<(String, Description)>) -> (r: Vec<
    (&'a str, &'a str, &'a Description),
>)
    ensures
        r.deep_view() == host_offers(endpoints.deep_view()),
{
    let mut offers: Vec<(&'a str, &'a str, &'a Description)> = Vec::new();
    let mut i: usize = 0;
    while i < endpoints.len()
        invariant
            i <= endpoints.len(),
            offers.len() == i,
            forall|k: int|
                0 <= k < i ==> #[trigger] offers.deep_view()[k] == host_offers(
                    endpoints.deep_view(),
                )[k],
        decreases endpoints.len() - i,
    {
        let ghost before = offers.deep_view();
        let card: &'a Description = &endpoints[i].1;
        let offer = (endpoints[i].0.as_str(), card.id.as_str(), card);
        offers.push(offer);
        assert(offers.deep_view() =~= before.push((offer.0@, offer.1@, offer.2@)));
        i += 1;
    }
    assert(offers.deep_view() =~= host_offers(endpoints.deep_view()));
    offers
}

/// Whether one of `entries` has `pattern`.
fn lists(entries: &Vec<SpaceEntry>, pattern: &str) -> (r: bool)
    ensures
        r == is_listed(entries.deep_view(), pattern@),
{
    let mut i: usize = 0;
    while i < entries.len()
        invariant
            i <= entries.len(),
            forall|k: int|
                0 <= k < i ==> (#[trigger] entries.deep_view()[k]).pattern != pattern@,
        decreases entries.len() - i,
    {
        assert(entries.deep_view()[i as int] == entries[i as int]@);
        if same_text(entries[i].pattern.as_str(), pattern) {
            return true;
        }
        i += 1;
    }
    false
}

/// What the host's own cards list, as bindings of this kernel: a loaded module is no remote.
pub(crate) fn entries_of(endpoints: &Vec<(String, Description)>) -> (r: Vec<SpaceEntry>)
    ensures
        r.deep_view() == host_listing(endpoints.deep_view()),
{
    let mut entries: Vec<SpaceEntry> = Vec::new();
    let ghost all = host_entries(endpoints.deep_view());
    assert(entries.deep_view() =~= Seq::empty());
    let mut i: usize = 0;
    while i < endpoints.len()
        invariant
            i <= endpoints.len(),
            all == host_entries(endpoints.deep_view()),
            entries.deep_view() == with_unlisted(Seq::empty(), all.take(i as int)),
        decreases endpoints.len() - i,
    {
        let ghost before = entries.deep_view();
        let entry = SpaceEntry::new(endpoints[i].0.as_str(), endpoints[i].1.id.as_str());
        proof {
            assert(all.take(i + 1).drop_last() =~= all.take(i as int));
            assert(all.take(i + 1).last() == entry@);
        }
        if !lists(&entries, entry.pattern.as_str()) {
            entries.push(entry);
            assert(entries.deep_view() =~= before.push(entry@));
        }
        i += 1;
    }
    assert(all.take(i as int) =~= all);
    entries
}

// ---------------------------------------------------------------------------
// A module that can be asked.
// ---------------------------------------------------------------------------

/// A module mounted at some prefixes, over whatever reaches it.
pub struct ModuleSpace {
    prefixes: Vec<String>,
    aliases: ModuleAliases,
    floor: ModuleFloor,
    endpoints: Vec<(String, Description)>,
    cards: Vec<ModuleCard>,
    describe: Description,
}

/// [`ModuleSpace`] as a value.
#[verifier::ext_equal]
pub struct ModuleSpaceView {
    /// What is routed to the module.
    pub prefixes: Seq<Seq<char>>,
    /// What the module said of its naming.
    pub rewrite: ModuleRewriteView,
    /// What to do where it could not say.
    pub policy: OnUndeclarable,
    /// What the host demands of every caller.
    pub floor: Seq<Seq<char>>,
    /// The host's own cards, each with its pattern.
    pub endpoints: Seq<(Seq<char>, DescriptionView)>,
    /// The module's cards.
    pub cards: Seq<ModuleCardView>,
    /// The card of a name that nothing else describes.
    pub describe: DescriptionView,
}

impl View for ModuleSpace {
    type V = ModuleSpaceView;

    closed spec fn view(&self) -> ModuleSpaceView {
        ModuleSpaceView {
            prefixes: self.prefixes.deep_view(),
            rewrite: self.aliases@.rewrite,
            policy: self.aliases@.policy,
            floor: self.floor@,
            endpoints: self.endpoints.deep_view(),
            cards: self.cards.deep_view(),
            describe: self.describe@,
        }
    }
}

/// What holds of every mount: the module rewrites only names that are routed to it, and it
/// describes only such names.
pub open spec fn is_mount(space: ModuleSpaceView) -> bool {
    &&& install_fault(space.prefixes, space.rewrite) is None
    &&& forall|i: int|
        0 <= i < space.cards.len() ==> under_any(
            space.prefixes,
            (#[trigger] space.cards[i]).entry.pattern,
        )
}

/// The mount of a module that was asked nothing.
pub open spec fn plain_mount(
    prefixes: Seq<Seq<char>>,
    floor: Seq<Seq<char>>,
) -> ModuleSpaceView {
    ModuleSpaceView {
        prefixes,
        rewrite: ModuleRewriteView::Unknown,
        policy: OnUndeclarable::Refuse,
        floor,
        endpoints: Seq::empty(),
        cards: Seq::empty(),
        describe: bare_card("module"@),
    }
}

/// The name and card `space` has for `target`, before the floor: the host's, else the
/// module's, else the one for what nothing else describes.
pub open spec fn chosen_card(space: ModuleSpaceView, target: Seq<char>) -> (
    Seq<char>,
    DescriptionView,
) {
    match first_match(host_offers(space.endpoints) + module_offers(space.cards), target) {
        Some(found) => found,
        None => ("module"@, space.describe),
    }
}

/// Whether `target` is the mount's: it is routed there, or the host has a card for it.
pub open spec fn is_mounted(space: ModuleSpaceView, target: Seq<char>) -> bool {
    under_any(space.prefixes, target) || first_match(host_offers(space.endpoints), target) is Some
}

/// The name `target` is one resource with: what the module rewrites it to, else itself.
pub open spec fn settled(space: ModuleSpaceView, target: Seq<char>) -> Seq<char> {
    settled_name(routed(space.rewrite, space.policy, target), target)
}

/// The name whose card `target` gets: its own if the host has a card for it, else that of the
/// name it is one resource with.
pub open spec fn carded_name(space: ModuleSpaceView, target: Seq<char>) -> Seq<char> {
    if first_match(host_offers(space.endpoints), target) is Some {
        target
    } else {
        settled(space, target)
    }
}

/// What `space` makes of `target`.
pub open spec fn mounted(space: ModuleSpaceView, target: Seq<char>) -> MountedView {
    if is_mounted(space, target) {
        let (name, card) = chosen_card(space, carded_name(space, target));
        served(routed(space.rewrite, space.policy, target), name, floored(space.floor, card))
    } else {
        MountedView::Miss
    }
}

/// What `space` lists: the host's patterns, then the module's cards, then what the module says
/// it binds under the prefixes, each pattern that is not listed yet.
pub open spec fn listing(
    space: ModuleSpaceView,
    live: Option<Seq<SpaceEntryView>>,
) -> Seq<SpaceEntryView> {
    let carded = with_unlisted(
        host_listing(space.endpoints),
        Seq::new(space.cards.len(), |i: int| space.cards[i].entry),
    );
    match live {
        Some(entries) => with_unlisted(carded, routed_entries(space.prefixes, entries)),
        None => carded,
    }
}

impl ModuleSpace {
    #[verifier::type_invariant]
    spec fn valid(&self) -> bool {
        is_mount(self@)
    }

    /// Mounts a module at `prefixes` without asking it anything. The authority it takes to
    /// call it is always said: `floor`.
    pub fn new(prefixes: Vec<String>, floor: ModuleFloor) -> (r: Self)
        ensures
            r@ == plain_mount(prefixes.deep_view(), floor@),
            is_mount(r@),
    {
        let endpoints: Vec<(String, Description)> = Vec::new();
        let cards: Vec<ModuleCard> = Vec::new();
        assert(endpoints.deep_view() =~= Seq::empty());
        assert(cards.deep_view() =~= Seq::empty());
        ModuleSpace {
            prefixes,
            aliases: ModuleAliases::unknown(),
            floor,
            endpoints,
            cards,
            describe: Description::new("module"),
        }
    }

    /// Mounts a module at `prefixes` as its manifest says it names things. Fails if the
    /// declared table cannot be read or reaches outside the prefixes.
    pub fn connect(
        prefixes: Vec<String>,
        manifest: ModuleManifest,
        floor: ModuleFloor,
    ) -> (r: Result<Self, Error>)
        ensures
            match r {
                Ok(space) => {
                    &&& install_fault(prefixes.deep_view(), manifest@.rewrite) is None
                    &&& space@ == (ModuleSpaceView {
                        rewrite: manifest@.rewrite,
                        ..plain_mount(prefixes.deep_view(), floor@)
                    })
                    &&& is_mount(space@)
                },
                Err(error) => {
                    &&& install_fault(prefixes.deep_view(), manifest@.rewrite) matches Some(fault)
                    &&& error@ == ErrorView::Endpoint(fault)
                },
            },
    {
        ModuleSpace::new(prefixes, floor).declaring(manifest.rewrite)
    }

    /// Installs the module's own cards: those for names this mount routes.
    pub fn with_cards(self, cards: Vec<ModuleCard>) -> (r: Self)
        ensures
            r@ == (ModuleSpaceView {
                cards: routed_cards(self@.prefixes, cards.deep_view()),
                ..self@
            }),
            is_mount(r@),
    {
        proof {
            use_type_invariant(&self);
        }
        let mut kept: Vec<ModuleCard> = Vec::new();
        let ghost all = cards.deep_view();
        let ghost prefixes = self@.prefixes;
        let ghost wanted = |card: ModuleCardView| under_any(prefixes, card.entry.pattern);
        let mut i: usize = 0;
        reveal(Seq::filter);
        while i < cards.len()
            invariant
                i <= cards.len(),
                all == cards.deep_view(),
                prefixes == self.prefixes.deep_view(),
                wanted == |card: ModuleCardView| under_any(prefixes, card.entry.pattern),
                kept.deep_view() == all.take(i as int).filter(wanted),
                forall|k: int|
                    0 <= k < kept.len() ==> under_any(
                        prefixes,
                        (#[trigger] kept.deep_view()[k]).entry.pattern,
                    ),
            decreases cards.len() - i,
        {
            let ghost before = kept.deep_view();
            proof {
                reveal(Seq::filter);
                assert(all.take(i + 1).drop_last() =~= all.take(i as int));
                assert(all.take(i + 1).last() == cards[i as int]@);
            }
            if self.routes(cards[i].entry.pattern.as_str()) {
                let card = cards[i].clone();
                kept.push(card);
                assert(kept.deep_view() =~= before.push(card@));
            }
            i += 1;
        }
        assert(all.take(i as int) =~= all);
        let r = ModuleSpace { cards: kept, ..self };
        assert(r@ =~= ModuleSpaceView {
            cards: routed_cards(self@.prefixes, cards.deep_view()),
            ..self@
        });
        r
    }

    /// The card of a name that nothing else describes.
    pub fn describing(self, describe: Description) -> (r: Self)
        ensures
            r@ == (ModuleSpaceView { describe: describe@, ..self@ }),
            is_mount(r@),
    {
        proof {
            use_type_invariant(&self);
        }
        ModuleSpace { describe, ..self }
    }

    /// Installs a declaration the host holds already. What to do where the module cannot say
    /// is to refuse, until [`on_undeclarable`](Self::on_undeclarable) says otherwise.
    pub fn declaring(self, rewrite: ModuleRewrite) -> (r: Result<Self, Error>)
        ensures
            match r {
                Ok(space) => {
                    &&& install_fault(self@.prefixes, rewrite@) is None
                    &&& space@ == (ModuleSpaceView {
                        rewrite: rewrite@,
                        policy: OnUndeclarable::Refuse,
                        ..self@
                    })
                    &&& is_mount(space@)
                },
                Err(error) => {
                    &&& install_fault(self@.prefixes, rewrite@) matches Some(fault)
                    &&& error@ == ErrorView::Endpoint(fault)
                },
            },
    {
        proof {
            use_type_invariant(&self);
        }
        match ModuleAliases::install(&self.prefixes, rewrite) {
            Ok(aliases) => Ok(ModuleSpace { aliases, ..self }),
            Err(error) => Err(error),
        }
    }

    /// What to do about a module that rewrites in a way it cannot declare.
    pub fn on_undeclarable(self, policy: OnUndeclarable) -> (r: Self)
        ensures
            r@ == (ModuleSpaceView { policy, ..self@ }),
            is_mount(r@),
    {
        proof {
            use_type_invariant(&self);
        }
        let ModuleSpace { prefixes, aliases, floor, endpoints, cards, describe } = self;
        let aliases = aliases.with_policy(policy);
        ModuleSpace { prefixes, aliases, floor, endpoints, cards, describe }
    }

    /// Adds a card the host stands behind, for an IRI or a template. It can only add to the
    /// floor. It is the card of every name it is for, also of one the module rewrites.
    pub fn with_endpoint(self, iri: &str, describe: Description) -> (r: Self)
        ensures
            r@ == (ModuleSpaceView {
                endpoints: self@.endpoints.push((iri@, describe@)),
                ..self@
            }),
            is_mount(r@),
    {
        proof {
            use_type_invariant(&self);
        }
        let ModuleSpace { prefixes, aliases, floor, mut endpoints, cards, describe: generic } =
            self;
        endpoints.push((iri.to_owned(), describe));
        assert(endpoints.deep_view() =~= self@.endpoints.push((iri@, describe@)));
        ModuleSpace { prefixes, aliases, floor, endpoints, cards, describe: generic }
    }

    /// Whether `pattern` is under one of the mount's prefixes.
    pub fn routes(&self, pattern: &str) -> (r: bool)
        ensures
            r == under_any(self@.prefixes, pattern@),
    {
        starts_under(&self.prefixes, pattern)
    }

    /// The host's own card for `target`.
    pub fn host_card(&self, target: &Iri) -> (r: Option<&Description>)
        ensures
            match r {
                Some(card) => first_match(host_offers(self@.endpoints), target@) matches Some(found)
                    && found.1 == card@,
                None => first_match(host_offers(self@.endpoints), target@) is None,
            },
    {
        match match_card(&offers_of(&self.endpoints), target) {
            Some((_, card)) => Some(card),
            None => None,
        }
    }

    /// The name and the card of `target`, the floor folded in.
    pub fn card_for(&self, target: &Iri) -> (r: (String, Description))
        ensures
            r.0@ == chosen_card(self@, target@).0,
            r.1@ == floored(self@.floor, chosen_card(self@, target@).1),
    {
        let mut offers = offers_of(&self.endpoints);
        let ghost host = offers.deep_view();
        let mut i: usize = 0;
        while i < self.cards.len()
            invariant
                i <= self.cards.len(),
                host == host_offers(self@.endpoints),
                offers.deep_view() == host + module_offers(self@.cards).take(i as int),
            decreases self.cards.len() - i,
        {
            let ghost before = offers.deep_view();
            let card = &self.cards[i];
            let offer = (
                card.entry.pattern.as_str(),
                card.entry.endpoint.as_str(),
                &card.description,
            );
            offers.push(offer);
            proof {
                let all = module_offers(self@.cards);
                assert(offers.deep_view() =~= before.push((offer.0@, offer.1@, offer.2@)));
                assert(all.take(i + 1) =~= all.take(i as int).push(all[i as int]));
            }
            i += 1;
        }
        proof {
            let all = module_offers(self@.cards);
            assert(all.take(i as int) =~= all);
        }
        match match_card(&offers, target) {
            Some((name, card)) => (name.to_owned(), self.floor.applied_to(card.clone())),
            None => ("module".to_owned(), self.floor.applied_to(self.describe.clone())),
        }
    }

    /// What the module said of its naming.
    pub fn rewrite(&self) -> (r: &ModuleRewrite)
        ensures
            r@ == self@.rewrite,
    {
        self.aliases.rewrite()
    }

    /// What the host demands of every caller.
    pub fn floor(&self) -> (r: &ModuleFloor)
        ensures
            r@ == self@.floor,
    {
        &self.floor
    }

    /// What the mount makes of a request. A name it is rewritten to is another one, is under
    /// the prefixes, and resolves as given itself: the two names are one resource. They have
    /// one card, unless the host has a card of its own for the name that was asked for.
    pub fn resolve(&self, request: &Request) -> (r: Mounted)
        ensures
            r@ == mounted(self@, request@.target),
            r@ matches MountedView::Served(_, _, Some(canonical), _) ==> {
                &&& canonical != request@.target
                &&& under_any(self@.prefixes, canonical)
                &&& mounted(self@, canonical) matches MountedView::Served(name, card, None, None)
                &&& first_match(host_offers(self@.endpoints), request@.target) is None ==> r@
                    == MountedView::Served(name, card, Some(canonical), None)
            },
    {
        proof {
            use_type_invariant(self);
        }
        let has_card = self.host_card(&request.target).is_some();
        if !self.routes(request.target.as_str()) && !has_card {
            return Mounted::Miss;
        }
        let (canonical, warning) = match self.aliases.route(&request.target) {
            Routing::Direct => (None, None),
            Routing::Canonical(iri) => (Some(iri), None),
            Routing::Accept(warning) => (None, Some(warning)),
            Routing::Refuse(message) => {
                return Mounted::Refused(message);
            },
        };
        let (name, card) = match &canonical {
            Some(iri) if !has_card => self.card_for(iri),
            _ => self.card_for(&request.target),
        };
        Mounted::Served { name, card, canonical, warning }
    }

    /// What the mount lists, given what the module says it binds; `None` if that is nothing.
    pub fn entries(&self, live: Option<Vec<SpaceEntry>>) -> (r: Option<Vec<SpaceEntry>>)
        ensures
            match r {
                Some(entries) => entries.deep_view() == listing(self@, live.deep_view())
                    && entries@.len() > 0,
                None => listing(self@, live.deep_view()).len() == 0,
            },
    {
        let mut entries = entries_of(&self.endpoints);
        let ghost host = entries.deep_view();
        let ghost carded = Seq::new(self@.cards.len(), |k: int| self@.cards[k].entry);
        let mut i: usize = 0;
        while i < self.cards.len()
            invariant
                i <= self.cards.len(),
                carded == Seq::new(self@.cards.len(), |k: int| self@.cards[k].entry),
                entries.deep_view() == with_unlisted(host, carded.take(i as int)),
            decreases self.cards.len() - i,
        {
            let ghost before = entries.deep_view();
            let entry = &self.cards[i].entry;
            proof {
                assert(carded.take(i + 1).drop_last() =~= carded.take(i as int));
                assert(carded.take(i + 1).last() == entry@);
            }
            if !lists(&entries, entry.pattern.as_str()) {
                entries.push(entry.clone());
                assert(entries.deep_view() =~= before.push(entry@));
            }
            i += 1;
        }
        assert(carded.take(i as int) =~= carded);
        let ghost listed = entries.deep_view();
        match live {
            None => {},
            Some(live) => {
                let ghost all = live.deep_view();
                let ghost prefixes = self@.prefixes;
                let ghost wanted = |entry: SpaceEntryView| under_any(prefixes, entry.pattern);
                let mut k: usize = 0;
                proof {
                    reveal(Seq::filter);
                }
                while k < live.len()
                    invariant
                        k <= live.len(),
                        all == live.deep_view(),
                        prefixes == self@.prefixes,
                        wanted == |entry: SpaceEntryView| under_any(prefixes, entry.pattern),
                        entries.deep_view() == with_unlisted(
                            listed,
                            all.take(k as int).filter(wanted),
                        ),
                    decreases live.len() - k,
                {
                    let ghost before = entries.deep_view();
                    proof {
                        reveal(Seq::filter);
                        assert(all.take(k + 1).drop_last() =~= all.take(k as int));
                        assert(all.take(k + 1).last() == live[k as int]@);
                        let less = all.take(k as int).filter(wanted);
                        let more = all.take(k + 1).filter(wanted);
                        if wanted(live[k as int]@) {
                            assert(more == less.push(live[k as int]@));
                            assert(more.drop_last() =~= less);
                        }
                    }
                    if self.routes(live[k].pattern.as_str()) && !lists(
                        &entries,
                        live[k].pattern.as_str(),
                    ) {
                        entries.push(live[k].clone());
                        assert(entries.deep_view() =~= before.push(live[k as int]@));
                    }
                    k += 1;
                }
                assert(all.take(k as int) =~= all);
            },
        }
        if entries.len() == 0 {
            assert(entries.deep_view().len() == 0);
            None
        } else {
            Some(entries)
        }
    }
}

// ---------------------------------------------------------------------------
// Laws.
// ---------------------------------------------------------------------------

/// The host's card wins over the module's, and the module's over the one for what nothing else
/// describes.
pub proof fn law_host_then_module_then_generic(space: ModuleSpaceView, target: Seq<char>)
    ensures
        chosen_card(space, target) == (match first_match(host_offers(space.endpoints), target) {
            Some(found) => found,
            None => match first_match(module_offers(space.cards), target) {
                Some(found) => found,
                None => ("module"@, space.describe),
            },
        }),
{
    law_earlier_offers_win(host_offers(space.endpoints), module_offers(space.cards), target);
}

/// A card the host has for a name is the one it is served under, the floor folded in, whether
/// or not the module rewrites the name.
pub proof fn law_a_card_of_the_host_is_used(space: ModuleSpaceView, target: Seq<char>)
    requires
        first_match(host_offers(space.endpoints), target) is Some,
    ensures
        first_match(host_offers(space.endpoints), target) matches Some(found) && mounted(
            space,
            target,
        ) == served(
            routed(space.rewrite, space.policy, target),
            found.0,
            floored(space.floor, found.1),
        ),
{
    law_host_then_module_then_generic(space, target);
}

/// A name without a card of the host's is served under the card of the name it is rewritten
/// to: whatever that card demands is demanded of it.
pub proof fn law_a_rewritten_name_has_the_card_of_the_resource(
    space: ModuleSpaceView,
    target: Seq<char>,
    canonical: Seq<char>,
)
    requires
        is_mounted(space, target),
        first_match(host_offers(space.endpoints), target) is None,
        routed(space.rewrite, space.policy, target) == RoutingView::Canonical(canonical),
        is_mounted(space, canonical),
        routed(space.rewrite, space.policy, canonical) is Direct,
    ensures
        mounted(space, canonical) matches MountedView::Served(name, card, None, None) && mounted(
            space,
            target,
        ) == MountedView::Served(name, card, Some(canonical), None),
{
}

/// A name that no template covers and no card names gets the card for what nothing else
/// describes.
pub proof fn law_an_undeclared_name_has_the_generic_card(space: ModuleSpaceView, target: Seq<char>)
    requires
        forall|i: int|
            0 <= i < space.endpoints.len() ==> !pattern_covers(
                (#[trigger] space.endpoints[i]).0,
                target,
            ),
        forall|i: int|
            0 <= i < space.cards.len() ==> !pattern_covers(
                (#[trigger] space.cards[i]).entry.pattern,
                target,
            ),
    ensures
        chosen_card(space, target) == ("module"@, space.describe),
{
    let host = host_offers(space.endpoints);
    let module = module_offers(space.cards);
    assert forall|i: int| 0 <= i < host.len() implies !pattern_covers(
        (#[trigger] host[i]).0,
        target,
    ) by {
        assert(host[i].0 == space.endpoints[i].0);
    }
    assert forall|i: int| 0 <= i < module.len() implies !pattern_covers(
        (#[trigger] module[i]).0,
        target,
    ) by {
        assert(module[i].0 == space.cards[i].entry.pattern);
    }
    law_host_then_module_then_generic(space, target);
    law_matched_exactly_when_covered(host, target);
    law_matched_exactly_when_covered(module, target);
}

/// A mount answers for exactly the names routed to it and those the host has a card for; a
/// name it refuses is not one it does not know.
pub proof fn law_a_mount_answers_for_its_names(space: ModuleSpaceView, target: Seq<char>)
    ensures
        mounted(space, target) is Miss <==> !under_any(space.prefixes, target) && first_match(
            host_offers(space.endpoints),
            target,
        ) is None,
        mounted(space, target) is Refused <==> is_mounted(space, target) && routed(
            space.rewrite,
            space.policy,
            target,
        ) is Refuse,
{
}

/// Whichever card a name gets, every scope of the floor is in it, among the flat scopes and
/// those of each action that is not for `Meta`: a name nobody declared is gated as strictly as
/// one somebody did.
pub proof fn law_every_card_carries_the_floor(
    space: ModuleSpaceView,
    target: Seq<char>,
    scope: Seq<char>,
)
    requires
        space.floor.contains(scope),
    ensures
        mounted(space, target) matches MountedView::Served(_, card, _, _) ==> {
            &&& card.scopes.contains(scope)
            &&& forall|i: int|
                0 <= i < card.actions.len() && (#[trigger] card.actions[i]).verb != Verb::Meta
                    ==> card.actions[i].scopes.contains(scope)
        },
{
    law_floor_only_adds(space.floor, chosen_card(space, carded_name(space, target)).1);
}

/// No card is made weaker on the way to the kernel: every scope that the card of a name
/// declares is still demanded.
pub proof fn law_no_card_is_weakened(
    space: ModuleSpaceView,
    target: Seq<char>,
    scope: Seq<char>,
)
    requires
        chosen_card(space, carded_name(space, target)).1.scopes.contains(scope),
    ensures
        mounted(space, target) matches MountedView::Served(_, card, _, _)
            ==> card.scopes.contains(scope),
{
    let own = chosen_card(space, carded_name(space, target)).1;
    law_floor_only_adds(space.floor, own);
    let folded = floored(space.floor, own);
    let k = choose|k: int| 0 <= k < own.scopes.len() && own.scopes[k] == scope;
    assert(folded.scopes[k] == scope);
}

/// A card of the module is kept exactly if its pattern is routed.
pub proof fn law_only_routed_cards_are_kept(
    prefixes: Seq<Seq<char>>,
    cards: Seq<ModuleCardView>,
    card: ModuleCardView,
)
    ensures
        routed_cards(prefixes, cards).contains(card) <==> cards.contains(card) && under_any(
            prefixes,
            card.entry.pattern,
        ),
{
    let wanted = |card: ModuleCardView| under_any(prefixes, card.entry.pattern);
    let kept = cards.filter(wanted);
    if kept.contains(card) {
        let k = choose|k: int| 0 <= k < kept.len() && kept[k] == card;
        cards.lemma_filter_pred(wanted, k);
        cards.lemma_filter_contains_rev(wanted, card);
    }
    if cards.contains(card) && wanted(card) {
        let k = choose|k: int| 0 <= k < cards.len() && cards[k] == card;
        cards.lemma_filter_contains(wanted, k);
    }
}

/// Whether no pattern of `entries` comes twice.
pub open spec fn each_once(entries: Seq<SpaceEntryView>) -> bool {
    forall|i: int, j: int|
        0 <= i < j < entries.len() ==> (#[trigger] entries[i]).pattern != (
            #[trigger] entries[j]).pattern
}

proof fn lemma_with_unlisted(have: Seq<SpaceEntryView>, add: Seq<SpaceEntryView>)
    ensures
        have.is_prefix_of(with_unlisted(have, add)),
        each_once(have) ==> each_once(with_unlisted(have, add)),
        forall|p: Seq<char>| #[trigger]
            is_listed(with_unlisted(have, add), p) <==> is_listed(have, p) || is_listed(add, p),
    decreases add.len(),
{
    let all = with_unlisted(have, add);
    if add.len() > 0 {
        let front = add.drop_last();
        let most = with_unlisted(have, front);
        lemma_with_unlisted(have, front);
        assert(add[add.len() - 1] == add.last());
        assert forall|p: Seq<char>| #[trigger]
            is_listed(all, p) <==> is_listed(have, p) || is_listed(add, p) by {
            assert(is_listed(most, p) <==> is_listed(have, p) || is_listed(front, p));
            if is_listed(add, p) {
                let k = choose|k: int| 0 <= k < add.len() && (#[trigger] add[k]).pattern == p;
                if k < front.len() {
                    assert(front[k].pattern == p);
                }
            }
            if is_listed(front, p) {
                let k = choose|k: int| 0 <= k < front.len() && (#[trigger] front[k]).pattern == p;
                assert(add[k].pattern == p);
            }
            if is_listed(all, p) {
                let k = choose|k: int| 0 <= k < all.len() && (#[trigger] all[k]).pattern == p;
                if k < most.len() {
                    assert(most[k].pattern == p);
                }
            }
            if is_listed(most, p) {
                let k = choose|k: int| 0 <= k < most.len() && (#[trigger] most[k]).pattern == p;
                assert(all[k].pattern == p);
            }
            if p == add.last().pattern && !is_listed(most, p) {
                assert(all[most.len() as int].pattern == p);
            }
        }
        if each_once(have) && !is_listed(most, add.last().pattern) {
            assert forall|i: int, j: int| 0 <= i < j < all.len() implies (
            #[trigger] all[i]).pattern != (#[trigger] all[j]).pattern by {
                if j == most.len() {
                    assert(most[i].pattern != add.last().pattern);
                } else {
                    assert(all[i] == most[i] && all[j] == most[j]);
                }
            }
        }
    } else {
        assert(have.is_prefix_of(have));
    }
}

/// What the host lists: each pattern it has a card for, once.
pub proof fn law_the_host_lists_what_it_has_cards_for(
    endpoints: Seq<(Seq<char>, DescriptionView)>,
    pattern: Seq<char>,
)
    ensures
        each_once(host_listing(endpoints)),
        is_listed(host_listing(endpoints), pattern) <==> exists|i: int|
            0 <= i < endpoints.len() && (#[trigger] endpoints[i]).0 == pattern,
{
    let host = host_entries(endpoints);
    let none: Seq<SpaceEntryView> = Seq::empty();
    lemma_with_unlisted(none, host);
    assert(is_listed(host_listing(endpoints), pattern) <==> is_listed(none, pattern) || is_listed(
        host,
        pattern,
    ));
    if is_listed(host, pattern) {
        let k = choose|k: int| 0 <= k < host.len() && (#[trigger] host[k]).pattern == pattern;
        assert(endpoints[k].0 == pattern);
    }
    if exists|i: int| 0 <= i < endpoints.len() && (#[trigger] endpoints[i]).0 == pattern {
        let k = choose|i: int| 0 <= i < endpoints.len() && (#[trigger] endpoints[i]).0 == pattern;
        assert(host[k].pattern == pattern);
    }
}

/// Where several cards of the host are for one pattern, the first of them is the one listed.
pub proof fn law_the_first_card_is_listed(
    endpoints: Seq<(Seq<char>, DescriptionView)>,
    first: int,
)
    requires
        0 <= first < endpoints.len(),
        forall|j: int| 0 <= j < first ==> (#[trigger] endpoints[j]).0 != endpoints[first].0,
    ensures
        host_listing(endpoints).contains(local_entry(endpoints[first].0, endpoints[first].1.id)),
    decreases endpoints.len(),
{
    let host = host_entries(endpoints);
    let front = endpoints.drop_last();
    let none: Seq<SpaceEntryView> = Seq::empty();
    let entry = local_entry(endpoints[first].0, endpoints[first].1.id);
    assert(host.drop_last() =~= host_entries(front));
    let most = host_listing(front);
    let all = host_listing(endpoints);
    if first < front.len() {
        law_the_first_card_is_listed(front, first);
        let k = choose|k: int| 0 <= k < most.len() && most[k] == entry;
        assert(all[k] == entry);
    } else {
        law_the_host_lists_what_it_has_cards_for(front, entry.pattern);
        assert(all == most.push(entry));
        assert(all[most.len() as int] == entry);
    }
}

/// No pattern is listed twice, however many cards are for it.
pub proof fn law_a_listing_names_each_pattern_once(
    space: ModuleSpaceView,
    live: Option<Seq<SpaceEntryView>>,
)
    ensures
        each_once(listing(space, live)),
{
    let host = host_listing(space.endpoints);
    lemma_with_unlisted(Seq::empty(), host_entries(space.endpoints));
    let cards = Seq::new(space.cards.len(), |i: int| space.cards[i].entry);
    lemma_with_unlisted(host, cards);
    if live is Some {
        lemma_with_unlisted(
            with_unlisted(host, cards),
            routed_entries(space.prefixes, live->0),
        );
    }
}

/// The host's patterns come first, and a pattern is listed exactly if the host declared it, or
/// the module has a card for it, or the module says it binds it and it is routed.
pub proof fn law_a_listing_is_complete(
    space: ModuleSpaceView,
    live: Option<Seq<SpaceEntryView>>,
    pattern: Seq<char>,
)
    ensures
        host_listing(space.endpoints).is_prefix_of(listing(space, live)),
        is_listed(listing(space, live), pattern) <==> {
            ||| exists|i: int|
                0 <= i < space.endpoints.len() && (#[trigger] space.endpoints[i]).0 == pattern
            ||| exists|i: int|
                0 <= i < space.cards.len() && (#[trigger] space.cards[i]).entry.pattern == pattern
            ||| live matches Some(entries) && under_any(space.prefixes, pattern) && is_listed(
                entries,
                pattern,
            )
        },
{
    let host = host_listing(space.endpoints);
    let cards = Seq::new(space.cards.len(), |i: int| space.cards[i].entry);
    law_the_host_lists_what_it_has_cards_for(space.endpoints, pattern);
    lemma_with_unlisted(host, cards);
    let carded = with_unlisted(host, cards);
    assert(is_listed(cards, pattern) <==> exists|i: int|
        0 <= i < space.cards.len() && (#[trigger] space.cards[i]).entry.pattern == pattern) by {
        if is_listed(cards, pattern) {
            let k = choose|k: int| 0 <= k < cards.len() && (#[trigger] cards[k]).pattern == pattern;
            assert(space.cards[k].entry.pattern == pattern);
        }
        if exists|i: int|
            0 <= i < space.cards.len() && (#[trigger] space.cards[i]).entry.pattern == pattern {
            let k = choose|i: int|
                0 <= i < space.cards.len() && (#[trigger] space.cards[i]).entry.pattern == pattern;
            assert(cards[k].pattern == pattern);
        }
    }
    if live is Some {
        let entries = live->0;
        let prefixes = space.prefixes;
        let wanted = |entry: SpaceEntryView| under_any(prefixes, entry.pattern);
        let kept = entries.filter(wanted);
        assert(kept == routed_entries(prefixes, entries));
        lemma_with_unlisted(carded, kept);
        assert(is_listed(kept, pattern) <==> under_any(space.prefixes, pattern) && is_listed(
            entries,
            pattern,
        )) by {
            if is_listed(kept, pattern) {
                let k = choose|k: int|
                    0 <= k < kept.len() && (#[trigger] kept[k]).pattern == pattern;
                entries.lemma_filter_pred(wanted, k);
                entries.lemma_filter_contains_rev(wanted, kept[k]);
                let m = choose|m: int| 0 <= m < entries.len() && entries[m] == kept[k];
                assert(entries[m].pattern == pattern);
            }
            if under_any(space.prefixes, pattern) && is_listed(entries, pattern) {
                let m = choose|m: int|
                    0 <= m < entries.len() && (#[trigger] entries[m]).pattern == pattern;
                entries.lemma_filter_contains(wanted, m);
                assert(kept.contains(entries[m]));
                let k = choose|k: int| 0 <= k < kept.len() && kept[k] == entries[m];
                assert(kept[k].pattern == pattern);
            }
        }
        assert(carded.is_prefix_of(listing(space, live)));
        assert(host.is_prefix_of(carded));
        assert(listing(space, live).subrange(0, host.len() as int) =~= carded.subrange(
            0,
            host.len() as int,
        ));
    }
}

/// What a mount lists it serves: every listed pattern, taken as a name, is the mount's.
pub proof fn law_what_is_listed_is_mounted(
    space: ModuleSpaceView,
    live: Option<Seq<SpaceEntryView>>,
    pattern: Seq<char>,
)
    requires
        is_mount(space),
        is_listed(listing(space, live), pattern),
    ensures
        is_mounted(space, pattern),
{
    law_a_listing_is_complete(space, live, pattern);
    if exists|i: int|
        0 <= i < space.endpoints.len() && (#[trigger] space.endpoints[i]).0 == pattern {
        let i = choose|i: int|
            0 <= i < space.endpoints.len() && (#[trigger] space.endpoints[i]).0 == pattern;
        let offers = host_offers(space.endpoints);
        assert(pattern_covers(offers[i].0, pattern));
        law_matched_exactly_when_covered(offers, pattern);
    }
}

/// Whether `at` is where the first of `endpoints` is whose pattern covers `target`; past the
/// end, if none does.
pub open spec fn first_host_card(
    endpoints: Seq<(Seq<char>, DescriptionView)>,
    target: Seq<char>,
    at: int,
) -> bool {
    &&& 0 <= at <= endpoints.len()
    &&& forall|j: int| 0 <= j < at ==> !pattern_covers((#[trigger] endpoints[j]).0, target)
    &&& at < endpoints.len() ==> pattern_covers(endpoints[at].0, target)
}

/// Whether `at` is where the first of `cards` is whose pattern covers `target`; past the end,
/// if none does.
pub open spec fn first_module_card(
    cards: Seq<ModuleCardView>,
    target: Seq<char>,
    at: int,
) -> bool {
    &&& 0 <= at <= cards.len()
    &&& forall|j: int| 0 <= j < at ==> !pattern_covers((#[trigger] cards[j]).entry.pattern, target)
    &&& at < cards.len() ==> pattern_covers(cards[at].entry.pattern, target)
}

pub(crate) proof fn lemma_host_offer(
    endpoints: Seq<(Seq<char>, DescriptionView)>,
    target: Seq<char>,
    at: int,
)
    requires
        first_host_card(endpoints, target, at),
    ensures
        first_match(host_offers(endpoints), target) == if at < endpoints.len() {
            Some((endpoints[at].1.id, endpoints[at].1))
        } else {
            None
        },
{
    let offers = host_offers(endpoints);
    assert forall|j: int| 0 <= j < at implies !pattern_covers((#[trigger] offers[j]).0, target) by {
        assert(offers[j].0 == endpoints[j].0);
    }
    lemma_first_match_is_first(offers, target, at);
}

proof fn lemma_module_offer(cards: Seq<ModuleCardView>, target: Seq<char>, at: int)
    requires
        first_module_card(cards, target, at),
    ensures
        first_match(module_offers(cards), target) == if at < cards.len() {
            Some((cards[at].entry.endpoint, cards[at].description))
        } else {
            None
        },
{
    let offers = module_offers(cards);
    assert forall|j: int| 0 <= j < at implies !pattern_covers((#[trigger] offers[j]).0, target) by {
        assert(offers[j].0 == cards[j].entry.pattern);
    }
    lemma_first_match_is_first(offers, target, at);
}

/// The card of a name is the first of the host's that covers it, under that card's identifier;
/// else the first of the module's that does, under its endpoint's name; else the one for what
/// nothing else describes. The floor is folded into each.
pub proof fn law_the_card_of_a_name_is_the_first_that_covers_it(
    space: &ModuleSpace,
    target: &Iri,
    host_at: int,
    module_at: int,
    r: (String, Description),
)
    requires
        call_ensures(ModuleSpace::card_for, (space, target), r),
        first_host_card(space@.endpoints, target@, host_at),
        first_module_card(space@.cards, target@, module_at),
    ensures
        if host_at < space@.endpoints.len() {
            &&& r.0@ == space@.endpoints[host_at].1.id
            &&& r.1@ == floored(space@.floor, space@.endpoints[host_at].1)
        } else if module_at < space@.cards.len() {
            &&& r.0@ == space@.cards[module_at].entry.endpoint
            &&& r.1@ == floored(space@.floor, space@.cards[module_at].description)
        } else {
            &&& r.0@ == "module"@
            &&& r.1@ == floored(space@.floor, space@.describe)
        },
{
    lemma_host_offer(space@.endpoints, target@, host_at);
    lemma_module_offer(space@.cards, target@, module_at);
    law_host_then_module_then_generic(space@, target@);
}

/// The host's own card for a name is the first of its cards that covers it.
pub proof fn law_the_hosts_card_is_the_first_that_covers_a_name(
    space: &ModuleSpace,
    target: &Iri,
    at: int,
    r: Option<&Description>,
)
    requires
        call_ensures(ModuleSpace::host_card, (space, target), r),
        first_host_card(space@.endpoints, target@, at),
    ensures
        r is Some <==> at < space@.endpoints.len(),
        r matches Some(card) ==> card@ == space@.endpoints[at].1,
{
    lemma_host_offer(space@.endpoints, target@, at);
}

/// A mount answers for exactly the names under its prefixes and those the host has a card for.
/// What it answers for is refused, or served as given, or under another name, or with a
/// warning, exactly as the declared naming routes it.
pub proof fn law_a_mount_serves_as_the_naming_routes(
    space: &ModuleSpace,
    request: &Request,
    at: int,
    r: Mounted,
)
    requires
        call_ensures(ModuleSpace::resolve, (space, request), r),
        first_host_card(space@.endpoints, request@.target, at),
    ensures
        r is Miss <==> !under_any(space@.prefixes, request@.target) && at
            == space@.endpoints.len(),
        r !is Miss ==> match routed(space@.rewrite, space@.policy, request@.target) {
            RoutingView::Direct => r matches Mounted::Served { canonical: None, warning: None, .. },
            RoutingView::Canonical(other) => r matches Mounted::Served {
                canonical: Some(iri),
                warning: None,
                ..
            } && iri@ == other,
            RoutingView::Refuse(message) => r matches Mounted::Refused(told) && told@ == message,
            RoutingView::Accept(message) => r matches Mounted::Served {
                canonical: None,
                warning: Some(told),
                ..
            } && told@ == message,
        },
{
    lemma_host_offer(space@.endpoints, request@.target, at);
    let view = r@;
}

/// A name that is served gets its own card if the host has one for it; else it gets the card of
/// the resource it is a name of, the one it is rewritten to if it is rewritten.
pub proof fn law_a_name_is_served_under_its_card(
    space: &ModuleSpace,
    request: &Request,
    own_at: int,
    resource: Iri,
    expected: (String, Description),
    r: Mounted,
)
    requires
        call_ensures(ModuleSpace::resolve, (space, request), r),
        first_host_card(space@.endpoints, request@.target, own_at),
        resource@ == if own_at < space@.endpoints.len() {
            request@.target
        } else {
            match routed(space@.rewrite, space@.policy, request@.target) {
                RoutingView::Canonical(other) => other,
                _ => request@.target,
            }
        },
        call_ensures(ModuleSpace::card_for, (space, &resource), expected),
    ensures
        r matches Mounted::Served { name, card, .. } ==> name@ == expected.0@ && card@
            == expected.1@,
{
    lemma_host_offer(space@.endpoints, request@.target, own_at);
}

/// A mount routes exactly what is under its prefixes.
pub proof fn law_a_mount_routes_what_is_under_its_prefixes(
    space: &ModuleSpace,
    pattern: &str,
    r: bool,
)
    requires
        call_ensures(ModuleSpace::routes, (space, pattern), r),
    ensures
        r == under_any(space@.prefixes, pattern@),
{
}

/// A mount starts with the prefixes and the floor it was given and nothing else: it has no
/// cards, and the module has made no claim of its naming.
pub proof fn law_a_mount_starts_with_no_claim_and_no_card(
    prefixes: Vec<String>,
    floor: ModuleFloor,
    r: ModuleSpace,
)
    requires
        call_ensures(ModuleSpace::new, (prefixes, floor), r),
    ensures
        r@.prefixes == prefixes.deep_view(),
        r@.floor == floor@,
        r@.rewrite is Unknown,
        r@.policy is Refuse,
        r@.endpoints.len() == 0,
        r@.cards.len() == 0,
        r@.describe.id == "module"@,
        r@.describe.verbs.len() == 0,
        r@.describe.scopes.len() == 0,
        r@.describe.actions.len() == 0,
{
}

/// A module is mounted as its manifest says it names things, exactly if that stays inside the
/// prefixes.
pub proof fn law_a_module_is_mounted_as_its_manifest_says(
    prefixes: Vec<String>,
    manifest: ModuleManifest,
    floor: ModuleFloor,
    rules: Seq<(Seq<char>, Seq<char>, Seq<char>)>,
    limit: nat,
    aliases: Result<ModuleAliases, Error>,
    r: Result<ModuleSpace, Error>,
)
    requires
        call_ensures(ModuleSpace::connect, (prefixes, manifest, floor), r),
        call_ensures(ModuleAliases::install, (&prefixes, manifest.rewrite), aliases),
    ensures
        r is Ok <==> aliases is Ok,
        r matches Err(error) ==> error@ == aliases->Err_0@,
        manifest@.rewrite !is Table ==> r is Ok,
        declares(manifest@.rewrite, rules, limit) ==> (r is Ok <==> forall|i: int|
            0 <= i < rules.len() ==> stays_inside(prefixes.deep_view(), #[trigger] rules[i])),
        r matches Ok(space) ==> {
            &&& space@.prefixes == prefixes.deep_view()
            &&& space@.floor == floor@
            &&& space@.rewrite == manifest@.rewrite
            &&& space@.policy is Refuse
            &&& space@.endpoints.len() == 0
            &&& space@.cards.len() == 0
        },
{
    law_a_declaration_is_installed_if_it_stays_inside(
        &prefixes,
        manifest.rewrite,
        rules,
        limit,
        aliases,
    );
}

/// Each thing that is said of a mount changes that and nothing else: a card of the host's comes
/// after those it has, a declaration replaces the one before and waits to be told what to do
/// where the module cannot say.
pub proof fn law_saying_more_of_a_mount_changes_only_that(
    space: ModuleSpace,
    iri: &str,
    card: Description,
    with_card: ModuleSpace,
    describing: ModuleSpace,
    policy: OnUndeclarable,
    with_policy: ModuleSpace,
    rewrite: ModuleRewrite,
    declared: Result<ModuleSpace, Error>,
)
    requires
        call_ensures(ModuleSpace::with_endpoint, (space, iri, card), with_card),
        call_ensures(ModuleSpace::describing, (space, card), describing),
        call_ensures(ModuleSpace::on_undeclarable, (space, policy), with_policy),
        call_ensures(ModuleSpace::declaring, (space, rewrite), declared),
    ensures
        with_card@.endpoints.len() == space@.endpoints.len() + 1,
        forall|i: int|
            0 <= i < space@.endpoints.len() ==> #[trigger] with_card@.endpoints[i]
                == space@.endpoints[i],
        with_card@.endpoints.last() == (iri@, card@),
        with_card@ == (ModuleSpaceView { endpoints: with_card@.endpoints, ..space@ }),
        describing@ == (ModuleSpaceView { describe: card@, ..space@ }),
        with_policy@ == (ModuleSpaceView { policy, ..space@ }),
        declared matches Ok(after) ==> after@ == (ModuleSpaceView {
            rewrite: rewrite@,
            policy: OnUndeclarable::Refuse,
            ..space@
        }),
{
}

/// A declaration the host holds is taken exactly if it stays inside the prefixes.
pub proof fn law_a_held_declaration_is_taken_if_it_stays_inside(
    space: ModuleSpace,
    rewrite: ModuleRewrite,
    rules: Seq<(Seq<char>, Seq<char>, Seq<char>)>,
    limit: nat,
    r: Result<ModuleSpace, Error>,
)
    requires
        call_ensures(ModuleSpace::declaring, (space, rewrite), r),
    ensures
        rewrite@ !is Table ==> r is Ok,
        declares(rewrite@, rules, limit) ==> (r is Ok <==> forall|i: int|
            0 <= i < rules.len() ==> stays_inside(space@.prefixes, #[trigger] rules[i])),
        r matches Err(error) ==> error@ is Endpoint,
{
    lemma_no_fault_if_inside(space@.prefixes, rules);
}

/// What a mount was told is what it says of itself.
pub proof fn law_a_mount_says_what_it_was_told(
    space: &ModuleSpace,
    rewrite: &ModuleRewrite,
    floor: &ModuleFloor,
)
    requires
        call_ensures(ModuleSpace::rewrite, (space,), rewrite),
        call_ensures(ModuleSpace::floor, (space,), floor),
    ensures
        rewrite@ == space@.rewrite,
        floor@ == space@.floor,
{
}

/// Of the module's cards exactly those for routed names are kept, each as it is and in the
/// order they came; nothing else of the mount changes.
pub proof fn law_routed_cards_are_kept_in_order(
    space: ModuleSpace,
    card: ModuleCardView,
    one: Vec<ModuleCard>,
    rest: Vec<ModuleCard>,
    all: Vec<ModuleCard>,
    with_one: ModuleSpace,
    with_rest: ModuleSpace,
    with_all: ModuleSpace,
)
    requires
        one.deep_view() == seq![card],
        all.deep_view() == rest.deep_view() + one.deep_view(),
        call_ensures(ModuleSpace::with_cards, (space, one), with_one),
        call_ensures(ModuleSpace::with_cards, (space, rest), with_rest),
        call_ensures(ModuleSpace::with_cards, (space, all), with_all),
    ensures
        with_one@.cards == if under_any(space@.prefixes, card.entry.pattern) {
            seq![card]
        } else {
            Seq::empty()
        },
        with_all@.cards == with_rest@.cards + with_one@.cards,
        with_all@ == (ModuleSpaceView { cards: with_all@.cards, ..space@ }),
{
    reveal(Seq::filter);
    let prefixes = space@.prefixes;
    let wanted = |card: ModuleCardView| under_any(prefixes, card.entry.pattern);
    let none: Seq<ModuleCardView> = Seq::empty();
    assert(one.deep_view().drop_last() =~= none);
    assert(one.deep_view().last() == card);
    assert(none.filter(wanted) =~= none);
    assert(all.deep_view().drop_last() =~= rest.deep_view());
    assert(all.deep_view().last() == card);
    assert(with_one@.cards =~= if under_any(space@.prefixes, card.entry.pattern) {
        seq![card]
    } else {
        Seq::empty()
    });
    assert(with_all@.cards =~= with_rest@.cards + with_one@.cards);
}

/// Everything there is to list, in order: the host's cards as bindings of this kernel's own,
/// then the entries of the module's cards, then the routed ones of what the module says it
/// binds.
pub open spec fn all_entries(
    space: ModuleSpaceView,
    live: Option<Seq<SpaceEntryView>>,
) -> Seq<SpaceEntryView> {
    let host = Seq::new(
        space.endpoints.len(),
        |i: int|
            SpaceEntryView {
                pattern: space.endpoints[i].0,
                endpoint: space.endpoints[i].1.id,
                origin: None,
            },
    );
    let own = Seq::new(space.cards.len(), |i: int| space.cards[i].entry);
    let said = match live {
        Some(entries) => entries.filter(
            |entry: SpaceEntryView| under_any(space.prefixes, entry.pattern),
        ),
        None => Seq::empty(),
    };
    host + own + said
}

/// Whether the entry at `i` is the first of `entries` with its pattern.
pub open spec fn is_first(entries: Seq<SpaceEntryView>, i: int) -> bool {
    &&& 0 <= i < entries.len()
    &&& forall|j: int| 0 <= j < i ==> (#[trigger] entries[j]).pattern != entries[i].pattern
}

/// Whether `places` are, in order, all the places in `all` of entries that are the first with
/// their pattern, and `listed` what stands there.
pub open spec fn lists_the_firsts_at(
    all: Seq<SpaceEntryView>,
    listed: Seq<SpaceEntryView>,
    places: Seq<int>,
) -> bool {
    &&& listed.len() == places.len()
    &&& forall|k: int|
        0 <= k < places.len() ==> is_first(all, #[trigger] places[k]) && listed[k] == all[places[k]]
    &&& forall|k: int, m: int|
        0 <= k < m < places.len() ==> #[trigger] places[k] < #[trigger] places[m]
    &&& forall|i: int| #[trigger] is_first(all, i) ==> places.contains(i)
}

/// Whether `listed` are exactly the entries of `all` that are the first with their pattern, in
/// the order they come in.
pub open spec fn lists_the_firsts(
    all: Seq<SpaceEntryView>,
    listed: Seq<SpaceEntryView>,
) -> bool {
    exists|places: Seq<int>| #[trigger] lists_the_firsts_at(all, listed, places)
}

/// A mount lists each pattern once, for the first that has it of the host's cards, the module's
/// cards and what the module says it binds, in that order and as that one has it; and it lists
/// nothing where there is nothing.
pub proof fn law_a_mount_lists_the_first_of_each_pattern(
    space: &ModuleSpace,
    live: Option<Vec<SpaceEntry>>,
    r: Option<Vec<SpaceEntry>>,
)
    requires
        call_ensures(ModuleSpace::entries, (space, live), r),
    ensures
        r is None <==> all_entries(space@, live.deep_view()).len() == 0,
        r matches Some(entries) ==> lists_the_firsts(
            all_entries(space@, live.deep_view()),
            entries.deep_view(),
        ),
{
    let host = host_entries(space@.endpoints);
    let own = Seq::new(space@.cards.len(), |i: int| space@.cards[i].entry);
    let all = all_entries(space@, live.deep_view());
    let prefixes = space@.prefixes;
    let said = match live.deep_view() {
        Some(entries) => routed_entries(prefixes, entries),
        None => Seq::empty(),
    };
    assert(all =~= host + own + said) by {
        let mine = Seq::new(
            space@.endpoints.len(),
            |i: int|
                SpaceEntryView {
                    pattern: space@.endpoints[i].0,
                    endpoint: space@.endpoints[i].1.id,
                    origin: None,
                },
        );
        assert(mine =~= host);
    }
    let none: Seq<SpaceEntryView> = Seq::empty();
    lemma_unlisted_in_two_goes(none, host, own);
    lemma_unlisted_in_two_goes(none, host + own, said);
    if live is None {
        assert(host + own + said =~= host + own);
    }
    assert(listing(space@, live.deep_view()) == with_unlisted(none, all));
    lemma_lists_the_firsts(all);
}

pub(crate) proof fn lemma_unlisted_in_two_goes(
    have: Seq<SpaceEntryView>,
    a: Seq<SpaceEntryView>,
    b: Seq<SpaceEntryView>,
)
    ensures
        with_unlisted(with_unlisted(have, a), b) == with_unlisted(have, a + b),
    decreases b.len(),
{
    if b.len() == 0 {
        assert(a + b =~= a);
    } else {
        assert((a + b).drop_last() =~= a + b.drop_last());
        assert((a + b).last() == b.last());
        lemma_unlisted_in_two_goes(have, a, b.drop_last());
    }
}

proof fn lemma_firsts_of_the_front(all: Seq<SpaceEntryView>)
    requires
        all.len() > 0,
    ensures
        forall|i: int|
            0 <= i < all.len() - 1 ==> (#[trigger] is_first(all, i) <==> is_first(
                all.drop_last(),
                i,
            )),
        is_first(all, all.len() - 1) <==> !is_listed(all.drop_last(), all.last().pattern),
{
    let front = all.drop_last();
    let last = all.len() - 1;
    assert forall|i: int| 0 <= i < last implies (#[trigger] is_first(all, i) <==> is_first(
        front,
        i,
    )) by {
        assert(front[i] == all[i]);
        if is_first(front, i) {
            assert forall|j: int| 0 <= j < i implies (#[trigger] all[j]).pattern
                != all[i].pattern by {
                assert(front[j].pattern != front[i].pattern);
            }
        }
        if is_first(all, i) {
            assert forall|j: int| 0 <= j < i implies (#[trigger] front[j]).pattern
                != front[i].pattern by {
                assert(all[j].pattern != all[i].pattern);
            }
        }
    }
    if is_listed(front, all.last().pattern) {
        let k = choose|k: int|
            0 <= k < front.len() && (#[trigger] front[k]).pattern == all.last().pattern;
        assert(all[k].pattern == all[last].pattern);
    } else {
        assert forall|j: int| 0 <= j < last implies (#[trigger] all[j]).pattern
            != all[last].pattern by {
            assert(front[j].pattern == all[j].pattern);
        }
    }
}

pub(crate) proof fn lemma_lists_the_firsts(all: Seq<SpaceEntryView>)
    ensures
        lists_the_firsts(all, with_unlisted(Seq::empty(), all)),
        with_unlisted(Seq::empty(), all).len() == 0 <==> all.len() == 0,
    decreases all.len(),
{
    let none: Seq<SpaceEntryView> = Seq::empty();
    let listed = with_unlisted(none, all);
    if all.len() == 0 {
        assert(lists_the_firsts_at(all, listed, Seq::empty()));
    } else {
        let front = all.drop_last();
        let most = with_unlisted(none, front);
        let last = all.len() - 1;
        lemma_lists_the_firsts(front);
        lemma_with_unlisted(none, front);
        lemma_firsts_of_the_front(all);
        assert(is_listed(most, all.last().pattern) <==> is_listed(none, all.last().pattern)
            || is_listed(front, all.last().pattern));
        let before = choose|places: Seq<int>| #[trigger] lists_the_firsts_at(front, most, places);
        assert forall|k: int| 0 <= k < before.len() implies is_first(all, #[trigger] before[k])
            && most[k] == all[before[k]] && before[k] < last by {
            assert(is_first(front, before[k]));
        }
        let places = if is_first(all, last) {
            before.push(last)
        } else {
            before
        };
        assert forall|i: int| #[trigger] is_first(all, i) implies places.contains(i) by {
            if i < last {
                assert(is_first(front, i));
                assert(before.contains(i));
                let k = choose|k: int| 0 <= k < before.len() && before[k] == i;
                assert(places[k] == i);
            } else {
                assert(places[before.len() as int] == last);
            }
        }
        assert forall|k: int| 0 <= k < places.len() implies is_first(all, #[trigger] places[k])
            && listed[k] == all[places[k]] by {
            if k < before.len() {
                assert(places[k] == before[k]);
            }
        }
        assert forall|k: int, m: int| 0 <= k < m < places.len() implies #[trigger] places[k]
            < #[trigger] places[m] by {
            assert(places[k] == before[k]);
            if m < before.len() {
                assert(places[m] == before[m]);
            }
        }
        assert(lists_the_firsts_at(all, listed, places));
    }
}

} // verus!
