//! The capability floor: what a host demands of every caller of a mounted module, whatever the
//! module says of itself.

use vstd::prelude::*;

use crate::card::{
    declared_action, scopes_for, ActionSpec, ActionSpecView, Description, DescriptionView,
};
use crate::kernel::{clamped, grants, Capability, Error, ErrorView, Request, Verb};
use crate::text::{
    copy_texts, has_prefix, holds_text, lemma_mentions, lemma_mentions_before, mentions,
};

verus! {

// ---------------------------------------------------------------------------
// What a scope demands.
// ---------------------------------------------------------------------------

/// Whether `scope` is a family: it ends in `*`.
pub open spec fn is_family(scope: Seq<char>) -> bool {
    scope.len() > 0 && scope.last() == '*'
}

/// Whether the authority `held` satisfies `scope`: it includes the scope itself or, of a
/// family, some scope that starts with what stands before the `*`.
pub open spec fn satisfied(held: Option<Set<Seq<char>>>, scope: Seq<char>) -> bool {
    if is_family(scope) {
        held matches Some(scopes) ==> exists|s: Seq<char>| #[trigger]
            scopes.contains(s) && scope.drop_last().is_prefix_of(s)
    } else {
        grants(held, scope)
    }
}

/// The first of `scopes` that `held` does not satisfy.
pub open spec fn first_lacking(
    scopes: Seq<Seq<char>>,
    held: Option<Set<Seq<char>>>,
) -> Option<Seq<char>>
    decreases scopes.len(),
{
    if scopes.len() == 0 {
        None
    } else if !satisfied(held, scopes[0]) {
        Some(scopes[0])
    } else {
        first_lacking(scopes.drop_first(), held)
    }
}

/// Whether `capability` satisfies `scope`, the family form included.
pub fn cap_satisfies(capability: &Capability, scope: &str) -> (r: bool)
    ensures
        r == satisfied(capability@, scope@),
{
    let count: usize = scope.unicode_len();
    if count == 0 || scope.get_char(count - 1) != '*' {
        return capability.allows(scope);
    }
    let prefix = scope.substring_char(0, count - 1);
    assert(prefix@ =~= scope@.drop_last());
    match capability.scopes() {
        None => true,
        Some(held) => {
            let mut i: usize = 0;
            while i < held.len()
                invariant
                    i <= held.len(),
                    is_family(scope@),
                    prefix@ == scope@.drop_last(),
                    capability@ == Some(held.deep_view().to_set()),
                    forall|j: int|
                        0 <= j < i ==> !prefix@.is_prefix_of(#[trigger] held.deep_view()[j]),
                decreases held.len() - i,
            {
                assert(held.deep_view()[i as int] == held[i as int]@);
                if has_prefix(held[i].as_str(), prefix) {
                    proof {
                        let scopes = capability@->0;
                        let s = held.deep_view()[i as int];
                        assert(scopes.contains(s) && scope@.drop_last().is_prefix_of(s));
                    }
                    return true;
                }
                i += 1;
            }
            assert forall|s: Seq<char>| #[trigger]
                held.deep_view().to_set().contains(s) implies !prefix@.is_prefix_of(s) by {
                let k = choose|k: int| 0 <= k < held.deep_view().len() && held.deep_view()[k] == s;
                assert(!prefix@.is_prefix_of(held.deep_view()[k]));
            }
            false
        },
    }
}

/// The first of `scopes` that `capability` does not satisfy.
pub fn first_unheld<'a>(scopes: &'a Vec<String>, capability: &Capability) -> (r: Option<&'a str>)
    ensures
        match r {
            Some(scope) => first_lacking(scopes.deep_view(), capability@) == Some(scope@),
            None => first_lacking(scopes.deep_view(), capability@) is None,
        },
{
    let ghost all = scopes.deep_view();
    assert(all.skip(0) == all);
    let mut i: usize = 0;
    while i < scopes.len()
        invariant
            i <= scopes.len(),
            all == scopes.deep_view(),
            first_lacking(all, capability@) == first_lacking(all.skip(i as int), capability@),
        decreases scopes.len() - i,
    {
        assert(all.skip(i as int)[0] == scopes[i as int]@);
        if !cap_satisfies(capability, scopes[i].as_str()) {
            return Some(scopes[i].as_str());
        }
        assert(all.skip(i as int).drop_first() == all.skip(i + 1));
        i += 1;
    }
    None
}

// ---------------------------------------------------------------------------
// The floor.
// ---------------------------------------------------------------------------

/// `have`, then each of `add` that is not there yet.
pub open spec fn with_scopes(have: Seq<Seq<char>>, add: Seq<Seq<char>>) -> Seq<Seq<char>>
    decreases add.len(),
{
    if add.len() == 0 {
        have
    } else {
        let most = with_scopes(have, add.drop_last());
        if most.contains(add.last()) {
            most
        } else {
            most.push(add.last())
        }
    }
}

/// An action with the scopes of `floor` added, unless it is for `Meta`.
pub open spec fn floored_action(floor: Seq<Seq<char>>, action: ActionSpecView) -> ActionSpecView {
    if action.verb == Verb::Meta {
        action
    } else {
        ActionSpecView { scopes: with_scopes(action.scopes, floor), ..action }
    }
}

/// A card with the scopes of `floor` added to its flat ones and to those of each action that
/// is not for `Meta`.
pub open spec fn floored(floor: Seq<Seq<char>>, card: DescriptionView) -> DescriptionView {
    DescriptionView {
        scopes: with_scopes(card.scopes, floor),
        actions: Seq::new(card.actions.len(), |i: int| floored_action(floor, card.actions[i])),
        ..card
    }
}

/// What a caller who lacks `scope` is told of a mount that serves `target`.
pub open spec fn denial_text(scope: Seq<char>, target: Seq<char>) -> Seq<char> {
    "capability does not grant `"@ + scope
        + "` (the capability floor of the module mount serving `"@ + target
        + "`). Grant the scope, or mount the module with a floor the caller clears — `ModuleFloor::requiring(..)` at the mount, refined per endpoint with `with_endpoint(iri, Description::new(..).verb(..).requires(..))`."@
}

/// The scopes a host demands of every verb but `Meta` under a module mount.
///
/// There is no default: the mount that demands nothing is written down as
/// [`public`](Self::public).
#[derive(PartialEq, Eq, Debug)]
pub struct ModuleFloor {
    scopes: Vec<String>,
}

impl View for ModuleFloor {
    type V = Seq<Seq<char>>;

    closed spec fn view(&self) -> Seq<Seq<char>> {
        self.scopes.deep_view()
    }
}

impl ModuleFloor {
    /// The floor that demands nothing.
    pub fn public() -> (r: Self)
        ensures
            r@ == Seq::<Seq<char>>::empty(),
    {
        let r = ModuleFloor { scopes: Vec::new() };
        assert(r.scopes.deep_view() =~= Seq::<Seq<char>>::empty());
        r
    }

    /// The floor that demands `scope`.
    pub fn requiring(scope: &str) -> (r: Self)
        ensures
            r@ == seq![scope@],
    {
        let mut scopes: Vec<String> = Vec::new();
        scopes.push(scope.to_owned());
        assert(scopes.deep_view() =~= seq![scope@]);
        ModuleFloor { scopes }
    }

    /// The floor that demands `scope` as well.
    pub fn and(self, scope: &str) -> (r: Self)
        ensures
            r@ == self@.push(scope@),
    {
        let mut scopes = self.scopes;
        scopes.push(scope.to_owned());
        assert(scopes.deep_view() =~= self@.push(scope@));
        ModuleFloor { scopes }
    }

    /// The scopes the floor demands, in the order they were added.
    pub fn scopes(&self) -> (r: &[String])
        ensures
            r.deep_view() == self@,
    {
        let r = self.scopes.as_slice();
        assert(r.deep_view() =~= self.scopes.deep_view());
        r
    }

    /// The first scope of the floor that `capability` does not satisfy.
    pub fn unsatisfied(&self, capability: &Capability) -> (r: Option<&str>)
        ensures
            match r {
                Some(scope) => first_lacking(self@, capability@) == Some(scope@),
                None => first_lacking(self@, capability@) is None,
            },
    {
        first_unheld(&self.scopes, capability)
    }

    /// `scopes`, then each scope of the floor that is not there yet.
    fn added_to(&self, scopes: &Vec<String>) -> (r: Vec<String>)
        ensures
            r.deep_view() == with_scopes(scopes.deep_view(), self@),
    {
        let mut out = copy_texts(scopes);
        let ghost floor = self@;
        let ghost have = scopes.deep_view();
        let mut i: usize = 0;
        while i < self.scopes.len()
            invariant
                i <= self.scopes.len(),
                floor == self.scopes.deep_view(),
                out.deep_view() == with_scopes(have, floor.take(i as int)),
            decreases self.scopes.len() - i,
        {
            let ghost before = out.deep_view();
            proof {
                assert(floor.take(i + 1).drop_last() == floor.take(i as int));
                assert(floor.take(i + 1).last() == self.scopes[i as int]@);
            }
            if !holds_text(&out, self.scopes[i].as_str()) {
                out.push(self.scopes[i].clone());
                assert(out.deep_view() =~= before.push(floor[i as int]));
            }
            i += 1;
        }
        assert(floor.take(i as int) == floor);
        out
    }

    /// `card` with the floor folded in: what the mount enforces is what the card says.
    ///
    /// No verb is added. A card that declares none declares no action either, so the floor is
    /// also checked of every invocation.
    pub fn applied_to(&self, card: Description) -> (r: Description)
        ensures
            r@ == floored(self@, card@),
    {
        if self.scopes.len() == 0 {
            proof {
                law_public_floor_adds_nothing(card@);
                assert(self@ =~= Seq::<Seq<char>>::empty());
            }
            return card;
        }
        let mut actions: Vec<ActionSpec> = Vec::new();
        let mut i: usize = 0;
        while i < card.actions.len()
            invariant
                i <= card.actions.len(),
                actions.deep_view() == Seq::new(
                    i as nat,
                    |k: int| floored_action(self@, card@.actions[k]),
                ),
            decreases card.actions.len() - i,
        {
            let ghost before = actions.deep_view();
            let mut action = card.actions[i].clone();
            if action.verb != Verb::Meta {
                action.scopes = self.added_to(&action.scopes);
            }
            assert(action@ == floored_action(self@, card@.actions[i as int]));
            actions.push(action);
            assert(actions.deep_view() =~= before.push(action@));
            i += 1;
        }
        let scopes = self.added_to(&card.scopes);
        let r = Description { scopes, actions, ..card };
        assert(r@ =~= floored(self@, card@));
        r
    }

    /// The refusal of a caller who lacks `scope`.
    pub fn denial(&self, scope: &str, target: &str) -> (r: Error)
        ensures
            r@ == ErrorView::Denied(denial_text(scope@, target@)),
    {
        let mut text = "capability does not grant `".to_owned();
        text.append(scope);
        text.append("` (the capability floor of the module mount serving `");
        text.append(target);
        text.append("`). Grant the scope, or mount the module with a floor the caller clears — `ModuleFloor::requiring(..)` at the mount, refined per endpoint with `with_endpoint(iri, Description::new(..).verb(..).requires(..))`.");
        Error::Denied(text)
    }

    /// Lets an invocation of `target` cross to the module, or refuses it: the check every
    /// mounted endpoint makes before anything is sent.
    pub fn clears(&self, capability: &Capability, target: &str) -> (r: Result<(), Error>)
        ensures
            match r {
                Ok(_) => first_lacking(self@, capability@) is None,
                Err(error) => first_lacking(self@, capability@) matches Some(scope) && error@
                    == ErrorView::Denied(denial_text(scope, target@)),
            },
    {
        match self.unsatisfied(capability) {
            Some(scope) => Err(self.denial(scope, target)),
            None => Ok(()),
        }
    }
}

impl Clone for ModuleFloor {
    fn clone(&self) -> (r: Self)
        ensures
            r@ == self@,
    {
        ModuleFloor { scopes: copy_texts(&self.scopes) }
    }
}

// ---------------------------------------------------------------------------
// The module honouring its own card.
// ---------------------------------------------------------------------------

/// The scopes `card` demands for `verb`. `Meta` demands none, and neither does a verb the card
/// does not declare.
pub open spec fn demanded(card: DescriptionView, verb: Verb) -> Seq<Seq<char>> {
    if verb != Verb::Meta && card.verbs.contains(verb) {
        scopes_for(card, verb)
    } else {
        Seq::empty()
    }
}

/// What a caller who lacks a `scope` that the endpoint itself declares is told.
pub open spec fn declaration_text(scope: Seq<char>, target: Seq<char>) -> Seq<char> {
    "capability does not grant `"@ + scope + "` (declared by `"@ + target
        + "`, inside the module)"@
}

/// The first scope `description` declares for `verb` that `capability` does not satisfy.
pub fn unsatisfied_scope(
    description: &Description,
    verb: Verb,
    capability: &Capability,
) -> (r: Option<String>)
    ensures
        match r {
            Some(scope) => first_lacking(demanded(description@, verb), capability@) == Some(scope@),
            None => first_lacking(demanded(description@, verb), capability@) is None,
        },
{
    match description.scopes_of(verb) {
        Some(scopes) => match first_unheld(&scopes, capability) {
            Some(scope) => Some(scope.to_owned()),
            None => None,
        },
        None => None,
    }
}

/// Why the module refuses `request`, if the card of the endpoint it resolved to declares a
/// scope that `capability` does not satisfy.
pub fn refuse_unsatisfied_declaration(
    request: &Request,
    card: &Description,
    capability: &Capability,
) -> (r: Option<String>)
    ensures
        match r {
            Some(message) => {
                &&& first_lacking(demanded(card@, request@.verb), capability@) matches Some(scope)
                &&& message@ == declaration_text(scope, request@.target)
            },
            None => first_lacking(demanded(card@, request@.verb), capability@) is None,
        },
{
    match unsatisfied_scope(card, request.verb, capability) {
        None => None,
        Some(scope) => {
            let mut text = "capability does not grant `".to_owned();
            text.append(scope.as_str());
            text.append("` (declared by `");
            text.append(request.target.as_str());
            text.append("`, inside the module)");
            Some(text)
        },
    }
}

// ---------------------------------------------------------------------------
// Laws.
// ---------------------------------------------------------------------------

/// A list of scopes is satisfied exactly when each of them is.
pub proof fn law_nothing_lacking_means_each_satisfied(
    scopes: Seq<Seq<char>>,
    held: Option<Set<Seq<char>>>,
)
    ensures
        first_lacking(scopes, held) is None <==> forall|i: int|
            0 <= i < scopes.len() ==> satisfied(held, #[trigger] scopes[i]),
    decreases scopes.len(),
{
    if scopes.len() > 0 {
        let rest = scopes.drop_first();
        law_nothing_lacking_means_each_satisfied(rest, held);
        if forall|i: int| 0 <= i < scopes.len() ==> satisfied(held, #[trigger] scopes[i]) {
            assert forall|i: int| 0 <= i < rest.len() implies satisfied(
                held,
                #[trigger] rest[i],
            ) by {
                assert(rest[i] == scopes[i + 1]);
            }
            assert(satisfied(held, scopes[0]));
        }
        if first_lacking(scopes, held) is None {
            assert forall|i: int| 0 <= i < scopes.len() implies satisfied(
                held,
                #[trigger] scopes[i],
            ) by {
                if i > 0 {
                    assert(scopes[i] == rest[i - 1]);
                }
            }
        }
    }
}

/// The public floor is met by every caller and changes no card.
pub proof fn law_public_floor_adds_nothing(card: DescriptionView)
    ensures
        floored(Seq::empty(), card) == card,
        forall|held: Option<Set<Seq<char>>>| #[trigger]
            first_lacking(Seq::empty(), held) is None,
{
    let same = floored(Seq::empty(), card);
    assert forall|i: int| 0 <= i < card.actions.len() implies #[trigger] same.actions[i]
        == card.actions[i] by {
        assert(with_scopes(card.actions[i].scopes, Seq::empty()) == card.actions[i].scopes);
    }
    assert(same.actions =~= card.actions);
}

/// Full authority meets every floor.
pub proof fn law_root_lacks_nothing(scopes: Seq<Seq<char>>)
    ensures
        first_lacking(scopes, None) is None,
    decreases scopes.len(),
{
    if scopes.len() > 0 {
        law_root_lacks_nothing(scopes.drop_first());
    }
}

/// Adding scopes keeps the ones that were there, in their places, and leaves none of the added
/// ones out; nothing else comes in.
pub proof fn law_with_scopes_is_the_union(have: Seq<Seq<char>>, add: Seq<Seq<char>>)
    ensures
        have.is_prefix_of(with_scopes(have, add)),
        forall|s: Seq<char>| #[trigger]
            with_scopes(have, add).contains(s) <==> have.contains(s) || add.contains(s),
    decreases add.len(),
{
    let all = with_scopes(have, add);
    if add.len() > 0 {
        let front = add.drop_last();
        let most = with_scopes(have, front);
        law_with_scopes_is_the_union(have, front);
        assert(add[add.len() - 1] == add.last());
        assert forall|s: Seq<char>| #[trigger]
            all.contains(s) <==> have.contains(s) || add.contains(s) by {
            assert(most.contains(s) <==> have.contains(s) || front.contains(s));
            if add.contains(s) {
                let k = choose|k: int| 0 <= k < add.len() && add[k] == s;
                if k < front.len() {
                    assert(front[k] == s);
                    assert(front.contains(s));
                }
            }
            if front.contains(s) {
                let k = choose|k: int| 0 <= k < front.len() && front[k] == s;
                assert(add[k] == s);
            }
            if all.contains(s) {
                let k = choose|k: int| 0 <= k < all.len() && all[k] == s;
                if k < most.len() {
                    assert(most[k] == s);
                }
            }
            if most.contains(s) {
                let k = choose|k: int| 0 <= k < most.len() && most[k] == s;
                assert(all[k] == s);
            }
            if s == add.last() && !most.contains(s) {
                assert(all[most.len() as int] == s);
            }
        }
    } else {
        assert(have.is_prefix_of(have));
    }
}

/// A card refines the floor and never lowers it: folding the floor in keeps every scope the
/// card declared, flat or of an action, adds every scope of the floor to the flat ones and to
/// each action that is not for `Meta`, and touches nothing else.
pub proof fn law_floor_only_adds(floor: Seq<Seq<char>>, card: DescriptionView)
    ensures
        card.scopes.is_prefix_of(floored(floor, card).scopes),
        forall|s: Seq<char>| #[trigger]
            floor.contains(s) ==> floored(floor, card).scopes.contains(s),
        floored(floor, card).actions.len() == card.actions.len(),
        forall|i: int|
            0 <= i < card.actions.len() ==> {
                let after = #[trigger] floored(floor, card).actions[i];
                let before = card.actions[i];
                &&& before.scopes.is_prefix_of(after.scopes)
                &&& before.verb != Verb::Meta ==> forall|s: Seq<char>| #[trigger]
                    floor.contains(s) ==> after.scopes.contains(s)
                &&& before.verb == Verb::Meta ==> after == before
                &&& after == ActionSpecView { scopes: after.scopes, ..before }
            },
        floored(floor, card) == (DescriptionView {
            scopes: floored(floor, card).scopes,
            actions: floored(floor, card).actions,
            ..card
        }),
{
    law_with_scopes_is_the_union(card.scopes, floor);
    assert forall|i: int| 0 <= i < card.actions.len() implies {
        let after = #[trigger] floored(floor, card).actions[i];
        let before = card.actions[i];
        &&& before.scopes.is_prefix_of(after.scopes)
        &&& before.verb != Verb::Meta ==> forall|s: Seq<char>| #[trigger]
            floor.contains(s) ==> after.scopes.contains(s)
        &&& before.verb == Verb::Meta ==> after == before
        &&& after == ActionSpecView { scopes: after.scopes, ..before }
    } by {
        law_with_scopes_is_the_union(card.actions[i].scopes, floor);
    }
}

/// Folding a floor in twice is folding it in once.
pub proof fn law_floor_folds_in_once(floor: Seq<Seq<char>>, card: DescriptionView)
    ensures
        floored(floor, floored(floor, card)) == floored(floor, card),
{
    let once = floored(floor, card);
    let twice = floored(floor, once);
    lemma_with_scopes_again(card.scopes, floor, floor);
    assert forall|i: int| 0 <= i < once.actions.len() implies #[trigger] twice.actions[i]
        == once.actions[i] by {
        lemma_with_scopes_again(card.actions[i].scopes, floor, floor);
    }
    assert(twice.actions =~= once.actions);
}

proof fn lemma_with_scopes_again(
    have: Seq<Seq<char>>,
    add: Seq<Seq<char>>,
    part: Seq<Seq<char>>,
)
    requires
        forall|s: Seq<char>| #[trigger] part.contains(s) ==> add.contains(s),
    ensures
        with_scopes(with_scopes(have, add), part) == with_scopes(have, add),
    decreases part.len(),
{
    if part.len() > 0 {
        let front = part.drop_last();
        assert forall|s: Seq<char>| #[trigger] front.contains(s) implies add.contains(s) by {
            let k = choose|k: int| 0 <= k < front.len() && front[k] == s;
            assert(part[k] == s);
            assert(part.contains(s));
        }
        lemma_with_scopes_again(have, add, front);
        law_with_scopes_is_the_union(have, add);
        assert(part[part.len() - 1] == part.last());
        assert(part.contains(part.last()));
        assert(add.contains(part.last()));
        assert(with_scopes(have, add).contains(part.last()));
    }
}

/// What the kernel enforces of a card with the floor folded in is the floor and what the card
/// demanded of itself: a caller clears the one exactly when it clears both.
pub proof fn law_folded_card_demands_both(
    floor: Seq<Seq<char>>,
    card: DescriptionView,
    verb: Verb,
    held: Option<Set<Seq<char>>>,
)
    requires
        verb != Verb::Meta,
        card.verbs.contains(verb),
    ensures
        first_lacking(demanded(floored(floor, card), verb), held) is None <==> first_lacking(
            demanded(card, verb),
            held,
        ) is None && first_lacking(floor, held) is None,
{
    let folded = floored(floor, card);
    lemma_floored_action(floor, card.actions, verb);
    assert(folded.actions =~= Seq::new(
        card.actions.len(),
        |i: int| floored_action(floor, card.actions[i]),
    ));
    let own = demanded(card, verb);
    let all = demanded(folded, verb);
    assert(all == with_scopes(own, floor));
    law_with_scopes_is_the_union(own, floor);
    law_nothing_lacking_means_each_satisfied(own, held);
    law_nothing_lacking_means_each_satisfied(floor, held);
    law_nothing_lacking_means_each_satisfied(all, held);
    if first_lacking(all, held) is None {
        assert forall|i: int| 0 <= i < own.len() implies satisfied(held, #[trigger] own[i]) by {
            assert(own.contains(own[i]));
            assert(all.contains(own[i]));
            let k = choose|k: int| 0 <= k < all.len() && all[k] == own[i];
            assert(satisfied(held, all[k]));
        }
        assert forall|i: int| 0 <= i < floor.len() implies satisfied(held, #[trigger] floor[i]) by {
            assert(floor.contains(floor[i]));
            assert(all.contains(floor[i]));
            let k = choose|k: int| 0 <= k < all.len() && all[k] == floor[i];
            assert(satisfied(held, all[k]));
        }
    }
    if first_lacking(own, held) is None && first_lacking(floor, held) is None {
        assert forall|i: int| 0 <= i < all.len() implies satisfied(held, #[trigger] all[i]) by {
            assert(all.contains(all[i]));
            if own.contains(all[i]) {
                let k = choose|k: int| 0 <= k < own.len() && own[k] == all[i];
                assert(satisfied(held, own[k]));
            } else {
                assert(floor.contains(all[i]));
                let k = choose|k: int| 0 <= k < floor.len() && floor[k] == all[i];
                assert(satisfied(held, floor[k]));
            }
        }
    }
}

proof fn lemma_floored_action(floor: Seq<Seq<char>>, actions: Seq<ActionSpecView>, verb: Verb)
    requires
        verb != Verb::Meta,
    ensures
        ({
            let folded = Seq::new(actions.len(), |i: int| floored_action(floor, actions[i]));
            match declared_action(actions, verb) {
                Some(action) => declared_action(folded, verb) == Some(
                    floored_action(floor, action),
                ) && action.verb == verb,
                None => declared_action(folded, verb) is None,
            }
        }),
    decreases actions.len(),
{
    let folded = Seq::new(actions.len(), |i: int| floored_action(floor, actions[i]));
    if actions.len() > 0 && actions[0].verb != verb {
        lemma_floored_action(floor, actions.drop_first(), verb);
        assert(folded.drop_first() =~= Seq::new(
            actions.drop_first().len(),
            |i: int| floored_action(floor, actions.drop_first()[i]),
        ));
    }
}

/// Asking an endpoint to describe itself demands nothing, whatever its card and the floor.
pub proof fn law_meta_is_exempt(
    floor: Seq<Seq<char>>,
    card: DescriptionView,
    held: Option<Set<Seq<char>>>,
)
    ensures
        first_lacking(demanded(floored(floor, card), Verb::Meta), held) is None,
        first_lacking(demanded(card, Verb::Meta), held) is None,
{
}

/// Clamping only narrows: what a clamped authority satisfies, each of the two it was made of
/// satisfies; and it includes a scope exactly when both do.
pub proof fn law_clamp_only_narrows(
    ceiling: Option<Set<Seq<char>>>,
    carried: Option<Set<Seq<char>>>,
    scope: Seq<char>,
)
    ensures
        grants(clamped(ceiling, carried), scope) <==> grants(ceiling, scope) && grants(
            carried,
            scope,
        ),
        satisfied(clamped(ceiling, carried), scope) ==> satisfied(ceiling, scope) && satisfied(
            carried,
            scope,
        ),
{
    if is_family(scope) && satisfied(clamped(ceiling, carried), scope) {
        match (ceiling, carried) {
            (Some(left), Some(right)) => {
                let s = choose|s: Seq<char>| #[trigger]
                    left.intersect(right).contains(s) && scope.drop_last().is_prefix_of(s);
                assert(left.contains(s) && right.contains(s));
            },
            _ => {},
        }
    }
}

/// A scope is satisfied by full authority, and by an authority that holds it; a family, a stem
/// and a `*`, by one that holds anything that goes on from the stem.
pub proof fn law_a_scope_is_held_or_a_member_of_its_family_is(
    capability: &Capability,
    scope: &str,
    stem: Seq<char>,
    r: bool,
)
    requires
        call_ensures(cap_satisfies, (capability, scope), r),
    ensures
        r == satisfied(capability@, scope@),
        capability@ is None ==> r,
        capability@ matches Some(held) ==> {
            &&& scope@ == stem.push('*') ==> (r <==> exists|rest: Seq<char>|
                held.contains(#[trigger] (stem + rest)))
            &&& scope@.len() == 0 || scope@.last() != '*' ==> (r <==> held.contains(scope@))
        },
{
    if capability@ is Some && scope@ == stem.push('*') {
        let held = capability@->0;
        assert(scope@.drop_last() =~= stem);
        if r {
            let s = choose|s: Seq<char>| #[trigger]
                held.contains(s) && scope@.drop_last().is_prefix_of(s);
            assert(s =~= stem + s.skip(stem.len() as int));
            assert(held.contains(stem + s.skip(stem.len() as int)));
        }
        if exists|rest: Seq<char>| held.contains(#[trigger] (stem + rest)) {
            let rest = choose|rest: Seq<char>| held.contains(#[trigger] (stem + rest));
            assert((stem + rest).subrange(0, stem.len() as int) =~= stem);
            assert(held.contains(stem + rest) && scope@.drop_last().is_prefix_of(stem + rest));
        }
    }
}

/// The scope that is found lacking is one of those demanded, is not satisfied, and every one
/// before it is; none is found exactly if all are satisfied.
pub proof fn law_the_first_unsatisfied_scope_is_found(
    scopes: &Vec<String>,
    capability: &Capability,
    r: Option<&str>,
)
    requires
        call_ensures(first_unheld, (scopes, capability), r),
    ensures
        match r {
            None => forall|i: int|
                0 <= i < scopes.deep_view().len() ==> satisfied(
                    capability@,
                    #[trigger] scopes.deep_view()[i],
                ),
            Some(scope) => exists|i: int|
                0 <= i < scopes.deep_view().len() && #[trigger] scopes.deep_view()[i] == scope@
                    && !satisfied(capability@, scope@) && forall|j: int|
                    0 <= j < i ==> satisfied(capability@, #[trigger] scopes.deep_view()[j]),
        },
{
    law_nothing_lacking_means_each_satisfied(scopes.deep_view(), capability@);
    if r is Some {
        lemma_first_lacking_is_first(scopes.deep_view(), capability@);
    }
}

proof fn lemma_first_lacking_is_first(scopes: Seq<Seq<char>>, held: Option<Set<Seq<char>>>)
    requires
        first_lacking(scopes, held) is Some,
    ensures
        exists|i: int|
            0 <= i < scopes.len() && #[trigger] scopes[i] == first_lacking(scopes, held)->0
                && !satisfied(held, scopes[i]) && forall|j: int|
                0 <= j < i ==> satisfied(held, #[trigger] scopes[j]),
    decreases scopes.len(),
{
    if scopes.len() > 0 {
        if satisfied(held, scopes[0]) {
            let rest = scopes.drop_first();
            lemma_first_lacking_is_first(rest, held);
            let i = choose|i: int|
                0 <= i < rest.len() && #[trigger] rest[i] == first_lacking(rest, held)->0
                    && !satisfied(held, rest[i]) && forall|j: int|
                    0 <= j < i ==> satisfied(held, #[trigger] rest[j]);
            assert(scopes[i + 1] == rest[i]);
            assert forall|j: int| 0 <= j < i + 1 implies satisfied(held, #[trigger] scopes[j]) by {
                if j > 0 {
                    assert(scopes[j] == rest[j - 1]);
                }
            }
        } else {
            assert(scopes[0] == first_lacking(scopes, held)->0);
        }
    }
}

/// A floor demands exactly what it was made of: the public one nothing, one that requires a
/// scope that scope, and one with a scope more what it demanded before and that scope.
pub proof fn law_a_floor_demands_what_it_was_made_of(
    public: ModuleFloor,
    floor: ModuleFloor,
    scope: &str,
    requiring: ModuleFloor,
    more: ModuleFloor,
    held: Option<Set<Seq<char>>>,
)
    requires
        call_ensures(ModuleFloor::public, (), public),
        call_ensures(ModuleFloor::requiring, (scope,), requiring),
        call_ensures(ModuleFloor::and, (floor, scope), more),
    ensures
        first_lacking(public@, held) is None,
        first_lacking(requiring@, held) is None <==> satisfied(held, scope@),
        first_lacking(more@, held) is None <==> first_lacking(floor@, held) is None && satisfied(
            held,
            scope@,
        ),
        forall|s: Seq<char>| #[trigger]
            more@.contains(s) <==> floor@.contains(s) || s == scope@,
{
    law_nothing_lacking_means_each_satisfied(public@, held);
    law_nothing_lacking_means_each_satisfied(requiring@, held);
    law_nothing_lacking_means_each_satisfied(floor@, held);
    law_nothing_lacking_means_each_satisfied(more@, held);
    if first_lacking(requiring@, held) is None {
        assert(satisfied(held, requiring@[0]));
    }
    if first_lacking(more@, held) is None {
        assert(satisfied(held, more@[floor@.len() as int]));
        assert forall|i: int| 0 <= i < floor@.len() implies satisfied(held, #[trigger] floor@[i]) by {
            assert(satisfied(held, more@[i]));
        }
    }
    assert forall|s: Seq<char>| #[trigger]
        more@.contains(s) <==> floor@.contains(s) || s == scope@ by {
        if floor@.contains(s) {
            let k = choose|k: int| 0 <= k < floor@.len() && floor@[k] == s;
            assert(more@[k] == s);
        }
        assert(more@[floor@.len() as int] == scope@);
    }
}

/// An invocation crosses to the module exactly if its caller satisfies every scope of the
/// floor; one that does not is denied, for good, and told which scope of the floor it lacks
/// and for what.
pub proof fn law_only_who_clears_the_floor_crosses(
    floor: &ModuleFloor,
    capability: &Capability,
    target: &str,
    r: Result<(), Error>,
)
    requires
        call_ensures(ModuleFloor::clears, (floor, capability, target), r),
    ensures
        r is Ok <==> forall|i: int|
            0 <= i < floor@.len() ==> satisfied(capability@, #[trigger] floor@[i]),
        r matches Err(error) ==> {
            &&& error@ matches ErrorView::Denied(message)
            &&& mentions(message, target@)
            &&& exists|scope: Seq<char>| #[trigger]
                floor@.contains(scope) && !satisfied(capability@, scope) && mentions(message, scope)
        },
{
    law_nothing_lacking_means_each_satisfied(floor@, capability@);
    if r is Err {
        lemma_first_lacking_is_first(floor@, capability@);
        let scope = first_lacking(floor@, capability@)->0;
        assert(floor@.contains(scope));
        lemma_denial_names(scope, target@);
    }
}

proof fn lemma_denial_names(scope: Seq<char>, target: Seq<char>)
    ensures
        mentions(denial_text(scope, target), scope),
        mentions(denial_text(scope, target), target),
{
    let a = "capability does not grant `"@;
    let b = "` (the capability floor of the module mount serving `"@;
    let c =
        "`). Grant the scope, or mount the module with a floor the caller clears — `ModuleFloor::requiring(..)` at the mount, refined per endpoint with `with_endpoint(iri, Description::new(..).verb(..).requires(..))`."@;
    lemma_mentions(a, scope, b);
    lemma_mentions_before(a + scope + b, scope, target);
    lemma_mentions_before(a + scope + b + target, scope, c);
    lemma_mentions(a + scope + b, target, c);
}

/// Folding a floor into a card adds its scopes to the flat ones and to those of each action
/// that is not for `Meta`, takes none away, brings in no other, and leaves all else that the
/// card says as it is.
pub proof fn law_a_folded_card_has_the_scopes_of_both(
    floor: &ModuleFloor,
    card: Description,
    r: Description,
    scope: Seq<char>,
)
    requires
        call_ensures(ModuleFloor::applied_to, (floor, card), r),
    ensures
        r@.scopes.contains(scope) <==> card@.scopes.contains(scope) || floor@.contains(scope),
        r@.actions.len() == card@.actions.len(),
        forall|i: int|
            0 <= i < card@.actions.len() ==> {
                let after = #[trigger] r@.actions[i];
                let before = card@.actions[i];
                &&& after.scopes.contains(scope) <==> before.scopes.contains(scope) || (before.verb
                    != Verb::Meta && floor@.contains(scope))
                &&& after.verb == before.verb
                &&& after.summary == before.summary
                &&& after.inputs == before.inputs
                &&& after.outputs == before.outputs
            },
        r@.id == card@.id,
        r@.title == card@.title,
        r@.summary == card@.summary,
        r@.verbs == card@.verbs,
        r@.inputs == card@.inputs,
        r@.outputs == card@.outputs,
        r@.kind == card@.kind,
{
    law_with_scopes_is_the_union(card@.scopes, floor@);
    assert forall|i: int| 0 <= i < card@.actions.len() implies {
        let after = #[trigger] r@.actions[i];
        let before = card@.actions[i];
        &&& after.scopes.contains(scope) <==> before.scopes.contains(scope) || (before.verb
            != Verb::Meta && floor@.contains(scope))
        &&& after.verb == before.verb
        &&& after.summary == before.summary
        &&& after.inputs == before.inputs
        &&& after.outputs == before.outputs
    } by {
        law_with_scopes_is_the_union(card@.actions[i].scopes, floor@);
    }
}

/// The module itself lets a caller in exactly if the caller satisfies every scope the card
/// demands for the verb; one it turns away is told a scope that is lacking, and for what.
pub proof fn law_the_card_decides_whom_the_module_lets_in(
    request: &Request,
    card: &Description,
    capability: &Capability,
    demands: Option<Vec<String>>,
    r: Option<String>,
)
    requires
        call_ensures(Description::scopes_of, (card, request.verb), demands),
        call_ensures(refuse_unsatisfied_declaration, (request, card, capability), r),
    ensures
        r is None <==> (demands matches Some(scopes) ==> forall|i: int|
            0 <= i < scopes.deep_view().len() ==> satisfied(
                capability@,
                #[trigger] scopes.deep_view()[i],
            )),
        r matches Some(message) ==> {
            &&& mentions(message@, request@.target)
            &&& exists|scope: Seq<char>| #[trigger]
                demands->0.deep_view().contains(scope) && !satisfied(capability@, scope)
                    && mentions(message@, scope)
        },
{
    let all = demanded(card@, request@.verb);
    law_nothing_lacking_means_each_satisfied(all, capability@);
    if demands is Some {
        assert(all == demands->0.deep_view());
    }
    if r is Some {
        lemma_first_lacking_is_first(all, capability@);
        let scope = first_lacking(all, capability@)->0;
        assert(all.contains(scope));
        let target = request@.target;
        let a = "capability does not grant `"@;
        let b = "` (declared by `"@;
        let c = "`, inside the module)"@;
        lemma_mentions(a, scope, b);
        lemma_mentions_before(a + scope + b, scope, target);
        lemma_mentions_before(a + scope + b + target, scope, c);
        lemma_mentions(a + scope + b, target, c);
    }
}

/// The scope a card is found to lack for is one it demands, is not satisfied, and every one
/// before it is.
pub proof fn law_an_unsatisfied_scope_of_a_card_is_one_it_demands(
    card: &Description,
    verb: Verb,
    capability: &Capability,
    demands: Option<Vec<String>>,
    r: Option<String>,
)
    requires
        call_ensures(Description::scopes_of, (card, verb), demands),
        call_ensures(unsatisfied_scope, (card, verb, capability), r),
    ensures
        demands is None ==> r is None,
        demands matches Some(scopes) ==> match r {
            None => forall|i: int|
                0 <= i < scopes.deep_view().len() ==> satisfied(
                    capability@,
                    #[trigger] scopes.deep_view()[i],
                ),
            Some(scope) => exists|i: int|
                0 <= i < scopes.deep_view().len() && #[trigger] scopes.deep_view()[i] == scope@
                    && !satisfied(capability@, scope@) && forall|j: int|
                    0 <= j < i ==> satisfied(capability@, #[trigger] scopes.deep_view()[j]),
        },
{
    let all = demanded(card@, verb);
    law_nothing_lacking_means_each_satisfied(all, capability@);
    if demands is Some {
        assert(all == demands->0.deep_view());
    }
    if r is Some {
        lemma_first_lacking_is_first(all, capability@);
    }
}

/// The scopes a floor is read as are those it demands, in their order; the one it finds lacking
/// is the first of them that is not satisfied; and a denial is for good and names scope and
/// target.
pub proof fn law_a_floor_is_read_as_it_is(
    floor: &ModuleFloor,
    scopes: &[String],
    capability: &Capability,
    lacking: Option<&str>,
    scope: &str,
    target: &str,
    denial: Error,
)
    requires
        call_ensures(ModuleFloor::scopes, (floor,), scopes),
        call_ensures(ModuleFloor::unsatisfied, (floor, capability), lacking),
        call_ensures(ModuleFloor::denial, (floor, scope, target), denial),
    ensures
        scopes.deep_view() == floor@,
        lacking is None <==> forall|i: int|
            0 <= i < floor@.len() ==> satisfied(capability@, #[trigger] floor@[i]),
        lacking matches Some(found) ==> exists|i: int|
            0 <= i < floor@.len() && #[trigger] floor@[i] == found@ && !satisfied(
                capability@,
                found@,
            ) && forall|j: int| 0 <= j < i ==> satisfied(capability@, #[trigger] floor@[j]),
        denial@ matches ErrorView::Denied(message) && mentions(message, scope@) && mentions(
            message,
            target@,
        ),
{
    law_nothing_lacking_means_each_satisfied(floor@, capability@);
    if lacking is Some {
        lemma_first_lacking_is_first(floor@, capability@);
    }
    lemma_denial_names(scope@, target@);
}

} // verus!
