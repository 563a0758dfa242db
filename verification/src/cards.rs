//! Finding cards: asking each binding of a module for its own, and matching a target to one.

use vstd::prelude::*;

use ikigai_core::Bindings;

use crate::card::{Description, DescriptionView, ModuleCard, ModuleCardView};
use crate::kernel::{Iri, SpaceEntry, SpaceEntryView};
use crate::outside::{
    bind, bindings_held, iri_accepts, iri_parses, no_bindings, template_accepts, template_covers,
    template_expand, template_expansion, template_matches, template_names, template_parses,
    template_variables,
};
use crate::text::same_text;

verus! {

/// The value a template's variables are given to reach the endpoint behind it.
pub const PROBE: &'static str = "probe";

// ---------------------------------------------------------------------------
// Asking.
// ---------------------------------------------------------------------------

/// Every name of `names` bound to the probe.
pub open spec fn probe_bindings(names: Seq<Seq<char>>) -> Map<Seq<char>, Seq<char>> {
    Map::new(|name: Seq<char>| names.contains(name), |name: Seq<char>| PROBE@)
}

/// The name at which a space is asked for the card of the binding `pattern`: the pattern
/// itself if it is an IRI, else the template it is with every variable probed. A pattern with
/// no variables is no template, and what does not expand to an IRI cannot be asked.
pub open spec fn probe_of(pattern: Seq<char>) -> Option<Seq<char>> {
    if iri_accepts(pattern) {
        Some(pattern)
    } else if !template_accepts(pattern) || template_names(pattern).len() == 0 {
        None
    } else {
        let text = template_expansion(pattern, probe_bindings(template_names(pattern)));
        if iri_accepts(text) {
            Some(text)
        } else {
            None
        }
    }
}

/// The name at which to ask for the card of `entry`.
pub fn probe_target(entry: &SpaceEntry) -> (r: Option<Iri>)
    ensures
        match r {
            Some(target) => probe_of(entry@.pattern) == Some(target@),
            None => probe_of(entry@.pattern) is None,
        },
{
    let pattern = entry.pattern.as_str();
    match Iri::parse(pattern) {
        Some(iri) => {
            return Some(iri);
        },
        None => {},
    }
    if !template_parses(pattern) {
        return None;
    }
    let names = template_variables(pattern);
    let ghost all = names.deep_view();
    let mut bindings = Bindings::new();
    let mut i: usize = 0;
    assert(probe_bindings(all.take(0)) =~= no_bindings());
    while i < names.len()
        invariant
            i <= names.len(),
            all == names.deep_view(),
            bindings_held(bindings) == probe_bindings(all.take(i as int)),
        decreases names.len() - i,
    {
        bind(&mut bindings, names[i].as_str(), PROBE);
        proof {
            let less = all.take(i as int);
            let more = all.take(i + 1);
            assert(more == less.push(all[i as int]));
            assert forall|name: Seq<char>| #[trigger]
                more.contains(name) <==> less.contains(name) || name == all[i as int] by {
                if less.contains(name) {
                    let k = choose|k: int| 0 <= k < less.len() && less[k] == name;
                    assert(more[k] == name);
                }
                assert(more[i as int] == all[i as int]);
            }
            assert(probe_bindings(less).insert(all[i as int], PROBE@) =~= probe_bindings(more));
        }
        i += 1;
    }
    assert(all.take(i as int) == all);
    if bindings.is_empty() {
        proof {
            if all.len() > 0 {
                assert(all.contains(all[0]));
                assert(probe_bindings(all).contains_key(all[0]));
            }
        }
        return None;
    }
    proof {
        if all.len() == 0 {
            assert(probe_bindings(all) =~= no_bindings());
        }
        assert forall|k: int| 0 <= k < all.len() implies probe_bindings(all).contains_key(
            #[trigger] all[k],
        ) by {
            assert(all.contains(all[k]));
        }
    }
    match template_expand(pattern, &bindings) {
        Some(text) => Iri::parse(text.as_str()),
        None => None,
    }
}

/// What a space answered when asked: the name and the card of the endpoint it resolved to.
#[derive(PartialEq, Eq, Debug)]
pub struct Answer {
    /// The endpoint's name.
    pub name: String,
    /// The endpoint's card.
    pub description: Description,
}

/// [`Answer`] as a value.
pub struct AnswerView {
    /// The endpoint's name.
    pub name: Seq<char>,
    /// The endpoint's card.
    pub description: DescriptionView,
}

impl View for Answer {
    type V = AnswerView;

    open spec fn view(&self) -> AnswerView {
        AnswerView { name: self.name@, description: self.description@ }
    }
}

impl DeepView for Answer {
    type V = AnswerView;

    open spec fn deep_view(&self) -> AnswerView {
        self@
    }
}

/// The card of `entry`, given what the space answered. A probed template may have been
/// swallowed by another binding: the answer counts only if the endpoint goes by the name of
/// the entry or its card does.
pub open spec fn described(
    entry: SpaceEntryView,
    answer: Option<AnswerView>,
) -> Option<DescriptionView> {
    match answer {
        None => None,
        Some(answer) => if !iri_accepts(entry.pattern) && answer.name != entry.endpoint
            && answer.description.id != entry.endpoint {
            None
        } else {
            Some(answer.description)
        },
    }
}

/// The card of `entry`, given what the space answered at its [`probe_target`]; no answer if
/// there is none or nothing is bound there.
pub fn describe_entry(entry: &SpaceEntry, answer: &Option<Answer>) -> (r: Option<Description>)
    ensures
        r.deep_view() == described(entry@, answer.deep_view()),
{
    match answer {
        None => None,
        Some(answer) => {
            if !iri_parses(entry.pattern.as_str()) && !same_text(
                answer.name.as_str(),
                entry.endpoint.as_str(),
            ) && !same_text(answer.description.id.as_str(), entry.endpoint.as_str()) {
                None
            } else {
                Some(answer.description.clone())
            }
        },
    }
}

/// The cards of the entries that have one, in the order of the entries.
pub open spec fn cards_from(asked: Seq<(SpaceEntryView, Option<AnswerView>)>) -> Seq<ModuleCardView>
    decreases asked.len(),
{
    if asked.len() == 0 {
        Seq::empty()
    } else {
        let most = cards_from(asked.drop_last());
        match described(asked.last().0, asked.last().1) {
            Some(description) => most.push(ModuleCardView { entry: asked.last().0, description }),
            None => most,
        }
    }
}

/// The cards of a module, given each bound entry with what the space answered for it.
pub fn cards_of(asked: &Vec<(SpaceEntry, Option<Answer>)>) -> (r: Vec<ModuleCard>)
    ensures
        r.deep_view() == cards_from(asked.deep_view()),
{
    let ghost all = asked.deep_view();
    let mut cards: Vec<ModuleCard> = Vec::new();
    let mut i: usize = 0;
    while i < asked.len()
        invariant
            i <= asked.len(),
            all == asked.deep_view(),
            cards.deep_view() == cards_from(all.take(i as int)),
        decreases asked.len() - i,
    {
        let ghost before = cards.deep_view();
        let entry = &asked[i].0;
        proof {
            assert(all.take(i + 1).drop_last() == all.take(i as int));
            assert(all.take(i + 1).last() == (asked[i as int].0@, asked[i as int].1.deep_view()));
        }
        match describe_entry(entry, &asked[i].1) {
            Some(description) => {
                let card = ModuleCard { entry: entry.clone(), description };
                cards.push(card);
                assert(cards.deep_view() =~= before.push(card@));
            },
            None => {},
        }
        i += 1;
    }
    assert(all.take(i as int) == all);
    cards
}

// ---------------------------------------------------------------------------
// Matching.
// ---------------------------------------------------------------------------

/// Whether `pattern` is `target`, or a template with variables that covers it.
pub open spec fn pattern_covers(pattern: Seq<char>, target: Seq<char>) -> bool {
    ||| pattern == target
    ||| pattern.contains('{') && template_accepts(pattern) && template_covers(pattern, target)
}

/// The name and the card of the first offer whose pattern covers `target`. An offer is a
/// pattern, a name and a card.
pub open spec fn first_match(
    offers: Seq<(Seq<char>, Seq<char>, DescriptionView)>,
    target: Seq<char>,
) -> Option<(Seq<char>, DescriptionView)>
    decreases offers.len(),
{
    if offers.len() == 0 {
        None
    } else if pattern_covers(offers[0].0, target) {
        Some((offers[0].1, offers[0].2))
    } else {
        first_match(offers.drop_first(), target)
    }
}

/// Whether `pattern` is `target`, or a template that matches it.
pub fn pattern_matches(pattern: &str, target: &Iri) -> (r: bool)
    ensures
        r == pattern_covers(pattern@, target@),
{
    let text = target.as_str();
    same_text(pattern, text) || (template_parses(pattern) && template_matches(pattern, text))
}

/// The name and the card of the first of `cards` whose pattern matches `target`, in the order
/// they were declared. Each is a pattern, a name and a card.
pub fn match_card<'a>(
    cards: &Vec<(&'a str, &'a str, &'a Description)>,
    target: &Iri,
) -> (r: Option<(&'a str, &'a Description)>)
    ensures
        match r {
            Some((name, card)) => first_match(cards.deep_view(), target@) == Some((name@, card@)),
            None => first_match(cards.deep_view(), target@) is None,
        },
{
    let ghost all = cards.deep_view();
    assert(all.skip(0) == all);
    let mut i: usize = 0;
    while i < cards.len()
        invariant
            i <= cards.len(),
            all == cards.deep_view(),
            first_match(all, target@) == first_match(all.skip(i as int), target@),
        decreases cards.len() - i,
    {
        let (pattern, name, card) = cards[i];
        assert(all.skip(i as int)[0] == (pattern@, name@, card@));
        if pattern_matches(pattern, target) {
            return Some((name, card));
        }
        assert(all.skip(i as int).drop_first() == all.skip(i + 1));
        i += 1;
    }
    None
}

// ---------------------------------------------------------------------------
// Laws.
// ---------------------------------------------------------------------------

/// Earlier offers win: what matches in the first of two lists is what matches in both put
/// together, and the second is consulted only where the first has nothing.
pub proof fn law_earlier_offers_win(
    first: Seq<(Seq<char>, Seq<char>, DescriptionView)>,
    second: Seq<(Seq<char>, Seq<char>, DescriptionView)>,
    target: Seq<char>,
)
    ensures
        first_match(first + second, target) == (match first_match(first, target) {
            Some(found) => Some(found),
            None => first_match(second, target),
        }),
    decreases first.len(),
{
    if first.len() == 0 {
        assert(first + second =~= second);
    } else {
        assert((first + second)[0] == first[0]);
        assert((first + second).drop_first() =~= first.drop_first() + second);
        law_earlier_offers_win(first.drop_first(), second, target);
    }
}

/// A target that an offer is for is matched, by that offer or an earlier one; one that no
/// offer is for is not.
pub proof fn law_matched_exactly_when_covered(
    offers: Seq<(Seq<char>, Seq<char>, DescriptionView)>,
    target: Seq<char>,
)
    ensures
        first_match(offers, target) is Some <==> exists|i: int|
            0 <= i < offers.len() && pattern_covers((#[trigger] offers[i]).0, target),
    decreases offers.len(),
{
    if offers.len() > 0 {
        let rest = offers.drop_first();
        law_matched_exactly_when_covered(rest, target);
        if exists|i: int| 0 <= i < offers.len() && pattern_covers((#[trigger] offers[i]).0, target) {
            let i = choose|i: int|
                0 <= i < offers.len() && pattern_covers((#[trigger] offers[i]).0, target);
            if i > 0 {
                assert(rest[i - 1] == offers[i]);
            }
        }
        if first_match(rest, target) is Some {
            let i = choose|i: int|
                0 <= i < rest.len() && pattern_covers((#[trigger] rest[i]).0, target);
            assert(offers[i + 1] == rest[i]);
        }
        if pattern_covers(offers[0].0, target) {
            assert(0 <= 0 < offers.len());
        }
    }
}

/// Each card is of one of the entries that were asked, in their order.
pub proof fn law_cards_keep_the_order_of_entries(asked: Seq<(SpaceEntryView, Option<AnswerView>)>)
    ensures
        cards_from(asked).len() <= asked.len(),
        forall|i: int|
            0 <= i < cards_from(asked).len() ==> exists|k: int|
                i <= k < asked.len() && (#[trigger] asked[k]).0 == (#[trigger] cards_from(
                    asked,
                )[i]).entry && described(asked[k].0, asked[k].1) == Some(
                    cards_from(asked)[i].description,
                ),
    decreases asked.len(),
{
    if asked.len() > 0 {
        let front = asked.drop_last();
        let all = cards_from(asked);
        let most = cards_from(front);
        law_cards_keep_the_order_of_entries(front);
        assert forall|i: int| 0 <= i < all.len() implies exists|k: int|
            i <= k < asked.len() && (#[trigger] asked[k]).0 == (#[trigger] all[i]).entry
                && described(asked[k].0, asked[k].1) == Some(all[i].description) by {
            if i < most.len() {
                assert(all[i] == most[i]);
                let k = choose|k: int|
                    i <= k < front.len() && (#[trigger] front[k]).0 == most[i].entry && described(
                        front[k].0,
                        front[k].1,
                    ) == Some(most[i].description);
                assert(asked[k] == front[k]);
            } else {
                assert(asked[asked.len() - 1] == asked.last());
            }
        }
    }
}

/// A binding is asked for its card at an IRI: at its own pattern if that is one, else at what
/// its template gives with every variable probed. One that has no variable, or gives no IRI, is
/// not asked.
pub proof fn law_a_binding_is_asked_where_it_can_be_reached(
    entry: &SpaceEntry,
    bound: Map<Seq<char>, Seq<char>>,
    r: Option<Iri>,
)
    requires
        call_ensures(probe_target, (entry,), r),
        forall|name: Seq<char>| #[trigger]
            bound.contains_key(name) <==> template_names(entry@.pattern).contains(name),
        forall|name: Seq<char>| bound.contains_key(name) ==> #[trigger] bound[name] == PROBE@,
    ensures
        r matches Some(target) ==> iri_accepts(target@),
        iri_accepts(entry@.pattern) ==> (r matches Some(target) && target@ == entry@.pattern),
        !iri_accepts(entry@.pattern) ==> (r matches Some(target) ==> {
            &&& template_accepts(entry@.pattern)
            &&& template_names(entry@.pattern).len() > 0
            &&& target@ == template_expansion(entry@.pattern, bound)
        }),
        !iri_accepts(entry@.pattern) && template_accepts(entry@.pattern) && template_names(
            entry@.pattern,
        ).len() > 0 && iri_accepts(template_expansion(entry@.pattern, bound)) ==> r is Some,
{
    assert(bound =~= probe_bindings(template_names(entry@.pattern)));
}

/// The card of a binding is what the space answered with, word for word. A binding whose
/// pattern is an IRI has a card wherever there was an answer; a probed one only where the
/// answer goes by its name or its identifier.
pub proof fn law_a_binding_has_the_card_it_answered_with(
    entry: &SpaceEntry,
    answer: &Option<Answer>,
    r: Option<Description>,
)
    requires
        call_ensures(describe_entry, (entry, answer), r),
    ensures
        answer is None ==> r is None,
        answer matches Some(given) ==> {
            &&& r is Some <==> iri_accepts(entry@.pattern) || given.name@ == entry@.endpoint
                || given.description@.id == entry@.endpoint
            &&& r matches Some(card) ==> {
                &&& card@.id == given.description@.id
                &&& card@.title == given.description@.title
                &&& card@.summary == given.description@.summary
                &&& card@.verbs == given.description@.verbs
                &&& card@.inputs == given.description@.inputs
                &&& card@.outputs == given.description@.outputs
                &&& card@.kind == given.description@.kind
                &&& card@.scopes == given.description@.scopes
                &&& card@.actions == given.description@.actions
            }
        },
{
    if r is Some {
        assert(r.deep_view() == Some(r->0@));
    }
}

/// The cards of a module are those of its bindings, one after the other: each binding gives its
/// own card, under its own entry, or none, whatever the others give.
pub proof fn law_each_binding_gives_its_own_card(
    entry: SpaceEntry,
    answer: Option<Answer>,
    card: Option<Description>,
    one: &Vec<(SpaceEntry, Option<Answer>)>,
    rest: &Vec<(SpaceEntry, Option<Answer>)>,
    all: &Vec<(SpaceEntry, Option<Answer>)>,
    of_one: Vec<ModuleCard>,
    of_rest: Vec<ModuleCard>,
    of_all: Vec<ModuleCard>,
)
    requires
        call_ensures(describe_entry, (&entry, &answer), card),
        one.deep_view() == seq![(entry@, answer.deep_view())],
        all.deep_view() == rest.deep_view() + one.deep_view(),
        call_ensures(cards_of, (one,), of_one),
        call_ensures(cards_of, (rest,), of_rest),
        call_ensures(cards_of, (all,), of_all),
    ensures
        of_all.deep_view() == of_rest.deep_view() + of_one.deep_view(),
        match card {
            Some(description) => of_one.deep_view() == seq![
                ModuleCardView { entry: entry@, description: description@ },
            ],
            None => of_one.deep_view().len() == 0,
        },
{
    let last = (entry@, answer.deep_view());
    let single = one.deep_view();
    assert(single.last() == last);
    let none: Seq<(SpaceEntryView, Option<AnswerView>)> = Seq::empty();
    assert(single.drop_last() == none);
    assert(cards_from(none) =~= Seq::<ModuleCardView>::empty());
    assert(card.deep_view() == described(last.0, last.1));
    assert(all.deep_view().drop_last() =~= rest.deep_view());
    assert(all.deep_view().last() == last);
    match card {
        Some(description) => {
            assert(card.deep_view() == Some(description@));
            assert(of_one.deep_view() =~= seq![
                ModuleCardView { entry: entry@, description: description@ },
            ]);
        },
        None => {},
    }
    assert(of_all.deep_view() =~= of_rest.deep_view() + of_one.deep_view());
}

/// A pattern covers itself, and where it has no variable nothing else; a template covers what
/// it matches.
pub proof fn law_a_pattern_covers_itself_and_what_its_template_matches(
    pattern: &str,
    target: &Iri,
    r: bool,
)
    requires
        call_ensures(pattern_matches, (pattern, target), r),
    ensures
        pattern@ == target@ ==> r,
        !pattern@.contains('{') ==> (r <==> pattern@ == target@),
        pattern@.contains('{') && template_accepts(pattern@) ==> (r <==> pattern@ == target@
            || template_covers(pattern@, target@)),
        !template_accepts(pattern@) ==> (r <==> pattern@ == target@),
{
}

/// The first of some cards whose pattern covers a target is the one it gets, under its own
/// name; a target that none covers gets none.
pub proof fn law_the_first_covering_card_is_given(
    cards: &Vec<(&str, &str, &Description)>,
    target: &Iri,
    at: int,
    r: Option<(&str, &Description)>,
)
    requires
        call_ensures(match_card, (cards, target), r),
        0 <= at <= cards.deep_view().len(),
        forall|j: int|
            0 <= j < at ==> !pattern_covers((#[trigger] cards.deep_view()[j]).0, target@),
        at < cards.deep_view().len() ==> pattern_covers(cards.deep_view()[at].0, target@),
    ensures
        at < cards.deep_view().len() ==> (r matches Some((name, card)) && name@
            == cards.deep_view()[at].1 && card@ == cards.deep_view()[at].2),
        at == cards.deep_view().len() ==> r is None,
{
    lemma_first_match_is_first(cards.deep_view(), target@, at);
}

pub(crate) proof fn lemma_first_match_is_first(
    offers: Seq<(Seq<char>, Seq<char>, DescriptionView)>,
    target: Seq<char>,
    at: int,
)
    requires
        0 <= at <= offers.len(),
        forall|j: int| 0 <= j < at ==> !pattern_covers((#[trigger] offers[j]).0, target),
        at < offers.len() ==> pattern_covers(offers[at].0, target),
    ensures
        at < offers.len() ==> first_match(offers, target) == Some((offers[at].1, offers[at].2)),
        at == offers.len() ==> first_match(offers, target) is None,
    decreases at,
{
    if at > 0 {
        let rest = offers.drop_first();
        assert(!pattern_covers(offers[0].0, target));
        assert forall|j: int| 0 <= j < at - 1 implies !pattern_covers(
            (#[trigger] rest[j]).0,
            target,
        ) by {
            assert(rest[j] == offers[j + 1]);
        }
        lemma_first_match_is_first(rest, target, at - 1);
    }
}

} // verus!
