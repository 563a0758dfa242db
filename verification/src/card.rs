//! Cards: what an endpoint says of itself.

use vstd::prelude::*;

use crate::kernel::{SpaceEntry, SpaceEntryView, Verb};
use crate::outside::action_scopes;
use crate::text::copy_texts;

verus! {

/// The channel an input's value arrives through.
#[derive(Clone, Copy, PartialEq, Eq, Debug, Structural)]
pub enum InputSource {
    /// An argument of the request.
    Argument,
    /// A variable of the template the target matched.
    Binding,
}

/// One named input of an endpoint.
#[derive(PartialEq, Eq, Debug)]
pub struct ArgSpec {
    /// Its name.
    pub name: String,
    /// What it is.
    pub summary: String,
    /// Whether it must be given.
    pub required: bool,
    /// Where its value comes from.
    pub source: InputSource,
    /// The class or datatype its value is expected to be of.
    pub class: Option<String>,
    /// The value assumed when it is left out.
    pub default: Option<String>,
    /// The accepted values; empty if any is.
    pub one_of: Vec<String>,
}

/// [`ArgSpec`] as a value.
#[verifier::ext_equal]
pub struct ArgSpecView {
    /// Its name.
    pub name: Seq<char>,
    /// What it is.
    pub summary: Seq<char>,
    /// Whether it must be given.
    pub required: bool,
    /// Where its value comes from.
    pub source: InputSource,
    /// The class or datatype its value is expected to be of.
    pub class: Option<Seq<char>>,
    /// The value assumed when it is left out.
    pub default: Option<Seq<char>>,
    /// The accepted values; empty if any is.
    pub one_of: Seq<Seq<char>>,
}

impl View for ArgSpec {
    type V = ArgSpecView;

    open spec fn view(&self) -> ArgSpecView {
        ArgSpecView {
            name: self.name@,
            summary: self.summary@,
            required: self.required,
            source: self.source,
            class: self.class.deep_view(),
            default: self.default.deep_view(),
            one_of: self.one_of.deep_view(),
        }
    }
}

impl DeepView for ArgSpec {
    type V = ArgSpecView;

    open spec fn deep_view(&self) -> ArgSpecView {
        self@
    }
}

/// The same text again, if there is one.
fn copy_optional(text: &Option<String>) -> (r: Option<String>)
    ensures
        r.deep_view() == text.deep_view(),
{
    match text {
        Some(text) => Some(text.clone()),
        None => None,
    }
}

impl Clone for ArgSpec {
    fn clone(&self) -> (r: Self)
        ensures
            r@ == self@,
    {
        ArgSpec {
            name: self.name.clone(),
            summary: self.summary.clone(),
            required: self.required,
            source: self.source,
            class: copy_optional(&self.class),
            default: copy_optional(&self.default),
            one_of: copy_texts(&self.one_of),
        }
    }
}

/// The same inputs again.
fn copy_inputs(inputs: &Vec<ArgSpec>) -> (r: Vec<ArgSpec>)
    ensures
        r.deep_view() == inputs.deep_view(),
{
    let r = inputs.clone();
    assert(r.deep_view() =~= inputs.deep_view());
    r
}

/// What one verb reads, produces and demands on an endpoint.
#[derive(PartialEq, Eq, Debug)]
pub struct ActionSpec {
    /// The verb.
    pub verb: Verb,
    /// What it does.
    pub summary: String,
    /// The inputs it reads.
    pub inputs: Vec<ArgSpec>,
    /// The media types it can produce.
    pub outputs: Vec<String>,
    /// The scopes a caller must hold.
    pub scopes: Vec<String>,
}

/// [`ActionSpec`] as a value.
#[verifier::ext_equal]
pub struct ActionSpecView {
    /// The verb.
    pub verb: Verb,
    /// What it does.
    pub summary: Seq<char>,
    /// The inputs it reads.
    pub inputs: Seq<ArgSpecView>,
    /// The media types it can produce.
    pub outputs: Seq<Seq<char>>,
    /// The scopes a caller must hold.
    pub scopes: Seq<Seq<char>>,
}

impl View for ActionSpec {
    type V = ActionSpecView;

    open spec fn view(&self) -> ActionSpecView {
        ActionSpecView {
            verb: self.verb,
            summary: self.summary@,
            inputs: self.inputs.deep_view(),
            outputs: self.outputs.deep_view(),
            scopes: self.scopes.deep_view(),
        }
    }
}

impl DeepView for ActionSpec {
    type V = ActionSpecView;

    open spec fn deep_view(&self) -> ActionSpecView {
        self@
    }
}

impl Clone for ActionSpec {
    fn clone(&self) -> (r: Self)
        ensures
            r@ == self@,
    {
        ActionSpec {
            verb: self.verb,
            summary: self.summary.clone(),
            inputs: copy_inputs(&self.inputs),
            outputs: copy_texts(&self.outputs),
            scopes: copy_texts(&self.scopes),
        }
    }
}

/// The media types a transreptor reads and those it produces.
#[derive(PartialEq, Eq, Debug)]
pub struct Transreption {
    /// The media types it reads.
    pub from: Vec<String>,
    /// The media types it produces.
    pub to: Vec<String>,
}

/// What kind of endpoint it is.
#[derive(PartialEq, Eq, Debug)]
pub enum EndpointKind {
    /// A plain one.
    Endpoint,
    /// One that converts between media types.
    Transreptor(Transreption),
}

/// [`EndpointKind`] as a value.
pub enum EndpointKindView {
    /// A plain one.
    Endpoint,
    /// One that converts between media types.
    Transreptor(Seq<Seq<char>>, Seq<Seq<char>>),
}

impl View for EndpointKind {
    type V = EndpointKindView;

    open spec fn view(&self) -> EndpointKindView {
        match self {
            EndpointKind::Endpoint => EndpointKindView::Endpoint,
            EndpointKind::Transreptor(t) => EndpointKindView::Transreptor(
                t.from.deep_view(),
                t.to.deep_view(),
            ),
        }
    }
}

impl Clone for EndpointKind {
    fn clone(&self) -> (r: Self)
        ensures
            r@ == self@,
    {
        match self {
            EndpointKind::Endpoint => EndpointKind::Endpoint,
            EndpointKind::Transreptor(t) => EndpointKind::Transreptor(
                Transreption { from: copy_texts(&t.from), to: copy_texts(&t.to) },
            ),
        }
    }
}

/// An endpoint's card: what it answers when asked to describe itself.
#[derive(PartialEq, Eq, Debug)]
pub struct Description {
    /// The endpoint's identifier.
    pub id: String,
    /// A short title.
    pub title: String,
    /// A longer summary.
    pub summary: String,
    /// The verbs it answers.
    pub verbs: Vec<Verb>,
    /// The inputs it accepts.
    pub inputs: Vec<ArgSpec>,
    /// The media types it can produce.
    pub outputs: Vec<String>,
    /// What kind of endpoint it is.
    pub kind: EndpointKind,
    /// The scopes a caller must hold, for the verbs with no action of their own.
    pub scopes: Vec<String>,
    /// The verbs that are declared apart from the flat fields.
    pub actions: Vec<ActionSpec>,
}

/// [`Description`] as a value.
#[verifier::ext_equal]
pub struct DescriptionView {
    /// The endpoint's identifier.
    pub id: Seq<char>,
    /// A short title.
    pub title: Seq<char>,
    /// A longer summary.
    pub summary: Seq<char>,
    /// The verbs it answers.
    pub verbs: Seq<Verb>,
    /// The inputs it accepts.
    pub inputs: Seq<ArgSpecView>,
    /// The media types it can produce.
    pub outputs: Seq<Seq<char>>,
    /// What kind of endpoint it is.
    pub kind: EndpointKindView,
    /// The scopes a caller must hold, for the verbs with no action of their own.
    pub scopes: Seq<Seq<char>>,
    /// The verbs that are declared apart from the flat fields.
    pub actions: Seq<ActionSpecView>,
}

impl View for Description {
    type V = DescriptionView;

    open spec fn view(&self) -> DescriptionView {
        DescriptionView {
            id: self.id@,
            title: self.title@,
            summary: self.summary@,
            verbs: self.verbs@,
            inputs: self.inputs.deep_view(),
            outputs: self.outputs.deep_view(),
            kind: self.kind@,
            scopes: self.scopes.deep_view(),
            actions: self.actions.deep_view(),
        }
    }
}

impl DeepView for Description {
    type V = DescriptionView;

    open spec fn deep_view(&self) -> DescriptionView {
        self@
    }
}

/// The card that says nothing but its identifier.
pub open spec fn bare_card(id: Seq<char>) -> DescriptionView {
    DescriptionView {
        id,
        title: Seq::empty(),
        summary: Seq::empty(),
        verbs: Seq::empty(),
        inputs: Seq::empty(),
        outputs: Seq::empty(),
        kind: EndpointKindView::Endpoint,
        scopes: Seq::empty(),
        actions: Seq::empty(),
    }
}

/// The first of `actions` that is for `verb`.
pub open spec fn declared_action(actions: Seq<ActionSpecView>, verb: Verb) -> Option<ActionSpecView>
    decreases actions.len(),
{
    if actions.len() == 0 {
        None
    } else if actions[0].verb == verb {
        Some(actions[0])
    } else {
        declared_action(actions.drop_first(), verb)
    }
}

/// The scopes `card` declares for `verb`: those of the action declared for it, else the flat
/// ones.
pub open spec fn scopes_for(card: DescriptionView, verb: Verb) -> Seq<Seq<char>> {
    match declared_action(card.actions, verb) {
        Some(action) => action.scopes,
        None => card.scopes,
    }
}

/// Those of `verbs` that select an action: all but `Meta`, which every endpoint answers.
pub open spec fn selectable(verbs: Seq<Verb>) -> Seq<Verb> {
    verbs.filter(|verb: Verb| verb != Verb::Meta)
}

/// The scopes `card` declares for each verb that selects an action, in the order of its verbs.
pub open spec fn scopes_in_turn(card: DescriptionView) -> Seq<Seq<Seq<char>>> {
    selectable(card.verbs).map_values(|verb: Verb| scopes_for(card, verb))
}

/// Where a verb that selects an action comes among those that do.
proof fn lemma_selectable(verbs: Seq<Verb>, at: int)
    requires
        0 <= at < verbs.len(),
        verbs[at] != Verb::Meta,
    ensures
        selectable(verbs.take(at)).len() < selectable(verbs).len(),
        selectable(verbs)[selectable(verbs.take(at)).len() as int] == verbs[at],
    decreases verbs.len(),
{
    reveal(Seq::filter);
    let front = verbs.drop_last();
    if at < front.len() {
        lemma_selectable(front, at);
        assert(front.take(at) =~= verbs.take(at));
    } else {
        assert(verbs.take(at) =~= front);
    }
}

impl Description {
    /// A card that says nothing but its identifier.
    pub fn new(id: &str) -> (r: Description)
        ensures
            r@ == bare_card(id@),
    {
        let r = Description {
            id: id.to_owned(),
            title: String::new(),
            summary: String::new(),
            verbs: Vec::new(),
            inputs: Vec::new(),
            outputs: Vec::new(),
            kind: EndpointKind::Endpoint,
            scopes: Vec::new(),
            actions: Vec::new(),
        };
        assert(r@ =~= bare_card(id@));
        r
    }

    /// The scopes the card declares for `verb`, or `None` if it declares no such action.
    pub fn scopes_of(&self, verb: Verb) -> (r: Option<Vec<String>>)
        ensures
            match r {
                Some(scopes) => {
                    &&& verb != Verb::Meta && self@.verbs.contains(verb)
                    &&& scopes.deep_view() == scopes_for(self@, verb)
                },
                None => verb == Verb::Meta || !self@.verbs.contains(verb),
            },
    {
        let scopes = action_scopes(self);
        let ghost verbs = self@.verbs;
        let mut i: usize = 0;
        let mut at: usize = 0;
        proof {
            reveal(Seq::filter);
        }
        while i < self.verbs.len()
            invariant
                i <= self.verbs.len(),
                verbs == self.verbs@,
                verbs == self@.verbs,
                scopes.deep_view() == scopes_in_turn(self@),
                at == selectable(verbs.take(i as int)).len(),
                at <= i,
                forall|k: int| 0 <= k < i && verbs[k] != Verb::Meta ==> verbs[k] != verb,
            decreases self.verbs.len() - i,
        {
            proof {
                reveal(Seq::filter);
                assert(verbs.take(i + 1).drop_last() =~= verbs.take(i as int));
                assert(verbs.take(i + 1).last() == verbs[i as int]);
            }
            if self.verbs[i] != Verb::Meta {
                proof {
                    lemma_selectable(verbs, i as int);
                    assert(scopes@.len() == scopes.deep_view().len());
                    assert(scopes[at as int].deep_view() == scopes.deep_view()[at as int]);
                    assert(scopes.deep_view()[at as int] == scopes_for(self@, verbs[i as int]));
                }
                if self.verbs[i] == verb {
                    assert(verbs.contains(verb));
                    return Some(copy_texts(&scopes[at]));
                }
                at += 1;
            }
            i += 1;
        }
        None
    }
}

impl Clone for Description {
    fn clone(&self) -> (r: Self)
        ensures
            r@ == self@,
    {
        let actions = self.actions.clone();
        assert(actions.deep_view() =~= self.actions.deep_view());
        let verbs = self.verbs.clone();
        assert(verbs@ =~= self.verbs@);
        Description {
            id: self.id.clone(),
            title: self.title.clone(),
            summary: self.summary.clone(),
            verbs,
            inputs: copy_inputs(&self.inputs),
            outputs: copy_texts(&self.outputs),
            kind: self.kind.clone(),
            scopes: copy_texts(&self.scopes),
            actions,
        }
    }
}

/// One binding of a module and the card of the endpoint bound there.
#[derive(PartialEq, Eq, Debug)]
pub struct ModuleCard {
    /// The binding: its pattern, an exact IRI or a URI template, and the endpoint's name.
    pub entry: SpaceEntry,
    /// The endpoint's card, as it answers inside the module.
    pub description: Description,
}

/// [`ModuleCard`] as a value.
pub struct ModuleCardView {
    /// The binding.
    pub entry: SpaceEntryView,
    /// The endpoint's card.
    pub description: DescriptionView,
}

impl View for ModuleCard {
    type V = ModuleCardView;

    open spec fn view(&self) -> ModuleCardView {
        ModuleCardView { entry: self.entry@, description: self.description@ }
    }
}

impl DeepView for ModuleCard {
    type V = ModuleCardView;

    open spec fn deep_view(&self) -> ModuleCardView {
        self@
    }
}

impl Clone for ModuleCard {
    fn clone(&self) -> (r: Self)
        ensures
            r@ == self@,
    {
        ModuleCard { entry: self.entry.clone(), description: self.description.clone() }
    }
}

// ---------------------------------------------------------------------------
// Laws.
// ---------------------------------------------------------------------------

/// A new card says nothing but its identifier: it declares no verb, no action and no scope.
pub proof fn law_a_new_card_says_only_its_identifier(id: &str, r: Description)
    requires
        call_ensures(Description::new, (id,), r),
    ensures
        r@.id == id@,
        r@.title.len() == 0,
        r@.summary.len() == 0,
        r@.verbs.len() == 0,
        r@.inputs.len() == 0,
        r@.outputs.len() == 0,
        r@.scopes.len() == 0,
        r@.actions.len() == 0,
        r@.kind is Endpoint,
{
}

/// A verb demands the scopes of the first action that is declared for it, however the flat
/// ones read.
pub proof fn law_the_first_action_of_a_verb_wins(
    card: &Description,
    verb: Verb,
    first: int,
    r: Option<Vec<String>>,
)
    requires
        call_ensures(Description::scopes_of, (card, verb), r),
        verb != Verb::Meta,
        card@.verbs.contains(verb),
        0 <= first < card@.actions.len(),
        card@.actions[first].verb == verb,
        forall|j: int| 0 <= j < first ==> (#[trigger] card@.actions[j]).verb != verb,
    ensures
        r matches Some(scopes) && scopes.deep_view() == card@.actions[first].scopes,
{
    lemma_first_action(card@.actions, verb, first);
}

/// A declared verb without an action of its own demands the flat scopes; `Meta`, and a verb
/// that is not declared, is no action at all.
pub proof fn law_a_verb_without_an_action_has_the_flat_scopes(
    card: &Description,
    verb: Verb,
    r: Option<Vec<String>>,
)
    requires
        call_ensures(Description::scopes_of, (card, verb), r),
        forall|j: int| 0 <= j < card@.actions.len() ==> (#[trigger] card@.actions[j]).verb != verb,
    ensures
        r is None <==> verb == Verb::Meta || !card@.verbs.contains(verb),
        r matches Some(scopes) ==> scopes.deep_view() == card@.scopes,
{
    lemma_no_action(card@.actions, verb);
}

pub(crate) proof fn lemma_first_action(actions: Seq<ActionSpecView>, verb: Verb, first: int)
    requires
        0 <= first < actions.len(),
        actions[first].verb == verb,
        forall|j: int| 0 <= j < first ==> (#[trigger] actions[j]).verb != verb,
    ensures
        declared_action(actions, verb) == Some(actions[first]),
    decreases first,
{
    if first > 0 {
        let rest = actions.drop_first();
        assert(actions[0].verb != verb);
        assert forall|j: int| 0 <= j < first - 1 implies (#[trigger] rest[j]).verb != verb by {
            assert(rest[j] == actions[j + 1]);
        }
        lemma_first_action(rest, verb, first - 1);
    }
}

pub(crate) proof fn lemma_no_action(actions: Seq<ActionSpecView>, verb: Verb)
    requires
        forall|j: int| 0 <= j < actions.len() ==> (#[trigger] actions[j]).verb != verb,
    ensures
        declared_action(actions, verb) is None,
    decreases actions.len(),
{
    if actions.len() > 0 {
        let rest = actions.drop_first();
        assert(actions[0].verb != verb);
        assert forall|j: int| 0 <= j < rest.len() implies (#[trigger] rest[j]).verb != verb by {
            assert(rest[j] == actions[j + 1]);
        }
        lemma_no_action(rest, verb);
    }
}

/// A copied card says all that the copied one does.
pub proof fn law_a_copied_card_says_the_same(card: &Description, r: Description)
    requires
        call_ensures(<Description as Clone>::clone, (card,), r),
    ensures
        r.id@ == card.id@,
        r.title@ == card.title@,
        r.summary@ == card.summary@,
        r.verbs@ == card.verbs@,
        r.inputs.deep_view() == card.inputs.deep_view(),
        r.outputs.deep_view() == card.outputs.deep_view(),
        r.kind@ == card.kind@,
        r.scopes.deep_view() == card.scopes.deep_view(),
        r.actions.deep_view() == card.actions.deep_view(),
{
    assert(r@ == card@);
}

/// A copied action, input or kind says all that the copied one does.
pub proof fn law_a_copied_action_says_the_same(
    action: &ActionSpec,
    action_copy: ActionSpec,
    input: &ArgSpec,
    input_copy: ArgSpec,
    kind: &EndpointKind,
    kind_copy: EndpointKind,
)
    requires
        call_ensures(<ActionSpec as Clone>::clone, (action,), action_copy),
        call_ensures(<ArgSpec as Clone>::clone, (input,), input_copy),
        call_ensures(<EndpointKind as Clone>::clone, (kind,), kind_copy),
    ensures
        action_copy.verb == action.verb,
        action_copy.summary@ == action.summary@,
        action_copy.inputs.deep_view() == action.inputs.deep_view(),
        action_copy.outputs.deep_view() == action.outputs.deep_view(),
        action_copy.scopes.deep_view() == action.scopes.deep_view(),
        input_copy.name@ == input.name@,
        input_copy.summary@ == input.summary@,
        input_copy.required == input.required,
        input_copy.source == input.source,
        input_copy.class.deep_view() == input.class.deep_view(),
        input_copy.default.deep_view() == input.default.deep_view(),
        input_copy.one_of.deep_view() == input.one_of.deep_view(),
        match (*kind, kind_copy) {
            (EndpointKind::Endpoint, EndpointKind::Endpoint) => true,
            (EndpointKind::Transreptor(a), EndpointKind::Transreptor(b)) => a.from.deep_view()
                == b.from.deep_view() && a.to.deep_view() == b.to.deep_view(),
            _ => false,
        },
{
    assert(action_copy@ == action@);
    assert(input_copy@ == input@);
    assert(kind_copy@ == kind@);
}

/// A copied card of a module is for the same binding and says the same.
pub proof fn law_a_copied_module_card_is_for_the_same_binding(card: &ModuleCard, r: ModuleCard)
    requires
        call_ensures(<ModuleCard as Clone>::clone, (card,), r),
    ensures
        r.entry@ == card.entry@,
        r.description@ == card.description@,
{
    assert(r@ == card@);
}

} // verus!
