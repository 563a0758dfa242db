//! What the kernel crate computes for this library: IRIs, URI templates, the actions of a card
//! and alias tables.
//!
//! The functions here call `ikigai_core`; their contracts are taken on trust and each says
//! what it claims of the function it calls.

use vstd::prelude::*;

use ikigai_core::{AliasTable, Bindings};

use crate::card::{scopes_in_turn, ActionSpec, Description};
use crate::kernel::Verb;

verus! {

// ---------------------------------------------------------------------------
// IRIs.
// ---------------------------------------------------------------------------

/// Whether `ikigai_core::Iri::parse` accepts `text`.
pub uninterp spec fn iri_accepts(text: Seq<char>) -> bool;

/// Calls `ikigai_core::Iri::parse`, which validates a text as an absolute IRI. The verdict is
/// a function of the text; which texts are IRIs is not spelled out.
#[verifier::external_body]
pub(crate) fn iri_parses(text: &str) -> (r: bool)
    ensures
        r == iri_accepts(text@),
{
    ikigai_core::Iri::parse(text).is_ok()
}

// ---------------------------------------------------------------------------
// URI templates.
// ---------------------------------------------------------------------------

/// Whether `ikigai_core::UriTemplate::parse` accepts `pattern`.
pub uninterp spec fn template_accepts(pattern: Seq<char>) -> bool;

/// The variable names of the template `pattern`, in order of appearance.
pub uninterp spec fn template_names(pattern: Seq<char>) -> Seq<Seq<char>>;

/// The template `pattern` with its variables replaced by what `bound` holds for them.
pub uninterp spec fn template_expansion(
    pattern: Seq<char>,
    bound: Map<Seq<char>, Seq<char>>,
) -> Seq<char>;

/// Whether the template `pattern` matches the IRI `target`.
pub uninterp spec fn template_covers(pattern: Seq<char>, target: Seq<char>) -> bool;

/// Calls `ikigai_core::UriTemplate::parse`, which rejects malformed or ambiguous templates.
/// The verdict is a function of the pattern. A pattern without an opening brace has no
/// variable and is accepted.
#[verifier::external_body]
pub(crate) fn template_parses(pattern: &str) -> (r: bool)
    ensures
        r == template_accepts(pattern@),
        !pattern@.contains('{') ==> r,
{
    ikigai_core::UriTemplate::parse(pattern).is_ok()
}

/// Calls `ikigai_core::UriTemplate::variables`: the variable names of the template, in order
/// of appearance.
#[verifier::external_body]
pub(crate) fn template_variables(pattern: &str) -> (r: Vec<String>)
    requires
        template_accepts(pattern@),
    ensures
        r.deep_view() == template_names(pattern@),
{
    match ikigai_core::UriTemplate::parse(pattern) {
        Ok(template) => template.variables().map(|name| name.to_string()).collect(),
        Err(_) => Vec::new(),
    }
}

/// Calls `ikigai_core::UriTemplate::expand`: the pattern with each variable replaced by its
/// binding, or `None` exactly when some variable has no binding.
#[verifier::external_body]
pub(crate) fn template_expand(pattern: &str, bindings: &Bindings) -> (r: Option<String>)
    requires
        template_accepts(pattern@),
    ensures
        r is Some <==> forall|i: int|
            0 <= i < template_names(pattern@).len() ==> bindings_held(*bindings).contains_key(
                #[trigger] template_names(pattern@)[i],
            ),
        r matches Some(text) ==> text@ == template_expansion(pattern@, bindings_held(*bindings)),
{
    match ikigai_core::UriTemplate::parse(pattern) {
        Ok(template) => template.expand(bindings),
        Err(_) => None,
    }
}

/// Calls `Grammar::match_iri` of `ikigai_core::UriTemplate`: whether the template matches the
/// whole of the IRI. The verdict is a function of the two texts. A pattern without an opening
/// brace has no variable and matches only itself.
#[verifier::external_body]
pub(crate) fn template_matches(pattern: &str, target: &str) -> (r: bool)
    requires
        template_accepts(pattern@),
        iri_accepts(target@),
    ensures
        r == template_covers(pattern@, target@),
        !pattern@.contains('{') ==> r == (pattern@ == target@),
{
    match (ikigai_core::UriTemplate::parse(pattern), ikigai_core::Iri::parse(target)) {
        (Ok(template), Ok(iri)) => ikigai_core::Grammar::match_iri(&template, &iri).is_some(),
        _ => false,
    }
}

// ---------------------------------------------------------------------------
// Cards.
// ---------------------------------------------------------------------------

/// Calls `ikigai_core::Description::action_specs`, which gives one action for each declared
/// verb but `Meta`, in their order: the first action declared for the verb, else one made of
/// the flat fields. Only the scopes of the actions are read.
#[verifier::external_body]
pub(crate) fn action_scopes(card: &Description) -> (r: Vec<Vec<String>>)
    ensures
        r.deep_view() == scopes_in_turn(card@),
{
    let verb = |own: Verb| match own {
        Verb::Source => ikigai_core::Verb::Source,
        Verb::Sink => ikigai_core::Verb::Sink,
        Verb::Exists => ikigai_core::Verb::Exists,
        Verb::Delete => ikigai_core::Verb::Delete,
        Verb::Meta => ikigai_core::Verb::Meta,
    };
    let action = |own: &ActionSpec| ikigai_core::ActionSpec {
        requires: own.scopes.clone(), ..ikigai_core::ActionSpec::new(verb(own.verb)) };
    let mut kernel = ikigai_core::Description::new("");
    kernel.verbs = card.verbs.iter().map(|own| verb(*own)).collect();
    kernel.requires = card.scopes.clone();
    kernel.actions = card.actions.iter().map(action).collect();
    kernel.action_specs().into_iter().map(|spec| spec.requires).collect()
}

// ---------------------------------------------------------------------------
// Bindings.
// ---------------------------------------------------------------------------

/// `ikigai_core::Bindings`: values by variable name.
#[verifier::external_type_specification]
#[verifier::external_body]
pub struct ExBindings(ikigai_core::Bindings);

/// What a set of bindings holds: the value bound to each name.
pub uninterp spec fn bindings_held(bindings: Bindings) -> Map<Seq<char>, Seq<char>>;

/// No bindings at all.
pub open spec fn no_bindings() -> Map<Seq<char>, Seq<char>> {
    Map::empty()
}

/// `ikigai_core::Bindings::new` binds nothing.
pub assume_specification[ ikigai_core::Bindings::new ]() -> (r: ikigai_core::Bindings)
    ensures
        bindings_held(r) == no_bindings(),
;

/// `ikigai_core::Bindings::is_empty` says whether nothing is bound.
pub assume_specification[ ikigai_core::Bindings::is_empty ](bindings: &ikigai_core::Bindings) -> (r: bool)
    ensures
        r == (bindings_held(*bindings) == no_bindings()),
;

/// Calls `ikigai_core::Bindings::insert`, which binds `value` to `key` and leaves every other
/// binding as it was.
#[verifier::external_body]
pub(crate) fn bind(bindings: &mut Bindings, key: &str, value: &str)
    ensures
        bindings_held(*final(bindings)) == bindings_held(*old(bindings)).insert(key@, value@),
{
    bindings.insert(key, value)
}

// ---------------------------------------------------------------------------
// Alias tables.
// ---------------------------------------------------------------------------

/// `ikigai_core::AliasTable`: an ordered collection of rewrite rules and a bound on how many
/// of them one name may go through.
#[verifier::external_type_specification]
#[verifier::external_body]
pub struct ExAliasTable(ikigai_core::AliasTable);

/// The rules a table holds, most specific first: the keyword of each (`exact` or `prefix`),
/// the name it rewrites and the name it rewrites it to.
pub uninterp spec fn alias_rules(table: AliasTable) -> Seq<(Seq<char>, Seq<char>, Seq<char>)>;

/// The number of rewrites the table follows before it refuses a name.
pub uninterp spec fn alias_limit(table: AliasTable) -> nat;

/// What `ikigai_core::AliasTable::parse` reads in `text`: the rules and the limit, or the
/// number of the line it could not read and what was wrong with it. (A limit is read as a
/// `usize`: one that does not fit is a line that could not be read.)
pub uninterp spec fn alias_reading(text: Seq<char>) -> Result<
    (Seq<(Seq<char>, Seq<char>, Seq<char>)>, nat),
    (nat, Seq<char>),
>;

/// What `ikigai_core::AliasTable::canonicalize` makes of `target` in a table of these rules
/// and this limit: `None` where the name stands as given, `Ok` of the name it is rewritten to,
/// `Err` of the text of a refusal.
pub uninterp spec fn alias_walk(
    rules: Seq<(Seq<char>, Seq<char>, Seq<char>)>,
    limit: nat,
    target: Seq<char>,
) -> Option<Result<Seq<char>, Seq<char>>>;

/// Whether reading `text` gives exactly these rules and this limit.
pub open spec fn reads_as(
    text: Seq<char>,
    rules: Seq<(Seq<char>, Seq<char>, Seq<char>)>,
    limit: nat,
) -> bool {
    alias_reading(text) matches Ok((read, bound)) && read == rules && bound == limit
}

/// Whether `rule` applies to `target`: an exact rule to its own name, a prefix rule to every
/// name that starts with it.
pub open spec fn rule_applies(
    rule: (Seq<char>, Seq<char>, Seq<char>),
    target: Seq<char>,
) -> bool {
    if rule.0 == "exact"@ {
        target == rule.1
    } else {
        rule.1.is_prefix_of(target)
    }
}

/// Whether some rule of `rules` applies to `target`.
pub open spec fn some_rule_applies(
    rules: Seq<(Seq<char>, Seq<char>, Seq<char>)>,
    target: Seq<char>,
) -> bool {
    exists|i: int| 0 <= i < rules.len() && rule_applies(#[trigger] rules[i], target)
}

/// A decimal number, without leading zeros.
pub open spec fn decimal(n: nat) -> Seq<char>
    decreases n,
{
    if n < 10 {
        seq![(48 + n) as char]
    } else {
        decimal(n / 10).push((48 + n % 10) as char)
    }
}

/// The rules in the line-oriented form of an alias table, one line each.
pub open spec fn rule_lines(rules: Seq<(Seq<char>, Seq<char>, Seq<char>)>) -> Seq<char>
    decreases rules.len(),
{
    if rules.len() == 0 {
        Seq::empty()
    } else {
        rule_lines(rules.drop_last()) + rules.last().0 + " "@ + rules.last().1 + " "@
            + rules.last().2 + "\n"@
    }
}

/// The text form of an alias table: a line for the limit unless it is the usual 8, then the
/// rules.
pub open spec fn table_text(
    rules: Seq<(Seq<char>, Seq<char>, Seq<char>)>,
    limit: nat,
) -> Seq<char> {
    if limit == 8 {
        rule_lines(rules)
    } else {
        "max-hops "@ + decimal(limit) + "\n"@ + rule_lines(rules)
    }
}

/// The characters of the Unicode property `White_Space`.
pub open spec fn is_white_space(c: char) -> bool {
    ||| 0x9 <= c as u32 <= 0xd
    ||| c as u32 == 0x20
    ||| c as u32 == 0x85
    ||| c as u32 == 0xa0
    ||| c as u32 == 0x1680
    ||| 0x2000 <= c as u32 <= 0x200a
    ||| c as u32 == 0x2028
    ||| c as u32 == 0x2029
    ||| c as u32 == 0x202f
    ||| c as u32 == 0x205f
    ||| c as u32 == 0x3000
}

/// Whether `name` can be written as a field of a rule: an IRI with no white space and no `#`,
/// which would open a comment.
pub open spec fn writable_name(name: Seq<char>) -> bool {
    &&& iri_accepts(name)
    &&& forall|i: int| 0 <= i < name.len() ==> #[trigger] name[i] != '#' && !is_white_space(name[i])
}

/// Whether every name in `rules` can be written.
pub open spec fn writable_rules(rules: Seq<(Seq<char>, Seq<char>, Seq<char>)>) -> bool {
    forall|i: int|
        0 <= i < rules.len() ==> writable_name((#[trigger] rules[i]).1) && writable_name(rules[i].2)
}

/// Calls `ikigai_core::AliasTable::parse`. What it reads is a function of the text; of a table
/// that it accepts, each name is an IRI. An error carries the number of the line and what was
/// wrong with it.
#[verifier::external_body]
pub(crate) fn alias_parse(text: &str) -> (r: Result<AliasTable, (usize, String)>)
    ensures
        match r {
            Ok(table) => {
                &&& alias_reading(text@) matches Ok(read)
                &&& read == (alias_rules(table), alias_limit(table))
                &&& forall|i: int|
                    0 <= i < alias_rules(table).len() ==> iri_accepts(
                        (#[trigger] alias_rules(table)[i]).1,
                    ) && iri_accepts(alias_rules(table)[i].2)
            },
            Err(e) => {
                &&& alias_reading(text@) matches Err(failure)
                &&& failure == (e.0 as nat, e.1@)
            },
        },
{
    match AliasTable::parse(text) {
        Ok(table) => Ok(table),
        Err(error) => Err((error.line, error.detail)),
    }
}

/// `Display` of `ikigai_core::AliasParseError`: the line number, then what was wrong.
#[verifier::external_body]
pub(crate) fn alias_error_text(line: usize, detail: &str) -> (r: String)
    ensures
        r@ == "alias table line "@ + decimal(line as nat) + ": "@ + detail@,
{
    ikigai_core::AliasParseError { line, detail: detail.to_string() }.to_string()
}

/// `ikigai_core::AliasTable::to_text` renders a table in its text form, which `parse` reads
/// back to the same rules and limit wherever every name can be written in it.
pub assume_specification[ AliasTable::to_text ](table: &AliasTable) -> (r: String)
    ensures
        r@ == table_text(alias_rules(*table), alias_limit(*table)),
        writable_rules(alias_rules(*table)) ==> reads_as(
            r@,
            alias_rules(*table),
            alias_limit(*table),
        ),
;

/// Calls `ikigai_core::AliasTable::rules`: the rules the table holds, in their order.
#[verifier::external_body]
pub(crate) fn alias_table_rules(table: &AliasTable) -> (r: Vec<(String, String, String)>)
    ensures
        r.deep_view() == alias_rules(*table),
{
    table
        .rules()
        .iter()
        .map(
            |rule| {
                (
                    rule.kind().keyword().to_string(),
                    rule.from().to_string(),
                    rule.to().to_string(),
                )
            },
        )
        .collect()
}

/// Calls `ikigai_core::AliasTable::canonicalize`. The outcome is a function of the rules, the
/// limit and the name (the counters the call also bumps are no part of it). A name no rule
/// applies to stands as given, and so does every name of the kernel's own namespace. A name
/// that a target is rewritten to is an IRI, is not the target, starts with the right-hand side
/// of a rule (the last one applied), and stands as given itself.
#[verifier::external_body]
pub(crate) fn alias_canonicalize(table: &AliasTable, target: &str) -> (r: Option<
    Result<String, String>,
>)
    requires
        iri_accepts(target@),
    ensures
        match r {
            None => alias_walk(alias_rules(*table), alias_limit(*table), target@) is None,
            Some(Ok(name)) => {
                &&& alias_walk(alias_rules(*table), alias_limit(*table), target@) == Some(
                    Ok::<Seq<char>, Seq<char>>(name@),
                )
                &&& iri_accepts(name@)
                &&& name@ != target@
                &&& !some_rule_applies(alias_rules(*table), name@)
                &&& alias_walk(alias_rules(*table), alias_limit(*table), name@) is None
                &&& exists|i: int|
                    0 <= i < alias_rules(*table).len() && (#[trigger] alias_rules(
                        *table,
                    )[i]).2.is_prefix_of(name@)
            },
            Some(Err(refusal)) => alias_walk(
                alias_rules(*table),
                alias_limit(*table),
                target@,
            ) == Some(Err::<Seq<char>, Seq<char>>(refusal@)),
        },
        "urn:kernel:"@.is_prefix_of(target@) ==> r is None,
        !some_rule_applies(alias_rules(*table), target@) ==> r is None,
{
    match ikigai_core::Iri::parse(target) {
        Ok(iri) => match table.canonicalize(&iri) {
            ikigai_core::Canonical::Direct => None,
            ikigai_core::Canonical::Aliased(hop) => Some(Ok(hop.canonical().to_string())),
            ikigai_core::Canonical::Refused(refusal) => Some(Err(refusal.to_string())),
        },
        Err(_) => None,
    }
}

} // verus!
