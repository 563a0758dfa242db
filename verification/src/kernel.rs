//! The kernel's vocabulary as plain values: names, verbs, authority, results, failures.

use vstd::prelude::*;

use crate::named::ByName;
use crate::outside::{iri_accepts, iri_parses};
use crate::text::{
    copy_texts, holds_text, lemma_mentions, lemma_mentions_before, lemma_mentions_last, mentions,
    precedes, precedes_transitive, side_of, Side,
};

verus! {

// ---------------------------------------------------------------------------
// Names.
// ---------------------------------------------------------------------------

/// A validated absolute IRI.
#[derive(PartialEq, Eq, Debug)]
pub struct Iri {
    text: String,
}

impl View for Iri {
    type V = Seq<char>;

    closed spec fn view(&self) -> Seq<char> {
        self.text@
    }
}

impl DeepView for Iri {
    type V = Seq<char>;

    open spec fn deep_view(&self) -> Seq<char> {
        self@
    }
}

impl Iri {
    #[verifier::type_invariant]
    spec fn valid(&self) -> bool {
        iri_accepts(self.text@)
    }

    /// The IRI `text` is, if it is one.
    pub fn parse(text: &str) -> (r: Option<Iri>)
        ensures
            r is Some <==> iri_accepts(text@),
            r matches Some(iri) ==> iri@ == text@,
    {
        if iri_parses(text) {
            Some(Iri { text: text.to_owned() })
        } else {
            None
        }
    }

    /// The text of the IRI.
    pub fn as_str(&self) -> (r: &str)
        ensures
            r@ == self@,
            iri_accepts(self@),
    {
        proof {
            use_type_invariant(self);
        }
        self.text.as_str()
    }
}

impl Clone for Iri {
    fn clone(&self) -> (r: Self)
        ensures
            r@ == self@,
            iri_accepts(r@),
    {
        proof {
            use_type_invariant(self);
        }
        Iri { text: self.text.clone() }
    }
}

/// What a request does to its target.
#[derive(Clone, Copy, PartialEq, Eq, Debug, Structural)]
pub enum Verb {
    /// Read a resource's representation.
    Source,
    /// Write or replace a resource's representation.
    Sink,
    /// Test for a resource's existence.
    Exists,
    /// Remove a resource.
    Delete,
    /// Read a resource's self-description.
    Meta,
}

impl DeepView for Verb {
    type V = Verb;

    open spec fn deep_view(&self) -> Verb {
        *self
    }
}

/// How an argument's value is supplied.
#[derive(PartialEq, Eq, Debug)]
pub enum ArgRef {
    /// Another resource, by name.
    Reference(Iri),
    /// The value itself.
    Inline(Vec<u8>),
    /// An interned value, by the text of its content address.
    Content(String),
}

/// [`ArgRef`] as a value.
pub enum ArgRefView {
    /// Another resource, by name.
    Reference(Seq<char>),
    /// The value itself.
    Inline(Seq<u8>),
    /// An interned value, by the text of its content address.
    Content(Seq<char>),
}

impl DeepView for ArgRef {
    type V = ArgRefView;

    open spec fn deep_view(&self) -> ArgRefView {
        match self {
            ArgRef::Reference(iri) => ArgRefView::Reference(iri@),
            ArgRef::Inline(bytes) => ArgRefView::Inline(bytes@),
            ArgRef::Content(address) => ArgRefView::Content(address@),
        }
    }
}

impl Clone for ArgRef {
    fn clone(&self) -> (r: Self)
        ensures
            r.deep_view() == self.deep_view(),
    {
        match self {
            ArgRef::Reference(iri) => ArgRef::Reference(iri.clone()),
            ArgRef::Inline(bytes) => ArgRef::Inline(bytes.clone()),
            ArgRef::Content(address) => ArgRef::Content(address.clone()),
        }
    }
}

/// A verb applied to a target, with named arguments.
#[derive(PartialEq, Eq, Debug)]
pub struct Request {
    /// The verb.
    pub verb: Verb,
    /// The name of the resource.
    pub target: Iri,
    /// The arguments, each under its name.
    pub args: ByName<ArgRef>,
}

/// [`Request`] as a value.
#[verifier::ext_equal]
pub struct RequestView {
    /// The verb.
    pub verb: Verb,
    /// The name of the resource.
    pub target: Seq<char>,
    /// The arguments, each under its name.
    pub args: Map<Seq<char>, ArgRefView>,
}

impl View for Request {
    type V = RequestView;

    open spec fn view(&self) -> RequestView {
        RequestView { verb: self.verb, target: self.target@, args: self.args@ }
    }
}

impl Request {
    /// A request with no arguments.
    pub fn new(verb: Verb, target: Iri) -> (r: Request)
        ensures
            r@ == (RequestView { verb, target: target@, args: Map::empty() }),
    {
        Request { verb, target, args: ByName::new() }
    }
}

impl Clone for Request {
    fn clone(&self) -> (r: Self)
        ensures
            r@ == self@,
    {
        Request { verb: self.verb, target: self.target.clone(), args: self.args.clone() }
    }
}

/// One binding of a space: a pattern and the name of the endpoint bound to it.
#[derive(PartialEq, Eq, Debug)]
pub struct SpaceEntry {
    /// An exact IRI, or a URI template.
    pub pattern: String,
    /// The bound endpoint's name.
    pub endpoint: String,
    /// The mounted remote the binding came from, if it came from one.
    pub origin: Option<String>,
}

/// [`SpaceEntry`] as a value.
#[verifier::ext_equal]
pub struct SpaceEntryView {
    /// An exact IRI, or a URI template.
    pub pattern: Seq<char>,
    /// The bound endpoint's name.
    pub endpoint: Seq<char>,
    /// The mounted remote the binding came from, if it came from one.
    pub origin: Option<Seq<char>>,
}

impl View for SpaceEntry {
    type V = SpaceEntryView;

    open spec fn view(&self) -> SpaceEntryView {
        SpaceEntryView {
            pattern: self.pattern@,
            endpoint: self.endpoint@,
            origin: self.origin.deep_view(),
        }
    }
}

impl DeepView for SpaceEntry {
    type V = SpaceEntryView;

    open spec fn deep_view(&self) -> SpaceEntryView {
        self@
    }
}

impl SpaceEntry {
    /// A binding of this kernel's own.
    pub fn new(pattern: &str, endpoint: &str) -> (r: SpaceEntry)
        ensures
            r@ == local_entry(pattern@, endpoint@),
    {
        SpaceEntry { pattern: pattern.to_owned(), endpoint: endpoint.to_owned(), origin: None }
    }
}

/// The entry of a binding of this kernel's own.
pub open spec fn local_entry(pattern: Seq<char>, endpoint: Seq<char>) -> SpaceEntryView {
    SpaceEntryView { pattern, endpoint, origin: None }
}

impl Clone for SpaceEntry {
    fn clone(&self) -> (r: Self)
        ensures
            r == *self,
    {
        SpaceEntry {
            pattern: self.pattern.clone(),
            endpoint: self.endpoint.clone(),
            origin: match &self.origin {
                Some(origin) => Some(origin.clone()),
                None => None,
            },
        }
    }
}

/// The same bindings again.
pub fn copy_entries(entries: &Option<Vec<SpaceEntry>>) -> (r: Option<Vec<SpaceEntry>>)
    ensures
        r.deep_view() == entries.deep_view(),
{
    match entries {
        Some(entries) => {
            let copy = entries.clone();
            assert(copy.deep_view() =~= entries.deep_view());
            Some(copy)
        },
        None => None,
    }
}

// ---------------------------------------------------------------------------
// Authority.
// ---------------------------------------------------------------------------

/// Authority: everything, or exactly a set of scopes.
#[derive(Debug)]
pub struct Capability {
    scopes: Option<Vec<String>>,
}

impl View for Capability {
    type V = Option<Set<Seq<char>>>;

    /// The scopes held; `None` is full authority.
    closed spec fn view(&self) -> Option<Set<Seq<char>>> {
        match self.scopes {
            Some(scopes) => Some(scopes.deep_view().to_set()),
            None => None,
        }
    }
}

/// Whether the authority `held` includes `scope`.
pub open spec fn grants(held: Option<Set<Seq<char>>>, scope: Seq<char>) -> bool {
    held matches Some(scopes) ==> scopes.contains(scope)
}

/// The strongest authority that both `a` and `b` include.
pub open spec fn clamped(
    a: Option<Set<Seq<char>>>,
    b: Option<Set<Seq<char>>>,
) -> Option<Set<Seq<char>>> {
    match (a, b) {
        (None, _) => b,
        (_, None) => a,
        (Some(left), Some(right)) => Some(left.intersect(right)),
    }
}

impl Capability {
    /// Full authority.
    pub fn root() -> (r: Capability)
        ensures
            r@ is None,
    {
        Capability { scopes: None }
    }

    /// Exactly `scopes`.
    pub fn scoped(scopes: Vec<String>) -> (r: Capability)
        ensures
            r@ == Some(scopes.deep_view().to_set()),
    {
        Capability { scopes: Some(scopes) }
    }

    /// The scopes held, or `None` for full authority.
    pub fn scopes(&self) -> (r: Option<&Vec<String>>)
        ensures
            r is Some <==> self@ is Some,
            r matches Some(held) ==> self@ == Some(held.deep_view().to_set()),
    {
        match &self.scopes {
            Some(held) => Some(held),
            None => None,
        }
    }

    /// Whether this authority includes exactly `scope`.
    pub fn allows(&self, scope: &str) -> (r: bool)
        ensures
            r == grants(self@, scope@),
    {
        match &self.scopes {
            Some(held) => holds_text(held, scope),
            None => true,
        }
    }

    /// The strongest authority both this one and `carried` include.
    pub fn clamp(&self, carried: &Capability) -> (r: Capability)
        ensures
            r@ == clamped(self@, carried@),
    {
        match (&self.scopes, &carried.scopes) {
            (None, _) => carried.clone(),
            (_, None) => self.clone(),
            (Some(held), Some(asked)) => {
                let mut kept: Vec<String> = Vec::new();
                let mut i: usize = 0;
                while i < asked.len()
                    invariant
                        i <= asked.len(),
                        forall|j: int|
                            0 <= j < kept.len() ==> held.deep_view().contains(
                                #[trigger] kept.deep_view()[j],
                            ) && asked.deep_view().contains(kept.deep_view()[j]),
                        forall|j: int|
                            0 <= j < i && held.deep_view().contains(#[trigger] asked.deep_view()[j])
                                ==> kept.deep_view().contains(asked.deep_view()[j]),
                    decreases asked.len() - i,
                {
                    let ghost before = kept.deep_view();
                    assert(asked.deep_view()[i as int] == asked[i as int]@);
                    if holds_text(held, asked[i].as_str()) {
                        kept.push(asked[i].clone());
                        assert(kept.deep_view() =~= before.push(asked.deep_view()[i as int]));
                        proof {
                            assert forall|j: int|
                                0 <= j < i + 1 && held.deep_view().contains(
                                    #[trigger] asked.deep_view()[j],
                                ) implies kept.deep_view().contains(asked.deep_view()[j]) by {
                                if j < i {
                                    let k = choose|k: int|
                                        0 <= k < before.len() && before[k] == asked.deep_view()[j];
                                    assert(kept.deep_view()[k] == asked.deep_view()[j]);
                                } else {
                                    assert(kept.deep_view()[before.len() as int]
                                        == asked.deep_view()[j]);
                                }
                            }
                        }
                    }
                    i += 1;
                }
                proof {
                    let both = held.deep_view().to_set().intersect(asked.deep_view().to_set());
                    assert forall|s: Seq<char>|
                        kept.deep_view().to_set().contains(s) <==> #[trigger] both.contains(s) by {
                        if both.contains(s) {
                            let j = choose|j: int|
                                0 <= j < asked.deep_view().len() && asked.deep_view()[j] == s;
                            assert(kept.deep_view().contains(asked.deep_view()[j]));
                        }
                        if kept.deep_view().contains(s) {
                            let k = choose|k: int|
                                0 <= k < kept.deep_view().len() && kept.deep_view()[k] == s;
                            assert(held.deep_view().contains(kept.deep_view()[k]));
                        }
                    }
                    assert(kept.deep_view().to_set() =~= both);
                }
                Capability { scopes: Some(kept) }
            },
        }
    }
}

impl Clone for Capability {
    fn clone(&self) -> (r: Self)
        ensures
            r@ == self@,
    {
        match &self.scopes {
            Some(held) => Capability { scopes: Some(copy_texts(held)) },
            None => Capability { scopes: None },
        }
    }
}

// ---------------------------------------------------------------------------
// Results.
// ---------------------------------------------------------------------------

/// How long a result stays valid in a cache.
#[derive(Clone, Copy, PartialEq, Eq, Debug, Structural)]
pub enum Expiry {
    /// Never cached.
    Always,
    /// Cached until a deadline, in milliseconds since the Unix epoch.
    At(u64),
    /// Cached for good.
    Never,
}

/// The sooner-expiring of two expiries.
pub open spec fn sooner(a: Expiry, b: Expiry) -> Expiry {
    match (a, b) {
        (Expiry::Always, _) => Expiry::Always,
        (_, Expiry::Always) => Expiry::Always,
        (Expiry::Never, _) => b,
        (_, Expiry::Never) => a,
        (Expiry::At(s), Expiry::At(t)) => Expiry::At(if s <= t { s } else { t }),
    }
}

/// Whether `a` lets a cache keep a result no longer than `b` does.
pub open spec fn no_later(a: Expiry, b: Expiry) -> bool {
    match (a, b) {
        (Expiry::Always, _) => true,
        (_, Expiry::Never) => true,
        (Expiry::At(s), Expiry::At(t)) => s <= t,
        _ => false,
    }
}

impl Expiry {
    /// The sooner-expiring of the two.
    pub fn most_restrictive(self, other: Expiry) -> (r: Expiry)
        ensures
            r == sooner(self, other),
    {
        match (self, other) {
            (Expiry::Always, _) | (_, Expiry::Always) => Expiry::Always,
            (Expiry::At(s), Expiry::At(t)) => Expiry::At(if s <= t { s } else { t }),
            (Expiry::At(t), Expiry::Never) | (Expiry::Never, Expiry::At(t)) => Expiry::At(t),
            (Expiry::Never, Expiry::Never) => Expiry::Never,
        }
    }
}

/// Whether each of `names` comes before the next in dictionary order.
pub open spec fn ascending(names: Seq<Seq<char>>) -> bool {
    forall|i: int, j: int|
        0 <= i < j < names.len() ==> precedes(#[trigger] names[i], #[trigger] names[j])
}

/// A set of golden threads: the names of the state a cached result depends on.
#[derive(PartialEq, Eq, Debug)]
pub struct Threads {
    names: Vec<String>,
}

impl View for Threads {
    type V = Set<Seq<char>>;

    closed spec fn view(&self) -> Set<Seq<char>> {
        self.names.deep_view().to_set()
    }
}

impl Threads {
    #[verifier::type_invariant]
    spec fn sorted(&self) -> bool {
        ascending(self.names.deep_view())
    }

    /// No threads.
    pub fn new() -> (r: Threads)
        ensures
            r@ == Set::<Seq<char>>::empty(),
    {
        let r = Threads { names: Vec::new() };
        assert(r.names.deep_view().to_set() =~= Set::<Seq<char>>::empty());
        r
    }

    /// The names, each once, in dictionary order.
    pub fn names(&self) -> (r: &Vec<String>)
        ensures
            ascending(r.deep_view()),
            r.deep_view().to_set() == self@,
    {
        proof {
            use_type_invariant(self);
        }
        &self.names
    }

    /// The same threads and `name`.
    pub fn with(self, name: &str) -> (r: Threads)
        ensures
            r@ == self@.insert(name@),
    {
        proof {
            use_type_invariant(&self);
        }
        let mut names = self.names;
        let ghost before = names.deep_view();
        let mut at: usize = 0;
        while at < names.len()
            invariant
                at <= names.len(),
                before == names.deep_view(),
                before.to_set() == self@,
                ascending(before),
                forall|j: int| 0 <= j < at ==> precedes(#[trigger] before[j], name@),
            ensures
                at < names.len() ==> precedes(name@, before[at as int]),
            decreases names.len() - at,
        {
            assert(before[at as int] == names[at as int]@);
            match side_of(names[at].as_str(), name) {
                Side::Before => {},
                Side::Same => {
                    assert(before.to_set().contains(name@));
                    assert(before.to_set() =~= before.to_set().insert(name@));
                    return Threads { names };
                },
                Side::After => {
                    break;
                },
            }
            at += 1;
        }
        proof {
            if at < before.len() {
                assert forall|j: int| at <= j < before.len() implies precedes(
                    name@,
                    #[trigger] before[j],
                ) by {
                    if j > at {
                        precedes_transitive(name@, before[at as int], before[j]);
                    }
                }
            }
        }
        names.insert(at, name.to_owned());
        proof {
            let after = names.deep_view();
            assert(after =~= before.insert(at as int, name@));
            assert forall|i: int, j: int| 0 <= i < j < after.len() implies precedes(
                #[trigger] after[i],
                #[trigger] after[j],
            ) by {
                if i < at && j > at {
                    assert(after[i] == before[i] && after[j] == before[j - 1]);
                } else if i == at {
                    assert(after[j] == before[j - 1]);
                } else if j == at {
                    assert(after[i] == before[i]);
                } else if i > at {
                    assert(after[i] == before[i - 1] && after[j] == before[j - 1]);
                } else {
                    assert(after[i] == before[i] && after[j] == before[j]);
                }
            }
            lemma_insert_to_set(before, at as int, name@);
        }
        Threads { names }
    }

    /// The same threads and all of `names`.
    pub fn with_all(self, names: &Vec<String>) -> (r: Threads)
        ensures
            r@ == self@.union(names.deep_view().to_set()),
    {
        let ghost start = self@;
        let ghost all = names.deep_view();
        let mut r = self;
        let mut i: usize = 0;
        while i < names.len()
            invariant
                i <= names.len(),
                all == names.deep_view(),
                r@ == start.union(all.take(i as int).to_set()),
            decreases names.len() - i,
        {
            r = r.with(names[i].as_str());
            proof {
                assert(all.take(i + 1) =~= all.take(i as int).insert(i as int, all[i as int]));
                lemma_insert_to_set(all.take(i as int), i as int, all[i as int]);
                assert(start.union(all.take(i as int).to_set()).insert(all[i as int])
                    =~= start.union(all.take(i + 1).to_set()));
            }
            i += 1;
        }
        assert(all.take(i as int) == all);
        r
    }
}

/// Inserting an element into a sequence inserts it into the set of its elements.
proof fn lemma_insert_to_set(s: Seq<Seq<char>>, at: int, x: Seq<char>)
    requires
        0 <= at <= s.len(),
    ensures
        s.insert(at, x).to_set() == s.to_set().insert(x),
{
    let t = s.insert(at, x);
    assert forall|y: Seq<char>| t.to_set().contains(y) <==> s.to_set().insert(x).contains(y) by {
        if t.contains(y) {
            let k = choose|k: int| 0 <= k < t.len() && t[k] == y;
            if k < at {
                assert(s[k] == y);
            } else if k > at {
                assert(s[k - 1] == y);
            }
        }
        if s.contains(y) {
            let k = choose|k: int| 0 <= k < s.len() && s[k] == y;
            if k < at {
                assert(t[k] == y);
            } else {
                assert(t[k + 1] == y);
            }
        }
        assert(t[at] == x);
    }
    assert(t.to_set() =~= s.to_set().insert(x));
}

impl Clone for Threads {
    fn clone(&self) -> (r: Self)
        ensures
            r@ == self@,
    {
        proof {
            use_type_invariant(self);
        }
        Threads { names: copy_texts(&self.names) }
    }
}

/// A media type with its parameters.
#[derive(PartialEq, Eq, Debug)]
pub struct ReprType {
    /// The media type.
    pub media_type: String,
    /// The parameters, each under its key.
    pub params: ByName<String>,
}

impl Clone for ReprType {
    fn clone(&self) -> (r: Self)
        ensures
            r.media_type@ == self.media_type@,
            r.params@ == self.params@,
    {
        ReprType { media_type: self.media_type.clone(), params: self.params.clone() }
    }
}

impl ReprType {
    /// A media type with no parameters.
    pub fn new(media_type: &str) -> (r: ReprType)
        ensures
            r.media_type@ == media_type@,
            r.params@ == Map::<Seq<char>, Seq<char>>::empty(),
    {
        ReprType { media_type: media_type.to_owned(), params: ByName::new() }
    }
}

/// A typed value an endpoint produced.
#[derive(Debug)]
pub struct Representation {
    /// Its type.
    pub repr_type: ReprType,
    /// Its bytes.
    pub bytes: Vec<u8>,
    /// How long a cache may keep it.
    pub expiry: Expiry,
    /// The state it depends on.
    pub threads: Threads,
}

/// [`Representation`] as a value.
#[verifier::ext_equal]
pub struct RepresentationView {
    /// Its media type.
    pub media_type: Seq<char>,
    /// The parameters of its type, each under its key.
    pub params: Map<Seq<char>, Seq<char>>,
    /// Its bytes.
    pub bytes: Seq<u8>,
    /// How long a cache may keep it.
    pub expiry: Expiry,
    /// The state it depends on.
    pub threads: Set<Seq<char>>,
}

impl View for Representation {
    type V = RepresentationView;

    open spec fn view(&self) -> RepresentationView {
        RepresentationView {
            media_type: self.repr_type.media_type@,
            params: self.repr_type.params@,
            bytes: self.bytes@,
            expiry: self.expiry,
            threads: self.threads@,
        }
    }
}

impl DeepView for Representation {
    type V = RepresentationView;

    open spec fn deep_view(&self) -> RepresentationView {
        self@
    }
}

impl Clone for Representation {
    fn clone(&self) -> (r: Self)
        ensures
            r@ == self@,
    {
        Representation {
            repr_type: self.repr_type.clone(),
            bytes: self.bytes.clone(),
            expiry: self.expiry,
            threads: self.threads.clone(),
        }
    }
}

impl Representation {
    /// A result that no cache keeps and that depends on nothing.
    pub fn new(repr_type: ReprType, bytes: Vec<u8>) -> (r: Representation)
        ensures
            r@ == (RepresentationView {
                media_type: repr_type.media_type@,
                params: repr_type.params@,
                bytes: bytes@,
                expiry: Expiry::Always,
                threads: Set::empty(),
            }),
    {
        Representation { repr_type, bytes, expiry: Expiry::Always, threads: Threads::new() }
    }

    /// The same result, kept as long as `expiry` says.
    pub fn with_expiry(self, expiry: Expiry) -> (r: Representation)
        ensures
            r@ == (RepresentationView { expiry, ..self@ }),
    {
        Representation { expiry, ..self }
    }

    /// The same result, depending on `thread` as well.
    pub fn depends_on(self, thread: &str) -> (r: Representation)
        ensures
            r@ == (RepresentationView { threads: self@.threads.insert(thread@), ..self@ }),
    {
        let Representation { repr_type, bytes, expiry, threads } = self;
        Representation { repr_type, bytes, expiry, threads: threads.with(thread) }
    }

    /// The same result, depending on each of `threads` as well.
    pub fn depends_on_all(self, threads: &Vec<String>) -> (r: Representation)
        ensures
            r@ == (RepresentationView {
                threads: self@.threads.union(threads.deep_view().to_set()),
                ..self@
            }),
    {
        let Representation { repr_type, bytes, expiry, threads: own } = self;
        Representation { repr_type, bytes, expiry, threads: own.with_all(threads) }
    }
}

// ---------------------------------------------------------------------------
// Failures.
// ---------------------------------------------------------------------------

/// Why a resolution or an invocation failed.
#[derive(PartialEq, Eq, Debug)]
pub enum Error {
    /// Nothing is bound to the target.
    Unresolved(Iri),
    /// A required argument was absent.
    MissingArgument(String),
    /// An argument was present but unusable.
    InvalidArgument {
        /// The argument's name.
        name: String,
        /// What was wrong with it.
        detail: String,
    },
    /// An endpoint failed while producing its result.
    Endpoint(String),
    /// The authority held does not allow it.
    Denied(String),
    /// A bound endpoint reports the thing it fronts absent.
    NotFound(String),
    /// It took too long.
    Timeout(String),
    /// Something it depends on is down.
    Unavailable(String),
}

/// [`Error`] as a value.
pub enum ErrorView {
    /// Nothing is bound to the target.
    Unresolved(Seq<char>),
    /// A required argument was absent.
    MissingArgument(Seq<char>),
    /// An argument was present but unusable.
    InvalidArgument(Seq<char>, Seq<char>),
    /// An endpoint failed while producing its result.
    Endpoint(Seq<char>),
    /// The authority held does not allow it.
    Denied(Seq<char>),
    /// A bound endpoint reports the thing it fronts absent.
    NotFound(Seq<char>),
    /// It took too long.
    Timeout(Seq<char>),
    /// Something it depends on is down.
    Unavailable(Seq<char>),
}

impl View for Error {
    type V = ErrorView;

    open spec fn view(&self) -> ErrorView {
        match self {
            Error::Unresolved(iri) => ErrorView::Unresolved(iri@),
            Error::MissingArgument(name) => ErrorView::MissingArgument(name@),
            Error::InvalidArgument { name, detail } => ErrorView::InvalidArgument(name@, detail@),
            Error::Endpoint(message) => ErrorView::Endpoint(message@),
            Error::Denied(message) => ErrorView::Denied(message@),
            Error::NotFound(message) => ErrorView::NotFound(message@),
            Error::Timeout(message) => ErrorView::Timeout(message@),
            Error::Unavailable(message) => ErrorView::Unavailable(message@),
        }
    }
}

impl DeepView for Error {
    type V = ErrorView;

    open spec fn deep_view(&self) -> ErrorView {
        self@
    }
}

/// Whether doing it again might succeed.
pub open spec fn transient(error: ErrorView) -> bool {
    error is Timeout || error is Unavailable
}

/// A failure as the operator reads it.
pub open spec fn error_text(error: ErrorView) -> Seq<char> {
    match error {
        ErrorView::Unresolved(iri) => "no endpoint resolved for "@ + iri,
        ErrorView::MissingArgument(name) => "missing required argument `"@ + name + "`"@,
        ErrorView::InvalidArgument(name, detail) => "invalid argument `"@ + name + "`: "@ + detail,
        ErrorView::Endpoint(message) => "endpoint error: "@ + message,
        ErrorView::Denied(message) => "denied: "@ + message,
        ErrorView::NotFound(message) => "not found: "@ + message,
        ErrorView::Timeout(message) => "timeout: "@ + message,
        ErrorView::Unavailable(message) => "unavailable: "@ + message,
    }
}

/// `lead`, then `rest`.
fn led(lead: &str, rest: &str) -> (r: String)
    ensures
        r@ == lead@ + rest@,
{
    let mut text = lead.to_owned();
    text.append(rest);
    text
}

impl Error {
    /// The failure as the operator reads it.
    pub fn text(&self) -> (r: String)
        ensures
            r@ == error_text(self@),
    {
        match self {
            Error::Unresolved(iri) => led("no endpoint resolved for ", iri.as_str()),
            Error::MissingArgument(name) => {
                let mut text = led("missing required argument `", name.as_str());
                text.append("`");
                text
            },
            Error::InvalidArgument { name, detail } => {
                let mut text = led("invalid argument `", name.as_str());
                text.append("`: ");
                text.append(detail.as_str());
                text
            },
            Error::Endpoint(message) => led("endpoint error: ", message.as_str()),
            Error::Denied(message) => led("denied: ", message.as_str()),
            Error::NotFound(message) => led("not found: ", message.as_str()),
            Error::Timeout(message) => led("timeout: ", message.as_str()),
            Error::Unavailable(message) => led("unavailable: ", message.as_str()),
        }
    }

    /// Whether doing it again might succeed: only after a timeout or an unavailability.
    pub fn is_transient(&self) -> (r: bool)
        ensures
            r == transient(self@),
    {
        matches!(self, Error::Timeout(_) | Error::Unavailable(_))
    }
}

// ---------------------------------------------------------------------------
// Laws.
// ---------------------------------------------------------------------------

/// An IRI is the very text it was read from, and only what is an IRI is read as one.
pub proof fn law_an_iri_is_its_text(text: &str, r: Option<Iri>)
    requires
        call_ensures(Iri::parse, (text,), r),
    ensures
        r is Some <==> iri_accepts(text@),
        r matches Some(iri) ==> iri@ == text@,
{
}

/// Full authority includes every scope; a scoped one exactly the scopes it was made of.
pub proof fn law_authority_is_what_it_was_made_of(
    root: Capability,
    scopes: Vec<String>,
    scoped: Capability,
    scope: Seq<char>,
)
    requires
        call_ensures(Capability::root, (), root),
        call_ensures(Capability::scoped, (scopes,), scoped),
    ensures
        grants(root@, scope),
        grants(scoped@, scope) <==> scopes.deep_view().contains(scope),
{
}

/// An authority allows exactly what it includes, and a clamped one exactly what both of the
/// two it was made of include.
pub proof fn law_a_clamped_authority_is_what_both_include(
    ceiling: &Capability,
    carried: &Capability,
    clamp: Capability,
    scope: &str,
    left: bool,
    right: bool,
    both: bool,
)
    requires
        call_ensures(Capability::clamp, (ceiling, carried), clamp),
        call_ensures(Capability::allows, (ceiling, scope), left),
        call_ensures(Capability::allows, (carried, scope), right),
        call_ensures(Capability::allows, (&clamp, scope), both),
    ensures
        both <==> left && right,
        left <==> grants(ceiling@, scope@),
{
}

/// Expiries are ordered by how long a cache may keep a result: not at all, up to each deadline
/// in turn, for good.
pub proof fn law_expiries_are_ordered(a: Expiry, s: u64, t: u64)
    ensures
        no_later(Expiry::Always, a),
        no_later(a, Expiry::Never),
        no_later(Expiry::At(s), Expiry::At(t)) <==> s <= t,
        !no_later(Expiry::At(s), Expiry::Always),
        !no_later(Expiry::Never, Expiry::At(s)),
        !no_later(Expiry::Never, Expiry::Always),
{
}

/// The more restrictive of two expiries is one of them, and neither lets a result be kept for
/// less long.
pub proof fn law_the_more_restrictive_is_one_of_the_two(a: Expiry, b: Expiry, r: Expiry)
    requires
        call_ensures(Expiry::most_restrictive, (a, b), r),
    ensures
        r == a || r == b,
        no_later(r, a),
        no_later(r, b),
{
}

/// A result starts uncached and depending on nothing, with the type and bytes it was given.
pub proof fn law_a_result_is_what_it_was_given(
    repr_type: ReprType,
    bytes: Vec<u8>,
    r: Representation,
)
    requires
        call_ensures(Representation::new, (repr_type, bytes), r),
    ensures
        r@.media_type == repr_type.media_type@,
        r@.params == repr_type.params@,
        r@.bytes == bytes@,
        r@.expiry is Always,
        forall|thread: Seq<char>| !r@.threads.contains(thread),
{
}

/// What is said of a result's expiry or of what it depends on changes only that, and threads
/// are only ever added.
pub proof fn law_saying_more_of_a_result_changes_only_that(
    result: Representation,
    expiry: Expiry,
    thread: &str,
    threads: &Vec<String>,
    expiring: Representation,
    depending: Representation,
    on_all: Representation,
    name: Seq<char>,
)
    requires
        call_ensures(Representation::with_expiry, (result, expiry), expiring),
        call_ensures(Representation::depends_on, (result, thread), depending),
        call_ensures(Representation::depends_on_all, (result, threads), on_all),
    ensures
        expiring@ == (RepresentationView { expiry, ..result@ }),
        depending@ == (RepresentationView { threads: depending@.threads, ..result@ }),
        depending@.threads.contains(name) <==> result@.threads.contains(name) || name == thread@,
        on_all@ == (RepresentationView { threads: on_all@.threads, ..result@ }),
        on_all@.threads.contains(name) <==> result@.threads.contains(name)
            || threads.deep_view().contains(name),
{
}

/// Threads are read back as they were put in: each once, in dictionary order, and no other.
pub proof fn law_threads_are_read_back(
    before: Threads,
    name: &str,
    after: Threads,
    read: &Vec<String>,
    other: Seq<char>,
)
    requires
        call_ensures(Threads::with, (before, name), after),
        call_ensures(Threads::names, (&after,), read),
    ensures
        read.deep_view().contains(other) <==> before@.contains(other) || other == name@,
        forall|i: int, j: int|
            0 <= i < j < read.deep_view().len() ==> precedes(
                #[trigger] read.deep_view()[i],
                #[trigger] read.deep_view()[j],
            ),
{
    assert(read.deep_view().to_set().contains(other) <==> after@.contains(other));
}

/// A request starts without arguments, and a binding of the kernel's own comes from nowhere
/// else.
pub proof fn law_what_is_new_says_no_more_than_it_was_given(
    verb: Verb,
    target: Iri,
    request: Request,
    pattern: &str,
    endpoint: &str,
    entry: SpaceEntry,
)
    requires
        call_ensures(Request::new, (verb, target), request),
        call_ensures(SpaceEntry::new, (pattern, endpoint), entry),
    ensures
        request@.verb == verb,
        request@.target == target@,
        forall|name: Seq<char>| !request@.args.contains_key(name),
        entry@.pattern == pattern@,
        entry@.endpoint == endpoint@,
        entry@.origin is None,
{
}

/// Whatever a failure carries stands in its text.
pub proof fn law_a_failure_says_what_it_carries(error: &Error, r: String)
    requires
        call_ensures(Error::text, (error,), r),
    ensures
        match error@ {
            ErrorView::Unresolved(detail) => mentions(r@, detail),
            ErrorView::MissingArgument(detail) => mentions(r@, detail),
            ErrorView::InvalidArgument(name, detail) => mentions(r@, name) && mentions(r@, detail),
            ErrorView::Endpoint(detail) => mentions(r@, detail),
            ErrorView::Denied(detail) => mentions(r@, detail),
            ErrorView::NotFound(detail) => mentions(r@, detail),
            ErrorView::Timeout(detail) => mentions(r@, detail),
            ErrorView::Unavailable(detail) => mentions(r@, detail),
        },
{
    match error@ {
        ErrorView::Unresolved(detail) => lemma_mentions_last("no endpoint resolved for "@, detail),
        ErrorView::MissingArgument(detail) => lemma_mentions(
            "missing required argument `"@,
            detail,
            "`"@,
        ),
        ErrorView::InvalidArgument(name, detail) => {
            lemma_mentions("invalid argument `"@, name, "`: "@);
            lemma_mentions_before("invalid argument `"@ + name + "`: "@, name, detail);
            lemma_mentions_last("invalid argument `"@ + name + "`: "@, detail);
        },
        ErrorView::Endpoint(detail) => lemma_mentions_last("endpoint error: "@, detail),
        ErrorView::Denied(detail) => lemma_mentions_last("denied: "@, detail),
        ErrorView::NotFound(detail) => lemma_mentions_last("not found: "@, detail),
        ErrorView::Timeout(detail) => lemma_mentions_last("timeout: "@, detail),
        ErrorView::Unavailable(detail) => lemma_mentions_last("unavailable: "@, detail),
    }
}

/// Only what took too long or was down is worth another try.
pub proof fn law_only_a_passing_failure_is_transient(error: &Error, r: bool)
    requires
        call_ensures(Error::is_transient, (error,), r),
    ensures
        r <==> (error@ is Timeout || error@ is Unavailable),
        r == transient(error@),
{
}

/// A copied argument is supplied the same way, with the same value.
pub proof fn law_a_copied_argument_holds_the_same(given: &ArgRef, r: ArgRef)
    requires
        call_ensures(<ArgRef as Clone>::clone, (given,), r),
    ensures
        match (*given, r) {
            (ArgRef::Reference(a), ArgRef::Reference(b)) => a@ == b@,
            (ArgRef::Inline(a), ArgRef::Inline(b)) => a@ == b@,
            (ArgRef::Content(a), ArgRef::Content(b)) => a@ == b@,
            _ => false,
        },
{
}

/// A copied request, result or binding holds all that the copied one does.
pub proof fn law_a_copy_holds_the_same(
    request: &Request,
    request_copy: Request,
    result: &Representation,
    result_copy: Representation,
    entry: &SpaceEntry,
    entry_copy: SpaceEntry,
)
    requires
        call_ensures(<Request as Clone>::clone, (request,), request_copy),
        call_ensures(<Representation as Clone>::clone, (result,), result_copy),
        call_ensures(<SpaceEntry as Clone>::clone, (entry,), entry_copy),
    ensures
        request_copy.verb == request.verb,
        request_copy.target@ == request.target@,
        request_copy.args@ == request.args@,
        result_copy.repr_type.media_type@ == result.repr_type.media_type@,
        result_copy.repr_type.params@ == result.repr_type.params@,
        result_copy.bytes@ == result.bytes@,
        result_copy.expiry == result.expiry,
        result_copy.threads@ == result.threads@,
        entry_copy.pattern@ == entry.pattern@,
        entry_copy.endpoint@ == entry.endpoint@,
        entry_copy.origin is Some <==> entry.origin is Some,
        entry.origin is Some ==> entry_copy.origin->0@ == entry.origin->0@,
{
    assert(request_copy@ == request@);
    assert(result_copy@ == result@);
}

/// Two failures that are the same value are the same failure, and carry the same.
pub proof fn law_a_failure_is_all_that_it_carries(a: Error, b: Error)
    requires
        a@ == b@,
    ensures
        match (a, b) {
            (Error::Unresolved(x), Error::Unresolved(y)) => x@ == y@,
            (Error::MissingArgument(x), Error::MissingArgument(y)) => x@ == y@,
            (
                Error::InvalidArgument { name: m, detail: x },
                Error::InvalidArgument { name: n, detail: y },
            ) => m@ == n@ && x@ == y@,
            (Error::Endpoint(x), Error::Endpoint(y)) => x@ == y@,
            (Error::Denied(x), Error::Denied(y)) => x@ == y@,
            (Error::NotFound(x), Error::NotFound(y)) => x@ == y@,
            (Error::Timeout(x), Error::Timeout(y)) => x@ == y@,
            (Error::Unavailable(x), Error::Unavailable(y)) => x@ == y@,
            _ => false,
        },
{
}

/// Of an authority one reads exactly the scopes it includes, and that there are none to read
/// exactly where it includes everything.
pub proof fn law_an_authority_is_read_as_it_is(
    capability: &Capability,
    r: Option<&Vec<String>>,
    scope: Seq<char>,
)
    requires
        call_ensures(Capability::scopes, (capability,), r),
    ensures
        grants(capability@, scope) <==> (r is Some ==> r->0.deep_view().contains(scope)),
        r is None <==> capability@ is None,
{
    if r is Some {
        assert(r->0.deep_view().to_set().contains(scope) <==> r->0.deep_view().contains(scope));
    }
}

/// At first there are no threads, and adding several adds each and no other; a new type has its
/// media type and no parameters.
pub proof fn law_threads_and_types_start_bare(
    fresh: Threads,
    before: Threads,
    names: &Vec<String>,
    after: Threads,
    media_type: &str,
    repr_type: ReprType,
    name: Seq<char>,
)
    requires
        call_ensures(Threads::new, (), fresh),
        call_ensures(Threads::with_all, (before, names), after),
        call_ensures(ReprType::new, (media_type,), repr_type),
    ensures
        !fresh@.contains(name),
        after@.contains(name) <==> before@.contains(name) || names.deep_view().contains(name),
        repr_type.media_type@ == media_type@,
        !repr_type.params@.contains_key(name),
{
}

} // verus!
