//! What a result computed over callbacks depends on.
//!
//! Where callbacks reach the host apart from the call that caused them, each invocation in
//! flight has a sink; every callback served is recorded in all of them, and what an invocation
//! collected is folded into its result.

use vstd::prelude::*;

use crate::kernel::{
    no_later, sooner, Error, ErrorView, Expiry, Representation, RepresentationView, Threads,
};
use crate::session::received_reply;
use crate::wire::{
    answer_for, host_answer, outcome, outcome_from, outcome_of, ModuleCall, ModuleReply,
};

verus! {

/// What one invocation's callbacks depended on.
#[derive(Debug)]
pub struct DepSink {
    /// The golden threads of everything resolved.
    pub threads: Threads,
    /// The soonest expiry of anything resolved, if anything was.
    pub expiry: Option<Expiry>,
}

/// [`DepSink`] as a value.
#[verifier::ext_equal]
pub struct DepSinkView {
    /// The golden threads of everything resolved.
    pub threads: Set<Seq<char>>,
    /// The soonest expiry of anything resolved, if anything was.
    pub expiry: Option<Expiry>,
}

impl View for DepSink {
    type V = DepSinkView;

    open spec fn view(&self) -> DepSinkView {
        DepSinkView { threads: self.threads@, expiry: self.expiry }
    }
}

impl DeepView for DepSink {
    type V = DepSinkView;

    open spec fn deep_view(&self) -> DepSinkView {
        self@
    }
}

/// The sink nothing was recorded in.
pub open spec fn empty_sink() -> DepSinkView {
    DepSinkView { threads: Set::empty(), expiry: None }
}

/// `sink` once `resolved` is recorded in it.
pub open spec fn recorded(sink: DepSinkView, resolved: RepresentationView) -> DepSinkView {
    DepSinkView {
        threads: sink.threads.union(resolved.threads),
        expiry: Some(
            match sink.expiry {
                Some(expiry) => sooner(expiry, resolved.expiry),
                None => resolved.expiry,
            },
        ),
    }
}

/// `result` as it depends on what `sink` collected.
pub open spec fn folded(result: RepresentationView, sink: DepSinkView) -> RepresentationView {
    RepresentationView {
        expiry: match sink.expiry {
            Some(expiry) => sooner(result.expiry, expiry),
            None => result.expiry,
        },
        threads: result.threads.union(sink.threads),
        ..result
    }
}

impl Default for DepSink {
    fn default() -> (r: Self)
        ensures
            r@ == empty_sink(),
    {
        DepSink { threads: Threads::new(), expiry: None }
    }
}

impl DepSink {
    /// Records that `representation` was resolved.
    pub fn record(&mut self, representation: &Representation)
        ensures
            final(self)@ == recorded(old(self)@, representation@),
    {
        self.expiry = Some(
            match self.expiry {
                Some(expiry) => expiry.most_restrictive(representation.expiry),
                None => representation.expiry,
            },
        );
        let own = self.threads.clone();
        self.threads = own.with_all(representation.threads.names());
    }

    /// `representation` no more cacheable than anything recorded, and depending on all of it.
    pub fn fold_into(&self, representation: Representation) -> (r: Representation)
        ensures
            r@ == folded(representation@, self@),
    {
        let expiry = match self.expiry {
            Some(expiry) => representation.expiry.most_restrictive(expiry),
            None => representation.expiry,
        };
        representation.with_expiry(expiry).depends_on_all(self.threads.names())
    }
}

/// An outcome as it depends on what `sink` collected: a failure is left as it is.
pub open spec fn outcome_over(
    result: Result<RepresentationView, ErrorView>,
    sink: DepSinkView,
) -> Result<RepresentationView, ErrorView> {
    match result {
        Ok(representation) => Ok(folded(representation, sink)),
        Err(error) => Err(error),
    }
}

/// What a module's final reply means, given what its callbacks depended on.
pub fn outcome_with(reply: ModuleReply, collected: &DepSink) -> (r: Result<Representation, Error>)
    ensures
        outcome(r) == outcome_over(outcome_of(reply@), collected@),
{
    match outcome_from(reply) {
        Ok(representation) => Ok(collected.fold_into(representation)),
        Err(error) => Err(error),
    }
}

/// The sinks of the invocations in flight, each under its number.
#[derive(Debug)]
pub struct DepSinks {
    /// The number of the next one.
    pub next: u64,
    /// Those in flight, oldest first.
    pub sinks: Vec<(u64, DepSink)>,
}

/// [`DepSinks`] as a value.
#[verifier::ext_equal]
pub struct DepSinksView {
    /// The number of the next one.
    pub next: u64,
    /// Those in flight, oldest first.
    pub sinks: Seq<(u64, DepSinkView)>,
}

impl View for DepSinks {
    type V = DepSinksView;

    open spec fn view(&self) -> DepSinksView {
        DepSinksView { next: self.next, sinks: self.sinks.deep_view() }
    }
}

/// The number after `n`; after the last one comes zero.
pub open spec fn number_after(n: u64) -> u64 {
    if n == u64::MAX {
        0
    } else {
        (n + 1) as u64
    }
}

/// `all` with one sink more, under the next number.
pub open spec fn with_new_sink(all: DepSinksView) -> DepSinksView {
    DepSinksView {
        next: number_after(all.next),
        sinks: all.sinks.push((all.next, empty_sink())),
    }
}

/// Where the oldest sink under `id` stands; past the end if there is none.
pub open spec fn place_of(sinks: Seq<(u64, DepSinkView)>, id: u64) -> int
    decreases sinks.len(),
{
    if sinks.len() == 0 {
        0
    } else if sinks[0].0 == id {
        0
    } else {
        1 + place_of(sinks.drop_first(), id)
    }
}

/// What the sink under `id` collected: nothing, if there is none.
pub open spec fn sink_under(all: DepSinksView, id: u64) -> DepSinkView {
    if place_of(all.sinks, id) < all.sinks.len() {
        all.sinks[place_of(all.sinks, id)].1
    } else {
        empty_sink()
    }
}

/// `all` without the sink under `id`.
pub open spec fn without_sink(all: DepSinksView, id: u64) -> DepSinksView {
    if place_of(all.sinks, id) < all.sinks.len() {
        DepSinksView { sinks: all.sinks.remove(place_of(all.sinks, id)), ..all }
    } else {
        all
    }
}

/// `all` once `resolved` is recorded in every sink.
pub open spec fn recorded_in_all(all: DepSinksView, resolved: RepresentationView) -> DepSinksView {
    DepSinksView {
        sinks: Seq::new(
            all.sinks.len(),
            |i: int| (all.sinks[i].0, recorded(all.sinks[i].1, resolved)),
        ),
        ..all
    }
}

impl DepSinks {
    /// No invocation in flight.
    pub fn new() -> (r: Self)
        ensures
            r@ == (DepSinksView { next: 0, sinks: Seq::empty() }),
    {
        let r = DepSinks { next: 0, sinks: Vec::new() };
        assert(r.sinks.deep_view() =~= Seq::empty());
        r
    }

    /// Opens a sink for an invocation, and gives its number.
    pub fn install_sink(&mut self) -> (id: u64)
        ensures
            id == old(self)@.next,
            final(self)@ == with_new_sink(old(self)@),
    {
        let id: u64 = self.next;
        self.next = if id == u64::MAX { 0 } else { id + 1 };
        let ghost before = self.sinks.deep_view();
        let sink = DepSink::default();
        self.sinks.push((id, sink));
        assert(self.sinks.deep_view() =~= before.push((id, sink@)));
        id
    }

    /// Closes the sink under `id` and gives what it collected.
    pub fn take_sink(&mut self, id: u64) -> (r: DepSink)
        ensures
            r@ == sink_under(old(self)@, id),
            final(self)@ == without_sink(old(self)@, id),
    {
        let ghost all = self.sinks.deep_view();
        let ghost before = self@;
        assert(all.skip(0) == all);
        let mut i: usize = 0;
        while i < self.sinks.len()
            invariant
                i <= self.sinks.len(),
                self@ == before,
                before == old(self)@,
                all == self.sinks.deep_view(),
                place_of(all, id) == i + place_of(all.skip(i as int), id),
            decreases self.sinks.len() - i,
        {
            assert(all.skip(i as int)[0] == (self.sinks[i as int].0, self.sinks[i as int].1@));
            if self.sinks[i].0 == id {
                let (_, sink) = self.sinks.remove(i);
                assert(self.sinks.deep_view() =~= all.remove(i as int));
                return sink;
            }
            assert(all.skip(i as int).drop_first() == all.skip(i + 1));
            i += 1;
        }
        DepSink::default()
    }

    /// Records in every sink that `representation` was resolved.
    pub fn record(&mut self, representation: &Representation)
        ensures
            final(self)@ == recorded_in_all(old(self)@, representation@),
    {
        let ghost all = self.sinks.deep_view();
        let ghost next = self.next;
        let mut i: usize = 0;
        while i < self.sinks.len()
            invariant
                i <= self.sinks.len(),
                self.next == next,
                self.sinks.len() == all.len(),
                forall|k: int|
                    0 <= k < i ==> #[trigger] self.sinks.deep_view()[k] == (
                        all[k].0,
                        recorded(all[k].1, representation@),
                    ),
                forall|k: int|
                    i <= k < all.len() ==> #[trigger] self.sinks.deep_view()[k] == all[k],
            decreases self.sinks.len() - i,
        {
            let ghost before = self.sinks.deep_view();
            assert(before[i as int] == (self.sinks[i as int].0, self.sinks[i as int].1@));
            self.sinks[i].1.record(representation);
            assert(self.sinks.deep_view() =~= before.update(
                i as int,
                (all[i as int].0, recorded(all[i as int].1, representation@)),
            ));
            i += 1;
        }
        assert(self@ =~= recorded_in_all(old(self)@, representation@));
    }
}

/// Answers a callback with what it came to. A result is recorded in every sink, and a failure
/// in none; no sink is opened or closed.
pub fn answered(sinks: &mut DepSinks, result: Result<Representation, Error>) -> (r: ModuleCall)
    ensures
        r@ == answer_for(outcome(result)),
        final(sinks)@ == (match outcome(result) {
            Ok(representation) => recorded_in_all(old(sinks)@, representation),
            Err(_) => old(sinks)@,
        }),
{
    if let Ok(representation) = &result {
        sinks.record(representation);
    }
    host_answer(result)
}

/// Ends the invocation under `id`: its sink is closed whatever came of it, and what the sink
/// collected is folded into a result.
pub fn finished(
    sinks: &mut DepSinks,
    id: u64,
    reply: Result<ModuleReply, Error>,
) -> (r: Result<Representation, Error>)
    ensures
        final(sinks)@ == without_sink(old(sinks)@, id),
        outcome(r) == (match received_reply(reply) {
            Ok(reply) => outcome_over(outcome_of(reply), sink_under(old(sinks)@, id)),
            Err(error) => Err(error),
        }),
{
    let collected = sinks.take_sink(id);
    match reply {
        Ok(reply) => outcome_with(reply, &collected),
        Err(error) => Err(error),
    }
}

// ---------------------------------------------------------------------------
// Laws.
// ---------------------------------------------------------------------------

/// What a sink holds once each of `resolved` was recorded in it, in turn.
pub open spec fn collected(resolved: Seq<RepresentationView>) -> DepSinkView
    decreases resolved.len(),
{
    if resolved.len() == 0 {
        empty_sink()
    } else {
        recorded(collected(resolved.drop_last()), resolved.last())
    }
}

/// A result is no more cacheable than its own expiry and than that of anything its callbacks
/// resolved, depends on every thread of its own and of theirs, and is otherwise unchanged.
pub proof fn law_a_result_is_no_fresher_than_its_inputs(
    result: RepresentationView,
    resolved: Seq<RepresentationView>,
)
    ensures
        ({
            let whole = folded(result, collected(resolved));
            &&& no_later(whole.expiry, result.expiry)
            &&& result.threads.subset_of(whole.threads)
            &&& forall|i: int|
                0 <= i < resolved.len() ==> no_later(
                    whole.expiry,
                    (#[trigger] resolved[i]).expiry,
                ) && resolved[i].threads.subset_of(whole.threads)
            &&& whole == RepresentationView {
                expiry: whole.expiry,
                threads: whole.threads,
                ..result
            }
        }),
{
    lemma_collected(resolved);
    let sink = collected(resolved);
    let whole = folded(result, sink);
    assert forall|i: int| 0 <= i < resolved.len() implies no_later(
        whole.expiry,
        (#[trigger] resolved[i]).expiry,
    ) && resolved[i].threads.subset_of(whole.threads) by {
        assert(no_later(sink.expiry->0, resolved[i].expiry));
        assert(resolved[i].threads.subset_of(sink.threads));
    }
}

proof fn lemma_collected(resolved: Seq<RepresentationView>)
    ensures
        collected(resolved).expiry is Some <==> resolved.len() > 0,
        forall|i: int|
            0 <= i < resolved.len() ==> no_later(
                collected(resolved).expiry->0,
                (#[trigger] resolved[i]).expiry,
            ) && resolved[i].threads.subset_of(collected(resolved).threads),
    decreases resolved.len(),
{
    if resolved.len() > 0 {
        let front = resolved.drop_last();
        lemma_collected(front);
        let less = collected(front);
        let more = collected(resolved);
        assert forall|i: int| 0 <= i < resolved.len() implies no_later(
            more.expiry->0,
            (#[trigger] resolved[i]).expiry,
        ) && resolved[i].threads.subset_of(more.threads) by {
            if i < front.len() {
                assert(front[i] == resolved[i]);
                assert(no_later(less.expiry->0, front[i].expiry));
            }
        }
    }
}

/// A result whose callbacks resolved nothing is the result.
pub proof fn law_nothing_collected_changes_nothing(result: RepresentationView)
    ensures
        folded(result, collected(Seq::empty())) == result,
{
    assert(result.threads.union(Set::empty()) =~= result.threads);
}

/// The sinks once each of `resolved` was recorded in all of them, in turn.
pub open spec fn recorded_each(
    all: DepSinksView,
    resolved: Seq<RepresentationView>,
) -> DepSinksView
    decreases resolved.len(),
{
    if resolved.len() == 0 {
        all
    } else {
        recorded_in_all(recorded_each(all, resolved.drop_last()), resolved.last())
    }
}

/// An invocation collects exactly what was resolved while its sink was open, and closing the
/// sink leaves the others as if it had never been: as long as no sink still open has the
/// number it was given.
pub proof fn law_a_sink_collects_its_own_invocation(
    all: DepSinksView,
    resolved: Seq<RepresentationView>,
)
    requires
        place_of(all.sinks, all.next) == all.sinks.len(),
    ensures
        ({
            let open = recorded_each(with_new_sink(all), resolved);
            &&& sink_under(open, all.next) == collected(resolved)
            &&& without_sink(open, all.next).sinks == recorded_each(all, resolved).sinks
        }),
{
    lemma_recorded_each(all, resolved);
    lemma_recorded_each(with_new_sink(all), resolved);
    let open = recorded_each(with_new_sink(all), resolved);
    let rest = recorded_each(all, resolved);
    assert(open.sinks =~= rest.sinks.push((all.next, collected(resolved)))) by {
        lemma_split(all, resolved);
    }
    lemma_place_kept(all.sinks, rest.sinks, all.next);
    lemma_place_at_end(rest.sinks, all.next, collected(resolved));
    assert(open.sinks.remove(rest.sinks.len() as int) =~= rest.sinks);
}

proof fn lemma_recorded_each(all: DepSinksView, resolved: Seq<RepresentationView>)
    ensures
        recorded_each(all, resolved).sinks.len() == all.sinks.len(),
        recorded_each(all, resolved).next == all.next,
        forall|i: int|
            0 <= i < all.sinks.len() ==> (#[trigger] recorded_each(all, resolved).sinks[i]).0
                == all.sinks[i].0,
    decreases resolved.len(),
{
    if resolved.len() > 0 {
        lemma_recorded_each(all, resolved.drop_last());
    }
}

proof fn lemma_split(all: DepSinksView, resolved: Seq<RepresentationView>)
    ensures
        recorded_each(with_new_sink(all), resolved).sinks == recorded_each(
            all,
            resolved,
        ).sinks.push((all.next, collected(resolved))),
    decreases resolved.len(),
{
    if resolved.len() > 0 {
        lemma_split(all, resolved.drop_last());
        lemma_recorded_each(all, resolved.drop_last());
        let less = recorded_each(all, resolved.drop_last());
        assert(recorded_each(with_new_sink(all), resolved).sinks =~= recorded_in_all(
            less,
            resolved.last(),
        ).sinks.push((all.next, collected(resolved))));
    }
}

proof fn lemma_place_kept(
    a: Seq<(u64, DepSinkView)>,
    b: Seq<(u64, DepSinkView)>,
    id: u64,
)
    requires
        a.len() == b.len(),
        forall|i: int| 0 <= i < a.len() ==> (#[trigger] b[i]).0 == a[i].0,
    ensures
        place_of(a, id) == place_of(b, id),
    decreases a.len(),
{
    if a.len() > 0 {
        assert(b[0].0 == a[0].0);
        assert forall|i: int| 0 <= i < a.drop_first().len() implies (#[trigger] b.drop_first()[i]).0
            == a.drop_first()[i].0 by {
            assert(b[i + 1].0 == a[i + 1].0);
        }
        lemma_place_kept(a.drop_first(), b.drop_first(), id);
    }
}

proof fn lemma_place_at_end(sinks: Seq<(u64, DepSinkView)>, id: u64, sink: DepSinkView)
    requires
        place_of(sinks, id) == sinks.len(),
    ensures
        place_of(sinks.push((id, sink)), id) == sinks.len(),
    decreases sinks.len(),
{
    let more = sinks.push((id, sink));
    if sinks.len() > 0 {
        assert(more[0] == sinks[0]);
        assert(more.drop_first() =~= sinks.drop_first().push((id, sink)));
        lemma_place_at_end(sinks.drop_first(), id, sink);
    } else {
        assert(more[0] == (id, sink));
    }
}

/// Whether `whole` is `own` as it depends on each of `resolved`: no more cacheable than any of
/// them, and exactly as cacheable as one; depending on the threads of all of them and no other;
/// and otherwise `own`.
pub open spec fn depends_on_each(
    whole: RepresentationView,
    own: RepresentationView,
    resolved: Seq<RepresentationView>,
) -> bool {
    &&& no_later(whole.expiry, own.expiry)
    &&& forall|i: int|
        0 <= i < resolved.len() ==> no_later(whole.expiry, (#[trigger] resolved[i]).expiry)
    &&& whole.expiry == own.expiry || exists|i: int|
        0 <= i < resolved.len() && whole.expiry == (#[trigger] resolved[i]).expiry
    &&& forall|thread: Seq<char>| #[trigger]
        whole.threads.contains(thread) <==> own.threads.contains(thread) || exists|i: int|
            0 <= i < resolved.len() && (#[trigger] resolved[i]).threads.contains(thread)
    &&& whole.media_type == own.media_type
    &&& whole.params == own.params
    &&& whole.bytes == own.bytes
}

/// A module's result is read as it depends on everything its callbacks resolved, and on nothing
/// else; a failure is left as it is.
pub proof fn law_an_outcome_depends_on_all_that_was_resolved(
    reply: ModuleReply,
    sink: &DepSink,
    resolved: Seq<RepresentationView>,
    r: Result<Representation, Error>,
)
    requires
        call_ensures(outcome_with, (reply, sink), r),
        sink@ == collected(resolved),
    ensures
        match outcome_of(reply@) {
            Ok(own) => r matches Ok(whole) && depends_on_each(whole@, own, resolved),
            Err(failure) => r matches Err(error) && error@ == failure,
        },
{
    if let Ok(own) = outcome_of(reply@) {
        lemma_folded_depends_on_each(own, resolved);
    }
}

proof fn lemma_folded_depends_on_each(own: RepresentationView, resolved: Seq<RepresentationView>)
    ensures
        depends_on_each(folded(own, collected(resolved)), own, resolved),
{
    lemma_collected(resolved);
    lemma_collected_exactly(resolved);
    let sink = collected(resolved);
    let whole = folded(own, sink);
    assert forall|i: int| 0 <= i < resolved.len() implies no_later(
        whole.expiry,
        (#[trigger] resolved[i]).expiry,
    ) by {
        assert(no_later(sink.expiry->0, resolved[i].expiry));
    }
    if whole.expiry != own.expiry {
        let i = choose|i: int|
            0 <= i < resolved.len() && sink.expiry->0 == (#[trigger] resolved[i]).expiry;
        assert(whole.expiry == resolved[i].expiry);
    }
}

proof fn lemma_collected_exactly(resolved: Seq<RepresentationView>)
    ensures
        resolved.len() > 0 ==> exists|i: int|
            0 <= i < resolved.len() && collected(resolved).expiry->0 == (
            #[trigger] resolved[i]).expiry,
        forall|thread: Seq<char>| #[trigger]
            collected(resolved).threads.contains(thread) <==> exists|i: int|
                0 <= i < resolved.len() && (#[trigger] resolved[i]).threads.contains(thread),
    decreases resolved.len(),
{
    if resolved.len() > 0 {
        let front = resolved.drop_last();
        let last = resolved.len() - 1;
        lemma_collected_exactly(front);
        lemma_collected(front);
        let less = collected(front);
        let more = collected(resolved);
        assert(resolved[last] == resolved.last());
        if more.expiry->0 != resolved[last].expiry {
            let i = choose|i: int|
                0 <= i < front.len() && less.expiry->0 == (#[trigger] front[i]).expiry;
            assert(resolved[i] == front[i]);
        }
        assert forall|thread: Seq<char>| #[trigger]
            more.threads.contains(thread) <==> exists|i: int|
                0 <= i < resolved.len() && (#[trigger] resolved[i]).threads.contains(thread) by {
            if less.threads.contains(thread) {
                let i = choose|i: int|
                    0 <= i < front.len() && (#[trigger] front[i]).threads.contains(thread);
                assert(resolved[i] == front[i]);
            }
            if exists|i: int|
                0 <= i < resolved.len() && (#[trigger] resolved[i]).threads.contains(thread) {
                let i = choose|i: int|
                    0 <= i < resolved.len() && (#[trigger] resolved[i]).threads.contains(thread);
                if i < front.len() {
                    assert(front[i] == resolved[i]);
                    assert(less.threads.contains(thread));
                }
            }
        }
    }
}

/// Recording a result adds its threads to a sink, and leaves the sink as soon to expire as the
/// sooner of the two; a new sink has collected nothing.
pub proof fn law_recording_adds_one_result(
    fresh: DepSink,
    sink: &mut DepSink,
    resolved: &Representation,
    thread: Seq<char>,
)
    requires
        call_ensures(DepSink::default, (), fresh),
        call_ensures(DepSink::record, (sink, resolved), ()),
    ensures
        !fresh@.threads.contains(thread),
        fresh@.expiry is None,
        final(sink)@.threads.contains(thread) <==> old(sink)@.threads.contains(thread)
            || resolved@.threads.contains(thread),
        final(sink)@.expiry matches Some(after) && {
            &&& no_later(after, resolved@.expiry)
            &&& match old(sink)@.expiry {
                Some(before) => no_later(after, before) && (after == before || after
                    == resolved@.expiry),
                None => after == resolved@.expiry,
            }
        },
{
}

/// Folding what a sink collected into a result adds its threads, leaves it as soon to expire as
/// the sooner of the two, and changes nothing else.
pub proof fn law_folding_in_changes_only_what_a_result_depends_on(
    sink: &DepSink,
    result: Representation,
    r: Representation,
    thread: Seq<char>,
)
    requires
        call_ensures(DepSink::fold_into, (sink, result), r),
    ensures
        r@ == (RepresentationView { expiry: r@.expiry, threads: r@.threads, ..result@ }),
        r@.threads.contains(thread) <==> result@.threads.contains(thread)
            || sink@.threads.contains(thread),
        no_later(r@.expiry, result@.expiry),
        match sink@.expiry {
            Some(expiry) => no_later(r@.expiry, expiry) && (r@.expiry == expiry || r@.expiry
                == result@.expiry),
            None => r@.expiry == result@.expiry,
        },
{
}

/// A sink is opened empty, after those that are open, under the number that was next; the
/// number after it is another one, and no open sink is touched.
pub proof fn law_a_sink_is_opened_under_a_number_of_its_own(sinks: &mut DepSinks, id: u64)
    requires
        call_ensures(DepSinks::install_sink, (sinks,), id),
    ensures
        id == old(sinks)@.next,
        final(sinks)@.next != id,
        final(sinks)@.sinks.len() == old(sinks)@.sinks.len() + 1,
        forall|i: int|
            0 <= i < old(sinks)@.sinks.len() ==> #[trigger] final(sinks)@.sinks[i] == old(sinks)@.sinks[i],
        final(sinks)@.sinks.last().0 == id,
        final(sinks)@.sinks.last().1.expiry is None,
        forall|thread: Seq<char>| !(#[trigger] final(sinks)@.sinks.last().1.threads.contains(thread)),
{
}

/// Closing a sink gives what the oldest one under its number collected and takes out that one
/// alone; where there is none, nothing was collected and nothing is taken out.
pub proof fn law_a_sink_is_closed_alone(sinks: &mut DepSinks, id: u64, at: int, r: DepSink)
    requires
        call_ensures(DepSinks::take_sink, (sinks, id), r),
        0 <= at <= old(sinks)@.sinks.len(),
        forall|j: int| 0 <= j < at ==> (#[trigger] old(sinks)@.sinks[j]).0 != id,
        at < old(sinks)@.sinks.len() ==> old(sinks)@.sinks[at].0 == id,
    ensures
        final(sinks)@.next == old(sinks)@.next,
        at < old(sinks)@.sinks.len() ==> {
            &&& r@ == old(sinks)@.sinks[at].1
            &&& final(sinks)@.sinks == old(sinks)@.sinks.remove(at)
        },
        at == old(sinks)@.sinks.len() ==> {
            &&& r@.expiry is None
            &&& forall|thread: Seq<char>| !(#[trigger] r@.threads.contains(thread))
            &&& final(sinks)@.sinks == old(sinks)@.sinks
        },
{
    lemma_place_is_first(old(sinks)@.sinks, id, at);
}

proof fn lemma_place_is_first(sinks: Seq<(u64, DepSinkView)>, id: u64, at: int)
    requires
        0 <= at <= sinks.len(),
        forall|j: int| 0 <= j < at ==> (#[trigger] sinks[j]).0 != id,
        at < sinks.len() ==> sinks[at].0 == id,
    ensures
        place_of(sinks, id) == at,
    decreases at,
{
    if at > 0 {
        let rest = sinks.drop_first();
        assert(sinks[0].0 != id);
        assert forall|j: int| 0 <= j < at - 1 implies (#[trigger] rest[j]).0 != id by {
            assert(rest[j] == sinks[j + 1]);
        }
        lemma_place_is_first(rest, id, at - 1);
    }
}

/// A callback is answered with what it came to. What it resolved is recorded in every open sink
/// alike, and a failure in none; no sink is opened, closed or moved.
pub proof fn law_a_callback_is_recorded_everywhere_or_nowhere(
    sinks: &mut DepSinks,
    result: Result<Representation, Error>,
    r: ModuleCall,
    i: int,
    thread: Seq<char>,
)
    requires
        call_ensures(answered, (sinks, result), r),
        0 <= i < old(sinks)@.sinks.len(),
        result matches Err(error) ==> crate::wire::is_failure(error@),
    ensures
        crate::wire::answer_of(r@) == outcome(result),
        final(sinks)@.next == old(sinks)@.next,
        final(sinks)@.sinks.len() == old(sinks)@.sinks.len(),
        final(sinks)@.sinks[i].0 == old(sinks)@.sinks[i].0,
        match result {
            Ok(resolved) => {
                let before = old(sinks)@.sinks[i].1;
                let after = final(sinks)@.sinks[i].1;
                &&& after.threads.contains(thread) <==> before.threads.contains(thread)
                    || resolved@.threads.contains(thread)
                &&& after.expiry matches Some(soonest)
                &&& no_later(soonest, resolved@.expiry)
                &&& before.expiry matches Some(earlier) ==> no_later(soonest, earlier)
                &&& soonest == resolved@.expiry || before.expiry == Some(soonest)
            },
            Err(_) => final(sinks)@.sinks == old(sinks)@.sinks,
        },
{
    crate::wire::law_an_answer_survives_the_boundary(outcome(result));
}

/// An invocation ends with the module's outcome as it depends on everything resolved while its
/// sink was open, or with the failure to get one; its sink is closed either way, and no other.
pub proof fn law_an_invocation_ends_with_all_it_depends_on(
    sinks: &mut DepSinks,
    id: u64,
    reply: Result<ModuleReply, Error>,
    at: int,
    resolved: Seq<RepresentationView>,
    r: Result<Representation, Error>,
)
    requires
        call_ensures(finished, (sinks, id, reply), r),
        0 <= at < old(sinks)@.sinks.len(),
        forall|j: int| 0 <= j < at ==> (#[trigger] old(sinks)@.sinks[j]).0 != id,
        old(sinks)@.sinks[at] == (id, collected(resolved)),
    ensures
        final(sinks)@.next == old(sinks)@.next,
        final(sinks)@.sinks == old(sinks)@.sinks.remove(at),
        match reply {
            Ok(reply) => match outcome_of(reply@) {
                Ok(own) => r matches Ok(whole) && depends_on_each(whole@, own, resolved),
                Err(failure) => r matches Err(error) && error@ == failure,
            },
            Err(failure) => r matches Err(error) && error@ == failure@,
        },
{
    lemma_place_is_first(old(sinks)@.sinks, id, at);
    if let Ok(reply) = reply {
        if let Ok(own) = outcome_of(reply@) {
            lemma_folded_depends_on_each(own, resolved);
        }
    }
}

/// Two sinks that are the same value collected the same.
pub proof fn law_a_sink_is_all_that_it_collected(a: DepSink, b: DepSink)
    requires
        a@ == b@,
    ensures
        a.threads@ == b.threads@,
        a.expiry == b.expiry,
{
}

/// At first no sink is open.
pub proof fn law_at_first_no_sink_is_open(r: DepSinks)
    requires
        call_ensures(DepSinks::new, (), r),
    ensures
        r.sinks@.len() == 0,
        r@.sinks.len() == 0,
        r@.next == r.next,
{
    assert(r.sinks.deep_view().len() == r.sinks@.len());
}

/// What was resolved is recorded in every open sink alike, and none is opened, closed or moved.
pub proof fn law_every_open_sink_records(
    sinks: &mut DepSinks,
    resolved: &Representation,
    i: int,
    thread: Seq<char>,
)
    requires
        call_ensures(DepSinks::record, (sinks, resolved), ()),
        0 <= i < old(sinks)@.sinks.len(),
    ensures
        final(sinks)@.next == old(sinks)@.next,
        final(sinks)@.sinks.len() == old(sinks)@.sinks.len(),
        final(sinks)@.sinks[i].0 == old(sinks)@.sinks[i].0,
        final(sinks)@.sinks[i].1.threads.contains(thread) <==> old(sinks)@.sinks[i].1.threads.contains(thread) || resolved@.threads.contains(thread),
        final(sinks)@.sinks[i].1.expiry is Some,
        no_later(final(sinks)@.sinks[i].1.expiry->0, resolved@.expiry),
        final(sinks)@.sinks[i].1.expiry == Some(resolved@.expiry) || final(sinks)@.sinks[i].1.expiry == old(sinks)@.sinks[i].1.expiry,
{
}

} // verus!
