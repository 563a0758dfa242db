//! Text: prefixes, equality, order, joining, over the characters a string holds.

use vstd::prelude::*;

verus! {

/// Whether `s` starts with one of `prefixes`.
pub open spec fn under_any(prefixes: Seq<Seq<char>>, s: Seq<char>) -> bool {
    exists|i: int| 0 <= i < prefixes.len() && (#[trigger] prefixes[i]).is_prefix_of(s)
}

/// Strict dictionary order by code point: the order `String` has.
pub open spec fn precedes(a: Seq<char>, b: Seq<char>) -> bool
    decreases a.len(),
{
    if b.len() == 0 {
        false
    } else if a.len() == 0 {
        true
    } else if a[0] != b[0] {
        a[0] < b[0]
    } else {
        precedes(a.drop_first(), b.drop_first())
    }
}

/// `parts` written one after the other with `separator` between them.
pub open spec fn joined(parts: Seq<Seq<char>>, separator: Seq<char>) -> Seq<char>
    decreases parts.len(),
{
    if parts.len() == 0 {
        Seq::empty()
    } else if parts.len() == 1 {
        parts[0]
    } else {
        joined(parts.drop_last(), separator) + separator + parts.last()
    }
}

/// Whether `s` starts with `prefix`.
pub fn has_prefix(s: &str, prefix: &str) -> (r: bool)
    ensures
        r == prefix@.is_prefix_of(s@),
{
    let mut rest = s.chars();
    let mut wanted = prefix.chars();
    let ghost mut done: int = 0;
    loop
        invariant
            0 <= done <= prefix@.len(),
            done <= s@.len(),
            vstd::std_specs::iter::IteratorSpec::remaining(&wanted) == prefix@.skip(done),
            vstd::std_specs::iter::IteratorSpec::remaining(&rest) == s@.skip(done),
            prefix@.take(done) == s@.take(done),
        decreases prefix@.len() - done,
    {
        match wanted.next() {
            None => {
                assert(done == prefix@.len());
                assert(prefix@.take(done) == prefix@);
                return true;
            },
            Some(w) => {
                assert(w == prefix@[done]);
                match rest.next() {
                    None => {
                        assert(s@.len() == done);
                        return false;
                    },
                    Some(c) => {
                        assert(c == s@[done]);
                        if c != w {
                            assert(prefix@.is_prefix_of(s@) ==> prefix@[done] == s@[done]);
                            return false;
                        }
                        proof {
                            assert(prefix@.take(done + 1) == prefix@.take(done).push(w));
                            assert(s@.take(done + 1) == s@.take(done).push(c));
                            assert(prefix@.skip(done).drop_first() == prefix@.skip(done + 1));
                            assert(s@.skip(done).drop_first() == s@.skip(done + 1));
                            done = done + 1;
                        }
                    },
                }
            },
        }
    }
}

/// Whether `a` and `b` hold the same characters.
pub fn same_text(a: &str, b: &str) -> (r: bool)
    ensures
        r == (a@ == b@),
{
    let r = has_prefix(a, b) && has_prefix(b, a);
    proof {
        if b@.is_prefix_of(a@) && a@.is_prefix_of(b@) {
            assert(a@ == b@);
        }
        if a@ == b@ {
            assert(b@.is_prefix_of(a@));
        }
    }
    r
}

/// How one text stands to another in the order of [`precedes`].
#[derive(Clone, Copy, PartialEq, Eq, Debug, Structural)]
pub enum Side {
    /// It comes first.
    Before,
    /// The two are equal.
    Same,
    /// It comes second.
    After,
}

/// Places `a` against `b` in the order of [`precedes`].
pub fn side_of(a: &str, b: &str) -> (r: Side)
    ensures
        r is Before <==> precedes(a@, b@),
        r is Same <==> a@ == b@,
        r is After <==> precedes(b@, a@),
{
    let mut left = a.chars();
    let mut right = b.chars();
    let ghost mut done: int = 0;
    proof {
        assert(a@.skip(0) == a@);
        assert(b@.skip(0) == b@);
    }
    loop
        invariant
            0 <= done <= a@.len(),
            done <= b@.len(),
            vstd::std_specs::iter::IteratorSpec::remaining(&left) == a@.skip(done),
            vstd::std_specs::iter::IteratorSpec::remaining(&right) == b@.skip(done),
            a@.take(done) == b@.take(done),
            precedes(a@, b@) == precedes(a@.skip(done), b@.skip(done)),
            precedes(b@, a@) == precedes(b@.skip(done), a@.skip(done)),
        decreases a@.len() - done,
    {
        match (left.next(), right.next()) {
            (None, None) => {
                assert(a@.take(done) == a@);
                assert(b@.take(done) == b@);
                return Side::Same;
            },
            (None, Some(_)) => {
                return Side::Before;
            },
            (Some(_), None) => {
                return Side::After;
            },
            (Some(x), Some(y)) => {
                assert(x == a@[done] && y == b@[done]);
                if x < y {
                    return Side::Before;
                }
                if y < x {
                    return Side::After;
                }
                proof {
                    assert(a@.take(done + 1) == a@.take(done).push(x));
                    assert(b@.take(done + 1) == b@.take(done).push(y));
                    assert(a@.skip(done).drop_first() == a@.skip(done + 1));
                    assert(b@.skip(done).drop_first() == b@.skip(done + 1));
                    done = done + 1;
                }
            },
        }
    }
}

/// What precedes a text precedes whatever that text precedes.
pub proof fn precedes_transitive(a: Seq<char>, b: Seq<char>, c: Seq<char>)
    requires
        precedes(a, b),
        precedes(b, c),
    ensures
        precedes(a, c),
    decreases a.len(),
{
    if a.len() > 0 && b.len() > 0 && c.len() > 0 && a[0] == b[0] && b[0] == c[0] {
        precedes_transitive(a.drop_first(), b.drop_first(), c.drop_first());
    }
}

/// Whether one of `prefixes` is a prefix of `s`.
pub fn starts_under(prefixes: &Vec<String>, s: &str) -> (r: bool)
    ensures
        r == under_any(prefixes.deep_view(), s@),
{
    let mut i: usize = 0;
    while i < prefixes.len()
        invariant
            i <= prefixes.len(),
            forall|j: int| 0 <= j < i ==> !(#[trigger] prefixes.deep_view()[j]).is_prefix_of(s@),
        decreases prefixes.len() - i,
    {
        if has_prefix(s, prefixes[i].as_str()) {
            assert(prefixes.deep_view()[i as int].is_prefix_of(s@));
            return true;
        }
        i += 1;
    }
    false
}

/// Whether `s` is among `texts`.
pub fn holds_text(texts: &Vec<String>, s: &str) -> (r: bool)
    ensures
        r == texts.deep_view().contains(s@),
{
    let mut i: usize = 0;
    while i < texts.len()
        invariant
            i <= texts.len(),
            forall|j: int| 0 <= j < i ==> #[trigger] texts.deep_view()[j] != s@,
        decreases texts.len() - i,
    {
        if same_text(texts[i].as_str(), s) {
            assert(texts.deep_view()[i as int] == s@);
            return true;
        }
        i += 1;
    }
    false
}

/// The same texts again.
pub fn copy_texts(texts: &Vec<String>) -> (r: Vec<String>)
    ensures
        r.deep_view() == texts.deep_view(),
{
    let r = texts.clone();
    assert(r.deep_view() =~= texts.deep_view());
    r
}

/// `parts` with `separator` between each and the next.
pub fn join_texts(parts: &Vec<String>, separator: &str) -> (r: String)
    ensures
        r@ == joined(parts.deep_view(), separator@),
{
    let mut out = String::new();
    let mut i: usize = 0;
    let ghost all = parts.deep_view();
    while i < parts.len()
        invariant
            i <= parts.len(),
            all == parts.deep_view(),
            out@ == joined(all.take(i as int), separator@),
        decreases parts.len() - i,
    {
        if i > 0 {
            out.append(separator);
        }
        out.append(parts[i].as_str());
        proof {
            assert(all.take(i + 1).drop_last() == all.take(i as int));
            assert(all.take(i + 1).last() == all[i as int]);
            if i == 0 {
                assert(all.take(0) == Seq::<Seq<char>>::empty());
            }
        }
        i += 1;
    }
    assert(all.take(i as int) == all);
    out
}

// ---------------------------------------------------------------------------
// Laws.
// ---------------------------------------------------------------------------

/// Whether `part` stands somewhere in `text`.
pub open spec fn mentions(text: Seq<char>, part: Seq<char>) -> bool {
    exists|before: Seq<char>, after: Seq<char>| text == #[trigger] (before + part + after)
}

/// What is written between two texts stands in the whole.
pub proof fn lemma_mentions(before: Seq<char>, part: Seq<char>, after: Seq<char>)
    ensures
        mentions(before + part + after, part),
{
}

/// What is written last stands in the whole.
pub proof fn lemma_mentions_last(before: Seq<char>, part: Seq<char>)
    ensures
        mentions(before + part, part),
{
    assert(before + part =~= before + part + Seq::<char>::empty());
}

/// What a part of a text mentions, the text mentions, whatever is written after it.
pub proof fn lemma_mentions_before(text: Seq<char>, part: Seq<char>, after: Seq<char>)
    requires
        mentions(text, part),
    ensures
        mentions(text + after, part),
{
    let (lead, tail) = choose|lead: Seq<char>, tail: Seq<char>| text == #[trigger] (lead + part
        + tail);
    assert(text + after =~= lead + part + (tail + after));
}

/// A text starts with another exactly if it is the other and some text more.
pub proof fn law_a_prefix_is_what_a_text_goes_on_from(s: &str, prefix: &str, r: bool)
    requires
        call_ensures(has_prefix, (s, prefix), r),
    ensures
        r <==> exists|rest: Seq<char>| s@ == #[trigger] (prefix@ + rest),
{
    if r {
        assert(s@ =~= prefix@ + s@.skip(prefix@.len() as int));
    }
    if exists|rest: Seq<char>| s@ == #[trigger] (prefix@ + rest) {
        let rest = choose|rest: Seq<char>| s@ == #[trigger] (prefix@ + rest);
        assert((prefix@ + rest).subrange(0, prefix@.len() as int) =~= prefix@);
    }
}

/// A text is under some prefixes exactly if it is one of them and some text more.
pub proof fn law_under_one_of_some_prefixes(prefixes: &Vec<String>, s: &str, r: bool)
    requires
        call_ensures(starts_under, (prefixes, s), r),
    ensures
        r <==> exists|i: int, rest: Seq<char>|
            0 <= i < prefixes.deep_view().len() && s@ == #[trigger] (prefixes.deep_view()[i]
                + rest),
        r == under_any(prefixes.deep_view(), s@),
{
    let all = prefixes.deep_view();
    if r {
        let i = choose|i: int| 0 <= i < all.len() && (#[trigger] all[i]).is_prefix_of(s@);
        assert(s@ =~= all[i] + s@.skip(all[i].len() as int));
    }
    if exists|i: int, rest: Seq<char>|
        0 <= i < all.len() && s@ == #[trigger] (all[i] + rest) {
        let (i, rest) = choose|i: int, rest: Seq<char>|
            0 <= i < all.len() && s@ == #[trigger] (all[i] + rest);
        assert((all[i] + rest).subrange(0, all[i].len() as int) =~= all[i]);
        assert(all[i].is_prefix_of(s@));
    }
}

/// Two texts are the same exactly if they hold the same characters in the same places.
pub proof fn law_same_texts_hold_the_same(a: &str, b: &str, r: bool)
    requires
        call_ensures(same_text, (a, b), r),
    ensures
        r <==> a@.len() == b@.len() && forall|i: int| 0 <= i < a@.len() ==> a@[i] == b@[i],
{
    if a@.len() == b@.len() && forall|i: int| 0 <= i < a@.len() ==> a@[i] == b@[i] {
        assert(a@ =~= b@);
    }
}

/// Of two texts the one that ends first comes first, if the other goes on from it; else the
/// first character in which they differ decides.
pub proof fn law_the_first_difference_decides(
    common: Seq<char>,
    x: char,
    y: char,
    s: Seq<char>,
    t: Seq<char>,
)
    requires
        x != y,
    ensures
        precedes(common, common.push(x) + s),
        !precedes(common.push(x) + s, common),
        !precedes(common, common),
        precedes(common.push(x) + s, common.push(y) + t) <==> x < y,
    decreases common.len(),
{
    let a = common.push(x) + s;
    let b = common.push(y) + t;
    if common.len() > 0 {
        let rest = common.drop_first();
        law_the_first_difference_decides(rest, x, y, s, t);
        assert(a.drop_first() =~= rest.push(x) + s);
        assert(b.drop_first() =~= rest.push(y) + t);
        assert(a[0] == common[0] && b[0] == common[0]);
    } else {
        assert(a[0] == x && b[0] == y);
    }
}

/// Texts joined in two goes are joined in one, and one text alone stands as it is.
pub proof fn law_joining_in_two_goes(a: Seq<Seq<char>>, b: Seq<Seq<char>>, separator: Seq<char>)
    requires
        a.len() > 0,
        b.len() > 0,
    ensures
        joined(a + b, separator) == joined(a, separator) + separator + joined(b, separator),
        joined(seq![a[0]], separator) == a[0],
        joined(Seq::empty(), separator) == Seq::<char>::empty(),
    decreases b.len(),
{
    let all = a + b;
    assert(all.last() == b.last());
    assert(all.drop_last() =~= a + b.drop_last());
    if b.len() > 1 {
        law_joining_in_two_goes(a, b.drop_last(), separator);
        assert(joined(all, separator) =~= joined(a, separator) + separator + joined(b, separator));
    } else {
        assert(a + b.drop_last() =~= a);
        assert(joined(b, separator) == b[0]);
    }
}

/// Of any two texts exactly one comes before the other, or they are the same.
pub proof fn law_two_texts_are_in_one_order(a: &str, b: &str, r: Side, other: Side)
    requires
        call_ensures(side_of, (a, b), r),
        call_ensures(side_of, (b, a), other),
    ensures
        r is Same <==> a@ == b@,
        r is Before <==> other is After,
        r is After <==> other is Before,
        r is Before <==> precedes(a@, b@),
{
}

} // verus!
