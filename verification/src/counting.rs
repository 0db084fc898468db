//! Counting the segments of a line, and how the count changes when a
//! station is removed.

use vstd::prelude::*;
use crate::model::{
    incidences, renumbered_all, same_items, surviving, Incidence, LineIndex, Link, StationIndex,
};
use crate::rejoin::{
    lemma_on_line_member, on_line, opens_line, rejoin_for, rejoins, rejoins_among,
};

verus! {

/// The number of items of `s` that satisfy `p`.
pub open spec fn count_where<T>(s: Seq<T>, p: spec_fn(T) -> bool) -> nat
    decreases s.len(),
{
    if s.len() == 0 {
        0
    } else {
        count_where(s.drop_last(), p) + if p(s.last()) {
            1nat
        } else {
            0nat
        }
    }
}

/// The links that belong to `line`.
pub open spec fn link_on(line: LineIndex) -> spec_fn(Link) -> bool {
    |l: Link| l.segment.line == line
}

/// The entries that belong to `line`.
pub open spec fn entry_on(line: LineIndex) -> spec_fn(Incidence) -> bool {
    |e: Incidence| e.segment.line == line
}

/// The number of segments that `line` has among `links`.
pub open spec fn segments_on(links: Seq<Link>, line: LineIndex) -> nat {
    count_where(links, link_on(line))
}

/// Counting goes through concatenation.
pub proof fn lemma_count_concat<T>(a: Seq<T>, b: Seq<T>, p: spec_fn(T) -> bool)
    ensures
        count_where(a + b, p) == count_where(a, p) + count_where(b, p),
    decreases b.len(),
{
    if b.len() == 0 {
        assert(a + b =~= a);
    } else {
        assert((a + b).drop_last() =~= a + b.drop_last());
        assert((a + b).last() == b.last());
        lemma_count_concat(a, b.drop_last(), p);
    }
}

/// Taking one item out lowers the count by one if the item counted.
pub proof fn lemma_count_remove<T>(s: Seq<T>, at: int, p: spec_fn(T) -> bool)
    requires
        0 <= at < s.len(),
    ensures
        count_where(s, p) == count_where(s.remove(at), p) + if p(s[at]) {
            1nat
        } else {
            0nat
        },
    decreases s.len(),
{
    if at == s.len() - 1 {
        assert(s.remove(at) =~= s.drop_last());
    } else {
        assert(s.remove(at).drop_last() =~= s.drop_last().remove(at));
        assert(s.remove(at).last() == s.last());
        lemma_count_remove(s.drop_last(), at, p);
    }
}

/// Sequences with the same items give the same count.
pub proof fn lemma_count_same_items<T>(a: Seq<T>, b: Seq<T>, p: spec_fn(T) -> bool)
    requires
        same_items(a, b),
    ensures
        count_where(a, p) == count_where(b, p),
    decreases a.len(),
{
    vstd::seq_lib::to_multiset_len(a);
    vstd::seq_lib::to_multiset_len(b);
    if a.len() > 0 {
        let x = a.last();
        let n = a.len() - 1;
        assert(a[n] == x);
        assert(a.contains(x));
        vstd::seq_lib::to_multiset_contains(a, x);
        vstd::seq_lib::to_multiset_contains(b, x);
        let at = choose|at: int| 0 <= at < b.len() && b[at] == x;
        vstd::seq_lib::to_multiset_remove(a, n);
        vstd::seq_lib::to_multiset_remove(b, at);
        assert(a.remove(n) =~= a.drop_last());
        lemma_count_same_items(a.drop_last(), b.remove(at), p);
        lemma_count_remove(b, at, p);
    }
}

/// The entries of a line are as many as the count says.
pub proof fn lemma_on_line_count(around: Seq<Incidence>, line: LineIndex)
    ensures
        on_line(around, line).len() == count_where(around, entry_on(line)),
    decreases around.len(),
{
    if around.len() > 0 {
        lemma_on_line_count(around.drop_last(), line);
    }
}

/// Each segment of a line either survives the removal of a station or is
/// one of the segments around it.
pub proof fn lemma_count_split(
    links: Seq<Link>,
    removed: StationIndex,
    last: StationIndex,
    line: LineIndex,
)
    ensures
        segments_on(links, line) == segments_on(surviving(links, removed, last), line) + on_line(
            incidences(links, removed),
            line,
        ).len(),
    decreases links.len(),
{
    if links.len() > 0 {
        lemma_count_split(links.drop_last(), removed, last, line);
        let rest = surviving(links.drop_last(), removed, last);
        let link = links.last().renumbered(last, removed);
        assert(rest.push(link).drop_last() =~= rest);
        let seen = incidences(links.drop_last(), removed);
        assert(seen.push(links.last().seen_from(removed)).drop_last() =~= seen);
    }
}

/// Renumbering the stations does not move a segment to another line.
pub proof fn lemma_count_renumbered(
    links: Seq<Link>,
    last: StationIndex,
    freed: StationIndex,
    line: LineIndex,
)
    ensures
        segments_on(renumbered_all(links, last, freed), line) == segments_on(links, line),
    decreases links.len(),
{
    if links.len() > 0 {
        assert(renumbered_all(links, last, freed).drop_last() =~= renumbered_all(
            links.drop_last(),
            last,
            freed,
        ));
        lemma_count_renumbered(links.drop_last(), last, freed, line);
    }
}

/// The two entries of a rejoined line are on that line.
proof fn lemma_rejoin_line(around: Seq<Incidence>, line: LineIndex, removed: StationIndex)
    requires
        rejoin_for(around, line, removed).is_some(),
    ensures
        rejoin_for(around, line, removed).unwrap().segment.line == line,
{
    lemma_on_line_member(around, line, 0);
}

/// Among the first `n` entries, a line gets one rejoining segment if it
/// occurs there and is rejoined at all, and none otherwise.
pub proof fn lemma_count_rejoins(
    around: Seq<Incidence>,
    n: int,
    removed: StationIndex,
    line: LineIndex,
)
    requires
        0 <= n <= around.len(),
    ensures
        segments_on(rejoins_among(around, n, removed), line) == if on_line(
            around.take(n),
            line,
        ).len() > 0 && rejoin_for(around, line, removed).is_some() {
            1nat
        } else {
            0nat
        },
        on_line(around.take(n), line).len() > 0 && rejoin_for(around, line, removed).is_some()
            ==> rejoins_among(around, n, removed).contains(
            rejoin_for(around, line, removed).unwrap(),
        ),
    decreases n,
{
    if n == 0 {
        assert(around.take(0) =~= Seq::<Incidence>::empty());
    } else {
        lemma_count_rejoins(around, n - 1, removed, line);
        let rest = rejoins_among(around, n - 1, removed);
        let all = rejoins_among(around, n, removed);
        let entry = around[n - 1];
        let found = rejoin_for(around, entry.segment.line, removed);
        assert(around.take(n).drop_last() =~= around.take(n - 1));
        assert(around.take(n).last() == entry);
        if opens_line(around, n - 1) && found.is_some() {
            lemma_rejoin_line(around, entry.segment.line, removed);
            assert(all.drop_last() =~= rest);
            assert(all.last() == found.unwrap());
            assert(all[all.len() - 1] == found.unwrap());
        }
        if on_line(around.take(n - 1), line).len() > 0 && rejoin_for(around, line, removed).is_some() {
            let k = choose|k: int|
                0 <= k < rest.len() && rest[k] == rejoin_for(around, line, removed).unwrap();
            assert(all[k] == rest[k]);
        }
    }
}

/// How many segments a line has once a station has left: those it had,
/// less those around the station, and one more if it is rejoined.
pub proof fn lemma_count_after_removal(
    links: Seq<Link>,
    around: Seq<Incidence>,
    after: Seq<Link>,
    removed: StationIndex,
    last: StationIndex,
    line: LineIndex,
)
    requires
        same_items(around, incidences(links, removed)),
        same_items(
            after,
            surviving(links, removed, last) + renumbered_all(rejoins(around, removed), last, removed),
        ),
    ensures
        segments_on(after, line) + on_line(around, line).len() == segments_on(links, line) + if rejoin_for(
            around,
            line,
            removed,
        ).is_some() {
            1nat
        } else {
            0nat
        },
{
    let survivors = surviving(links, removed, last);
    let planned = rejoins(around, removed);
    let added = renumbered_all(planned, last, removed);
    lemma_count_same_items(after, survivors + added, link_on(line));
    lemma_count_concat(survivors, added, link_on(line));
    lemma_count_renumbered(planned, last, removed, line);
    lemma_count_rejoins(around, around.len() as int, removed, line);
    assert(around.take(around.len() as int) =~= around);
    lemma_count_split(links, removed, last, line);
    lemma_on_line_count(around, line);
    lemma_on_line_count(incidences(links, removed), line);
    lemma_count_same_items(around, incidences(links, removed), entry_on(line));
}

} // verus!
