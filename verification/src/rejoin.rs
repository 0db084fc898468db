//! Healing the lines that pass through a station which is being removed.
//!
//! A line that has exactly two segments at the station continues through
//! it: the two are replaced by one segment between the stations at their far
//! ends. A line with one segment there ends there, and a line with three or
//! more branches there: neither is rejoined.

use std::collections::HashMap;
use vstd::prelude::*;
use crate::model::{Incidence, LineIndex, Link, StationIndex};

verus! {

broadcast use vstd::std_specs::hash::group_hash_axioms;

/// The entries of `around` that belong to `line`, in their order.
pub open spec fn on_line(around: Seq<Incidence>, line: LineIndex) -> Seq<Incidence>
    decreases around.len(),
{
    if around.len() == 0 {
        Seq::empty()
    } else {
        let rest = on_line(around.drop_last(), line);
        if around.last().segment.line == line {
            rest.push(around.last())
        } else {
            rest
        }
    }
}

/// The segment that takes the place of the segments of `line` around the
/// station `removed`, if the line is rejoined. It runs between the far ends
/// of the two segments and is routed like the first of them. A pair that
/// holds a loop on `removed` itself has no far end there and is not
/// rejoined.
pub open spec fn rejoin_for(around: Seq<Incidence>, line: LineIndex, removed: StationIndex)
    -> Option<Link> {
    let group = on_line(around, line);
    if group.len() == 2 && group[0].neighbor != removed && group[1].neighbor != removed {
        Some(Link { source: group[0].neighbor, target: group[1].neighbor, segment: group[0].segment })
    } else {
        None
    }
}

/// Whether the entry at `at` is the first one of its line.
pub open spec fn opens_line(around: Seq<Incidence>, at: int) -> bool {
    on_line(around.take(at), around[at].segment.line).len() == 0
}

/// The rejoining segments of the lines whose first entry is among the first
/// `n` entries of `around`, in the order of those first entries.
pub open spec fn rejoins_among(around: Seq<Incidence>, n: int, removed: StationIndex) -> Seq<Link>
    decreases n,
{
    if n <= 0 {
        Seq::empty()
    } else {
        let rest = rejoins_among(around, n - 1, removed);
        let link = rejoin_for(around, around[n - 1].segment.line, removed);
        if opens_line(around, n - 1) && link.is_some() {
            rest.push(link.unwrap())
        } else {
            rest
        }
    }
}

/// The rejoining segments for the removal of `removed`, one for each line
/// that passes through it, in the order in which the lines first occur in
/// `around`.
pub open spec fn rejoins(around: Seq<Incidence>, removed: StationIndex) -> Seq<Link> {
    rejoins_among(around, around.len() as int, removed)
}

/// What is known of one line after some of the entries have been read.
#[derive(Clone, Copy)]
enum Tally {
    One { first: Incidence },
    Two { first: Incidence, second: StationIndex },
    Many,
}

spec fn tally_of(group: Seq<Incidence>) -> Tally {
    if group.len() == 1 {
        Tally::One { first: group[0] }
    } else if group.len() == 2 {
        Tally::Two { first: group[0], second: group[1].neighbor }
    } else {
        Tally::Many
    }
}

/// `tallies` holds exactly the lines that occur in `seen`, each with the
/// tally of its entries.
spec fn tallied(tallies: Map<LineIndex, Tally>, seen: Seq<Incidence>) -> bool {
    forall|l: LineIndex|
        (#[trigger] tallies.contains_key(l) <==> on_line(seen, l).len() > 0) && (
        tallies.contains_key(l) ==> tallies[l] == tally_of(on_line(seen, l)))
}

/// `left` holds the tallies of `all` for the lines that do not occur in
/// `done`.
spec fn remaining(
    left: Map<LineIndex, Tally>,
    all: Map<LineIndex, Tally>,
    done: Seq<Incidence>,
) -> bool {
    forall|l: LineIndex|
        (#[trigger] left.contains_key(l) <==> all.contains_key(l) && on_line(done, l).len() == 0)
            && (left.contains_key(l) ==> left[l] == all[l])
}

/// The entries of a line among the first `k` entries are no more than its
/// entries among all.
pub proof fn lemma_on_line_take(around: Seq<Incidence>, k: int, line: LineIndex)
    requires
        0 <= k <= around.len(),
    ensures
        on_line(around.take(k), line).len() <= on_line(around, line).len(),
    decreases around.len(),
{
    if k == around.len() {
        assert(around.take(k) =~= around);
    } else {
        assert(around.drop_last().take(k) =~= around.take(k));
        lemma_on_line_take(around.drop_last(), k, line);
    }
}

/// Each entry of a line is an entry of that line.
pub proof fn lemma_on_line_member(around: Seq<Incidence>, line: LineIndex, k: int)
    requires
        0 <= k < on_line(around, line).len(),
    ensures
        around.contains(on_line(around, line)[k]),
        on_line(around, line)[k].segment.line == line,
    decreases around.len(),
{
    let front = around.drop_last();
    let n = around.len() - 1;
    assert(around.len() > 0);
    assert(around[n] == around.last());
    if around.last().segment.line == line && k == on_line(around, line).len() - 1 {
    } else {
        lemma_on_line_member(front, line, k);
        let i = choose|i: int| 0 <= i < front.len() && front[i] == on_line(front, line)[k];
        assert(around[i] == front[i]);
    }
}

/// Each entry that belongs to a line is among the entries of that line.
pub proof fn lemma_on_line_contains(around: Seq<Incidence>, line: LineIndex, at: int)
    requires
        0 <= at < around.len(),
        around[at].segment.line == line,
    ensures
        on_line(around, line).contains(around[at]),
    decreases around.len(),
{
    let front = around.drop_last();
    let all = on_line(around, line);
    if at == around.len() - 1 {
        assert(all[all.len() - 1] == around[at]);
    } else {
        lemma_on_line_contains(front, line, at);
        let rest = on_line(front, line);
        let k = choose|k: int| 0 <= k < rest.len() && rest[k] == front[at];
        assert(all[k] == rest[k]);
    }
}

/// Every planned segment rejoins some line, and there are no more of them
/// than entries read.
pub proof fn lemma_rejoins_among(around: Seq<Incidence>, n: int, removed: StationIndex)
    requires
        0 <= n <= around.len(),
    ensures
        rejoins_among(around, n, removed).len() <= n,
        forall|k: int|
            0 <= k < rejoins_among(around, n, removed).len() ==> exists|line: LineIndex|
                rejoin_for(around, line, removed) == Some(
                    #[trigger] rejoins_among(around, n, removed)[k],
                ),
    decreases n,
{
    if n > 0 {
        lemma_rejoins_among(around, n - 1, removed);
        let rest = rejoins_among(around, n - 1, removed);
        let all = rejoins_among(around, n, removed);
        assert forall|k: int| 0 <= k < all.len() implies exists|line: LineIndex|
            rejoin_for(around, line, removed) == Some(#[trigger] all[k]) by {
            if k < rest.len() {
                assert(all[k] == rest[k]);
            } else {
                assert(rejoin_for(around, around[n - 1].segment.line, removed) == Some(all[k]));
            }
        }
    }
}

/// Decides which lines are rejoined when `removed` leaves, from the segments
/// around it.
pub fn plan_rejoins(around: &Vec<Incidence>, removed: StationIndex) -> (plan: Vec<Link>)
    ensures
        plan@ == rejoins(around@, removed),
{
    let mut tallies: HashMap<LineIndex, Tally> = HashMap::new();
    let mut i: usize = 0;
    assert(around@.take(0) =~= Seq::<Incidence>::empty());
    while i < around.len()
        invariant
            i <= around.len(),
            tallied(tallies@, around@.take(i as int)),
        decreases around.len() - i,
    {
        let entry: Incidence = around[i];
        let line: LineIndex = entry.segment.line;
        let ghost before = tallies@;
        let ghost seen = around@.take(i as int);
        let ghost next = around@.take(i + 1);
        assert(next.drop_last() =~= seen);
        assert(next.last() == entry);
        let known: Option<Tally> = match tallies.get(&line) {
            Some(t) => Some(*t),
            None => None,
        };
        match known {
            None => {
                tallies.insert(line, Tally::One { first: entry });
            },
            Some(Tally::One { first }) => {
                tallies.insert(line, Tally::Two { first, second: entry.neighbor });
            },
            Some(Tally::Two { .. }) => {
                tallies.insert(line, Tally::Many);
            },
            Some(Tally::Many) => {},
        }
        assert forall|l: LineIndex|
            (#[trigger] tallies@.contains_key(l) <==> on_line(next, l).len() > 0) && (
            tallies@.contains_key(l) ==> tallies@[l] == tally_of(on_line(next, l))) by {
            assert(before.contains_key(l) <==> on_line(seen, l).len() > 0);
        }
        i += 1;
    }
    assert(around@.take(i as int) =~= around@);
    let ghost all = tallies@;
    let mut plan: Vec<Link> = Vec::new();
    let mut j: usize = 0;
    assert(around@.take(0) =~= Seq::<Incidence>::empty());
    while j < around.len()
        invariant
            j <= around.len(),
            tallied(all, around@),
            remaining(tallies@, all, around@.take(j as int)),
            plan@ == rejoins_among(around@, j as int, removed),
        decreases around.len() - j,
    {
        let entry: Incidence = around[j];
        let line: LineIndex = entry.segment.line;
        let ghost before = tallies@;
        let ghost done = around@.take(j as int);
        let ghost next = around@.take(j + 1);
        assert(next.drop_last() =~= done);
        assert(next.last() == entry);
        proof {
            lemma_on_line_take(around@, j + 1, line);
            assert(all.contains_key(line));
            assert(before.contains_key(line) <==> opens_line(around@, j as int));
        }
        let found: Option<Tally> = tallies.remove(&line);
        match found {
            Some(Tally::Two { first, second }) => {
                if first.neighbor != removed && second != removed {
                    plan.push(Link { source: first.neighbor, target: second, segment: first.segment });
                }
            },
            _ => {},
        }
        assert forall|l: LineIndex|
            (#[trigger] tallies@.contains_key(l) <==> all.contains_key(l) && on_line(next, l).len()
                == 0) && (tallies@.contains_key(l) ==> tallies@[l] == all[l]) by {
            assert(before.contains_key(l) <==> all.contains_key(l) && on_line(done, l).len() == 0);
        }
        j += 1;
    }
    plan
}

} // verus!
