//! The plain data of a map: stations, lines, segments and how a segment is
//! routed.

use vstd::prelude::*;
use crate::color::Rgb;
use crate::geometry::Point;

verus! {

/// Identifies a station: its position in the map's list of stations.
pub type StationIndex = u16;

/// Identifies a line: its position in the map's palette.
pub type LineIndex = u16;

/// A stop on the map.
#[derive(Clone, Copy, Debug, PartialEq, Eq, Structural)]
pub struct Station {
    pub position: Point,
}

/// A route, told apart by its colour.
#[derive(Clone, Copy, Debug, PartialEq, Eq, Structural)]
pub struct Line {
    pub color: Rgb,
}

/// Which leg of a route runs along an axis.
#[derive(Clone, Copy, Debug, PartialEq, Eq, Structural)]
pub enum InterpolationDirection {
    Auto,
    Horizontal,
    Vertical,
    Diagonal,
}

/// How the path between the two ends of a segment is found.
#[derive(Clone, Copy, Debug, PartialEq, Eq, Structural)]
pub enum Interpolation {
    Auto(InterpolationDirection),
}

/// What a segment carries besides its two ends.
#[derive(Clone, Copy, Debug, PartialEq, Eq, Structural)]
pub struct Segment {
    pub line: LineIndex,
    pub interpolation: Interpolation,
}

/// A segment together with the two stations it joins.
#[derive(Clone, Copy, Debug, PartialEq, Eq, Structural)]
pub struct Link {
    pub source: StationIndex,
    pub target: StationIndex,
    pub segment: Segment,
}

/// A segment as seen from one of its ends: the station at the other end and
/// what the segment carries.
#[derive(Clone, Copy, Debug, PartialEq, Eq, Structural)]
pub struct Incidence {
    pub neighbor: StationIndex,
    pub segment: Segment,
}

impl Link {
    /// Whether `station` is one of the two ends.
    pub open spec fn touches(self, station: StationIndex) -> bool {
        self.source == station || self.target == station
    }

    /// Whether the link joins `a` and `b`, in either order.
    pub open spec fn joins(self, a: StationIndex, b: StationIndex) -> bool {
        (self.source == a && self.target == b) || (self.source == b && self.target == a)
    }

    /// The link as seen from `station`, which must be one of its ends.
    pub open spec fn seen_from(self, station: StationIndex) -> Incidence {
        Incidence {
            neighbor: if self.source == station {
                self.target
            } else {
                self.source
            },
            segment: self.segment,
        }
    }

    /// The link after station `last` has taken the index `freed`.
    pub open spec fn renumbered(self, last: StationIndex, freed: StationIndex) -> Link {
        Link {
            source: renumber(self.source, last, freed),
            target: renumber(self.target, last, freed),
            segment: self.segment,
        }
    }
}

/// The index of station `index` after station `last` has taken the index
/// `freed`.
pub open spec fn renumber(index: StationIndex, last: StationIndex, freed: StationIndex)
    -> StationIndex {
    if index == last {
        freed
    } else {
        index
    }
}

/// The links of `edges` that do not touch `removed`, in their order, each
/// renumbered for station `last` having taken the index `removed`.
pub open spec fn surviving(edges: Seq<Link>, removed: StationIndex, last: StationIndex) -> Seq<Link>
    decreases edges.len(),
{
    if edges.len() == 0 {
        Seq::empty()
    } else {
        let rest = surviving(edges.drop_last(), removed, last);
        if edges.last().touches(removed) {
            rest
        } else {
            rest.push(edges.last().renumbered(last, removed))
        }
    }
}

/// The links of `edges` that touch `station`, in their order, each as seen
/// from `station`.
pub open spec fn incidences(edges: Seq<Link>, station: StationIndex) -> Seq<Incidence>
    decreases edges.len(),
{
    if edges.len() == 0 {
        Seq::empty()
    } else {
        let rest = incidences(edges.drop_last(), station);
        if edges.last().touches(station) {
            rest.push(edges.last().seen_from(station))
        } else {
            rest
        }
    }
}

/// What the entries of `around` that lead to `neighbor` carry, in their
/// order.
pub open spec fn leading_to(around: Seq<Incidence>, neighbor: StationIndex) -> Seq<Segment>
    decreases around.len(),
{
    if around.len() == 0 {
        Seq::empty()
    } else {
        let rest = leading_to(around.drop_last(), neighbor);
        if around.last().neighbor == neighbor {
            rest.push(around.last().segment)
        } else {
            rest
        }
    }
}

/// `items` after the item at `index` has left and the last item has taken
/// its place.
pub open spec fn swap_removed<T>(items: Seq<T>, index: int) -> Seq<T>
    recommends
        0 <= index < items.len(),
{
    items.update(index, items.last()).drop_last()
}

/// Whether `stamps` tell the order in which `n` stations were added: each
/// station has one of the numbers below `n`, the number of stations added
/// before it, and no two have the same.
pub open spec fn stamps_count(stamps: Seq<StationIndex>, n: int) -> bool {
    &&& stamps.len() == n
    &&& forall|i: int| 0 <= i < stamps.len() ==> (#[trigger] stamps[i]) < n
    &&& forall|i: int, j: int|
        #![trigger stamps[i], stamps[j]]
        0 <= i < j < stamps.len() ==> stamps[i] != stamps[j]
}

/// `stamps` once the station with the stamp `gone` is no longer among them:
/// every later station counts one station fewer before it.
pub open spec fn closed_up(stamps: Seq<StationIndex>, gone: StationIndex) -> Seq<StationIndex> {
    Seq::new(
        stamps.len(),
        |i: int|
            if stamps[i] > gone {
                (stamps[i] - 1) as StationIndex
            } else {
                stamps[i]
            },
    )
}

/// The stamps after the station at `index` has left.
pub open spec fn stamps_without(stamps: Seq<StationIndex>, index: int) -> Seq<StationIndex> {
    closed_up(swap_removed(stamps, index), stamps[index])
}

/// When a station leaves, the stamps of the others still tell the order in
/// which they were added: they number one station fewer, and of any two
/// stations the one added first still has the lower stamp.
pub proof fn lemma_stamps_without(stamps: Seq<StationIndex>, index: int)
    requires
        stamps_count(stamps, stamps.len() as int),
        0 <= index < stamps.len(),
    ensures
        stamps_count(stamps_without(stamps, index), stamps.len() - 1),
        forall|i: int, j: int|
            #![trigger stamps_without(stamps, index)[i], stamps_without(stamps, index)[j]]
            0 <= i < stamps.len() - 1 && 0 <= j < stamps.len() - 1 ==> (stamps_without(
                stamps,
                index,
            )[i] < stamps_without(stamps, index)[j]) == (swap_removed(stamps, index)[i]
                < swap_removed(stamps, index)[j]),
        forall|i: int|
            0 <= i < stamps.len() - 1 ==> #[trigger] swap_removed(stamps, index)[i] == stamps[if i
                == index {
                stamps.len() - 1
            } else {
                i
            }],
{
    let n = stamps.len() as int;
    let moved = swap_removed(stamps, index);
    let gone = stamps[index];
    let closed = stamps_without(stamps, index);
    assert forall|i: int| 0 <= i < n - 1 implies #[trigger] moved[i] == stamps[if i == index {
        n - 1
    } else {
        i
    }] && moved[i] != gone by {
        if i == index {
            assert(stamps[index] != stamps[n - 1]);
        } else if i < index {
            assert(stamps[i] != stamps[index]);
        } else {
            assert(stamps[index] != stamps[i]);
        }
    }
    assert forall|i: int, j: int| 0 <= i < j < n - 1 implies moved[i] != moved[j] by {
        let a = if i == index {
            n - 1
        } else {
            i
        };
        let b = if j == index {
            n - 1
        } else {
            j
        };
        assert(moved[i] == stamps[a] && moved[j] == stamps[b]);
        if a < b {
            assert(stamps[a] != stamps[b]);
        } else {
            assert(stamps[b] != stamps[a]);
        }
    }
    assert forall|i: int| 0 <= i < closed.len() implies (#[trigger] closed[i]) < n - 1 by {
        assert(moved[i] != gone);
    }
    assert forall|i: int, j: int| 0 <= i < j < closed.len() implies closed[i] != closed[j] by {
        assert(moved[i] != moved[j]);
        assert(moved[i] != gone && moved[j] != gone);
    }
    assert forall|i: int, j: int| 0 <= i < n - 1 && 0 <= j < n - 1 implies (closed[i] < closed[j])
        == (moved[i] < moved[j]) by {
        assert(moved[i] != gone && moved[j] != gone);
    }
}

/// Whether two sequences hold the same items, each as often as the other.
pub open spec fn same_items<T>(a: Seq<T>, b: Seq<T>) -> bool {
    a.to_multiset() == b.to_multiset()
}

/// Sequences with the same items hold the same values.
pub proof fn lemma_same_items_contains<T>(a: Seq<T>, b: Seq<T>, x: T)
    requires
        same_items(a, b),
    ensures
        a.contains(x) <==> b.contains(x),
{
    vstd::seq_lib::to_multiset_contains(a, x);
    vstd::seq_lib::to_multiset_contains(b, x);
}

/// Sequences with the same items are equally long.
pub proof fn lemma_same_items_len<T>(a: Seq<T>, b: Seq<T>)
    requires
        same_items(a, b),
    ensures
        a.len() == b.len(),
{
    vstd::seq_lib::to_multiset_len(a);
    vstd::seq_lib::to_multiset_len(b);
}

/// `links` with every link renumbered for station `last` having taken the
/// index `freed`.
pub open spec fn renumbered_all(links: Seq<Link>, last: StationIndex, freed: StationIndex) -> Seq<Link> {
    Seq::new(links.len(), |i: int| links[i].renumbered(last, freed))
}

/// An entry is among the incidences of `station` exactly if it is how some
/// link that touches the station looks from there.
pub proof fn lemma_incidences_member(edges: Seq<Link>, station: StationIndex, entry: Incidence)
    ensures
        incidences(edges, station).contains(entry) <==> exists|i: int|
            0 <= i < edges.len() && (#[trigger] edges[i]).touches(station) && edges[i].seen_from(
                station,
            ) == entry,
    decreases edges.len(),
{
    if edges.len() > 0 {
        let front = edges.drop_last();
        let n = edges.len() - 1;
        lemma_incidences_member(front, station, entry);
        let rest = incidences(front, station);
        let all = incidences(edges, station);
        assert(edges[n] == edges.last());
        if all.contains(entry) {
            let k = choose|k: int| 0 <= k < all.len() && all[k] == entry;
            if edges.last().touches(station) && k == all.len() - 1 {
                assert(edges[n].touches(station) && edges[n].seen_from(station) == entry);
            } else {
                assert(rest[k] == entry);
                let i = choose|i: int|
                    0 <= i < front.len() && (#[trigger] front[i]).touches(station)
                        && front[i].seen_from(station) == entry;
                assert(edges[i] == front[i]);
            }
        }
        if exists|i: int|
            0 <= i < edges.len() && (#[trigger] edges[i]).touches(station) && edges[i].seen_from(
                station,
            ) == entry {
            let i = choose|i: int|
                0 <= i < edges.len() && (#[trigger] edges[i]).touches(station)
                    && edges[i].seen_from(station) == entry;
            if i == n {
                assert(all[all.len() - 1] == entry);
            } else {
                assert(front[i] == edges[i]);
                let k = choose|k: int| 0 <= k < rest.len() && rest[k] == entry;
                assert(all[k] == entry);
            }
        }
    }
}

/// A segment is among those leading to `neighbor` exactly if some entry
/// with that neighbour carries it.
pub proof fn lemma_leading_to_member(around: Seq<Incidence>, neighbor: StationIndex, segment: Segment)
    ensures
        leading_to(around, neighbor).contains(segment) <==> exists|i: int|
            0 <= i < around.len() && (#[trigger] around[i]).neighbor == neighbor
                && around[i].segment == segment,
    decreases around.len(),
{
    if around.len() > 0 {
        let front = around.drop_last();
        let n = around.len() - 1;
        lemma_leading_to_member(front, neighbor, segment);
        let rest = leading_to(front, neighbor);
        let all = leading_to(around, neighbor);
        assert(around[n] == around.last());
        if all.contains(segment) {
            let k = choose|k: int| 0 <= k < all.len() && all[k] == segment;
            if around.last().neighbor == neighbor && k == all.len() - 1 {
                assert(around[n].neighbor == neighbor && around[n].segment == segment);
            } else {
                assert(rest[k] == segment);
                let i = choose|i: int|
                    0 <= i < front.len() && (#[trigger] front[i]).neighbor == neighbor
                        && front[i].segment == segment;
                assert(around[i] == front[i]);
            }
        }
        if exists|i: int|
            0 <= i < around.len() && (#[trigger] around[i]).neighbor == neighbor
                && around[i].segment == segment {
            let i = choose|i: int|
                0 <= i < around.len() && (#[trigger] around[i]).neighbor == neighbor
                    && around[i].segment == segment;
            if i == n {
                assert(all[all.len() - 1] == segment);
            } else {
                assert(front[i] == around[i]);
                let k = choose|k: int| 0 <= k < rest.len() && rest[k] == segment;
                assert(all[k] == segment);
            }
        }
    }
}

/// Every surviving link is a link that does not touch the removed station,
/// renumbered.
pub proof fn lemma_surviving_member(
    edges: Seq<Link>,
    removed: StationIndex,
    last: StationIndex,
    link: Link,
)
    requires
        surviving(edges, removed, last).contains(link),
    ensures
        exists|i: int|
            0 <= i < edges.len() && !(#[trigger] edges[i]).touches(removed) && link
                == edges[i].renumbered(last, removed),
    decreases edges.len(),
{
    let front = edges.drop_last();
    let n = edges.len() - 1;
    let rest = surviving(front, removed, last);
    let all = surviving(edges, removed, last);
    let k = choose|k: int| 0 <= k < all.len() && all[k] == link;
    assert(edges.len() > 0);
    assert(edges[n] == edges.last());
    if !edges.last().touches(removed) && k == all.len() - 1 {
        assert(!edges[n].touches(removed) && link == edges[n].renumbered(last, removed));
    } else {
        assert(rest[k] == link);
        lemma_surviving_member(front, removed, last, link);
        let i = choose|i: int|
            0 <= i < front.len() && !(#[trigger] front[i]).touches(removed) && link
                == front[i].renumbered(last, removed);
        assert(edges[i] == front[i]);
    }
}

/// Every link that does not touch the removed station survives,
/// renumbered.
pub proof fn lemma_surviving_contains(
    edges: Seq<Link>,
    removed: StationIndex,
    last: StationIndex,
    at: int,
)
    requires
        0 <= at < edges.len(),
        !edges[at].touches(removed),
    ensures
        surviving(edges, removed, last).contains(edges[at].renumbered(last, removed)),
    decreases edges.len(),
{
    let front = edges.drop_last();
    let all = surviving(edges, removed, last);
    if at == edges.len() - 1 {
        assert(all[all.len() - 1] == edges[at].renumbered(last, removed));
    } else {
        lemma_surviving_contains(front, removed, last, at);
        let rest = surviving(front, removed, last);
        let k = choose|k: int| 0 <= k < rest.len() && rest[k] == front[at].renumbered(last, removed);
        assert(all[k] == rest[k]);
    }
}

/// Every link either survives the removal of a station or is one of its
/// incidences.
pub proof fn lemma_surviving_len(edges: Seq<Link>, removed: StationIndex, last: StationIndex)
    ensures
        surviving(edges, removed, last).len() + incidences(edges, removed).len() == edges.len(),
    decreases edges.len(),
{
    if edges.len() > 0 {
        lemma_surviving_len(edges.drop_last(), removed, last);
    }
}

} // verus!
