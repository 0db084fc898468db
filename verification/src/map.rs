//! The topology of a map: stations, and segments that join them on a line.

use vstd::prelude::*;
use crate::color::{unpacked, Rgb};
use crate::counting::{
    lemma_count_after_removal, lemma_count_rejoins, lemma_count_renumbered, segments_on,
};
use crate::geometry::{dist_sq, distance_squared, Point, STATION_OUTER_SIZE};
use crate::graph::{
    graph_add_edge, graph_add_node, graph_all_edges, graph_all_nodes, graph_clear,
    graph_edge_count, graph_edges, graph_edges_at, graph_edges_between, graph_incident,
    graph_new, graph_node, graph_node_count, graph_nodes, graph_remove_node, StationGraph,
    GRAPH_LIMIT,
};
use crate::model::{
    closed_up, incidences, leading_to, lemma_incidences_member, lemma_leading_to_member,
    lemma_same_items_contains, lemma_same_items_len, lemma_stamps_without,
    lemma_surviving_contains, lemma_surviving_len, lemma_surviving_member, renumber,
    renumbered_all, same_items, stamps_count, stamps_without, surviving, swap_removed, Incidence,
    Interpolation, InterpolationDirection, Line, LineIndex, Link, Segment, Station, StationIndex,
};
use crate::rejoin::{
    lemma_on_line_contains, lemma_on_line_member, lemma_rejoins_among, on_line, plan_rejoins,
    rejoin_for, rejoins,
};

verus! {

/// The number of lines of a new map.
pub const DEFAULT_LINES: usize = 6;

/// The packed colour of line `index` of a new map.
pub open spec fn default_color(index: int) -> u32 {
    if index == 0 {
        0x33bbff
    } else if index == 1 {
        0x3cbe3c
    } else if index == 2 {
        0xff714d
    } else if index == 3 {
        0xbf60bf
    } else if index == 4 {
        0xff9600
    } else {
        0xffd700
    }
}

/// The lines of a new map.
pub open spec fn default_lines() -> Seq<Line> {
    Seq::new(DEFAULT_LINES as nat, |i: int| Line { color: unpacked(default_color(i)) })
}

/// Whether every link of `links` joins two of `stations` stations on one of
/// `lines` lines.
pub open spec fn links_resolve(links: Seq<Link>, stations: int, lines: int) -> bool {
    forall|i: int|
        0 <= i < links.len() ==> (#[trigger] links[i]).source < stations && links[i].target
            < stations && links[i].segment.line < lines
}

/// The segment of `line` from `start` to `end` as it is when added: routed
/// automatically.
pub open spec fn new_link(line: LineIndex, start: StationIndex, end: StationIndex) -> Link {
    Link {
        source: start,
        target: end,
        segment: Segment { line, interpolation: Interpolation::Auto(InterpolationDirection::Auto) },
    }
}

/// Whether every link of `links` has both its ends among `stations`
/// stations.
pub open spec fn ends_live(links: Seq<Link>, stations: int) -> bool {
    forall|i: int|
        0 <= i < links.len() ==> (#[trigger] links[i]).source < stations && links[i].target
            < stations
}

/// Whether station `i` is one of the first `n` stations and the pointer at
/// `p` is on it.
pub open spec fn hits(stations: Seq<Station>, n: int, p: Point, i: int) -> bool {
    0 <= i < n && i < stations.len() && dist_sq(stations[i].position, p) < STATION_OUTER_SIZE
        * STATION_OUTER_SIZE
}

/// Whether `found` is the station among the first `n` that a pointer at `p`
/// is on: of the stations that it hits the nearest one, and of several
/// nearest ones the one that was added last, which has the greatest stamp;
/// none where it hits none.
pub open spec fn nearest_hit(
    stations: Seq<Station>,
    stamps: Seq<StationIndex>,
    n: int,
    p: Point,
    found: Option<StationIndex>,
) -> bool {
    match found {
        None => forall|i: int| !#[trigger] hits(stations, n, p, i),
        Some(k) => {
            &&& hits(stations, n, p, k as int)
            &&& forall|i: int| #[trigger]
                hits(stations, n, p, i) ==> dist_sq(stations[k as int].position, p) < dist_sq(
                    stations[i].position,
                    p,
                ) || (dist_sq(stations[k as int].position, p) == dist_sq(stations[i].position, p)
                    && stamps[i] <= stamps[k as int])
        },
    }
}

/// The station that a pointer at `p` is on, if any.
pub open spec fn station_under(stations: Seq<Station>, stamps: Seq<StationIndex>, p: Point)
    -> Option<StationIndex> {
    choose|found: Option<StationIndex>|
        nearest_hit(stations, stamps, stations.len() as int, p, found)
}

/// At most one answer is the nearest hit.
pub proof fn lemma_nearest_hit_unique(
    stations: Seq<Station>,
    stamps: Seq<StationIndex>,
    n: int,
    p: Point,
    first: Option<StationIndex>,
    second: Option<StationIndex>,
)
    requires
        stamps_count(stamps, stations.len() as int),
        nearest_hit(stations, stamps, n, p, first),
        nearest_hit(stations, stamps, n, p, second),
    ensures
        first == second,
{
    if let Some(k) = first {
        assert(hits(stations, n, p, k as int));
    }
    if let Some(k) = second {
        assert(hits(stations, n, p, k as int));
    }
    if let (Some(a), Some(b)) = (first, second) {
        if a < b {
            assert(stamps[a as int] != stamps[b as int]);
        } else if b < a {
            assert(stamps[b as int] != stamps[a as int]);
        }
    }
}

/// The nearest hit among the first `n` stations, found one station at a
/// time.
pub open spec fn scan_hit(stations: Seq<Station>, stamps: Seq<StationIndex>, n: int, p: Point)
    -> Option<StationIndex>
    decreases n,
{
    if n <= 0 {
        None
    } else {
        let before = scan_hit(stations, stamps, n - 1, p);
        let d = dist_sq(stations[n - 1].position, p);
        if hits(stations, n, p, n - 1) && (before matches Some(k) ==> d < dist_sq(
            stations[k as int].position,
            p,
        ) || (d == dist_sq(stations[k as int].position, p) && stamps[n - 1] > stamps[k as int])) {
            Some((n - 1) as StationIndex)
        } else {
            before
        }
    }
}

/// Scanning finds the nearest hit.
pub proof fn lemma_scan_hit(stations: Seq<Station>, stamps: Seq<StationIndex>, n: int, p: Point)
    requires
        0 <= n <= stations.len() <= GRAPH_LIMIT,
    ensures
        nearest_hit(stations, stamps, n, p, scan_hit(stations, stamps, n, p)),
    decreases n,
{
    if n > 0 {
        lemma_scan_hit(stations, stamps, n - 1, p);
        let before = scan_hit(stations, stamps, n - 1, p);
        let found = scan_hit(stations, stamps, n, p);
        assert forall|j: int| #[trigger] hits(stations, n, p, j) implies hits(
            stations,
            n - 1,
            p,
            j,
        ) || j == n - 1 by {}
        if let Some(k) = before {
            assert(hits(stations, n - 1, p, k as int));
        }
        if let Some(k) = found {
            assert(hits(stations, n, p, k as int));
        }
    }
}

/// Among at most 65535 stations the pointer is on exactly one answer: the
/// station under it is the nearest hit, and it is a station of the map.
pub proof fn lemma_station_under(stations: Seq<Station>, stamps: Seq<StationIndex>, p: Point)
    requires
        stations.len() <= GRAPH_LIMIT,
    ensures
        nearest_hit(stations, stamps, stations.len() as int, p, station_under(stations, stamps, p)),
        station_under(stations, stamps, p) matches Some(k) ==> k < stations.len(),
{
    lemma_scan_hit(stations, stamps, stations.len() as int, p);
}

/// The segments that rejoin the lines through `removed`, with the indices
/// that the stations have once station `last` has taken its place.
pub open spec fn rejoined(around: Seq<Incidence>, removed: StationIndex, last: StationIndex) -> Seq<Link> {
    renumbered_all(rejoins(around, removed), last, removed)
}

/// Whether `link` can be added once `removed` has left a map of `stations`
/// stations and `lines` lines.
spec fn plannable(link: Link, removed: StationIndex, stations: int, lines: int) -> bool {
    &&& link.source < stations
    &&& link.target < stations
    &&& link.source != removed
    &&& link.target != removed
    &&& link.segment.line < lines
}

/// Takes the stamp at `index` out of `stamps`, as a station leaves a map:
/// the last stamp takes its place, and the stamps close up.
fn close_up(stamps: &mut Vec<StationIndex>, index: usize)
    requires
        index < old(stamps).len(),
    ensures
        final(stamps)@ == stamps_without(old(stamps)@, index as int),
{
    let gone = stamps.swap_remove(index);
    let ghost moved = stamps@;
    let mut k: usize = 0;
    while k < stamps.len()
        invariant
            k <= stamps.len(),
            stamps@.len() == moved.len(),
            forall|i: int|
                0 <= i < k ==> #[trigger] stamps@[i] == closed_up(moved, gone)[i],
            forall|i: int| k <= i < stamps.len() ==> #[trigger] stamps@[i] == moved[i],
        decreases stamps.len() - k,
    {
        let stamp = stamps[k];
        if stamp > gone {
            stamps.set(k, stamp - 1);
        }
        k += 1;
    }
    assert(stamps@ =~= closed_up(moved, gone));
}

/// Stations, the segments between them, and the palette of lines. The map
/// remembers the order in which its stations were added.
#[derive(Debug)]
pub struct TransitMap {
    graph: StationGraph,
    lines: Vec<Line>,
    stamps: Vec<StationIndex>,
}

impl TransitMap {
    /// The stations, by index.
    pub closed spec fn stations(&self) -> Seq<Station> {
        graph_nodes(self.graph)
    }

    /// The segments with the stations they join.
    pub closed spec fn links(&self) -> Seq<Link> {
        graph_edges(self.graph)
    }

    /// The segments at `station` as seen from it, in the order in which the
    /// map lists them.
    pub closed spec fn around(&self, station: StationIndex) -> Seq<Incidence> {
        graph_incident(self.graph, station)
    }

    /// The lines, by index.
    pub closed spec fn lines(&self) -> Seq<Line> {
        self.lines@
    }

    /// The stamp of each station, by index: the number of stations of the
    /// map that were added before it.
    pub closed spec fn stamps(&self) -> Seq<StationIndex> {
        self.stamps@
    }

    /// The station that a pointer at `p` is on, if any.
    pub open spec fn under(&self, p: Point) -> Option<StationIndex> {
        station_under(self.stations(), self.stamps(), p)
    }

    /// The map is well formed: every segment joins two stations of the map
    /// on one of its lines, the lines are those of a new map, the stamps
    /// tell the order in which the stations were added, and stations and
    /// segments can be counted in 16 bits.
    pub open spec fn wf(&self) -> bool {
        &&& self.stations().len() <= GRAPH_LIMIT
        &&& self.links().len() <= GRAPH_LIMIT
        &&& self.lines() == default_lines()
        &&& links_resolve(self.links(), self.stations().len() as int, self.lines().len() as int)
        &&& stamps_count(self.stamps(), self.stations().len() as int)
    }

    /// The map has no stations and no segments, and the lines of a new map.
    pub open spec fn is_fresh(&self) -> bool {
        &&& self.stations() == Seq::<Station>::empty()
        &&& self.links() == Seq::<Link>::empty()
        &&& self.lines() == default_lines()
        &&& self.stamps() == Seq::<StationIndex>::empty()
    }

    /// Whether a segment of `line` joins `a` and `b`.
    pub open spec fn joined(&self, line: LineIndex, a: StationIndex, b: StationIndex) -> bool {
        exists|i: int|
            0 <= i < self.links().len() && (#[trigger] self.links()[i]).joins(a, b)
                && self.links()[i].segment.line == line
    }

    /// Whether `after` comes from `before` by the adding of one station, or of
    /// one segment between two stations of `before`.
    pub open spec fn grows(before: TransitMap, after: TransitMap) -> bool {
        ||| after.links() == before.links() && exists|station: Station|
            after.stations() == #[trigger] before.stations().push(station)
        ||| after.stations() == before.stations() && exists|link: Link|
            link.source < before.stations().len() && link.target < before.stations().len()
                && after.links() == #[trigger] before.links().push(link)
    }

    /// How `after` comes from `before` by the removal of the station at
    /// `index`. The last station takes the freed index. Of the segments,
    /// those that touched the station are gone, the others follow the
    /// renumbering, and each line that passed through the station has one
    /// new segment between its two neighbours. The stamps go with their
    /// stations and close up. The lines stay.
    pub open spec fn removal(before: TransitMap, after: TransitMap, index: StationIndex) -> bool {
        let last = (before.stations().len() - 1) as StationIndex;
        &&& index < before.stations().len()
        &&& after.stations() == swap_removed(before.stations(), index as int)
        &&& after.stamps() == stamps_without(before.stamps(), index as int)
        &&& after.lines() == before.lines()
        &&& same_items(before.around(index), incidences(before.links(), index))
        &&& same_items(
            after.links(),
            surviving(before.links(), index, last) + rejoined(before.around(index), index, last),
        )
    }

    /// The number of stations.
    pub fn station_count(&self) -> (n: usize)
        ensures
            n == self.stations().len(),
    {
        graph_node_count(&self.graph)
    }

    /// The number of segments.
    pub fn segment_count(&self) -> (n: usize)
        ensures
            n == self.links().len(),
    {
        graph_edge_count(&self.graph)
    }

    /// The number of lines.
    pub fn line_count(&self) -> (n: usize)
        ensures
            n == self.lines().len(),
    {
        self.lines.len()
    }

    /// The line at `index`, if there is one.
    pub fn line(&self, index: LineIndex) -> (line: Option<Line>)
        ensures
            line == if index < self.lines().len() {
                Some(self.lines()[index as int])
            } else {
                None
            },
    {
        if (index as usize) < self.lines.len() {
            Some(self.lines[index as usize])
        } else {
            None
        }
    }

    /// The station at `index`, if there is one.
    pub fn station(&self, index: StationIndex) -> (station: Option<Station>)
        ensures
            station == if index < self.stations().len() {
                Some(self.stations()[index as int])
            } else {
                None
            },
    {
        graph_node(&self.graph, index)
    }

    /// All stations, by index.
    pub fn station_list(&self) -> (stations: Vec<Station>)
        ensures
            stations@ == self.stations(),
    {
        graph_all_nodes(&self.graph)
    }

    /// All segments with the stations they join.
    pub fn segments(&self) -> (links: Vec<Link>)
        ensures
            links@ == self.links(),
    {
        graph_all_edges(&self.graph)
    }

    /// The segments at `station`, each as seen from it. They are the
    /// segments of the map that touch the station, in an order of the map's
    /// own.
    pub fn incident(&self, station: StationIndex) -> (around: Vec<Incidence>)
        ensures
            around@ == self.around(station),
            same_items(around@, incidences(self.links(), station)),
    {
        graph_edges_at(&self.graph, station)
    }

    /// The stamp of the station at `index`, if there is such a station: the
    /// number of stations of the map that were added before it.
    pub fn stamp(&self, index: StationIndex) -> (stamp: Option<StationIndex>)
        ensures
            stamp == if index < self.stamps().len() {
                Some(self.stamps()[index as int])
            } else {
                None
            },
    {
        if (index as usize) < self.stamps.len() {
            Some(self.stamps[index as usize])
        } else {
            None
        }
    }

    /// Adds a station and returns its index. The position is taken as it is.
    /// The station is the last one added: its stamp is the greatest.
    pub fn add_station(&mut self, station: Station) -> (index: StationIndex)
        requires
            old(self).wf(),
            old(self).stations().len() < GRAPH_LIMIT,
        ensures
            final(self).wf(),
            final(self).stations() == old(self).stations().push(station),
            final(self).stamps() == old(self).stamps().push(index),
            final(self).links() == old(self).links(),
            final(self).lines() == old(self).lines(),
            index == old(self).stations().len(),
            Self::grows(*old(self), *final(self)),
    {
        let index = graph_add_node(&mut self.graph, station);
        self.stamps.push(index);
        assert(self.stations() == old(self).stations().push(station));
        index
    }

    /// Adds a station if the map has room for one, and returns its index.
    /// A full map stays as it is.
    pub fn try_add_station(&mut self, station: Station) -> (index: Option<StationIndex>)
        requires
            old(self).wf(),
        ensures
            final(self).wf(),
            final(self).links() == old(self).links(),
            final(self).lines() == old(self).lines(),
            old(self).stations().len() < GRAPH_LIMIT ==> {
                &&& index == Some(old(self).stations().len() as StationIndex)
                &&& final(self).stations() == old(self).stations().push(station)
                &&& final(self).stamps() == old(self).stamps().push(
                    old(self).stations().len() as StationIndex,
                )
            },
            old(self).stations().len() >= GRAPH_LIMIT ==> {
                &&& index.is_none()
                &&& final(self).stations() == old(self).stations()
                &&& final(self).stamps() == old(self).stamps()
            },
    {
        if self.station_count() < GRAPH_LIMIT {
            Some(self.add_station(station))
        } else {
            None
        }
    }

    /// Adds a segment of `line` between `start` and `end`, routed
    /// automatically. A segment that the line already has between the two is
    /// not looked for: the new one is added beside it.
    pub fn add_segment(&mut self, line: LineIndex, start: StationIndex, end: StationIndex)
        requires
            old(self).wf(),
            start < old(self).stations().len(),
            end < old(self).stations().len(),
            line < old(self).lines().len(),
            old(self).links().len() < GRAPH_LIMIT,
        ensures
            final(self).wf(),
            final(self).stations() == old(self).stations(),
            final(self).stamps() == old(self).stamps(),
            final(self).lines() == old(self).lines(),
            final(self).links() == old(self).links().push(new_link(line, start, end)),
            Self::grows(*old(self), *final(self)),
    {
        graph_add_edge(
            &mut self.graph,
            start,
            end,
            Segment { line, interpolation: Interpolation::Auto(InterpolationDirection::Auto) },
        );
        assert(self.links() == old(self).links().push(new_link(line, start, end)));
    }

    /// Whether a segment of `line` can be added between `start` and `end`:
    /// both are stations of the map, the line is one of its lines, and there
    /// is room for one more segment.
    pub open spec fn takes_segment(&self, line: LineIndex, start: StationIndex, end: StationIndex) -> bool {
        &&& start < self.stations().len()
        &&& end < self.stations().len()
        &&& line < self.lines().len()
        &&& self.links().len() < GRAPH_LIMIT
    }

    /// Adds a segment of `line` between `start` and `end` if that can be
    /// done, and says whether it did. A segment to a station that the map
    /// does not have, or on a line that it does not have, is refused, and
    /// the map stays as it is.
    pub fn try_add_segment(&mut self, line: LineIndex, start: StationIndex, end: StationIndex) -> (added: bool)
        requires
            old(self).wf(),
        ensures
            final(self).wf(),
            final(self).stations() == old(self).stations(),
            final(self).stamps() == old(self).stamps(),
            final(self).lines() == old(self).lines(),
            added == old(self).takes_segment(line, start, end),
            added ==> final(self).links() == old(self).links().push(new_link(line, start, end)),
            !added ==> final(self).links() == old(self).links(),
    {
        let stations = self.station_count();
        if (start as usize) < stations && (end as usize) < stations && (line as usize)
            < self.line_count() && self.segment_count() < GRAPH_LIMIT {
            self.add_segment(line, start, end);
            true
        } else {
            false
        }
    }

    /// Whether `line` already has a segment between `a` and `b`, in either
    /// direction.
    pub fn has_segment(&self, line: LineIndex, a: StationIndex, b: StationIndex) -> (found: bool)
        ensures
            found == self.joined(line, a, b),
    {
        let between = graph_edges_between(&self.graph, a, b);
        let ghost around = incidences(self.links(), a);
        let ghost model = leading_to(around, b);
        let mut found = false;
        let mut k: usize = 0;
        while k < between.len()
            invariant
                k <= between.len(),
                found <==> exists|j: int| 0 <= j < k && (#[trigger] between@[j]).line == line,
            decreases between.len() - k,
        {
            if between[k].line == line {
                found = true;
            }
            k += 1;
        }
        proof {
            if found {
                let j = choose|j: int| 0 <= j < between.len() && (#[trigger] between@[j]).line == line;
                let segment = between@[j];
                assert(between@.contains(segment));
                lemma_same_items_contains(between@, model, segment);
                lemma_leading_to_member(around, b, segment);
                let i = choose|i: int|
                    0 <= i < around.len() && (#[trigger] around[i]).neighbor == b
                        && around[i].segment == segment;
                assert(around.contains(around[i]));
                lemma_incidences_member(self.links(), a, around[i]);
                let e = choose|e: int|
                    0 <= e < self.links().len() && (#[trigger] self.links()[e]).touches(a)
                        && self.links()[e].seen_from(a) == around[i];
                assert(self.links()[e].joins(a, b) && self.links()[e].segment.line == line);
            }
            if self.joined(line, a, b) {
                let e = choose|e: int|
                    0 <= e < self.links().len() && (#[trigger] self.links()[e]).joins(a, b)
                        && self.links()[e].segment.line == line;
                let link = self.links()[e];
                let entry = link.seen_from(a);
                assert(link.touches(a));
                lemma_incidences_member(self.links(), a, entry);
                assert(around.contains(entry));
                let i = choose|i: int| 0 <= i < around.len() && around[i] == entry;
                assert(around[i].neighbor == b && around[i].segment == link.segment);
                lemma_leading_to_member(around, b, link.segment);
                assert(model.contains(link.segment));
                lemma_same_items_contains(between@, model, link.segment);
                let j = choose|j: int| 0 <= j < between.len() && between@[j] == link.segment;
                assert(between@[j].line == line);
            }
        }
        found
    }

    /// The station that a pointer at `p` is on, if any: the nearest of the
    /// stations closer than the station radius, and of several nearest ones
    /// the one that was added last.
    pub fn find_station_at(&self, p: Point) -> (found: Option<StationIndex>)
        requires
            self.wf(),
        ensures
            nearest_hit(self.stations(), self.stamps(), self.stations().len() as int, p, found),
            found == self.under(p),
            found matches Some(k) ==> k < self.stations().len(),
    {
        let stations = self.station_list();
        let limit: i128 = (STATION_OUTER_SIZE as i128) * (STATION_OUTER_SIZE as i128);
        let mut best: Option<StationIndex> = None;
        let mut best_d: i128 = 0;
        let mut best_stamp: StationIndex = 0;
        let mut i: usize = 0;
        while i < stations.len()
            invariant
                i <= stations.len() <= GRAPH_LIMIT,
                self.stamps@.len() == stations.len(),
                limit == STATION_OUTER_SIZE * STATION_OUTER_SIZE,
                nearest_hit(stations@, self.stamps@, i as int, p, best),
                best matches Some(k) ==> best_d == dist_sq(stations@[k as int].position, p)
                    && best_stamp == self.stamps@[k as int],
            decreases stations.len() - i,
        {
            let d = distance_squared(stations[i].position, p);
            let stamp = self.stamps[i];
            let ghost before = best;
            if d < limit && (best.is_none() || d < best_d || (d == best_d && stamp > best_stamp)) {
                best = Some(i as u16);
                best_d = d;
                best_stamp = stamp;
            }
            proof {
                assert forall|j: int| #[trigger] hits(stations@, i + 1, p, j) implies hits(
                    stations@,
                    i as int,
                    p,
                    j,
                ) || j == i by {}
                if let Some(k) = before {
                    assert(hits(stations@, i as int, p, k as int));
                }
                if let Some(k) = best {
                    assert(hits(stations@, i + 1, p, k as int));
                }
            }
            i += 1;
        }
        proof {
            lemma_station_under(stations@, self.stamps@, p);
            lemma_nearest_hit_unique(
                stations@,
                self.stamps@,
                stations@.len() as int,
                p,
                best,
                station_under(stations@, self.stamps@, p),
            );
        }
        best
    }

    /// Removes the station at `index` with the segments that touch it, and
    /// rejoins each line that passed through it. Without such a station
    /// nothing changes.
    pub fn remove_station(&mut self, index: StationIndex)
        requires
            old(self).wf(),
        ensures
            final(self).wf(),
            index < old(self).stations().len() ==> Self::removal(*old(self), *final(self), index),
            index >= old(self).stations().len() ==> final(self).stations() == old(self).stations()
                && final(self).links() == old(self).links() && final(self).lines() == old(self).lines()
                && final(self).stamps() == old(self).stamps(),
    {
        let count = graph_node_count(&self.graph);
        if index as usize >= count {
            return ;
        }
        let around = graph_edges_at(&self.graph, index);
        let plan = plan_rejoins(&around, index);
        let last: StationIndex = (count - 1) as u16;
        let ghost links0 = self.links();
        let ghost lines = self.lines().len() as int;
        let ghost survivors = surviving(links0, index, last);
        let ghost added = rejoined(around@, index, last);
        proof {
            lemma_surviving_len(links0, index, last);
            lemma_rejoins_among(around@, around@.len() as int, index);
            assert forall|k: int| 0 <= k < plan@.len() implies plannable(
                #[trigger] plan@[k],
                index,
                count as int,
                lines,
            ) by {
                let line = choose|line: LineIndex|
                    rejoin_for(around@, line, index) == Some(plan@[k]);
                let group = on_line(around@, line);
                lemma_on_line_member(around@, line, 0);
                lemma_on_line_member(around@, line, 1);
                lemma_same_items_contains(around@, incidences(links0, index), group[0]);
                lemma_same_items_contains(around@, incidences(links0, index), group[1]);
                lemma_incidences_member(links0, index, group[0]);
                lemma_incidences_member(links0, index, group[1]);
            }
        }
        graph_remove_node(&mut self.graph, index);
        close_up(&mut self.stamps, index as usize);
        let ghost links1 = self.links();
        proof {
            lemma_stamps_without(old(self).stamps(), index as int);
            lemma_same_items_len(links1, survivors);
            lemma_same_items_len(around@, incidences(links0, index));
        }
        let mut k: usize = 0;
        while k < plan.len()
            invariant
                k <= plan.len(),
                index < count <= GRAPH_LIMIT,
                last == count - 1,
                self.lines() == old(self).lines(),
                self.stations() == swap_removed(old(self).stations(), index as int),
                self.stamps() == stamps_without(old(self).stamps(), index as int),
                stamps_count(self.stamps(), count - 1),
                self.stations().len() == count - 1,
                self.links() == links1 + added.take(k as int),
                added == rejoined(around@, index, last),
                plan@ == rejoins(around@, index),
                links1.len() + plan.len() <= GRAPH_LIMIT,
                forall|j: int|
                    0 <= j < plan@.len() ==> plannable(#[trigger] plan@[j], index, count as int, lines),
            decreases plan.len() - k,
        {
            let link = plan[k];
            assert(plannable(plan@[k as int], index, count as int, lines));
            let source = if link.source == last {
                index
            } else {
                link.source
            };
            let target = if link.target == last {
                index
            } else {
                link.target
            };
            graph_add_edge(&mut self.graph, source, target, link.segment);
            assert(added.take(k + 1) =~= added.take(k as int).push(added[k as int]));
            assert(self.links() =~= links1 + added.take(k + 1));
            k += 1;
        }
        proof {
            assert(added.take(k as int) =~= added);
            let links2 = self.links();
            vstd::seq_lib::lemma_multiset_commutative(links1, added);
            vstd::seq_lib::lemma_multiset_commutative(survivors, added);
            assert forall|i: int| 0 <= i < links2.len() implies (#[trigger] links2[i]).source
                < count - 1 && links2[i].target < count - 1 && links2[i].segment.line < lines by {
                if i < links1.len() {
                    assert(links1.contains(links1[i]));
                    lemma_same_items_contains(links1, survivors, links1[i]);
                    lemma_surviving_member(links0, index, last, links1[i]);
                } else {
                    assert(plannable(plan@[i - links1.len()], index, count as int, lines));
                }
            }
        }
    }

    /// Removes every station and every segment. The lines stay.
    pub fn clear(&mut self)
        ensures
            final(self).stations() == Seq::<Station>::empty(),
            final(self).links() == Seq::<Link>::empty(),
            final(self).stamps() == Seq::<StationIndex>::empty(),
            final(self).lines() == old(self).lines(),
            old(self).wf() ==> final(self).wf() && final(self).is_fresh(),
    {
        graph_clear(&mut self.graph);
        self.stamps.clear();
    }
}

/// Two maps that are as new have the same stations, segments and lines, so
/// that every question has the same answer on both.
pub proof fn lemma_fresh_maps_agree(first: TransitMap, second: TransitMap)
    requires
        first.is_fresh(),
        second.is_fresh(),
    ensures
        first.stations() == second.stations(),
        first.links() == second.links(),
        first.lines() == second.lines(),
        first.stamps() == second.stamps(),
        forall|p: Point| first.under(p) == second.under(p),
        forall|line: LineIndex, a: StationIndex, b: StationIndex|
            first.joined(line, a, b) == second.joined(line, a, b),
        forall|a: StationIndex| incidences(first.links(), a) == incidences(second.links(), a),
{
}

/// When a station is removed, each other station keeps its position, and
/// of any two of them the one that was added first still has the lower
/// stamp. So the order in which the stations were added outlives every
/// removal, whatever indices the stations get.
pub proof fn lemma_removal_keeps_order(
    before: TransitMap,
    after: TransitMap,
    index: StationIndex,
    first: StationIndex,
    second: StationIndex,
)
    requires
        before.wf(),
        TransitMap::removal(before, after, index),
        first < after.stations().len(),
        second < after.stations().len(),
    ensures
        ({
            let last = (before.stations().len() - 1) as StationIndex;
            let was_first = displaced(first, last, index);
            let was_second = displaced(second, last, index);
            &&& was_first != index && was_first < before.stations().len()
            &&& after.stations()[first as int] == before.stations()[was_first as int]
            &&& (after.stamps()[first as int] < after.stamps()[second as int]) == (
            before.stamps()[was_first as int] < before.stamps()[was_second as int])
        }),
{
    let stamps = before.stamps();
    lemma_stamps_without(stamps, index as int);
    let closed = stamps_without(stamps, index as int);
    let moved = swap_removed(stamps, index as int);
    assert((closed[first as int] < closed[second as int]) == (moved[first as int]
        < moved[second as int]));
    assert(moved[first as int] == stamps[if first == index {
        stamps.len() - 1
    } else {
        first as int
    }]);
    assert(moved[second as int] == stamps[if second == index {
        stamps.len() - 1
    } else {
        second as int
    }]);
}

/// However many stations and segments are added, in whatever order, no
/// segment dangles: in a history of maps that begins without a dangling
/// segment and in which each map comes from the one before by the adding of
/// a station, or of a segment between two of its stations, both ends of
/// every segment of every map are stations of that map.
pub proof fn lemma_growth_leaves_no_segment_dangling(history: Seq<TransitMap>)
    requires
        history.len() > 0,
        ends_live(history[0].links(), history[0].stations().len() as int),
        forall|i: int|
            0 <= i < history.len() - 1 ==> TransitMap::grows(#[trigger] history[i], history[i + 1]),
    ensures
        forall|i: int|
            0 <= i < history.len() ==> ends_live(
                (#[trigger] history[i]).links(),
                history[i].stations().len() as int,
            ),
    decreases history.len(),
{
    if history.len() > 1 {
        let front = history.drop_last();
        let n = history.len() - 1;
        assert forall|i: int| 0 <= i < front.len() - 1 implies TransitMap::grows(
            #[trigger] front[i],
            front[i + 1],
        ) by {
            assert(TransitMap::grows(history[i], history[i + 1]));
        }
        lemma_growth_leaves_no_segment_dangling(front);
        let before = history[n - 1];
        let after = history[n];
        assert(TransitMap::grows(before, after));
        assert(before == front[n - 1]);
        assert(ends_live(before.links(), before.stations().len() as int));
        assert(ends_live(after.links(), after.stations().len() as int));
        assert forall|i: int| 0 <= i < history.len() implies ends_live(
            (#[trigger] history[i]).links(),
            history[i].stations().len() as int,
        ) by {
            if i < n {
                assert(history[i] == front[i]);
            }
        }
    }
}

/// A new map has no segment, so none that dangles.
pub proof fn lemma_fresh_map_has_no_dangling_segment(map: TransitMap)
    requires
        map.is_fresh(),
    ensures
        ends_live(map.links(), map.stations().len() as int),
{
}

/// In a well-formed map no segment dangles: both ends of every segment are
/// stations of the map, and its line is a line of the map. Every operation
/// that changes a map keeps it well formed.
pub proof fn lemma_segments_resolve(map: TransitMap, i: int)
    requires
        map.wf(),
        0 <= i < map.links().len(),
    ensures
        map.links()[i].source < map.stations().len(),
        map.links()[i].target < map.stations().len(),
        map.links()[i].segment.line < map.lines().len(),
{
}

/// A line with exactly two segments at a station passes through it. When the
/// station is removed, the map has one station fewer, the line has one
/// segment fewer, and a segment of the line joins the two former neighbours
/// directly, routed like the first of the two. (A loop on the removed
/// station has no neighbour at its far end; such a pair is left out.)
pub proof fn lemma_pass_through_is_rejoined(
    before: TransitMap,
    after: TransitMap,
    index: StationIndex,
    line: LineIndex,
)
    requires
        TransitMap::removal(before, after, index),
        on_line(before.around(index), line).len() == 2,
        on_line(before.around(index), line)[0].neighbor != index,
        on_line(before.around(index), line)[1].neighbor != index,
    ensures
        after.stations().len() == before.stations().len() - 1,
        segments_on(after.links(), line) == segments_on(before.links(), line) - 1,
        after.links().contains(
            Link {
                source: renumber(
                    on_line(before.around(index), line)[0].neighbor,
                    (before.stations().len() - 1) as StationIndex,
                    index,
                ),
                target: renumber(
                    on_line(before.around(index), line)[1].neighbor,
                    (before.stations().len() - 1) as StationIndex,
                    index,
                ),
                segment: on_line(before.around(index), line)[0].segment,
            },
        ),
{
    let around = before.around(index);
    let last = (before.stations().len() - 1) as StationIndex;
    let planned = rejoins(around, index);
    let added = rejoined(around, index, last);
    let survivors = surviving(before.links(), index, last);
    lemma_count_after_removal(before.links(), around, after.links(), index, last, line);
    lemma_count_rejoins(around, around.len() as int, index, line);
    assert(around.take(around.len() as int) =~= around);
    let joint = rejoin_for(around, line, index).unwrap();
    let k = choose|k: int| 0 <= k < planned.len() && planned[k] == joint;
    assert(added[k] == joint.renumbered(last, index));
    assert((survivors + added)[survivors.len() + k] == added[k]);
    assert((survivors + added).contains(added[k]));
    lemma_same_items_contains(after.links(), survivors + added, added[k]);
}

/// Whether `line` calls at `station`: one of its segments has an end there.
pub open spec fn serves(links: Seq<Link>, line: LineIndex, station: StationIndex) -> bool {
    exists|i: int|
        0 <= i < links.len() && (#[trigger] links[i]).segment.line == line && links[i].touches(
            station,
        )
}

/// The index that station `index` had before station `last` took the index
/// `freed`.
pub open spec fn displaced(index: StationIndex, last: StationIndex, freed: StationIndex)
    -> StationIndex {
    if index == freed {
        last
    } else {
        index
    }
}

/// When a station that a line passes through is removed, the line calls at
/// one station fewer: it called at the removed station, and afterwards it
/// calls at exactly the other stations at which it called before.
pub proof fn lemma_pass_through_keeps_other_stations(
    before: TransitMap,
    after: TransitMap,
    index: StationIndex,
    line: LineIndex,
    station: StationIndex,
)
    requires
        before.wf(),
        TransitMap::removal(before, after, index),
        on_line(before.around(index), line).len() == 2,
        on_line(before.around(index), line)[0].neighbor != index,
        on_line(before.around(index), line)[1].neighbor != index,
        station < after.stations().len(),
    ensures
        serves(before.links(), line, index),
        serves(after.links(), line, station) <==> serves(
            before.links(),
            line,
            displaced(station, (before.stations().len() - 1) as StationIndex, index),
        ),
{
    let links = before.links();
    let around = before.around(index);
    let seen = incidences(links, index);
    let last = (before.stations().len() - 1) as StationIndex;
    let group = on_line(around, line);
    let survivors = surviving(links, index, last);
    let planned = rejoins(around, index);
    let added = rejoined(around, index, last);
    let was = displaced(station, last, index);
    lemma_on_line_member(around, line, 0);
    lemma_on_line_member(around, line, 1);
    lemma_same_items_contains(around, seen, group[0]);
    lemma_same_items_contains(around, seen, group[1]);
    lemma_incidences_member(links, index, group[0]);
    lemma_incidences_member(links, index, group[1]);
    let first = choose|i: int|
        0 <= i < links.len() && (#[trigger] links[i]).touches(index) && links[i].seen_from(index)
            == group[0];
    let second = choose|i: int|
        0 <= i < links.len() && (#[trigger] links[i]).touches(index) && links[i].seen_from(index)
            == group[1];
    assert(links[first].segment.line == line && links[first].touches(index));
    lemma_pass_through_is_rejoined(before, after, index, line);
    let joint = Link {
        source: renumber(group[0].neighbor, last, index),
        target: renumber(group[1].neighbor, last, index),
        segment: group[0].segment,
    };
    if serves(after.links(), line, station) {
        let i = choose|i: int|
            0 <= i < after.links().len() && (#[trigger] after.links()[i]).segment.line == line
                && after.links()[i].touches(station);
        let link = after.links()[i];
        assert(after.links().contains(link));
        lemma_same_items_contains(after.links(), survivors + added, link);
        let k = choose|k: int| 0 <= k < (survivors + added).len() && (survivors + added)[k] == link;
        if k < survivors.len() {
            assert(survivors[k] == link);
            assert(survivors.contains(link));
            lemma_surviving_member(links, index, last, link);
            let j = choose|j: int|
                0 <= j < links.len() && !(#[trigger] links[j]).touches(index) && link
                    == links[j].renumbered(last, index);
            assert(links[j].segment.line == line && links[j].touches(was));
        } else {
            let at = k - survivors.len();
            assert(added[at] == link);
            lemma_rejoins_among(around, around.len() as int, index);
            let other = choose|other: LineIndex|
                rejoin_for(around, other, index) == Some(planned[at]);
            lemma_on_line_member(around, other, 0);
            assert(other == line);
            if link.source == station {
                assert(links[first].segment.line == line && links[first].touches(was));
            } else {
                assert(links[second].segment.line == line && links[second].touches(was));
            }
        }
    }
    if serves(links, line, was) {
        let j = choose|j: int|
            0 <= j < links.len() && (#[trigger] links[j]).segment.line == line && links[j].touches(
                was,
            );
        if links[j].touches(index) {
            let entry = links[j].seen_from(index);
            assert(entry.neighbor == was);
            lemma_incidences_member(links, index, entry);
            lemma_same_items_contains(around, seen, entry);
            let a = choose|a: int| 0 <= a < around.len() && around[a] == entry;
            lemma_on_line_contains(around, line, a);
            let g = choose|g: int| 0 <= g < group.len() && group[g] == entry;
            assert(joint.touches(station));
            let i = choose|i: int| 0 <= i < after.links().len() && after.links()[i] == joint;
            assert(after.links()[i].segment.line == line && after.links()[i].touches(station));
        } else {
            let link = links[j].renumbered(last, index);
            lemma_surviving_contains(links, index, last, j);
            let k = choose|k: int| 0 <= k < survivors.len() && survivors[k] == link;
            assert((survivors + added)[k] == link);
            assert((survivors + added).contains(link));
            lemma_same_items_contains(after.links(), survivors + added, link);
            let i = choose|i: int| 0 <= i < after.links().len() && after.links()[i] == link;
            assert(after.links()[i].segment.line == line && after.links()[i].touches(station));
        }
    }
}

/// A line with three or more segments at a station branches there. When the
/// station is removed, the line loses all of them and gets no segment in
/// their place.
pub proof fn lemma_branch_point_is_dropped(
    before: TransitMap,
    after: TransitMap,
    index: StationIndex,
    line: LineIndex,
)
    requires
        TransitMap::removal(before, after, index),
        on_line(before.around(index), line).len() >= 3,
    ensures
        rejoin_for(before.around(index), line, index).is_none(),
        segments_on(rejoined(before.around(index), index, (before.stations().len() - 1) as StationIndex), line)
            == 0,
        segments_on(after.links(), line) == segments_on(before.links(), line) - on_line(
            before.around(index),
            line,
        ).len(),
{
    let around = before.around(index);
    let last = (before.stations().len() - 1) as StationIndex;
    lemma_count_after_removal(before.links(), around, after.links(), index, last, line);
    lemma_count_rejoins(around, around.len() as int, index, line);
    lemma_count_renumbered(rejoins(around, index), last, index, line);
}

/// A line with one segment at a station ends there. When the station is
/// removed, the line loses just that segment.
pub proof fn lemma_dead_end_is_dropped(
    before: TransitMap,
    after: TransitMap,
    index: StationIndex,
    line: LineIndex,
)
    requires
        TransitMap::removal(before, after, index),
        on_line(before.around(index), line).len() == 1,
    ensures
        rejoin_for(before.around(index), line, index).is_none(),
        segments_on(after.links(), line) == segments_on(before.links(), line) - 1,
{
    let around = before.around(index);
    let last = (before.stations().len() - 1) as StationIndex;
    lemma_count_after_removal(before.links(), around, after.links(), index, last, line);
}

/// A line without a segment at a station keeps all its segments when the
/// station is removed.
pub proof fn lemma_other_lines_keep_their_segments(
    before: TransitMap,
    after: TransitMap,
    index: StationIndex,
    line: LineIndex,
)
    requires
        TransitMap::removal(before, after, index),
        on_line(before.around(index), line).len() == 0,
    ensures
        segments_on(after.links(), line) == segments_on(before.links(), line),
{
    let around = before.around(index);
    let last = (before.stations().len() - 1) as StationIndex;
    lemma_count_after_removal(before.links(), around, after.links(), index, last, line);
}

impl Default for TransitMap {
    /// A map without stations, with the six lines of the default palette.
    fn default() -> (map: TransitMap)
        ensures
            map.wf(),
            map.is_fresh(),
    {
        let mut lines: Vec<Line> = Vec::new();
        lines.push(Line { color: Rgb::from_rgb32(0x33bbff) });
        lines.push(Line { color: Rgb::from_rgb32(0x3cbe3c) });
        lines.push(Line { color: Rgb::from_rgb32(0xff714d) });
        lines.push(Line { color: Rgb::from_rgb32(0xbf60bf) });
        lines.push(Line { color: Rgb::from_rgb32(0xff9600) });
        lines.push(Line { color: Rgb::from_rgb32(0xffd700) });
        assert(lines@ =~= default_lines());
        TransitMap { graph: graph_new(), lines, stamps: Vec::new() }
    }
}

} // verus!
