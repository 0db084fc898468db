use metrodraw::geometry::Point;
use metrodraw::map::TransitMap;
use metrodraw::model::{
    Incidence, Interpolation, InterpolationDirection, Link, Segment, Station,
};

fn station(x: i32, y: i32) -> Station {
    Station { position: Point { x, y } }
}

fn auto(line: u16) -> Segment {
    Segment { line, interpolation: Interpolation::Auto(InterpolationDirection::Auto) }
}

fn sorted(mut links: Vec<Link>) -> Vec<(u16, u16, u16)> {
    let mut out: Vec<(u16, u16, u16)> = links
        .drain(..)
        .map(|l| (l.segment.line, l.source.min(l.target), l.source.max(l.target)))
        .collect();
    out.sort();
    out
}

#[test]
fn new_map_is_empty_with_six_lines() {
    let map = TransitMap::default();
    assert_eq!(map.station_count(), 0);
    assert_eq!(map.segment_count(), 0);
    assert_eq!(map.line_count(), 6);
    let c = map.line(0).unwrap().color;
    assert_eq!((c.r, c.g, c.b), (0x33, 0xbb, 0xff));
    let c = map.line(5).unwrap().color;
    assert_eq!((c.r, c.g, c.b), (0xff, 0xd7, 0x00));
    assert!(map.line(6).is_none());
}

#[test]
fn add_station_returns_fresh_indices() {
    let mut map = TransitMap::default();
    assert_eq!(map.add_station(station(0, 0)), 0);
    assert_eq!(map.add_station(station(50, 0)), 1);
    assert_eq!(map.station_count(), 2);
    assert_eq!(map.station(1), Some(station(50, 0)));
    assert_eq!(map.station(2), None);
    assert_eq!(map.station_list(), vec![station(0, 0), station(50, 0)]);
}

#[test]
fn add_segment_is_automatic_and_undirected() {
    let mut map = TransitMap::default();
    let a = map.add_station(station(0, 0));
    let b = map.add_station(station(50, 0));
    map.add_segment(3, a, b);
    assert_eq!(map.segments(), vec![Link { source: a, target: b, segment: auto(3) }]);
    assert!(map.has_segment(3, a, b));
    assert!(map.has_segment(3, b, a));
    assert!(!map.has_segment(2, a, b));
    assert!(!map.has_segment(3, a, a));
    assert_eq!(map.incident(b), vec![Incidence { neighbor: a, segment: auto(3) }]);
    assert_eq!(map.incident(a), vec![Incidence { neighbor: b, segment: auto(3) }]);
}

#[test]
fn every_segment_resolves_after_edits() {
    let mut map = TransitMap::default();
    for i in 0..6 {
        map.add_station(station(50 * i, 0));
    }
    for i in 0..5u16 {
        map.add_segment(i % 2, i, i + 1);
    }
    map.remove_station(2);
    map.remove_station(0);
    let n = map.station_count() as u16;
    assert_eq!(n, 4);
    for link in map.segments() {
        assert!(link.source < n && link.target < n);
    }
}

#[test]
fn removing_pass_through_rejoins_neighbours() {
    let mut map = TransitMap::default();
    let a = map.add_station(station(0, 0));
    let b = map.add_station(station(50, 0));
    let c = map.add_station(station(100, 0));
    map.add_segment(0, a, b);
    map.add_segment(0, b, c);
    map.remove_station(b);
    assert_eq!(map.station_count(), 2);
    assert_eq!(map.station_list(), vec![station(0, 0), station(100, 0)]);
    assert_eq!(sorted(map.segments()), vec![(0, 0, 1)]);
    assert_eq!(map.segments()[0].segment, auto(0));
}

#[test]
fn removing_branch_point_drops_all_segments() {
    let mut map = TransitMap::default();
    let hub = map.add_station(station(0, 0));
    let a = map.add_station(station(50, 0));
    let b = map.add_station(station(0, 50));
    let c = map.add_station(station(-50, 0));
    map.add_segment(1, hub, a);
    map.add_segment(1, hub, b);
    map.add_segment(1, c, hub);
    map.add_segment(2, a, b);
    map.remove_station(hub);
    assert_eq!(map.station_count(), 3);
    assert_eq!(sorted(map.segments()), vec![(2, 1, 2)]);
}

#[test]
fn removing_dead_end_drops_its_segment() {
    let mut map = TransitMap::default();
    let a = map.add_station(station(0, 0));
    let b = map.add_station(station(50, 0));
    let c = map.add_station(station(100, 0));
    map.add_segment(4, a, b);
    map.add_segment(4, b, c);
    map.remove_station(c);
    assert_eq!(map.station_count(), 2);
    assert_eq!(sorted(map.segments()), vec![(4, 0, 1)]);
}

#[test]
fn lines_are_rejoined_independently() {
    let mut map = TransitMap::default();
    let a = map.add_station(station(0, 0));
    let b = map.add_station(station(50, 0));
    let c = map.add_station(station(100, 0));
    let d = map.add_station(station(50, 50));
    map.add_segment(0, a, b);
    map.add_segment(0, b, c);
    map.add_segment(1, b, d);
    map.remove_station(b);
    // d was last and takes index 1; c keeps index 2.
    assert_eq!(map.station_list(), vec![station(0, 0), station(50, 50), station(100, 0)]);
    assert_eq!(sorted(map.segments()), vec![(0, 0, 2)]);
}

#[test]
fn removing_unknown_station_changes_nothing() {
    let mut map = TransitMap::default();
    let a = map.add_station(station(0, 0));
    let b = map.add_station(station(50, 0));
    map.add_segment(0, a, b);
    map.remove_station(7);
    assert_eq!(map.station_count(), 2);
    assert_eq!(map.segment_count(), 1);
}

#[test]
fn clear_gives_a_fresh_map() {
    let mut map = TransitMap::default();
    let a = map.add_station(station(0, 0));
    let b = map.add_station(station(50, 0));
    map.add_segment(0, a, b);
    map.clear();
    let fresh = TransitMap::default();
    assert_eq!(map.station_count(), fresh.station_count());
    assert_eq!(map.segment_count(), fresh.segment_count());
    assert_eq!(map.line_count(), fresh.line_count());
    assert_eq!(map.station_list(), fresh.station_list());
    assert_eq!(map.segments(), fresh.segments());
    assert_eq!(map.incident(0), fresh.incident(0));
    assert_eq!(map.has_segment(0, a, b), fresh.has_segment(0, a, b));
    assert_eq!(map.find_station_at(Point { x: 0, y: 0 }), None);
    for i in 0..7u16 {
        assert_eq!(map.line(i), fresh.line(i));
    }
}

#[test]
fn nearest_station_wins_and_ties_go_to_the_later_one() {
    let mut map = TransitMap::default();
    map.add_station(station(0, 0));
    map.add_station(station(30, 0));
    map.add_station(station(30, 0));
    assert_eq!(map.find_station_at(Point { x: 12, y: 0 }), Some(0));
    assert_eq!(map.find_station_at(Point { x: 16, y: 0 }), Some(2));
    assert_eq!(map.find_station_at(Point { x: 15, y: 0 }), Some(2));
    assert_eq!(map.find_station_at(Point { x: 49, y: 0 }), Some(2));
    assert_eq!(map.find_station_at(Point { x: 50, y: 0 }), None);
    assert_eq!(map.find_station_at(Point { x: 0, y: 20 }), None);
    assert_eq!(map.find_station_at(Point { x: 12, y: 16 }), None);
    assert_eq!(map.find_station_at(Point { x: 12, y: 15 }), Some(0));
}

#[test]
fn tie_goes_to_the_station_added_last_even_after_a_removal() {
    let mut map = TransitMap::default();
    map.add_station(station(500, 500));
    map.add_station(station(0, 0));
    map.add_station(station(0, 30));
    map.remove_station(0);
    assert_eq!(map.station_list(), vec![station(0, 30), station(0, 0)]);
    assert_eq!(map.find_station_at(Point { x: 0, y: 15 }), Some(0));
    assert_eq!(map.find_station_at(Point { x: 0, y: 14 }), Some(1));
    assert_eq!(map.find_station_at(Point { x: 0, y: 16 }), Some(0));
    let later = map.add_station(station(0, 0));
    assert_eq!(later, 2);
    assert_eq!(map.find_station_at(Point { x: 0, y: 15 }), Some(2));
    assert_eq!(map.find_station_at(Point { x: 0, y: 0 }), Some(2));
}

#[test]
fn stamps_count_the_stations_added_before() {
    let mut map = TransitMap::default();
    for i in 0..5 {
        map.add_station(station(50 * i, 0));
    }
    assert_eq!((0..6).map(|i| map.stamp(i)).collect::<Vec<_>>(), vec![
        Some(0),
        Some(1),
        Some(2),
        Some(3),
        Some(4),
        None
    ]);
    map.remove_station(1);
    // The station added last took index 1; the stamps above the removed one moved down.
    assert_eq!(map.station_list(), vec![station(0, 0), station(200, 0), station(100, 0), station(150, 0)]);
    assert_eq!((0..4).map(|i| map.stamp(i)).collect::<Vec<_>>(), vec![
        Some(0),
        Some(3),
        Some(1),
        Some(2)
    ]);
    map.remove_station(3);
    assert_eq!((0..4).map(|i| map.stamp(i)).collect::<Vec<_>>(), vec![
        Some(0),
        Some(2),
        Some(1),
        None
    ]);
    map.add_station(station(0, 0));
    assert_eq!(map.stamp(3), Some(3));
    map.clear();
    assert_eq!(map.stamp(0), None);
}

#[test]
fn segment_to_a_missing_station_or_line_is_refused() {
    let mut map = TransitMap::default();
    let a = map.try_add_station(station(0, 0)).unwrap();
    let b = map.try_add_station(station(50, 0)).unwrap();
    assert_eq!((a, b), (0, 1));
    assert!(!map.try_add_segment(0, a, 2));
    assert!(!map.try_add_segment(0, 2, a));
    assert!(!map.try_add_segment(6, a, b));
    assert_eq!(map.segment_count(), 0);
    assert!(map.try_add_segment(5, a, b));
    assert!(map.try_add_segment(5, a, b));
    assert_eq!(map.segments(), vec![
        Link { source: a, target: b, segment: auto(5) },
        Link { source: a, target: b, segment: auto(5) }
    ]);
}

#[test]
fn full_map_takes_no_more_stations_or_segments() {
    let mut map = TransitMap::default();
    for i in 0..65535u32 {
        assert_eq!(map.try_add_station(station(0, 0)), Some(i as u16));
    }
    assert_eq!(map.try_add_station(station(0, 0)), None);
    assert_eq!(map.station_count(), 65535);
    assert_eq!(map.stamp(65534), Some(65534));
    for _ in 0..65535u32 {
        assert!(map.try_add_segment(0, 0, 65534));
    }
    assert!(!map.try_add_segment(0, 0, 65534));
    assert_eq!(map.segment_count(), 65535);
    for link in map.segments() {
        assert!((link.source as usize) < map.station_count());
        assert!((link.target as usize) < map.station_count());
    }
}
