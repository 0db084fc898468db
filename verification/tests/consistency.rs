use metrodraw::geometry::Point;
use metrodraw::map::TransitMap;
use metrodraw::model::{Incidence, Link, Station};
use metrodraw::rejoin::plan_rejoins;

struct Dice(u64);

impl Dice {
    fn roll(&mut self, sides: u64) -> u64 {
        self.0 = self.0.wrapping_mul(6364136223846793005).wrapping_add(1442695040888963407);
        (self.0 >> 33) % sides
    }
}

fn key(l: &Link) -> (u16, u16, u16) {
    (l.segment.line, l.source, l.target)
}

fn keys(links: &[Link]) -> Vec<(u16, u16, u16)> {
    let mut out: Vec<(u16, u16, u16)> = links.iter().map(key).collect();
    out.sort();
    out
}

fn entries(around: &[Incidence]) -> Vec<(u16, u16)> {
    let mut out: Vec<(u16, u16)> = around.iter().map(|e| (e.segment.line, e.neighbor)).collect();
    out.sort();
    out
}

fn seen_from(links: &[Link], station: u16) -> Vec<(u16, u16)> {
    let mut out: Vec<(u16, u16)> = links
        .iter()
        .filter(|l| l.source == station || l.target == station)
        .map(|l| (l.segment.line, if l.source == station { l.target } else { l.source }))
        .collect();
    out.sort();
    out
}

fn renumber(i: u16, last: u16, freed: u16) -> u16 {
    if i == last {
        freed
    } else {
        i
    }
}

fn expected_rejoins(around: &[Incidence], removed: u16) -> Vec<Link> {
    let mut out = Vec::new();
    for (j, e) in around.iter().enumerate() {
        let line = e.segment.line;
        if around[..j].iter().any(|x| x.segment.line == line) {
            continue;
        }
        let group: Vec<&Incidence> = around.iter().filter(|x| x.segment.line == line).collect();
        if group.len() == 2 && group[0].neighbor != removed && group[1].neighbor != removed {
            out.push(Link {
                source: group[0].neighbor,
                target: group[1].neighbor,
                segment: group[0].segment,
            });
        }
    }
    out
}

fn nearest(stations: &[Station], births: &[u64], p: Point) -> Option<u16> {
    let mut best: Option<(i64, u64, u16)> = None;
    for (i, s) in stations.iter().enumerate() {
        let (dx, dy) = ((s.position.x - p.x) as i64, (s.position.y - p.y) as i64);
        let d = dx * dx + dy * dy;
        if d >= 400 {
            continue;
        }
        let better = match best {
            None => true,
            Some((bd, bb, _)) => d < bd || (d == bd && births[i] > bb),
        };
        if better {
            best = Some((d, births[i], i as u16));
        }
    }
    best.map(|b| b.2)
}

fn check_order(map: &TransitMap, births: &[u64]) {
    let stations = map.station_list();
    assert_eq!(stations.len(), births.len());
    let stamps: Vec<u16> = (0..stations.len()).map(|i| map.stamp(i as u16).unwrap()).collect();
    assert_eq!(map.stamp(stations.len() as u16), None);
    let mut by_birth: Vec<usize> = (0..births.len()).collect();
    by_birth.sort_by_key(|&i| births[i]);
    for (rank, &i) in by_birth.iter().enumerate() {
        assert_eq!(stamps[i] as usize, rank);
    }
    for x in (0..=400).step_by(25) {
        for y in (0..=400).step_by(25) {
            let p = Point { x, y };
            assert_eq!(map.find_station_at(p), nearest(&stations, births, p));
        }
    }
}

fn check_queries(map: &TransitMap) {
    let links = map.segments();
    let n = map.station_count() as u16;
    assert_eq!(links.len(), map.segment_count());
    assert_eq!(map.station_list().len(), map.station_count());
    for l in &links {
        assert!(l.source < n && l.target < n && (l.segment.line as usize) < map.line_count());
    }
    for a in 0..n + 2 {
        assert_eq!(entries(&map.incident(a)), seen_from(&links, a));
        for b in 0..n + 1 {
            for line in 0..6u16 {
                let joined = links.iter().any(|l| {
                    l.segment.line == line
                        && ((l.source == a && l.target == b) || (l.source == b && l.target == a))
                });
                assert_eq!(map.has_segment(line, a, b), joined);
            }
        }
    }
}

fn run(seed: u64, steps: usize, lines: u64) {
    let mut dice = Dice(seed);
    let mut map = TransitMap::default();
    let mut births: Vec<u64> = Vec::new();
    let mut clock = 0u64;
    for _ in 0..steps {
        let n = map.station_count() as u64;
        match dice.roll(10) {
            0..=2 => {
                let p = Point { x: 50 * dice.roll(9) as i32, y: 50 * dice.roll(9) as i32 };
                let stations = map.station_list();
                let index = map.add_station(Station { position: p });
                clock += 1;
                births.push(clock);
                assert_eq!(index as u64, n);
                assert_eq!(map.station(index), Some(Station { position: p }));
                assert_eq!(&map.station_list()[..stations.len()], &stations[..]);
            }
            3..=6 if n > 0 => {
                let (a, b) = (dice.roll(n) as u16, dice.roll(n) as u16);
                let line = dice.roll(lines) as u16;
                let mut want = map.segments();
                map.add_segment(line, a, b);
                let got = map.segments();
                want.push(*got.last().unwrap());
                assert_eq!(got, want);
                assert_eq!(key(got.last().unwrap()), (line, a, b));
            }
            7..=8 => {
                let index = dice.roll(n + 2) as u16;
                let links = map.segments();
                let mut stations = map.station_list();
                let around = map.incident(index);
                assert_eq!(plan_rejoins(&around, index), expected_rejoins(&around, index));
                map.remove_station(index);
                if (index as u64) < n {
                    let last = (n - 1) as u16;
                    stations.swap_remove(index as usize);
                    births.swap_remove(index as usize);
                    let mut want: Vec<Link> = links
                        .iter()
                        .filter(|l| l.source != index && l.target != index)
                        .chain(expected_rejoins(&around, index).iter())
                        .map(|l| Link {
                            source: renumber(l.source, last, index),
                            target: renumber(l.target, last, index),
                            segment: l.segment,
                        })
                        .collect();
                    want.sort_by_key(key);
                    let mut got = map.segments();
                    got.sort_by_key(key);
                    assert_eq!(got, want);
                } else {
                    assert_eq!(map.segments(), links);
                }
                assert_eq!(map.station_list(), stations);
            }
            9 if dice.roll(8) == 0 => {
                map.clear();
                births.clear();
                assert_eq!(map.station_count(), 0);
                assert_eq!(map.segment_count(), 0);
            }
            _ => {}
        }
        check_queries(&map);
        check_order(&map, &births);
    }
}

#[test]
fn map_agrees_with_a_plain_model_on_dense_lines() {
    run(1, 300, 2);
    run(2, 300, 1);
}

#[test]
fn map_agrees_with_a_plain_model_on_all_lines() {
    run(3, 300, 6);
    run(4, 300, 6);
}

#[test]
fn loop_on_the_removed_station_is_not_rejoined() {
    let mut map = TransitMap::default();
    let a = map.add_station(Station { position: Point { x: 0, y: 0 } });
    let b = map.add_station(Station { position: Point { x: 50, y: 0 } });
    map.add_segment(0, a, a);
    map.add_segment(0, a, b);
    assert_eq!(entries(&map.incident(a)), vec![(0, a), (0, b)]);
    assert!(map.has_segment(0, a, a));
    map.remove_station(a);
    assert_eq!(map.station_count(), 1);
    assert_eq!(map.segment_count(), 0);
}

#[test]
fn rejoin_may_double_a_segment_and_then_close_a_loop() {
    let mut map = TransitMap::default();
    let a = map.add_station(Station { position: Point { x: 0, y: 0 } });
    let b = map.add_station(Station { position: Point { x: 50, y: 0 } });
    let c = map.add_station(Station { position: Point { x: 50, y: 50 } });
    map.add_segment(0, a, b);
    map.add_segment(0, b, c);
    map.add_segment(0, c, a);
    map.remove_station(b);
    // c was last and is station 1 now; the line joins a and c twice.
    assert_eq!(keys(&map.segments()).len(), 2);
    assert!(map.segments().iter().all(|l| l.source != l.target && l.segment.line == 0));
    map.remove_station(1);
    let left = map.segments();
    assert_eq!(left.len(), 1);
    assert_eq!(key(&left[0]), (0, 0, 0));
}
