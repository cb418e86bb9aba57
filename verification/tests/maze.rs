use rtt::plan::{locate_nearest, plan, Outcome, Transition};
use rtt::util::seen_cache::{HashSet, SeenCache};
use rtt::util::vec_slist::{NodeRef, RandomTree};

type Coord = (usize, usize);

const SIDE: usize = 15;
const CAP: u32 = 10000;

struct Ctx {
    rng: u64,
    iters: u32,
    visited: HashSet<Coord>,
}

fn draw(rng: &mut u64) -> usize {
    *rng = rng
        .wrapping_mul(6364136223846793005)
        .wrapping_add(1442695040888963407);
    ((*rng >> 33) as usize) % SIDE
}

fn manhattan(a: &Coord, b: &Coord) -> Option<u64> {
    let dr = if a.0 > b.0 { a.0 - b.0 } else { b.0 - a.0 };
    let dc = if a.1 > b.1 { a.1 - b.1 } else { b.1 - a.1 };
    Some((dr + dc) as u64)
}

/// The cells stepped through from `from` (exclusive) to `to` (inclusive),
/// when the two lie on one row or one column.
fn straight_route(from: Coord, to: Coord) -> Option<Vec<Coord>> {
    if from == to {
        return None;
    }
    let mut cells = Vec::new();
    if from.1 == to.1 {
        let mut row = from.0;
        while row != to.0 {
            row = if to.0 > row { row + 1 } else { row - 1 };
            cells.push((row, from.1));
        }
        Some(cells)
    } else if from.0 == to.0 {
        let mut col = from.1;
        while col != to.1 {
            col = if to.1 > col { col + 1 } else { col - 1 };
            cells.push((from.0, col));
        }
        Some(cells)
    } else {
        None
    }
}

fn run_maze(obstacle: fn(Coord) -> bool, start: Coord, finish: Coord) -> (Option<Vec<Coord>>, u32) {
    let mut visited = HashSet::new();
    visited.remember(&start).unwrap();
    let ctx = Ctx { rng: 42, iters: 0, visited };
    let empty: Vec<Coord> = Vec::new();

    let r = plan(
        start,
        ctx,
        |mut u: Ctx, _t: &RandomTree<Coord>| -> Result<(Ctx, bool), ()> {
            if u.iters >= CAP {
                Ok((u, true))
            } else {
                u.iters += 1;
                Ok((u, false))
            }
        },
        |mut u: Ctx, _t: &RandomTree<Coord>| -> Result<(Ctx, Option<Coord>), ()> {
            let row = draw(&mut u.rng);
            let col = draw(&mut u.rng);
            Ok((u, Some((row, col))))
        },
        |u: Ctx, t: &RandomTree<Coord>, s: &Coord| -> Result<(Ctx, NodeRef), ()> {
            Ok((u, locate_nearest(t, s, &manhattan)))
        },
        move |mut u: Ctx, from: &Coord, to: &Coord| -> Result<(Ctx, Transition<Coord>), ()> {
            let route = match straight_route(*from, *to) {
                None => return Ok((u, Transition::Rejected)),
                Some(route) => route,
            };
            for cell in &route {
                if obstacle(*cell) || u.visited.already_seen(cell, &empty).unwrap() {
                    return Ok((u, Transition::Rejected));
                }
            }
            let mut chain = Vec::new();
            for cell in route {
                u.visited.remember(&cell).unwrap();
                chain.push(cell);
                if cell == finish {
                    break;
                }
            }
            Ok((u, Transition::Accepted(chain)))
        },
        move |u: Ctx, s: &Coord| -> Result<(Ctx, bool), ()> { Ok((u, *s == finish)) },
    );
    match r {
        Ok((Outcome::PathPlanned(path), ctx)) => (Some(path), ctx.iters),
        Ok((Outcome::LimitReached(_tree), ctx)) => (None, ctx.iters),
        _ => panic!("unexpected terminal outcome"),
    }
}

#[test]
fn corridor_is_planned() {
    // A 15-by-15 obstacle grid whose only open cells form a straight
    // corridor between the start and the finish: the engine must plan a
    // contiguous, 4-connected path of open cells from start to finish.
    let start: Coord = (1, 3);
    let finish: Coord = (8, 3);
    fn obstacle(c: Coord) -> bool {
        !(c.1 == 3 && 1 <= c.0 && c.0 <= 8)
    }
    let (path, iters) = run_maze(obstacle, start, finish);
    let path = path.expect("a path must be planned within the cap");
    assert!(iters <= CAP);
    assert_eq!(*path.first().unwrap(), start);
    assert_eq!(*path.last().unwrap(), finish);
    for cell in &path {
        assert!(!obstacle(*cell));
    }
    for pair in path.windows(2) {
        let dr = if pair[0].0 > pair[1].0 { pair[0].0 - pair[1].0 } else { pair[1].0 - pair[0].0 };
        let dc = if pair[0].1 > pair[1].1 { pair[0].1 - pair[1].1 } else { pair[1].1 - pair[0].1 };
        assert_eq!(dr + dc, 1, "consecutive cells must be 4-connected");
    }
}

#[test]
fn unbroken_wall_reaches_the_limit() {
    // The same grid with an unbroken wall between start and finish: the
    // engine must stop at exactly the configured cap, never planning a
    // path.
    let start: Coord = (1, 3);
    let finish: Coord = (8, 3);
    fn obstacle(c: Coord) -> bool {
        c.0 == 5
    }
    let (path, iters) = run_maze(obstacle, start, finish);
    assert!(path.is_none(), "no path may cross the wall");
    assert_eq!(iters, CAP);
}
