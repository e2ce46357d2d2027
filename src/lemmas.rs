//! Properties of whole runs of the game, stated over its model.

use vstd::prelude::*;

use crate::game::{advanced_times, fresh, in_bounds, GameView};
use crate::geometry::{Coordinate, Direction, Turn};

verus! {

/// The smaller of two integers.
pub open spec fn min(a: int, b: int) -> int {
    if a <= b {
        a
    } else {
        b
    }
}

/// A finished game never changes again, and each further tick reports
/// neither a removed nor an added cell.
pub proof fn lemma_finished_game_is_frozen(v: GameView, n: nat)
    requires
        v.game_over,
    ensures
        advanced_times(v, n) == v,
        advanced_times(v, n).change().removed is None,
        advanced_times(v, n).change().added is None,
    decreases n,
{
    if n > 0 {
        lemma_finished_game_is_frozen(v, (n - 1) as nat);
    }
}

/// While the game runs, each tick either uses up one unit of pending growth
/// and lengthens the snake by one, or, with no growth pending, keeps its
/// length: after `n` ticks the snake has grown by `min(n, growth)`.
pub proof fn lemma_growth_schedule(v: GameView, n: nat)
    requires
        v.wf(),
    ensures
        !advanced_times(v, n).game_over ==> {
            &&& advanced_times(v, n).snake.len() == v.snake.len() + min(n as int, v.growth)
            &&& advanced_times(v, n).growth == v.growth - min(n as int, v.growth)
        },
    decreases n,
{
    if n > 0 {
        let m = (n - 1) as nat;
        lemma_growth_schedule(v, m);
        let p = advanced_times(v, m);
        if !advanced_times(v, n).game_over {
            assert(!p.game_over);
            assert(!p.collides());
        }
    }
}

/// A new game reaches length four after three ticks and keeps that length
/// for as long as it runs without further growth.
pub proof fn lemma_fresh_game_grows_to_four(width: int, height: int, n: nat)
    requires
        0 < width <= u16::MAX,
        0 < height <= u16::MAX,
    ensures
        !advanced_times(fresh(width, height), n).game_over ==> advanced_times(
            fresh(width, height),
            n,
        ).snake.len() == if n <= 3 {
            n + 1
        } else {
            4
        },
{
    lemma_growth_schedule(fresh(width, height), n);
}

/// Asking for `k` units of growth lengthens the snake by one on each of the
/// next `k` ticks, and by no more than the pending growth overall.
pub proof fn lemma_grow_then_advance(v: GameView, k: int, n: nat)
    requires
        v.wf(),
        0 <= k,
        v.growth + k <= u32::MAX,
    ensures
        n <= k && !advanced_times(v.grown(k), n).game_over ==> advanced_times(
            v.grown(k),
            n,
        ).snake.len() == v.snake.len() + n,
        n >= v.growth + k && !advanced_times(v.grown(k), n).game_over ==> advanced_times(
            v.grown(k),
            n,
        ).snake.len() == v.snake.len() + v.growth + k,
{
    lemma_growth_schedule(v.grown(k), n);
}

/// The state after `k` ticks of a new game that never turns, while the head
/// has not reached the east wall.
proof fn lemma_straight_east(width: int, height: int, k: nat)
    requires
        0 < width <= u16::MAX,
        0 < height <= u16::MAX,
        width / 2 + k < width,
    ensures
        ({
            let s = advanced_times(fresh(width, height), k);
            &&& !s.game_over
            &&& s.width == width
            &&& s.height == height
            &&& s.direction == Direction::East
            &&& s.snake.len() > 0
            &&& s.snake[0] == Coordinate { x: (width / 2 + k) as i32, y: (height / 2) as i32 }
            &&& forall|i: int|
                0 <= i < s.snake.len() ==> #[trigger] s.snake[i].y == height / 2 && s.snake[i].x
                    <= width / 2 + k
        }),
    decreases k,
{
    if k > 0 {
        let m = (k - 1) as nat;
        lemma_straight_east(width, height, m);
        let p = advanced_times(fresh(width, height), m);
        let h = p.next_head();
        assert(h == Coordinate { x: (width / 2 + k) as i32, y: (height / 2) as i32 });
        assert(in_bounds(h, width, height));
        if p.body().contains(h) {
            let i = choose|i: int| 0 <= i < p.body().len() && p.body()[i] == h;
            assert(p.snake[i] == h);
            assert(p.snake[i].x <= width / 2 + m);
        }
        assert(!p.collides());
        let s = advanced_times(fresh(width, height), k);
        assert forall|i: int| 0 <= i < s.snake.len() implies #[trigger] s.snake[i].y == height
            / 2 && s.snake[i].x <= width / 2 + k by {
            if i > 0 {
                assert(s.snake[i] == p.snake[i - 1]);
            }
        }
    }
}

/// On a board of even width, a new game that never turns runs into the east
/// wall on tick `width / 2`, and not before.
pub proof fn lemma_straight_run_hits_wall(width: int, height: int)
    requires
        0 < width <= u16::MAX,
        0 < height <= u16::MAX,
        width % 2 == 0,
    ensures
        forall|k: nat| k < width / 2 ==> !(#[trigger] advanced_times(fresh(width, height), k)).game_over,
        advanced_times(fresh(width, height), (width / 2) as nat).game_over,
{
    assert forall|k: nat| k < width / 2 implies !(#[trigger] advanced_times(
        fresh(width, height),
        k,
    )).game_over by {
        lemma_straight_east(width, height, k);
    }
    let m = (width / 2 - 1) as nat;
    lemma_straight_east(width, height, m);
    let p = advanced_times(fresh(width, height), m);
    assert(!in_bounds(p.next_head(), width, height));
    assert(advanced_times(fresh(width, height), (width / 2) as nat) == p.advanced());
}

/// A running snake with at least three units of growth pending, heading east
/// with free room to the east and north, that ticks and turns left three
/// times and then turns left once more bites itself on the fourth tick: that
/// tick enters a cell of the body and ends the game.
pub proof fn lemma_tight_loop_bites(v: GameView)
    requires
        v.wf(),
        !v.game_over,
        v.direction == Direction::East,
        v.growth >= 3,
        in_bounds(v.snake[0].next(Direction::East), v.width, v.height),
        in_bounds(v.snake[0].next(Direction::East).next(Direction::North), v.width, v.height),
        in_bounds(v.snake[0].next(Direction::North), v.width, v.height),
        !v.snake.contains(v.snake[0].next(Direction::East)),
        !v.snake.contains(v.snake[0].next(Direction::East).next(Direction::North)),
        !v.snake.contains(v.snake[0].next(Direction::North)),
    ensures
        ({
            let s1 = v.advanced();
            let s2 = s1.turned_by(Turn::Left).advanced();
            let s3 = s2.turned_by(Turn::Left).advanced();
            let t = s3.turned_by(Turn::Left).turned_by(Turn::Left);
            &&& !s1.game_over
            &&& !s2.game_over
            &&& !s3.game_over
            &&& t.snake.contains(t.next_head())
            &&& t.advanced().game_over
        }),
{
    let c0 = v.snake[0];
    let c1 = c0.next(Direction::East);
    let c2 = c1.next(Direction::North);
    let c3 = c2.next(Direction::West);
    assert(c3 == c0.next(Direction::North));
    let s1 = v.advanced();
    assert(!v.collides());
    assert(s1.snake == seq![c1] + v.snake);
    let u1 = s1.turned_by(Turn::Left);
    assert(u1.next_head() == c2);
    if u1.body().contains(c2) {
        let i = choose|i: int| 0 <= i < u1.body().len() && u1.body()[i] == c2;
        if i > 0 {
            assert(v.snake[i - 1] == c2);
        }
    }
    assert(!u1.collides());
    let s2 = u1.advanced();
    assert(s2.snake == seq![c2] + s1.snake);
    let u2 = s2.turned_by(Turn::Left);
    assert(u2.next_head() == c3);
    if u2.body().contains(c3) {
        let i = choose|i: int| 0 <= i < u2.body().len() && u2.body()[i] == c3;
        if i > 1 {
            assert(v.snake[i - 2] == c3);
        }
    }
    assert(!u2.collides());
    let s3 = u2.advanced();
    let t = s3.turned_by(Turn::Left).turned_by(Turn::Left);
    assert(t.next_head() == c2);
    assert(t.snake[1] == c2);
    assert(t.body()[1] == c2);
    assert(t.snake.contains(c2));
    assert(t.body().contains(c2));
}

} // verus!
