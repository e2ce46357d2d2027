//! The game state, its mathematical model, and the tick that moves the snake.

use std::collections::{HashSet, VecDeque};
use vstd::math::abs;
use vstd::prelude::*;

use crate::geometry::{turned, Coordinate, Direction, Turn};

verus! {

broadcast use vstd::std_specs::hash::group_hash_axioms;

/// What one tick changed on the board: the cell the tail left, if any, and
/// the cell the head entered, if any.
#[derive(Clone, Copy, Debug, PartialEq, Eq, Structural)]
pub struct SnakeChange {
    pub removed: Option<Coordinate>,
    pub added: Option<Coordinate>,
}

/// The state of a game as mathematical values.
pub struct GameView {
    /// Head first, tail last.
    pub snake: Seq<Coordinate>,
    pub direction: Direction,
    pub width: int,
    pub height: int,
    pub growth: int,
    pub game_over: bool,
}

/// `c` lies on a board of the given size.
pub open spec fn in_bounds(c: Coordinate, width: int, height: int) -> bool {
    0 <= c.x < width && 0 <= c.y < height
}

/// `a` and `b` are cells next to each other.
pub open spec fn adjacent(a: Coordinate, b: Coordinate) -> bool {
    abs(a.x - b.x) + abs(a.y - b.y) == 1
}

/// The state in which every game starts on a board of the given size.
pub open spec fn fresh(width: int, height: int) -> GameView {
    GameView {
        snake: seq![Coordinate { x: (width / 2) as i32, y: (height / 2) as i32 }],
        direction: Direction::East,
        width,
        height,
        growth: 3,
        game_over: false,
    }
}

impl GameView {
    /// The invariant of every reachable state.
    pub open spec fn wf(self) -> bool {
        &&& 0 < self.width <= u16::MAX
        &&& 0 < self.height <= u16::MAX
        &&& 0 <= self.growth <= u32::MAX
        &&& self.snake.no_duplicates()
        &&& !self.game_over ==> self.snake.len() > 0
        &&& forall|i: int|
            0 <= i < self.snake.len() ==> in_bounds(#[trigger] self.snake[i], self.width, self.height)
        &&& forall|i: int|
            0 <= i < self.snake.len() - 1 ==> #[trigger] adjacent(self.snake[i], self.snake[i + 1])
    }

    /// The cell the head moves to on the next tick.
    pub open spec fn next_head(self) -> Coordinate {
        self.snake[0].next(self.direction)
    }

    /// The snake once the tail has been handled: kept while growth is
    /// pending, dropped otherwise.
    pub open spec fn body(self) -> Seq<Coordinate> {
        if self.growth > 0 {
            self.snake
        } else {
            self.snake.drop_last()
        }
    }

    /// The next head leaves the board or enters the body.
    pub open spec fn collides(self) -> bool {
        !in_bounds(self.next_head(), self.width, self.height) || self.body().contains(
            self.next_head(),
        )
    }

    /// The state after one tick.
    pub open spec fn advanced(self) -> GameView {
        if self.game_over {
            self
        } else {
            GameView {
                snake: if self.collides() {
                    self.body()
                } else {
                    seq![self.next_head()] + self.body()
                },
                growth: if self.growth > 0 {
                    self.growth - 1
                } else {
                    self.growth
                },
                game_over: self.collides(),
                ..self
            }
        }
    }

    /// What one tick reports.
    pub open spec fn change(self) -> SnakeChange {
        if self.game_over {
            SnakeChange { removed: None, added: None }
        } else {
            SnakeChange {
                removed: if self.growth > 0 {
                    None
                } else {
                    Some(self.snake.last())
                },
                added: if self.collides() {
                    None
                } else {
                    Some(self.next_head())
                },
            }
        }
    }

    /// The state after the heading is turned by `t`.
    pub open spec fn turned_by(self, t: Turn) -> GameView {
        GameView { direction: turned(self.direction, t), ..self }
    }

    /// The state after `n` more units of growth are asked for.
    pub open spec fn grown(self, n: int) -> GameView {
        GameView { growth: self.growth + n, ..self }
    }
}

/// The state after `n` ticks.
pub open spec fn advanced_times(g: GameView, n: nat) -> GameView
    decreases n,
{
    if n == 0 {
        g
    } else {
        advanced_times(g, (n - 1) as nat).advanced()
    }
}

/// The key under which a cell is kept in the set of occupied cells: a
/// one-to-one packing of both coordinates into one 64-bit integer.
pub open spec fn cell_key_of(c: Coordinate) -> i64 {
    (c.x * 0x1_0000_0000 + (c.y + 0x8000_0000)) as i64
}

proof fn lemma_cell_key_injective(a: Coordinate, b: Coordinate)
    ensures
        cell_key_of(a) == cell_key_of(b) ==> a == b,
{
}

fn cell_key(c: &Coordinate) -> (r: i64)
    ensures
        r == cell_key_of(*c),
{
    (c.x as i64) * 0x1_0000_0000 + (c.y as i64 + 0x8000_0000)
}

/// A game of Snake on a `width` by `height` board.
pub struct Game {
    /// The cells of the snake, head first.
    pub snake: VecDeque<Coordinate>,
    /// The keys of the cells that the snake covers.
    active_cells: HashSet<i64>,
    pub direction: Direction,
    pub width: u16,
    pub height: u16,
    /// Ticks left in which the tail stays put.
    pub growth: u32,
    pub game_over: bool,
}

impl View for Game {
    type V = GameView;

    closed spec fn view(&self) -> GameView {
        GameView {
            snake: self.snake@,
            direction: self.direction,
            width: self.width as int,
            height: self.height as int,
            growth: self.growth as int,
            game_over: self.game_over,
        }
    }
}

impl Coordinate {
    fn out_of_bounds(&self, game: &Game) -> (r: bool)
        ensures
            r == !in_bounds(*self, game.width as int, game.height as int),
    {
        self.x < 0 || self.x >= game.width as i32 || self.y < 0 || self.y >= game.height as i32
    }
}

impl Game {
    /// The model is well formed and the occupied cells are exactly the
    /// cells of the snake.
    pub closed spec fn wf(&self) -> bool {
        &&& self@.wf()
        &&& forall|c: Coordinate|
            #![trigger self.active_cells@.contains(cell_key_of(c))]
            #![trigger self.snake@.contains(c)]
            self.active_cells@.contains(cell_key_of(c)) <==> self.snake@.contains(c)
    }

    /// The cells that the snake covers.
    pub closed spec fn occupancy(&self) -> Set<Coordinate> {
        Set::new(|c: Coordinate| self.active_cells@.contains(cell_key_of(c)))
    }

    /// The set of occupied cells always equals the set of cells of the snake.
    pub proof fn lemma_occupancy_mirrors_snake(&self)
        requires
            self.wf(),
        ensures
            self.occupancy() == self@.snake.to_set(),
    {
        assert(self.occupancy() =~= self@.snake.to_set());
    }

    /// A new game: a snake of one cell in the middle of the board, heading
    /// east, with three units of growth pending.
    pub fn new(width: &u16, height: &u16) -> (r: Game)
        requires
            *width > 0,
            *height > 0,
        ensures
            r.wf(),
            r@ == fresh(*width as int, *height as int),
    {
        let head = Coordinate { x: (*width / 2) as i32, y: (*height / 2) as i32 };
        let mut snake: VecDeque<Coordinate> = VecDeque::new();
        snake.push_back(head);
        let mut active_cells: HashSet<i64> = HashSet::new();
        active_cells.insert(cell_key(&head));
        let r = Game {
            snake,
            active_cells,
            direction: Direction::East,
            width: *width,
            height: *height,
            growth: 3,
            game_over: false,
        };
        proof {
            assert(r.snake@ =~= seq![head]);
            assert forall|c: Coordinate|
                r.active_cells@.contains(cell_key_of(c)) <==> r.snake@.contains(c) by {
                lemma_cell_key_injective(c, head);
                if c == head {
                    assert(r.snake@[0] == c);
                }
            }
        }
        r
    }

    /// The game has ended.
    pub fn is_over(&self) -> (r: bool)
        ensures
            r == self@.game_over,
    {
        self.game_over
    }

    /// Turns the heading a quarter turn to the left or to the right.
    pub fn turn(&mut self, turn: &Turn)
        requires
            old(self).wf(),
        ensures
            final(self).wf(),
            final(self)@ == old(self)@.turned_by(*turn),
    {
        self.direction = self.direction.turn(turn);
    }

    /// Asks for `n` more ticks in which the tail stays put.
    pub fn grow(&mut self, n: &u32)
        requires
            old(self).wf(),
            old(self)@.growth + *n <= u32::MAX,
        ensures
            final(self).wf(),
            final(self)@ == old(self)@.grown(*n as int),
    {
        self.growth = self.growth + *n;
    }
    /// One tick. A finished game stays as it is and reports nothing. Otherwise
    /// the head steps one cell in the current heading; pending growth keeps
    /// the tail in place, else the tail cell is dropped first; the game ends,
    /// without the head being added, where the new head leaves the board or
    /// enters what remains of the body.
    pub fn advance(&mut self) -> (r: SnakeChange)
        requires
            old(self).wf(),
        ensures
            final(self).wf(),
            final(self)@ == old(self)@.advanced(),
            r == old(self)@.change(),
            old(self)@.game_over ==> *final(self) == *old(self),
    {
        let ghost g = self@;
        let mut removed: Option<Coordinate> = None;
        let mut added: Option<Coordinate> = None;
        if !self.game_over {
            let head = self.snake[0];
            assert(in_bounds(g.snake[0], g.width, g.height));
            let new_front = head.advance(&self.direction);
            if self.growth > 0 {
                self.growth = self.growth - 1;
            } else {
                let tail = self.snake.pop_back();
                if let Some(t) = tail {
                    let k = cell_key(&t);
                    self.active_cells.remove(&k);
                    removed = Some(t);
                    proof {
                        assert(self.snake@ =~= g.snake.drop_last());
                        assert forall|c: Coordinate|
                            self.active_cells@.contains(cell_key_of(c)) <==> self.snake@.contains(
                                c,
                            ) by {
                            lemma_cell_key_injective(c, t);
                            if self.snake@.contains(c) {
                                let i = choose|i: int|
                                    0 <= i < self.snake@.len() && self.snake@[i] == c;
                                assert(g.snake[i] == c);
                                assert(c != t);
                            }
                            if g.snake.contains(c) && c != t {
                                let i = choose|i: int| 0 <= i < g.snake.len() && g.snake[i] == c;
                                assert(i != g.snake.len() - 1);
                                assert(self.snake@[i] == c);
                            }
                        }
                    }
                }
            }
            assert(self.snake@ == g.body());
            if new_front.out_of_bounds(self) || self.active_cells.contains(&cell_key(&new_front)) {
                self.game_over = true;
            } else {
                let ghost body = self.snake@;
                self.active_cells.insert(cell_key(&new_front));
                self.snake.push_front(new_front);
                added = Some(new_front);
                proof {
                    assert forall|c: Coordinate|
                        self.active_cells@.contains(cell_key_of(c)) <==> self.snake@.contains(c) by {
                        lemma_cell_key_injective(c, new_front);
                        if self.snake@.contains(c) && c != new_front {
                            let i = choose|i: int|
                                0 <= i < self.snake@.len() && self.snake@[i] == c;
                            assert(body[i - 1] == c);
                        }
                        if body.contains(c) {
                            let i = choose|i: int| 0 <= i < body.len() && body[i] == c;
                            assert(self.snake@[i + 1] == c);
                        }
                        if c == new_front {
                            assert(self.snake@[0] == c);
                        }
                    }
                    assert forall|i: int, j: int|
                        0 <= i < self.snake@.len() && 0 <= j < self.snake@.len() && i != j
                            implies self.snake@[i] != self.snake@[j] by {
                        if i == 0 && j > 0 {
                            assert(body[j - 1] == self.snake@[j]);
                        } else if j == 0 && i > 0 {
                            assert(body[i - 1] == self.snake@[i]);
                        }
                    }
                    assert forall|i: int| 0 <= i < self.snake@.len() - 1 implies #[trigger] adjacent(
                        self.snake@[i],
                        self.snake@[i + 1],
                    ) by {
                        if i == 0 {
                            assert(body[0] == g.snake[0]);
                        } else {
                            let j = i - 1;
                            assert(adjacent(g.snake[j], g.snake[j + 1]));
                            assert(self.snake@[i] == g.snake[j]);
                            assert(self.snake@[i + 1] == g.snake[j + 1]);
                        }
                    }
                    assert forall|i: int| 0 <= i < self.snake@.len() implies in_bounds(
                        #[trigger] self.snake@[i],
                        g.width,
                        g.height,
                    ) by {
                        if i > 0 {
                            assert(self.snake@[i] == g.snake[i - 1]);
                        }
                    }
                }
            }
        }
        SnakeChange { removed, added }
    }
}

} // verus!
