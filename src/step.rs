//! One external tick: poll the input, keep the growth cadence, advance the
//! game and tell the display.

use vstd::prelude::*;

use crate::game::{Game, GameView, SnakeChange};
use crate::geometry::Turn;

verus! {

/// A renderer of the game.
pub trait GameDisplay {
    /// Called once, before the first tick.
    fn initialize(&self, game: &Game);

    /// Called once, on the tick in which the game ends.
    fn game_over(&self, game: &Game);

    /// Called on every tick with what that tick changed.
    fn update(&self, game: &Game, change: &SnakeChange);
}

/// A source of turns.
pub trait GameInput {
    /// At most one buffered turn, without blocking.
    fn poll(&self) -> Option<Turn>;
}

/// Ticks after which the snake is made to grow.
pub const GROWTH_PERIOD: u32 = 20;

/// Units of growth added at the end of each period.
pub const GROWTH_STEP: u32 = 3;

/// The counter after one tick: it starts over once it has passed the period.
pub open spec fn next_counter(counter: int) -> int {
    if counter > GROWTH_PERIOD {
        0
    } else {
        counter + 1
    }
}

/// The state just before the tick's advance: the polled turn applied, and
/// growth added where the counter has passed the period.
pub open spec fn prepared(g: GameView, counter: int, input: Option<Turn>) -> GameView {
    let turned = match input {
        Some(t) => g.turned_by(t),
        None => g,
    };
    if counter > GROWTH_PERIOD {
        turned.grown(GROWTH_STEP as int)
    } else {
        turned
    }
}

/// The state after one tick.
pub open spec fn ticked(g: GameView, counter: int, input: Option<Turn>) -> GameView {
    prepared(g, counter, input).advanced()
}

/// The decisions of one tick, given the turn that the input gave, if any.
pub fn tick(counter: &mut u32, game: &mut Game, input: Option<Turn>) -> (r: SnakeChange)
    requires
        old(game).wf(),
        *old(counter) > GROWTH_PERIOD ==> old(game)@.growth + GROWTH_STEP <= u32::MAX,
    ensures
        final(game).wf(),
        *final(counter) == next_counter(*old(counter) as int),
        final(game)@ == ticked(old(game)@, *old(counter) as int, input),
        r == prepared(old(game)@, *old(counter) as int, input).change(),
{
    if let Some(t) = input {
        game.turn(&t);
    }
    if *counter > GROWTH_PERIOD {
        *counter = 0;
        game.grow(&GROWTH_STEP);
    } else {
        *counter = *counter + 1;
    }
    game.advance()
}

/// One external tick: polls `input` once, runs the tick, hands the change to
/// `display`, and tells `display` when this tick ended the game.
pub fn game_step<D: GameDisplay, I: GameInput>(
    counter: &mut u32,
    game: &mut Game,
    display: &D,
    input: &I,
)
    requires
        old(game).wf(),
        *old(counter) > GROWTH_PERIOD ==> old(game)@.growth + GROWTH_STEP <= u32::MAX,
    ensures
        final(game).wf(),
        *final(counter) == next_counter(*old(counter) as int),
        exists|t: Option<Turn>| final(game)@ == ticked(old(game)@, *old(counter) as int, t),
{
    let was_over = game.is_over();
    let t = input.poll();
    let change = tick(counter, game, t);
    display.update(game, &change);
    if !was_over && game.is_over() {
        display.game_over(game);
    }
}

} // verus!
