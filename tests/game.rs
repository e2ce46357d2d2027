use snake::{Coordinate, Game, SnakeChange, Turn};

fn starts_in_centre(width: u16, height: u16, x: i32, y: i32) {
    let game = Game::new(&width, &height);
    assert_eq!(game.snake.len(), 1);
    assert_eq!(game.snake.front().unwrap(), &Coordinate { x, y });
}

#[test]
fn snake_starts_in_centre_of_board() {
    starts_in_centre(100, 100, 50, 50);
    starts_in_centre(99, 99, 49, 49);
    starts_in_centre(100, 200, 50, 100);
}

#[test]
fn snake_starts_in_centre_of_one_cell_board() {
    starts_in_centre(1, 1, 0, 0);
}

#[test]
fn snake_initially_grows_to_length_four() {
    let mut game = Game::new(&100, &100);
    assert_eq!(game.snake.len(), 1);
    game.advance();
    assert_eq!(game.snake.len(), 2);
    game.advance();
    assert_eq!(game.snake.len(), 3);
    game.advance();
    assert_eq!(game.snake.len(), 4);
    for _ in 0..5 {
        game.advance();
        assert_eq!(game.snake.len(), 4);
    }
}

#[test]
fn snake_can_grow_to_any_length() {
    let mut game = Game::new(&100, &100);
    game.grow(&6);
    for i in 1..=10 {
        assert_eq!(game.snake.len(), i);
        game.advance();
    }

    for _ in 0..5 {
        game.advance();
        assert_eq!(game.snake.len(), 10);
    }
}

#[test]
fn grow_then_advance_lengthens_by_amount() {
    let mut game = Game::new(&100, &100);
    for _ in 0..3 {
        game.advance();
    }
    assert_eq!(game.snake.len(), 4);
    game.grow(&5);
    for i in 1..=5 {
        game.advance();
        assert_eq!(game.snake.len(), 4 + i);
    }
    game.advance();
    assert_eq!(game.snake.len(), 9);
}

#[test]
fn grow_by_zero_changes_nothing() {
    let mut game = Game::new(&20, &20);
    game.grow(&0);
    assert_eq!(game.growth, 3);
}

#[test]
fn snake_hits_wall_game_over() {
    let mut game = Game::new(&20, &20);
    assert!(!game.game_over);
    for _ in 0..9 {
        game.advance();
        assert!(!game.game_over);
    }
    game.advance();
    assert!(game.game_over);
}

#[test]
fn snake_hits_wall_on_odd_board() {
    let mut game = Game::new(&21, &5);
    for _ in 0..10 {
        game.advance();
        assert!(!game.game_over);
    }
    game.advance();
    assert!(game.game_over);
}

#[test]
fn snake_bites_self_game_over() {
    let mut game = Game::new(&20, &20);
    game.grow(&10);
    assert!(!game.game_over);
    for _ in 0..3 {
        game.advance();
        assert!(!game.game_over);
        game.turn(&Turn::Left);
    }
    game.turn(&Turn::Left);
    game.advance();
    assert!(game.game_over);
}

#[test]
fn advance_returns_changed_coordinates() {
    let mut game = Game::new(&20, &20);

    let SnakeChange { added, removed } = game.advance();
    assert_eq!(added, Some(Coordinate { x: 11, y: 10 }));
    assert!(removed.is_none());

    let SnakeChange { added, removed } = game.advance();
    assert_eq!(added, Some(Coordinate { x: 12, y: 10 }));
    assert!(removed.is_none());

    let SnakeChange { added, removed } = game.advance();
    assert_eq!(added, Some(Coordinate { x: 13, y: 10 }));
    assert!(removed.is_none());

    let SnakeChange { added, removed } = game.advance();
    assert_eq!(added, Some(Coordinate { x: 14, y: 10 }));
    assert_eq!(removed, Some(Coordinate { x: 10, y: 10 }));

    game.turn(&Turn::Right);
    let SnakeChange { added, removed } = game.advance();
    assert_eq!(added, Some(Coordinate { x: 14, y: 11 }));
    assert_eq!(removed, Some(Coordinate { x: 11, y: 10 }));

    let SnakeChange { added, removed } = game.advance();
    assert_eq!(added, Some(Coordinate { x: 14, y: 12 }));
    assert_eq!(removed, Some(Coordinate { x: 12, y: 10 }));
}

#[test]
fn finished_game_reports_nothing_and_stays() {
    let mut game = Game::new(&2, &2);
    game.advance();
    assert!(game.game_over);
    let snake: Vec<Coordinate> = game.snake.iter().copied().collect();
    for _ in 0..5 {
        let change = game.advance();
        assert_eq!(change, SnakeChange { removed: None, added: None });
        assert!(game.game_over);
        let now: Vec<Coordinate> = game.snake.iter().copied().collect();
        assert_eq!(now, snake);
    }
}

#[test]
fn wall_hit_without_growth_empties_single_cell_snake() {
    let mut game = Game::new(&1, &1);
    game.growth = 0;
    let change = game.advance();
    assert_eq!(change.removed, Some(Coordinate { x: 0, y: 0 }));
    assert_eq!(change.added, None);
    assert!(game.game_over);
    assert_eq!(game.snake.len(), 0);
}

#[test]
fn single_cell_snake_may_turn_back_onto_its_tail() {
    let mut game = Game::new(&20, &20);
    game.growth = 0;
    let change = game.advance();
    assert_eq!(change.removed, Some(Coordinate { x: 10, y: 10 }));
    assert_eq!(change.added, Some(Coordinate { x: 11, y: 10 }));
    game.turn(&Turn::Left);
    game.turn(&Turn::Left);
    let change = game.advance();
    assert!(!game.game_over);
    assert_eq!(change.removed, Some(Coordinate { x: 11, y: 10 }));
    assert_eq!(change.added, Some(Coordinate { x: 10, y: 10 }));
}

#[test]
fn snake_chases_its_tail_into_vacated_cell() {
    // A snake of length four moving round a two by two square always
    // enters the cell its tail leaves on the same tick.
    let mut game = Game::new(&20, &20);
    for _ in 0..3 {
        game.advance();
        game.turn(&Turn::Left);
    }
    assert_eq!(game.snake.len(), 4);
    for _ in 0..8 {
        let change = game.advance();
        assert!(!game.game_over);
        assert_eq!(change.added, change.removed);
        game.turn(&Turn::Left);
    }
}
