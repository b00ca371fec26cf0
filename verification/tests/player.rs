use std::collections::VecDeque;

use snake::player::{Direction, Player, PlayerError, SEGMENT_GLYPH};
use snake::renderer::{Renderer, TerminalRenderer};

fn body_of(player: &Player) -> Vec<(i32, i32)> {
    player.body().iter().cloned().collect()
}

fn player_with(cells: &[(i32, i32)], direction: Direction) -> Player {
    Player::with_body(cells.iter().cloned().collect::<VecDeque<_>>(), direction)
}

#[test]
fn new_player_has_five_segments_in_a_row() {
    let player = Player::new();
    assert_eq!(body_of(&player), vec![(5, 1), (4, 1), (3, 1), (2, 1), (1, 1)]);
    assert!(!player.out_of_bounds(18));
    assert!(!player.collides_with_self());
}

#[test]
fn advance_moves_the_body_one_cell_to_the_right() {
    let mut player = Player::new();
    assert_eq!(player.move_next_square(), Ok(()));
    assert_eq!(body_of(&player), vec![(6, 1), (5, 1), (4, 1), (3, 1), (2, 1)]);
    assert_eq!(player.body().len(), 5);
}

#[test]
fn advance_after_eating_keeps_the_tail() {
    let mut player = Player::new();
    player.eat();
    assert_eq!(player.move_next_square(), Ok(()));
    assert_eq!(body_of(&player), vec![(6, 1), (5, 1), (4, 1), (3, 1), (2, 1), (1, 1)]);
    assert_eq!(player.body().len(), 6);
}

#[test]
fn growth_is_used_up_by_one_advance() {
    let mut player = Player::new();
    player.eat();
    assert_eq!(player.move_next_square(), Ok(()));
    assert_eq!(player.move_next_square(), Ok(()));
    assert_eq!(body_of(&player), vec![(7, 1), (6, 1), (5, 1), (4, 1), (3, 1), (2, 1)]);
}

#[test]
fn length_is_kept_over_many_advances() {
    let mut player = Player::new();
    for _ in 0..40 {
        let before = player.body().len();
        assert_eq!(player.move_next_square(), Ok(()));
        assert_eq!(player.body().len(), before);
    }
    assert_eq!(player.body().front(), Some(&(45, 1)));
}

#[test]
fn head_leaves_the_grid_on_the_right() {
    let mut player = player_with(&[(17, 1), (16, 1), (15, 1)], Direction::Right);
    assert!(!player.out_of_bounds(18));
    assert_eq!(player.move_next_square(), Ok(()));
    assert_eq!(player.body().front(), Some(&(18, 1)));
    assert!(player.out_of_bounds(18));
}

#[test]
fn head_leaves_the_grid_after_twelve_steps_from_the_start() {
    let mut player = Player::new();
    for _ in 0..12 {
        assert_eq!(player.move_next_square(), Ok(()));
    }
    assert_eq!(player.body().front(), Some(&(17, 1)));
    assert!(!player.out_of_bounds(18));
    assert_eq!(player.move_next_square(), Ok(()));
    assert_eq!(player.body().front(), Some(&(18, 1)));
    assert!(player.out_of_bounds(18));
}

#[test]
fn turn_left_while_moving_right_is_ignored() {
    let mut player = Player::new();
    player.turn_left();
    assert_eq!(player.move_next_square(), Ok(()));
    assert_eq!(body_of(&player), vec![(6, 1), (5, 1), (4, 1), (3, 1), (2, 1)]);
}

#[test]
fn a_reversal_is_ignored_in_all_four_directions() {
    let cases = [
        (Direction::Up, Direction::Down, (3, 2)),
        (Direction::Down, Direction::Up, (3, 4)),
        (Direction::Left, Direction::Right, (2, 3)),
        (Direction::Right, Direction::Left, (4, 3)),
    ];
    for (facing, reverse, ahead) in cases {
        let mut player = player_with(&[(3, 3)], facing);
        player.turn(reverse);
        assert_eq!(player.move_next_square(), Ok(()));
        assert_eq!(body_of(&player), vec![ahead]);
    }
}

#[test]
fn the_named_turns_ignore_a_reversal() {
    let mut player = player_with(&[(3, 3)], Direction::Down);
    player.turn_up();
    assert_eq!(player.move_next_square(), Ok(()));
    assert_eq!(body_of(&player), vec![(3, 4)]);

    let mut player = player_with(&[(3, 3)], Direction::Up);
    player.turn_down();
    assert_eq!(player.move_next_square(), Ok(()));
    assert_eq!(body_of(&player), vec![(3, 2)]);

    let mut player = player_with(&[(3, 3)], Direction::Left);
    player.turn_right();
    assert_eq!(player.move_next_square(), Ok(()));
    assert_eq!(body_of(&player), vec![(2, 3)]);
}

#[test]
fn a_turn_to_the_side_is_taken() {
    let mut player = Player::new();
    player.turn_up();
    assert_eq!(player.move_next_square(), Ok(()));
    assert_eq!(player.body().front(), Some(&(5, 0)));
    player.turn_left();
    assert_eq!(player.move_next_square(), Ok(()));
    assert_eq!(player.body().front(), Some(&(4, 0)));
    player.turn_down();
    assert_eq!(player.move_next_square(), Ok(()));
    assert_eq!(player.body().front(), Some(&(4, 1)));
    player.turn_right();
    assert_eq!(player.move_next_square(), Ok(()));
    assert_eq!(player.body().front(), Some(&(5, 1)));
}

#[test]
fn turning_to_the_current_direction_changes_nothing() {
    let mut player = Player::new();
    player.turn_right();
    player.turn(Direction::Right);
    assert_eq!(player.move_next_square(), Ok(()));
    assert_eq!(player.body().front(), Some(&(6, 1)));
}

#[test]
fn opposite_directions_come_in_pairs() {
    assert_eq!(Direction::Up.opposite(), Direction::Down);
    assert_eq!(Direction::Down.opposite(), Direction::Up);
    assert_eq!(Direction::Left.opposite(), Direction::Right);
    assert_eq!(Direction::Right.opposite(), Direction::Left);
}

#[test]
fn out_of_bounds_follows_the_head_alone() {
    let cases = [
        ((0, 0), false),
        ((17, 17), false),
        ((0, 17), false),
        ((17, 0), false),
        ((-1, 0), true),
        ((0, -1), true),
        ((18, 0), true),
        ((0, 18), true),
        ((18, 18), true),
        ((-1, -1), true),
        ((9, 9), false),
    ];
    for (head, expected) in cases {
        let player = player_with(&[head, (40, 40)], Direction::Right);
        assert_eq!(player.out_of_bounds(18), expected);
    }
    let tail_outside = player_with(&[(3, 3), (-5, 3)], Direction::Right);
    assert!(!tail_outside.out_of_bounds(18));
}

#[test]
fn out_of_bounds_on_grids_without_cells() {
    let player = player_with(&[(0, 0)], Direction::Right);
    assert!(player.out_of_bounds(0));
    assert!(player.out_of_bounds(-3));
    assert!(player.out_of_bounds(i32::MIN));
    assert!(!player.out_of_bounds(1));
    assert!(!player.out_of_bounds(i32::MAX));
}

#[test]
fn an_actor_without_segments_is_nowhere() {
    let player = player_with(&[], Direction::Right);
    assert!(!player.out_of_bounds(18));
    assert!(!player.collides_with_self());
    assert!(!player.collides(0, 0));
}

#[test]
fn empty_body_cannot_move() {
    let mut player = Player::with_body(VecDeque::new(), Direction::Up);
    assert_eq!(player.move_next_square(), Err(PlayerError::EmptyBody));
    assert!(body_of(&player).is_empty());
    player.eat();
    assert_eq!(player.move_next_square(), Err(PlayerError::EmptyBody));
    assert!(body_of(&player).is_empty());
}

#[test]
fn the_error_says_what_is_wrong() {
    assert_eq!(PlayerError::EmptyBody.message(), "the actor has no segments");
}

#[test]
fn the_head_on_another_segment_is_a_collision() {
    let player = player_with(&[(4, 1), (4, 0), (5, 0), (5, 1), (4, 1)], Direction::Down);
    assert!(player.collides_with_self());
    let player = player_with(&[(4, 1), (4, 1)], Direction::Down);
    assert!(player.collides_with_self());
}

#[test]
fn distinct_segments_are_no_collision() {
    assert!(!Player::new().collides_with_self());
    assert!(!player_with(&[(4, 1)], Direction::Down).collides_with_self());
    assert!(!player_with(&[(4, 1), (4, 0), (5, 0), (5, 1)], Direction::Down).collides_with_self());
}

#[test]
fn two_segments_behind_the_head_on_one_cell_are_no_collision() {
    let player = player_with(&[(1, 1), (2, 2), (2, 2)], Direction::Right);
    assert!(!player.collides_with_self());
}

#[test]
fn a_tight_circle_runs_into_the_tail() {
    let mut player = Player::new();
    player.turn_up();
    assert_eq!(player.move_next_square(), Ok(()));
    assert!(!player.collides_with_self());
    player.turn_left();
    assert_eq!(player.move_next_square(), Ok(()));
    assert!(!player.collides_with_self());
    player.turn_down();
    assert_eq!(player.move_next_square(), Ok(()));
    assert_eq!(body_of(&player), vec![(4, 1), (4, 0), (5, 0), (5, 1), (4, 1)]);
    assert!(player.collides_with_self());
}

#[test]
fn collides_finds_every_segment_and_nothing_else() {
    let player = Player::new();
    for x in 1..=5 {
        assert!(player.collides(x, 1));
    }
    assert!(!player.collides(0, 1));
    assert!(!player.collides(6, 1));
    assert!(!player.collides(5, 0));
    assert!(!player.collides(1, 5));
}

#[test]
fn with_body_keeps_the_order_of_the_segments() {
    let player = player_with(&[(9, 9), (9, 8), (8, 8)], Direction::Down);
    assert_eq!(body_of(&player), vec![(9, 9), (9, 8), (8, 8)]);
}

#[test]
fn steps_in_the_four_directions() {
    let cases = [
        (Direction::Up, (10, 9)),
        (Direction::Down, (10, 11)),
        (Direction::Left, (9, 10)),
        (Direction::Right, (11, 10)),
    ];
    for (direction, ahead) in cases {
        let mut player = player_with(&[(10, 10), (30, 30)], direction);
        assert_eq!(player.move_next_square(), Ok(()));
        assert_eq!(body_of(&player), vec![ahead, (10, 10)]);
    }
}

#[test]
fn draw_fills_the_block_of_every_segment() {
    let player = Player::new();
    let mut renderer = TerminalRenderer::new(18, 80, 24);
    player.draw(&mut renderer);
    let rows = renderer.rows();
    for x in 1..=5 {
        let left = 22 + 2 * x;
        assert_eq!(rows[4][left], SEGMENT_GLYPH);
        assert_eq!(rows[4][left + 1], SEGMENT_GLYPH);
    }
    assert_eq!(rows[4][23], ' ');
    assert_eq!(rows[4][34], ' ');
    assert_eq!(rows[3][24], ' ');
    assert_eq!(rows[5][24], ' ');
    let drawn = rows.iter().flatten().filter(|glyph| **glyph == SEGMENT_GLYPH).count();
    assert_eq!(drawn, 10);
}
