use snake3d::board::{Board, State};
use snake3d::direction::Direction;
use snake3d::grid::Point;
use snake3d::vector::{ivec3, IVec3};

fn cell(board: &mut Board, x: i32, y: i32, z: i32) -> Option<Point> {
    board.point_at(ivec3(x, y, z)).copied()
}

fn marked_cells(board: &mut Board) -> usize {
    let size = board.board_size();
    let mut marked = 0;
    for x in 0..size.x {
        for y in 0..size.y {
            for z in 0..size.z {
                if cell(board, x, y, z) == Some(Point::Snake) {
                    marked += 1;
                }
            }
        }
    }
    marked
}

/// Grows the snake of a fresh 4 by 4 by 4 board to five cells that lie
/// in the floor layer: (0,0,0), (0,1,0), (0,2,0), (1,2,0), (1,1,0).
fn hooked_snake() -> Board {
    let mut board = Board::new(4, 4, 4);
    board.snake.direction = Direction::Forward;
    board.update_with(8);
    assert_eq!(board.apple_pos, ivec3(0, 2, 0));
    board.update_with(24);
    assert_eq!(board.apple_pos, ivec3(1, 2, 0));
    board.snake.direction = Direction::Right;
    board.update_with(20);
    assert_eq!(board.apple_pos, ivec3(1, 1, 0));
    board.snake.direction = Direction::Back;
    board.update_with(63);
    assert_eq!(board.apple_pos, ivec3(3, 3, 3));
    assert_eq!(
        board.snake_body,
        vec![ivec3(0, 0, 0), ivec3(0, 1, 0), ivec3(0, 2, 0), ivec3(1, 2, 0), ivec3(1, 1, 0)]
    );
    board
}

#[test]
fn fresh_board_has_one_segment_at_the_origin() {
    let mut board = Board::new(4, 4, 4);
    assert_eq!(board.state, State::Alive);
    assert_eq!(board.snake_body, vec![ivec3(0, 0, 0)]);
    assert_eq!(board.snake.pos, ivec3(0, 0, 0));
    assert_eq!(board.snake.direction, Direction::Forward);
    assert_eq!(board.apple_pos, IVec3 { x: 0, y: 1, z: 0 });
    assert_eq!(cell(&mut board, 0, 0, 0), Some(Point::Snake));
    assert_eq!(cell(&mut board, 0, 1, 0), Some(Point::Empty));
    assert_eq!(marked_cells(&mut board), 1);
    assert!(board.is_valid());
}

#[test]
fn board_size_follows_the_named_dimensions() {
    let board = Board::new(2, 3, 4);
    assert_eq!(board.board_size(), ivec3(2, 3, 4));
    assert_eq!(board.grid.width(), 2);
    assert_eq!(board.grid.height(), 3);
    assert_eq!(board.grid.depth(), 4);
    assert_eq!(board.grid.total(), 24);
    assert!(board.is_valid());
}

#[test]
fn dimensions_bound_x_y_and_z_in_this_order() {
    let mut board = Board::new(2, 3, 4);
    assert_eq!(cell(&mut board, 1, 2, 3), Some(Point::Empty));
    assert_eq!(cell(&mut board, 1, 3, 2), None);
    assert_eq!(cell(&mut board, 0, 0, 0), Some(Point::Snake));
    assert_eq!(marked_cells(&mut board), 1);
    assert_eq!(board.apple_pos, ivec3(0, 1, 0));
}

#[test]
fn a_flat_board_is_played_along_its_long_sides() {
    let mut board = Board::new(2, 2, 5);
    board.apple_pos = ivec3(1, 1, 4);
    board.snake.direction = Direction::Up;
    for z in 1..5 {
        board.update_with(0);
        assert_eq!(board.state, State::Alive);
        assert_eq!(board.snake.pos, ivec3(0, 0, z));
    }
    board.update_with(0);
    assert_eq!(board.state, State::Dead);

    let mut board = Board::new(2, 5, 2);
    board.apple_pos = ivec3(1, 4, 1);
    board.snake.direction = Direction::Forward;
    for y in 1..5 {
        board.update_with(0);
        assert_eq!(board.state, State::Alive);
        assert_eq!(board.snake.pos, ivec3(0, y, 0));
    }
    board.update_with(0);
    assert_eq!(board.state, State::Dead);
}

#[test]
fn moving_without_eating_keeps_the_length() {
    let mut board = Board::new(4, 4, 4);
    board.apple_pos = ivec3(0, 2, 0);
    let mut rng = rand::thread_rng();
    board.update(&mut rng);
    assert_eq!(board.state, State::Alive);
    assert_eq!(board.snake_body.len(), 1);
    assert_eq!(board.snake.pos, ivec3(0, 1, 0));
    assert_eq!(board.snake_body, vec![ivec3(0, 1, 0)]);
    assert_eq!(cell(&mut board, 0, 0, 0), Some(Point::Empty));
    assert_eq!(cell(&mut board, 0, 1, 0), Some(Point::Snake));
    assert_eq!(board.apple_pos, ivec3(0, 2, 0));
    assert!(board.is_valid());
}

#[test]
fn moving_aside_leaves_the_apple_where_it_is() {
    let mut board = Board::new(4, 4, 4);
    board.snake.direction = Direction::Right;
    board.update_with(0);
    assert_eq!(board.state, State::Alive);
    assert_eq!(board.snake_body, vec![ivec3(1, 0, 0)]);
    assert_eq!(board.snake.pos, ivec3(1, 0, 0));
    assert_eq!(board.apple_pos, ivec3(0, 1, 0));
    assert_eq!(cell(&mut board, 0, 0, 0), Some(Point::Empty));
    assert_eq!(marked_cells(&mut board), 1);
}

#[test]
fn each_direction_moves_the_head_by_its_vector() {
    let moves = [
        (Direction::Forward, ivec3(1, 2, 1)),
        (Direction::Back, ivec3(1, 0, 1)),
        (Direction::Left, ivec3(0, 1, 1)),
        (Direction::Right, ivec3(2, 1, 1)),
        (Direction::Up, ivec3(1, 1, 2)),
        (Direction::Down, ivec3(1, 1, 0)),
    ];
    for (direction, expected) in moves {
        let mut board = Board::new(4, 4, 4);
        board.apple_pos = ivec3(3, 3, 3);
        board.snake.direction = Direction::Right;
        board.update_with(0);
        board.snake.direction = Direction::Forward;
        board.update_with(0);
        board.snake.direction = Direction::Up;
        board.update_with(0);
        assert_eq!(board.snake.pos, ivec3(1, 1, 1));
        board.snake.direction = direction;
        board.update_with(0);
        assert_eq!(board.state, State::Alive);
        assert_eq!(board.snake.pos, expected);
        assert_eq!(board.snake_body, vec![expected]);
    }
}

#[test]
fn eating_grows_the_snake_and_moves_the_apple() {
    let mut board = Board::new(4, 4, 4);
    let mut rng = rand::thread_rng();
    board.update(&mut rng);
    assert_eq!(board.state, State::Alive);
    assert_eq!(board.snake_body, vec![ivec3(0, 0, 0), ivec3(0, 1, 0)]);
    assert_eq!(board.snake.pos, ivec3(0, 1, 0));
    let apple = board.apple_pos;
    assert_eq!(board.point_at(apple).copied(), Some(Point::Empty));
    assert!(!board.snake_body.contains(&apple));
    assert_eq!(marked_cells(&mut board), 2);
    assert!(board.is_valid());
}

#[test]
fn new_apple_is_the_first_empty_cell_from_the_start() {
    let mut board = Board::new(4, 4, 4);
    board.update_with(0);
    assert_eq!(board.apple_pos, ivec3(0, 0, 1));

    let mut board = Board::new(4, 4, 4);
    board.update_with(4);
    assert_eq!(board.apple_pos, ivec3(0, 1, 1));

    let mut board = Board::new(4, 4, 4);
    board.update_with(27);
    assert_eq!(board.apple_pos, ivec3(1, 2, 3));

    let mut board = Board::new(4, 4, 4);
    board.update_with(63);
    assert_eq!(board.apple_pos, ivec3(3, 3, 3));
}

#[test]
fn probe_goes_round_from_the_last_cell_to_the_first() {
    let mut board = Board::new(2, 2, 2);
    board.snake.direction = Direction::Up;
    board.update_with(0);
    assert_eq!(board.snake_body, vec![ivec3(0, 0, 1)]);
    board.snake.direction = Direction::Right;
    board.update_with(0);
    board.snake.direction = Direction::Forward;
    board.update_with(0);
    assert_eq!(board.snake_body, vec![ivec3(1, 1, 1)]);
    assert_eq!(board.apple_pos, ivec3(0, 1, 0));
    board.place_apple(7);
    assert_eq!(board.apple_pos, ivec3(0, 0, 0));
    assert!(board.is_valid());
}

#[test]
fn place_apple_keeps_the_apple_where_no_cell_is_empty() {
    let mut board = won_game();
    let apple = board.apple_pos;
    board.place_apple(3);
    assert_eq!(board.apple_pos, apple);
}

#[test]
fn spawn_apple_lands_on_an_empty_cell() {
    let mut rng = rand::thread_rng();
    for _ in 0..200 {
        let mut board = hooked_snake();
        board.spawn_apple(&mut rng);
        let apple = board.apple_pos;
        assert_eq!(board.point_at(apple).copied(), Some(Point::Empty));
        assert!(!board.snake_body.contains(&apple));
        assert!(board.is_valid());
    }
}

#[test]
fn wall_collision_kills_the_snake() {
    let mut board = Board::new(4, 4, 4);
    board.snake.direction = Direction::Left;
    let mut rng = rand::thread_rng();
    board.update(&mut rng);
    assert_eq!(board.state, State::Dead);
    assert_eq!(board.snake_body.len(), 0);
    assert_eq!(board.snake.pos, ivec3(0, 0, 0));
    assert_eq!(board.apple_pos, ivec3(0, 1, 0));
    assert_eq!(cell(&mut board, 0, 0, 0), Some(Point::Empty));
    assert_eq!(marked_cells(&mut board), 0);
    assert!(board.is_valid());
}

#[test]
fn every_wall_kills() {
    for direction in [Direction::Back, Direction::Left, Direction::Down] {
        let mut board = Board::new(3, 3, 3);
        board.snake.direction = direction;
        board.update_with(0);
        assert_eq!(board.state, State::Dead);
    }
    for direction in [Direction::Forward, Direction::Right, Direction::Up] {
        let mut board = Board::new(2, 2, 2);
        board.apple_pos = ivec3(1, 1, 1);
        board.snake.direction = direction;
        board.update_with(0);
        assert_eq!(board.state, State::Alive);
        board.update_with(0);
        assert_eq!(board.state, State::Dead);
        assert_eq!(board.snake_body.len(), 0);
    }
}

#[test]
fn self_collision_kills_the_snake() {
    let mut board = hooked_snake();
    board.snake.direction = Direction::Left;
    let mut rng = rand::thread_rng();
    board.update(&mut rng);
    assert_eq!(board.state, State::Dead);
    assert_eq!(
        board.snake_body,
        vec![ivec3(0, 1, 0), ivec3(0, 2, 0), ivec3(1, 2, 0), ivec3(1, 1, 0)]
    );
    assert_eq!(board.snake.pos, ivec3(1, 1, 0));
    assert_eq!(cell(&mut board, 0, 0, 0), Some(Point::Empty));
    assert_eq!(marked_cells(&mut board), 4);
    assert!(board.is_valid());
}

#[test]
fn following_the_tail_is_no_collision() {
    let mut board = Board::new(4, 4, 4);
    board.update_with(20);
    board.snake.direction = Direction::Right;
    board.update_with(16);
    board.snake.direction = Direction::Back;
    board.update_with(63);
    assert_eq!(
        board.snake_body,
        vec![ivec3(0, 0, 0), ivec3(0, 1, 0), ivec3(1, 1, 0), ivec3(1, 0, 0)]
    );
    board.snake.direction = Direction::Left;
    board.update_with(0);
    assert_eq!(board.state, State::Alive);
    assert_eq!(
        board.snake_body,
        vec![ivec3(0, 1, 0), ivec3(1, 1, 0), ivec3(1, 0, 0), ivec3(0, 0, 0)]
    );
    assert_eq!(cell(&mut board, 0, 0, 0), Some(Point::Snake));
    assert_eq!(marked_cells(&mut board), 4);
    assert!(board.is_valid());
}

/// Plays a 2 by 2 by 2 board to the end along a path through all its cells.
fn won_game() -> Board {
    let mut board = Board::new(2, 2, 2);
    let path = [
        (Direction::Forward, 6, ivec3(1, 1, 0)),
        (Direction::Right, 4, ivec3(1, 0, 0)),
        (Direction::Back, 5, ivec3(1, 0, 1)),
        (Direction::Up, 7, ivec3(1, 1, 1)),
        (Direction::Forward, 3, ivec3(0, 1, 1)),
        (Direction::Left, 1, ivec3(0, 0, 1)),
    ];
    for (direction, start, apple) in path {
        board.snake.direction = direction;
        board.update_with(start);
        assert_eq!(board.state, State::Alive);
        assert_eq!(board.apple_pos, apple);
        assert!(board.is_valid());
    }
    assert_eq!(board.snake_body.len(), 7);
    board.snake.direction = Direction::Back;
    let mut rng = rand::thread_rng();
    board.update(&mut rng);
    board
}

#[test]
fn filling_the_grid_wins() {
    let mut board = won_game();
    assert_eq!(board.state, State::Win);
    assert_eq!(board.snake_body.len(), 8);
    assert_eq!(board.snake.pos, ivec3(0, 0, 1));
    assert_eq!(board.apple_pos, ivec3(0, 0, 1));
    assert_eq!(marked_cells(&mut board), 8);
    assert!(board.is_valid());
}

#[test]
fn a_finished_game_does_not_change() {
    let mut won = won_game();
    let body = won.snake_body.clone();
    won.snake.direction = Direction::Forward;
    won.update_with(0);
    assert_eq!(won.state, State::Win);
    assert_eq!(won.snake_body, body);
    assert_eq!(marked_cells(&mut won), 8);

    let mut dead = Board::new(4, 4, 4);
    dead.snake.direction = Direction::Down;
    dead.update_with(0);
    assert_eq!(dead.state, State::Dead);
    dead.snake.direction = Direction::Forward;
    let mut rng = rand::thread_rng();
    dead.update(&mut rng);
    assert_eq!(dead.state, State::Dead);
    assert_eq!(dead.snake_body.len(), 0);
    assert_eq!(dead.snake.pos, ivec3(0, 0, 0));
    assert_eq!(dead.apple_pos, ivec3(0, 1, 0));
}

#[test]
fn a_waiting_game_does_not_change() {
    let mut board = Board::new(4, 4, 4);
    board.state = State::Wait;
    assert!(board.is_valid());
    board.update_with(0);
    assert_eq!(board.state, State::Wait);
    assert_eq!(board.snake_body, vec![ivec3(0, 0, 0)]);
    assert_eq!(board.apple_pos, ivec3(0, 1, 0));
    assert_eq!(cell(&mut board, 0, 0, 0), Some(Point::Snake));
}

#[test]
fn marked_cells_match_the_body_through_random_games() {
    let directions = [
        Direction::Forward,
        Direction::Back,
        Direction::Left,
        Direction::Right,
        Direction::Up,
        Direction::Down,
    ];
    let mut rng = rand::thread_rng();
    let mut seed: u64 = 0x9e37_79b9_7f4a_7c15;
    for game in 0..60 {
        let size = 2 + game % 3;
        let mut board = Board::new(size, size, size);
        for _ in 0..200 {
            seed = seed.wrapping_mul(6364136223846793005).wrapping_add(1442695040888963407);
            board.snake.direction = directions[((seed >> 33) % 6) as usize];
            board.update(&mut rng);
            assert!(board.is_valid());
            assert_eq!(marked_cells(&mut board), board.snake_body.len());
            if board.state != State::Win {
                assert!(!board.snake_body.contains(&board.apple_pos));
                let apple = board.apple_pos;
                assert_eq!(board.point_at(apple).copied(), Some(Point::Empty));
            }
            if board.state == State::Alive {
                assert_eq!(board.snake_body.last(), Some(&board.snake.pos));
            } else {
                break;
            }
        }
    }
}

#[test]
fn is_valid_tells_a_spoilt_board() {
    let mut board = Board::new(3, 3, 3);
    assert!(board.is_valid());
    board.apple_pos = ivec3(0, 0, 0);
    assert!(!board.is_valid());
    board.apple_pos = ivec3(0, 3, 0);
    assert!(!board.is_valid());
    board.apple_pos = ivec3(0, 1, 0);
    assert!(board.is_valid());

    *board.point_at(ivec3(2, 2, 2)).unwrap() = Point::Snake;
    assert!(!board.is_valid());
    *board.point_at(ivec3(2, 2, 2)).unwrap() = Point::Empty;
    assert!(board.is_valid());

    board.snake_body.push(ivec3(0, 0, 0));
    assert!(!board.is_valid());
    board.snake_body.pop();
    board.snake.pos = ivec3(1, 0, 0);
    assert!(!board.is_valid());
    board.state = State::Dead;
    assert!(board.is_valid());
    board.snake_body.push(ivec3(0, 0, -1));
    assert!(!board.is_valid());
}

#[test]
fn point_at_is_none_outside_the_grid() {
    let mut board = Board::new(2, 3, 4);
    assert!(board.point_at(ivec3(-1, 0, 0)).is_none());
    assert!(board.point_at(ivec3(0, -1, 0)).is_none());
    assert!(board.point_at(ivec3(0, 0, -1)).is_none());
    assert!(board.point_at(ivec3(2, 0, 0)).is_none());
    assert!(board.point_at(ivec3(0, 3, 0)).is_none());
    assert!(board.point_at(ivec3(0, 0, 4)).is_none());
    assert!(board.point_at(ivec3(i32::MIN, i32::MAX, 0)).is_none());
    assert!(board.point_at(ivec3(1, 2, 3)).is_some());
}
