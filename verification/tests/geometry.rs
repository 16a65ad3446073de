use snake3d::board::{Board, ShadowPlacement};
use snake3d::direction::{Axis, Direction, Rotation};
use snake3d::shadow::shadow_footprints;
use snake3d::vector::{ivec3, HalfVec3, IVec3};

fn half(x: i64, y: i64, z: i64) -> HalfVec3 {
    HalfVec3 { x, y, z }
}

#[test]
fn directions_have_their_unit_vectors() {
    assert_eq!(Direction::Forward.dir(), ivec3(0, 1, 0));
    assert_eq!(Direction::Back.dir(), ivec3(0, -1, 0));
    assert_eq!(Direction::Left.dir(), ivec3(-1, 0, 0));
    assert_eq!(Direction::Right.dir(), ivec3(1, 0, 0));
    assert_eq!(Direction::Up.dir(), ivec3(0, 0, 1));
    assert_eq!(Direction::Down.dir(), ivec3(0, 0, -1));
}

#[test]
fn directions_have_their_rotations() {
    assert_eq!(Direction::Forward.rot(), Rotation { axis: Axis::Y, quarter_turns: 2 });
    assert_eq!(Direction::Back.rot(), Rotation { axis: Axis::Y, quarter_turns: 0 });
    assert_eq!(Direction::Left.rot(), Rotation { axis: Axis::Y, quarter_turns: 1 });
    assert_eq!(Direction::Right.rot(), Rotation { axis: Axis::Y, quarter_turns: -1 });
    assert_eq!(Direction::Up.rot(), Rotation { axis: Axis::X, quarter_turns: 1 });
    assert_eq!(Direction::Down.rot(), Rotation { axis: Axis::X, quarter_turns: -1 });
}

#[test]
fn offset_is_componentwise() {
    assert_eq!(ivec3(1, 2, 3).offset(ivec3(10, -20, 30)), ivec3(11, -18, 33));
    assert_eq!(ivec3(i32::MAX, i32::MIN, 0).offset(ivec3(-1, 1, 0)), ivec3(i32::MAX - 1, i32::MIN + 1, 0));
    assert_eq!(
        ivec3(2, 2, 2).offset(Direction::Down.dir()),
        IVec3 { x: 2, y: 2, z: 1 }
    );
}

#[test]
fn board_to_space_centres_the_grid() {
    let board = Board::new(4, 4, 4);
    assert_eq!(board.board_to_space(ivec3(0, 0, 0)), half(-3, -3, -3));
    assert_eq!(board.board_to_space(ivec3(3, 3, 3)), half(3, 3, 3));
    assert_eq!(board.board_to_space(ivec3(1, 2, 3)), half(-1, 3, 1));

    let board = Board::new(3, 3, 3);
    assert_eq!(board.board_to_space(ivec3(1, 1, 1)), half(0, 0, 0));
    assert_eq!(board.board_to_space(ivec3(0, 1, 2)), half(-2, 2, 0));
}

#[test]
fn board_to_space_swaps_y_and_z() {
    let board = Board::new(2, 3, 4);
    assert_eq!(board.board_size(), ivec3(2, 3, 4));
    assert_eq!(board.board_to_space(ivec3(0, 0, 0)), half(-1, -3, -2));
    assert_eq!(board.board_to_space(ivec3(1, 2, 3)), half(1, 3, 2));
    assert_eq!(board.board_to_space(ivec3(0, 1, 0)), half(-1, -3, 0));
    assert_eq!(board.board_to_space(ivec3(0, 0, 1)), half(-1, -1, -2));
}

#[test]
fn board_to_space_takes_any_vector() {
    let board = Board::new(4, 4, 4);
    assert_eq!(board.board_to_space(ivec3(-1, 4, 10)), half(-5, 17, 5));
    assert_eq!(
        board.board_to_space(ivec3(i32::MAX, i32::MIN, 0)),
        half(2 * (i32::MAX as i64) - 3, -3, 2 * (i32::MIN as i64) - 3)
    );
}

#[test]
fn board_to_space_gives_the_same_point_twice() {
    let first = Board::new(5, 6, 7);
    let mut second = Board::new(5, 6, 7);
    second.snake.direction = Direction::Up;
    second.update_with(11);
    for x in 0..5 {
        for y in 0..6 {
            for z in 0..7 {
                let p = ivec3(x, y, z);
                assert_eq!(first.board_to_space(p), first.board_to_space(p));
                assert_eq!(first.board_to_space(p), second.board_to_space(p));
            }
        }
    }
}

#[test]
fn shadow_matrix_lies_under_the_floor() {
    let board = Board::new(4, 4, 4);
    assert_eq!(
        board.shadow_matrix(ivec3(1, 2, 3)),
        ShadowPlacement {
            pos: half(-1, -4, 1),
            height: 3,
            rotation: Rotation { axis: Axis::X, quarter_turns: 1 },
        }
    );
    let board = Board::new(2, 3, 4);
    assert_eq!(
        board.shadow_matrix(ivec3(0, 2, 0)),
        ShadowPlacement {
            pos: half(-1, -4, 2),
            height: 0,
            rotation: Rotation { axis: Axis::X, quarter_turns: 1 },
        }
    );
}

#[test]
fn matrices_of_a_fresh_board() {
    let board = Board::new(4, 4, 4);
    let (apple, snake, shadows) = board.matrices();
    assert_eq!(apple, half(-3, -3, -1));
    assert_eq!(snake, vec![half(-3, -3, -3)]);
    assert_eq!(shadows, vec![ivec3(0, 1, 0), ivec3(0, 0, 0)]);
}

#[test]
fn matrices_give_one_shadow_for_a_column() {
    let mut board = Board::new(4, 4, 4);
    board.update_with(5);
    assert_eq!(board.apple_pos, ivec3(0, 1, 1));
    board.snake.direction = Direction::Up;
    board.update_with(63);
    assert_eq!(board.snake_body, vec![ivec3(0, 0, 0), ivec3(0, 1, 0), ivec3(0, 1, 1)]);
    let (apple, snake, shadows) = board.matrices();
    assert_eq!(apple, half(3, 3, 3));
    assert_eq!(snake, vec![half(-3, -3, -3), half(-3, -3, -1), half(-3, -1, -1)]);
    assert_eq!(shadows, vec![ivec3(3, 3, 3), ivec3(0, 0, 0), ivec3(0, 1, 0)]);
    let in_column: Vec<&IVec3> = shadows.iter().filter(|s| s.x == 0 && s.y == 1).collect();
    assert_eq!(in_column, vec![&ivec3(0, 1, 0)]);
}

#[test]
fn matrices_count_the_apple_in_its_column() {
    let mut board = Board::new(4, 4, 4);
    board.apple_pos = ivec3(0, 0, 2);
    let (_, _, shadows) = board.matrices();
    assert_eq!(shadows, vec![ivec3(0, 0, 0)]);

    board.snake.direction = Direction::Up;
    board.update_with(0);
    assert_eq!(board.snake_body, vec![ivec3(0, 0, 1)]);
    let (_, _, shadows) = board.matrices();
    assert_eq!(shadows, vec![ivec3(0, 0, 1)]);

    board.snake.direction = Direction::Right;
    board.update_with(0);
    let (_, _, shadows) = board.matrices();
    assert_eq!(shadows, vec![ivec3(0, 0, 2), ivec3(1, 0, 1)]);
}

#[test]
fn shadow_footprints_take_the_lowest_of_each_column() {
    let body = vec![ivec3(1, 1, 2), ivec3(0, 0, 1), ivec3(1, 1, 0), ivec3(0, 0, 4), ivec3(3, 2, 7)];
    let shadows = shadow_footprints(4, 4, ivec3(1, 1, 3), &body);
    assert_eq!(shadows, vec![ivec3(1, 1, 0), ivec3(0, 0, 1), ivec3(3, 2, 7)]);
}

#[test]
fn shadow_footprints_of_the_apple_alone() {
    let shadows = shadow_footprints(2, 2, ivec3(1, 0, 1), &Vec::new());
    assert_eq!(shadows, vec![ivec3(1, 0, 1)]);
}

#[test]
fn shadow_footprints_tell_columns_apart() {
    let body = vec![ivec3(1, 0, 5), ivec3(0, 3, 6), ivec3(0, 1, 1)];
    let shadows = shadow_footprints(2, 4, ivec3(0, 2, 9), &body);
    assert_eq!(shadows, vec![ivec3(0, 2, 9), ivec3(1, 0, 5), ivec3(0, 3, 6), ivec3(0, 1, 1)]);
}
