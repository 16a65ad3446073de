use snake3d::grid::{OccupancyGrid, Point};
use snake3d::vector::ivec3;

#[test]
fn fresh_grid_holds_the_origin() {
    let grid = OccupancyGrid::new(2, 3, 4);
    assert_eq!(grid.width(), 2);
    assert_eq!(grid.height(), 3);
    assert_eq!(grid.depth(), 4);
    assert_eq!(grid.total(), 24);
    assert!(grid.is_valid());
    assert_eq!(grid.get(ivec3(0, 0, 0)), Some(Point::Snake));
    for i in 1..24 {
        assert_eq!(grid.get_linear(i), Point::Empty);
    }
}

#[test]
fn index_and_cell_undo_each_other() {
    let grid = OccupancyGrid::new(2, 3, 4);
    assert_eq!(grid.index_of(ivec3(0, 0, 0)), Some(0));
    assert_eq!(grid.index_of(ivec3(0, 0, 1)), Some(1));
    assert_eq!(grid.index_of(ivec3(0, 1, 0)), Some(4));
    assert_eq!(grid.index_of(ivec3(1, 0, 0)), Some(12));
    assert_eq!(grid.index_of(ivec3(1, 2, 3)), Some(23));
    assert_eq!(grid.cell_of(23), ivec3(1, 2, 3));
    assert_eq!(grid.cell_of(12), ivec3(1, 0, 0));
    assert_eq!(grid.cell_of(7), ivec3(0, 1, 3));
    for i in 0..24 {
        assert_eq!(grid.index_of(grid.cell_of(i)), Some(i));
    }
}

#[test]
fn lookups_outside_the_grid_give_none() {
    let mut grid = OccupancyGrid::new(2, 3, 4);
    for p in [
        ivec3(-1, 0, 0),
        ivec3(0, -1, 0),
        ivec3(0, 0, -1),
        ivec3(2, 0, 0),
        ivec3(0, 3, 0),
        ivec3(0, 0, 4),
        ivec3(i32::MAX, i32::MAX, i32::MAX),
        ivec3(i32::MIN, 0, 0),
    ] {
        assert_eq!(grid.index_of(p), None);
        assert_eq!(grid.get(p), None);
        assert!(grid.point_at(p).is_none());
    }
}

#[test]
fn point_at_writes_one_cell() {
    let mut grid = OccupancyGrid::new(3, 3, 3);
    *grid.point_at(ivec3(1, 2, 0)).unwrap() = Point::Snake;
    assert_eq!(grid.get(ivec3(1, 2, 0)), Some(Point::Snake));
    let marked: Vec<usize> = (0..27).filter(|i| grid.get_linear(*i) == Point::Snake).collect();
    assert_eq!(marked, vec![0, 15]);
    *grid.point_at(ivec3(0, 0, 0)).unwrap() = Point::Empty;
    assert_eq!(grid.get(ivec3(0, 0, 0)), Some(Point::Empty));
    assert_eq!(grid.get(ivec3(1, 2, 0)), Some(Point::Snake));
}
