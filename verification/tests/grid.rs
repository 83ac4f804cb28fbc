use rogue_mayor::constants::{HEIGHT, WIDTH};
use rogue_mayor::grid::{Grid, Point};

#[test]
fn grid_new_holds_the_zero_value_everywhere() {
    let g: Grid<u8> = Grid::new(7);
    assert_eq!(g.at(Point { x: 0, y: 0 }), 7);
    assert_eq!(g.at(Point { x: WIDTH - 1, y: HEIGHT - 1 }), 7);
}

#[test]
fn grid_set_changes_one_cell() {
    let mut g: Grid<i64> = Grid::new(0);
    g.set(Point { x: 3, y: 4 }, 9);
    assert_eq!(g.at(Point { x: 3, y: 4 }), 9);
    assert_eq!(g.at(Point { x: 4, y: 3 }), 0);
    assert_eq!(g.at(Point { x: 2, y: 4 }), 0);
}

#[test]
fn point_offset_adds_coordinates() {
    let p = Point { x: 3, y: 4 }.offset(Point { x: 10, y: 20 });
    assert_eq!(p, Point { x: 13, y: 24 });
}
