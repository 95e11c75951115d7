use tetris_core::grid::Grid;

#[test]
fn create_empty_grid() {
    Grid::new((50, 20));
}

#[test]
fn fetch() {
    let _ = Grid::new((10, 10)).get(0, 0).unwrap();

    if Grid::new((10, 10)).get(11, 0).is_ok() {
        panic!("Expected this lookup to fail")
    }

    if Grid::new((10, 10)).get(0, 11).is_ok() {
        panic!("Expected this lookup to fail")
    }
}

#[test]
fn set_and_get_using_index() {
    let mut grid = Grid::new((10, 10));
    grid.set_cell(0, 0, true);
    assert!(grid.cell(0, 0) == true);
    assert!(grid.cell(0, 1) == false);
    assert!(grid.cell(1, 0) == false);
    grid.set_cell(0, 0, false);
    grid.set_cell(1, 0, true);
    assert!(grid.cell(0, 0) == false);
    assert!(grid.cell(0, 1) == false);
    assert!(grid.cell(1, 0) == true);
}

#[test]
fn grid_collides() {
    let all_empty = Grid::of_data((2, 2), vec![false, false, false, false]);
    let all_full = Grid::of_data((2, 2), vec![true, true, true, true]);
    let first_set = Grid::of_data((2, 2), vec![true, false, false, false]);
    let second_set = Grid::of_data((2, 2), vec![false, true, false, false]);

    // Test that all_empty never collides with all_full
    assert!(!all_empty.collides(&all_full, (0, 0)));
    assert!(!all_empty.collides(&all_full, (1, 0)));
    assert!(!all_empty.collides(&all_full, (2, 0)));
    assert!(!all_empty.collides(&all_full, (3, 0)));
    assert!(!all_empty.collides(&all_full, (0, 0)));
    assert!(!all_empty.collides(&all_full, (0, 1)));
    assert!(!all_empty.collides(&all_full, (0, 2)));
    assert!(!all_empty.collides(&all_full, (0, 3)));

    // Test that all_full, first_set, and second_set collide with themselves and that and that
    // all_full does not collide with itself if offset by it's width
    assert!(!all_empty.collides(&all_empty, (0, 0)));
    assert!(all_full.collides(&all_full, (0, 0)));
    assert!(first_set.collides(&first_set, (0, 0)));
    assert!(second_set.collides(&second_set, (0, 0)));
    assert!(!all_full.collides(&all_full, (2, 0)));
    assert!(!first_set.collides(&first_set, (1, 0)));
    assert!(!second_set.collides(&first_set, (1, 0)));

    // Test that first set can collide with second set if offset but not if unoffset
    assert!(!first_set.collides(&second_set, (0, 0)));
    assert!(first_set.collides(&second_set, (1, 0)));
}

#[test]
fn grid_copy_into() {
    let mut a = Grid::new((4, 4));
    let mut b = Grid::new((4, 4));

    b.set_cell(0, 0, true);
    b.set_cell(1, 1, true);

    b.copy_into(&mut a, (0, 0));

    // Test offset by 1 in the x dim
    let mut a = Grid::new((4, 4));
    b.copy_into(&mut a, (1, 0));

    assert!(
        a == Grid::of_data(
            (4, 4),
            vec![
                false, true, false, false, false, false, true, false, false, false, false, false,
                false, false, false, false
            ]
        )
    );

    // Test offset by 1 in the y dim
    let mut a = Grid::new((4, 4));
    b.copy_into(&mut a, (0, 1));

    assert!(
        a == Grid::of_data(
            (4, 4),
            vec![
                false, false, false, false, true, false, false, false, false, true, false, false,
                false, false, false, false
            ]
        )
    );

    // Test offset off the edge of a
    let mut a = Grid::new((4, 4));
    b.copy_into(&mut a, (3, 0));

    assert!(
        a == Grid::of_data(
            (4, 4),
            vec![
                false, false, false, true, false, false, false, false, false, false, false, false,
                false, false, false, false
            ]
        )
    );
}

// A single-cell grid at (1,0) against a single-cell grid at (0,1): no
// collision under offset (0,0), a collision under offset (1,0).
#[test]
fn collision_depends_on_role_and_offset() {
    let first = Grid::of_data((2, 1), vec![true, false]);
    let second = Grid::of_data((2, 1), vec![false, true]);

    assert!(!first.collides(&second, (0, 0)));
    assert!(first.collides(&second, (1, 0)));
}

#[test]
fn copy_into_never_clears_destination_cells() {
    let mut dst = Grid::new((3, 3));
    dst.set_cell(2, 2, true);
    dst.set_cell(0, 0, true);

    let src = Grid::of_data((2, 2), vec![true, false, false, true]);
    src.copy_into(&mut dst, (1, 1));

    // previously-set destination cells survive
    assert!(dst.cell(2, 2));
    assert!(dst.cell(0, 0));
    // stamped cells appear
    assert!(dst.cell(1, 1));
    // the source cell at (1,1) lands on (2,2), which already was set
    assert!(dst == Grid::of_data(
        (3, 3),
        vec![true, false, false, false, true, false, false, false, true]
    ));
}

#[test]
fn copy_into_drops_cells_outside_destination() {
    let mut dst = Grid::new((2, 2));
    let src = Grid::of_data((2, 2), vec![true, true, true, true]);
    src.copy_into(&mut dst, (1, 1));

    // only the one in-bounds translated cell is set
    assert!(dst == Grid::of_data((2, 2), vec![false, false, false, true]));
}

#[test]
fn get_out_of_range_reports_coordinate_and_dimensions() {
    let e = Grid::new((10, 12)).get(11, 3).unwrap_err();
    assert_eq!(e.x, 11);
    assert_eq!(e.y, 3);
    assert_eq!(e.width, 10);
    assert_eq!(e.height, 12);
}
