use rusty_apple::arena::grid::{Cell, Grid, Pos};
use rusty_apple::arena::occupancy::{BuildRejected, OutOfBounds};
use rusty_apple::arena::path_finding::{
    find_next_step, find_path, next_on_route, path_finding, path_mob_finding,
};

fn manhattan(a: Cell, b: Cell) -> usize {
    (a.x.abs_diff(b.x) + a.y.abs_diff(b.y)) as usize
}

fn assert_is_route(grid: &Grid, route: &[Cell], from: Cell, to: Cell) {
    assert_eq!(route.first(), Some(&from));
    assert_eq!(route.last(), Some(&to));
    for pair in route.windows(2) {
        assert_eq!(manhattan(pair[0], pair[1]), 1);
        assert!(grid.in_bounds(&pair[1]));
        assert!(!grid.is_occupied(&pair[1]));
    }
    for (i, a) in route.iter().enumerate() {
        for b in &route[i + 1..] {
            assert_ne!(a, b);
        }
    }
}

#[test]
fn new_grid_is_empty_with_midline_endpoints() {
    let grid = Grid::new(5);
    assert_eq!(grid.get_grid_size(), 5);
    assert_eq!(grid.width(), 5);
    assert_eq!(grid.height(), 5);
    assert_eq!(grid.start(), Cell::new(4, 2));
    assert_eq!(grid.goal(), Cell::new(0, 2));
    for x in 0..5 {
        for y in 0..5 {
            assert!(!grid.get(x, y));
            assert!(!grid.is_occupied(&Cell::new(x, y)));
            assert_eq!(grid.get_tower(Cell::new(x, y)), None);
        }
    }
    assert_eq!(grid.get_grid(), vec![vec![false; 5]; 5]);
}

#[test]
fn new_grid_of_forty_one_cells_has_the_endpoints_of_the_arena() {
    let grid = Grid::new(41);
    assert_eq!(grid.start(), Cell::new(40, 20));
    assert_eq!(grid.goal(), Cell::new(0, 20));
}

#[test]
fn empty_and_single_cell_grids_have_no_distinct_endpoints() {
    let empty = Grid::new(0);
    assert_eq!(empty.get_grid_size(), 0);
    assert_eq!(empty.start(), empty.goal());
    assert!(!empty.in_bounds(&Cell::new(0, 0)));
    assert!(empty.get_grid().is_empty());
    let one = Grid::new(1);
    assert_eq!(one.start(), Cell::new(0, 0));
    assert_eq!(one.goal(), Cell::new(0, 0));
    assert!(one.in_bounds(&Cell::new(0, 0)));
}

#[test]
fn with_endpoints_takes_valid_endpoints_only() {
    let grid = Grid::with_endpoints(4, Cell::new(0, 0), Cell::new(3, 3)).unwrap();
    assert_eq!(grid.start(), Cell::new(0, 0));
    assert_eq!(grid.goal(), Cell::new(3, 3));
    assert!(Grid::with_endpoints(4, Cell::new(0, 0), Cell::new(0, 0)).is_none());
    assert!(Grid::with_endpoints(4, Cell::new(4, 0), Cell::new(0, 0)).is_none());
    assert!(Grid::with_endpoints(4, Cell::new(0, 0), Cell::new(0, 4)).is_none());
    assert!(Grid::with_endpoints(0, Cell::new(0, 0), Cell::new(0, 1)).is_none());
}

#[test]
fn in_bounds_is_by_both_coordinates() {
    let grid = Grid::new(3);
    assert!(grid.in_bounds(&Cell::new(2, 2)));
    assert!(!grid.in_bounds(&Cell::new(3, 0)));
    assert!(!grid.in_bounds(&Cell::new(0, 3)));
    assert!(!grid.in_bounds(&Cell::new(u32::MAX, u32::MAX)));
}

#[test]
fn set_and_remove_occupied_change_one_cell() {
    let mut grid = Grid::new(4);
    let c = Cell::new(1, 2);
    grid.set_occupied(&c, Some(77));
    assert!(grid.is_occupied(&c));
    assert!(grid.get(1, 2));
    assert_eq!(grid.get_tower(c), Some(77));
    let mut expected = vec![vec![false; 4]; 4];
    expected[1][2] = true;
    assert_eq!(grid.get_grid(), expected);
    grid.set_occupied(&c, None);
    assert!(grid.is_occupied(&c));
    assert_eq!(grid.get_tower(c), None);
    grid.set_occupied(&c, Some(5));
    grid.remove_occupied(&c);
    assert!(!grid.is_occupied(&c));
    assert_eq!(grid.get_tower(c), None);
    assert_eq!(grid.get_grid(), vec![vec![false; 4]; 4]);
}

#[test]
fn set_grid_frees_every_cell() {
    let mut grid = Grid::new(3);
    grid.set_occupied(&Cell::new(0, 0), Some(1));
    grid.set_occupied(&Cell::new(2, 1), None);
    grid.set_grid();
    assert_eq!(grid.get_grid(), vec![vec![false; 3]; 3]);
    assert_eq!(grid.get_tower(Cell::new(0, 0)), None);
    assert_eq!(grid.get_grid_size(), 3);
    assert_eq!(grid.start(), Cell::new(2, 1));
}

#[test]
fn successors_come_up_right_down_left() {
    let grid = Grid::new(5);
    assert_eq!(
        grid.successors(&Cell::new(2, 2)),
        vec![Cell::new(2, 3), Cell::new(3, 2), Cell::new(2, 1), Cell::new(1, 2)]
    );
}

#[test]
fn successors_at_corner_edge_and_inside() {
    let grid = Grid::new(5);
    assert_eq!(grid.successors(&Cell::new(0, 0)), vec![Cell::new(0, 1), Cell::new(1, 0)]);
    assert_eq!(grid.successors(&Cell::new(4, 4)), vec![Cell::new(4, 3), Cell::new(3, 4)]);
    assert_eq!(grid.successors(&Cell::new(0, 4)).len(), 2);
    assert_eq!(grid.successors(&Cell::new(4, 0)).len(), 2);
    assert_eq!(
        grid.successors(&Cell::new(0, 2)),
        vec![Cell::new(0, 3), Cell::new(1, 2), Cell::new(0, 1)]
    );
    assert_eq!(grid.successors(&Cell::new(2, 4)).len(), 3);
    assert_eq!(grid.successors(&Cell::new(3, 3)).len(), 4);
    assert!(Grid::new(1).successors(&Cell::new(0, 0)).is_empty());
}

#[test]
fn successors_leave_out_occupied_cells() {
    let mut grid = Grid::new(5);
    grid.set_occupied(&Cell::new(2, 3), Some(1));
    grid.set_occupied(&Cell::new(1, 2), None);
    assert_eq!(grid.successors(&Cell::new(2, 2)), vec![Cell::new(3, 2), Cell::new(2, 1)]);
    grid.set_occupied(&Cell::new(0, 1), None);
    assert_eq!(grid.successors(&Cell::new(0, 0)), vec![Cell::new(1, 0)]);
}

#[test]
fn successors_of_a_cell_off_the_grid() {
    let grid = Grid::new(3);
    assert_eq!(grid.successors(&Cell::new(3, 1)), vec![Cell::new(2, 1)]);
    assert!(grid.successors(&Cell::new(7, 7)).is_empty());
    assert!(grid.successors(&Cell::new(u32::MAX, 0)).is_empty());
    assert!(grid.successors(&Cell::new(0, u32::MAX)).is_empty());
}

#[test]
fn successors_of_an_occupied_cell_are_its_free_neighbours() {
    let mut grid = Grid::new(3);
    grid.set_occupied(&Cell::new(1, 1), None);
    assert_eq!(grid.successors(&Cell::new(1, 1)).len(), 4);
}

#[test]
fn pos_becomes_the_cell_of_the_same_indices() {
    assert_eq!(Cell::from(Pos(3, 9)), Cell::new(3, 9));
    assert_eq!(Cell::from(Pos(0, 0)), Cell::new(0, 0));
}

#[test]
fn path_on_open_grid_has_manhattan_length_plus_one() {
    let grid = Grid::new(6);
    for (a, b) in [
        (Cell::new(0, 0), Cell::new(5, 5)),
        (Cell::new(5, 0), Cell::new(0, 5)),
        (Cell::new(2, 3), Cell::new(2, 3)),
        (Cell::new(4, 1), Cell::new(1, 1)),
        (Cell::new(3, 5), Cell::new(3, 0)),
    ] {
        let route = find_path(&grid, &a, &b).unwrap();
        assert_eq!(route.len(), manhattan(a, b) + 1);
        assert_is_route(&grid, &route, a, b);
    }
}

#[test]
fn path_from_start_to_goal_on_new_grid() {
    let grid = Grid::new(5);
    let route = path_finding(&grid, grid.start()).unwrap();
    assert_eq!(
        route,
        vec![
            Cell::new(4, 2),
            Cell::new(3, 2),
            Cell::new(2, 2),
            Cell::new(1, 2),
            Cell::new(0, 2)
        ]
    );
    assert_eq!(path_mob_finding(&grid, grid.start()), Some(Cell::new(3, 2)));
}

#[test]
fn path_to_itself_is_the_cell_alone() {
    let mut grid = Grid::new(4);
    let c = Cell::new(1, 1);
    assert_eq!(find_path(&grid, &c, &c), Some(vec![c]));
    assert_eq!(find_next_step(&grid, &c, &c), None);
    grid.set_occupied(&c, None);
    assert_eq!(find_path(&grid, &c, &c), Some(vec![c]));
    assert_eq!(path_mob_finding(&grid, grid.goal()), None);
}

#[test]
fn path_goes_round_obstacles_and_is_shortest() {
    let mut grid = Grid::new(5);
    for y in 0..4 {
        grid.set_occupied(&Cell::new(2, y), None);
    }
    let from = Cell::new(4, 0);
    let to = Cell::new(0, 0);
    let route = find_path(&grid, &from, &to).unwrap();
    assert_is_route(&grid, &route, from, to);
    assert_eq!(route.len(), 13);
    assert_eq!(find_next_step(&grid, &from, &to), Some(route[1]));
    assert_eq!(next_on_route(&Some(route.clone())), Some(route[1]));
}

#[test]
fn no_path_to_a_walled_goal() {
    let mut grid = Grid::new(5);
    let goal = Cell::new(2, 2);
    for c in [Cell::new(2, 3), Cell::new(3, 2), Cell::new(2, 1), Cell::new(1, 2)] {
        grid.set_occupied(&c, None);
    }
    assert_eq!(find_path(&grid, &Cell::new(0, 0), &goal), None);
    assert_eq!(find_path(&grid, &Cell::new(4, 4), &goal), None);
    assert_eq!(find_next_step(&grid, &Cell::new(4, 4), &goal), None);
    // from a wall cell itself the goal is one move away
    assert_eq!(find_path(&grid, &Cell::new(2, 3), &goal), Some(vec![Cell::new(2, 3), goal]));
}

#[test]
fn no_path_through_a_ring_of_walls() {
    let mut grid = Grid::new(7);
    for x in 1..=5 {
        for y in 1..=5 {
            if x == 1 || x == 5 || y == 1 || y == 5 {
                grid.set_occupied(&Cell::new(x, y), None);
            }
        }
    }
    let inside = Cell::new(3, 3);
    assert_eq!(find_path(&grid, &Cell::new(0, 0), &inside), None);
    assert_eq!(find_path(&grid, &inside, &Cell::new(0, 0)), None);
    assert!(find_path(&grid, &inside, &Cell::new(4, 4)).is_some());
    grid.remove_occupied(&Cell::new(1, 3));
    let route = find_path(&grid, &Cell::new(0, 0), &inside).unwrap();
    assert_is_route(&grid, &route, Cell::new(0, 0), inside);
    assert_eq!(route.len(), 7);
}

#[test]
fn no_path_to_an_occupied_or_outside_cell() {
    let mut grid = Grid::new(4);
    grid.set_occupied(&Cell::new(3, 3), None);
    assert_eq!(find_path(&grid, &Cell::new(0, 0), &Cell::new(3, 3)), None);
    assert_eq!(find_path(&grid, &Cell::new(0, 0), &Cell::new(4, 0)), None);
    assert_eq!(next_on_route(&None), None);
    assert_eq!(next_on_route(&Some(vec![Cell::new(1, 1)])), None);
}

#[test]
fn path_starts_from_an_occupied_or_outside_cell() {
    let mut grid = Grid::new(4);
    grid.set_occupied(&Cell::new(3, 0), Some(9));
    let route = find_path(&grid, &Cell::new(3, 0), &Cell::new(0, 0)).unwrap();
    assert_eq!(route.len(), 4);
    assert_eq!(route[0], Cell::new(3, 0));
    let route = find_path(&grid, &Cell::new(4, 1), &Cell::new(0, 1)).unwrap();
    assert_eq!(route.len(), 5);
    assert_eq!(route[1], Cell::new(3, 1));
}

#[test]
fn build_on_start_goal_occupied_or_outside_is_rejected_and_changes_nothing() {
    let mut grid = Grid::new(5);
    assert_eq!(grid.request_build(&Cell::new(1, 1), Some(3)), Ok(()));
    let before = grid.get_grid();
    assert_eq!(grid.request_build(&Cell::new(4, 2), Some(1)), Err(BuildRejected::Endpoint));
    assert_eq!(grid.request_build(&Cell::new(0, 2), Some(1)), Err(BuildRejected::Endpoint));
    assert_eq!(grid.request_build(&Cell::new(1, 1), Some(1)), Err(BuildRejected::Occupied));
    assert_eq!(grid.request_build(&Cell::new(5, 0), Some(1)), Err(BuildRejected::OutOfBounds));
    assert_eq!(grid.request_build(&Cell::new(0, 5), Some(1)), Err(BuildRejected::OutOfBounds));
    assert_eq!(grid.get_grid(), before);
    assert_eq!(grid.get_tower(Cell::new(1, 1)), Some(3));
    for x in 0..5 {
        for y in 0..5 {
            if (x, y) != (1, 1) {
                assert_eq!(grid.get_tower(Cell::new(x, y)), None);
            }
        }
    }
    assert_eq!(grid.start(), Cell::new(4, 2));
    assert_eq!(grid.goal(), Cell::new(0, 2));
    assert_eq!(grid.get_grid_size(), 5);
}

#[test]
fn build_then_block_then_reject() {
    let mut grid = Grid::new(5);
    assert_eq!(grid.start(), Cell::new(4, 2));
    assert_eq!(grid.goal(), Cell::new(0, 2));
    assert_eq!(grid.request_build(&Cell::new(2, 1), Some(1)), Ok(()));
    assert_eq!(grid.request_build(&Cell::new(2, 3), Some(2)), Ok(()));
    assert_eq!(grid.request_build(&Cell::new(2, 4), Some(3)), Ok(()));
    // the last cell of the column but the gap: it is accepted
    assert_eq!(grid.request_build(&Cell::new(2, 0), Some(4)), Ok(()));
    for y in [0, 1, 3, 4] {
        assert!(grid.is_occupied(&Cell::new(2, y)));
    }
    assert!(!grid.is_occupied(&Cell::new(2, 2)));
    let before = grid.get_grid();
    // the gap is the only way through
    assert_eq!(grid.request_build(&Cell::new(2, 2), Some(5)), Err(BuildRejected::NoRoute));
    assert_eq!(grid.get_grid(), before);
    assert!(!grid.is_occupied(&Cell::new(2, 2)));
    assert_eq!(grid.get_tower(Cell::new(2, 2)), None);
    let route = path_finding(&grid, grid.start()).unwrap();
    assert_eq!(route.len(), 5);
    assert!(route.contains(&Cell::new(2, 2)));
    // a cell off the route is accepted
    assert_eq!(grid.request_build(&Cell::new(3, 0), Some(6)), Ok(()));
    assert_eq!(grid.request_build(&Cell::new(2, 0), Some(7)), Err(BuildRejected::Occupied));
}

#[test]
fn a_route_exists_after_every_accepted_operation() {
    let mut grid = Grid::new(6);
    let mut owner = 0;
    for round in 0..3 {
        for x in 0..6 {
            for y in 0..6 {
                let c = Cell::new((x * 5 + round) % 6, (y * 7 + x) % 6);
                owner += 1;
                let _ = grid.request_build(&c, Some(owner));
                assert!(path_finding(&grid, grid.start()).is_some());
            }
        }
        for k in 0..6 {
            assert!(grid.request_remove(&Cell::new(k, (k + round) % 6)).is_ok());
            assert!(path_finding(&grid, grid.start()).is_some());
        }
    }
    assert!(!grid.is_occupied(&grid.start()));
    assert!(!grid.is_occupied(&grid.goal()));
}

#[test]
fn remove_clears_cell_and_returns_owner() {
    let mut grid = Grid::new(5);
    assert_eq!(grid.request_build(&Cell::new(1, 1), Some(42)), Ok(()));
    assert_eq!(grid.request_remove(&Cell::new(1, 1)), Ok(Some(42)));
    assert!(!grid.is_occupied(&Cell::new(1, 1)));
    assert_eq!(grid.get_tower(Cell::new(1, 1)), None);
    assert_eq!(grid.request_remove(&Cell::new(1, 1)), Ok(None));
    assert_eq!(grid.request_build(&Cell::new(3, 3), None), Ok(()));
    assert_eq!(grid.request_remove(&Cell::new(3, 3)), Ok(None));
    assert!(!grid.is_occupied(&Cell::new(3, 3)));
    assert_eq!(grid.request_remove(&Cell::new(5, 5)), Err(OutOfBounds));
}

#[test]
fn build_records_the_owner() {
    let mut grid = Grid::new(5);
    assert_eq!(grid.request_build(&Cell::new(3, 4), None), Ok(()));
    assert!(grid.is_occupied(&Cell::new(3, 4)));
    assert_eq!(grid.get_tower(Cell::new(3, 4)), None);
    grid.set_occupied(&Cell::new(3, 4), Some(11));
    assert_eq!(grid.get_tower(Cell::new(3, 4)), Some(11));
}

#[test]
fn build_is_rejected_on_a_grid_whose_endpoints_coincide() {
    let mut grid = Grid::new(1);
    assert_eq!(grid.request_build(&Cell::new(0, 0), None), Err(BuildRejected::Endpoint));
}
