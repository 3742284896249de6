use game_of_life::{Cell, Universe};

fn lines(text: &[&str]) -> Vec<String> {
    text.iter().map(|line| line.to_string()).collect()
}

fn universe(width: u32, height: u32, text: &[&str]) -> Universe {
    let mut cells = Vec::new();
    for line in text {
        for ch in line.chars() {
            cells.push(if ch == '#' { Cell::Alive } else { Cell::Dead });
        }
    }
    Universe::from_cells(width, height, cells).expect("one cell for each coordinate")
}

fn picture(uni: &Universe) -> Vec<String> {
    let mut rows = Vec::new();
    for row in 0..uni.height() {
        let mut line = String::new();
        for col in 0..uni.width() {
            line.push(if uni.cell(row, col) == Cell::Alive { '#' } else { '_' });
        }
        rows.push(line);
    }
    rows
}

#[test]
fn toggle_flips_dead_and_alive() {
    let mut cell = Cell::Dead;
    cell.toggle();
    assert_eq!(cell, Cell::Alive);
    cell.toggle();
    assert_eq!(cell, Cell::Dead);
}

#[test]
fn from_flip_is_alive_on_true() {
    assert_eq!(Cell::from_flip(true), Cell::Alive);
    assert_eq!(Cell::from_flip(false), Cell::Dead);
}

#[test]
fn from_cells_wants_one_cell_for_each_coordinate() {
    assert!(Universe::from_cells(2, 3, vec![Cell::Dead; 6]).is_some());
    assert!(Universe::from_cells(2, 3, vec![Cell::Dead; 5]).is_none());
    assert!(Universe::from_cells(2, 3, vec![Cell::Dead; 7]).is_none());
    assert!(Universe::from_cells(0, 3, Vec::new()).is_some());
    assert!(Universe::from_cells(u32::MAX, u32::MAX, Vec::new()).is_none());
}

#[test]
fn width_height_and_cells_are_as_given() {
    let uni = universe(3, 2, &["#__", "_##"]);
    assert_eq!(uni.width(), 3);
    assert_eq!(uni.height(), 2);
    assert_eq!(
        uni.cells(),
        &vec![Cell::Alive, Cell::Dead, Cell::Dead, Cell::Dead, Cell::Alive, Cell::Alive]
    );
}

#[test]
fn get_index_is_row_major() {
    let uni = universe(3, 2, &["___", "___"]);
    assert_eq!(uni.get_index(0, 0), 0);
    assert_eq!(uni.get_index(0, 2), 2);
    assert_eq!(uni.get_index(1, 0), 3);
    assert_eq!(uni.get_index(1, 2), 5);
}

#[test]
fn cell_reads_the_cell_at_row_and_column() {
    let uni = universe(3, 2, &["#__", "_##"]);
    assert_eq!(uni.cell(0, 0), Cell::Alive);
    assert_eq!(uni.cell(0, 1), Cell::Dead);
    assert_eq!(uni.cell(1, 0), Cell::Dead);
    assert_eq!(uni.cell(1, 2), Cell::Alive);
}

#[test]
fn toggle_cell_changes_one_cell_only() {
    let mut uni = universe(3, 2, &["___", "___"]);
    uni.toggle_cell(1, 2);
    assert_eq!(picture(&uni), lines(&["___", "__#"]));
    uni.toggle_cell(0, 1);
    assert_eq!(picture(&uni), lines(&["_#_", "__#"]));
    uni.toggle_cell(1, 2);
    assert_eq!(picture(&uni), lines(&["_#_", "___"]));
}

#[test]
fn all_dead_stays_all_dead() {
    for (width, height) in [(1, 1), (3, 2), (5, 5), (0, 4), (4, 0)] {
        let cells = vec![Cell::Dead; (width * height) as usize];
        let mut uni = Universe::from_cells(width, height, cells.clone()).unwrap();
        uni.tick();
        assert_eq!(uni.width(), width);
        assert_eq!(uni.height(), height);
        assert_eq!(uni.cells(), &cells);
    }
}

#[test]
fn isolated_cell_dies() {
    let mut uni = universe(5, 5, &["_____", "_____", "__#__", "_____", "_____"]);
    assert_eq!(uni.live_neighbour_count(2, 2), 0);
    uni.tick();
    assert_eq!(picture(&uni), lines(&["_____", "_____", "_____", "_____", "_____"]));
}

#[test]
fn block_is_a_still_life() {
    let block = ["____", "_##_", "_##_", "____"];
    let mut uni = universe(4, 4, &block);
    uni.tick();
    assert_eq!(picture(&uni), lines(&block));
    uni.tick();
    assert_eq!(picture(&uni), lines(&block));
}

#[test]
fn block_over_the_edge_is_a_still_life() {
    let block = ["#_#", "___", "#_#"];
    let mut uni = universe(3, 3, &block);
    uni.tick();
    assert_eq!(picture(&uni), lines(&block));
}

#[test]
fn blinker_has_period_two() {
    let flat = ["_____", "_____", "_###_", "_____", "_____"];
    let upright = ["_____", "__#__", "__#__", "__#__", "_____"];
    let mut uni = universe(5, 5, &flat);
    uni.tick();
    assert_eq!(picture(&uni), lines(&upright));
    uni.tick();
    assert_eq!(picture(&uni), lines(&flat));
}

#[test]
fn blinker_on_four_by_four_has_period_two() {
    let flat = ["____", "###_", "____", "____"];
    let upright = ["_#__", "_#__", "_#__", "____"];
    let mut uni = universe(4, 4, &flat);
    uni.tick();
    assert_eq!(picture(&uni), lines(&upright));
    uni.tick();
    assert_eq!(picture(&uni), lines(&flat));
}

#[test]
fn corner_counts_the_opposite_corner() {
    let uni = universe(4, 3, &["____", "____", "___#"]);
    assert_eq!(uni.live_neighbour_count(0, 0), 1);
    assert_eq!(uni.live_neighbour_count(2, 3), 0);
    assert_eq!(uni.live_neighbour_count(1, 0), 1);
    assert_eq!(uni.live_neighbour_count(1, 1), 0);
}

#[test]
fn edges_wrap_in_rows_and_in_columns() {
    let uni = universe(4, 3, &["#___", "____", "____"]);
    assert_eq!(uni.live_neighbour_count(0, 3), 1);
    assert_eq!(uni.live_neighbour_count(2, 0), 1);
    assert_eq!(uni.live_neighbour_count(2, 3), 1);
    assert_eq!(uni.live_neighbour_count(1, 2), 0);
    assert_eq!(uni.live_neighbour_count(0, 0), 0);
}

#[test]
fn a_cell_counts_eight_neighbours_on_the_smallest_grids() {
    let single = universe(1, 1, &["#"]);
    assert_eq!(single.live_neighbour_count(0, 0), 8);
    let row = universe(3, 1, &["###"]);
    assert_eq!(row.live_neighbour_count(0, 1), 8);
    let pair = universe(2, 1, &["#_"]);
    assert_eq!(pair.live_neighbour_count(0, 0), 2);
    assert_eq!(pair.live_neighbour_count(0, 1), 6);
}

#[test]
fn single_cell_universe_dies_of_overpopulation() {
    let mut uni = universe(1, 1, &["#"]);
    uni.tick();
    assert_eq!(uni.cell(0, 0), Cell::Dead);
}

#[test]
fn rule_table() {
    // The middle cell of a 5x5 grid with n live neighbours around it.
    let around = [(1, 1), (1, 2), (1, 3), (2, 1), (2, 3), (3, 1), (3, 2), (3, 3)];
    for n in 0..=8usize {
        for alive in [false, true] {
            let mut uni = universe(5, 5, &["_____", "_____", "_____", "_____", "_____"]);
            if alive {
                uni.toggle_cell(2, 2);
            }
            for &(row, col) in &around[..n] {
                uni.toggle_cell(row, col);
            }
            assert_eq!(uni.live_neighbour_count(2, 2) as usize, n);
            uni.tick();
            let survives = if alive { n == 2 || n == 3 } else { n == 3 };
            let expected = if survives { Cell::Alive } else { Cell::Dead };
            assert_eq!(uni.cell(2, 2), expected, "alive: {}, neighbours: {}", alive, n);
        }
    }
}

#[test]
fn tick_on_a_grid_that_is_not_square() {
    // A blinker on 6 columns and 4 rows.
    let mut uni = universe(6, 4, &["______", "_###__", "______", "______"]);
    uni.tick();
    assert_eq!(picture(&uni), lines(&["__#___", "__#___", "__#___", "______"]));
    uni.tick();
    assert_eq!(picture(&uni), lines(&["______", "_###__", "______", "______"]));
}

#[test]
fn tick_reads_the_old_generation_only() {
    // Three cells in a corner become a block: the fourth cell is born while
    // the other three, which were read before and after it, stay.
    let mut uni = universe(4, 4, &["____", "_##_", "_#__", "____"]);
    uni.tick();
    assert_eq!(picture(&uni), lines(&["____", "_##_", "_##_", "____"]));
}

#[test]
fn glider_moves_one_cell_down_and_right_in_four_generations() {
    let mut uni = universe(
        6,
        6,
        &["__#___", "#_#___", "_##___", "______", "______", "______"],
    );
    for _ in 0..4 {
        uni.tick();
    }
    assert_eq!(
        picture(&uni),
        lines(&["______", "___#__", "_#_#__", "__##__", "______", "______"])
    );
}

#[test]
fn glider_crosses_the_edges() {
    let mut uni = universe(
        5,
        5,
        &["__#__", "#_#__", "_##__", "_____", "_____"],
    );
    // After 4 * 5 generations the glider has moved 5 cells down and right,
    // once around the torus.
    for _ in 0..20 {
        uni.tick();
    }
    assert_eq!(
        picture(&uni),
        lines(&["__#__", "#_#__", "_##__", "_____", "_____"])
    );
}
