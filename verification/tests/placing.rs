use game_of_life::pattern::read_char;
use game_of_life::{Cell, Pattern, ShapeError, Universe};

fn text(rows: &[&str]) -> Vec<String> {
    rows.iter().map(|line| line.to_string()).collect()
}

fn drawing(uni: &Universe) -> Vec<String> {
    let mut rows = Vec::new();
    for row in 0..uni.height() {
        let mut line = String::new();
        for col in 0..uni.width() {
            line.push(if uni.cell(row, col) == Cell::Alive { '#' } else { '_' });
        }
        rows.push(line);
    }
    rows
}

#[test]
fn read_char_knows_five_characters() {
    assert_eq!(read_char('#'), Some(Cell::Alive));
    assert_eq!(read_char('1'), Some(Cell::Alive));
    assert_eq!(read_char('_'), Some(Cell::Dead));
    assert_eq!(read_char(' '), Some(Cell::Dead));
    assert_eq!(read_char('0'), Some(Cell::Dead));
    assert_eq!(read_char('x'), None);
    assert_eq!(read_char('\n'), None);
    assert_eq!(read_char('◼'), None);
}

#[test]
fn pattern_has_the_width_of_its_first_line_and_the_height_of_its_lines() {
    let pattern = Pattern::from_vec_str(&text(&["#_1", "0 #"]));
    assert_eq!(pattern.width(), 3);
    assert_eq!(pattern.height(), 2);
    assert_eq!(
        pattern.cells(),
        &vec![Cell::Alive, Cell::Dead, Cell::Alive, Cell::Dead, Cell::Dead, Cell::Alive]
    );
}

#[test]
fn unknown_characters_are_skipped_and_take_no_place() {
    let pattern = Pattern::from_vec_str(&text(&["#x_", "_#y"]));
    assert_eq!(pattern.width(), 3);
    assert_eq!(pattern.height(), 2);
    assert_eq!(pattern.cells(), &vec![Cell::Alive, Cell::Dead, Cell::Dead, Cell::Alive]);
}

#[test]
fn width_is_counted_in_bytes() {
    let pattern = Pattern::from_vec_str(&text(&["#é_"]));
    assert_eq!(pattern.width(), 4);
    assert_eq!(pattern.height(), 1);
    assert_eq!(pattern.cells(), &vec![Cell::Alive, Cell::Dead]);
}

#[test]
fn lines_of_different_lengths_are_read_one_after_the_other() {
    let pattern = Pattern::from_vec_str(&text(&["##", "_", "###"]));
    assert_eq!(pattern.width(), 2);
    assert_eq!(pattern.height(), 3);
    assert_eq!(
        pattern.cells(),
        &vec![Cell::Alive, Cell::Alive, Cell::Dead, Cell::Alive, Cell::Alive, Cell::Alive]
    );
    // Six cells for two columns and three rows: the third row starts with
    // the second cell of the last line.
    let uni = Universe::from_pattern(3, &pattern).unwrap();
    assert_eq!(drawing(&uni), text(&["##_", "_#_", "##_"]));
}

#[test]
fn an_empty_first_line_gives_a_pattern_without_columns() {
    let pattern = Pattern::from_vec_str(&text(&["", ""]));
    assert_eq!(pattern.width(), 0);
    assert_eq!(pattern.height(), 2);
    assert!(pattern.cells().is_empty());
    let uni = Universe::from_pattern(2, &pattern).unwrap();
    assert_eq!(drawing(&uni), text(&["__", "__"]));
}

#[test]
fn from_figur_centers_a_row_of_three_in_five() {
    let uni = Universe::from_figur(5, &text(&["###"])).unwrap();
    assert_eq!(uni.width(), 5);
    assert_eq!(uni.height(), 5);
    assert_eq!(drawing(&uni), text(&["_____", "_____", "_###_", "_____", "_____"]));
}

#[test]
fn from_figur_puts_the_odd_margin_at_the_bottom_and_on_the_right() {
    let uni = Universe::from_figur(4, &text(&["#"])).unwrap();
    assert_eq!(drawing(&uni), text(&["____", "_#__", "____", "____"]));
    let uni = Universe::from_figur(6, &text(&["#1#", "1_1"])).unwrap();
    assert_eq!(
        drawing(&uni),
        text(&["______", "______", "_###__", "_#_#__", "______", "______"])
    );
}

#[test]
fn from_figur_fills_the_universe_with_a_pattern_of_its_size() {
    let uni = Universe::from_figur(2, &text(&["#_", "_#"])).unwrap();
    assert_eq!(drawing(&uni), text(&["#_", "_#"]));
}

#[test]
fn from_figur_is_too_big_when_the_pattern_is_wider_or_higher() {
    let wide = text(&["####"]);
    assert_eq!(Universe::from_figur(3, &wide).err(), Some(ShapeError::TooBig));
    assert!(Universe::from_figur(4, &wide).is_ok());
    let high = text(&["#", "#", "#", "#"]);
    assert_eq!(Universe::from_figur(3, &high).err(), Some(ShapeError::TooBig));
    assert!(Universe::from_figur(4, &high).is_ok());
    assert_eq!(Universe::from_figur(0, &text(&["#"])).err(), Some(ShapeError::TooBig));
}

#[test]
fn too_big_comes_before_the_cells_are_counted() {
    // A pattern with fewer cells than its size calls for is refused for its
    // size alone.
    let pattern = Pattern::from_vec_str(&text(&["#xx", "###"]));
    assert_eq!(pattern.cells().len(), 4);
    assert_eq!(Universe::from_pattern(2, &pattern).err(), Some(ShapeError::TooBig));
}

#[test]
fn from_pattern_gives_what_from_figur_gives() {
    let figur = text(&["_#_", "###"]);
    let pattern = Pattern::from_vec_str(&figur);
    let placed = Universe::from_pattern(7, &pattern).unwrap();
    let direct = Universe::from_figur(7, &figur).unwrap();
    assert_eq!(placed.cells(), direct.cells());
    assert_eq!(
        drawing(&placed),
        text(&["_______", "_______", "___#___", "__###__", "_______", "_______", "_______"])
    );
}

#[test]
fn shape_error_messages() {
    assert_eq!(ShapeError::OutOfRange.message(), "index out of range");
    assert_eq!(ShapeError::TooBig.message(), "display area not big enough for this shape");
}
