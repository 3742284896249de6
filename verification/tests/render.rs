use game_of_life::render::draw;
use game_of_life::speed::status_line;
use game_of_life::{Cell, Pattern, PollTime, Universe};
use std::time::Duration;

fn cells_of(text: &str) -> Vec<Cell> {
    text.chars().map(|ch| if ch == '#' { Cell::Alive } else { Cell::Dead }).collect()
}

/// The picture written chunk by chunk, to hold `draw` against.
fn by_chunks(width: usize, cells: &[Cell]) -> String {
    let mut text = format!("╭{}╮\r\n", "─".repeat(width * 2));
    for line in cells.chunks(width) {
        text.push('│');
        for &cell in line {
            text.push(if cell == Cell::Dead { ' ' } else { '◼' });
            text.push(' ');
        }
        text.push_str("│\r\n");
    }
    text.push_str(&format!("╰{}╯\r\n", "─".repeat(width * 2)));
    text
}

#[test]
fn draw_frames_the_rows() {
    let text = draw(3, &cells_of("#___##"));
    assert_eq!(text, "╭──────╮\r\n│◼     │\r\n│  ◼ ◼ │\r\n╰──────╯\r\n");
}

#[test]
fn draw_without_cells_is_an_empty_frame() {
    assert_eq!(draw(2, &Vec::new()), "╭────╮\r\n╰────╯\r\n");
}

#[test]
fn draw_ends_with_a_short_row_when_the_cells_run_out() {
    let text = draw(3, &cells_of("#_#_#"));
    assert_eq!(text, "╭──────╮\r\n│◼   ◼ │\r\n│  ◼ │\r\n╰──────╯\r\n");
    let text = draw(4, &cells_of("##"));
    assert_eq!(text, "╭────────╮\r\n│◼ ◼ │\r\n╰────────╯\r\n");
}

#[test]
fn draw_agrees_with_writing_chunk_by_chunk() {
    let cells = cells_of("#__#_##_#___#_#####_");
    for width in 1..=21 {
        for len in 0..=cells.len() {
            let part = cells[..len].to_vec();
            assert_eq!(draw(width, &part), by_chunks(width, &part));
        }
    }
}

#[test]
fn universe_to_text() {
    let uni = Universe::from_cells(2, 2, cells_of("#__#")).unwrap();
    assert_eq!(uni.to_text(), "╭────╮\r\n│◼   │\r\n│  ◼ │\r\n╰────╯\r\n");
    let uni = Universe::from_cells(1, 3, cells_of("_#_")).unwrap();
    assert_eq!(uni.to_text(), "╭──╮\r\n│  │\r\n│◼ │\r\n│  │\r\n╰──╯\r\n");
}

#[test]
fn pattern_to_text() {
    let lines = vec!["#_#".to_string(), "_#_".to_string()];
    let pattern = Pattern::from_vec_str(&lines);
    assert!(pattern.is_complete());
    assert_eq!(pattern.to_text(), "╭──────╮\r\n│◼   ◼ │\r\n│  ◼   │\r\n╰──────╯\r\n");
}

#[test]
fn pattern_with_skipped_characters_is_not_complete() {
    let lines = vec!["#x#".to_string(), "_#_".to_string()];
    let pattern = Pattern::from_vec_str(&lines);
    assert!(!pattern.is_complete());
    assert_eq!(pattern.to_text(), "╭──────╮\r\n│◼ ◼   │\r\n│◼   │\r\n╰──────╯\r\n");
    let longer = vec!["#".to_string(), "_#_".to_string()];
    assert!(Pattern::from_vec_str(&longer).is_complete());
}

#[test]
fn label_is_max_when_paused() {
    assert_eq!(PollTime::paused().label(), "max");
}

#[test]
fn label_is_the_rounded_time() {
    assert_eq!(PollTime::from_millis(400).label(), "400ms");
    assert_eq!(PollTime::new(0, 204_800_000).label(), "205ms");
    assert_eq!(PollTime::new(2, 0).label(), "2s");
    assert_eq!(PollTime::new(0, 4).label(), "4ns");
    assert_eq!(PollTime::new(0, 0).label(), "0ns");
    assert_eq!(PollTime::new(u64::MAX, 999_999_998).label(), "18446744073709551616s");
}

#[test]
fn label_agrees_with_duration() {
    for (secs, nanos) in [(0u64, 1u32), (0, 1_500), (0, 1_500_000), (1, 500_000_000), (59, 999)] {
        let expected = format!("{:.0?}", Duration::new(secs, nanos));
        assert_eq!(PollTime::new(secs, nanos).label(), expected);
    }
}

#[test]
fn status_line_tells_the_poll_time() {
    assert_eq!(status_line("max"), "Poll time: max");
    assert_eq!(status_line(&PollTime::from_millis(320).label()), "Poll time: 320ms");
}
