use game_of_life::kmaps;
use game_of_life::kmaps::{ch_to_event, Key, KeyPress, Modifier};

fn plain(code: Key) -> KeyPress {
    KeyPress::new(code, Modifier::Plain)
}

#[test]
fn key_press_holds_code_and_modifier() {
    let key = KeyPress::new(Key::Up, Modifier::Shift);
    assert_eq!(key.code, Key::Up);
    assert_eq!(key.modifier, Modifier::Shift);
}

#[test]
fn ch_to_event_is_a_plain_character() {
    assert_eq!(ch_to_event('x'), KeyPress { code: Key::Char('x'), modifier: Modifier::Plain });
}

#[test]
fn play_pause_keys() {
    assert_eq!(kmaps::play_pause(), vec![plain(Key::Char(' '))]);
}

#[test]
fn slower_keys() {
    assert_eq!(kmaps::slower(), vec![plain(Key::Char('j')), plain(Key::Down)]);
}

#[test]
fn slower_big_keys() {
    assert_eq!(
        kmaps::slower_big(),
        vec![plain(Key::Char('J')), KeyPress::new(Key::Down, Modifier::Shift)]
    );
}

#[test]
fn faster_keys() {
    assert_eq!(kmaps::faster(), vec![plain(Key::Char('k')), plain(Key::Up)]);
}

#[test]
fn faster_big_keys() {
    assert_eq!(
        kmaps::faster_big(),
        vec![plain(Key::Char('K')), KeyPress::new(Key::Up, Modifier::Shift)]
    );
}

#[test]
fn quit_keys() {
    assert_eq!(
        kmaps::quit(),
        vec![
            plain(Key::Esc),
            plain(Key::Char('q')),
            KeyPress::new(Key::Char('c'), Modifier::Control),
        ]
    );
}

#[test]
fn restart_keys() {
    assert_eq!(kmaps::restart(), vec![plain(Key::Char('r'))]);
}

#[test]
fn reset_keys() {
    assert_eq!(kmaps::reset(), vec![plain(Key::Char('R'))]);
}

#[test]
fn next_keys() {
    assert_eq!(kmaps::next(), vec![plain(Key::Char('n'))]);
}

#[test]
fn bigger_keys() {
    assert_eq!(kmaps::bigger(), vec![plain(Key::Char('+'))]);
}

#[test]
fn smaller_keys() {
    assert_eq!(kmaps::smaller(), vec![plain(Key::Char('-'))]);
}

#[test]
fn no_key_asks_for_two_actions() {
    let maps = [
        kmaps::play_pause(),
        kmaps::slower(),
        kmaps::slower_big(),
        kmaps::faster(),
        kmaps::faster_big(),
        kmaps::quit(),
        kmaps::restart(),
        kmaps::reset(),
        kmaps::next(),
        kmaps::bigger(),
        kmaps::smaller(),
    ];
    for (i, a) in maps.iter().enumerate() {
        for b in &maps[i + 1..] {
            assert!(a.iter().all(|key| !b.contains(key)));
        }
    }
}
