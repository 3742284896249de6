//! Keymaps to handle input events: for each action of the game, the keys
//! that ask for it.

use vstd::prelude::*;

verus! {

/// A key of the keyboard, as far as the game has a use for it.
#[derive(Clone, Copy, Debug, PartialEq, Eq, Structural)]
pub enum Key {
    /// A character key.
    Char(char),
    /// The up arrow.
    Up,
    /// The down arrow.
    Down,
    /// The escape key.
    Esc,
}

/// The modifier key that is held down with a key, if any.
#[derive(Clone, Copy, Debug, PartialEq, Eq, Structural)]
pub enum Modifier {
    /// No modifier: the key is pressed alone.
    Plain,
    /// The shift key.
    Shift,
    /// The control key.
    Control,
}

/// One press of a key, with the modifier held down with it.
#[derive(Clone, Copy, Debug, PartialEq, Eq, Structural)]
pub struct KeyPress {
    pub code: Key,
    pub modifier: Modifier,
}

impl KeyPress {
    /// The press of `code` with no modifier.
    pub open spec fn plain(code: Key) -> KeyPress {
        KeyPress { code, modifier: Modifier::Plain }
    }

    /// The press of `code` together with `modifier`.
    pub open spec fn with(code: Key, modifier: Modifier) -> KeyPress {
        KeyPress { code, modifier }
    }

    /// Creates the press of `code` together with `modifier`.
    pub fn new(code: Key, modifier: Modifier) -> (key: KeyPress)
        ensures
            key == KeyPress::with(code, modifier),
    {
        KeyPress { code, modifier }
    }
}

/// Creates the press of the character key `ch`, with no modifier.
pub fn ch_to_event(ch: char) -> (key: KeyPress)
    ensures
        key == KeyPress::plain(Key::Char(ch)),
{
    KeyPress::new(Key::Char(ch), Modifier::Plain)
}

/// Creates the press of `code` with no modifier.
fn plain_key(code: Key) -> (key: KeyPress)
    ensures
        key == KeyPress::plain(code),
{
    KeyPress::new(code, Modifier::Plain)
}

/// The keys that pause the game and set it going again: the space bar.
pub fn play_pause() -> (keys: Vec<KeyPress>)
    ensures
        keys@ == seq![KeyPress::plain(Key::Char(' '))],
{
    let mut keys = Vec::new();
    keys.push(ch_to_event(' '));
    assert(keys@ =~= seq![KeyPress::plain(Key::Char(' '))]);
    keys
}

/// The keys that make the game one step slower: `j` and the down arrow.
pub fn slower() -> (keys: Vec<KeyPress>)
    ensures
        keys@ == seq![KeyPress::plain(Key::Char('j')), KeyPress::plain(Key::Down)],
{
    let mut keys = Vec::new();
    keys.push(ch_to_event('j'));
    keys.push(plain_key(Key::Down));
    assert(keys@ =~= seq![KeyPress::plain(Key::Char('j')), KeyPress::plain(Key::Down)]);
    keys
}

/// The keys that make the game one big step slower: `J` and the down arrow
/// with shift.
pub fn slower_big() -> (keys: Vec<KeyPress>)
    ensures
        keys@ == seq![
            KeyPress::plain(Key::Char('J')),
            KeyPress::with(Key::Down, Modifier::Shift),
        ],
{
    let mut keys = Vec::new();
    keys.push(ch_to_event('J'));
    keys.push(KeyPress::new(Key::Down, Modifier::Shift));
    assert(keys@ =~= seq![
        KeyPress::plain(Key::Char('J')),
        KeyPress::with(Key::Down, Modifier::Shift),
    ]);
    keys
}

/// The keys that make the game one step faster: `k` and the up arrow.
pub fn faster() -> (keys: Vec<KeyPress>)
    ensures
        keys@ == seq![KeyPress::plain(Key::Char('k')), KeyPress::plain(Key::Up)],
{
    let mut keys = Vec::new();
    keys.push(ch_to_event('k'));
    keys.push(plain_key(Key::Up));
    assert(keys@ =~= seq![KeyPress::plain(Key::Char('k')), KeyPress::plain(Key::Up)]);
    keys
}

/// The keys that make the game one big step faster: `K` and the up arrow
/// with shift.
pub fn faster_big() -> (keys: Vec<KeyPress>)
    ensures
        keys@ == seq![
            KeyPress::plain(Key::Char('K')),
            KeyPress::with(Key::Up, Modifier::Shift),
        ],
{
    let mut keys = Vec::new();
    keys.push(ch_to_event('K'));
    keys.push(KeyPress::new(Key::Up, Modifier::Shift));
    assert(keys@ =~= seq![
        KeyPress::plain(Key::Char('K')),
        KeyPress::with(Key::Up, Modifier::Shift),
    ]);
    keys
}

/// The keys that end the game: escape, `q`, and `c` with control.
pub fn quit() -> (keys: Vec<KeyPress>)
    ensures
        keys@ == seq![
            KeyPress::plain(Key::Esc),
            KeyPress::plain(Key::Char('q')),
            KeyPress::with(Key::Char('c'), Modifier::Control),
        ],
{
    let mut keys = Vec::new();
    keys.push(plain_key(Key::Esc));
    keys.push(ch_to_event('q'));
    keys.push(KeyPress::new(Key::Char('c'), Modifier::Control));
    assert(keys@ =~= seq![
        KeyPress::plain(Key::Esc),
        KeyPress::plain(Key::Char('q')),
        KeyPress::with(Key::Char('c'), Modifier::Control),
    ]);
    keys
}

/// The keys that start the current shape again: `r`.
pub fn restart() -> (keys: Vec<KeyPress>)
    ensures
        keys@ == seq![KeyPress::plain(Key::Char('r'))],
{
    let mut keys = Vec::new();
    keys.push(ch_to_event('r'));
    assert(keys@ =~= seq![KeyPress::plain(Key::Char('r'))]);
    keys
}

/// The keys that go back to the first shape: `R`.
pub fn reset() -> (keys: Vec<KeyPress>)
    ensures
        keys@ == seq![KeyPress::plain(Key::Char('R'))],
{
    let mut keys = Vec::new();
    keys.push(ch_to_event('R'));
    assert(keys@ =~= seq![KeyPress::plain(Key::Char('R'))]);
    keys
}

/// The keys that go on to the next shape: `n`.
pub fn next() -> (keys: Vec<KeyPress>)
    ensures
        keys@ == seq![KeyPress::plain(Key::Char('n'))],
{
    let mut keys = Vec::new();
    keys.push(ch_to_event('n'));
    assert(keys@ =~= seq![KeyPress::plain(Key::Char('n'))]);
    keys
}

/// The keys that make the display area bigger: `+`.
pub fn bigger() -> (keys: Vec<KeyPress>)
    ensures
        keys@ == seq![KeyPress::plain(Key::Char('+'))],
{
    let mut keys = Vec::new();
    keys.push(ch_to_event('+'));
    assert(keys@ =~= seq![KeyPress::plain(Key::Char('+'))]);
    keys
}

/// The keys that make the display area smaller: `-`.
pub fn smaller() -> (keys: Vec<KeyPress>)
    ensures
        keys@ == seq![KeyPress::plain(Key::Char('-'))],
{
    let mut keys = Vec::new();
    keys.push(ch_to_event('-'));
    assert(keys@ =~= seq![KeyPress::plain(Key::Char('-'))]);
    keys
}

} // verus!
