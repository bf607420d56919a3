use std::collections::VecDeque;

use planit::commands::{Command, Mode};
use planit::cosmos::Status;
use planit::input::{InputState, Keymaps, KEY_SEQUENCE_ITERATIONS};
use planit::keybindings::{KeyBinds, KeymapError};
use planit::keys::{Key, KeyCode, KeyModifiers};
use planit::queue::PushQueue;

fn key(c: char) -> Key {
    Key { code: KeyCode::Char(c), modifiers: KeyModifiers { bits: 0 } }
}

fn prefix_binds() -> KeyBinds {
    KeyBinds::from_entries(&[("g", Command::Redraw), ("g g", Command::Quit)]).unwrap()
}

#[test]
fn single_key_chord_resolves_on_timeout() {
    // A chord that is also a prefix of a longer one defers, then the forcing
    // match commits it.
    let binds = prefix_binds();
    let mut keys = vec![key('g')];
    let commands = binds.try_match(&mut keys);
    assert_eq!(commands, vec![]);
    assert_eq!(keys, vec![key('g')]);
    let commands = binds.force_match(&mut keys);
    assert_eq!(commands, vec![Command::Redraw]);
    assert_eq!(keys, vec![]);
}

#[test]
fn two_key_chord_resolves_when_complete() {
    let binds = prefix_binds();
    let mut keys = vec![key('g'), key('g')];
    let commands = binds.try_match(&mut keys);
    assert_eq!(commands, vec![Command::Quit]);
    assert_eq!(keys, vec![]);
}

#[test]
fn unbound_key_is_discarded() {
    let binds = prefix_binds();
    let mut keys = vec![key('z')];
    let commands = binds.try_match(&mut keys);
    assert_eq!(commands, vec![]);
    assert_eq!(keys, vec![]);
    let mut keys = vec![key('z')];
    let commands = binds.force_match(&mut keys);
    assert_eq!(commands, vec![]);
    assert_eq!(keys, vec![]);
}

#[test]
fn empty_queue_resolves_to_nothing() {
    let binds = prefix_binds();
    let mut keys: Vec<Key> = vec![];
    assert_eq!(binds.try_match(&mut keys), vec![]);
    assert_eq!(keys, vec![]);
    assert_eq!(binds.force_match(&mut keys), vec![]);
    assert_eq!(keys, vec![]);
}

#[test]
fn key_parse_rejects_unknown_code() {
    assert_eq!(Key::parse("ab"), None);
}

#[test]
fn key_parse_rejects_unknown_modifier() {
    assert_eq!(Key::parse("Modifier+a"), None);
}

#[test]
fn key_parse_named_keys() {
    assert_eq!(
        Key::parse("Escape"),
        Some(Key { code: KeyCode::Esc, modifiers: KeyModifiers { bits: 0 } })
    );
    assert_eq!(
        Key::parse("Begin"),
        Some(Key { code: KeyCode::KeypadBegin, modifiers: KeyModifiers { bits: 0 } })
    );
    assert_eq!(
        Key::parse("Space"),
        Some(Key { code: KeyCode::Char(' '), modifiers: KeyModifiers { bits: 0 } })
    );
    assert_eq!(Key::parse(""), None);
}

#[test]
fn chord_parse_splits_on_spaces() {
    let keys = Key::parse_chord("j k").unwrap();
    assert_eq!(keys, vec![key('j'), key('k')]);
    assert_eq!(Key::parse_chord("j  k"), None);
}

#[test]
fn from_entries_reports_first_invalid_chord() {
    let result = KeyBinds::from_entries(&[
        ("a", Command::Quit),
        ("Bogus+x", Command::Redraw),
        ("also bad once more", Command::Redraw),
    ]);
    assert_eq!(result, Err(KeymapError::InvalidChord(1)));
}

#[test]
fn duplicate_binding_keeps_last_command() {
    let binds =
        KeyBinds::from_entries(&[("a", Command::Quit), ("a", Command::Redraw)]).unwrap();
    let mut keys = vec![key('a')];
    let commands = binds.try_match(&mut keys);
    assert_eq!(commands, vec![Command::Redraw]);
    assert_eq!(keys, vec![]);
}

#[test]
fn input_state_resolves_defaults() {
    let maps = Keymaps::with_defaults();
    let mut state = InputState::new();
    assert_eq!(state.mode, Mode::Normal);

    // 'i' switches to insert mode; the loop tracks the switch locally.
    let commands = state.on_key_press(&maps, key('i'));
    assert_eq!(commands, vec![Command::UpdateMode(Mode::Insert)]);
    assert_eq!(state.mode, Mode::Insert);
    assert!(state.queue.is_empty());

    // 'j k' in insert mode switches back to normal mode.
    let commands = state.on_key_press(&maps, key('j'));
    assert_eq!(commands, vec![]);
    assert_eq!(state.queue, vec![key('j')]);
    let commands = state.on_key_press(&maps, key('k'));
    assert_eq!(commands, vec![Command::UpdateMode(Mode::Normal)]);
    assert_eq!(state.mode, Mode::Normal);
    assert!(state.queue.is_empty());

    // 'q' in normal mode quits.
    let commands = state.on_key_press(&maps, key('q'));
    assert_eq!(commands, vec![Command::Quit]);
}

#[test]
fn input_state_forces_after_idle_timeout() {
    let maps = Keymaps::with_defaults();
    let mut state = InputState::new();
    let commands = state.on_key_press(&maps, key('i'));
    assert_eq!(commands, vec![Command::UpdateMode(Mode::Insert)]);

    // A lone 'j' in insert mode is an ambiguous prefix of "j k".
    let commands = state.on_key_press(&maps, key('j'));
    assert_eq!(commands, vec![]);
    assert_eq!(state.queue, vec![key('j')]);

    // Quiet polls below the threshold change nothing.
    for _ in 0..KEY_SEQUENCE_ITERATIONS - 1 {
        let commands = state.on_poll_timeout(&maps);
        assert_eq!(commands, vec![]);
        assert_eq!(state.queue, vec![key('j')]);
    }
    // The poll that crosses the threshold forces the match; the unbound
    // partial chord is discarded and the queue is empty again.
    let commands = state.on_poll_timeout(&maps);
    assert_eq!(commands, vec![]);
    assert!(state.queue.is_empty());
    assert_eq!(state.idle_iterations, 0);
}

#[test]
fn status_names_match_display_forms() {
    assert_eq!(Status::Todo.name(), "Todo");
    assert_eq!(Status::Block.name(), "Block");
    assert_eq!(Status::Next.name(), "Next");
    assert_eq!(Status::Start.name(), "Start");
    assert_eq!(Status::Hold.name(), "Hold");
    assert_eq!(Status::Done.name(), "Done");
    assert_eq!(Status::Cancel.name(), "Cancel");
}

#[test]
fn push_queue_appends_at_the_back() {
    let deque: VecDeque<u32> = VecDeque::from(vec![1, 2]);
    let mut queue = PushQueue::from_deque(deque);
    queue.push_back(3);
    let deque: VecDeque<u32> = queue.into_deque();
    assert_eq!(deque, VecDeque::from(vec![1, 2, 3]));
}
