use planit::commands::{Command, Mode};
use planit::keybindings::{KeyBind, KeyBinds};
use planit::keys::{Key, KeyCode, KeyModifiers, MOD_ALT, MOD_CONTROL};

fn key(c: char) -> Key {
    Key { code: KeyCode::Char(c), modifiers: KeyModifiers { bits: 0 } }
}

fn test_binds() -> KeyBinds {
    KeyBinds::from_entries(&[
        ("a b", Command::Quit),
        ("a b c", Command::Redraw),
        ("x y", Command::UpdateMode(Mode::Command)),
    ])
    .unwrap()
}

#[test]
fn key_from_string_works_correctly() {
    assert_eq!(
        Key::parse("a"),
        Some(Key { code: KeyCode::Char('a'), modifiers: KeyModifiers { bits: 0 } })
    );
    assert_eq!(
        Key::parse("Control+a"),
        Some(Key { code: KeyCode::Char('a'), modifiers: KeyModifiers { bits: MOD_CONTROL } })
    );
    assert_eq!(
        Key::parse("Alt+Control+!"),
        Some(Key {
            code: KeyCode::Char('!'),
            modifiers: KeyModifiers { bits: MOD_CONTROL | MOD_ALT },
        })
    );
    assert_eq!(
        Key::parse("Backspace"),
        Some(Key { code: KeyCode::Backspace, modifiers: KeyModifiers { bits: 0 } })
    );
    assert_eq!(
        Key::parse("Alt+Space"),
        Some(Key { code: KeyCode::Char(' '), modifiers: KeyModifiers { bits: MOD_ALT } })
    );
    assert_eq!(
        Key::parse("Control+Alt+Enter"),
        Some(Key { code: KeyCode::Enter, modifiers: KeyModifiers { bits: MOD_CONTROL | MOD_ALT } })
    );
}

#[test]
fn key_binds_from_slice_works_correctly() {
    let binds = test_binds();
    assert_eq!(
        binds,
        KeyBinds(vec![
            (
                key('a'),
                KeyBind {
                    command: None,
                    sequence: Some(Box::new(KeyBinds(vec![(
                        key('b'),
                        KeyBind {
                            command: Some(Command::Quit),
                            sequence: Some(Box::new(KeyBinds(vec![(
                                key('c'),
                                KeyBind { command: Some(Command::Redraw), sequence: None }
                            )]))),
                        }
                    )]))),
                }
            ),
            (
                key('x'),
                KeyBind {
                    command: None,
                    sequence: Some(Box::new(KeyBinds(vec![(
                        key('y'),
                        KeyBind {
                            command: Some(Command::UpdateMode(Mode::Command)),
                            sequence: None,
                        }
                    )]))),
                }
            ),
        ])
    );
}

#[test]
fn try_match_perfect_match_returns_command() {
    let binds = test_binds();
    let mut keys = vec![key('a'), key('b'), key('c')];
    let commands = binds.try_match(&mut keys);
    assert_eq!(keys, vec![]);
    assert_eq!(commands, vec![Command::Redraw]);
}

#[test]
fn try_match_no_match_returns_nothing_and_consumes_keys() {
    let binds = test_binds();
    let mut keys = vec![key('j'), key('k')];
    let commands = binds.try_match(&mut keys);
    assert_eq!(keys, vec![]);
    assert_eq!(commands, vec![]);
}

#[test]
fn try_match_partial_match_returns_nothing() {
    let binds = test_binds();
    let mut keys = vec![key('a')];
    let commands = binds.try_match(&mut keys);
    assert_eq!(keys, vec![key('a')]);
    assert_eq!(commands, vec![]);
}

#[test]
fn try_match_perfect_and_partial_match_returns_nothing() {
    let binds = test_binds();
    let mut keys = vec![key('a'), key('b')];
    let commands = binds.try_match(&mut keys);
    assert_eq!(keys, vec![key('a'), key('b')]);
    assert_eq!(commands, vec![]);
}

#[test]
fn try_match_perfect_match_with_extra_returns_command() {
    let binds = test_binds();
    let mut keys = vec![key('a'), key('b'), key('x')];
    let commands = binds.try_match(&mut keys);
    assert_eq!(keys, vec![key('x')]);
    assert_eq!(commands, vec![Command::Quit]);
}

#[test]
fn try_match_stops_when_mode_chages() {
    let binds = test_binds();
    let mut keys = vec![
        key('a'),
        key('b'),
        key('x'),
        key('y'),
        key('a'),
        key('b'),
        key('c'),
    ];
    let commands = binds.try_match(&mut keys);
    assert_eq!(keys, vec![key('a'), key('b'), key('c')]);
    assert_eq!(commands, vec![Command::Quit, Command::UpdateMode(Mode::Command)]);
}

#[test]
fn force_match_perfect_match_returns_command() {
    let binds = test_binds();
    let mut keys = vec![key('a'), key('b'), key('c')];
    let commands = binds.force_match(&mut keys);
    assert_eq!(keys, vec![]);
    assert_eq!(commands, vec![Command::Redraw]);
}

#[test]
fn force_match_no_match_returns_nothing_and_consumes_keys() {
    let binds = test_binds();
    let mut keys = vec![key('j'), key('k')];
    let commands = binds.force_match(&mut keys);
    assert_eq!(keys, vec![]);
    assert_eq!(commands, vec![]);
}

#[test]
fn force_match_partial_match_returns_nothing_and_consumes_keys() {
    let binds = test_binds();
    let mut keys = vec![key('a')];
    let commands = binds.force_match(&mut keys);
    assert_eq!(keys, vec![]);
    assert_eq!(commands, vec![]);
}

#[test]
fn force_match_perfect_and_partial_match_returns_command_and_consumes_keys() {
    let binds = test_binds();
    let mut keys = vec![key('a'), key('b')];
    let commands = binds.force_match(&mut keys);
    assert_eq!(keys, vec![]);
    assert_eq!(commands, vec![Command::Quit]);
}

#[test]
fn force_match_perfect_match_with_extra_returns_command() {
    let binds = test_binds();
    let mut keys = vec![key('a'), key('b'), key('x')];
    let commands = binds.force_match(&mut keys);
    assert_eq!(keys, vec![]);
    assert_eq!(commands, vec![Command::Quit]);
}

#[test]
fn force_match_stops_when_mode_chages() {
    let binds = test_binds();
    let mut keys = vec![
        key('a'),
        key('b'),
        key('x'),
        key('y'),
        key('a'),
        key('b'),
        key('c'),
    ];
    let commands = binds.force_match(&mut keys);
    assert_eq!(keys, vec![key('a'), key('b'), key('c')]);
    assert_eq!(commands, vec![Command::Quit, Command::UpdateMode(Mode::Command)]);
}
