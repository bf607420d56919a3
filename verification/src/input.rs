//! The input-loop state machine: accumulates normalized key presses into a
//! pending queue, tracks idle time, resolves the queue against the active
//! mode's keymap — non-forcing on each key press, forcing once the idle
//! timeout elapses — and switches the active mode the instant a mode-switch
//! command is emitted, re-running resolution under the new mode.

use vstd::prelude::*;

use crate::commands::{Command, Mode};
use crate::keybindings::{entries_cmd, KeyBinds};
use crate::keys::Key;

verus! {

/// How long a partial chord may sit in the queue before a forcing match, in
/// milliseconds.
pub const KEY_SEQUENCE_TIMEOUT_MS: u64 = 500;
/// The poll resolution of the input loop, in milliseconds.
pub const KEY_SEQUENCE_RESOLUTION_MS: u64 = 10;
/// How many empty polls add up to the idle timeout.
pub const KEY_SEQUENCE_ITERATIONS: u64 = KEY_SEQUENCE_TIMEOUT_MS / KEY_SEQUENCE_RESOLUTION_MS;

/// The key for a bare printable character: that character's code with no
/// modifiers.
pub open spec fn char_key(c: char) -> Key {
    Key { code: crate::keys::KeyCode::Char(c), modifiers: crate::keys::KeyModifiers { bits: 0 } }
}

/// One binding trie per application mode, built once at startup and read-only
/// afterwards.
#[derive(Debug)]
pub struct Keymaps {
    /// Bindings active in `Mode::Normal`.
    pub normal: KeyBinds,
    /// Bindings active in `Mode::Command`.
    pub command: KeyBinds,
    /// Bindings active in `Mode::Insert`.
    pub insert: KeyBinds,
}

impl Keymaps {
    /// The trie that is active in mode `m`.
    pub open spec fn for_mode(self, m: Mode) -> KeyBinds {
        match m {
            Mode::Normal => self.normal,
            Mode::Command => self.command,
            Mode::Insert => self.insert,
        }
    }

    /// The trie that is active in mode `m`, by reference.
    pub fn binds_for(&self, m: Mode) -> (r: &KeyBinds)
        ensures
            *r == self.for_mode(m),
    {
        match m {
            Mode::Normal => &self.normal,
            Mode::Command => &self.command,
            Mode::Insert => &self.insert,
        }
    }

    /// What repeated resolution from mode `mode` over queue `q` produces: the
    /// matcher runs once; if its pass ends with a mode switch, resolution
    /// re-runs under the new mode against whatever remains in the queue. The
    /// result is all commands in emission order, the final queue, and the
    /// final mode.
    pub open spec fn resolve_spec(self, mode: Mode, q: Seq<Key>, forcing: bool) -> (
        Seq<Command>,
        Seq<Key>,
        Mode,
    )
        decreases q.len(),
    {
        let r = if forcing {
            self.for_mode(mode).force_match_spec(q)
        } else {
            self.for_mode(mode).try_match_spec(q)
        };
        if r.0.len() > 0 && r.0.last() is UpdateMode {
            let m2 = r.0.last()->UpdateMode_0;
            if r.1.len() < q.len() {
                let rec = self.resolve_spec(m2, r.1, forcing);
                (r.0 + rec.0, rec.1, rec.2)
            } else {
                (r.0, r.1, m2)
            }
        } else {
            (r.0, r.1, mode)
        }
    }

    /// Builds the default keymap set: the bindings the application ships
    /// for each mode. Building always succeeds, and each shipped chord is
    /// bound to its command.
    pub fn with_defaults() -> (r: Keymaps)
        ensures
            r.normal.wf(),
            r.command.wf(),
            r.insert.wf(),
            r.normal.cmd_of(seq![char_key('i')]) == Some(Command::UpdateMode(Mode::Insert)),
            r.normal.cmd_of(seq![char_key(':')]) == Some(Command::UpdateMode(Mode::Command)),
            r.normal.cmd_of(seq![char_key('q')]) == Some(Command::Quit),
            r.command.cmd_of(seq![char_key('j'), char_key('k')]) == Some(
                Command::UpdateMode(Mode::Normal),
            ),
            r.insert.cmd_of(seq![char_key('j'), char_key('k')]) == Some(
                Command::UpdateMode(Mode::Normal),
            ),
    {
        let normal_entries: Vec<(&str, Command)> = vec![
            ("i", Command::UpdateMode(Mode::Insert)),
            (":", Command::UpdateMode(Mode::Command)),
            ("q", Command::Quit),
        ];
        let command_entries: Vec<(&str, Command)> = vec![
            ("j k", Command::UpdateMode(Mode::Normal)),
        ];
        let insert_entries: Vec<(&str, Command)> = vec![
            ("j k", Command::UpdateMode(Mode::Normal)),
        ];
        proof {
            reveal_strlit("i");
            reveal_strlit(":");
            reveal_strlit("q");
            reveal_strlit("j k");
            assert("i"@ =~= seq!['i']);
            assert(":"@ =~= seq![':']);
            assert("q"@ =~= seq!['q']);
            assert("j k"@ =~= seq!['j', ' ', 'k']);
            crate::keys::lemma_parse_char_chord('i');
            crate::keys::lemma_parse_char_chord(':');
            crate::keys::lemma_parse_char_chord('q');
            crate::keys::lemma_parse_two_char_chord("j k"@, 'j', 'k');
        }
        let normal = match KeyBinds::from_entries(normal_entries.as_slice()) {
            Ok(binds) => binds,
            Err(_) => {
                proof {
                    assert(false);
                }
                vstd::pervasive::unreached()
            },
        };
        let command = match KeyBinds::from_entries(command_entries.as_slice()) {
            Ok(binds) => binds,
            Err(_) => {
                proof {
                    assert(false);
                }
                vstd::pervasive::unreached()
            },
        };
        let insert = match KeyBinds::from_entries(insert_entries.as_slice()) {
            Ok(binds) => binds,
            Err(_) => {
                proof {
                    assert(false);
                }
                vstd::pervasive::unreached()
            },
        };
        proof {
            let ne = normal_entries@;
            lemma_default_normal_bindings(ne, normal);
            let ce = command_entries@;
            assert(command.cmd_of(seq![char_key('j'), char_key('k')]) == entries_cmd(
                ce,
                seq![char_key('j'), char_key('k')],
            ));
            assert(entries_cmd(ce, seq![char_key('j'), char_key('k')]) == Some(
                Command::UpdateMode(Mode::Normal),
            ));
            let ie = insert_entries@;
            assert(insert.cmd_of(seq![char_key('j'), char_key('k')]) == entries_cmd(
                ie,
                seq![char_key('j'), char_key('k')],
            ));
            assert(entries_cmd(ie, seq![char_key('j'), char_key('k')]) == Some(
                Command::UpdateMode(Mode::Normal),
            ));
        }
        Keymaps { normal, command, insert }
    }
}

/// The mutable state of the input loop: the mode it tracks locally, the
/// pending queue of unresolved keys, and how many empty polls have passed
/// since the last key.
#[derive(Debug)]
pub struct InputState {
    /// The input loop's local copy of the active mode.
    pub mode: Mode,
    /// Queue of key inputs not yet resolved into a command.
    pub queue: Vec<Key>,
    /// Counter of empty polls since the last key input.
    pub idle_iterations: u64,
}

impl InputState {
    /// The idle counter stays below the forcing threshold between calls.
    pub open spec fn inv(self) -> bool {
        self.idle_iterations < KEY_SEQUENCE_ITERATIONS
    }

    /// Creates the state the input loop starts in: default mode, empty
    /// queue, idle counter at zero.
    pub fn new() -> (r: Self)
        ensures
            r.mode == Mode::Normal,
            r.queue@.len() == 0,
            r.idle_iterations == 0,
            r.inv(),
    {
        InputState { mode: Mode::Normal, queue: Vec::new(), idle_iterations: 0 }
    }

    /// Resolves the pending queue against the active mode's trie, switching
    /// mode and re-resolving whenever a pass ends in a mode switch.
    fn resolve(&mut self, maps: &Keymaps, forcing: bool) -> (commands: Vec<Command>)
        ensures
            commands@ == maps.resolve_spec(old(self).mode, old(self).queue@, forcing).0,
            final(self).queue@ == maps.resolve_spec(old(self).mode, old(self).queue@, forcing).1,
            final(self).mode == maps.resolve_spec(old(self).mode, old(self).queue@, forcing).2,
            final(self).idle_iterations == old(self).idle_iterations,
    {
        let mut commands: Vec<Command> = Vec::new();
        loop
            invariant
                self.idle_iterations == old(self).idle_iterations,
                maps.resolve_spec(old(self).mode, old(self).queue@, forcing).0 == commands@
                    + maps.resolve_spec(self.mode, self.queue@, forcing).0,
                maps.resolve_spec(old(self).mode, old(self).queue@, forcing).1
                    == maps.resolve_spec(self.mode, self.queue@, forcing).1,
                maps.resolve_spec(old(self).mode, old(self).queue@, forcing).2
                    == maps.resolve_spec(self.mode, self.queue@, forcing).2,
            decreases self.queue@.len(),
        {
            let ghost mode0 = self.mode;
            let ghost q0 = self.queue@;
            let binds = maps.binds_for(self.mode);
            let mut cmds = if forcing {
                binds.force_match(&mut self.queue)
            } else {
                binds.try_match(&mut self.queue)
            };
            proof {
                if forcing {
                    maps.for_mode(mode0).lemma_force_mode_switch_terminal(q0);
                } else {
                    maps.for_mode(mode0).lemma_try_mode_switch_terminal(q0);
                }
            }
            let switched: Option<Mode> = if cmds.len() > 0 {
                match cmds[cmds.len() - 1] {
                    Command::UpdateMode(m) => Some(m),
                    _ => None,
                }
            } else {
                None
            };
            let ghost commands0 = commands@;
            commands.append(&mut cmds);
            match switched {
                Some(m) => {
                    self.mode = m;
                    proof {
                        let r = if forcing {
                            maps.for_mode(mode0).force_match_spec(q0)
                        } else {
                            maps.for_mode(mode0).try_match_spec(q0)
                        };
                        assert(r.1.len() < q0.len());
                        let rec = maps.resolve_spec(m, r.1, forcing);
                        assert(maps.resolve_spec(mode0, q0, forcing).0 == r.0 + rec.0);
                        assert(maps.resolve_spec(mode0, q0, forcing).1 == rec.1);
                        assert(maps.resolve_spec(mode0, q0, forcing).2 == rec.2);
                        assert(commands@ =~= commands0 + r.0);
                        assert(commands0 + (r.0 + rec.0) =~= commands@ + rec.0);
                    }
                },
                None => {
                    proof {
                        let r = if forcing {
                            maps.for_mode(mode0).force_match_spec(q0)
                        } else {
                            maps.for_mode(mode0).try_match_spec(q0)
                        };
                        assert(maps.resolve_spec(mode0, q0, forcing).0 == r.0);
                        assert(maps.resolve_spec(mode0, q0, forcing).1 == r.1);
                        assert(maps.resolve_spec(mode0, q0, forcing).2 == mode0);
                        assert(commands@ =~= commands0 + r.0);
                    }
                    return commands;
                },
            }
        }
    }

    /// One poll cycle that read a key press: the key joins the pending
    /// queue, the idle counter resets, and a non-forcing resolution runs.
    pub fn on_key_press(&mut self, maps: &Keymaps, key: Key) -> (commands: Vec<Command>)
        ensures
            commands@ == maps.resolve_spec(old(self).mode, old(self).queue@.push(key), false).0,
            final(self).queue@ == maps.resolve_spec(
                old(self).mode,
                old(self).queue@.push(key),
                false,
            ).1,
            final(self).mode == maps.resolve_spec(
                old(self).mode,
                old(self).queue@.push(key),
                false,
            ).2,
            final(self).idle_iterations == 0,
            final(self).inv(),
    {
        self.queue.push(key);
        self.idle_iterations = 0;
        self.resolve(maps, false)
    }

    /// One poll cycle that timed out with no event: the idle counter
    /// advances, and once it reaches the forcing threshold it resets and a
    /// forcing resolution runs.
    pub fn on_poll_timeout(&mut self, maps: &Keymaps) -> (commands: Vec<Command>)
        requires
            old(self).inv(),
        ensures
            old(self).idle_iterations + 1 < KEY_SEQUENCE_ITERATIONS ==> {
                &&& commands@.len() == 0
                &&& final(self).queue@ == old(self).queue@
                &&& final(self).mode == old(self).mode
                &&& final(self).idle_iterations == old(self).idle_iterations + 1
            },
            old(self).idle_iterations + 1 >= KEY_SEQUENCE_ITERATIONS ==> {
                &&& commands@ == maps.resolve_spec(old(self).mode, old(self).queue@, true).0
                &&& final(self).queue@ == maps.resolve_spec(old(self).mode, old(self).queue@, true).1
                &&& final(self).mode == maps.resolve_spec(old(self).mode, old(self).queue@, true).2
                &&& final(self).idle_iterations == 0
            },
            final(self).inv(),
    {
        self.idle_iterations = self.idle_iterations + 1;
        if self.idle_iterations >= KEY_SEQUENCE_ITERATIONS {
            self.idle_iterations = 0;
            self.resolve(maps, true)
        } else {
            Vec::new()
        }
    }
}


/// Evaluates the three-entry normal-mode table at each of its chords.
proof fn lemma_default_normal_bindings(ne: Seq<(&str, Command)>, binds: KeyBinds)
    requires
        ne.len() == 3,
        ne[0].0@ == "i"@,
        ne[0].1 == Command::UpdateMode(Mode::Insert),
        ne[1].0@ == ":"@,
        ne[1].1 == Command::UpdateMode(Mode::Command),
        ne[2].0@ == "q"@,
        ne[2].1 == Command::Quit,
        forall|s: Seq<Key>| #[trigger] binds.cmd_of(s) == entries_cmd(ne, s),
    ensures
        binds.cmd_of(seq![char_key('i')]) == Some(Command::UpdateMode(Mode::Insert)),
        binds.cmd_of(seq![char_key(':')]) == Some(Command::UpdateMode(Mode::Command)),
        binds.cmd_of(seq![char_key('q')]) == Some(Command::Quit),
{
    reveal_strlit("i");
    reveal_strlit(":");
    reveal_strlit("q");
    assert("i"@ =~= seq!['i']);
    assert(":"@ =~= seq![':']);
    assert("q"@ =~= seq!['q']);
    crate::keys::lemma_parse_char_chord('i');
    crate::keys::lemma_parse_char_chord(':');
    crate::keys::lemma_parse_char_chord('q');
    let e2 = ne.drop_last();
    let e1 = e2.drop_last();
    assert(e2.len() == 2 && e2[0] == ne[0] && e2[1] == ne[1]);
    assert(e1.len() == 1 && e1[0] == ne[0]);
    assert(seq![char_key('q')][0] != seq![char_key('i')][0]);
    assert(seq![char_key('q')][0] != seq![char_key(':')][0]);
    assert(seq![char_key(':')][0] != seq![char_key('i')][0]);
    assert(entries_cmd(ne, seq![char_key('q')]) == Some(Command::Quit));
    assert(entries_cmd(e2, seq![char_key(':')]) == Some(Command::UpdateMode(Mode::Command)));
    assert(entries_cmd(ne, seq![char_key(':')]) == Some(Command::UpdateMode(Mode::Command)));
    assert(entries_cmd(e1, seq![char_key('i')]) == Some(Command::UpdateMode(Mode::Insert)));
    assert(entries_cmd(e2, seq![char_key('i')]) == Some(Command::UpdateMode(Mode::Insert)));
    assert(entries_cmd(ne, seq![char_key('i')]) == Some(Command::UpdateMode(Mode::Insert)));
}

} // verus!
