//! The matcher: given a pending queue of keys and a binding trie, decides how
//! much of the queue is consumed and which commands result. Two variants are
//! offered: non-forcing ([`KeyBinds::try_match`]), which leaves an ambiguous
//! tail in the queue for more keys to complete, and forcing
//! ([`KeyBinds::force_match`]), which commits to the best candidate and
//! clears the queue.

use vstd::prelude::*;

use crate::commands::Command;
use crate::keybindings::KeyBinds;
use crate::keys::Key;

verus! {

impl KeyBinds {
    /// The length of the longest prefix of `q` that the trie still matches:
    /// the largest `e <= q.len()` with `lookup(q.take(e))` a node.
    pub open spec fn probe_len(self, q: Seq<Key>) -> int
        decreases q.len(),
    {
        if q.len() == 0 {
            0
        } else if self.lookup(q) is Some {
            q.len() as int
        } else {
            self.probe_len(q.drop_last())
        }
    }

    /// The candidate length: the largest `e <= m` whose prefix carries a
    /// terminal command, or `0` when no probed prefix does.
    pub open spec fn cand_len(self, q: Seq<Key>, m: int) -> int
        decreases m,
    {
        if m <= 0 {
            0
        } else if self.cmd_of(q.take(m)) is Some {
            m
        } else {
            self.cand_len(q, m - 1)
        }
    }

    /// One resolution pass of the non-forcing matcher over queue `q`: the
    /// commands emitted, in order, and the keys left in the queue.
    ///
    /// Round by round: probe the longest matching prefix; if the probe
    /// reaches the end of the queue while a longer chord is still possible,
    /// stop and leave the ambiguous tail untouched. Otherwise emit the
    /// longest candidate command and drain its chord — stopping after a mode
    /// switch — or, with no candidate, discard the probed keys and the one
    /// that broke the match.
    pub open spec fn try_match_spec(self, q: Seq<Key>) -> (Seq<Command>, Seq<Key>)
        decreases q.len(),
        via Self::try_match_spec_decreases
    {
        if q.len() == 0 {
            (Seq::empty(), q)
        } else {
            let m = self.probe_len(q);
            if m == q.len() && self.lookup(q)->0.sequence is Some {
                (Seq::empty(), q)
            } else {
                let c = self.cand_len(q, m);
                if c > 0 {
                    let cmd = self.cmd_of(q.take(c))->0;
                    if cmd is UpdateMode {
                        (seq![cmd], q.skip(c))
                    } else {
                        let rest = self.try_match_spec(q.skip(c));
                        (seq![cmd] + rest.0, rest.1)
                    }
                } else {
                    let d = if m + 1 <= q.len() {
                        m + 1
                    } else {
                        q.len() as int
                    };
                    self.try_match_spec(q.skip(d))
                }
            }
        }
    }

    /// One resolution pass of the forcing matcher over queue `q`: as
    /// `try_match_spec`, except that an ambiguous tail is not deferred — the
    /// last candidate is committed and unrecognized input discarded — so the
    /// queue empties unless a mode switch ends the pass early.
    pub open spec fn force_match_spec(self, q: Seq<Key>) -> (Seq<Command>, Seq<Key>)
        decreases q.len(),
        via Self::force_match_spec_decreases
    {
        if q.len() == 0 {
            (Seq::empty(), q)
        } else {
            let m = self.probe_len(q);
            let c = self.cand_len(q, m);
            if c > 0 {
                let cmd = self.cmd_of(q.take(c))->0;
                if cmd is UpdateMode {
                    (seq![cmd], q.skip(c))
                } else {
                    let rest = self.force_match_spec(q.skip(c));
                    (seq![cmd] + rest.0, rest.1)
                }
            } else {
                let d = if m + 1 <= q.len() {
                    m + 1
                } else {
                    q.len() as int
                };
                self.force_match_spec(q.skip(d))
            }
        }
    }

    #[via_fn]
    proof fn try_match_spec_decreases(self, q: Seq<Key>) {
        self.lemma_probe_cand_bounds(q);
    }

    #[via_fn]
    proof fn force_match_spec_decreases(self, q: Seq<Key>) {
        self.lemma_probe_cand_bounds(q);
    }

    proof fn lemma_probe_cand_bounds(self, q: Seq<Key>)
        ensures
            0 <= self.probe_len(q) <= q.len(),
            self.cand_len(q, self.probe_len(q)) > 0 ==> 1 <= self.cand_len(
                q,
                self.probe_len(q),
            ) <= q.len(),
    {
        self.lemma_probe_len_char(q);
        self.lemma_cand_len_char(q, self.probe_len(q));
    }

    /// What the probe length means: every prefix up to it matches a node, and
    /// no longer prefix does.
    pub proof fn lemma_probe_len_char(self, q: Seq<Key>)
        ensures
            0 <= self.probe_len(q) <= q.len(),
            forall|e: int|
                1 <= e <= self.probe_len(q) ==> (#[trigger] self.lookup(q.take(e))) is Some,
            forall|e: int|
                self.probe_len(q) < e <= q.len() ==> (#[trigger] self.lookup(q.take(e))) is None,
        decreases q.len(),
    {
        if q.len() == 0 {
        } else if self.lookup(q) is Some {
            assert forall|e: int|
                1 <= e <= self.probe_len(q) implies (#[trigger] self.lookup(q.take(e))) is Some by {
                if e < q.len() {
                    self.lemma_lookup_prefix(q, e);
                } else {
                    assert(q.take(e) =~= q);
                }
            }
        } else {
            self.lemma_probe_len_char(q.drop_last());
            let m = self.probe_len(q);
            assert(q.drop_last() =~= q.take(q.len() - 1));
            assert forall|e: int|
                1 <= e <= m implies (#[trigger] self.lookup(q.take(e))) is Some by {
                assert(q.take(e) =~= q.drop_last().take(e));
                assert(self.lookup(q.drop_last().take(e)) is Some);
            }
            assert forall|e: int|
                m < e <= q.len() implies (#[trigger] self.lookup(q.take(e))) is None by {
                if e < q.len() {
                    assert(q.take(e) =~= q.drop_last().take(e));
                    assert(self.lookup(q.drop_last().take(e)) is None);
                } else {
                    assert(q.take(e) =~= q);
                }
            }
        }
    }

    /// A matched walk matches every shorter prefix of itself.
    pub proof fn lemma_lookup_prefix(self, s: Seq<Key>, j: int)
        requires
            self.lookup(s) is Some,
            0 < j < s.len(),
        ensures
            self.lookup(s.take(j)) is Some,
        decreases s.len(),
    {
        let bind = self.get_spec(s[0])->0;
        assert(s.take(j)[0] == s[0]);
        if j == 1 {
            assert(self.lookup(s.take(1)) == Some(bind));
        } else {
            let sub = *bind.sequence->0;
            assert(s.take(j).drop_first() =~= s.drop_first().take(j - 1));
            sub.lemma_lookup_prefix(s.drop_first(), j - 1);
        }
    }

    /// What the candidate length means: its prefix carries a command, and no
    /// longer probed prefix does.
    pub proof fn lemma_cand_len_char(self, q: Seq<Key>, m: int)
        ensures
            0 <= self.cand_len(q, m),
            self.cand_len(q, m) <= m || self.cand_len(q, m) == 0,
            self.cand_len(q, m) > 0 ==> (#[trigger] self.cmd_of(
                q.take(self.cand_len(q, m)),
            )) is Some,
            forall|e: int|
                self.cand_len(q, m) < e <= m ==> (#[trigger] self.cmd_of(q.take(e))) is None,
        decreases m,
    {
        if m > 0 && self.cmd_of(q.take(m)) is None {
            self.lemma_cand_len_char(q, m - 1);
        }
    }
}


impl KeyBinds {
    /// Runs the probe over the whole queue: returns the probe length, the
    /// candidate length, the candidate's command, and whether the deepest
    /// matched node still has a possible continuation.
    fn probe(&self, keys: &Vec<Key>) -> (r: (usize, usize, Option<Command>, bool))
        ensures
            r.0 as int == self.probe_len(keys@),
            r.1 as int == self.cand_len(keys@, self.probe_len(keys@)),
            r.2 == (if r.1 > 0 {
                self.cmd_of(keys@.take(r.1 as int))
            } else {
                None::<Command>
            }),
            r.1 > 0 ==> self.cmd_of(keys@.take(r.1 as int)) is Some,
            r.3 == (r.0 > 0 && self.lookup(keys@.take(r.0 as int))->0.sequence is Some),
    {
        let n = keys.len();
        let mut i: usize = 0;
        let mut cand: usize = 0;
        let mut cand_cmd: Option<Command> = None;
        let mut cont = false;
        while i < n
            invariant
                n == keys@.len(),
                0 <= i <= n,
                forall|e: int| 1 <= e <= i ==> (#[trigger] self.lookup(keys@.take(e))) is Some,
                cand <= i,
                cand > 0 ==> (#[trigger] self.cmd_of(keys@.take(cand as int))) is Some,
                cand_cmd == (if cand > 0 {
                    self.cmd_of(keys@.take(cand as int))
                } else {
                    None::<Command>
                }),
                forall|e: int| cand < e <= i ==> (#[trigger] self.cmd_of(keys@.take(e))) is None,
                cont == (i > 0 && self.lookup(keys@.take(i as int))->0.sequence is Some),
            decreases n - i,
        {
            let end = i + 1;
            let prefix = vstd::slice::slice_subrange(keys.as_slice(), 0, end);
            proof {
                assert(prefix@ =~= keys@.take(end as int));
            }
            match self.get_key_bind(prefix) {
                Some(bind) => {
                    if bind.command.is_some() {
                        cand = end;
                        cand_cmd = bind.command;
                    }
                    cont = bind.sequence.is_some();
                    i = end;
                },
                None => {
                    proof {
                        self.lemma_probe_len_char(keys@);
                        assert(self.lookup(keys@.take(end as int)) is None);
                        assert(self.probe_len(keys@) == i);
                        self.lemma_cand_len_char(keys@, i as int);
                        assert(self.cand_len(keys@, i as int) == cand);
                    }
                    return (i, cand, cand_cmd, cont);
                },
            }
        }
        proof {
            self.lemma_probe_len_char(keys@);
            assert(keys@.take(n as int) =~= keys@);
            assert(self.probe_len(keys@) == n);
            self.lemma_cand_len_char(keys@, n as int);
            assert(self.cand_len(keys@, n as int) == cand);
        }
        (n, cand, cand_cmd, cont)
    }

    /// Matches the sequence of keys to key bindings. Any matched keys will be
    /// removed from the queue. Keys will only be matched if there is no
    /// possibility for future keys to match a different key binding: an
    /// ambiguous tail stays in the queue untouched.
    ///
    /// # Arguments
    /// - `keys`: The queue of keys to match to key bindings. Resolved and
    ///   discarded keys are drained from its front.
    ///
    /// # Returns
    /// A vector containing all commands that were found, in order.
    pub fn try_match(&self, keys: &mut Vec<Key>) -> (commands: Vec<Command>)
        ensures
            commands@ == self.try_match_spec(old(keys)@).0,
            final(keys)@ == self.try_match_spec(old(keys)@).1,
    {
        let mut commands: Vec<Command> = Vec::new();
        while keys.len() > 0
            invariant
                self.try_match_spec(old(keys)@).0 == commands@ + self.try_match_spec(keys@).0,
                self.try_match_spec(old(keys)@).1 == self.try_match_spec(keys@).1,
            decreases keys@.len(),
        {
            let ghost q0 = keys@;
            let (m, cand, cand_cmd, cont) = self.probe(keys);
            proof {
                self.lemma_probe_len_char(q0);
                self.lemma_cand_len_char(q0, m as int);
                if m == q0.len() {
                    assert(q0.take(m as int) =~= q0);
                }
            }
            if m == keys.len() && cont {
                proof {
                    assert(q0.take(m as int) =~= q0);
                    assert(self.try_match_spec(q0).0 =~= Seq::<Command>::empty());
                    assert(commands@ + self.try_match_spec(q0).0 =~= commands@);
                }
                return commands;
            }
            match cand_cmd {
                Some(cmd) => {
                    let ghost commands0 = commands@;
                    commands.push(cmd);
                    drain_front(keys, cand);
                    proof {
                        assert(cmd == self.cmd_of(q0.take(cand as int))->0);
                        assert(commands@ =~= commands0 + seq![cmd]);
                    }
                    if matches!(cmd, Command::UpdateMode(_)) {
                        proof {
                            assert(self.try_match_spec(q0).0 == seq![cmd]);
                            assert(self.try_match_spec(q0).1 == q0.skip(cand as int));
                            assert(self.try_match_spec(old(keys)@).0 =~= commands@);
                        }
                        return commands;
                    }
                    proof {
                        let rest = self.try_match_spec(q0.skip(cand as int));
                        assert(self.try_match_spec(q0).0 == seq![cmd] + rest.0);
                        assert(self.try_match_spec(q0).1 == rest.1);
                        assert(commands0 + (seq![cmd] + rest.0) =~= commands@ + rest.0);
                    }
                },
                None => {
                    let d = if m < keys.len() {
                        m + 1
                    } else {
                        keys.len()
                    };
                    drain_front(keys, d);
                    proof {
                        assert(self.try_match_spec(q0) == self.try_match_spec(q0.skip(d as int)));
                    }
                },
            }
        }
        proof {
            assert(self.try_match_spec(keys@).0 =~= Seq::<Command>::empty());
            assert(commands@ + self.try_match_spec(keys@).0 =~= commands@);
        }
        commands
    }

    /// Matches the sequence of keys to key bindings. Any matched keys will be
    /// removed from the queue. All keys will either be matched to a
    /// keybinding or discarded. The only exception to this is if an
    /// `UpdateMode` command is matched: all keys after this command will
    /// remain.
    ///
    /// # Arguments
    /// - `keys`: The queue of keys to match to key bindings.
    ///
    /// # Returns
    /// A vector containing all commands that were found, in order.
    pub fn force_match(&self, keys: &mut Vec<Key>) -> (commands: Vec<Command>)
        ensures
            commands@ == self.force_match_spec(old(keys)@).0,
            final(keys)@ == self.force_match_spec(old(keys)@).1,
    {
        let mut commands: Vec<Command> = Vec::new();
        while keys.len() > 0
            invariant
                self.force_match_spec(old(keys)@).0 == commands@ + self.force_match_spec(keys@).0,
                self.force_match_spec(old(keys)@).1 == self.force_match_spec(keys@).1,
            decreases keys@.len(),
        {
            let ghost q0 = keys@;
            let (m, cand, cand_cmd, _cont) = self.probe(keys);
            proof {
                self.lemma_probe_len_char(q0);
                self.lemma_cand_len_char(q0, m as int);
                if m == q0.len() {
                    assert(q0.take(m as int) =~= q0);
                }
            }
            match cand_cmd {
                Some(cmd) => {
                    let ghost commands0 = commands@;
                    commands.push(cmd);
                    drain_front(keys, cand);
                    proof {
                        assert(cmd == self.cmd_of(q0.take(cand as int))->0);
                        assert(commands@ =~= commands0 + seq![cmd]);
                    }
                    if matches!(cmd, Command::UpdateMode(_)) {
                        proof {
                            assert(self.force_match_spec(q0).0 == seq![cmd]);
                            assert(self.force_match_spec(q0).1 == q0.skip(cand as int));
                            assert(self.force_match_spec(old(keys)@).0 =~= commands@);
                        }
                        return commands;
                    }
                    proof {
                        let rest = self.force_match_spec(q0.skip(cand as int));
                        assert(self.force_match_spec(q0).0 == seq![cmd] + rest.0);
                        assert(self.force_match_spec(q0).1 == rest.1);
                        assert(commands0 + (seq![cmd] + rest.0) =~= commands@ + rest.0);
                    }
                },
                None => {
                    let d = if m < keys.len() {
                        m + 1
                    } else {
                        keys.len()
                    };
                    drain_front(keys, d);
                    proof {
                        assert(self.force_match_spec(q0) == self.force_match_spec(q0.skip(d as int)));
                    }
                },
            }
        }
        proof {
            assert(self.force_match_spec(keys@).0 =~= Seq::<Command>::empty());
            assert(commands@ + self.force_match_spec(keys@).0 =~= commands@);
        }
        commands
    }
}

/// Removes the first `n` keys from the front of the queue.
fn drain_front(keys: &mut Vec<Key>, n: usize)
    requires
        n <= old(keys)@.len(),
    ensures
        final(keys)@ == old(keys)@.skip(n as int),
{
    let mut i: usize = 0;
    while i < n
        invariant
            i <= n <= old(keys)@.len(),
            keys@ == old(keys)@.skip(i as int),
        decreases n - i,
    {
        keys.remove(0);
        proof {
            assert(keys@ =~= old(keys)@.skip(i + 1));
        }
        i = i + 1;
    }
}


impl KeyBinds {
    /// A mode switch is terminal for a non-forcing pass: it can only be the
    /// last command emitted, and when it is, the pass consumed at least one
    /// key.
    pub proof fn lemma_try_mode_switch_terminal(self, q: Seq<Key>)
        ensures
            forall|i: int|
                0 <= i < self.try_match_spec(q).0.len() - 1 ==> !((
                #[trigger] self.try_match_spec(q).0[i]) is UpdateMode),
            self.try_match_spec(q).0.len() > 0 && self.try_match_spec(q).0.last() is UpdateMode
                ==> self.try_match_spec(q).1.len() < q.len(),
        decreases q.len(),
    {
        if q.len() > 0 {
            self.lemma_probe_len_char(q);
            let m = self.probe_len(q);
            self.lemma_cand_len_char(q, m);
            let c = self.cand_len(q, m);
            if m == q.len() && self.lookup(q)->0.sequence is Some {
            } else if c > 0 {
                let cmd = self.cmd_of(q.take(c))->0;
                if cmd is UpdateMode {
                } else {
                    self.lemma_try_mode_switch_terminal(q.skip(c));
                    let rest = self.try_match_spec(q.skip(c));
                    assert forall|i: int|
                        0 <= i < self.try_match_spec(q).0.len() - 1 implies !((
                    #[trigger] self.try_match_spec(q).0[i]) is UpdateMode) by {
                        if i > 0 {
                            assert(self.try_match_spec(q).0[i] == rest.0[i - 1]);
                        }
                    }
                    if rest.0.len() > 0 {
                        assert(self.try_match_spec(q).0.last() == rest.0.last());
                    }
                }
            } else {
                let d = if m + 1 <= q.len() {
                    m + 1
                } else {
                    q.len() as int
                };
                self.lemma_try_mode_switch_terminal(q.skip(d));
            }
        }
    }

    /// A mode switch is terminal for a forcing pass: it can only be the last
    /// command emitted, and when it is, the pass consumed at least one key.
    pub proof fn lemma_force_mode_switch_terminal(self, q: Seq<Key>)
        ensures
            forall|i: int|
                0 <= i < self.force_match_spec(q).0.len() - 1 ==> !((
                #[trigger] self.force_match_spec(q).0[i]) is UpdateMode),
            self.force_match_spec(q).0.len() > 0 && self.force_match_spec(q).0.last() is UpdateMode
                ==> self.force_match_spec(q).1.len() < q.len(),
        decreases q.len(),
    {
        if q.len() > 0 {
            self.lemma_probe_len_char(q);
            let m = self.probe_len(q);
            self.lemma_cand_len_char(q, m);
            let c = self.cand_len(q, m);
            if c > 0 {
                let cmd = self.cmd_of(q.take(c))->0;
                if cmd is UpdateMode {
                } else {
                    self.lemma_force_mode_switch_terminal(q.skip(c));
                    let rest = self.force_match_spec(q.skip(c));
                    assert forall|i: int|
                        0 <= i < self.force_match_spec(q).0.len() - 1 implies !((
                    #[trigger] self.force_match_spec(q).0[i]) is UpdateMode) by {
                        if i > 0 {
                            assert(self.force_match_spec(q).0[i] == rest.0[i - 1]);
                        }
                    }
                    if rest.0.len() > 0 {
                        assert(self.force_match_spec(q).0.last() == rest.0.last());
                    }
                }
            } else {
                let d = if m + 1 <= q.len() {
                    m + 1
                } else {
                    q.len() as int
                };
                self.lemma_force_mode_switch_terminal(q.skip(d));
            }
        }
    }
}

} // verus!
