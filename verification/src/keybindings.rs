//! The binding trie: a prefix tree keyed by [`Key`], where each node may end a
//! chord with a [`Command`] and may continue into a child trie for longer
//! chords sharing the prefix.

use vstd::prelude::*;

use crate::commands::Command;
use crate::keys::{parse_chord_spec, Key};

verus! {

/// A "node" in a key binding sequence. It can end with an app command. It can
/// also continue with more keys in the sequence.
#[derive(Debug, PartialEq)]
pub struct KeyBind {
    /// The command to use, if this is the end of a key sequence.
    pub command: Option<Command>,
    /// Other keys that are accepted in the continuation of this sequence.
    pub sequence: Option<Box<KeyBinds>>,
}

/// The bindings from a key to a command and / or a key sequence. The key
/// sequence must eventually end in a command. Entries are kept in first
/// insertion order; a key occurs at most once per node in any trie built
/// through [`KeyBinds::insert`].
#[derive(Debug, PartialEq)]
pub struct KeyBinds(pub Vec<(Key, KeyBind)>);

/// The first binding in `s` whose key is `k`.
pub open spec fn assoc_get(s: Seq<(Key, KeyBind)>, k: Key) -> Option<KeyBind>
    decreases s.len(),
{
    if s.len() == 0 {
        None
    } else if s[0].0 == k {
        Some(s[0].1)
    } else {
        assoc_get(s.drop_first(), k)
    }
}

impl KeyBind {
    /// What command the chord `keys` resolves to below this node: for the
    /// empty chord, the node's own command; otherwise the walk continues into
    /// the node's continuation.
    pub open spec fn cmd_below(self, keys: Seq<Key>) -> Option<Command>
        decreases keys.len(),
    {
        if keys.len() == 0 {
            self.command
        } else {
            match self.sequence {
                Some(sub) => sub.cmd_of(keys),
                None => None,
            }
        }
    }

    /// Well-formed node: it ends a chord or continues one, and any
    /// continuation is a non-empty well-formed trie.
    pub open spec fn wf(self) -> bool
        decreases self,
    {
        &&& (self.command is Some || self.sequence is Some)
        &&& match self.sequence {
            Some(sub) => sub.0@.len() > 0 && sub.wf(),
            None => true,
        }
    }
}

impl KeyBinds {
    /// The binding stored at key `k` in this node, if any.
    pub open spec fn get_spec(self, k: Key) -> Option<KeyBind> {
        assoc_get(self.0@, k)
    }

    /// The deepest node reached by walking `keys` one key at a time. `None`
    /// for the empty walk, as soon as a key has no matching child, and when a
    /// node without a continuation is reached while keys remain: a completed
    /// chord cannot be a strict prefix of a longer attempted chord.
    pub open spec fn lookup(self, keys: Seq<Key>) -> Option<KeyBind>
        decreases keys.len(),
    {
        if keys.len() == 0 {
            None
        } else {
            match self.get_spec(keys[0]) {
                None => None,
                Some(bind) => if keys.len() == 1 {
                    Some(bind)
                } else {
                    match bind.sequence {
                        Some(sub) => sub.lookup(keys.drop_first()),
                        None => None,
                    }
                },
            }
        }
    }

    /// The command bound to exactly the chord `keys`, if any.
    pub open spec fn cmd_of(self, keys: Seq<Key>) -> Option<Command> {
        match self.lookup(keys) {
            Some(bind) => bind.command,
            None => None,
        }
    }

    /// Well-formed trie: every node is well-formed.
    pub open spec fn wf(self) -> bool
        decreases self,
    {
        forall|i: int| 0 <= i < self.0@.len() ==> (#[trigger] self.0@[i].1).wf()
    }

    /// Creates an empty trie.
    pub fn new() -> (r: Self)
        ensures
            r.0@.len() == 0,
            r.wf(),
            forall|s: Seq<Key>| (#[trigger] r.lookup(s)) is None,
    {
        let r = KeyBinds(Vec::new());
        proof {
            assert forall|s: Seq<Key>| (#[trigger] r.lookup(s)) is None by {
                if s.len() > 0 {
                    assert(r.get_spec(s[0]) is None);
                }
            }
        }
        r
    }

    /// The binding stored at key `k`, by reference.
    fn get_ref(&self, k: &Key) -> (r: Option<&KeyBind>)
        ensures
            match r {
                Some(bind) => self.get_spec(*k) == Some(*bind),
                None => self.get_spec(*k) is None,
            },
    {
        let n = self.0.len();
        let mut i: usize = 0;
        while i < n
            invariant
                n == self.0@.len(),
                i <= n,
                forall|j: int| 0 <= j < i ==> (#[trigger] self.0@[j]).0 != *k,
            decreases n - i,
        {
            if self.0[i].0 == *k {
                proof {
                    lemma_assoc_get_first_hit(self.0@, *k, i as int);
                }
                return Some(&self.0[i].1);
            }
            i = i + 1;
        }
        proof {
            lemma_assoc_get_miss(self.0@, *k);
        }
        None
    }

    /// Returns the key bind associated with the keys, if any exists. The key
    /// bind will be found by following the keys provided recursively through
    /// the data structure.
    ///
    /// # Arguments
    /// - `keys`: The keys with which to find the sequence.
    ///
    /// # Returns
    /// A key bind, if any exists for the keys.
    pub fn get_key_bind(&self, keys: &[Key]) -> (r: Option<&KeyBind>)
        ensures
            match r {
                Some(bind) => self.lookup(keys@) == Some(*bind),
                None => self.lookup(keys@) is None,
            },
        decreases keys@.len(),
    {
        if keys.len() == 0 {
            return None;
        }
        match self.get_ref(&keys[0]) {
            None => None,
            Some(bind) => {
                if keys.len() == 1 {
                    Some(bind)
                } else {
                    match &bind.sequence {
                        Some(sub) => {
                            let rest = vstd::slice::slice_subrange(keys, 1, keys.len());
                            proof {
                                assert(rest@ =~= keys@.drop_first());
                            }
                            sub.get_key_bind(rest)
                        },
                        None => None,
                    }
                }
            },
        }
    }
}


impl KeyBind {
    /// Inserts a command at the chord `keys[from..]` below this node: sets
    /// this node's command when no keys remain, otherwise continues into the
    /// continuation trie, creating it if absent. A command already bound to
    /// the same chord is overwritten; every other chord keeps its binding.
    fn insert_at(&mut self, keys: &Vec<Key>, from: usize, command: Command)
        requires
            from <= keys@.len(),
        ensures
            final(self).cmd_below(keys@.skip(from as int)) == Some(command),
            forall|u: Seq<Key>|
                u != keys@.skip(from as int) ==> #[trigger] final(self).cmd_below(u) == old(self).cmd_below(u),
            old(self).wf() || (old(self).command is None && old(self).sequence is None)
                ==> final(self).wf(),
        decreases keys@.len() - from, 1int,
    {
        let ghost t = keys@.skip(from as int);
        if from == keys.len() {
            self.command = Some(command);
            proof {
                assert(t.len() == 0);
                assert forall|u: Seq<Key>| u != t implies #[trigger] final(self).cmd_below(u)
                    == old(self).cmd_below(u) by {
                    if u.len() == 0 {
                        assert(u =~= t);
                    }
                }
            }
        } else {
            match &mut self.sequence {
                Some(sub) => {
                    sub.insert_at(keys, from, command);
                },
                None => {
                    let mut kb = KeyBinds::new();
                    kb.insert_at(keys, from, command);
                    self.sequence = Some(Box::new(kb));
                },
            }
            proof {
                assert(t.len() > 0);
                assert forall|u: Seq<Key>| u != t implies #[trigger] final(self).cmd_below(u)
                    == old(self).cmd_below(u) by {
                }
            }
        }
    }

    /// Inserts a command or sequence at this point: binds the chord `keys`
    /// below this node — this node's own command when `keys` is empty.
    pub fn insert(&mut self, keys: &Vec<Key>, command: Command)
        ensures
            final(self).cmd_below(keys@) == Some(command),
            forall|u: Seq<Key>|
                u != keys@ ==> #[trigger] final(self).cmd_below(u) == old(self).cmd_below(u),
            old(self).wf() || (old(self).command is None && old(self).sequence is None)
                ==> final(self).wf(),
    {
        proof {
            assert(keys@.skip(0) =~= keys@);
        }
        self.insert_at(keys, 0, command)
    }
}

impl KeyBinds {
    /// The position of the first entry for key `k`, if one exists.
    fn find_key(&self, k: &Key) -> (r: Option<usize>)
        ensures
            match r {
                Some(j) => j < self.0@.len() && self.0@[j as int].0 == *k && (forall|jj: int|
                    0 <= jj < j ==> (#[trigger] self.0@[jj]).0 != *k),
                None => forall|jj: int|
                    0 <= jj < self.0@.len() ==> (#[trigger] self.0@[jj]).0 != *k,
            },
    {
        let n = self.0.len();
        let mut i: usize = 0;
        while i < n
            invariant
                n == self.0@.len(),
                i <= n,
                forall|jj: int| 0 <= jj < i ==> (#[trigger] self.0@[jj]).0 != *k,
            decreases n - i,
        {
            if self.0[i].0 == *k {
                return Some(i);
            }
            i = i + 1;
        }
        None
    }

    /// Inserts the keybinding for the chord `keys[from..]`, which must be
    /// non-empty. Exactly that chord is (re)bound to `command`; every other
    /// chord keeps its binding, and well-formedness is preserved.
    fn insert_at(&mut self, keys: &Vec<Key>, from: usize, command: Command)
        requires
            from < keys@.len(),
        ensures
            final(self).cmd_of(keys@.skip(from as int)) == Some(command),
            forall|s: Seq<Key>|
                s != keys@.skip(from as int) ==> #[trigger] final(self).cmd_of(s) == old(self).cmd_of(s),
            old(self).wf() ==> final(self).wf(),
            final(self).0@.len() > 0,
        decreases keys@.len() - from, 0int,
    {
        let ghost t = keys@.skip(from as int);
        let ghost old_list = self.0@;
        proof {
            assert(t[0] == keys@[from as int]);
            assert(t.drop_first() =~= keys@.skip(from + 1));
        }
        // Brings the queue's length into scope, so `from + 1` is known to
        // fit.
        let _total = keys.len();
        let k = keys[from];
        let found = self.find_key(&k);
        match found {
            Some(j) => {
                proof {
                    lemma_assoc_get_first_hit(self.0@, k, j as int);
                }
                let ghost old_bind = self.0@[j as int].1;
                let pair = &mut self.0[j];
                pair.1.insert_at(keys, from + 1, command);
                proof {
                    let b2 = final(self).0@[j as int].1;
                    assert(final(self).0@ =~= old_list.update(j as int, (k, b2)));
                    lemma_assoc_get_update(old_list, j as int, b2);
                    lemma_insert_lift(
                        *old(self),
                        *final(self),
                        old_bind,
                        b2,
                        k,
                        t,
                        command,
                    );
                }
            },
            None => {
                proof {
                    lemma_assoc_get_miss(self.0@, k);
                }
                let mut b = KeyBind { command: None, sequence: None };
                b.insert_at(keys, from + 1, command);
                self.0.push((k, b));
                proof {
                    let ghost empty_bind = KeyBind { command: None, sequence: None };
                    assert forall|u: Seq<Key>| u != t.drop_first() implies #[trigger] b.cmd_below(u)
                        == Option::<Command>::None by {
                        assert(b.cmd_below(u) == empty_bind.cmd_below(u));
                    }
                    lemma_assoc_get_push(old_list, (k, b));
                    lemma_insert_lift_push(*old(self), *final(self), b, k, t, command);
                }
            },
        }
    }

    /// Inserts the keybinding for the non-empty chord `keys`. Exactly that
    /// chord is (re)bound to `command` — a duplicate binding is overwritten,
    /// last write wins — and every other chord keeps its binding.
    pub fn insert(&mut self, keys: &Vec<Key>, command: Command)
        requires
            keys@.len() >= 1,
        ensures
            final(self).cmd_of(keys@) == Some(command),
            forall|s: Seq<Key>|
                s != keys@ ==> #[trigger] final(self).cmd_of(s) == old(self).cmd_of(s),
            old(self).wf() ==> final(self).wf(),
            final(self).0@.len() > 0,
    {
        proof {
            assert(keys@.skip(0) =~= keys@);
        }
        self.insert_at(keys, 0, command)
    }
}

/// One unfolding of `cmd_of` for a non-empty chord: the command comes from the
/// binding at the first key, resolved below it with the rest of the chord.
proof fn lemma_cmd_of_step(binds: KeyBinds, s: Seq<Key>)
    requires
        s.len() >= 1,
    ensures
        binds.cmd_of(s) == match binds.get_spec(s[0]) {
            Some(bind) => bind.cmd_below(s.drop_first()),
            None => None,
        },
{
    if s.len() == 1 {
        assert(s.drop_first().len() == 0);
    }
}

proof fn lemma_assoc_get_update_one(s: Seq<(Key, KeyBind)>, j: int, b2: KeyBind, k2: Key)
    requires
        0 <= j < s.len(),
        forall|jj: int| 0 <= jj < j ==> (#[trigger] s[jj]).0 != s[j].0,
    ensures
        assoc_get(s.update(j, (s[j].0, b2)), k2) == if k2 == s[j].0 {
            Some(b2)
        } else {
            assoc_get(s, k2)
        },
    decreases s.len(),
{
    let s2 = s.update(j, (s[j].0, b2));
    if j == 0 {
        assert(s2[0] == (s[0].0, b2));
        if k2 != s[0].0 {
            assert(s2.drop_first() =~= s.drop_first());
        }
    } else {
        assert forall|jj: int| 0 <= jj < j - 1 implies (#[trigger] s.drop_first()[jj]).0
            != s.drop_first()[j - 1].0 by {
            assert(s.drop_first()[jj] == s[jj + 1]);
            assert(s.drop_first()[j - 1] == s[j]);
        }
        assert(s.drop_first()[j - 1] == s[j]);
        lemma_assoc_get_update_one(s.drop_first(), j - 1, b2, k2);
        assert(s2[0] == s[0]);
        assert(s2.drop_first() =~= s.drop_first().update(j - 1, (s[j].0, b2)));
        assert(assoc_get(s2.drop_first(), k2) == assoc_get(
            s.drop_first().update(j - 1, (s[j].0, b2)),
            k2,
        ));
    }
}

proof fn lemma_assoc_get_update(s: Seq<(Key, KeyBind)>, j: int, b2: KeyBind)
    requires
        0 <= j < s.len(),
        forall|jj: int| 0 <= jj < j ==> (#[trigger] s[jj]).0 != s[j].0,
    ensures
        forall|k2: Key| #[trigger]
            assoc_get(s.update(j, (s[j].0, b2)), k2) == if k2 == s[j].0 {
                Some(b2)
            } else {
                assoc_get(s, k2)
            },
{
    assert forall|k2: Key| #[trigger]
        assoc_get(s.update(j, (s[j].0, b2)), k2) == if k2 == s[j].0 {
            Some(b2)
        } else {
            assoc_get(s, k2)
        } by {
        lemma_assoc_get_update_one(s, j, b2, k2);
    }
}

proof fn lemma_assoc_get_push_one(s: Seq<(Key, KeyBind)>, pair: (Key, KeyBind), k2: Key)
    requires
        assoc_get(s, pair.0) is None,
    ensures
        assoc_get(s.push(pair), k2) == if k2 == pair.0 {
            Some(pair.1)
        } else {
            assoc_get(s, k2)
        },
    decreases s.len(),
{
    if s.len() == 0 {
        assert(s.push(pair)[0] == pair);
        assert(s.push(pair).drop_first() =~= Seq::<(Key, KeyBind)>::empty());
        assert(assoc_get(s.push(pair).drop_first(), k2) is None);
        assert(assoc_get(s, k2) is None);
    } else {
        assert(assoc_get(s.drop_first(), pair.0) is None);
        lemma_assoc_get_push_one(s.drop_first(), pair, k2);
        assert(s.push(pair)[0] == s[0]);
        assert(s.push(pair).drop_first() =~= s.drop_first().push(pair));
        assert(assoc_get(s.push(pair).drop_first(), k2) == assoc_get(
            s.drop_first().push(pair),
            k2,
        ));
    }
}

proof fn lemma_assoc_get_push(s: Seq<(Key, KeyBind)>, pair: (Key, KeyBind))
    requires
        assoc_get(s, pair.0) is None,
    ensures
        forall|k2: Key| #[trigger]
            assoc_get(s.push(pair), k2) == if k2 == pair.0 {
                Some(pair.1)
            } else {
                assoc_get(s, k2)
            },
{
    assert forall|k2: Key| #[trigger]
        assoc_get(s.push(pair), k2) == if k2 == pair.0 {
            Some(pair.1)
        } else {
            assoc_get(s, k2)
        } by {
        lemma_assoc_get_push_one(s, pair, k2);
    }
}

/// Lifts the node-level effect of an insert at the first occurrence of key
/// `k` to the whole trie: the chord `t` is now bound to `command` and every
/// other chord is unchanged.
proof fn lemma_insert_lift(
    before: KeyBinds,
    after: KeyBinds,
    b1: KeyBind,
    b2: KeyBind,
    k: Key,
    t: Seq<Key>,
    command: Command,
)
    requires
        t.len() >= 1,
        t[0] == k,
        before.get_spec(k) == Some(b1),
        forall|k2: Key| #[trigger]
            after.get_spec(k2) == if k2 == k {
                Some(b2)
            } else {
                before.get_spec(k2)
            },
        b2.cmd_below(t.drop_first()) == Some(command),
        forall|u: Seq<Key>|
            u != t.drop_first() ==> #[trigger] b2.cmd_below(u) == b1.cmd_below(u),
    ensures
        after.cmd_of(t) == Some(command),
        forall|s: Seq<Key>| s != t ==> #[trigger] after.cmd_of(s) == before.cmd_of(s),
{
    lemma_cmd_of_step(after, t);
    assert forall|s: Seq<Key>| s != t implies #[trigger] after.cmd_of(s) == before.cmd_of(s) by {
        if s.len() >= 1 {
            lemma_cmd_of_step(after, s);
            lemma_cmd_of_step(before, s);
            if s[0] == k {
                if s.drop_first() == t.drop_first() {
                    assert forall|i: int| 0 <= i < s.len() implies s[i] == t[i] by {
                        if i > 0 {
                            assert(s[i] == s.drop_first()[i - 1]);
                            assert(t[i] == t.drop_first()[i - 1]);
                        }
                    }
                    assert(s =~= t);
                }
            }
        }
    }
}

/// Lifts the effect of appending a fresh entry for key `k` (absent before) to
/// the whole trie: the chord `t` is now bound to `command` and every other
/// chord is unchanged.
proof fn lemma_insert_lift_push(
    before: KeyBinds,
    after: KeyBinds,
    b: KeyBind,
    k: Key,
    t: Seq<Key>,
    command: Command,
)
    requires
        t.len() >= 1,
        t[0] == k,
        before.get_spec(k) is None,
        forall|k2: Key| #[trigger]
            after.get_spec(k2) == if k2 == k {
                Some(b)
            } else {
                before.get_spec(k2)
            },
        b.cmd_below(t.drop_first()) == Some(command),
        forall|u: Seq<Key>| u != t.drop_first() ==> #[trigger] b.cmd_below(u) is None,
    ensures
        after.cmd_of(t) == Some(command),
        forall|s: Seq<Key>| s != t ==> #[trigger] after.cmd_of(s) == before.cmd_of(s),
{
    lemma_cmd_of_step(after, t);
    assert forall|s: Seq<Key>| s != t implies #[trigger] after.cmd_of(s) == before.cmd_of(s) by {
        if s.len() >= 1 {
            lemma_cmd_of_step(after, s);
            lemma_cmd_of_step(before, s);
            if s[0] == k {
                if s.drop_first() == t.drop_first() {
                    assert forall|i: int| 0 <= i < s.len() implies s[i] == t[i] by {
                        if i > 0 {
                            assert(s[i] == s.drop_first()[i - 1]);
                            assert(t[i] == t.drop_first()[i - 1]);
                        }
                    }
                    assert(s =~= t);
                }
            }
        }
    }
}

proof fn lemma_assoc_get_first_hit(s: Seq<(Key, KeyBind)>, k: Key, i: int)
    requires
        0 <= i < s.len(),
        s[i].0 == k,
        forall|j: int| 0 <= j < i ==> (#[trigger] s[j]).0 != k,
    ensures
        assoc_get(s, k) == Some(s[i].1),
    decreases s.len(),
{
    if i > 0 {
        assert(s.drop_first()[i - 1] == s[i]);
        assert forall|j: int| 0 <= j < i - 1 implies (#[trigger] s.drop_first()[j]).0 != k by {
            assert(s.drop_first()[j] == s[j + 1]);
        }
        lemma_assoc_get_first_hit(s.drop_first(), k, i - 1);
    }
}

proof fn lemma_assoc_get_miss(s: Seq<(Key, KeyBind)>, k: Key)
    requires
        forall|j: int| 0 <= j < s.len() ==> (#[trigger] s[j]).0 != k,
    ensures
        assoc_get(s, k) is None,
    decreases s.len(),
{
    if s.len() > 0 {
        assert forall|j: int| 0 <= j < s.len() - 1 implies (#[trigger] s.drop_first()[j]).0 != k by {
            assert(s.drop_first()[j] == s[j + 1]);
        }
        lemma_assoc_get_miss(s.drop_first(), k);
    }
}


/// A configuration error found while building a keymap.
#[derive(Debug, Clone, Copy, PartialEq, Eq, Structural)]
pub enum KeymapError {
    /// The chord string of the entry at this position has a malformed token:
    /// a part that is neither a modifier name nor a key-code token.
    InvalidChord(usize),
}

/// The command that a declarative entry list binds to the chord `s`: the last
/// entry whose chord string spells `s` wins; `None` when no entry does.
pub open spec fn entries_cmd(entries: Seq<(&str, Command)>, s: Seq<Key>) -> Option<Command>
    decreases entries.len(),
{
    if entries.len() == 0 {
        None
    } else if parse_chord_spec(entries.last().0@) == Some(s) {
        Some(entries.last().1)
    } else {
        entries_cmd(entries.drop_last(), s)
    }
}

impl KeyBinds {
    /// Builds a trie from a declarative list of (chord string, command)
    /// pairs. Every chord string must parse; the first malformed one is
    /// reported by position, and binding the same chord twice keeps the later
    /// command.
    pub fn from_entries(entries: &[(&str, Command)]) -> (r: Result<KeyBinds, KeymapError>)
        ensures
            match r {
                Ok(binds) => {
                    &&& binds.wf()
                    &&& forall|i: int|
                        0 <= i < entries@.len() ==> parse_chord_spec(
                            (#[trigger] entries@[i]).0@,
                        ) is Some
                    &&& forall|s: Seq<Key>| #[trigger] binds.cmd_of(s) == entries_cmd(entries@, s)
                },
                Err(KeymapError::InvalidChord(i)) => {
                    &&& i < entries@.len()
                    &&& parse_chord_spec(entries@[i as int].0@) is None
                    &&& forall|j: int|
                        0 <= j < i ==> parse_chord_spec((#[trigger] entries@[j]).0@) is Some
                },
            },
    {
        let mut binds = KeyBinds::new();
        let n = entries.len();
        let mut i: usize = 0;
        while i < n
            invariant
                n == entries@.len(),
                i <= n,
                binds.wf(),
                forall|j: int| 0 <= j < i ==> parse_chord_spec((#[trigger] entries@[j]).0@) is Some,
                forall|s: Seq<Key>| #[trigger] binds.cmd_of(s) == entries_cmd(entries@.take(i as int), s),
            decreases n - i,
        {
            let entry = entries[i];
            match crate::keys::Key::parse_chord(entry.0) {
                Some(keys) => {
                    let ghost binds0 = binds;
                    binds.insert(&keys, entry.1);
                    proof {
                        let prefix = entries@.take(i + 1);
                        assert(prefix.last() == entries@[i as int]);
                        assert(prefix.drop_last() =~= entries@.take(i as int));
                        assert forall|s: Seq<Key>| #[trigger]
                            binds.cmd_of(s) == entries_cmd(prefix, s) by {
                            if parse_chord_spec(entries@[i as int].0@) == Some(s) {
                                assert(s == keys@);
                            } else {
                                assert(s != keys@);
                                assert(binds.cmd_of(s) == binds0.cmd_of(s));
                            }
                        }
                    }
                },
                None => {
                    return Err(KeymapError::InvalidChord(i));
                },
            }
            i = i + 1;
        }
        proof {
            assert(entries@.take(n as int) =~= entries@);
        }
        Ok(binds)
    }
}


proof fn lemma_assoc_get_wf(s: Seq<(Key, KeyBind)>, k: Key)
    requires
        forall|i: int| 0 <= i < s.len() ==> (#[trigger] s[i].1).wf(),
    ensures
        match assoc_get(s, k) {
            Some(bind) => bind.wf(),
            None => true,
        },
    decreases s.len(),
{
    if s.len() > 0 && s[0].0 != k {
        assert forall|i: int| 0 <= i < s.drop_first().len() implies (#[trigger] s.drop_first()[i].1).wf() by {
            assert(s.drop_first()[i] == s[i + 1]);
        }
        lemma_assoc_get_wf(s.drop_first(), k);
    }
}

impl KeyBinds {
    /// In a well-formed trie, every node the walk reaches is well-formed.
    pub proof fn lemma_lookup_wf(self, q: Seq<Key>)
        requires
            self.wf(),
            self.lookup(q) is Some,
        ensures
            self.lookup(q)->0.wf(),
        decreases q.len(),
    {
        lemma_assoc_get_wf(self.0@, q[0]);
        let bind = self.get_spec(q[0])->0;
        if q.len() > 1 {
            let sub = *bind.sequence->0;
            sub.lemma_lookup_wf(q.drop_first());
        }
    }

    /// Walking past a matched chord continues inside that node's
    /// continuation trie: the walk over `q + e` is the walk over `q`
    /// followed, when the reached node continues, by the walk over `e`.
    pub proof fn lemma_lookup_extend(self, q: Seq<Key>, e: Seq<Key>)
        requires
            q.len() >= 1,
            e.len() >= 1,
        ensures
            self.lookup(q + e) == match self.lookup(q) {
                Some(bind) => match bind.sequence {
                    Some(sub) => sub.lookup(e),
                    None => None,
                },
                None => None,
            },
        decreases q.len(),
    {
        assert((q + e)[0] == q[0]);
        match self.get_spec(q[0]) {
            None => {},
            Some(bind) => {
                match bind.sequence {
                    Some(sub) => {
                        if q.len() == 1 {
                            assert((q + e).drop_first() =~= e);
                        } else {
                            assert((q + e).drop_first() =~= q.drop_first() + e);
                            sub.lemma_lookup_extend(q.drop_first(), e);
                        }
                    },
                    None => {
                        assert((q + e).len() > 1);
                    },
                }
            },
        }
    }

    /// The documented trie invariant: in a well-formed, non-empty trie some
    /// chord is bound — every key sequence eventually ends in a command.
    pub proof fn lemma_wf_has_chord(self)
        requires
            self.wf(),
            self.0@.len() > 0,
        ensures
            exists|s: Seq<Key>| s.len() >= 1 && (#[trigger] self.cmd_of(s)) is Some,
        decreases self,
    {
        let k0 = self.0@[0].0;
        let b0 = self.0@[0].1;
        assert(self.get_spec(k0) == Some(b0));
        assert(b0.wf());
        if b0.command is Some {
            let s = seq![k0];
            assert(self.lookup(s) == Some(b0));
            assert(self.cmd_of(s) is Some);
        } else {
            let sub = *b0.sequence->0;
            sub.lemma_wf_has_chord();
            let s2 = choose|s2: Seq<Key>| s2.len() >= 1 && (#[trigger] sub.cmd_of(s2)) is Some;
            let s = seq![k0] + s2;
            assert(s[0] == k0);
            assert(s.drop_first() =~= s2);
            assert(self.cmd_of(s) is Some);
        }
    }

    /// A matched node can continue exactly when some strictly longer chord
    /// through it is bound: this ties the trie's shape, which the matcher's
    /// deferral decisions read, to the bound-chord map alone.
    pub proof fn lemma_continuation_iff_longer_chord(self, q: Seq<Key>)
        requires
            self.wf(),
            q.len() >= 1,
            self.lookup(q) is Some,
        ensures
            self.lookup(q)->0.sequence is Some <==> exists|e: Seq<Key>|
                e.len() >= 1 && (#[trigger] self.cmd_of(q + e)) is Some,
    {
        let bind = self.lookup(q)->0;
        if bind.sequence is Some {
            let sub = *bind.sequence->0;
            self.lemma_lookup_wf(q);
            sub.lemma_wf_has_chord();
            let e = choose|e: Seq<Key>| e.len() >= 1 && (#[trigger] sub.cmd_of(e)) is Some;
            self.lemma_lookup_extend(q, e);
            assert(self.cmd_of(q + e) is Some);
        } else {
            assert forall|e: Seq<Key>| e.len() >= 1 implies !((#[trigger] self.cmd_of(q + e)) is Some) by {
                self.lemma_lookup_extend(q, e);
            }
        }
    }
}

} // verus!
