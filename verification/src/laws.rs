//! Laws of the resolution engine, stated once over the specification
//! functions that the matchers' and input loop's contracts use, and proved
//! for every keymap and every queue.

use vstd::prelude::*;

use crate::commands::{Command, Mode};
use crate::input::Keymaps;
use crate::keybindings::KeyBinds;
use crate::keys::Key;

verus! {

/// A single-key chord bound to a command resolves to exactly that command
/// once the idle timeout forces the match: feeding the key alone (a
/// non-forcing resolution) and then waiting past the timeout (a forcing
/// resolution on what the first pass left) emits exactly that command, in
/// whatever mode it leaves the loop, and empties the queue.
pub proof fn lemma_single_key_times_out(maps: Keymaps, mode: Mode, k: Key, c: Command)
    requires
        maps.for_mode(mode).cmd_of(seq![k]) == Some(c),
    ensures
        ({
            let r1 = maps.resolve_spec(mode, seq![k], false);
            let r2 = maps.resolve_spec(r1.2, r1.1, true);
            r1.0 + r2.0 == seq![c] && r2.1.len() == 0
        }),
{
    let q = seq![k];
    let binds = maps.for_mode(mode);
    assert(q.take(1) =~= q);
    assert(q.skip(1) =~= Seq::<Key>::empty());
    binds.lemma_probe_len_char(q);
    assert(binds.lookup(q) is Some);
    assert(binds.probe_len(q) == 1);
    binds.lemma_cand_len_char(q, 1);
    assert(binds.cand_len(q, 1) == 1);
    let bind = binds.lookup(q)->0;
    let r1 = maps.resolve_spec(mode, q, false);
    if bind.sequence is Some {
        // The non-forcing pass defers: the queue still holds the key.
        assert(binds.try_match_spec(q) == (Seq::<Command>::empty(), q));
        assert(r1 == (Seq::<Command>::empty(), q, mode));
        let binds2 = maps.for_mode(r1.2);
        assert(binds2 == binds);
        // The forcing pass commits the candidate.
        lemma_force_single(maps, mode, q, c);
        let r2 = maps.resolve_spec(mode, q, true);
        assert(r1.0 + r2.0 =~= seq![c]);
    } else {
        // The non-forcing pass already resolves the chord.
        lemma_resolve_single_step(maps, mode, q, c, false);
        let r2 = maps.resolve_spec(r1.2, r1.1, true);
        assert(r1.1.len() == 0);
        lemma_resolve_empty(maps, r1.2, true);
        assert(r1.0 + r2.0 =~= seq![c]);
    }
}

/// A forcing resolution of a queue holding exactly one bound key emits that
/// key's command and empties the queue.
proof fn lemma_force_single(maps: Keymaps, mode: Mode, q: Seq<Key>, c: Command)
    requires
        q.len() == 1,
        maps.for_mode(mode).cmd_of(q) == Some(c),
    ensures
        maps.resolve_spec(mode, q, true).0 == seq![c],
        maps.resolve_spec(mode, q, true).1.len() == 0,
{
    lemma_resolve_single_step(maps, mode, q, c, true);
}

/// A resolution pass over a queue that is exactly one bound chord — matched
/// to its full length with no longer possibility pending in that pass —
/// emits that chord's command and empties the queue.
proof fn lemma_resolve_single_step(maps: Keymaps, mode: Mode, q: Seq<Key>, c: Command, forcing: bool)
    requires
        q.len() >= 1,
        maps.for_mode(mode).cmd_of(q) == Some(c),
        maps.for_mode(mode).probe_len(q) == q.len(),
        !forcing ==> maps.for_mode(mode).lookup(q)->0.sequence is None,
    ensures
        maps.resolve_spec(mode, q, forcing).0 == seq![c],
        maps.resolve_spec(mode, q, forcing).1.len() == 0,
{
    let binds = maps.for_mode(mode);
    let n = q.len() as int;
    lemma_match_exact(binds, q, c, forcing);
    let r = if forcing {
        binds.force_match_spec(q)
    } else {
        binds.try_match_spec(q)
    };
    assert(r.0 == seq![c]);
    assert(r.1.len() == 0);
    if c is UpdateMode {
        assert(r.0.last() == c);
        let m2 = c->UpdateMode_0;
        lemma_resolve_empty(maps, m2, forcing);
        assert(r.1 =~= Seq::<Key>::empty());
        if r.1.len() < q.len() {
            let rec = maps.resolve_spec(m2, r.1, forcing);
            assert(rec.0.len() == 0);
            assert(maps.resolve_spec(mode, q, forcing).0 == r.0 + rec.0);
            assert(r.0 + rec.0 =~= seq![c]);
        }
    } else {
        assert(r.0.last() == c);
        assert(maps.resolve_spec(mode, q, forcing) == (r.0, r.1, mode));
    }
}

/// Resolving an already-empty queue, forcing or not, yields no commands,
/// leaves the queue empty, and keeps the mode.
pub proof fn lemma_resolve_empty(maps: Keymaps, mode: Mode, forcing: bool)
    ensures
        maps.resolve_spec(mode, Seq::<Key>::empty(), forcing) == (
            Seq::<Command>::empty(),
            Seq::<Key>::empty(),
            mode,
        ),
{
}

/// Resolving an already-empty queue with either matcher variant yields no
/// commands and leaves the queue empty.
pub proof fn lemma_empty_queue_idempotent(binds: KeyBinds)
    ensures
        binds.try_match_spec(Seq::<Key>::empty()) == (Seq::<Command>::empty(), Seq::<Key>::empty()),
        binds.force_match_spec(Seq::<Key>::empty()) == (
            Seq::<Command>::empty(),
            Seq::<Key>::empty(),
        ),
{
}

/// A pass over a queue that is exactly one bound chord — probed to its full
/// length, with no longer chord pending when the pass is non-forcing —
/// emits that chord's command and consumes the whole queue.
proof fn lemma_match_exact(binds: KeyBinds, q: Seq<Key>, c: Command, forcing: bool)
    requires
        q.len() >= 1,
        binds.cmd_of(q) == Some(c),
        binds.probe_len(q) == q.len(),
        !forcing ==> binds.lookup(q)->0.sequence is None,
    ensures
        forcing ==> binds.force_match_spec(q).0 == seq![c] && binds.force_match_spec(q).1.len()
            == 0,
        !forcing ==> binds.try_match_spec(q).0 == seq![c] && binds.try_match_spec(q).1.len() == 0,
{
    let n = q.len() as int;
    assert(q.take(n) =~= q);
    assert(q.skip(n) =~= Seq::<Key>::empty());
    binds.lemma_cand_len_char(q, n);
    assert(binds.cand_len(q, n) == n);
    if forcing {
        let rest = binds.force_match_spec(q.skip(n));
        assert(rest == (Seq::<Command>::empty(), q.skip(n)));
        if c is UpdateMode {
            assert(binds.force_match_spec(q) == (seq![c], q.skip(n)));
        } else {
            assert(binds.force_match_spec(q) == (seq![c] + rest.0, rest.1));
            assert(seq![c] + rest.0 =~= seq![c]);
        }
    } else {
        let rest = binds.try_match_spec(q.skip(n));
        assert(rest == (Seq::<Command>::empty(), q.skip(n)));
        if c is UpdateMode {
            assert(binds.try_match_spec(q) == (seq![c], q.skip(n)));
        } else {
            assert(binds.try_match_spec(q) == (seq![c] + rest.0, rest.1));
            assert(seq![c] + rest.0 =~= seq![c]);
        }
    }
}

/// A two-key chord resolves only when complete: feeding the first key alone
/// yields no command and leaves it queued; feeding the second then yields
/// exactly the bound command and empties the queue.
pub proof fn lemma_two_key_chord(binds: KeyBinds, k1: Key, k2: Key, c: Command)
    requires
        binds.cmd_of(seq![k1, k2]) == Some(c),
        binds.lookup(seq![k1, k2])->0.sequence is None,
    ensures
        binds.try_match_spec(seq![k1]) == (Seq::<Command>::empty(), seq![k1]),
        binds.try_match_spec(seq![k1, k2]).0 == seq![c],
        binds.try_match_spec(seq![k1, k2]).1.len() == 0,
{
    let q1 = seq![k1];
    let q2 = seq![k1, k2];
    lemma_first_key_defers(binds, k1, k2);
    // Feeding both keys: the probe reaches the end with no continuation.
    assert(q2.take(2) =~= q2);
    assert(q2.skip(2) =~= Seq::<Key>::empty());
    binds.lemma_probe_len_char(q2);
    assert(binds.probe_len(q2) == 2);
    lemma_match_exact(binds, q2, c, false);
}

/// When a longer chord continues past a key, feeding that key alone yields
/// no command and leaves it in the queue.
proof fn lemma_first_key_defers(binds: KeyBinds, k1: Key, k2: Key)
    requires
        binds.lookup(seq![k1, k2]) is Some,
    ensures
        binds.try_match_spec(seq![k1]) == (Seq::<Command>::empty(), seq![k1]),
{
    let q1 = seq![k1];
    let q2 = seq![k1, k2];
    // The walk over both keys goes through the continuation under `k1`.
    assert(binds.get_spec(q2[0]) is Some);
    let b1 = binds.get_spec(k1)->0;
    assert(b1.sequence is Some);
    assert(binds.lookup(q1) == Some(b1));
    assert(q1.take(1) =~= q1);
    binds.lemma_probe_len_char(q1);
    assert(binds.probe_len(q1) == 1);
    assert(binds.try_match_spec(q1) == (Seq::<Command>::empty(), q1));
}

/// Prefix ambiguity resolves by timing: with `k1` bound to `c1` and
/// `k1 k2` bound to `c2`, feeding `k1` and waiting past the timeout yields
/// `c1`, while feeding `k1` then `k2` within the timeout yields `c2`; both
/// leave the queue empty.
pub proof fn lemma_ambiguous_prefix(maps: Keymaps, mode: Mode, k1: Key, k2: Key, c1: Command, c2: Command)
    requires
        maps.for_mode(mode).cmd_of(seq![k1]) == Some(c1),
        maps.for_mode(mode).cmd_of(seq![k1, k2]) == Some(c2),
        maps.for_mode(mode).lookup(seq![k1, k2])->0.sequence is None,
    ensures
        ({
            let r1 = maps.resolve_spec(mode, seq![k1], false);
            let r2 = maps.resolve_spec(r1.2, r1.1, true);
            r1.0 + r2.0 == seq![c1] && r2.1.len() == 0
        }),
        maps.resolve_spec(mode, seq![k1, k2], false).0 == seq![c2],
        maps.resolve_spec(mode, seq![k1, k2], false).1.len() == 0,
{
    let binds = maps.for_mode(mode);
    let q1 = seq![k1];
    let q2 = seq![k1, k2];
    lemma_single_key_times_out(maps, mode, k1, c1);
    // Feeding both keys within the timeout: the full chord wins.
    lemma_two_key_chord(binds, k1, k2, c2);
    assert(q2.take(2) =~= q2);
    binds.lemma_probe_len_char(q2);
    assert(binds.probe_len(q2) == 2);
    lemma_resolve_single_step(maps, mode, q2, c2, false);
}

/// A key with no matching binding at all is discarded: no command is
/// emitted and the queue ends empty, under either matcher variant.
pub proof fn lemma_unbound_key_discarded(binds: KeyBinds, k: Key)
    requires
        binds.lookup(seq![k]) is None,
    ensures
        binds.try_match_spec(seq![k]) == (Seq::<Command>::empty(), Seq::<Key>::empty()),
        binds.force_match_spec(seq![k]) == (Seq::<Command>::empty(), Seq::<Key>::empty()),
{
    let q = seq![k];
    assert(q.take(1) =~= q);
    binds.lemma_probe_len_char(q);
    assert(binds.probe_len(q) == 0);
    binds.lemma_cand_len_char(q, 0);
    assert(binds.cand_len(q, 0) == 0);
    assert(q.skip(1) =~= Seq::<Key>::empty());
    assert(binds.try_match_spec(q.skip(1)) == (Seq::<Command>::empty(), q.skip(1)));
    assert(binds.try_match_spec(q) == binds.try_match_spec(q.skip(1)));
    assert(binds.force_match_spec(q.skip(1)) == (Seq::<Command>::empty(), q.skip(1)));
    assert(binds.force_match_spec(q) == binds.force_match_spec(q.skip(1)));
}

/// A forcing pass that emits no mode switch always leaves the queue empty:
/// every key is either matched or discarded.
pub proof fn lemma_force_match_drains(binds: KeyBinds, q: Seq<Key>)
    requires
        forall|i: int|
            0 <= i < binds.force_match_spec(q).0.len() ==> !((
            #[trigger] binds.force_match_spec(q).0[i]) is UpdateMode),
    ensures
        binds.force_match_spec(q).1.len() == 0,
    decreases q.len(),
{
    if q.len() > 0 {
        binds.lemma_probe_len_char(q);
        let m = binds.probe_len(q);
        binds.lemma_cand_len_char(q, m);
        let c = binds.cand_len(q, m);
        if c > 0 {
            let cmd = binds.cmd_of(q.take(c))->0;
            let rest = binds.force_match_spec(q.skip(c));
            assert(cmd == binds.force_match_spec(q).0[0]);
            assert(!(cmd is UpdateMode));
            assert forall|i: int|
                0 <= i < rest.0.len() implies !((#[trigger] rest.0[i]) is UpdateMode) by {
                assert(rest.0[i] == binds.force_match_spec(q).0[i + 1]);
            }
            lemma_force_match_drains(binds, q.skip(c));
        } else {
            let d = if m + 1 <= q.len() {
                m + 1
            } else {
                q.len() as int
            };
            lemma_force_match_drains(binds, q.skip(d));
        }
    }
}


/// A mode switch halts a resolution pass and the trailing keys are resolved
/// separately, against the new mode's trie: when a pass ends in a mode
/// switch, the whole resolution is that pass followed by a fresh resolution
/// of the remaining queue under the new mode.
pub proof fn lemma_mode_switch_resumes_under_new_mode(
    maps: Keymaps,
    mode: Mode,
    q: Seq<Key>,
    forcing: bool,
)
    requires
        ({
            let r = if forcing {
                maps.for_mode(mode).force_match_spec(q)
            } else {
                maps.for_mode(mode).try_match_spec(q)
            };
            r.0.len() > 0 && r.0.last() is UpdateMode
        }),
    ensures
        ({
            let r = if forcing {
                maps.for_mode(mode).force_match_spec(q)
            } else {
                maps.for_mode(mode).try_match_spec(q)
            };
            let m2 = r.0.last()->UpdateMode_0;
            let rec = maps.resolve_spec(m2, r.1, forcing);
            maps.resolve_spec(mode, q, forcing) == (r.0 + rec.0, rec.1, rec.2)
        }),
{
    if forcing {
        maps.for_mode(mode).lemma_force_mode_switch_terminal(q);
    } else {
        maps.for_mode(mode).lemma_try_mode_switch_terminal(q);
    }
}

} // verus!
