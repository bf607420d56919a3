//! The normalized key value type — a logical key code plus a modifier set —
//! and the parser that reads a key or a whole chord from its human-readable
//! spelling (`"Control+a"`, `"Space"`, `"g g"`).

use vstd::prelude::*;

verus! {

/// Bit for the shift modifier.
pub const MOD_SHIFT: u8 = 1;
/// Bit for the control modifier.
pub const MOD_CONTROL: u8 = 2;
/// Bit for the alt modifier.
pub const MOD_ALT: u8 = 4;
/// Bit for the super modifier.
pub const MOD_SUPER: u8 = 8;
/// Bit for the hyper modifier.
pub const MOD_HYPER: u8 = 16;
/// Bit for the meta modifier.
pub const MOD_META: u8 = 32;

/// The set of modifiers held together with a key, as a bit set made of the
/// `MOD_` constants.
#[derive(Debug, Clone, Copy, PartialEq, Eq, Structural)]
pub struct KeyModifiers {
    pub bits: u8,
}

impl KeyModifiers {
    /// The empty modifier set.
    pub fn empty() -> (r: Self)
        ensures
            r.bits == 0,
    {
        KeyModifiers { bits: 0 }
    }
}

/// The code of a key, with named variants for the special keys that a chord
/// string may name and `Char` for printable characters. Keys read from a live
/// event that fall outside this vocabulary normalize to `F` (function keys) or
/// `Unidentified`; an `Unidentified` key can never be bound, so collapsing the
/// remaining codes onto it loses no binding behavior.
#[derive(Debug, Clone, Copy, PartialEq, Eq, Structural)]
pub enum KeyCode {
    Backspace,
    Delete,
    Enter,
    Left,
    Right,
    Up,
    Down,
    Home,
    End,
    PageUp,
    PageDown,
    Tab,
    BackTab,
    Insert,
    Null,
    Esc,
    CapsLock,
    ScrollLock,
    NumLock,
    PrintScreen,
    Pause,
    Menu,
    KeypadBegin,
    F(u8),
    Char(char),
    Unidentified,
}

/// A single normalized key in a key binding sequence: a code plus a modifier
/// set. Equality is structural over the two fields.
#[derive(Debug, Clone, Copy, PartialEq, Eq, Structural)]
pub struct Key {
    /// The code of the key.
    pub code: KeyCode,
    /// The modifiers for the key.
    pub modifiers: KeyModifiers,
}

/// Index of the first occurrence of `c` in `s`, or `-1` if `c` does not occur.
pub open spec fn find_char(s: Seq<char>, c: char) -> int
    decreases s.len(),
{
    if s.len() == 0 {
        -1
    } else if s[0] == c {
        0
    } else if find_char(s.drop_first(), c) >= 0 {
        find_char(s.drop_first(), c) + 1
    } else {
        -1
    }
}

/// The key code named by a single chord-string token: one of the fixed special
/// names, or a single printable character.
pub open spec fn code_of_spec(s: Seq<char>) -> Option<KeyCode> {
    if s == "Backspace"@ {
        Some(KeyCode::Backspace)
    } else if s == "Delete"@ {
        Some(KeyCode::Delete)
    } else if s == "Enter"@ {
        Some(KeyCode::Enter)
    } else if s == "Left"@ {
        Some(KeyCode::Left)
    } else if s == "Right"@ {
        Some(KeyCode::Right)
    } else if s == "Up"@ {
        Some(KeyCode::Up)
    } else if s == "Down"@ {
        Some(KeyCode::Down)
    } else if s == "Home"@ {
        Some(KeyCode::Home)
    } else if s == "End"@ {
        Some(KeyCode::End)
    } else if s == "PageUp"@ {
        Some(KeyCode::PageUp)
    } else if s == "PageDown"@ {
        Some(KeyCode::PageDown)
    } else if s == "Tab"@ {
        Some(KeyCode::Tab)
    } else if s == "BackTab"@ {
        Some(KeyCode::BackTab)
    } else if s == "Insert"@ {
        Some(KeyCode::Insert)
    } else if s == "Null"@ {
        Some(KeyCode::Null)
    } else if s == "Escape"@ {
        Some(KeyCode::Esc)
    } else if s == "CapsLock"@ {
        Some(KeyCode::CapsLock)
    } else if s == "ScrollLock"@ {
        Some(KeyCode::ScrollLock)
    } else if s == "NumLock"@ {
        Some(KeyCode::NumLock)
    } else if s == "PrintScreen"@ {
        Some(KeyCode::PrintScreen)
    } else if s == "Pause"@ {
        Some(KeyCode::Pause)
    } else if s == "Menu"@ {
        Some(KeyCode::Menu)
    } else if s == "Begin"@ {
        Some(KeyCode::KeypadBegin)
    } else if s == "Space"@ {
        Some(KeyCode::Char(' '))
    } else if s.len() == 1 {
        Some(KeyCode::Char(s[0]))
    } else {
        None
    }
}

/// The modifier bit named by a single chord-string token, if it is one of the
/// fixed modifier names.
pub open spec fn mod_bit_spec(s: Seq<char>) -> Option<u8> {
    if s == "Shift"@ {
        Some(MOD_SHIFT)
    } else if s == "Control"@ {
        Some(MOD_CONTROL)
    } else if s == "Alt"@ {
        Some(MOD_ALT)
    } else if s == "Super"@ {
        Some(MOD_SUPER)
    } else if s == "Hyper"@ {
        Some(MOD_HYPER)
    } else if s == "Meta"@ {
        Some(MOD_META)
    } else {
        None
    }
}

/// The key spelled by a chord-string token list `[Modifier+]*KeyToken`: every
/// `+`-separated part but the last must be a modifier name and the last part
/// must name a key code. `None` when any part is not recognized.
pub open spec fn parse_key_spec(s: Seq<char>) -> Option<Key>
    decreases s.len(),
    via parse_key_spec_decreases
{
    let i = find_char(s, '+');
    if i < 0 {
        match code_of_spec(s) {
            Some(code) => Some(Key { code, modifiers: KeyModifiers { bits: 0 } }),
            None => None,
        }
    } else {
        match mod_bit_spec(s.take(i)) {
            Some(bit) => match parse_key_spec(s.skip(i + 1)) {
                Some(key) => Some(
                    Key {
                        code: key.code,
                        modifiers: KeyModifiers { bits: key.modifiers.bits | bit },
                    },
                ),
                None => None,
            },
            None => None,
        }
    }
}

/// The key sequence spelled by a space-separated chord string. `None` when any
/// token fails to parse; a successful parse always yields at least one key.
pub open spec fn parse_chord_spec(s: Seq<char>) -> Option<Seq<Key>>
    decreases s.len(),
    via parse_chord_spec_decreases
{
    let i = find_char(s, ' ');
    if i < 0 {
        match parse_key_spec(s) {
            Some(key) => Some(seq![key]),
            None => None,
        }
    } else {
        match parse_key_spec(s.take(i)) {
            Some(key) => match parse_chord_spec(s.skip(i + 1)) {
                Some(keys) => Some(seq![key] + keys),
                None => None,
            },
            None => None,
        }
    }
}

#[via_fn]
proof fn parse_key_spec_decreases(s: Seq<char>) {
    lemma_find_char_bounds(s, '+');
}

#[via_fn]
proof fn parse_chord_spec_decreases(s: Seq<char>) {
    lemma_find_char_bounds(s, ' ');
}

proof fn lemma_find_char_bounds(s: Seq<char>, c: char)
    ensures
        -1 <= find_char(s, c) < s.len(),
        find_char(s, c) >= 0 ==> s[find_char(s, c)] == c,
        find_char(s, c) >= 0 ==> forall|j: int| 0 <= j < find_char(s, c) ==> s[j] != c,
        find_char(s, c) == -1 ==> forall|j: int| 0 <= j < s.len() ==> s[j] != c,
    decreases s.len(),
{
    if s.len() > 0 && s[0] != c {
        lemma_find_char_bounds(s.drop_first(), c);
        assert forall|j: int| 0 <= j < find_char(s, c) implies s[j] != c by {
            if j > 0 {
                assert(s.drop_first()[j - 1] != c);
            }
        }
        if find_char(s, c) == -1 {
            assert forall|j: int| 0 <= j < s.len() implies s[j] != c by {
                if j > 0 {
                    assert(s.drop_first()[j - 1] != c);
                }
            }
        }
    }
}

proof fn lemma_find_char_at(s: Seq<char>, c: char, i: int)
    requires
        0 <= i < s.len(),
        s[i] == c,
        forall|j: int| 0 <= j < i ==> s[j] != c,
    ensures
        find_char(s, c) == i,
    decreases s.len(),
{
    if i > 0 {
        lemma_find_char_at(s.drop_first(), c, i - 1);
    }
}

proof fn lemma_find_char_none(s: Seq<char>, c: char)
    requires
        forall|j: int| 0 <= j < s.len() ==> s[j] != c,
    ensures
        find_char(s, c) == -1,
    decreases s.len(),
{
    if s.len() > 0 {
        lemma_find_char_none(s.drop_first(), c);
    }
}

/// The characters of `s`, collected into a vector.
pub fn chars_vec(s: &str) -> (r: Vec<char>)
    ensures
        r@ == s@,
{
    let n = s.unicode_len();
    let mut r: Vec<char> = Vec::new();
    let mut i: usize = 0;
    while i < n
        invariant
            n == s@.len(),
            i <= n,
            r@ == s@.take(i as int),
        decreases n - i,
    {
        r.push(s.get_char(i));
        assert(r@ =~= s@.take(i + 1));
        i = i + 1;
    }
    assert(r@ =~= s@);
    r
}

/// True when the characters of `cs` in `[from, end)` spell exactly `lit`.
fn token_eq(cs: &Vec<char>, from: usize, end: usize, lit: &str) -> (r: bool)
    requires
        from <= end <= cs@.len(),
    ensures
        r == (cs@.subrange(from as int, end as int) == lit@),
{
    let n = lit.unicode_len();
    if n != end - from {
        proof {
            assert(cs@.subrange(from as int, end as int).len() != lit@.len());
        }
        return false;
    }
    let mut i: usize = 0;
    while i < n
        invariant
            from <= end <= cs@.len(),
            n == end - from,
            n == lit@.len(),
            i <= n,
            forall|j: int| 0 <= j < i ==> cs@[from + j] == lit@[j],
        decreases n - i,
    {
        if cs[from + i] != lit.get_char(i) {
            proof {
                assert(cs@.subrange(from as int, end as int)[i as int] != lit@[i as int]);
            }
            return false;
        }
        i = i + 1;
    }
    proof {
        assert(cs@.subrange(from as int, end as int) =~= lit@);
    }
    true
}

/// Scan for `c` in `cs` within `[from, end)`; `Some` holds the absolute index
/// of the first occurrence.
fn scan_char(cs: &Vec<char>, from: usize, end: usize, c: char) -> (r: Option<usize>)
    requires
        from <= end <= cs@.len(),
    ensures
        match r {
            Some(i) => find_char(cs@.subrange(from as int, end as int), c) == i - from && from <= i
                < end,
            None => find_char(cs@.subrange(from as int, end as int), c) == -1,
        },
{
    let ghost sub = cs@.subrange(from as int, end as int);
    let mut i: usize = from;
    while i < end
        invariant
            from <= i <= end <= cs@.len(),
            sub == cs@.subrange(from as int, end as int),
            forall|j: int| from <= j < i ==> cs@[j] != c,
        decreases end - i,
    {
        if cs[i] == c {
            proof {
                assert(sub[i - from] == c);
                assert forall|j: int| 0 <= j < i - from implies sub[j] != c by {
                    assert(sub[j] == cs@[from + j]);
                }
                lemma_find_char_at(sub, c, i - from);
            }
            return Some(i);
        }
        i = i + 1;
    }
    proof {
        assert forall|j: int| 0 <= j < sub.len() implies sub[j] != c by {
            assert(sub[j] == cs@[from + j]);
        }
        lemma_find_char_none(sub, c);
    }
    None
}

/// The key code named by the token in `[from, end)`, per `code_of_spec`.
fn code_of_token(cs: &Vec<char>, from: usize, end: usize) -> (r: Option<KeyCode>)
    requires
        from <= end <= cs@.len(),
    ensures
        r == code_of_spec(cs@.subrange(from as int, end as int)),
{
    if token_eq(cs, from, end, "Backspace") {
        Some(KeyCode::Backspace)
    } else if token_eq(cs, from, end, "Delete") {
        Some(KeyCode::Delete)
    } else if token_eq(cs, from, end, "Enter") {
        Some(KeyCode::Enter)
    } else if token_eq(cs, from, end, "Left") {
        Some(KeyCode::Left)
    } else if token_eq(cs, from, end, "Right") {
        Some(KeyCode::Right)
    } else if token_eq(cs, from, end, "Up") {
        Some(KeyCode::Up)
    } else if token_eq(cs, from, end, "Down") {
        Some(KeyCode::Down)
    } else if token_eq(cs, from, end, "Home") {
        Some(KeyCode::Home)
    } else if token_eq(cs, from, end, "End") {
        Some(KeyCode::End)
    } else if token_eq(cs, from, end, "PageUp") {
        Some(KeyCode::PageUp)
    } else if token_eq(cs, from, end, "PageDown") {
        Some(KeyCode::PageDown)
    } else if token_eq(cs, from, end, "Tab") {
        Some(KeyCode::Tab)
    } else if token_eq(cs, from, end, "BackTab") {
        Some(KeyCode::BackTab)
    } else if token_eq(cs, from, end, "Insert") {
        Some(KeyCode::Insert)
    } else if token_eq(cs, from, end, "Null") {
        Some(KeyCode::Null)
    } else if token_eq(cs, from, end, "Escape") {
        Some(KeyCode::Esc)
    } else if token_eq(cs, from, end, "CapsLock") {
        Some(KeyCode::CapsLock)
    } else if token_eq(cs, from, end, "ScrollLock") {
        Some(KeyCode::ScrollLock)
    } else if token_eq(cs, from, end, "NumLock") {
        Some(KeyCode::NumLock)
    } else if token_eq(cs, from, end, "PrintScreen") {
        Some(KeyCode::PrintScreen)
    } else if token_eq(cs, from, end, "Pause") {
        Some(KeyCode::Pause)
    } else if token_eq(cs, from, end, "Menu") {
        Some(KeyCode::Menu)
    } else if token_eq(cs, from, end, "Begin") {
        Some(KeyCode::KeypadBegin)
    } else if token_eq(cs, from, end, "Space") {
        Some(KeyCode::Char(' '))
    } else if end - from == 1 {
        Some(KeyCode::Char(cs[from]))
    } else {
        None
    }
}

/// The modifier bit named by the token in `[from, end)`, per `mod_bit_spec`.
fn mod_bit_of_token(cs: &Vec<char>, from: usize, end: usize) -> (r: Option<u8>)
    requires
        from <= end <= cs@.len(),
    ensures
        r == mod_bit_spec(cs@.subrange(from as int, end as int)),
{
    if token_eq(cs, from, end, "Shift") {
        Some(MOD_SHIFT)
    } else if token_eq(cs, from, end, "Control") {
        Some(MOD_CONTROL)
    } else if token_eq(cs, from, end, "Alt") {
        Some(MOD_ALT)
    } else if token_eq(cs, from, end, "Super") {
        Some(MOD_SUPER)
    } else if token_eq(cs, from, end, "Hyper") {
        Some(MOD_HYPER)
    } else if token_eq(cs, from, end, "Meta") {
        Some(MOD_META)
    } else {
        None
    }
}

/// Parse the key token in `[from, end)`, per `parse_key_spec`.
fn parse_key_range(cs: &Vec<char>, from: usize, end: usize) -> (r: Option<Key>)
    requires
        from <= end <= cs@.len(),
    ensures
        r == parse_key_spec(cs@.subrange(from as int, end as int)),
    decreases end - from,
{
    let ghost sub = cs@.subrange(from as int, end as int);
    match scan_char(cs, from, end, '+') {
        None => match code_of_token(cs, from, end) {
            Some(code) => Some(Key { code, modifiers: KeyModifiers { bits: 0 } }),
            None => None,
        },
        Some(i) => {
            proof {
                lemma_find_char_bounds(sub, '+');
                assert(sub.take(i - from) =~= cs@.subrange(from as int, i as int));
                assert(sub.skip(i - from + 1) =~= cs@.subrange(i + 1, end as int));
            }
            match mod_bit_of_token(cs, from, i) {
                Some(bit) => match parse_key_range(cs, i + 1, end) {
                    Some(key) => Some(
                        Key {
                            code: key.code,
                            modifiers: KeyModifiers { bits: key.modifiers.bits | bit },
                        },
                    ),
                    None => None,
                },
                None => None,
            }
        },
    }
}

/// Parse the space-separated chord in `[from, end)`, per `parse_chord_spec`.
fn parse_chord_range(cs: &Vec<char>, from: usize, end: usize) -> (r: Option<Vec<Key>>)
    requires
        from <= end <= cs@.len(),
    ensures
        match r {
            Some(keys) => parse_chord_spec(cs@.subrange(from as int, end as int)) == Some(keys@),
            None => parse_chord_spec(cs@.subrange(from as int, end as int)) is None,
        },
    decreases end - from,
{
    let ghost sub = cs@.subrange(from as int, end as int);
    match scan_char(cs, from, end, ' ') {
        None => match parse_key_range(cs, from, end) {
            Some(key) => {
                let mut keys: Vec<Key> = Vec::new();
                keys.push(key);
                proof {
                    assert(keys@ =~= seq![key]);
                }
                Some(keys)
            },
            None => None,
        },
        Some(i) => {
            proof {
                lemma_find_char_bounds(sub, ' ');
                assert(sub.take(i - from) =~= cs@.subrange(from as int, i as int));
                assert(sub.skip(i - from + 1) =~= cs@.subrange(i + 1, end as int));
            }
            match parse_key_range(cs, from, i) {
                Some(key) => match parse_chord_range(cs, i + 1, end) {
                    Some(mut keys) => {
                        keys.insert(0, key);
                        proof {
                            assert(keys@ =~= seq![key] + keys@.drop_first());
                        }
                        Some(keys)
                    },
                    None => None,
                },
                None => None,
            }
        },
    }
}

impl Key {
    /// Parse a single key token such as `"Control+a"` or `"Space"`. `None`
    /// exactly when a modifier or key-code part is not in the fixed
    /// vocabulary.
    pub fn parse(s: &str) -> (r: Option<Key>)
        ensures
            r == parse_key_spec(s@),
    {
        let cs = chars_vec(s);
        proof {
            assert(cs@.subrange(0, cs@.len() as int) =~= s@);
        }
        parse_key_range(&cs, 0, cs.len())
    }

    /// Parse a whole space-separated chord string such as `"g g"`. `None`
    /// exactly when some token is malformed; a parsed chord is never empty.
    pub fn parse_chord(s: &str) -> (r: Option<Vec<Key>>)
        ensures
            match r {
                Some(keys) => parse_chord_spec(s@) == Some(keys@) && keys@.len() >= 1,
                None => parse_chord_spec(s@) is None,
            },
    {
        let cs = chars_vec(s);
        proof {
            assert(cs@.subrange(0, cs@.len() as int) =~= s@);
            lemma_parse_chord_nonempty(s@);
        }
        parse_chord_range(&cs, 0, cs.len())
    }
}

proof fn lemma_parse_chord_nonempty(s: Seq<char>)
    ensures
        parse_chord_spec(s) is Some ==> parse_chord_spec(s)->0.len() >= 1,
    decreases s.len(),
{
}


/// A one-character token names no special key, so it parses to that
/// character's code.
pub proof fn lemma_code_of_char(s: Seq<char>)
    requires
        s.len() == 1,
    ensures
        code_of_spec(s) == Some(KeyCode::Char(s[0])),
{
    reveal_strlit("Backspace");
    reveal_strlit("Delete");
    reveal_strlit("Enter");
    reveal_strlit("Left");
    reveal_strlit("Right");
    reveal_strlit("Up");
    reveal_strlit("Down");
    reveal_strlit("Home");
    reveal_strlit("End");
    reveal_strlit("PageUp");
    reveal_strlit("PageDown");
    reveal_strlit("Tab");
    reveal_strlit("BackTab");
    reveal_strlit("Insert");
    reveal_strlit("Null");
    reveal_strlit("Escape");
    reveal_strlit("CapsLock");
    reveal_strlit("ScrollLock");
    reveal_strlit("NumLock");
    reveal_strlit("PrintScreen");
    reveal_strlit("Pause");
    reveal_strlit("Menu");
    reveal_strlit("Begin");
    reveal_strlit("Space");
}

/// A single printable character that is neither the modifier separator nor
/// the key separator parses to a one-key chord with no modifiers.
pub proof fn lemma_parse_char_chord(c: char)
    requires
        c != '+',
        c != ' ',
    ensures
        parse_key_spec(seq![c]) == Some(Key { code: KeyCode::Char(c), modifiers: KeyModifiers { bits: 0 } }),
        parse_chord_spec(seq![c]) == Some(seq![Key { code: KeyCode::Char(c), modifiers: KeyModifiers { bits: 0 } }]),
{
    let s = seq![c];
    assert(s.drop_first() =~= Seq::<char>::empty());
    assert(find_char(s.drop_first(), '+') == -1);
    assert(find_char(s, '+') == -1);
    assert(find_char(s.drop_first(), ' ') == -1);
    assert(find_char(s, ' ') == -1);
    lemma_code_of_char(s);
}

/// A three-character chord string `c1 c2` — two printable characters
/// separated by one space — parses to the two-key chord of those characters.
pub proof fn lemma_parse_two_char_chord(s: Seq<char>, c1: char, c2: char)
    requires
        s =~= seq![c1, ' ', c2],
        c1 != '+',
        c1 != ' ',
        c2 != '+',
        c2 != ' ',
    ensures
        parse_chord_spec(s) == Some(
            seq![
                Key { code: KeyCode::Char(c1), modifiers: KeyModifiers { bits: 0 } },
                Key { code: KeyCode::Char(c2), modifiers: KeyModifiers { bits: 0 } },
            ],
        ),
{
    assert(s[1] == ' ');
    lemma_find_char_at(s, ' ', 1);
    assert(s.take(1) =~= seq![c1]);
    assert(s.skip(2) =~= seq![c2]);
    lemma_parse_char_chord(c1);
    lemma_parse_char_chord(c2);
    assert(parse_key_spec(s.take(1)) == Some(
        Key { code: KeyCode::Char(c1), modifiers: KeyModifiers { bits: 0 } },
    ));
    assert(parse_chord_spec(s.skip(2)) == Some(
        seq![Key { code: KeyCode::Char(c2), modifiers: KeyModifiers { bits: 0 } }],
    ));
    assert(seq![Key { code: KeyCode::Char(c1), modifiers: KeyModifiers { bits: 0 } }] + seq![
        Key { code: KeyCode::Char(c2), modifiers: KeyModifiers { bits: 0 } },
    ] =~= seq![
        Key { code: KeyCode::Char(c1), modifiers: KeyModifiers { bits: 0 } },
        Key { code: KeyCode::Char(c2), modifiers: KeyModifiers { bits: 0 } },
    ]);
}

} // verus!
