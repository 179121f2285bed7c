//! Keyboard shortcut strings resolved into plain key and modifier values.
//! A shortcut is written as `'+'`-joined parts: zero or more modifiers and a
//! key name last, each matched after trimming, ignoring ASCII letter case.
//! The interface collaborator maps these values onto its own key events.

use vstd::prelude::*;
use crate::settings::KeyboardSettings;
use crate::text::{chars_of, is_blank, is_blank_str, is_space};

verus! {

/// A key a shortcut can name.
#[derive(Debug, Clone, Copy, PartialEq, Eq, Structural)]
pub enum Key {
    Space,
    Enter,
    Escape,
    ArrowLeft,
    ArrowRight,
    Home,
    End,
    Delete,
    Backspace,
    Tab,
    A,
    N,
    O,
    S,
    Comma,
    Period,
    Semicolon,
}

/// The modifier keys held together with a key.
#[derive(Debug, Clone, Copy, PartialEq, Eq, Structural)]
pub struct Modifiers {
    pub ctrl: bool,
    pub mac_cmd: bool,
    pub alt: bool,
    pub shift: bool,
}

impl Default for Modifiers {
    /// No modifier held.
    fn default() -> (r: Modifiers)
        ensures
            r == (Modifiers { ctrl: false, mac_cmd: false, alt: false, shift: false }),
    {
        Modifiers { ctrl: false, mac_cmd: false, alt: false, shift: false }
    }
}

/// An ASCII letter folded to lower case; everything else unchanged.
pub open spec fn lower_char(c: char) -> char {
    if 'A' <= c <= 'Z' {
        (((c as u8) + 32) as char)
    } else {
        c
    }
}

/// A sequence folded to lower case character by character.
pub open spec fn lower_seq(s: Seq<char>) -> Seq<char> {
    Seq::new(s.len(), |i: int| lower_char(s[i]))
}

/// Leading whitespace dropped.
pub open spec fn trim_front(s: Seq<char>) -> Seq<char>
    decreases s.len(),
{
    if s.len() > 0 && is_space(s[0]) {
        trim_front(s.drop_first())
    } else {
        s
    }
}

/// Trailing whitespace dropped.
pub open spec fn trim_back(s: Seq<char>) -> Seq<char>
    decreases s.len(),
{
    if s.len() > 0 && is_space(s.last()) {
        trim_back(s.drop_last())
    } else {
        s
    }
}

/// Whitespace dropped from both ends.
pub open spec fn trimmed(s: Seq<char>) -> Seq<char> {
    trim_back(trim_front(s))
}

/// The `'+'`-separated parts of a shortcut, `cur` being the piece already
/// read of the part under way.
pub open spec fn split_acc(s: Seq<char>, cur: Seq<char>) -> Seq<Seq<char>>
    decreases s.len(),
{
    if s.len() == 0 {
        seq![cur]
    } else if s[0] == '+' {
        seq![cur] + split_acc(s.drop_first(), Seq::<char>::empty())
    } else {
        split_acc(s.drop_first(), cur.push(s[0]))
    }
}

/// The key a trimmed, case-folded token names, if any.
pub open spec fn key_token(t: Seq<char>) -> Option<Key> {
    let l = lower_seq(t);
    if l == "space"@ {
        Some(Key::Space)
    } else if l == "enter"@ {
        Some(Key::Enter)
    } else if l == "escape"@ {
        Some(Key::Escape)
    } else if l == "left"@ {
        Some(Key::ArrowLeft)
    } else if l == "right"@ {
        Some(Key::ArrowRight)
    } else if l == "home"@ {
        Some(Key::Home)
    } else if l == "end"@ {
        Some(Key::End)
    } else if l == "delete"@ {
        Some(Key::Delete)
    } else if l == "backspace"@ {
        Some(Key::Backspace)
    } else if l == "tab"@ {
        Some(Key::Tab)
    } else if l == "a"@ {
        Some(Key::A)
    } else if l == "n"@ {
        Some(Key::N)
    } else if l == "o"@ {
        Some(Key::O)
    } else if l == "s"@ {
        Some(Key::S)
    } else if l == "comma"@ {
        Some(Key::Comma)
    } else if l == ","@ {
        Some(Key::Comma)
    } else if l == "."@ {
        Some(Key::Period)
    } else if l == ";"@ {
        Some(Key::Semicolon)
    } else {
        None
    }
}

/// The modifiers with a trimmed, case-folded token's flag raised, if the
/// token names one.
pub open spec fn apply_modifier(m: Modifiers, t: Seq<char>) -> Option<Modifiers> {
    let l = lower_seq(t);
    if l == "ctrl"@ {
        Some(Modifiers { ctrl: true, ..m })
    } else if l == "cmd"@ {
        Some(Modifiers { mac_cmd: true, ..m })
    } else if l == "alt"@ {
        Some(Modifiers { alt: true, ..m })
    } else if l == "shift"@ {
        Some(Modifiers { shift: true, ..m })
    } else {
        None
    }
}

/// Folds the parts of a shortcut: every part but the last raises a modifier
/// flag, the last names the key; an unknown part fails the parse.
pub open spec fn parse_parts(parts: Seq<Seq<char>>, m: Modifiers) -> Option<(Key, Modifiers)>
    decreases parts.len(),
{
    if parts.len() == 0 {
        None
    } else if parts.len() == 1 {
        match key_token(trimmed(parts[0])) {
            Some(k) => Some((k, m)),
            None => None,
        }
    } else {
        match apply_modifier(m, trimmed(parts[0])) {
            Some(m2) => parse_parts(parts.drop_first(), m2),
            None => None,
        }
    }
}

/// What parsing a shortcut string yields: nothing for a blank string,
/// otherwise the folded parts.
pub open spec fn spec_parse_shortcut(s: Seq<char>) -> Option<(Key, Modifiers)> {
    if is_blank(s) {
        None
    } else {
        parse_parts(
            split_acc(s, Seq::<char>::empty()),
            Modifiers { ctrl: false, mac_cmd: false, alt: false, shift: false },
        )
    }
}

fn lower_char_exec(c: char) -> (r: char)
    ensures
        r == lower_char(c),
{
    if 'A' <= c && c <= 'Z' {
        ((c as u8) + 32) as char
    } else {
        c
    }
}

/// The bounds of `cs` with whitespace trimmed from both ends.
#[verifier::loop_isolation(false)]
fn trim_range(cs: &Vec<char>) -> (r: (usize, usize))
    ensures
        r.0 <= r.1 <= cs@.len(),
        cs@.subrange(r.0 as int, r.1 as int) == trimmed(cs@),
{
    let mut a: usize = 0;
    proof {
        assert(cs@.skip(0) =~= cs@);
    }
    while a < cs.len() && is_space_exec(cs[a])
        invariant
            a <= cs@.len(),
            trim_front(cs@) == trim_front(cs@.skip(a as int)),
        decreases cs@.len() - a,
    {
        proof {
            assert(cs@.skip(a as int)[0] == cs@[a as int]);
            assert(cs@.skip(a as int).drop_first() =~= cs@.skip(a as int + 1));
        }
        a = a + 1;
    }
    proof {
        if a < cs@.len() {
            assert(trim_front(cs@.skip(a as int)) == cs@.skip(a as int));
        } else {
            assert(cs@.skip(a as int) =~= Seq::<char>::empty());
        }
    }
    let mut b: usize = cs.len();
    proof {
        assert(cs@.skip(a as int).take(cs@.len() - a) =~= cs@.skip(a as int));
    }
    while b > a && is_space_exec(cs[b - 1])
        invariant
            a <= b <= cs@.len(),
            trim_back(cs@.skip(a as int)) == trim_back(cs@.skip(a as int).take(b - a)),
        decreases b,
    {
        proof {
            let part = cs@.skip(a as int).take(b - a);
            assert(part.last() == cs@[b - 1]);
            assert(part.drop_last() =~= cs@.skip(a as int).take(b - 1 - a));
        }
        b = b - 1;
    }
    proof {
        let part = cs@.skip(a as int).take(b - a);
        if b > a {
            assert(part.last() == cs@[b - 1]);
            assert(trim_back(part) == part);
        } else {
            assert(part =~= Seq::<char>::empty());
        }
        assert(cs@.subrange(a as int, b as int) =~= part);
        assert(cs@.skip(a as int).take(cs@.len() - a) =~= cs@.skip(a as int));
    }
    (a, b)
}

fn is_space_exec(c: char) -> (r: bool)
    ensures
        r == is_space(c),
{
    c == ' ' || c == '\t' || c == '\n' || c == '\r'
}

/// Whether `cs[a..b]`, case-folded, spells the (lowercase) token.
#[verifier::loop_isolation(false)]
fn token_eq(cs: &Vec<char>, a: usize, b: usize, token: &str) -> (r: bool)
    requires
        a <= b <= cs@.len(),
    ensures
        r == (lower_seq(cs@.subrange(a as int, b as int)) == token@),
{
    let tok = chars_of(token);
    if b - a != tok.len() {
        proof {
            assert(lower_seq(cs@.subrange(a as int, b as int)).len() == b - a);
        }
        return false;
    }
    let mut i: usize = 0;
    while i < tok.len()
        invariant
            i <= tok@.len(),
            tok@ == token@,
            b - a == tok@.len(),
            forall|j: int|
                0 <= j < i ==> lower_char(cs@.subrange(a as int, b as int)[j]) == tok@[j],
        decreases tok@.len() - i,
    {
        let c = lower_char_exec(cs[a + i]);
        if c != tok[i] {
            proof {
                assert(lower_seq(cs@.subrange(a as int, b as int))[i as int] != tok@[i as int]);
            }
            return false;
        }
        i = i + 1;
    }
    proof {
        assert(lower_seq(cs@.subrange(a as int, b as int)) =~= token@);
    }
    true
}

/// The key a part names after trimming and case folding, if any.
fn key_token_exec(part: &Vec<char>) -> (r: Option<Key>)
    ensures
        r == key_token(trimmed(part@)),
{
    let (a, b) = trim_range(part);
    if token_eq(part, a, b, "space") {
        Some(Key::Space)
    } else if token_eq(part, a, b, "enter") {
        Some(Key::Enter)
    } else if token_eq(part, a, b, "escape") {
        Some(Key::Escape)
    } else if token_eq(part, a, b, "left") {
        Some(Key::ArrowLeft)
    } else if token_eq(part, a, b, "right") {
        Some(Key::ArrowRight)
    } else if token_eq(part, a, b, "home") {
        Some(Key::Home)
    } else if token_eq(part, a, b, "end") {
        Some(Key::End)
    } else if token_eq(part, a, b, "delete") {
        Some(Key::Delete)
    } else if token_eq(part, a, b, "backspace") {
        Some(Key::Backspace)
    } else if token_eq(part, a, b, "tab") {
        Some(Key::Tab)
    } else if token_eq(part, a, b, "a") {
        Some(Key::A)
    } else if token_eq(part, a, b, "n") {
        Some(Key::N)
    } else if token_eq(part, a, b, "o") {
        Some(Key::O)
    } else if token_eq(part, a, b, "s") {
        Some(Key::S)
    } else if token_eq(part, a, b, "comma") {
        Some(Key::Comma)
    } else if token_eq(part, a, b, ",") {
        Some(Key::Comma)
    } else if token_eq(part, a, b, ".") {
        Some(Key::Period)
    } else if token_eq(part, a, b, ";") {
        Some(Key::Semicolon)
    } else {
        None
    }
}

/// The modifiers with a part's flag raised, if the part names one.
fn apply_modifier_exec(part: &Vec<char>, m: Modifiers) -> (r: Option<Modifiers>)
    ensures
        r == apply_modifier(m, trimmed(part@)),
{
    let (a, b) = trim_range(part);
    if token_eq(part, a, b, "ctrl") {
        Some(Modifiers { ctrl: true, ..m })
    } else if token_eq(part, a, b, "cmd") {
        Some(Modifiers { mac_cmd: true, ..m })
    } else if token_eq(part, a, b, "alt") {
        Some(Modifiers { alt: true, ..m })
    } else if token_eq(part, a, b, "shift") {
        Some(Modifiers { shift: true, ..m })
    } else {
        None
    }
}

impl KeyboardSettings {
    /// Resolves a shortcut string into a key and its modifiers, exactly as
    /// `spec_parse_shortcut` says; a blank string or an unknown part yields
    /// nothing.
    #[verifier::loop_isolation(false)]
    pub fn parse_shortcut(shortcut: &str) -> (r: Option<(Key, Modifiers)>)
        ensures
            r == spec_parse_shortcut(shortcut@),
    {
        if is_blank_str(shortcut) {
            return None;
        }
        let cs = chars_of(shortcut);
        let ghost view = shortcut@;
        let ghost m0 = Modifiers { ctrl: false, mac_cmd: false, alt: false, shift: false };
        let mut m = Modifiers { ctrl: false, mac_cmd: false, alt: false, shift: false };
        let mut part: Vec<char> = Vec::new();
        let mut i: usize = 0;
        proof {
            assert(view.skip(0) =~= view);
        }
        while i < cs.len()
            invariant
                i <= view.len(),
                cs@ == view,
                parse_parts(split_acc(view.skip(i as int), part@), m) == parse_parts(
                    split_acc(view, Seq::<char>::empty()),
                    m0,
                ),
            decreases view.len() - i,
        {
            let c = cs[i];
            proof {
                assert(view.skip(i as int)[0] == view[i as int]);
                assert(view.skip(i as int).drop_first() =~= view.skip(i as int + 1));
            }
            if c == '+' {
                let m2 = match apply_modifier_exec(&part, m) {
                    Some(m2) => m2,
                    None => {
                        proof {
                            let parts = split_acc(view.skip(i as int), part@);
                            assert(parts[0] == part@);
                            assert(parts.drop_first() =~= split_acc(
                                view.skip(i as int + 1),
                                Seq::<char>::empty(),
                            ));
                            lemma_split_acc_nonempty(
                                view.skip(i as int + 1),
                                Seq::<char>::empty(),
                            );
                        }
                        return None;
                    },
                };
                proof {
                    let parts = split_acc(view.skip(i as int), part@);
                    assert(parts[0] == part@);
                    assert(parts.drop_first() =~= split_acc(
                        view.skip(i as int + 1),
                        Seq::<char>::empty(),
                    ));
                    lemma_split_acc_nonempty(view.skip(i as int + 1), Seq::<char>::empty());
                }
                m = m2;
                part = Vec::new();
            } else {
                part.push(c);
            }
            i = i + 1;
        }
        proof {
            assert(view.skip(view.len() as int) =~= Seq::<char>::empty());
            assert(split_acc(Seq::<char>::empty(), part@) == seq![part@]);
        }
        match key_token_exec(&part) {
            Some(k) => Some((k, m)),
            None => None,
        }
    }

    /// Whether a key press matches a shortcut: the shortcut parses and names
    /// exactly this key with exactly these modifiers.
    pub fn matches_shortcut(shortcut: &str, key: Key, modifiers: &Modifiers) -> (r: bool)
        ensures
            r == match spec_parse_shortcut(shortcut@) {
                Some(expected) => expected.0 == key && expected.1 == *modifiers,
                None => false,
            },
    {
        match Self::parse_shortcut(shortcut) {
            Some((expected_key, expected_modifiers)) => {
                key == expected_key && *modifiers == expected_modifiers
            },
            None => false,
        }
    }
}

/// Splitting always yields at least one part.
proof fn lemma_split_acc_nonempty(s: Seq<char>, cur: Seq<char>)
    ensures
        split_acc(s, cur).len() >= 1,
    decreases s.len(),
{
    if s.len() > 0 {
        if s[0] == '+' {
            lemma_split_acc_nonempty(s.drop_first(), Seq::<char>::empty());
        } else {
            lemma_split_acc_nonempty(s.drop_first(), cur.push(s[0]));
        }
    }
}

} // verus!
