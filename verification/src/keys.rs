//! Key names: the keys that actions press, the virtual-key codes of trigger
//! keys, and the modifier prefixes of trigger names.
use vstd::prelude::*;
use crate::text::{
    ascii_lower_char, ascii_lowercase, chars_of, eq_str, is_ascii_text, is_white, lemma_ascii_subrange,
    lemma_lower_ascii, lemma_lower_idempotent, lemma_lower_skip, lemma_trimmed_after_head,
    lemma_trimmed_ascii, lemma_trimmed_end_prefix, lemma_trimmed_idempotent, lemma_trimmed_lower,
    lemma_trimmed_trimmed_end, skip_chars, starts_with, starts_with_str, to_lowercase, trim, trimmed,
    trimmed_end, unicode_lowercase,
};

verus! {

/// Bit set of the modifier keys held while a trigger key is pressed.
pub type ModifierFlags = u32;

pub const MOD_NONE: ModifierFlags = 0;

pub const MOD_SHIFT: ModifierFlags = 1;

pub const MOD_CTRL: ModifierFlags = 2;

pub const MOD_ALT: ModifierFlags = 4;

pub const MOD_META: ModifierFlags = 8;

/// A key that an action presses.
#[derive(Debug, Clone, Copy, PartialEq, Eq, Structural)]
pub enum Key {
    UpArrow,
    DownArrow,
    LeftArrow,
    RightArrow,
    Home,
    End,
    PageUp,
    PageDown,
    Delete,
    Escape,
    Backspace,
    Tab,
    Return,
    Space,
    Control,
    Alt,
    Shift,
    Meta,
    CapsLock,
    F1,
    F2,
    F3,
    F4,
    F5,
    F6,
    F7,
    F8,
    F9,
    F10,
    F11,
    F12,
    Unicode(char),
}

pub open spec fn is_ascii_digit(c: char) -> bool {
    '0' <= c <= '9'
}

pub open spec fn is_ascii_upper(c: char) -> bool {
    'A' <= c <= 'Z'
}

pub open spec fn is_ascii_lower(c: char) -> bool {
    'a' <= c <= 'z'
}

/// `char::is_ascii_alphanumeric`.
pub open spec fn is_ascii_alnum(c: char) -> bool {
    is_ascii_digit(c) || is_ascii_upper(c) || is_ascii_lower(c)
}

/// `char::is_ascii_punctuation`.
pub open spec fn is_ascii_punct(c: char) -> bool {
    let u = c as u32;
    ||| 0x21 <= u <= 0x2f
    ||| 0x3a <= u <= 0x40
    ||| 0x5b <= u <= 0x60
    ||| 0x7b <= u <= 0x7e
}

/// A text of exactly one byte in UTF-8: one ASCII character.
pub open spec fn is_one_byte(s: Seq<char>) -> bool {
    s.len() == 1 && (s[0] as u32) < 0x80
}

/// The key that a lowercase action key name denotes.
pub open spec fn key_from_lower(l: Seq<char>) -> Option<Key> {
    if l == "up"@ {
        Some(Key::UpArrow)
    } else if l == "down"@ {
        Some(Key::DownArrow)
    } else if l == "left"@ {
        Some(Key::LeftArrow)
    } else if l == "right"@ {
        Some(Key::RightArrow)
    } else if l == "home"@ {
        Some(Key::Home)
    } else if l == "end"@ {
        Some(Key::End)
    } else if l == "pageup"@ {
        Some(Key::PageUp)
    } else if l == "pagedown"@ {
        Some(Key::PageDown)
    } else if l == "delete"@ {
        Some(Key::Delete)
    } else if l == "escape"@ || l == "esc"@ {
        Some(Key::Escape)
    } else if l == "backspace"@ {
        Some(Key::Backspace)
    } else if l == "tab"@ {
        Some(Key::Tab)
    } else if l == "enter"@ || l == "return"@ {
        Some(Key::Return)
    } else if l == "space"@ {
        Some(Key::Space)
    } else if l == "control"@ || l == "ctrl"@ {
        Some(Key::Control)
    } else if l == "alt"@ {
        Some(Key::Alt)
    } else if l == "shift"@ {
        Some(Key::Shift)
    } else if l == "meta"@ || l == "win"@ || l == "windows"@ {
        Some(Key::Meta)
    } else if l == "f1"@ {
        Some(Key::F1)
    } else if l == "f2"@ {
        Some(Key::F2)
    } else if l == "f3"@ {
        Some(Key::F3)
    } else if l == "f4"@ {
        Some(Key::F4)
    } else if l == "f5"@ {
        Some(Key::F5)
    } else if l == "f6"@ {
        Some(Key::F6)
    } else if l == "f7"@ {
        Some(Key::F7)
    } else if l == "f8"@ {
        Some(Key::F8)
    } else if l == "f9"@ {
        Some(Key::F9)
    } else if l == "f10"@ {
        Some(Key::F10)
    } else if l == "f11"@ {
        Some(Key::F11)
    } else if l == "f12"@ {
        Some(Key::F12)
    } else if is_one_byte(l) && (is_ascii_alnum(l[0]) || is_ascii_punct(l[0])) {
        Some(Key::Unicode(l[0]))
    } else {
        None
    }
}

/// The key that an action key name denotes, in any letter case.
pub open spec fn key_of_name(s: Seq<char>) -> Option<Key> {
    key_from_lower(unicode_lowercase(s))
}

fn is_ascii_alnum_char(c: char) -> (r: bool)
    ensures
        r == is_ascii_alnum(c),
{
    ('0' <= c && c <= '9') || ('A' <= c && c <= 'Z') || ('a' <= c && c <= 'z')
}

fn is_ascii_punct_char(c: char) -> (r: bool)
    ensures
        r == is_ascii_punct(c),
{
    let u: u32 = c as u32;
    (0x21 <= u && u <= 0x2f) || (0x3a <= u && u <= 0x40) || (0x5b <= u && u <= 0x60) || (0x7b
        <= u && u <= 0x7e)
}

fn is_one_byte_chars(v: &Vec<char>) -> (r: bool)
    ensures
        r == is_one_byte(v@),
{
    v.len() == 1 && (v[0] as u32) < 0x80
}

/// The key that the lowercase name held in `l` denotes.
pub fn key_from_lower_chars(l: &Vec<char>) -> (r: Option<Key>)
    ensures
        r == key_from_lower(l@),
{
    if eq_str(l, "up") {
        Some(Key::UpArrow)
    } else if eq_str(l, "down") {
        Some(Key::DownArrow)
    } else if eq_str(l, "left") {
        Some(Key::LeftArrow)
    } else if eq_str(l, "right") {
        Some(Key::RightArrow)
    } else if eq_str(l, "home") {
        Some(Key::Home)
    } else if eq_str(l, "end") {
        Some(Key::End)
    } else if eq_str(l, "pageup") {
        Some(Key::PageUp)
    } else if eq_str(l, "pagedown") {
        Some(Key::PageDown)
    } else if eq_str(l, "delete") {
        Some(Key::Delete)
    } else if eq_str(l, "escape") || eq_str(l, "esc") {
        Some(Key::Escape)
    } else if eq_str(l, "backspace") {
        Some(Key::Backspace)
    } else if eq_str(l, "tab") {
        Some(Key::Tab)
    } else if eq_str(l, "enter") || eq_str(l, "return") {
        Some(Key::Return)
    } else if eq_str(l, "space") {
        Some(Key::Space)
    } else if eq_str(l, "control") || eq_str(l, "ctrl") {
        Some(Key::Control)
    } else if eq_str(l, "alt") {
        Some(Key::Alt)
    } else if eq_str(l, "shift") {
        Some(Key::Shift)
    } else if eq_str(l, "meta") || eq_str(l, "win") || eq_str(l, "windows") {
        Some(Key::Meta)
    } else if eq_str(l, "f1") {
        Some(Key::F1)
    } else if eq_str(l, "f2") {
        Some(Key::F2)
    } else if eq_str(l, "f3") {
        Some(Key::F3)
    } else if eq_str(l, "f4") {
        Some(Key::F4)
    } else if eq_str(l, "f5") {
        Some(Key::F5)
    } else if eq_str(l, "f6") {
        Some(Key::F6)
    } else if eq_str(l, "f7") {
        Some(Key::F7)
    } else if eq_str(l, "f8") {
        Some(Key::F8)
    } else if eq_str(l, "f9") {
        Some(Key::F9)
    } else if eq_str(l, "f10") {
        Some(Key::F10)
    } else if eq_str(l, "f11") {
        Some(Key::F11)
    } else if eq_str(l, "f12") {
        Some(Key::F12)
    } else if is_one_byte_chars(l) && (is_ascii_alnum_char(l[0]) || is_ascii_punct_char(l[0])) {
        Some(Key::Unicode(l[0]))
    } else {
        None
    }
}

/// The key that an already lowercased action key name denotes: the named
/// keys (`up`, `pageup`, `enter`, `f5`, ...), or the one printable ASCII
/// character that the name consists of.
pub fn key_from_lowercase(lower: &str) -> (r: Option<Key>)
    ensures
        r == key_from_lower(lower@),
{
    let l = chars_of(lower);
    key_from_lower_chars(&l)
}

/// The key that the name held in `v` denotes, in any letter case.
pub fn key_of_chars(v: &Vec<char>) -> (r: Option<Key>)
    ensures
        r == key_of_name(v@),
        is_ascii_text(v@) ==> r == key_from_lower(ascii_lowercase(v@)),
{
    let l = to_lowercase(v);
    key_from_lower_chars(&l)
}

/// The key that an action key name denotes, in any letter case.
pub fn str_to_key(s: &str) -> (r: Option<Key>)
    ensures
        r == key_of_name(s@),
        is_ascii_text(s@) ==> r == key_from_lower(ascii_lowercase(s@)),
{
    let v = chars_of(s);
    key_of_chars(&v)
}


/// The virtual-key code of a lowercase trigger key name.
pub open spec fn vk_from_lower(l: Seq<char>) -> Option<u32> {
    if l == "comma"@ {
        Some(0xBC)
    } else if l == "period"@ {
        Some(0xBE)
    } else if l == "semicolon"@ {
        Some(0xBA)
    } else if l == "slash"@ {
        Some(0xBF)
    } else if l == "backslash"@ {
        Some(0xDC)
    } else if l == "minus"@ {
        Some(0xBD)
    } else if l == "equals"@ {
        Some(0xBB)
    } else if l == "quote"@ {
        Some(0xDE)
    } else if l == "bracketleft"@ {
        Some(0xDB)
    } else if l == "bracketright"@ {
        Some(0xDD)
    } else if l == "backspace"@ {
        Some(0x08)
    } else if l == "tab"@ {
        Some(0x09)
    } else if l == "enter"@ || l == "return"@ {
        Some(0x0D)
    } else if l == "space"@ {
        Some(0x20)
    } else if l == "delete"@ {
        Some(0x2E)
    } else if l == "insert"@ {
        Some(0x2D)
    } else if l == "home"@ {
        Some(0x24)
    } else if l == "end"@ {
        Some(0x23)
    } else if l == "pageup"@ {
        Some(0x21)
    } else if l == "pagedown"@ {
        Some(0x22)
    } else if l == "up"@ {
        Some(0x26)
    } else if l == "down"@ {
        Some(0x28)
    } else if l == "left"@ {
        Some(0x25)
    } else if l == "right"@ {
        Some(0x27)
    } else if l == "escape"@ || l == "esc"@ {
        Some(0x1B)
    } else if l == "f1"@ {
        Some(0x70)
    } else if l == "f2"@ {
        Some(0x71)
    } else if l == "f3"@ {
        Some(0x72)
    } else if l == "f4"@ {
        Some(0x73)
    } else if l == "f5"@ {
        Some(0x74)
    } else if l == "f6"@ {
        Some(0x75)
    } else if l == "f7"@ {
        Some(0x76)
    } else if l == "f8"@ {
        Some(0x77)
    } else if l == "f9"@ {
        Some(0x78)
    } else if l == "f10"@ {
        Some(0x79)
    } else if l == "f11"@ {
        Some(0x7A)
    } else if l == "f12"@ {
        Some(0x7B)
    } else {
        None
    }
}

/// The uppercase form of an ASCII letter.
pub open spec fn ascii_upper(c: char) -> u32 {
    if is_ascii_lower(c) {
        (c as u32 - 32) as u32
    } else {
        c as u32
    }
}

/// The virtual-key code of a trimmed trigger key name `t` whose lowercase
/// form is `lower`: a single ASCII letter (either case) gives the code of its
/// uppercase letter, a single digit its own code; anything else goes by its
/// lowercase name.
pub open spec fn vk_of_trimmed_with(t: Seq<char>, lower: Seq<char>) -> Option<u32> {
    if t.len() == 1 && (is_ascii_upper(t[0]) || is_ascii_lower(t[0])) {
        Some(ascii_upper(t[0]))
    } else if t.len() == 1 && is_ascii_digit(t[0]) {
        Some(t[0] as u32)
    } else {
        vk_from_lower(lower)
    }
}

/// The virtual-key code of a trimmed trigger key name.
pub open spec fn vk_of_trimmed(t: Seq<char>) -> Option<u32> {
    vk_of_trimmed_with(t, unicode_lowercase(t))
}

/// The virtual-key code of a trigger key name.
pub open spec fn vk_of_name(s: Seq<char>) -> Option<u32> {
    vk_of_trimmed(trimmed(s))
}

/// The virtual-key code of an ASCII trigger key name, whose lowercase form is
/// its ASCII lowercase form.
pub open spec fn ascii_vk_of_name(s: Seq<char>) -> Option<u32> {
    vk_of_trimmed_with(trimmed(s), ascii_lowercase(trimmed(s)))
}

/// The virtual-key code that an already lowercased trigger key name denotes.
pub fn vk_from_lowercase(l: &Vec<char>) -> (r: Option<u32>)
    ensures
        r == vk_from_lower(l@),
{
    if eq_str(l, "comma") {
        Some(0xBC)
    } else if eq_str(l, "period") {
        Some(0xBE)
    } else if eq_str(l, "semicolon") {
        Some(0xBA)
    } else if eq_str(l, "slash") {
        Some(0xBF)
    } else if eq_str(l, "backslash") {
        Some(0xDC)
    } else if eq_str(l, "minus") {
        Some(0xBD)
    } else if eq_str(l, "equals") {
        Some(0xBB)
    } else if eq_str(l, "quote") {
        Some(0xDE)
    } else if eq_str(l, "bracketleft") {
        Some(0xDB)
    } else if eq_str(l, "bracketright") {
        Some(0xDD)
    } else if eq_str(l, "backspace") {
        Some(0x08)
    } else if eq_str(l, "tab") {
        Some(0x09)
    } else if eq_str(l, "enter") || eq_str(l, "return") {
        Some(0x0D)
    } else if eq_str(l, "space") {
        Some(0x20)
    } else if eq_str(l, "delete") {
        Some(0x2E)
    } else if eq_str(l, "insert") {
        Some(0x2D)
    } else if eq_str(l, "home") {
        Some(0x24)
    } else if eq_str(l, "end") {
        Some(0x23)
    } else if eq_str(l, "pageup") {
        Some(0x21)
    } else if eq_str(l, "pagedown") {
        Some(0x22)
    } else if eq_str(l, "up") {
        Some(0x26)
    } else if eq_str(l, "down") {
        Some(0x28)
    } else if eq_str(l, "left") {
        Some(0x25)
    } else if eq_str(l, "right") {
        Some(0x27)
    } else if eq_str(l, "escape") || eq_str(l, "esc") {
        Some(0x1B)
    } else if eq_str(l, "f1") {
        Some(0x70)
    } else if eq_str(l, "f2") {
        Some(0x71)
    } else if eq_str(l, "f3") {
        Some(0x72)
    } else if eq_str(l, "f4") {
        Some(0x73)
    } else if eq_str(l, "f5") {
        Some(0x74)
    } else if eq_str(l, "f6") {
        Some(0x75)
    } else if eq_str(l, "f7") {
        Some(0x76)
    } else if eq_str(l, "f8") {
        Some(0x77)
    } else if eq_str(l, "f9") {
        Some(0x78)
    } else if eq_str(l, "f10") {
        Some(0x79)
    } else if eq_str(l, "f11") {
        Some(0x7A)
    } else if eq_str(l, "f12") {
        Some(0x7B)
    } else {
        None
    }
}

/// The virtual-key code of a trigger key name held in `v`.
pub fn vk_from_name(v: &Vec<char>) -> (r: Option<u32>)
    ensures
        r == vk_of_name(v@),
        is_ascii_text(v@) ==> r == ascii_vk_of_name(v@),
{
    let t = trim(v);
    proof {
        if is_ascii_text(v@) {
            lemma_trimmed_ascii(v@);
        }
    }
    if t.len() == 1 {
        let c: char = t[0];
        if ('A' <= c && c <= 'Z') || ('a' <= c && c <= 'z') {
            if 'a' <= c && c <= 'z' {
                return Some(c as u32 - 32);
            } else {
                return Some(c as u32);
            }
        }
        if '0' <= c && c <= '9' {
            return Some(c as u32);
        }
    }
    let l = to_lowercase(&t);
    vk_from_lowercase(&l)
}

/// The modifier flag and the length of the modifier prefix (`shift+`,
/// `ctrl+`, `alt+`, `meta+`, `win+`) that a lowercase trigger name begins with.
pub open spec fn modifier_prefix(l: Seq<char>) -> Option<(u32, nat)> {
    if starts_with(l, "shift+"@) {
        Some((MOD_SHIFT, "shift+"@.len()))
    } else if starts_with(l, "ctrl+"@) {
        Some((MOD_CTRL, "ctrl+"@.len()))
    } else if starts_with(l, "alt+"@) {
        Some((MOD_ALT, "alt+"@.len()))
    } else if starts_with(l, "meta+"@) {
        Some((MOD_META, "meta+"@.len()))
    } else if starts_with(l, "win+"@) {
        Some((MOD_META, "win+"@.len()))
    } else {
        None
    }
}

/// A trigger name split into its modifier flags and the rest of the name.
/// The prefix is recognised in the lowercase form of `s` and cut from `s`
/// itself, as many characters as the prefix has (all of them ASCII, so as
/// many bytes); should `s` hold fewer characters than the prefix, the rest
/// is empty.
pub open spec fn split_modifier(s: Seq<char>) -> (u32, Seq<char>) {
    split_modifier_with(s, unicode_lowercase(s))
}

/// A trigger name `s` whose lowercase form is `lower`, split into its
/// modifier flags and the rest of the name.
pub open spec fn split_modifier_with(s: Seq<char>, lower: Seq<char>) -> (u32, Seq<char>) {
    match modifier_prefix(lower) {
        Some((flag, n)) => (flag, if n <= s.len() { s.skip(n as int) } else { Seq::<char>::empty() }),
        None => (MOD_NONE, s),
    }
}

/// The virtual-key code and modifier flags that a trigger name denotes,
/// such as `alt+enter`.
pub open spec fn binding_of_name(s: Seq<char>) -> Option<(u32, ModifierFlags)> {
    let (flags, rest) = split_modifier(trimmed(s));
    match vk_of_name(rest) {
        Some(vk) => Some((vk, flags)),
        None => None,
    }
}

/// The virtual-key code and modifier flags that an ASCII trigger name
/// denotes, its lowercase forms being its ASCII lowercase forms.
pub open spec fn ascii_binding(s: Seq<char>) -> Option<(u32, ModifierFlags)> {
    let t = trimmed(s);
    let (flags, rest) = split_modifier_with(t, ascii_lowercase(t));
    match ascii_vk_of_name(rest) {
        Some(vk) => Some((vk, flags)),
        None => None,
    }
}

fn modifier_prefix_of(l: &Vec<char>) -> (r: Option<(u32, usize)>)
    ensures
        r matches Some((f, n)) ==> modifier_prefix(l@) == Some((f, n as nat)),
        r is None ==> modifier_prefix(l@) is None,
{
    let (yes, n) = starts_with_str(l, "shift+");
    if yes {
        return Some((MOD_SHIFT, n));
    }
    let (yes, n) = starts_with_str(l, "ctrl+");
    if yes {
        return Some((MOD_CTRL, n));
    }
    let (yes, n) = starts_with_str(l, "alt+");
    if yes {
        return Some((MOD_ALT, n));
    }
    let (yes, n) = starts_with_str(l, "meta+");
    if yes {
        return Some((MOD_META, n));
    }
    let (yes, n) = starts_with_str(l, "win+");
    if yes {
        return Some((MOD_META, n));
    }
    None
}

/// The modifier flags that the trigger name `s` begins with, and the rest.
pub fn parse_modifier_prefix(s: &Vec<char>) -> (r: (ModifierFlags, Vec<char>))
    ensures
        (r.0, r.1@) == split_modifier(s@),
        is_ascii_text(s@) ==> (r.0, r.1@) == split_modifier_with(s@, ascii_lowercase(s@)),
{
    let l = to_lowercase(s);
    match modifier_prefix_of(&l) {
        Some((flag, n)) => {
            if n <= s.len() {
                (flag, skip_chars(s, n))
            } else {
                (flag, Vec::new())
            }
        },
        None => {
            let mut rest: Vec<char> = Vec::new();
            let mut k: usize = 0;
            while k < s.len()
                invariant
                    k <= s@.len(),
                    rest@ == s@.take(k as int),
                decreases s@.len() - k,
            {
                rest.push(s[k]);
                k = k + 1;
            }
            assert(rest@ =~= s@);
            (MOD_NONE, rest)
        },
    }
}

/// The virtual-key code and modifier flags of a trigger name.
pub fn char_to_vk(s: &str) -> (r: Option<(u32, ModifierFlags)>)
    ensures
        r == binding_of_name(s@),
        is_ascii_text(s@) ==> r == ascii_binding(s@),
{
    let v = chars_of(s);
    let t = trim(&v);
    let (flags, rest) = parse_modifier_prefix(&t);
    proof {
        if is_ascii_text(s@) {
            lemma_trimmed_ascii(s@);
            let m = modifier_prefix(ascii_lowercase(t@));
            if let Some((f, n)) = m {
                if n <= t@.len() {
                    lemma_ascii_subrange(t@, n as int, t@.len() as int);
                }
            }
        }
    }
    match vk_from_name(&rest) {
        Some(vk) => Some((vk, flags)),
        None => None,
    }
}

/// A single-letter trigger name denotes the same key in either case, the
/// key whose code is that of the uppercase letter.
pub proof fn lemma_trigger_letters_ignore_case(c: char)
    requires
        is_ascii_lower(c),
    ensures
        vk_of_name(seq![c]) == vk_of_name(seq![((c as u32) - 32) as char]),
        vk_of_name(seq![c]) == Some((c as u32 - 32) as u32),
{
    let u = ((c as u32) - 32) as char;
    assert(trimmed(seq![c]) == seq![c]);
    assert(trimmed(seq![u]) == seq![u]);
}


/// An ASCII trigger key name denotes the same key in any letter case.
pub proof fn lemma_key_names_ignore_ascii_case(s: Seq<char>)
    requires
        is_ascii_text(s),
    ensures
        ascii_vk_of_name(ascii_lowercase(s)) == ascii_vk_of_name(s),
{
    let t = trimmed(s);
    let lt = ascii_lowercase(t);
    lemma_trimmed_lower(s);
    lemma_lower_idempotent(t);
    if t.len() == 1 {
        assert(lt[0] == ascii_lower_char(t[0]));
    }
}

/// An ASCII trigger name, modifier prefix included, denotes the same key and
/// modifiers in any letter case.
pub proof fn lemma_trigger_names_ignore_ascii_case(s: Seq<char>)
    requires
        is_ascii_text(s),
    ensures
        ascii_binding(ascii_lowercase(s)) == ascii_binding(s),
{
    let t = trimmed(s);
    let lt = ascii_lowercase(t);
    lemma_trimmed_lower(s);
    lemma_lower_idempotent(t);
    lemma_trimmed_ascii(s);
    match modifier_prefix(lt) {
        Some((f, n)) => {
            if n <= t.len() {
                lemma_lower_skip(t, n as int);
                lemma_ascii_subrange(t, n as int, t.len() as int);
                lemma_key_names_ignore_ascii_case(t.skip(n as int));
            }
        },
        None => {
            lemma_key_names_ignore_ascii_case(t);
        },
    }
}

proof fn lemma_prefix_split(p: Seq<char>, f: u32, k: Seq<char>)
    requires
        p.len() > 0,
        !is_white(p[0]),
        !is_white(p.last()),
        ascii_lowercase(p) == p,
        is_ascii_text(k),
        modifier_prefix(p + ascii_lowercase(trimmed_end(k))) == Some((f, p.len())),
    ensures
        ascii_binding(p + k) == match ascii_vk_of_name(k) {
            Some(v) => Some((v, f)),
            None => None,
        },
{
    let te = trimmed_end(k);
    lemma_trimmed_after_head(p, k);
    let t = p + te;
    assert(ascii_lowercase(t) =~= ascii_lowercase(p) + ascii_lowercase(te));
    assert(t.skip(p.len() as int) =~= te);
    lemma_trimmed_trimmed_end(k);
}

/// A name made of a modifier prefix (`shift+`, `ctrl+`, `alt+`, `meta+` or
/// `win+`, in any letter case) and an ASCII trigger key name denotes that
/// key with that modifier; only the one prefix is taken off.
pub proof fn lemma_prefixed_trigger(q: Seq<char>, p: Seq<char>, f: u32, k: Seq<char>)
    requires
        (p == "shift+"@ && f == MOD_SHIFT) || (p == "ctrl+"@ && f == MOD_CTRL) || (p == "alt+"@ && f
            == MOD_ALT) || (p == "meta+"@ && f == MOD_META) || (p == "win+"@ && f == MOD_META),
        is_ascii_text(q),
        ascii_lowercase(q) == p,
        is_ascii_text(k),
    ensures
        ascii_binding(q + k) == match ascii_vk_of_name(k) {
            Some(v) => Some((v, f)),
            None => None,
        },
{
    reveal_strlit("shift+");
    reveal_strlit("ctrl+");
    reveal_strlit("alt+");
    reveal_strlit("meta+");
    reveal_strlit("win+");
    let lk = ascii_lowercase(k);
    lemma_lower_ascii(k);
    let te = trimmed_end(lk);
    lemma_trimmed_end_prefix(lk);
    let l = p + ascii_lowercase(te);
    assert(ascii_lowercase(p) =~= p);
    assert(l[0] == p[0]);
    assert(l.take(p.len() as int) =~= p);
    lemma_prefix_split(p, f, lk);
    assert(ascii_lowercase(q + k) =~= p + lk);
    assert forall|i: int| 0 <= i < (q + k).len() implies ((#[trigger] (q + k)[i]) as u32) < 0x80 by {
        if i < q.len() {
            assert((q + k)[i] == q[i]);
        } else {
            assert((q + k)[i] == k[i - q.len()]);
        }
    }
    lemma_trigger_names_ignore_ascii_case(q + k);
    lemma_key_names_ignore_ascii_case(k);
}

/// An ASCII name without a modifier prefix denotes its key with no
/// modifiers.
pub proof fn lemma_unprefixed_trigger(k: Seq<char>)
    requires
        is_ascii_text(k),
        modifier_prefix(ascii_lowercase(trimmed(k))) is None,
    ensures
        ascii_binding(k) == match ascii_vk_of_name(k) {
            Some(v) => Some((v, MOD_NONE)),
            None => None,
        },
{
    lemma_trimmed_idempotent(k);
}

/// Whether `q` is a modifier prefix that gives the flags `f`: empty with no
/// flags, or `shift+`, `ctrl+`, `alt+`, `meta+` or `win+` in any letter case
/// with the flag it names.
pub open spec fn prefix_form(q: Seq<char>, f: ModifierFlags) -> bool {
    (q.len() == 0 && f == MOD_NONE)
    || (ascii_lowercase(q) == "shift+"@ && f == MOD_SHIFT)
    || (ascii_lowercase(q) == "ctrl+"@ && f == MOD_CTRL)
    || (ascii_lowercase(q) == "alt+"@ && f == MOD_ALT)
    || (ascii_lowercase(q) == "meta+"@ && f == MOD_META)
    || (ascii_lowercase(q) == "win+"@ && f == MOD_META)
}

/// An ASCII trigger name denotes a key only where its trimmed form is an
/// optional modifier prefix (in any letter case) followed by a key name that
/// denotes that key; the flags are those of the prefix. Every other ASCII
/// name denotes nothing.
pub proof fn lemma_binding_shape(s: Seq<char>)
    requires
        is_ascii_text(s),
    ensures
        ascii_binding(s) matches Some((v, f)) ==> exists|n: int|
            0 <= n <= trimmed(s).len() && prefix_form(#[trigger] trimmed(s).take(n), f)
                && ascii_vk_of_name(trimmed(s).skip(n)) == Some(v),
{
    let t = trimmed(s);
    let l = ascii_lowercase(t);
    if let Some((v, f)) = ascii_binding(s) {
        match modifier_prefix(l) {
            Some((g, n)) => {
                assert(n <= t.len());
                assert(ascii_lowercase(t.take(n as int)) =~= l.take(n as int));
                assert(prefix_form(t.take(n as int), f));
                assert(ascii_vk_of_name(t.skip(n as int)) == Some(v));
            },
            None => {
                assert(t.take(0) =~= Seq::<char>::empty());
                assert(t.skip(0) =~= t);
                lemma_trimmed_idempotent(s);
                assert(prefix_form(t.take(0), f));
                assert(ascii_vk_of_name(t.skip(0)) == Some(v));
            },
        }
    }
}

} // verus!
