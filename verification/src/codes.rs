//! What the key names mean: the names by which each key is spelt, and the
//! Windows virtual-key code of each key.
use vstd::prelude::*;
use crate::text::{ascii_lower_char, ascii_lowercase, is_ascii_text, trimmed};
use crate::keys::{
    ascii_vk_of_name, is_ascii_alnum, is_ascii_digit, is_ascii_lower, is_ascii_punct, is_ascii_upper,
    is_one_byte, key_from_lower, vk_from_lower, Key,
};

verus! {

/// Whether `l` is a lowercase spelling of the action key `k`: each named key
/// by its name (and its usual short or alternative names), a character key
/// by the one printable ASCII character it types.
pub open spec fn spells(l: Seq<char>, k: Key) -> bool {
    match k {
        Key::UpArrow => l == "up"@,
        Key::DownArrow => l == "down"@,
        Key::LeftArrow => l == "left"@,
        Key::RightArrow => l == "right"@,
        Key::Home => l == "home"@,
        Key::End => l == "end"@,
        Key::PageUp => l == "pageup"@,
        Key::PageDown => l == "pagedown"@,
        Key::Delete => l == "delete"@,
        Key::Escape => l == "escape"@ || l == "esc"@,
        Key::Backspace => l == "backspace"@,
        Key::Tab => l == "tab"@,
        Key::Return => l == "enter"@ || l == "return"@,
        Key::Space => l == "space"@,
        Key::Control => l == "control"@ || l == "ctrl"@,
        Key::Alt => l == "alt"@,
        Key::Shift => l == "shift"@,
        Key::Meta => l == "meta"@ || l == "win"@ || l == "windows"@,
        Key::CapsLock => false,
        Key::F1 => l == "f1"@,
        Key::F2 => l == "f2"@,
        Key::F3 => l == "f3"@,
        Key::F4 => l == "f4"@,
        Key::F5 => l == "f5"@,
        Key::F6 => l == "f6"@,
        Key::F7 => l == "f7"@,
        Key::F8 => l == "f8"@,
        Key::F9 => l == "f9"@,
        Key::F10 => l == "f10"@,
        Key::F11 => l == "f11"@,
        Key::F12 => l == "f12"@,
        Key::Unicode(c) => l == seq![c] && (c as u32) < 0x80 && (is_ascii_alnum(c) || is_ascii_punct(c)),
    }
}

/// A lowercase action key name denotes a key exactly when it spells that
/// key: every key is reached by each of its names, and by nothing else.
pub proof fn lemma_key_names_spell_keys(l: Seq<char>, k: Key)
    ensures
        key_from_lower(l) == Some(k) <==> spells(l, k),
{
    reveal_strlit("up");
    reveal_strlit("down");
    reveal_strlit("left");
    reveal_strlit("right");
    reveal_strlit("home");
    reveal_strlit("end");
    reveal_strlit("pageup");
    reveal_strlit("pagedown");
    reveal_strlit("delete");
    reveal_strlit("escape");
    reveal_strlit("esc");
    reveal_strlit("backspace");
    reveal_strlit("tab");
    reveal_strlit("enter");
    reveal_strlit("return");
    reveal_strlit("space");
    reveal_strlit("control");
    reveal_strlit("ctrl");
    reveal_strlit("alt");
    reveal_strlit("shift");
    reveal_strlit("meta");
    reveal_strlit("win");
    reveal_strlit("windows");
    reveal_strlit("f1");
    reveal_strlit("f2");
    reveal_strlit("f3");
    reveal_strlit("f4");
    reveal_strlit("f5");
    reveal_strlit("f6");
    reveal_strlit("f7");
    reveal_strlit("f8");
    reveal_strlit("f9");
    reveal_strlit("f10");
    reveal_strlit("f11");
    reveal_strlit("f12");
    if key_from_lower(l) == Some(k) {
        if l.len() == 1 {
            assert(l =~= seq![l[0]]);
        }
        assert(spells(l, k));
    }
    if spells(l, k) {
        match k {
            Key::Unicode(c) => {
                assert(l.len() == 1 && l[0] == c);
                assert(is_one_byte(l));
            },
            Key::UpArrow => {
                assert(l.len() == 2 && l[0] == 'u' && l[1] == 'p');
                assert(key_from_lower(l) == Some(k));
            },
            Key::DownArrow => {
                assert(l.len() == 4 && l[0] == 'd' && l[1] == 'o' && l[2] == 'w' && l[3] == 'n');
                assert(key_from_lower(l) == Some(k));
            },
            Key::LeftArrow => {
                assert(l.len() == 4 && l[0] == 'l' && l[1] == 'e' && l[2] == 'f' && l[3] == 't');
                assert(key_from_lower(l) == Some(k));
            },
            Key::RightArrow => {
                assert({
                    &&& l.len() == 5
                    &&& l[0] == 'r'
                    &&& l[1] == 'i'
                    &&& l[2] == 'g'
                    &&& l[3] == 'h'
                    &&& l[4] == 't'
                });
                assert(key_from_lower(l) == Some(k));
            },
            Key::Home => {
                assert(l.len() == 4 && l[0] == 'h' && l[1] == 'o' && l[2] == 'm' && l[3] == 'e');
                assert(key_from_lower(l) == Some(k));
            },
            Key::End => {
                assert(l.len() == 3 && l[0] == 'e' && l[1] == 'n' && l[2] == 'd');
                assert(key_from_lower(l) == Some(k));
            },
            Key::PageUp => {
                assert({
                    &&& l.len() == 6
                    &&& l[0] == 'p'
                    &&& l[1] == 'a'
                    &&& l[2] == 'g'
                    &&& l[3] == 'e'
                    &&& l[4] == 'u'
                    &&& l[5] == 'p'
                });
                assert(key_from_lower(l) == Some(k));
            },
            Key::PageDown => {
                assert({
                    &&& l.len() == 8
                    &&& l[0] == 'p'
                    &&& l[1] == 'a'
                    &&& l[2] == 'g'
                    &&& l[3] == 'e'
                    &&& l[4] == 'd'
                    &&& l[5] == 'o'
                    &&& l[6] == 'w'
                    &&& l[7] == 'n'
                });
                assert(key_from_lower(l) == Some(k));
            },
            Key::Delete => {
                assert({
                    &&& l.len() == 6
                    &&& l[0] == 'd'
                    &&& l[1] == 'e'
                    &&& l[2] == 'l'
                    &&& l[3] == 'e'
                    &&& l[4] == 't'
                    &&& l[5] == 'e'
                });
                assert(key_from_lower(l) == Some(k));
            },
            Key::Escape => {
                if l == "escape"@ {
                    assert({
                        &&& l.len() == 6
                        &&& l[0] == 'e'
                        &&& l[1] == 's'
                        &&& l[2] == 'c'
                        &&& l[3] == 'a'
                        &&& l[4] == 'p'
                        &&& l[5] == 'e'
                    });
                } else {
                    assert(l.len() == 3 && l[0] == 'e' && l[1] == 's' && l[2] == 'c');
                }
                assert(key_from_lower(l) == Some(k));
            },
            Key::Backspace => {
                assert({
                    &&& l.len() == 9
                    &&& l[0] == 'b'
                    &&& l[1] == 'a'
                    &&& l[2] == 'c'
                    &&& l[3] == 'k'
                    &&& l[4] == 's'
                    &&& l[5] == 'p'
                    &&& l[6] == 'a'
                    &&& l[7] == 'c'
                    &&& l[8] == 'e'
                });
                assert(key_from_lower(l) == Some(k));
            },
            Key::Tab => {
                assert(l.len() == 3 && l[0] == 't' && l[1] == 'a' && l[2] == 'b');
                assert(key_from_lower(l) == Some(k));
            },
            Key::Return => {
                if l == "enter"@ {
                    assert({
                        &&& l.len() == 5
                        &&& l[0] == 'e'
                        &&& l[1] == 'n'
                        &&& l[2] == 't'
                        &&& l[3] == 'e'
                        &&& l[4] == 'r'
                    });
                } else {
                    assert({
                        &&& l.len() == 6
                        &&& l[0] == 'r'
                        &&& l[1] == 'e'
                        &&& l[2] == 't'
                        &&& l[3] == 'u'
                        &&& l[4] == 'r'
                        &&& l[5] == 'n'
                    });
                }
                assert(key_from_lower(l) == Some(k));
            },
            Key::Space => {
                assert({
                    &&& l.len() == 5
                    &&& l[0] == 's'
                    &&& l[1] == 'p'
                    &&& l[2] == 'a'
                    &&& l[3] == 'c'
                    &&& l[4] == 'e'
                });
                assert(key_from_lower(l) == Some(k));
            },
            Key::Control => {
                if l == "control"@ {
                    assert({
                        &&& l.len() == 7
                        &&& l[0] == 'c'
                        &&& l[1] == 'o'
                        &&& l[2] == 'n'
                        &&& l[3] == 't'
                        &&& l[4] == 'r'
                        &&& l[5] == 'o'
                        &&& l[6] == 'l'
                    });
                } else {
                    assert({
                        &&& l.len() == 4
                        &&& l[0] == 'c'
                        &&& l[1] == 't'
                        &&& l[2] == 'r'
                        &&& l[3] == 'l'
                    });
                }
                assert(key_from_lower(l) == Some(k));
            },
            Key::Alt => {
                assert(l.len() == 3 && l[0] == 'a' && l[1] == 'l' && l[2] == 't');
                assert(key_from_lower(l) == Some(k));
            },
            Key::Shift => {
                assert({
                    &&& l.len() == 5
                    &&& l[0] == 's'
                    &&& l[1] == 'h'
                    &&& l[2] == 'i'
                    &&& l[3] == 'f'
                    &&& l[4] == 't'
                });
                assert(key_from_lower(l) == Some(k));
            },
            Key::Meta => {
                if l == "meta"@ {
                    assert({
                        &&& l.len() == 4
                        &&& l[0] == 'm'
                        &&& l[1] == 'e'
                        &&& l[2] == 't'
                        &&& l[3] == 'a'
                    });
                } else if l == "win"@ {
                    assert(l.len() == 3 && l[0] == 'w' && l[1] == 'i' && l[2] == 'n');
                } else {
                    assert({
                        &&& l.len() == 7
                        &&& l[0] == 'w'
                        &&& l[1] == 'i'
                        &&& l[2] == 'n'
                        &&& l[3] == 'd'
                        &&& l[4] == 'o'
                        &&& l[5] == 'w'
                        &&& l[6] == 's'
                    });
                }
                assert(key_from_lower(l) == Some(k));
            },
            Key::CapsLock => { assert(key_from_lower(l) == Some(k)); },
            Key::F1 => {
                assert(l.len() == 2 && l[0] == 'f' && l[1] == '1');
                assert(key_from_lower(l) == Some(k));
            },
            Key::F2 => {
                assert(l.len() == 2 && l[0] == 'f' && l[1] == '2');
                assert(key_from_lower(l) == Some(k));
            },
            Key::F3 => {
                assert(l.len() == 2 && l[0] == 'f' && l[1] == '3');
                assert(key_from_lower(l) == Some(k));
            },
            Key::F4 => {
                assert(l.len() == 2 && l[0] == 'f' && l[1] == '4');
                assert(key_from_lower(l) == Some(k));
            },
            Key::F5 => {
                assert(l.len() == 2 && l[0] == 'f' && l[1] == '5');
                assert(key_from_lower(l) == Some(k));
            },
            Key::F6 => {
                assert(l.len() == 2 && l[0] == 'f' && l[1] == '6');
                assert(key_from_lower(l) == Some(k));
            },
            Key::F7 => {
                assert(l.len() == 2 && l[0] == 'f' && l[1] == '7');
                assert(key_from_lower(l) == Some(k));
            },
            Key::F8 => {
                assert(l.len() == 2 && l[0] == 'f' && l[1] == '8');
                assert(key_from_lower(l) == Some(k));
            },
            Key::F9 => {
                assert(l.len() == 2 && l[0] == 'f' && l[1] == '9');
                assert(key_from_lower(l) == Some(k));
            },
            Key::F10 => {
                assert(l.len() == 3 && l[0] == 'f' && l[1] == '1' && l[2] == '0');
                assert(key_from_lower(l) == Some(k));
            },
            Key::F11 => {
                assert(l.len() == 3 && l[0] == 'f' && l[1] == '1' && l[2] == '1');
                assert(key_from_lower(l) == Some(k));
            },
            Key::F12 => {
                assert(l.len() == 3 && l[0] == 'f' && l[1] == '1' && l[2] == '2');
                assert(key_from_lower(l) == Some(k));
            },
        }
        assert(key_from_lower(l) == Some(k));
    }
}

/// The Windows virtual-key code of the key `k`: the navigation and editing
/// keys, Tab, Enter, Space and Escape by their own codes, the modifiers by
/// their generic codes (the Windows key by the left one), `F1` to `F12` from
/// `0x70` up, a letter by the code of its uppercase form, a digit by its own
/// code, and the punctuation of a US layout by its `VK_OEM_*` code.
pub open spec fn key_vk(k: Key) -> Option<u32> {
    match k {
        Key::UpArrow => Some(0x26),
        Key::DownArrow => Some(0x28),
        Key::LeftArrow => Some(0x25),
        Key::RightArrow => Some(0x27),
        Key::Home => Some(0x24),
        Key::End => Some(0x23),
        Key::PageUp => Some(0x21),
        Key::PageDown => Some(0x22),
        Key::Delete => Some(0x2E),
        Key::Escape => Some(0x1B),
        Key::Backspace => Some(0x08),
        Key::Tab => Some(0x09),
        Key::Return => Some(0x0D),
        Key::Space => Some(0x20),
        Key::Control => Some(0x11),
        Key::Alt => Some(0x12),
        Key::Shift => Some(0x10),
        Key::Meta => Some(0x5B),
        Key::CapsLock => Some(0x14),
        Key::F1 => Some(0x70),
        Key::F2 => Some(0x71),
        Key::F3 => Some(0x72),
        Key::F4 => Some(0x73),
        Key::F5 => Some(0x74),
        Key::F6 => Some(0x75),
        Key::F7 => Some(0x76),
        Key::F8 => Some(0x77),
        Key::F9 => Some(0x78),
        Key::F10 => Some(0x79),
        Key::F11 => Some(0x7A),
        Key::F12 => Some(0x7B),
        Key::Unicode(c) => if is_ascii_lower(c) {
            Some((c as u32 - 32) as u32)
        } else if is_ascii_upper(c) || is_ascii_digit(c) {
            Some(c as u32)
        } else {
            punct_vk(c)
        },
    }
}

/// The `VK_OEM_*` code of the key that types the punctuation character `c`
/// unshifted on a US layout.
pub open spec fn punct_vk(c: char) -> Option<u32> {
    if c == ';' {
        Some(0xBA)
    } else if c == '=' {
        Some(0xBB)
    } else if c == ',' {
        Some(0xBC)
    } else if c == '-' {
        Some(0xBD)
    } else if c == '.' {
        Some(0xBE)
    } else if c == '/' {
        Some(0xBF)
    } else if c == '`' {
        Some(0xC0)
    } else if c == '[' {
        Some(0xDB)
    } else if c == '\\' {
        Some(0xDC)
    } else if c == ']' {
        Some(0xDD)
    } else if c == '\'' {
        Some(0xDE)
    } else {
        None
    }
}

/// A lowercase name that denotes both an action key and a trigger key code
/// denotes the same key in both roles: the code is that key's own.
pub proof fn lemma_names_agree(l: Seq<char>, k: Key, v: u32)
    requires
        key_from_lower(l) == Some(k),
        vk_from_lower(l) == Some(v),
    ensures
        key_vk(k) == Some(v),
{
    reveal_strlit("comma");
    reveal_strlit("period");
    reveal_strlit("semicolon");
    reveal_strlit("slash");
    reveal_strlit("backslash");
    reveal_strlit("minus");
    reveal_strlit("equals");
    reveal_strlit("quote");
    reveal_strlit("bracketleft");
    reveal_strlit("bracketright");
    reveal_strlit("backspace");
    reveal_strlit("tab");
    reveal_strlit("enter");
    reveal_strlit("return");
    reveal_strlit("space");
    reveal_strlit("delete");
    reveal_strlit("insert");
    reveal_strlit("home");
    reveal_strlit("end");
    reveal_strlit("pageup");
    reveal_strlit("pagedown");
    reveal_strlit("up");
    reveal_strlit("down");
    reveal_strlit("left");
    reveal_strlit("right");
    reveal_strlit("escape");
    reveal_strlit("esc");
    reveal_strlit("f1");
    reveal_strlit("f2");
    reveal_strlit("f3");
    reveal_strlit("f4");
    reveal_strlit("f5");
    reveal_strlit("f6");
    reveal_strlit("f7");
    reveal_strlit("f8");
    reveal_strlit("f9");
    reveal_strlit("f10");
    reveal_strlit("f11");
    reveal_strlit("f12");
    reveal_strlit("control");
    reveal_strlit("ctrl");
    reveal_strlit("alt");
    reveal_strlit("shift");
    reveal_strlit("meta");
    reveal_strlit("win");
    reveal_strlit("windows");
    lemma_key_names_spell_keys(l, k);
    match k {
        Key::Unicode(c) => {
            assert(l.len() == 1);
        },
        Key::UpArrow => {
            assert(l.len() == 2 && l[0] == 'u' && l[1] == 'p');
            assert(key_vk(k) == Some(v));
        },
        Key::DownArrow => {
            assert(l.len() == 4 && l[0] == 'd' && l[1] == 'o' && l[2] == 'w' && l[3] == 'n');
            assert(key_vk(k) == Some(v));
        },
        Key::LeftArrow => {
            assert(l.len() == 4 && l[0] == 'l' && l[1] == 'e' && l[2] == 'f' && l[3] == 't');
            assert(key_vk(k) == Some(v));
        },
        Key::RightArrow => {
            assert({
                &&& l.len() == 5
                &&& l[0] == 'r'
                &&& l[1] == 'i'
                &&& l[2] == 'g'
                &&& l[3] == 'h'
                &&& l[4] == 't'
            });
            assert(key_vk(k) == Some(v));
        },
        Key::Home => {
            assert(l.len() == 4 && l[0] == 'h' && l[1] == 'o' && l[2] == 'm' && l[3] == 'e');
            assert(key_vk(k) == Some(v));
        },
        Key::End => {
            assert(l.len() == 3 && l[0] == 'e' && l[1] == 'n' && l[2] == 'd');
            assert(key_vk(k) == Some(v));
        },
        Key::PageUp => {
            assert({
                &&& l.len() == 6
                &&& l[0] == 'p'
                &&& l[1] == 'a'
                &&& l[2] == 'g'
                &&& l[3] == 'e'
                &&& l[4] == 'u'
                &&& l[5] == 'p'
            });
            assert(key_vk(k) == Some(v));
        },
        Key::PageDown => {
            assert({
                &&& l.len() == 8
                &&& l[0] == 'p'
                &&& l[1] == 'a'
                &&& l[2] == 'g'
                &&& l[3] == 'e'
                &&& l[4] == 'd'
                &&& l[5] == 'o'
                &&& l[6] == 'w'
                &&& l[7] == 'n'
            });
            assert(key_vk(k) == Some(v));
        },
        Key::Delete => {
            assert({
                &&& l.len() == 6
                &&& l[0] == 'd'
                &&& l[1] == 'e'
                &&& l[2] == 'l'
                &&& l[3] == 'e'
                &&& l[4] == 't'
                &&& l[5] == 'e'
            });
            assert(key_vk(k) == Some(v));
        },
        Key::Escape => {
            if l == "escape"@ {
                assert({
                    &&& l.len() == 6
                    &&& l[0] == 'e'
                    &&& l[1] == 's'
                    &&& l[2] == 'c'
                    &&& l[3] == 'a'
                    &&& l[4] == 'p'
                    &&& l[5] == 'e'
                });
                assert(key_vk(k) == Some(v));
            } else {
                assert(l.len() == 3 && l[0] == 'e' && l[1] == 's' && l[2] == 'c');
                assert(key_vk(k) == Some(v));
            }
        },
        Key::Backspace => {
            assert({
                &&& l.len() == 9
                &&& l[0] == 'b'
                &&& l[1] == 'a'
                &&& l[2] == 'c'
                &&& l[3] == 'k'
                &&& l[4] == 's'
                &&& l[5] == 'p'
                &&& l[6] == 'a'
                &&& l[7] == 'c'
                &&& l[8] == 'e'
            });
            assert(key_vk(k) == Some(v));
        },
        Key::Tab => {
            assert(l.len() == 3 && l[0] == 't' && l[1] == 'a' && l[2] == 'b');
            assert(key_vk(k) == Some(v));
        },
        Key::Return => {
            if l == "enter"@ {
                assert({
                    &&& l.len() == 5
                    &&& l[0] == 'e'
                    &&& l[1] == 'n'
                    &&& l[2] == 't'
                    &&& l[3] == 'e'
                    &&& l[4] == 'r'
                });
                assert(key_vk(k) == Some(v));
            } else {
                assert({
                    &&& l.len() == 6
                    &&& l[0] == 'r'
                    &&& l[1] == 'e'
                    &&& l[2] == 't'
                    &&& l[3] == 'u'
                    &&& l[4] == 'r'
                    &&& l[5] == 'n'
                });
                assert(key_vk(k) == Some(v));
            }
        },
        Key::Space => {
            assert({
                &&& l.len() == 5
                &&& l[0] == 's'
                &&& l[1] == 'p'
                &&& l[2] == 'a'
                &&& l[3] == 'c'
                &&& l[4] == 'e'
            });
            assert(key_vk(k) == Some(v));
        },
        Key::Control => {
            if l == "control"@ {
                assert({
                    &&& l.len() == 7
                    &&& l[0] == 'c'
                    &&& l[1] == 'o'
                    &&& l[2] == 'n'
                    &&& l[3] == 't'
                    &&& l[4] == 'r'
                    &&& l[5] == 'o'
                    &&& l[6] == 'l'
                });
                assert(key_vk(k) == Some(v));
            } else {
                assert(l.len() == 4 && l[0] == 'c' && l[1] == 't' && l[2] == 'r' && l[3] == 'l');
                assert(key_vk(k) == Some(v));
            }
        },
        Key::Alt => {
            assert(l.len() == 3 && l[0] == 'a' && l[1] == 'l' && l[2] == 't');
            assert(key_vk(k) == Some(v));
        },
        Key::Shift => {
            assert({
                &&& l.len() == 5
                &&& l[0] == 's'
                &&& l[1] == 'h'
                &&& l[2] == 'i'
                &&& l[3] == 'f'
                &&& l[4] == 't'
            });
            assert(key_vk(k) == Some(v));
        },
        Key::Meta => {
            if l == "meta"@ {
                assert(l.len() == 4 && l[0] == 'm' && l[1] == 'e' && l[2] == 't' && l[3] == 'a');
                assert(key_vk(k) == Some(v));
            } else if l == "win"@ {
                assert(l.len() == 3 && l[0] == 'w' && l[1] == 'i' && l[2] == 'n');
                assert(key_vk(k) == Some(v));
            } else {
                assert({
                    &&& l.len() == 7
                    &&& l[0] == 'w'
                    &&& l[1] == 'i'
                    &&& l[2] == 'n'
                    &&& l[3] == 'd'
                    &&& l[4] == 'o'
                    &&& l[5] == 'w'
                    &&& l[6] == 's'
                });
                assert(key_vk(k) == Some(v));
            }
        },
        Key::CapsLock => {},
        Key::F1 => {
            assert(l.len() == 2 && l[0] == 'f' && l[1] == '1');
            assert(key_vk(k) == Some(v));
        },
        Key::F2 => {
            assert(l.len() == 2 && l[0] == 'f' && l[1] == '2');
            assert(key_vk(k) == Some(v));
        },
        Key::F3 => {
            assert(l.len() == 2 && l[0] == 'f' && l[1] == '3');
            assert(key_vk(k) == Some(v));
        },
        Key::F4 => {
            assert(l.len() == 2 && l[0] == 'f' && l[1] == '4');
            assert(key_vk(k) == Some(v));
        },
        Key::F5 => {
            assert(l.len() == 2 && l[0] == 'f' && l[1] == '5');
            assert(key_vk(k) == Some(v));
        },
        Key::F6 => {
            assert(l.len() == 2 && l[0] == 'f' && l[1] == '6');
            assert(key_vk(k) == Some(v));
        },
        Key::F7 => {
            assert(l.len() == 2 && l[0] == 'f' && l[1] == '7');
            assert(key_vk(k) == Some(v));
        },
        Key::F8 => {
            assert(l.len() == 2 && l[0] == 'f' && l[1] == '8');
            assert(key_vk(k) == Some(v));
        },
        Key::F9 => {
            assert(l.len() == 2 && l[0] == 'f' && l[1] == '9');
            assert(key_vk(k) == Some(v));
        },
        Key::F10 => {
            assert(l.len() == 3 && l[0] == 'f' && l[1] == '1' && l[2] == '0');
            assert(key_vk(k) == Some(v));
        },
        Key::F11 => {
            assert(l.len() == 3 && l[0] == 'f' && l[1] == '1' && l[2] == '1');
            assert(key_vk(k) == Some(v));
        },
        Key::F12 => {
            assert(l.len() == 3 && l[0] == 'f' && l[1] == '1' && l[2] == '2');
            assert(key_vk(k) == Some(v));
        },
    }
}

/// The name of the function key `F<n>`: `f` and the decimal digits of `n`.
pub open spec fn function_key_name(n: nat) -> Seq<char> {
    if n < 10 {
        seq!['f', digit_char(n)]
    } else {
        seq!['f', digit_char(n / 10), digit_char(n % 10)]
    }
}

/// The decimal digit for `d` (below ten).
pub open spec fn digit_char(d: nat) -> char {
    ((d + 48) as u32) as char
}

/// The function keys `f1` to `f12` denote, as trigger names, the codes from
/// `0x70` (`VK_F1`) up, one apart and so all different, and, as action key
/// names, the keys with those codes.
pub proof fn lemma_function_key_codes(n: nat)
    requires
        1 <= n <= 12,
    ensures
        vk_from_lower(function_key_name(n)) == Some((0x6F + n) as u32),
        key_from_lower(function_key_name(n)) matches Some(k) && key_vk(k) == Some((0x6F + n) as u32),
{
    reveal_strlit("comma");
    reveal_strlit("period");
    reveal_strlit("semicolon");
    reveal_strlit("slash");
    reveal_strlit("backslash");
    reveal_strlit("minus");
    reveal_strlit("equals");
    reveal_strlit("quote");
    reveal_strlit("bracketleft");
    reveal_strlit("bracketright");
    reveal_strlit("backspace");
    reveal_strlit("tab");
    reveal_strlit("enter");
    reveal_strlit("return");
    reveal_strlit("space");
    reveal_strlit("delete");
    reveal_strlit("insert");
    reveal_strlit("home");
    reveal_strlit("end");
    reveal_strlit("pageup");
    reveal_strlit("pagedown");
    reveal_strlit("up");
    reveal_strlit("down");
    reveal_strlit("left");
    reveal_strlit("right");
    reveal_strlit("escape");
    reveal_strlit("esc");
    reveal_strlit("f1");
    reveal_strlit("f2");
    reveal_strlit("f3");
    reveal_strlit("f4");
    reveal_strlit("f5");
    reveal_strlit("f6");
    reveal_strlit("f7");
    reveal_strlit("f8");
    reveal_strlit("f9");
    reveal_strlit("f10");
    reveal_strlit("f11");
    reveal_strlit("f12");
    reveal_strlit("control");
    reveal_strlit("ctrl");
    reveal_strlit("alt");
    reveal_strlit("shift");
    reveal_strlit("meta");
    reveal_strlit("win");
    reveal_strlit("windows");
    let l = function_key_name(n);
    if n == 1 {
        assert(l.len() == 2 && l[0] == 'f' && l[1] == '1');
        assert(l =~= "f1"@);
        lemma_key_names_spell_keys(l, Key::F1);
        assert(vk_from_lower(l) == Some(0x70u32));
        assert(key_from_lower(l) == Some(Key::F1));
    } else if n == 2 {
        assert(l.len() == 2 && l[0] == 'f' && l[1] == '2');
        assert(l =~= "f2"@);
        lemma_key_names_spell_keys(l, Key::F2);
        assert(vk_from_lower(l) == Some(0x71u32));
        assert(key_from_lower(l) == Some(Key::F2));
    } else if n == 3 {
        assert(l.len() == 2 && l[0] == 'f' && l[1] == '3');
        assert(l =~= "f3"@);
        lemma_key_names_spell_keys(l, Key::F3);
        assert(vk_from_lower(l) == Some(0x72u32));
        assert(key_from_lower(l) == Some(Key::F3));
    } else if n == 4 {
        assert(l.len() == 2 && l[0] == 'f' && l[1] == '4');
        assert(l =~= "f4"@);
        lemma_key_names_spell_keys(l, Key::F4);
        assert(vk_from_lower(l) == Some(0x73u32));
        assert(key_from_lower(l) == Some(Key::F4));
    } else if n == 5 {
        assert(l.len() == 2 && l[0] == 'f' && l[1] == '5');
        assert(l =~= "f5"@);
        lemma_key_names_spell_keys(l, Key::F5);
        assert(vk_from_lower(l) == Some(0x74u32));
        assert(key_from_lower(l) == Some(Key::F5));
    } else if n == 6 {
        assert(l.len() == 2 && l[0] == 'f' && l[1] == '6');
        assert(l =~= "f6"@);
        lemma_key_names_spell_keys(l, Key::F6);
        assert(vk_from_lower(l) == Some(0x75u32));
        assert(key_from_lower(l) == Some(Key::F6));
    } else if n == 7 {
        assert(l.len() == 2 && l[0] == 'f' && l[1] == '7');
        assert(l =~= "f7"@);
        lemma_key_names_spell_keys(l, Key::F7);
        assert(vk_from_lower(l) == Some(0x76u32));
        assert(key_from_lower(l) == Some(Key::F7));
    } else if n == 8 {
        assert(l.len() == 2 && l[0] == 'f' && l[1] == '8');
        assert(l =~= "f8"@);
        lemma_key_names_spell_keys(l, Key::F8);
        assert(vk_from_lower(l) == Some(0x77u32));
        assert(key_from_lower(l) == Some(Key::F8));
    } else if n == 9 {
        assert(l.len() == 2 && l[0] == 'f' && l[1] == '9');
        assert(l =~= "f9"@);
        lemma_key_names_spell_keys(l, Key::F9);
        assert(vk_from_lower(l) == Some(0x78u32));
        assert(key_from_lower(l) == Some(Key::F9));
    } else if n == 10 {
        assert(l.len() == 3 && l[0] == 'f' && l[1] == '1' && l[2] == '0');
        assert(l =~= "f10"@);
        lemma_key_names_spell_keys(l, Key::F10);
        assert(vk_from_lower(l) == Some(0x79u32));
        assert(key_from_lower(l) == Some(Key::F10));
    } else if n == 11 {
        assert(l.len() == 3 && l[0] == 'f' && l[1] == '1' && l[2] == '1');
        assert(l =~= "f11"@);
        lemma_key_names_spell_keys(l, Key::F11);
        assert(vk_from_lower(l) == Some(0x7Au32));
        assert(key_from_lower(l) == Some(Key::F11));
    } else if n == 12 {
        assert(l.len() == 3 && l[0] == 'f' && l[1] == '1' && l[2] == '2');
        assert(l =~= "f12"@);
        lemma_key_names_spell_keys(l, Key::F12);
        assert(vk_from_lower(l) == Some(0x7Bu32));
        assert(key_from_lower(l) == Some(Key::F12));
    }
}

/// A printable ASCII letter, digit or punctuation character, as an action
/// key name, denotes the key that types it.
pub proof fn lemma_character_keys(c: char)
    requires
        (c as u32) < 0x80,
        is_ascii_alnum(c) || is_ascii_punct(c),
    ensures
        key_from_lower(seq![c]) == Some(Key::Unicode(c)),
{
    lemma_key_names_spell_keys(seq![c], Key::Unicode(c));
}

/// An ASCII name that denotes both an action key and a trigger key (after
/// trimming, in any letter case) denotes the same key in both roles: the
/// trigger code is the virtual-key code of the action key. For a single
/// letter this is the code of its uppercase form, whichever case is written.
pub proof fn lemma_trigger_codes_match_keys(s: Seq<char>, k: Key, v: u32)
    requires
        is_ascii_text(s),
        key_from_lower(ascii_lowercase(trimmed(s))) == Some(k),
        ascii_vk_of_name(s) == Some(v),
    ensures
        key_vk(k) == Some(v),
{
    let t = trimmed(s);
    let l = ascii_lowercase(t);
    if t.len() == 1 && is_ascii_alnum(t[0]) {
        let c = t[0];
        assert(l =~= seq![ascii_lower_char(c)]);
        lemma_character_keys(ascii_lower_char(c));
        if is_ascii_upper(c) {
            assert((ascii_lower_char(c) as u32) == (c as u32) + 32);
        }
    } else {
        lemma_names_agree(l, k, v);
    }
}

/// The name of the key that types the punctuation character `c`, as a
/// trigger name: `comma`, `period`, `semicolon`, `slash`, `backslash`,
/// `minus`, `equals`, `quote`, `bracketleft`, `bracketright`.
pub open spec fn punct_trigger_name(c: char) -> Option<Seq<char>> {
    if c == ',' {
        Some("comma"@)
    } else if c == '.' {
        Some("period"@)
    } else if c == ';' {
        Some("semicolon"@)
    } else if c == '/' {
        Some("slash"@)
    } else if c == '\\' {
        Some("backslash"@)
    } else if c == '-' {
        Some("minus"@)
    } else if c == '=' {
        Some("equals"@)
    } else if c == '\'' {
        Some("quote"@)
    } else if c == '[' {
        Some("bracketleft"@)
    } else if c == ']' {
        Some("bracketright"@)
    } else {
        None
    }
}

/// A punctuation key named as a trigger denotes the code of the key that
/// types its character, the key that the character itself denotes as an
/// action key name.
pub proof fn lemma_punctuation_codes(c: char)
    requires
        punct_trigger_name(c) is Some,
    ensures
        key_from_lower(seq![c]) == Some(Key::Unicode(c)),
        vk_from_lower(punct_trigger_name(c)->0) == key_vk(Key::Unicode(c)),
        key_vk(Key::Unicode(c)) is Some,
{
    reveal_strlit("comma");
    reveal_strlit("period");
    reveal_strlit("semicolon");
    reveal_strlit("slash");
    reveal_strlit("backslash");
    reveal_strlit("minus");
    reveal_strlit("equals");
    reveal_strlit("quote");
    reveal_strlit("bracketleft");
    reveal_strlit("bracketright");
    reveal_strlit("backspace");
    reveal_strlit("tab");
    reveal_strlit("enter");
    reveal_strlit("return");
    reveal_strlit("space");
    reveal_strlit("delete");
    reveal_strlit("insert");
    reveal_strlit("home");
    reveal_strlit("end");
    reveal_strlit("pageup");
    reveal_strlit("pagedown");
    reveal_strlit("up");
    reveal_strlit("down");
    reveal_strlit("left");
    reveal_strlit("right");
    reveal_strlit("escape");
    reveal_strlit("esc");
    reveal_strlit("f1");
    reveal_strlit("f2");
    reveal_strlit("f3");
    reveal_strlit("f4");
    reveal_strlit("f5");
    reveal_strlit("f6");
    reveal_strlit("f7");
    reveal_strlit("f8");
    reveal_strlit("f9");
    reveal_strlit("f10");
    reveal_strlit("f11");
    reveal_strlit("f12");
    let l = punct_trigger_name(c)->0;
    lemma_character_keys(c);
    if c == ',' {
        assert(l =~= "comma"@);
        assert({
            &&& l.len() == 5
            &&& l[0] == 'c'
            &&& l[1] == 'o'
            &&& l[2] == 'm'
            &&& l[3] == 'm'
            &&& l[4] == 'a'
        });
        assert(vk_from_lower(l) == Some(0xBCu32));
    } else if c == '.' {
        assert(l =~= "period"@);
        assert({
            &&& l.len() == 6
            &&& l[0] == 'p'
            &&& l[1] == 'e'
            &&& l[2] == 'r'
            &&& l[3] == 'i'
            &&& l[4] == 'o'
            &&& l[5] == 'd'
        });
        assert(vk_from_lower(l) == Some(0xBEu32));
    } else if c == ';' {
        assert(l =~= "semicolon"@);
        assert({
            &&& l.len() == 9
            &&& l[0] == 's'
            &&& l[1] == 'e'
            &&& l[2] == 'm'
            &&& l[3] == 'i'
            &&& l[4] == 'c'
            &&& l[5] == 'o'
            &&& l[6] == 'l'
            &&& l[7] == 'o'
            &&& l[8] == 'n'
        });
        assert(vk_from_lower(l) == Some(0xBAu32));
    } else if c == '/' {
        assert(l =~= "slash"@);
        assert({
            &&& l.len() == 5
            &&& l[0] == 's'
            &&& l[1] == 'l'
            &&& l[2] == 'a'
            &&& l[3] == 's'
            &&& l[4] == 'h'
        });
        assert(vk_from_lower(l) == Some(0xBFu32));
    } else if c == '\\' {
        assert(l =~= "backslash"@);
        assert({
            &&& l.len() == 9
            &&& l[0] == 'b'
            &&& l[1] == 'a'
            &&& l[2] == 'c'
            &&& l[3] == 'k'
            &&& l[4] == 's'
            &&& l[5] == 'l'
            &&& l[6] == 'a'
            &&& l[7] == 's'
            &&& l[8] == 'h'
        });
        assert(vk_from_lower(l) == Some(0xDCu32));
    } else if c == '-' {
        assert(l =~= "minus"@);
        assert({
            &&& l.len() == 5
            &&& l[0] == 'm'
            &&& l[1] == 'i'
            &&& l[2] == 'n'
            &&& l[3] == 'u'
            &&& l[4] == 's'
        });
        assert(vk_from_lower(l) == Some(0xBDu32));
    } else if c == '=' {
        assert(l =~= "equals"@);
        assert({
            &&& l.len() == 6
            &&& l[0] == 'e'
            &&& l[1] == 'q'
            &&& l[2] == 'u'
            &&& l[3] == 'a'
            &&& l[4] == 'l'
            &&& l[5] == 's'
        });
        assert(vk_from_lower(l) == Some(0xBBu32));
    } else if c == '\'' {
        assert(l =~= "quote"@);
        assert({
            &&& l.len() == 5
            &&& l[0] == 'q'
            &&& l[1] == 'u'
            &&& l[2] == 'o'
            &&& l[3] == 't'
            &&& l[4] == 'e'
        });
        assert(vk_from_lower(l) == Some(0xDEu32));
    } else if c == '[' {
        assert(l =~= "bracketleft"@);
        assert({
            &&& l.len() == 11
            &&& l[0] == 'b'
            &&& l[1] == 'r'
            &&& l[2] == 'a'
            &&& l[3] == 'c'
            &&& l[4] == 'k'
            &&& l[5] == 'e'
            &&& l[6] == 't'
            &&& l[7] == 'l'
            &&& l[8] == 'e'
            &&& l[9] == 'f'
            &&& l[10] == 't'
        });
        assert(vk_from_lower(l) == Some(0xDBu32));
    } else if c == ']' {
        assert(l =~= "bracketright"@);
        assert({
            &&& l.len() == 12
            &&& l[0] == 'b'
            &&& l[1] == 'r'
            &&& l[2] == 'a'
            &&& l[3] == 'c'
            &&& l[4] == 'k'
            &&& l[5] == 'e'
            &&& l[6] == 't'
            &&& l[7] == 'r'
            &&& l[8] == 'i'
            &&& l[9] == 'g'
            &&& l[10] == 'h'
            &&& l[11] == 't'
        });
        assert(vk_from_lower(l) == Some(0xDDu32));
    }
}

/// Every trigger key name names a key that an action can press, with that
/// key's own code, or a punctuation key, with the code of the key that types
/// its character, or is `insert`, with the code of Insert (`VK_INSERT`).
pub proof fn lemma_trigger_names_name_keys(l: Seq<char>, v: u32)
    requires
        vk_from_lower(l) == Some(v),
    ensures
        (exists|k: Key| #[trigger] key_from_lower(l) == Some(k) && key_vk(k) == Some(v))
            || (exists|c: char| #[trigger] punct_trigger_name(c) == Some(l) && punct_vk(c) == Some(v))
            || (l == "insert"@ && v == 0x2D),
{
    if l == "comma"@ {
        assert(punct_trigger_name(',') == Some(l) && punct_vk(',') == Some(v));
    } else if l == "period"@ {
        assert(punct_trigger_name('.') == Some(l) && punct_vk('.') == Some(v));
    } else if l == "semicolon"@ {
        assert(punct_trigger_name(';') == Some(l) && punct_vk(';') == Some(v));
    } else if l == "slash"@ {
        assert(punct_trigger_name('/') == Some(l) && punct_vk('/') == Some(v));
    } else if l == "backslash"@ {
        assert(punct_trigger_name('\\') == Some(l) && punct_vk('\\') == Some(v));
    } else if l == "minus"@ {
        assert(punct_trigger_name('-') == Some(l) && punct_vk('-') == Some(v));
    } else if l == "equals"@ {
        assert(punct_trigger_name('=') == Some(l) && punct_vk('=') == Some(v));
    } else if l == "quote"@ {
        assert(punct_trigger_name('\'') == Some(l) && punct_vk('\'') == Some(v));
    } else if l == "bracketleft"@ {
        assert(punct_trigger_name('[') == Some(l) && punct_vk('[') == Some(v));
    } else if l == "bracketright"@ {
        assert(punct_trigger_name(']') == Some(l) && punct_vk(']') == Some(v));
    } else if l == "backspace"@ {
        lemma_key_names_spell_keys(l, Key::Backspace);
        assert(key_from_lower(l) == Some(Key::Backspace) && key_vk(Key::Backspace) == Some(v));
    } else if l == "tab"@ {
        lemma_key_names_spell_keys(l, Key::Tab);
        assert(key_from_lower(l) == Some(Key::Tab) && key_vk(Key::Tab) == Some(v));
    } else if l == "enter"@ {
        lemma_key_names_spell_keys(l, Key::Return);
        assert(key_from_lower(l) == Some(Key::Return) && key_vk(Key::Return) == Some(v));
    } else if l == "return"@ {
        lemma_key_names_spell_keys(l, Key::Return);
        assert(key_from_lower(l) == Some(Key::Return) && key_vk(Key::Return) == Some(v));
    } else if l == "space"@ {
        lemma_key_names_spell_keys(l, Key::Space);
        assert(key_from_lower(l) == Some(Key::Space) && key_vk(Key::Space) == Some(v));
    } else if l == "delete"@ {
        lemma_key_names_spell_keys(l, Key::Delete);
        assert(key_from_lower(l) == Some(Key::Delete) && key_vk(Key::Delete) == Some(v));
    } else if l == "insert"@ {
        assert(l == "insert"@);
    } else if l == "home"@ {
        lemma_key_names_spell_keys(l, Key::Home);
        assert(key_from_lower(l) == Some(Key::Home) && key_vk(Key::Home) == Some(v));
    } else if l == "end"@ {
        lemma_key_names_spell_keys(l, Key::End);
        assert(key_from_lower(l) == Some(Key::End) && key_vk(Key::End) == Some(v));
    } else if l == "pageup"@ {
        lemma_key_names_spell_keys(l, Key::PageUp);
        assert(key_from_lower(l) == Some(Key::PageUp) && key_vk(Key::PageUp) == Some(v));
    } else if l == "pagedown"@ {
        lemma_key_names_spell_keys(l, Key::PageDown);
        assert(key_from_lower(l) == Some(Key::PageDown) && key_vk(Key::PageDown) == Some(v));
    } else if l == "up"@ {
        lemma_key_names_spell_keys(l, Key::UpArrow);
        assert(key_from_lower(l) == Some(Key::UpArrow) && key_vk(Key::UpArrow) == Some(v));
    } else if l == "down"@ {
        lemma_key_names_spell_keys(l, Key::DownArrow);
        assert(key_from_lower(l) == Some(Key::DownArrow) && key_vk(Key::DownArrow) == Some(v));
    } else if l == "left"@ {
        lemma_key_names_spell_keys(l, Key::LeftArrow);
        assert(key_from_lower(l) == Some(Key::LeftArrow) && key_vk(Key::LeftArrow) == Some(v));
    } else if l == "right"@ {
        lemma_key_names_spell_keys(l, Key::RightArrow);
        assert(key_from_lower(l) == Some(Key::RightArrow) && key_vk(Key::RightArrow) == Some(v));
    } else if l == "escape"@ {
        lemma_key_names_spell_keys(l, Key::Escape);
        assert(key_from_lower(l) == Some(Key::Escape) && key_vk(Key::Escape) == Some(v));
    } else if l == "esc"@ {
        lemma_key_names_spell_keys(l, Key::Escape);
        assert(key_from_lower(l) == Some(Key::Escape) && key_vk(Key::Escape) == Some(v));
    } else if l == "f1"@ {
        lemma_key_names_spell_keys(l, Key::F1);
        assert(key_from_lower(l) == Some(Key::F1) && key_vk(Key::F1) == Some(v));
    } else if l == "f2"@ {
        lemma_key_names_spell_keys(l, Key::F2);
        assert(key_from_lower(l) == Some(Key::F2) && key_vk(Key::F2) == Some(v));
    } else if l == "f3"@ {
        lemma_key_names_spell_keys(l, Key::F3);
        assert(key_from_lower(l) == Some(Key::F3) && key_vk(Key::F3) == Some(v));
    } else if l == "f4"@ {
        lemma_key_names_spell_keys(l, Key::F4);
        assert(key_from_lower(l) == Some(Key::F4) && key_vk(Key::F4) == Some(v));
    } else if l == "f5"@ {
        lemma_key_names_spell_keys(l, Key::F5);
        assert(key_from_lower(l) == Some(Key::F5) && key_vk(Key::F5) == Some(v));
    } else if l == "f6"@ {
        lemma_key_names_spell_keys(l, Key::F6);
        assert(key_from_lower(l) == Some(Key::F6) && key_vk(Key::F6) == Some(v));
    } else if l == "f7"@ {
        lemma_key_names_spell_keys(l, Key::F7);
        assert(key_from_lower(l) == Some(Key::F7) && key_vk(Key::F7) == Some(v));
    } else if l == "f8"@ {
        lemma_key_names_spell_keys(l, Key::F8);
        assert(key_from_lower(l) == Some(Key::F8) && key_vk(Key::F8) == Some(v));
    } else if l == "f9"@ {
        lemma_key_names_spell_keys(l, Key::F9);
        assert(key_from_lower(l) == Some(Key::F9) && key_vk(Key::F9) == Some(v));
    } else if l == "f10"@ {
        lemma_key_names_spell_keys(l, Key::F10);
        assert(key_from_lower(l) == Some(Key::F10) && key_vk(Key::F10) == Some(v));
    } else if l == "f11"@ {
        lemma_key_names_spell_keys(l, Key::F11);
        assert(key_from_lower(l) == Some(Key::F11) && key_vk(Key::F11) == Some(v));
    } else if l == "f12"@ {
        lemma_key_names_spell_keys(l, Key::F12);
        assert(key_from_lower(l) == Some(Key::F12) && key_vk(Key::F12) == Some(v));
    }
}

} // verus!
