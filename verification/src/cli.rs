//! The command line arguments and the bytes a key sends to a running
//! command.
use crate::ui::theme::{ascii_lower_code, ascii_lower_code_exec};
use crate::text::from_chars;
use vstd::prelude::*;
use vstd::utf8::encode_utf8;

verus! {

/// The command line: a directory to search (`--path`), a single script file
/// (`--file`), or a debug listing (`--debug`).
#[derive(Debug, Clone, PartialEq, Eq)]
pub struct Args {
    pub path: Option<String>,
    pub file: Option<String>,
    pub debug: bool,
}

/// A key, as the terminal reports it.
#[derive(Debug, Clone, Copy, PartialEq, Eq, Structural)]
pub enum KeyCode {
    Char(char),
    Enter,
    Backspace,
    Delete,
    Up,
    Down,
    Right,
    Left,
    Home,
    End,
    PageUp,
    PageDown,
    Tab,
    Esc,
    Insert,
    F(u8),
    /// Any other key.
    Other,
}

/// A key press: the key and whether Control was held.
#[derive(Debug, Clone, Copy, PartialEq, Eq, Structural)]
pub struct Key {
    pub code: KeyCode,
    pub ctrl: bool,
}

/// The control byte for Ctrl with a character: the low byte of the
/// lowercased character minus `a` plus one, wrapping (`Ctrl+A` is 1,
/// `Ctrl+Z` is 26).
pub open spec fn ctrl_byte(c: char) -> u8 {
    (((ascii_lower_code(c) % 256) + 256 - 97 + 1) % 256) as u8
}

/// The bytes a key sends to a running command: a character as UTF-8, a
/// control character for `Ctrl` with a letter, and the usual escape
/// sequences for the special keys; nothing for the others.
pub open spec fn key_bytes(k: Key) -> Seq<u8> {
    match k.code {
        KeyCode::Char(c) => if k.ctrl {
            if ctrl_byte(c) <= 26 {
                seq![ctrl_byte(c)]
            } else {
                Seq::empty()
            }
        } else {
            encode_utf8(seq![c])
        },
        KeyCode::Enter => seq![13u8],
        KeyCode::Backspace => seq![0x7fu8],
        KeyCode::Delete => seq![0x1bu8, 0x5bu8, 0x33u8, 0x7eu8],
        KeyCode::Up => seq![0x1bu8, 0x5bu8, 0x41u8],
        KeyCode::Down => seq![0x1bu8, 0x5bu8, 0x42u8],
        KeyCode::Right => seq![0x1bu8, 0x5bu8, 0x43u8],
        KeyCode::Left => seq![0x1bu8, 0x5bu8, 0x44u8],
        KeyCode::Home => seq![0x1bu8, 0x5bu8, 0x48u8],
        KeyCode::End => seq![0x1bu8, 0x5bu8, 0x46u8],
        KeyCode::PageUp => seq![0x1bu8, 0x5bu8, 0x35u8, 0x7eu8],
        KeyCode::PageDown => seq![0x1bu8, 0x5bu8, 0x36u8, 0x7eu8],
        KeyCode::Tab => seq![9u8],
        KeyCode::Esc => seq![0x1bu8],
        KeyCode::Insert => seq![0x1bu8, 0x5bu8, 0x32u8, 0x7eu8],
        KeyCode::F(n) => function_key_bytes(n),
        KeyCode::Other => Seq::empty(),
    }
}

/// The sequences of `F1` to `F12` (`ESC O P` ... `ESC [ 2 4 ~`).
pub open spec fn function_key_bytes(n: u8) -> Seq<u8> {
    if n == 1 {
        seq![0x1bu8, 0x4fu8, 0x50u8]
    } else if n == 2 {
        seq![0x1bu8, 0x4fu8, 0x51u8]
    } else if n == 3 {
        seq![0x1bu8, 0x4fu8, 0x52u8]
    } else if n == 4 {
        seq![0x1bu8, 0x4fu8, 0x53u8]
    } else if n == 5 {
        seq![0x1bu8, 0x5bu8, 0x31u8, 0x35u8, 0x7eu8]
    } else if n == 6 {
        seq![0x1bu8, 0x5bu8, 0x31u8, 0x37u8, 0x7eu8]
    } else if n == 7 {
        seq![0x1bu8, 0x5bu8, 0x31u8, 0x38u8, 0x7eu8]
    } else if n == 8 {
        seq![0x1bu8, 0x5bu8, 0x31u8, 0x39u8, 0x7eu8]
    } else if n == 9 {
        seq![0x1bu8, 0x5bu8, 0x32u8, 0x30u8, 0x7eu8]
    } else if n == 10 {
        seq![0x1bu8, 0x5bu8, 0x32u8, 0x31u8, 0x7eu8]
    } else if n == 11 {
        seq![0x1bu8, 0x5bu8, 0x32u8, 0x33u8, 0x7eu8]
    } else if n == 12 {
        seq![0x1bu8, 0x5bu8, 0x32u8, 0x34u8, 0x7eu8]
    } else {
        Seq::empty()
    }
}

fn bytes_of(b: &[u8]) -> (r: Vec<u8>)
    ensures
        r@ == b@,
{
    let mut r: Vec<u8> = Vec::new();
    let mut i: usize = 0;
    while i < b.len()
        invariant
            i <= b@.len(),
            r@ == b@.take(i as int),
        decreases b.len() - i,
    {
        r.push(b[i]);
        assert(r@ =~= b@.take(i + 1));
        i = i + 1;
    }
    assert(b@.take(b@.len() as int) =~= b@);
    r
}

fn utf8_of(c: char) -> (r: Vec<u8>)
    ensures
        r@ == encode_utf8(seq![c]),
{
    let mut cs: Vec<char> = Vec::new();
    cs.push(c);
    let s = from_chars(cs.as_slice());
    assert(s@ =~= seq![c]);
    let b = s.as_str().as_bytes();
    bytes_of(b)
}

fn function_key_exec(n: u8) -> (r: Vec<u8>)
    ensures
        r@ == function_key_bytes(n),
{
    let r = if n == 1 {
        vec![0x1bu8, 0x4fu8, 0x50u8]
    } else if n == 2 {
        vec![0x1bu8, 0x4fu8, 0x51u8]
    } else if n == 3 {
        vec![0x1bu8, 0x4fu8, 0x52u8]
    } else if n == 4 {
        vec![0x1bu8, 0x4fu8, 0x53u8]
    } else if n == 5 {
        vec![0x1bu8, 0x5bu8, 0x31u8, 0x35u8, 0x7eu8]
    } else if n == 6 {
        vec![0x1bu8, 0x5bu8, 0x31u8, 0x37u8, 0x7eu8]
    } else if n == 7 {
        vec![0x1bu8, 0x5bu8, 0x31u8, 0x38u8, 0x7eu8]
    } else if n == 8 {
        vec![0x1bu8, 0x5bu8, 0x31u8, 0x39u8, 0x7eu8]
    } else if n == 9 {
        vec![0x1bu8, 0x5bu8, 0x32u8, 0x30u8, 0x7eu8]
    } else if n == 10 {
        vec![0x1bu8, 0x5bu8, 0x32u8, 0x31u8, 0x7eu8]
    } else if n == 11 {
        vec![0x1bu8, 0x5bu8, 0x32u8, 0x33u8, 0x7eu8]
    } else if n == 12 {
        vec![0x1bu8, 0x5bu8, 0x32u8, 0x34u8, 0x7eu8]
    } else {
        Vec::new()
    };
    assert(r@ =~= function_key_bytes(n));
    r
}

/// The bytes to write to a running command for a key press.
pub fn key_event_to_bytes(key: &Key) -> (r: Vec<u8>)
    ensures
        r@ == key_bytes(*key),
{
    let r = match key.code {
        KeyCode::Char(c) => {
            if key.ctrl {
                let low = (ascii_lower_code_exec(c) % 256) as u8;
                let b = low.wrapping_sub(97u8).wrapping_add(1u8);
                assert(b == ctrl_byte(c)) by {
                    assert(low as int == ascii_lower_code(c) % 256);
                }
                if b <= 26 {
                    vec![b]
                } else {
                    Vec::new()
                }
            } else {
                utf8_of(c)
            }
        },
        KeyCode::Enter => vec![13u8],
        KeyCode::Backspace => vec![0x7fu8],
        KeyCode::Delete => vec![0x1bu8, 0x5bu8, 0x33u8, 0x7eu8],
        KeyCode::Up => vec![0x1bu8, 0x5bu8, 0x41u8],
        KeyCode::Down => vec![0x1bu8, 0x5bu8, 0x42u8],
        KeyCode::Right => vec![0x1bu8, 0x5bu8, 0x43u8],
        KeyCode::Left => vec![0x1bu8, 0x5bu8, 0x44u8],
        KeyCode::Home => vec![0x1bu8, 0x5bu8, 0x48u8],
        KeyCode::End => vec![0x1bu8, 0x5bu8, 0x46u8],
        KeyCode::PageUp => vec![0x1bu8, 0x5bu8, 0x35u8, 0x7eu8],
        KeyCode::PageDown => vec![0x1bu8, 0x5bu8, 0x36u8, 0x7eu8],
        KeyCode::Tab => vec![9u8],
        KeyCode::Esc => vec![0x1bu8],
        KeyCode::Insert => vec![0x1bu8, 0x5bu8, 0x32u8, 0x7eu8],
        KeyCode::F(n) => function_key_exec(n),
        KeyCode::Other => Vec::new(),
    };
    assert(r@ =~= key_bytes(*key));
    r
}

/// Control with a letter, of either case, sends that letter's place in the
/// alphabet: `Ctrl+A` is 1, ..., `Ctrl+Z` is 26.
pub proof fn lemma_ctrl_letters(c: char)
    requires
        ('a' <= c && c <= 'z') || ('A' <= c && c <= 'Z'),
    ensures
        key_bytes(Key { code: KeyCode::Char(c), ctrl: true }) == seq![
            (if c <= 'Z' {
                (c as u32) - ('A' as u32) + 1
            } else {
                (c as u32) - ('a' as u32) + 1
            }) as u8,
        ],
{
}

} // verus!

