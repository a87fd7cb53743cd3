//! The key symbol table: from numeric key codes to readable names.

use crate::text::{decimal, push_char, push_decimal};
use vstd::prelude::*;
use vstd::string::StringExecFns;

verus! {

/// The keys of the top letter row, by rising code from 16.
pub open spec fn top_row() -> Seq<char> {
    "QWERTYUIOP"@
}

/// The keys of the home row, by rising code from 30.
pub open spec fn home_row() -> Seq<char> {
    "ASDFGHJKL"@
}

/// The keys of the bottom row, by rising code from 44.
pub open spec fn bottom_row() -> Seq<char> {
    "ZXCVBNM,./"@
}

/// The readable name of the key with the given code.
///
/// Codes without an entry get the name `KEY_` followed by the code in
/// decimal.
pub open spec fn key_name(code: u16) -> Seq<char> {
    if code == 1 {
        "ESC"@
    } else if 2 <= code <= 11 {
        decimal((code - 1) as nat)
    } else if code == 12 {
        "0"@
    } else if code == 13 {
        "-"@
    } else if code == 14 {
        "BACKSPACE"@
    } else if code == 15 {
        "TAB"@
    } else if 16 <= code <= 25 {
        seq![top_row()[code - 16]]
    } else if code == 26 {
        "["@
    } else if code == 27 {
        "]"@
    } else if code == 28 || code == 96 {
        "ENTER"@
    } else if code == 29 || code == 97 {
        "CTRL"@
    } else if 30 <= code <= 38 {
        seq![home_row()[code - 30]]
    } else if code == 39 {
        ";"@
    } else if code == 40 {
        "'"@
    } else if code == 41 {
        "`"@
    } else if code == 42 {
        "LSHIFT"@
    } else if code == 43 {
        "\\"@
    } else if 44 <= code <= 53 {
        seq![bottom_row()[code - 44]]
    } else if code == 54 {
        "RSHIFT"@
    } else if code == 55 {
        "NUM*"@
    } else if code == 56 || code == 100 {
        "ALT"@
    } else if code == 57 {
        "SPACE"@
    } else if code == 58 {
        "CAPSLOCK"@
    } else if 59 <= code <= 68 {
        "F"@ + decimal((code - 58) as nat)
    } else if code == 87 {
        "F11"@
    } else if code == 88 {
        "F12"@
    } else if code == 98 {
        "NUM/"@
    } else if code == 99 {
        "PrtSc"@
    } else if code == 102 {
        "HOME"@
    } else if code == 103 {
        "UP"@
    } else if code == 104 {
        "PGUP"@
    } else if code == 105 {
        "LEFT"@
    } else if code == 106 {
        "RIGHT"@
    } else if code == 107 {
        "END"@
    } else if code == 108 {
        "DOWN"@
    } else if code == 109 {
        "PGDOWN"@
    } else if code == 110 {
        "INS"@
    } else if code == 111 {
        "DEL"@
    } else if code == 125 {
        "WIN"@
    } else if code == 272 {
        "MOUSE-LEFT"@
    } else if code == 273 {
        "MOUSE-RIGHT"@
    } else if code == 274 {
        "MOUSE-MIDDLE"@
    } else {
        "KEY_"@ + decimal(code as nat)
    }
}

/// The one-character name of the key at `offset` in a row of letter keys.
fn row_key(row: &str, offset: usize) -> (s: String)
    requires
        offset < row@.len(),
    ensures
        s@ == seq![row@[offset as int]],
{
    let mut s = String::new();
    push_char(&mut s, row.get_char(offset));
    s
}

/// `prefix` followed by the decimal numeral of `n`.
fn numbered(prefix: &str, n: u64) -> (s: String)
    ensures
        s@ == prefix@ + decimal(n as nat),
{
    let mut s = String::from_str(prefix);
    push_decimal(&mut s, n);
    s
}

/// Converts a key code to its readable name.
pub fn key_to_string(code: u16) -> (name: String)
    ensures
        name@ == key_name(code),
{
    proof {
        reveal_strlit("QWERTYUIOP");
        reveal_strlit("ASDFGHJKL");
        reveal_strlit("ZXCVBNM,./");
        reveal_strlit("");
    }
    match code {
        1 => String::from_str("ESC"),
        2..=11 => {
            let s = numbered("", (code - 1) as u64);
            assert(""@ + decimal((code - 1) as nat) == decimal((code - 1) as nat));
            s
        },
        12 => String::from_str("0"),
        13 => String::from_str("-"),
        14 => String::from_str("BACKSPACE"),
        15 => String::from_str("TAB"),
        16..=25 => row_key("QWERTYUIOP", (code - 16) as usize),
        26 => String::from_str("["),
        27 => String::from_str("]"),
        28 => String::from_str("ENTER"),
        29 => String::from_str("CTRL"),
        30..=38 => row_key("ASDFGHJKL", (code - 30) as usize),
        39 => String::from_str(";"),
        40 => String::from_str("'"),
        41 => String::from_str("`"),
        42 => String::from_str("LSHIFT"),
        43 => String::from_str("\\"),
        44..=53 => row_key("ZXCVBNM,./", (code - 44) as usize),
        54 => String::from_str("RSHIFT"),
        55 => String::from_str("NUM*"),
        56 => String::from_str("ALT"),
        57 => String::from_str("SPACE"),
        58 => String::from_str("CAPSLOCK"),
        59..=68 => numbered("F", (code - 58) as u64),
        87 => String::from_str("F11"),
        88 => String::from_str("F12"),
        96 => String::from_str("ENTER"),
        97 => String::from_str("CTRL"),
        98 => String::from_str("NUM/"),
        99 => String::from_str("PrtSc"),
        100 => String::from_str("ALT"),
        102 => String::from_str("HOME"),
        103 => String::from_str("UP"),
        104 => String::from_str("PGUP"),
        105 => String::from_str("LEFT"),
        106 => String::from_str("RIGHT"),
        107 => String::from_str("END"),
        108 => String::from_str("DOWN"),
        109 => String::from_str("PGDOWN"),
        110 => String::from_str("INS"),
        111 => String::from_str("DEL"),
        125 => String::from_str("WIN"),
        272 => String::from_str("MOUSE-LEFT"),
        273 => String::from_str("MOUSE-RIGHT"),
        274 => String::from_str("MOUSE-MIDDLE"),
        _ => numbered("KEY_", code as u64),
    }
}

} // verus!
