use vstd::prelude::*;

use crate::Failure;

verus! {

/// The family of key-code encodings that a build targets.
#[derive(Clone, Copy, Debug, PartialEq, Eq, Structural)]
pub enum Platform {
    /// Keys are sent as Unicode characters; every character is representable.
    Unicode,
    /// Keys are sent as Windows virtual-key codes.
    Windows,
    /// Keys are sent as macOS hardware key codes.
    MacOs,
}

/// A key as the keyboard layer sees it: a modifier, a platform key code,
/// or a Unicode character.
#[derive(Clone, Copy, Debug, PartialEq, Eq, Structural)]
pub enum LogicalKey {
    Control,
    Shift,
    Alt,
    Meta,
    Other(u32),
    Unicode(char),
}

/// Virtual-key code of a character on Windows, for the supported characters.
pub open spec fn windows_code(c: char) -> Option<u32> {
    match c {
        '0' => Some(0x30),
        '1' => Some(0x31),
        '2' => Some(0x32),
        '3' => Some(0x33),
        '4' => Some(0x34),
        '5' => Some(0x35),
        '6' => Some(0x36),
        '7' => Some(0x37),
        '8' => Some(0x38),
        '9' => Some(0x39),
        'A' => Some(0x41),
        'B' => Some(0x42),
        'C' => Some(0x43),
        'D' => Some(0x44),
        'E' => Some(0x45),
        'F' => Some(0x46),
        'G' => Some(0x47),
        'H' => Some(0x48),
        'I' => Some(0x49),
        'J' => Some(0x4A),
        'K' => Some(0x4B),
        'L' => Some(0x4C),
        'M' => Some(0x4D),
        'N' => Some(0x4E),
        'O' => Some(0x4F),
        'P' => Some(0x50),
        'Q' => Some(0x51),
        'R' => Some(0x52),
        'S' => Some(0x53),
        'T' => Some(0x54),
        'U' => Some(0x55),
        'V' => Some(0x56),
        'W' => Some(0x57),
        'X' => Some(0x58),
        'Y' => Some(0x59),
        'Z' => Some(0x5A),
        '-' => Some(0xBD),
        '=' => Some(0xBB),
        '[' => Some(0xDB),
        ']' => Some(0xDD),
        '\\' => Some(0xDC),
        ';' => Some(0xBA),
        '\'' => Some(0xDE),
        ',' => Some(0xBC),
        '.' => Some(0xBE),
        '/' => Some(0xBF),
        '`' => Some(0xC0),
        _ => None,
    }
}

/// Character of a Windows virtual-key code, for the supported codes.
pub open spec fn windows_char(v: u32) -> Option<char> {
    match v {
        0x30 => Some('0'),
        0x31 => Some('1'),
        0x32 => Some('2'),
        0x33 => Some('3'),
        0x34 => Some('4'),
        0x35 => Some('5'),
        0x36 => Some('6'),
        0x37 => Some('7'),
        0x38 => Some('8'),
        0x39 => Some('9'),
        0x41 => Some('A'),
        0x42 => Some('B'),
        0x43 => Some('C'),
        0x44 => Some('D'),
        0x45 => Some('E'),
        0x46 => Some('F'),
        0x47 => Some('G'),
        0x48 => Some('H'),
        0x49 => Some('I'),
        0x4A => Some('J'),
        0x4B => Some('K'),
        0x4C => Some('L'),
        0x4D => Some('M'),
        0x4E => Some('N'),
        0x4F => Some('O'),
        0x50 => Some('P'),
        0x51 => Some('Q'),
        0x52 => Some('R'),
        0x53 => Some('S'),
        0x54 => Some('T'),
        0x55 => Some('U'),
        0x56 => Some('V'),
        0x57 => Some('W'),
        0x58 => Some('X'),
        0x59 => Some('Y'),
        0x5A => Some('Z'),
        0xBA => Some(';'),
        0xBB => Some('='),
        0xBC => Some(','),
        0xBD => Some('-'),
        0xBE => Some('.'),
        0xBF => Some('/'),
        0xC0 => Some('`'),
        0xDB => Some('['),
        0xDC => Some('\\'),
        0xDD => Some(']'),
        0xDE => Some('\''),
        _ => None,
    }
}

/// Hardware key code of a character on macOS (US layout), for the supported
/// characters.
pub open spec fn macos_code(c: char) -> Option<u32> {
    match c {
        'A' => Some(0),
        'S' => Some(1),
        'D' => Some(2),
        'F' => Some(3),
        'H' => Some(4),
        'G' => Some(5),
        'Z' => Some(6),
        'X' => Some(7),
        'C' => Some(8),
        'V' => Some(9),
        'B' => Some(11),
        'Q' => Some(12),
        'W' => Some(13),
        'E' => Some(14),
        'R' => Some(15),
        'Y' => Some(16),
        'T' => Some(17),
        '1' => Some(18),
        '2' => Some(19),
        '3' => Some(20),
        '4' => Some(21),
        '6' => Some(22),
        '5' => Some(23),
        '=' => Some(24),
        '9' => Some(25),
        '7' => Some(26),
        '-' => Some(27),
        '8' => Some(28),
        '0' => Some(29),
        ']' => Some(30),
        'O' => Some(31),
        'U' => Some(32),
        '[' => Some(33),
        'I' => Some(34),
        'P' => Some(35),
        'L' => Some(37),
        'J' => Some(38),
        '\'' => Some(39),
        'K' => Some(40),
        ';' => Some(41),
        '\\' => Some(42),
        ',' => Some(43),
        '/' => Some(44),
        'N' => Some(45),
        'M' => Some(46),
        '.' => Some(47),
        '`' => Some(50),
        _ => None,
    }
}

/// Character of a macOS hardware key code, for the supported codes.
pub open spec fn macos_char(v: u32) -> Option<char> {
    match v {
        0 => Some('A'),
        1 => Some('S'),
        2 => Some('D'),
        3 => Some('F'),
        4 => Some('H'),
        5 => Some('G'),
        6 => Some('Z'),
        7 => Some('X'),
        8 => Some('C'),
        9 => Some('V'),
        11 => Some('B'),
        12 => Some('Q'),
        13 => Some('W'),
        14 => Some('E'),
        15 => Some('R'),
        16 => Some('Y'),
        17 => Some('T'),
        18 => Some('1'),
        19 => Some('2'),
        20 => Some('3'),
        21 => Some('4'),
        22 => Some('6'),
        23 => Some('5'),
        24 => Some('='),
        25 => Some('9'),
        26 => Some('7'),
        27 => Some('-'),
        28 => Some('8'),
        29 => Some('0'),
        30 => Some(']'),
        31 => Some('O'),
        32 => Some('U'),
        33 => Some('['),
        34 => Some('I'),
        35 => Some('P'),
        37 => Some('L'),
        38 => Some('J'),
        39 => Some('\''),
        40 => Some('K'),
        41 => Some(';'),
        42 => Some('\\'),
        43 => Some(','),
        44 => Some('/'),
        45 => Some('N'),
        46 => Some('M'),
        47 => Some('.'),
        50 => Some('`'),
        _ => None,
    }
}

/// The key that stands for character `c` on platform `p`, if there is one.
pub open spec fn key_for(p: Platform, c: char) -> Option<LogicalKey> {
    match p {
        Platform::Unicode => Some(LogicalKey::Unicode(c)),
        Platform::Windows => match windows_code(c) {
            Some(v) => Some(LogicalKey::Other(v)),
            None => None,
        },
        Platform::MacOs => match macos_code(c) {
            Some(v) => Some(LogicalKey::Other(v)),
            None => None,
        },
    }
}

/// The character that key `k` types on platform `p`, if there is one.
pub open spec fn char_for(p: Platform, k: LogicalKey) -> Option<char> {
    match (p, k) {
        (Platform::Unicode, LogicalKey::Unicode(c)) => Some(c),
        (Platform::Windows, LogicalKey::Other(v)) => windows_char(v),
        (Platform::MacOs, LogicalKey::Other(v)) => macos_char(v),
        _ => None,
    }
}

/// Lower-case hexadecimal digit of `d` (below 16).
pub open spec fn hex_digit(d: nat) -> char {
    if d == 0 {
        '0'
    } else if d == 1 {
        '1'
    } else if d == 2 {
        '2'
    } else if d == 3 {
        '3'
    } else if d == 4 {
        '4'
    } else if d == 5 {
        '5'
    } else if d == 6 {
        '6'
    } else if d == 7 {
        '7'
    } else if d == 8 {
        '8'
    } else if d == 9 {
        '9'
    } else if d == 10 {
        'a'
    } else if d == 11 {
        'b'
    } else if d == 12 {
        'c'
    } else if d == 13 {
        'd'
    } else if d == 14 {
        'e'
    } else {
        'f'
    }
}

/// Lower-case hexadecimal text of `v`, without leading zeros.
pub open spec fn hex_text(v: nat) -> Seq<char>
    decreases v,
{
    if v < 16 {
        seq![hex_digit(v)]
    } else {
        hex_text(v / 16).push(hex_digit(v % 16))
    }
}

/// Decimal text of `v`, without leading zeros.
pub open spec fn dec_text(v: nat) -> Seq<char>
    decreases v,
{
    if v < 10 {
        seq![hex_digit(v)]
    } else {
        dec_text(v / 10).push(hex_digit(v % 10))
    }
}

/// A character as `Debug` writes it: quoted, with escapes.
pub uninterp spec fn char_debug_of(c: char) -> Seq<char>;

/// The `Debug` form of the synthetic-input layer's key for `k`.
pub open spec fn key_debug_text(k: LogicalKey) -> Seq<char> {
    match k {
        LogicalKey::Control => "Control"@,
        LogicalKey::Shift => "Shift"@,
        LogicalKey::Alt => "Alt"@,
        LogicalKey::Meta => "Meta"@,
        LogicalKey::Other(v) => "Other("@ + dec_text(v as nat) + ")"@,
        LogicalKey::Unicode(c) => "Unicode("@ + char_debug_of(c) + ")"@,
    }
}

/// How a key that has no character on platform `p` is named in an error: a
/// key code of the Windows or macOS table by its hexadecimal value, any other
/// key by its `Debug` form.
pub open spec fn unsupported_text(p: Platform, k: LogicalKey) -> Seq<char> {
    match (p, k) {
        (Platform::Windows, LogicalKey::Other(v)) => hex_text(v as nat),
        (Platform::MacOs, LogicalKey::Other(v)) => hex_text(v as nat),
        _ => key_debug_text(k),
    }
}

/// Relies on the derived `Debug` of `enigo::Key`: the variant's name, then
/// the field in parentheses (a code in decimal, a character quoted).
#[verifier::external_body]
fn key_debug(k: LogicalKey) -> (r: String)
    ensures
        r@ == key_debug_text(k),
        k is Unicode ==> r@ == "Unicode("@ + char_debug_of(k->Unicode_0) + ")"@,
{
    let key = match k {
        LogicalKey::Control => enigo::Key::Control,
        LogicalKey::Shift => enigo::Key::Shift,
        LogicalKey::Alt => enigo::Key::Alt,
        LogicalKey::Meta => enigo::Key::Meta,
        LogicalKey::Other(v) => enigo::Key::Other(v),
        LogicalKey::Unicode(c) => enigo::Key::Unicode(c),
    };
    format!("{:?}", key)
}

/// Relies on `char`'s `ToString`: the text of one character.
#[verifier::external_body]
fn char_text(c: char) -> (r: String)
    ensures
        r@ == seq![c],
{
    c.to_string()
}

/// Relies on `format!` with `{:x}`: lower-case hexadecimal, no leading zeros.
#[verifier::external_body]
fn lower_hex(v: u32) -> (r: String)
    ensures
        r@ == hex_text(v as nat),
{
    format!("{:x}", v)
}

fn windows_lookup(c: char) -> (r: Option<u32>)
    ensures
        r == windows_code(c),
{
    match c {
        '0' => Some(0x30),
        '1' => Some(0x31),
        '2' => Some(0x32),
        '3' => Some(0x33),
        '4' => Some(0x34),
        '5' => Some(0x35),
        '6' => Some(0x36),
        '7' => Some(0x37),
        '8' => Some(0x38),
        '9' => Some(0x39),
        'A' => Some(0x41),
        'B' => Some(0x42),
        'C' => Some(0x43),
        'D' => Some(0x44),
        'E' => Some(0x45),
        'F' => Some(0x46),
        'G' => Some(0x47),
        'H' => Some(0x48),
        'I' => Some(0x49),
        'J' => Some(0x4A),
        'K' => Some(0x4B),
        'L' => Some(0x4C),
        'M' => Some(0x4D),
        'N' => Some(0x4E),
        'O' => Some(0x4F),
        'P' => Some(0x50),
        'Q' => Some(0x51),
        'R' => Some(0x52),
        'S' => Some(0x53),
        'T' => Some(0x54),
        'U' => Some(0x55),
        'V' => Some(0x56),
        'W' => Some(0x57),
        'X' => Some(0x58),
        'Y' => Some(0x59),
        'Z' => Some(0x5A),
        '-' => Some(0xBD),
        '=' => Some(0xBB),
        '[' => Some(0xDB),
        ']' => Some(0xDD),
        '\\' => Some(0xDC),
        ';' => Some(0xBA),
        '\'' => Some(0xDE),
        ',' => Some(0xBC),
        '.' => Some(0xBE),
        '/' => Some(0xBF),
        '`' => Some(0xC0),
        _ => None,
    }
}

fn windows_reverse(v: u32) -> (r: Option<char>)
    ensures
        r == windows_char(v),
{
    match v {
        0x30 => Some('0'),
        0x31 => Some('1'),
        0x32 => Some('2'),
        0x33 => Some('3'),
        0x34 => Some('4'),
        0x35 => Some('5'),
        0x36 => Some('6'),
        0x37 => Some('7'),
        0x38 => Some('8'),
        0x39 => Some('9'),
        0x41 => Some('A'),
        0x42 => Some('B'),
        0x43 => Some('C'),
        0x44 => Some('D'),
        0x45 => Some('E'),
        0x46 => Some('F'),
        0x47 => Some('G'),
        0x48 => Some('H'),
        0x49 => Some('I'),
        0x4A => Some('J'),
        0x4B => Some('K'),
        0x4C => Some('L'),
        0x4D => Some('M'),
        0x4E => Some('N'),
        0x4F => Some('O'),
        0x50 => Some('P'),
        0x51 => Some('Q'),
        0x52 => Some('R'),
        0x53 => Some('S'),
        0x54 => Some('T'),
        0x55 => Some('U'),
        0x56 => Some('V'),
        0x57 => Some('W'),
        0x58 => Some('X'),
        0x59 => Some('Y'),
        0x5A => Some('Z'),
        0xBA => Some(';'),
        0xBB => Some('='),
        0xBC => Some(','),
        0xBD => Some('-'),
        0xBE => Some('.'),
        0xBF => Some('/'),
        0xC0 => Some('`'),
        0xDB => Some('['),
        0xDC => Some('\\'),
        0xDD => Some(']'),
        0xDE => Some('\''),
        _ => None,
    }
}

fn macos_lookup(c: char) -> (r: Option<u32>)
    ensures
        r == macos_code(c),
{
    match c {
        'A' => Some(0),
        'S' => Some(1),
        'D' => Some(2),
        'F' => Some(3),
        'H' => Some(4),
        'G' => Some(5),
        'Z' => Some(6),
        'X' => Some(7),
        'C' => Some(8),
        'V' => Some(9),
        'B' => Some(11),
        'Q' => Some(12),
        'W' => Some(13),
        'E' => Some(14),
        'R' => Some(15),
        'Y' => Some(16),
        'T' => Some(17),
        '1' => Some(18),
        '2' => Some(19),
        '3' => Some(20),
        '4' => Some(21),
        '6' => Some(22),
        '5' => Some(23),
        '=' => Some(24),
        '9' => Some(25),
        '7' => Some(26),
        '-' => Some(27),
        '8' => Some(28),
        '0' => Some(29),
        ']' => Some(30),
        'O' => Some(31),
        'U' => Some(32),
        '[' => Some(33),
        'I' => Some(34),
        'P' => Some(35),
        'L' => Some(37),
        'J' => Some(38),
        '\'' => Some(39),
        'K' => Some(40),
        ';' => Some(41),
        '\\' => Some(42),
        ',' => Some(43),
        '/' => Some(44),
        'N' => Some(45),
        'M' => Some(46),
        '.' => Some(47),
        '`' => Some(50),
        _ => None,
    }
}

fn macos_reverse(v: u32) -> (r: Option<char>)
    ensures
        r == macos_char(v),
{
    match v {
        0 => Some('A'),
        1 => Some('S'),
        2 => Some('D'),
        3 => Some('F'),
        4 => Some('H'),
        5 => Some('G'),
        6 => Some('Z'),
        7 => Some('X'),
        8 => Some('C'),
        9 => Some('V'),
        11 => Some('B'),
        12 => Some('Q'),
        13 => Some('W'),
        14 => Some('E'),
        15 => Some('R'),
        16 => Some('Y'),
        17 => Some('T'),
        18 => Some('1'),
        19 => Some('2'),
        20 => Some('3'),
        21 => Some('4'),
        22 => Some('6'),
        23 => Some('5'),
        24 => Some('='),
        25 => Some('9'),
        26 => Some('7'),
        27 => Some('-'),
        28 => Some('8'),
        29 => Some('0'),
        30 => Some(']'),
        31 => Some('O'),
        32 => Some('U'),
        33 => Some('['),
        34 => Some('I'),
        35 => Some('P'),
        37 => Some('L'),
        38 => Some('J'),
        39 => Some('\''),
        40 => Some('K'),
        41 => Some(';'),
        42 => Some('\\'),
        43 => Some(','),
        44 => Some('/'),
        45 => Some('N'),
        46 => Some('M'),
        47 => Some('.'),
        50 => Some('`'),
        _ => None,
    }
}

/// The key for character `key` on platform `p`; a character outside the
/// platform's table is `UnsupportedKey` naming that character.
pub fn key_of(p: Platform, key: char) -> (r: Result<LogicalKey, Failure>)
    ensures
        match r {
            Ok(k) => key_for(p, key) == Some(k),
            Err(e) => key_for(p, key) is None && e is UnsupportedKey
                && e->UnsupportedKey_0@ == seq![key],
        },
{
    let code = match p {
        Platform::Unicode => {
            return Ok(LogicalKey::Unicode(key));
        },
        Platform::Windows => windows_lookup(key),
        Platform::MacOs => macos_lookup(key),
    };
    match code {
        Some(v) => Ok(LogicalKey::Other(v)),
        None => Err(Failure::UnsupportedKey(char_text(key))),
    }
}

/// The character that `key` types on platform `p`, as text; a key without one
/// is `UnsupportedKey`, naming a key code by its hexadecimal value.
pub fn key_to_string(p: Platform, key: &LogicalKey) -> (r: Result<String, Failure>)
    ensures
        match r {
            Ok(s) => char_for(p, *key) is Some && s@ == seq![char_for(p, *key)->0],
            Err(e) => char_for(p, *key) is None && e is UnsupportedKey
                && e->UnsupportedKey_0@ == unsupported_text(p, *key),
        },
{
    let found = match (p, *key) {
        (Platform::Unicode, LogicalKey::Unicode(c)) => Some(c),
        (Platform::Windows, LogicalKey::Other(v)) => windows_reverse(v),
        (Platform::MacOs, LogicalKey::Other(v)) => macos_reverse(v),
        _ => None,
    };
    match found {
        Some(c) => Ok(char_text(c)),
        None => {
            let name = match (p, *key) {
                (Platform::Windows, LogicalKey::Other(v)) => lower_hex(v),
                (Platform::MacOs, LogicalKey::Other(v)) => lower_hex(v),
                _ => key_debug(*key),
            };
            Err(Failure::UnsupportedKey(name))
        },
    }
}

/// The Windows table is one-to-one: a supported character comes back from its
/// code, and a code that names a character is that character's code. Hence a
/// character outside the table fails in both directions.
pub proof fn lemma_windows_round_trip(c: char, v: u32)
    ensures
        windows_code(c) == Some(v) ==> windows_char(v) == Some(c),
        windows_char(v) == Some(c) ==> windows_code(c) == Some(v),
        windows_code(c) is None ==> forall|w: u32| windows_char(w) != Some(c),
{
    assert forall|w: u32| windows_code(c) is None implies windows_char(w) != Some(c) by {
        if windows_char(w) == Some(c) {
            assert(windows_code(c) == Some(w));
        }
    }
}

/// The macOS table is one-to-one in the same way as the Windows table.
pub proof fn lemma_macos_round_trip(c: char, v: u32)
    ensures
        macos_code(c) == Some(v) ==> macos_char(v) == Some(c),
        macos_char(v) == Some(c) ==> macos_code(c) == Some(v),
        macos_code(c) is None ==> forall|w: u32| macos_char(w) != Some(c),
{
    assert forall|w: u32| macos_code(c) is None implies macos_char(w) != Some(c) by {
        if macos_char(w) == Some(c) {
            assert(macos_code(c) == Some(w));
        }
    }
}

/// On every platform, a character that has a key is typed back by that key.
pub proof fn lemma_key_round_trip(p: Platform, c: char)
    ensures
        key_for(p, c) is Some ==> char_for(p, key_for(p, c)->0) == Some(c),
{
    match p {
        Platform::Windows => {
            if let Some(v) = windows_code(c) {
                lemma_windows_round_trip(c, v);
            }
        },
        Platform::MacOs => {
            if let Some(v) = macos_code(c) {
                lemma_macos_round_trip(c, v);
            }
        },
        Platform::Unicode => {},
    }
}

} // verus!
