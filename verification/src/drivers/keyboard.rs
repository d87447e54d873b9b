use vstd::prelude::*;
use vstd::utf8::encode_utf8;
use crate::text::{char_to_string, to_uppercase, str_uppercase};

verus! {

/// What a key stands for.
#[derive(Copy, Clone, PartialEq, Eq, Structural, Debug)]
pub enum ScanCodeType {
    Digit(u8),
    Character(char),
    Shift,
    Backspace,
    Enter,
    Space,
    Quote,
}

/// A key that was pressed or released.
#[derive(Copy, Clone, PartialEq, Eq, Structural, Debug)]
pub struct ScanCode {
    pub released: bool,
    pub scan_code_type: ScanCodeType,
}

/// Keys that do not stand for a character.
#[derive(Copy, Clone, PartialEq, Eq, Structural, Debug)]
pub enum ScanCodeError {
    BackspaceScancode,
    InvalidScancode,
}

/// The first byte of the UTF-8 form of `s`, read as a character.
pub open spec fn first_byte_char(s: Seq<char>) -> char {
    encode_utf8(s)[0] as char
}

/// The character a key gives; upper case when `is_uppercase`.
pub open spec fn char_of(code: ScanCodeType, is_uppercase: bool) -> Result<char, ScanCodeError> {
    match code {
        ScanCodeType::Digit(digit) => Ok(((48 + digit) as u8) as char),
        ScanCodeType::Character(c) => Ok(
            first_byte_char(
                if is_uppercase {
                    str_uppercase(seq![c])
                } else {
                    seq![c]
                },
            ),
        ),
        ScanCodeType::Enter => Ok('\n'),
        ScanCodeType::Quote => Ok(
            if is_uppercase {
                '"'
            } else {
                '\''
            },
        ),
        ScanCodeType::Space => Ok(' '),
        ScanCodeType::Backspace => Err(ScanCodeError::BackspaceScancode),
        ScanCodeType::Shift => Err(ScanCodeError::InvalidScancode),
    }
}

impl ScanCode {
    /// A pressed key.
    pub fn new(scan_code_type: ScanCodeType) -> (r: Self)
        ensures
            r == (ScanCode { released: false, scan_code_type }),
    {
        ScanCode { released: false, scan_code_type }
    }

    /// The same key, released.
    pub fn released(&self) -> (r: Self)
        ensures
            r == (ScanCode { released: true, scan_code_type: self.scan_code_type }),
    {
        ScanCode { released: true, scan_code_type: self.scan_code_type }
    }

    /// The character the key gives: digits and letters (upper case when
    /// `is_uppercase`; the first byte of the upper-case form of other
    /// characters), newline, space and quotes; backspace and shift give none.
    pub fn get_char(&self, is_uppercase: bool) -> (r: Result<char, ScanCodeError>)
        requires
            self.scan_code_type matches ScanCodeType::Digit(d) ==> d <= 207,
        ensures
            r == char_of(self.scan_code_type, is_uppercase),
    {
        let c = match self.scan_code_type {
            ScanCodeType::Digit(digit) => (48u8 + digit) as char,
            ScanCodeType::Character(character) => {
                let character = char_to_string(character);
                let character = if is_uppercase {
                    to_uppercase(character.as_str())
                } else {
                    character
                };
                proof {
                    vstd::utf8::encode_utf8_first_scalar(character@);
                }
                character.as_str().as_bytes()[0] as char
            },
            ScanCodeType::Enter => '\n',
            ScanCodeType::Quote => if is_uppercase {
                '"'
            } else {
                '\''
            },
            ScanCodeType::Space => ' ',
            ScanCodeType::Backspace => {
                return Err(ScanCodeError::BackspaceScancode);
            },
            _ => {
                return Err(ScanCodeError::InvalidScancode);
            },
        };
        Ok(c)
    }
}

impl ScanCode {
    /// The key as text: its character, or nothing for a key without one.
    pub fn to_text(&self, is_uppercase: bool) -> (r: String)
        requires
            self.scan_code_type matches ScanCodeType::Digit(d) ==> d <= 207,
        ensures
            r@ == match char_of(self.scan_code_type, is_uppercase) {
                Ok(c) => seq![c],
                Err(_) => Seq::<char>::empty(),
            },
    {
        match self.get_char(is_uppercase) {
            Ok(c) => char_to_string(c),
            Err(_) => String::new(),
        }
    }
}

/// The byte that the keyboard controller sends for a key.
pub struct RawScanCode(pub u8);

/// The key that a scan code of scan-code set 1 stands for, if it is one this
/// keyboard knows: digits, letters, punctuation, enter, space and backspace
/// when pressed, and both shift keys when pressed or released.
pub open spec fn scancode_spec(v: u8) -> Option<ScanCode> {
    let pressed = |t: ScanCodeType| Some(ScanCode { released: false, scan_code_type: t });
    if 0x02 <= v <= 0x0B {
        pressed(ScanCodeType::Digit((v - 1) as u8))
    } else {
        match v {
            0x0C => pressed(ScanCodeType::Digit(0)),
            0x0E => pressed(ScanCodeType::Backspace),
            0x10 => pressed(ScanCodeType::Character('q')),
            0x11 => pressed(ScanCodeType::Character('w')),
            0x12 => pressed(ScanCodeType::Character('e')),
            0x13 => pressed(ScanCodeType::Character('r')),
            0x14 => pressed(ScanCodeType::Character('t')),
            0x15 => pressed(ScanCodeType::Character('y')),
            0x16 => pressed(ScanCodeType::Character('u')),
            0x17 => pressed(ScanCodeType::Character('i')),
            0x18 => pressed(ScanCodeType::Character('o')),
            0x19 => pressed(ScanCodeType::Character('p')),
            0x1E => pressed(ScanCodeType::Character('a')),
            0x1F => pressed(ScanCodeType::Character('s')),
            0x20 => pressed(ScanCodeType::Character('d')),
            0x21 => pressed(ScanCodeType::Character('f')),
            0x22 => pressed(ScanCodeType::Character('g')),
            0x23 => pressed(ScanCodeType::Character('h')),
            0x24 => pressed(ScanCodeType::Character('j')),
            0x25 => pressed(ScanCodeType::Character('k')),
            0x26 => pressed(ScanCodeType::Character('l')),
            0x28 => pressed(ScanCodeType::Quote),
            0x2A => pressed(ScanCodeType::Shift),
            0x2B => pressed(ScanCodeType::Character('\\')),
            0x2C => pressed(ScanCodeType::Character('z')),
            0x2D => pressed(ScanCodeType::Character('x')),
            0x2E => pressed(ScanCodeType::Character('c')),
            0x2F => pressed(ScanCodeType::Character('v')),
            0x30 => pressed(ScanCodeType::Character('b')),
            0x31 => pressed(ScanCodeType::Character('n')),
            0x32 => pressed(ScanCodeType::Character('m')),
            0x33 => pressed(ScanCodeType::Character(',')),
            0x34 => pressed(ScanCodeType::Character('.')),
            0x35 => pressed(ScanCodeType::Character('/')),
            0x36 => pressed(ScanCodeType::Shift),
            0xAA => Some(ScanCode { released: true, scan_code_type: ScanCodeType::Shift }),
            0xB6 => Some(ScanCode { released: true, scan_code_type: ScanCodeType::Shift }),
            0x1C => pressed(ScanCodeType::Enter),
            0x39 => pressed(ScanCodeType::Space),
            _ => None,
        }
    }
}

impl RawScanCode {
    /// The key that this scan code stands for (see `scancode_spec`).
    pub fn get_scancode(&self) -> (r: Option<ScanCode>)
        ensures
            r == scancode_spec(self.0),
    {
        let scancode = match self.0 {
            0x02..=0x0B => ScanCode::new(ScanCodeType::Digit(self.0 - 0x01)),
            0x0C => ScanCode::new(ScanCodeType::Digit(0)),
            0x0E => ScanCode::new(ScanCodeType::Backspace),
            0x10 => ScanCode::new(ScanCodeType::Character('q')),
            0x11 => ScanCode::new(ScanCodeType::Character('w')),
            0x12 => ScanCode::new(ScanCodeType::Character('e')),
            0x13 => ScanCode::new(ScanCodeType::Character('r')),
            0x14 => ScanCode::new(ScanCodeType::Character('t')),
            0x15 => ScanCode::new(ScanCodeType::Character('y')),
            0x16 => ScanCode::new(ScanCodeType::Character('u')),
            0x17 => ScanCode::new(ScanCodeType::Character('i')),
            0x18 => ScanCode::new(ScanCodeType::Character('o')),
            0x19 => ScanCode::new(ScanCodeType::Character('p')),
            0x1E => ScanCode::new(ScanCodeType::Character('a')),
            0x1F => ScanCode::new(ScanCodeType::Character('s')),
            0x20 => ScanCode::new(ScanCodeType::Character('d')),
            0x21 => ScanCode::new(ScanCodeType::Character('f')),
            0x22 => ScanCode::new(ScanCodeType::Character('g')),
            0x23 => ScanCode::new(ScanCodeType::Character('h')),
            0x24 => ScanCode::new(ScanCodeType::Character('j')),
            0x25 => ScanCode::new(ScanCodeType::Character('k')),
            0x26 => ScanCode::new(ScanCodeType::Character('l')),
            0x28 => ScanCode::new(ScanCodeType::Quote),
            0x2A => ScanCode::new(ScanCodeType::Shift),
            0x2B => ScanCode::new(ScanCodeType::Character('\\')),
            0x2C => ScanCode::new(ScanCodeType::Character('z')),
            0x2D => ScanCode::new(ScanCodeType::Character('x')),
            0x2E => ScanCode::new(ScanCodeType::Character('c')),
            0x2F => ScanCode::new(ScanCodeType::Character('v')),
            0x30 => ScanCode::new(ScanCodeType::Character('b')),
            0x31 => ScanCode::new(ScanCodeType::Character('n')),
            0x32 => ScanCode::new(ScanCodeType::Character('m')),
            0x33 => ScanCode::new(ScanCodeType::Character(',')),
            0x34 => ScanCode::new(ScanCodeType::Character('.')),
            0x35 => ScanCode::new(ScanCodeType::Character('/')),
            0x36 => ScanCode::new(ScanCodeType::Shift),
            0xAA => ScanCode::new(ScanCodeType::Shift).released(),
            0xB6 => ScanCode::new(ScanCodeType::Shift).released(),
            0x1C => ScanCode::new(ScanCodeType::Enter),
            0x39 => ScanCode::new(ScanCodeType::Space),
            _ => {
                return None;
            },
        };
        Some(scancode)
    }
}

/// The key that the scan code `scancode_value`, read from the keyboard
/// controller, stands for.
pub fn get_scancode(scancode_value: u8) -> (r: Option<ScanCode>)
    ensures
        r == scancode_spec(scancode_value),
{
    let raw_scancode = RawScanCode(scancode_value);
    raw_scancode.get_scancode()
}

/// The state of the keyboard between scan codes: whether shift is held.
#[derive(Copy, Clone, PartialEq, Eq, Structural, Debug)]
pub struct KeyboardState {
    pub is_uppercase: bool,
}

impl KeyboardState {
    pub fn new() -> (r: Self)
        ensures
            !r.is_uppercase,
    {
        KeyboardState { is_uppercase: false }
    }

    pub fn set_uppercased(&mut self, is_uppercased: bool)
        ensures
            final(self).is_uppercase == is_uppercased,
    {
        self.is_uppercase = is_uppercased;
    }
}

/// The value that stands for a backspace among the characters that `getc` gives.
pub const BACKSPACE_VALUE: usize = 0xffffffff;

/// What `getc` does with one scan code: a shift press or release switches
/// upper case on or off and gives nothing; a key with a character gives the
/// character's value; backspace gives `BACKSPACE_VALUE`; anything else gives
/// nothing, and the caller reads the next scan code.
pub open spec fn getc_spec(uppercase: bool, scancode_value: u8) -> (bool, Option<usize>) {
    match scancode_spec(scancode_value) {
        Some(c) => if c.scan_code_type == ScanCodeType::Shift {
            (!c.released, None)
        } else {
            match char_of(c.scan_code_type, uppercase) {
                Ok(ch) => (uppercase, Some(ch as usize)),
                Err(ScanCodeError::BackspaceScancode) => (uppercase, Some(BACKSPACE_VALUE)),
                Err(ScanCodeError::InvalidScancode) => (uppercase, None),
            }
        },
        None => (uppercase, None),
    }
}

/// Handles one scan code read from the keyboard (see `getc_spec`).
pub fn getc(keyboard: &mut KeyboardState, scancode_value: u8) -> (r: Option<usize>)
    ensures
        (final(keyboard).is_uppercase, r) == getc_spec(old(keyboard).is_uppercase, scancode_value),
{
    if let Some(c) = get_scancode(scancode_value) {
        if c.scan_code_type == ScanCodeType::Shift {
            keyboard.set_uppercased(!c.released);
        } else {
            match c.get_char(keyboard.is_uppercase) {
                Ok(character) => {
                    return Some(character as u32 as usize);
                },
                Err(scan_code_error) => {
                    if scan_code_error == ScanCodeError::BackspaceScancode {
                        return Some(BACKSPACE_VALUE);
                    }
                },
            }
        }
    }
    None
}

// ---------------------------------------------------------------------------
// Laws of the scan-code table.

/// A pressed key.
pub open spec fn press(t: ScanCodeType) -> Option<ScanCode> {
    Some(ScanCode { released: false, scan_code_type: t })
}

/// The keys of this keyboard: the ten digits, the letters `a` to `z`, `,`
/// `.` `/` `\\`, quote, shift, backspace, enter and space.
pub open spec fn keyboard_key(t: ScanCodeType) -> bool {
    match t {
        ScanCodeType::Digit(d) => d <= 9,
        ScanCodeType::Character(c) => ('a' <= c && c <= 'z') || c == ',' || c == '.' || c == '/'
            || c == '\\',
        _ => true,
    }
}

/// The letter keys lie on three rows, and their scan codes run along each row
/// from left to right: `q` to `p` from 0x10, `a` to `l` from 0x1E, `z` to `m`
/// from 0x2C; the digit keys `1` to `9` run from 0x02.
pub proof fn lemma_scan_codes_follow_the_rows(i: int)
    ensures
        0 <= i < 10 ==> scancode_spec((0x10 + i) as u8) == press(
            ScanCodeType::Character(seq!['q', 'w', 'e', 'r', 't', 'y', 'u', 'i', 'o', 'p'][i]),
        ),
        0 <= i < 9 ==> scancode_spec((0x1E + i) as u8) == press(
            ScanCodeType::Character(seq!['a', 's', 'd', 'f', 'g', 'h', 'j', 'k', 'l'][i]),
        ),
        0 <= i < 7 ==> scancode_spec((0x2C + i) as u8) == press(
            ScanCodeType::Character(seq!['z', 'x', 'c', 'v', 'b', 'n', 'm'][i]),
        ),
        0 <= i < 9 ==> scancode_spec((0x02 + i) as u8) == press(ScanCodeType::Digit((i + 1) as u8)),
{
    if i == 0 {
    } else if i == 1 {
    } else if i == 2 {
    } else if i == 3 {
    } else if i == 4 {
    } else if i == 5 {
    } else if i == 6 {
    } else if i == 7 {
    } else if i == 8 {
    } else if i == 9 {
    }
}

/// The code that scan-code set 1 gives each key of the keyboard when it is
/// pressed (the left shift for shift; 0 for what is not a key of it).
pub open spec fn set1_code(t: ScanCodeType) -> u8 {
    match t {
        ScanCodeType::Digit(d) => if d == 0 {
            0x0C
        } else if d <= 9 {
            (d + 1) as u8
        } else {
            0
        },
        ScanCodeType::Character(c) => if c == 'q' {
            0x10
        } else if c == 'w' {
            0x11
        } else if c == 'e' {
            0x12
        } else if c == 'r' {
            0x13
        } else if c == 't' {
            0x14
        } else if c == 'y' {
            0x15
        } else if c == 'u' {
            0x16
        } else if c == 'i' {
            0x17
        } else if c == 'o' {
            0x18
        } else if c == 'p' {
            0x19
        } else if c == 'a' {
            0x1E
        } else if c == 's' {
            0x1F
        } else if c == 'd' {
            0x20
        } else if c == 'f' {
            0x21
        } else if c == 'g' {
            0x22
        } else if c == 'h' {
            0x23
        } else if c == 'j' {
            0x24
        } else if c == 'k' {
            0x25
        } else if c == 'l' {
            0x26
        } else if c == 'z' {
            0x2C
        } else if c == 'x' {
            0x2D
        } else if c == 'c' {
            0x2E
        } else if c == 'v' {
            0x2F
        } else if c == 'b' {
            0x30
        } else if c == 'n' {
            0x31
        } else if c == 'm' {
            0x32
        } else if c == ',' {
            0x33
        } else if c == '.' {
            0x34
        } else if c == '/' {
            0x35
        } else if c == '\\' {
            0x2B
        } else {
            0
        },
        ScanCodeType::Shift => 0x2A,
        ScanCodeType::Backspace => 0x0E,
        ScanCodeType::Enter => 0x1C,
        ScanCodeType::Space => 0x39,
        ScanCodeType::Quote => 0x28,
    }
}

/// Every key of the keyboard is pressed with its scan code of set 1: the
/// code decodes to the key, pressed.
pub proof fn lemma_every_key_has_a_scan_code(t: ScanCodeType)
    requires
        keyboard_key(t),
    ensures
        scancode_spec(set1_code(t)) == press(t),
        exists|v: u8| #[trigger] scancode_spec(v) == press(t),
{
    match t {
        ScanCodeType::Character(c) => {
            if c == 'q' {
            } else if c == 'w' {
            } else if c == 'e' {
            } else if c == 'r' {
            } else if c == 't' {
            } else if c == 'y' {
            } else if c == 'u' {
            } else if c == 'i' {
            } else if c == 'o' {
            } else if c == 'p' {
            } else if c == 'a' {
            } else if c == 's' {
            } else if c == 'd' {
            } else if c == 'f' {
            } else if c == 'g' {
            } else if c == 'h' {
            } else if c == 'j' {
            } else if c == 'k' {
            } else if c == 'l' {
            } else if c == 'z' {
            } else if c == 'x' {
            } else if c == 'c' {
            } else if c == 'v' {
            } else if c == 'b' {
            } else if c == 'n' {
            } else if c == 'm' {
            } else if c == ',' {
            } else if c == '.' {
            } else if c == '/' {
            } else if c == '\\' {
            }
        },
        _ => {},
    }
    assert(scancode_spec(set1_code(t)) == press(t));
}

/// A released key is the pressed one plus 0x80: a code that decodes to a
/// released key is at least 0x80, and 0x80 less decodes to the same key pressed.
pub proof fn lemma_release_is_press_plus_0x80(v: u8)
    ensures
        scancode_spec(v) is Some && scancode_spec(v)->0.released ==> v >= 0x80 && scancode_spec(
            (v - 0x80) as u8,
        ) == press(scancode_spec(v)->0.scan_code_type),
{
}

/// Every key that gives a character, in either case, can be typed: for each
/// such key there is a scan code on which `getc` gives that character, with
/// the shift state unchanged. In particular the space bar gives ' '.
pub proof fn lemma_getc_types_every_key(uppercase: bool, t: ScanCodeType)
    requires
        keyboard_key(t),
        t != ScanCodeType::Shift,
        char_of(t, uppercase) is Ok,
    ensures
        exists|v: u8|
            #[trigger] getc_spec(uppercase, v) == (uppercase, Some(char_of(t, uppercase)->Ok_0 as usize)),
        t == ScanCodeType::Space ==> char_of(t, uppercase) == Ok::<char, ScanCodeError>(' '),
{
    lemma_every_key_has_a_scan_code(t);
    let v = choose|v: u8| #[trigger] scancode_spec(v) == press(t);
    assert(getc_spec(uppercase, v) == (uppercase, Some(char_of(t, uppercase)->Ok_0 as usize)));
}

} // verus!
