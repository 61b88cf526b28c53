//! Pure lookup from a decoded character to its USB HID scan code.
//!
//! The table covers exactly the 36-symbol morse alphabet plus space; any
//! other character is unsupported and produces no output event.

use vstd::prelude::*;

verus! {

use crate::morse::is_morse_char;

/// The scan code table: letters, digits and space, nothing else.
pub open spec fn spec_char_to_hid_u8(c: char) -> Option<u8> {
    if c == 'a' { Some(0x04u8) }
    else if c == 'b' { Some(0x05u8) }
    else if c == 'c' { Some(0x06u8) }
    else if c == 'd' { Some(0x07u8) }
    else if c == 'e' { Some(0x08u8) }
    else if c == 'f' { Some(0x09u8) }
    else if c == 'g' { Some(0x0Au8) }
    else if c == 'h' { Some(0x0Bu8) }
    else if c == 'i' { Some(0x0Cu8) }
    else if c == 'j' { Some(0x0Du8) }
    else if c == 'k' { Some(0x0Eu8) }
    else if c == 'l' { Some(0x0Fu8) }
    else if c == 'm' { Some(0x10u8) }
    else if c == 'n' { Some(0x11u8) }
    else if c == 'o' { Some(0x12u8) }
    else if c == 'p' { Some(0x13u8) }
    else if c == 'q' { Some(0x14u8) }
    else if c == 'r' { Some(0x15u8) }
    else if c == 's' { Some(0x16u8) }
    else if c == 't' { Some(0x17u8) }
    else if c == 'u' { Some(0x18u8) }
    else if c == 'v' { Some(0x19u8) }
    else if c == 'w' { Some(0x1Au8) }
    else if c == 'x' { Some(0x1Bu8) }
    else if c == 'y' { Some(0x1Cu8) }
    else if c == 'z' { Some(0x1Du8) }
    else if c == '0' { Some(0x27u8) }
    else if c == '1' { Some(0x1Eu8) }
    else if c == '2' { Some(0x1Fu8) }
    else if c == '3' { Some(0x20u8) }
    else if c == '4' { Some(0x21u8) }
    else if c == '5' { Some(0x22u8) }
    else if c == '6' { Some(0x23u8) }
    else if c == '7' { Some(0x24u8) }
    else if c == '8' { Some(0x25u8) }
    else if c == '9' { Some(0x26u8) }
    else if c == ' ' { Some(0x2Cu8) }
    else { None }
}

/// Maps a decoded character to its USB HID scan code, or `None` for a
/// character outside the supported alphabet.
pub fn char_to_hid_u8(c: char) -> (r: Option<u8>)
    ensures
        r == spec_char_to_hid_u8(c),
{
    match c {
        'a' => Some(0x04),
        'b' => Some(0x05),
        'c' => Some(0x06),
        'd' => Some(0x07),
        'e' => Some(0x08),
        'f' => Some(0x09),
        'g' => Some(0x0A),
        'h' => Some(0x0B),
        'i' => Some(0x0C),
        'j' => Some(0x0D),
        'k' => Some(0x0E),
        'l' => Some(0x0F),
        'm' => Some(0x10),
        'n' => Some(0x11),
        'o' => Some(0x12),
        'p' => Some(0x13),
        'q' => Some(0x14),
        'r' => Some(0x15),
        's' => Some(0x16),
        't' => Some(0x17),
        'u' => Some(0x18),
        'v' => Some(0x19),
        'w' => Some(0x1A),
        'x' => Some(0x1B),
        'y' => Some(0x1C),
        'z' => Some(0x1D),
        '0' => Some(0x27),
        '1' => Some(0x1E),
        '2' => Some(0x1F),
        '3' => Some(0x20),
        '4' => Some(0x21),
        '5' => Some(0x22),
        '6' => Some(0x23),
        '7' => Some(0x24),
        '8' => Some(0x25),
        '9' => Some(0x26),
        ' ' => Some(0x2C),
        _ => None,
    }
}

/// The scan code table is total on exactly what the decoder can produce
/// plus space: a character has a scan code if and only if it is an
/// alphabet entry or the space character.
pub proof fn lemma_keymap_covers_alphabet(c: char)
    ensures
        (spec_char_to_hid_u8(c) is Some) <==> (is_morse_char(c) || c == ' '),
{
}

} // verus!
