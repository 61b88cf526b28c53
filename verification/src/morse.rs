//! The fixed morse alphabet: 26 letters and 10 digits.
//!
//! Each alphabet entry is an ordered run of up to five [`Dit`](MorseValue::Dit)
//! and [`Dah`](MorseValue::Dah) marks. The decoder's symbol buffer holds six
//! slots: the marks of the character being keyed, then one trailing
//! [`Break`](MorseValue::Break), with the remainder
//! [`Empty`](MorseValue::Empty). [`spec_decode`] is the lookup table from a
//! full buffer to a character, [`code_of`] the reverse direction from a
//! character to its mark run.

use vstd::prelude::*;

verus! {

use MorseValue::{Break, Dah, Dit, Empty};

/// One slot of the decoder's symbol buffer.
#[derive(Clone, Copy, Debug, PartialEq, Eq, Structural)]
pub enum MorseValue {
    /// An unfilled slot.
    Empty,
    /// The short mark: at most two dit-units of activity.
    Dit,
    /// The long mark: more than two dit-units of activity.
    Dah,
    /// The inter-character silence marker.
    Break,
}

/// The number of slots in the decoder's symbol buffer: the longest legal
/// character (five marks) plus its trailing break.
pub const BUFFER_SIZE: usize = 6;

/// Is this slot a recorded mark?
pub open spec fn is_mark(v: MorseValue) -> bool {
    v == Dit || v == Dah
}

/// A buffer with every slot unfilled, as after a reset.
pub open spec fn empty_buffer() -> Seq<MorseValue> {
    seq![Empty, Empty, Empty, Empty, Empty, Empty]
}

/// The mark run of a character: its dits and dahs in keying order, without
/// the trailing break. Empty for anything outside the 36-symbol alphabet.
pub open spec fn code_of(c: char) -> Seq<MorseValue> {
    if c == 'a' { seq![Dit, Dah] }
    else if c == 'b' { seq![Dah, Dit, Dit, Dit] }
    else if c == 'c' { seq![Dah, Dit, Dah, Dit] }
    else if c == 'd' { seq![Dah, Dit, Dit] }
    else if c == 'e' { seq![Dit] }
    else if c == 'f' { seq![Dit, Dit, Dah, Dit] }
    else if c == 'g' { seq![Dah, Dah, Dit] }
    else if c == 'h' { seq![Dit, Dit, Dit, Dit] }
    else if c == 'i' { seq![Dit, Dit] }
    else if c == 'j' { seq![Dit, Dah, Dah, Dah] }
    else if c == 'k' { seq![Dah, Dit, Dah] }
    else if c == 'l' { seq![Dit, Dah, Dit, Dit] }
    else if c == 'm' { seq![Dah, Dah] }
    else if c == 'n' { seq![Dah, Dit] }
    else if c == 'o' { seq![Dah, Dah, Dah] }
    else if c == 'p' { seq![Dit, Dah, Dah, Dit] }
    else if c == 'q' { seq![Dah, Dah, Dit, Dah] }
    else if c == 'r' { seq![Dit, Dah, Dit] }
    else if c == 's' { seq![Dit, Dit, Dit] }
    else if c == 't' { seq![Dah] }
    else if c == 'u' { seq![Dit, Dit, Dah] }
    else if c == 'v' { seq![Dit, Dit, Dit, Dah] }
    else if c == 'w' { seq![Dit, Dah, Dah] }
    else if c == 'x' { seq![Dah, Dit, Dit, Dah] }
    else if c == 'y' { seq![Dah, Dit, Dah, Dah] }
    else if c == 'z' { seq![Dah, Dah, Dit, Dit] }
    else if c == '1' { seq![Dit, Dah, Dah, Dah, Dah] }
    else if c == '2' { seq![Dit, Dit, Dah, Dah, Dah] }
    else if c == '3' { seq![Dit, Dit, Dit, Dah, Dah] }
    else if c == '4' { seq![Dit, Dit, Dit, Dit, Dah] }
    else if c == '5' { seq![Dit, Dit, Dit, Dit, Dit] }
    else if c == '6' { seq![Dah, Dit, Dit, Dit, Dit] }
    else if c == '7' { seq![Dah, Dah, Dit, Dit, Dit] }
    else if c == '8' { seq![Dah, Dah, Dah, Dit, Dit] }
    else if c == '9' { seq![Dah, Dah, Dah, Dah, Dit] }
    else if c == '0' { seq![Dah, Dah, Dah, Dah, Dah] }
    else { Seq::empty() }
}

/// Is this character one of the 36 alphabet entries?
pub open spec fn is_morse_char(c: char) -> bool {
    code_of(c).len() > 0
}

/// A mark run laid out as a full buffer: the marks, one break, and empty
/// slots to fill the six positions.
pub open spec fn padded(marks: Seq<MorseValue>) -> Seq<MorseValue>
    recommends
        marks.len() <= 5,
{
    marks.push(Break) + Seq::new((BUFFER_SIZE - 1 - marks.len()) as nat, |i: int| Empty)
}

/// Does the buffer hold exactly these six slot values?
pub open spec fn matches6(
    buf: Seq<MorseValue>,
    s0: MorseValue,
    s1: MorseValue,
    s2: MorseValue,
    s3: MorseValue,
    s4: MorseValue,
    s5: MorseValue,
) -> bool {
    buf.len() == 6 && buf[0] == s0 && buf[1] == s1 && buf[2] == s2 && buf[3] == s3 && buf[4] == s4
        && buf[5] == s5
}

/// The decode table: the character whose padded mark run equals the
/// buffer, if any.
pub open spec fn spec_decode(buf: Seq<MorseValue>) -> Option<char> {
    if matches6(buf, Dit, Dah, Break, Empty, Empty, Empty) { Some('a') }
    else if matches6(buf, Dah, Dit, Dit, Dit, Break, Empty) { Some('b') }
    else if matches6(buf, Dah, Dit, Dah, Dit, Break, Empty) { Some('c') }
    else if matches6(buf, Dah, Dit, Dit, Break, Empty, Empty) { Some('d') }
    else if matches6(buf, Dit, Break, Empty, Empty, Empty, Empty) { Some('e') }
    else if matches6(buf, Dit, Dit, Dah, Dit, Break, Empty) { Some('f') }
    else if matches6(buf, Dah, Dah, Dit, Break, Empty, Empty) { Some('g') }
    else if matches6(buf, Dit, Dit, Dit, Dit, Break, Empty) { Some('h') }
    else if matches6(buf, Dit, Dit, Break, Empty, Empty, Empty) { Some('i') }
    else if matches6(buf, Dit, Dah, Dah, Dah, Break, Empty) { Some('j') }
    else if matches6(buf, Dah, Dit, Dah, Break, Empty, Empty) { Some('k') }
    else if matches6(buf, Dit, Dah, Dit, Dit, Break, Empty) { Some('l') }
    else if matches6(buf, Dah, Dah, Break, Empty, Empty, Empty) { Some('m') }
    else if matches6(buf, Dah, Dit, Break, Empty, Empty, Empty) { Some('n') }
    else if matches6(buf, Dah, Dah, Dah, Break, Empty, Empty) { Some('o') }
    else if matches6(buf, Dit, Dah, Dah, Dit, Break, Empty) { Some('p') }
    else if matches6(buf, Dah, Dah, Dit, Dah, Break, Empty) { Some('q') }
    else if matches6(buf, Dit, Dah, Dit, Break, Empty, Empty) { Some('r') }
    else if matches6(buf, Dit, Dit, Dit, Break, Empty, Empty) { Some('s') }
    else if matches6(buf, Dah, Break, Empty, Empty, Empty, Empty) { Some('t') }
    else if matches6(buf, Dit, Dit, Dah, Break, Empty, Empty) { Some('u') }
    else if matches6(buf, Dit, Dit, Dit, Dah, Break, Empty) { Some('v') }
    else if matches6(buf, Dit, Dah, Dah, Break, Empty, Empty) { Some('w') }
    else if matches6(buf, Dah, Dit, Dit, Dah, Break, Empty) { Some('x') }
    else if matches6(buf, Dah, Dit, Dah, Dah, Break, Empty) { Some('y') }
    else if matches6(buf, Dah, Dah, Dit, Dit, Break, Empty) { Some('z') }
    else if matches6(buf, Dit, Dah, Dah, Dah, Dah, Break) { Some('1') }
    else if matches6(buf, Dit, Dit, Dah, Dah, Dah, Break) { Some('2') }
    else if matches6(buf, Dit, Dit, Dit, Dah, Dah, Break) { Some('3') }
    else if matches6(buf, Dit, Dit, Dit, Dit, Dah, Break) { Some('4') }
    else if matches6(buf, Dit, Dit, Dit, Dit, Dit, Break) { Some('5') }
    else if matches6(buf, Dah, Dit, Dit, Dit, Dit, Break) { Some('6') }
    else if matches6(buf, Dah, Dah, Dit, Dit, Dit, Break) { Some('7') }
    else if matches6(buf, Dah, Dah, Dah, Dit, Dit, Break) { Some('8') }
    else if matches6(buf, Dah, Dah, Dah, Dah, Dit, Break) { Some('9') }
    else if matches6(buf, Dah, Dah, Dah, Dah, Dah, Break) { Some('0') }
    else { None }
}

/// Does the buffer hold exactly these six slot values? Executable form of
/// [`matches6`].
fn matches_pattern(
    buf: &Vec<MorseValue>,
    s0: MorseValue,
    s1: MorseValue,
    s2: MorseValue,
    s3: MorseValue,
    s4: MorseValue,
    s5: MorseValue,
) -> (r: bool)
    requires
        buf@.len() == 6,
    ensures
        r == matches6(buf@, s0, s1, s2, s3, s4, s5),
{
    buf[0] == s0 && buf[1] == s1 && buf[2] == s2 && buf[3] == s3 && buf[4] == s4 && buf[5] == s5
}

/// Resolves a full symbol buffer against the decode table.
pub fn decode_buffer(buf: &Vec<MorseValue>) -> (r: Option<char>)
    requires
        buf@.len() == 6,
    ensures
        r == spec_decode(buf@),
{
    if matches_pattern(buf, Dit, Dah, Break, Empty, Empty, Empty) { Some('a') }
    else if matches_pattern(buf, Dah, Dit, Dit, Dit, Break, Empty) { Some('b') }
    else if matches_pattern(buf, Dah, Dit, Dah, Dit, Break, Empty) { Some('c') }
    else if matches_pattern(buf, Dah, Dit, Dit, Break, Empty, Empty) { Some('d') }
    else if matches_pattern(buf, Dit, Break, Empty, Empty, Empty, Empty) { Some('e') }
    else if matches_pattern(buf, Dit, Dit, Dah, Dit, Break, Empty) { Some('f') }
    else if matches_pattern(buf, Dah, Dah, Dit, Break, Empty, Empty) { Some('g') }
    else if matches_pattern(buf, Dit, Dit, Dit, Dit, Break, Empty) { Some('h') }
    else if matches_pattern(buf, Dit, Dit, Break, Empty, Empty, Empty) { Some('i') }
    else if matches_pattern(buf, Dit, Dah, Dah, Dah, Break, Empty) { Some('j') }
    else if matches_pattern(buf, Dah, Dit, Dah, Break, Empty, Empty) { Some('k') }
    else if matches_pattern(buf, Dit, Dah, Dit, Dit, Break, Empty) { Some('l') }
    else if matches_pattern(buf, Dah, Dah, Break, Empty, Empty, Empty) { Some('m') }
    else if matches_pattern(buf, Dah, Dit, Break, Empty, Empty, Empty) { Some('n') }
    else if matches_pattern(buf, Dah, Dah, Dah, Break, Empty, Empty) { Some('o') }
    else if matches_pattern(buf, Dit, Dah, Dah, Dit, Break, Empty) { Some('p') }
    else if matches_pattern(buf, Dah, Dah, Dit, Dah, Break, Empty) { Some('q') }
    else if matches_pattern(buf, Dit, Dah, Dit, Break, Empty, Empty) { Some('r') }
    else if matches_pattern(buf, Dit, Dit, Dit, Break, Empty, Empty) { Some('s') }
    else if matches_pattern(buf, Dah, Break, Empty, Empty, Empty, Empty) { Some('t') }
    else if matches_pattern(buf, Dit, Dit, Dah, Break, Empty, Empty) { Some('u') }
    else if matches_pattern(buf, Dit, Dit, Dit, Dah, Break, Empty) { Some('v') }
    else if matches_pattern(buf, Dit, Dah, Dah, Break, Empty, Empty) { Some('w') }
    else if matches_pattern(buf, Dah, Dit, Dit, Dah, Break, Empty) { Some('x') }
    else if matches_pattern(buf, Dah, Dit, Dah, Dah, Break, Empty) { Some('y') }
    else if matches_pattern(buf, Dah, Dah, Dit, Dit, Break, Empty) { Some('z') }
    else if matches_pattern(buf, Dit, Dah, Dah, Dah, Dah, Break) { Some('1') }
    else if matches_pattern(buf, Dit, Dit, Dah, Dah, Dah, Break) { Some('2') }
    else if matches_pattern(buf, Dit, Dit, Dit, Dah, Dah, Break) { Some('3') }
    else if matches_pattern(buf, Dit, Dit, Dit, Dit, Dah, Break) { Some('4') }
    else if matches_pattern(buf, Dit, Dit, Dit, Dit, Dit, Break) { Some('5') }
    else if matches_pattern(buf, Dah, Dit, Dit, Dit, Dit, Break) { Some('6') }
    else if matches_pattern(buf, Dah, Dah, Dit, Dit, Dit, Break) { Some('7') }
    else if matches_pattern(buf, Dah, Dah, Dah, Dit, Dit, Break) { Some('8') }
    else if matches_pattern(buf, Dah, Dah, Dah, Dah, Dit, Break) { Some('9') }
    else if matches_pattern(buf, Dah, Dah, Dah, Dah, Dah, Break) { Some('0') }
    else { None }
}

/// The mark run of a character, for synthesizing keying patterns: `None`
/// outside the 36-symbol alphabet.
pub fn char_to_marks(c: char) -> (r: Option<Vec<MorseValue>>)
    ensures
        match r {
            Some(marks) => is_morse_char(c) && marks@ == code_of(c),
            None => !is_morse_char(c),
        },
{
    let marks: Vec<MorseValue> =
        if c == 'a' { vec![Dit, Dah] }
        else if c == 'b' { vec![Dah, Dit, Dit, Dit] }
        else if c == 'c' { vec![Dah, Dit, Dah, Dit] }
        else if c == 'd' { vec![Dah, Dit, Dit] }
        else if c == 'e' { vec![Dit] }
        else if c == 'f' { vec![Dit, Dit, Dah, Dit] }
        else if c == 'g' { vec![Dah, Dah, Dit] }
        else if c == 'h' { vec![Dit, Dit, Dit, Dit] }
        else if c == 'i' { vec![Dit, Dit] }
        else if c == 'j' { vec![Dit, Dah, Dah, Dah] }
        else if c == 'k' { vec![Dah, Dit, Dah] }
        else if c == 'l' { vec![Dit, Dah, Dit, Dit] }
        else if c == 'm' { vec![Dah, Dah] }
        else if c == 'n' { vec![Dah, Dit] }
        else if c == 'o' { vec![Dah, Dah, Dah] }
        else if c == 'p' { vec![Dit, Dah, Dah, Dit] }
        else if c == 'q' { vec![Dah, Dah, Dit, Dah] }
        else if c == 'r' { vec![Dit, Dah, Dit] }
        else if c == 's' { vec![Dit, Dit, Dit] }
        else if c == 't' { vec![Dah] }
        else if c == 'u' { vec![Dit, Dit, Dah] }
        else if c == 'v' { vec![Dit, Dit, Dit, Dah] }
        else if c == 'w' { vec![Dit, Dah, Dah] }
        else if c == 'x' { vec![Dah, Dit, Dit, Dah] }
        else if c == 'y' { vec![Dah, Dit, Dah, Dah] }
        else if c == 'z' { vec![Dah, Dah, Dit, Dit] }
        else if c == '1' { vec![Dit, Dah, Dah, Dah, Dah] }
        else if c == '2' { vec![Dit, Dit, Dah, Dah, Dah] }
        else if c == '3' { vec![Dit, Dit, Dit, Dah, Dah] }
        else if c == '4' { vec![Dit, Dit, Dit, Dit, Dah] }
        else if c == '5' { vec![Dit, Dit, Dit, Dit, Dit] }
        else if c == '6' { vec![Dah, Dit, Dit, Dit, Dit] }
        else if c == '7' { vec![Dah, Dah, Dit, Dit, Dit] }
        else if c == '8' { vec![Dah, Dah, Dah, Dit, Dit] }
        else if c == '9' { vec![Dah, Dah, Dah, Dah, Dit] }
        else if c == '0' { vec![Dah, Dah, Dah, Dah, Dah] }
        else { Vec::new() };
    if marks.len() == 0 {
        None
    } else {
        proof {
            assert(marks@ =~= code_of(c));
        }
        Some(marks)
    }
}

/// Every alphabet entry has at most five marks, all of them dits or dahs.
pub proof fn lemma_code_shape(c: char)
    ensures
        code_of(c).len() <= 5,
        forall|i: int| 0 <= i < code_of(c).len() ==> is_mark(#[trigger] code_of(c)[i]),
{
}

/// Round trip through the table: the padded mark run of any alphabet entry
/// decodes back to exactly that entry.
pub proof fn lemma_code_round_trip(c: char)
    requires
        is_morse_char(c),
    ensures
        spec_decode(padded(code_of(c))) == Some(c),
{
    let buf = padded(code_of(c));
    if c == 'a' { assert(buf =~= seq![Dit, Dah, Break, Empty, Empty, Empty]); }
    else if c == 'b' { assert(buf =~= seq![Dah, Dit, Dit, Dit, Break, Empty]); }
    else if c == 'c' { assert(buf =~= seq![Dah, Dit, Dah, Dit, Break, Empty]); }
    else if c == 'd' { assert(buf =~= seq![Dah, Dit, Dit, Break, Empty, Empty]); }
    else if c == 'e' { assert(buf =~= seq![Dit, Break, Empty, Empty, Empty, Empty]); }
    else if c == 'f' { assert(buf =~= seq![Dit, Dit, Dah, Dit, Break, Empty]); }
    else if c == 'g' { assert(buf =~= seq![Dah, Dah, Dit, Break, Empty, Empty]); }
    else if c == 'h' { assert(buf =~= seq![Dit, Dit, Dit, Dit, Break, Empty]); }
    else if c == 'i' { assert(buf =~= seq![Dit, Dit, Break, Empty, Empty, Empty]); }
    else if c == 'j' { assert(buf =~= seq![Dit, Dah, Dah, Dah, Break, Empty]); }
    else if c == 'k' { assert(buf =~= seq![Dah, Dit, Dah, Break, Empty, Empty]); }
    else if c == 'l' { assert(buf =~= seq![Dit, Dah, Dit, Dit, Break, Empty]); }
    else if c == 'm' { assert(buf =~= seq![Dah, Dah, Break, Empty, Empty, Empty]); }
    else if c == 'n' { assert(buf =~= seq![Dah, Dit, Break, Empty, Empty, Empty]); }
    else if c == 'o' { assert(buf =~= seq![Dah, Dah, Dah, Break, Empty, Empty]); }
    else if c == 'p' { assert(buf =~= seq![Dit, Dah, Dah, Dit, Break, Empty]); }
    else if c == 'q' { assert(buf =~= seq![Dah, Dah, Dit, Dah, Break, Empty]); }
    else if c == 'r' { assert(buf =~= seq![Dit, Dah, Dit, Break, Empty, Empty]); }
    else if c == 's' { assert(buf =~= seq![Dit, Dit, Dit, Break, Empty, Empty]); }
    else if c == 't' { assert(buf =~= seq![Dah, Break, Empty, Empty, Empty, Empty]); }
    else if c == 'u' { assert(buf =~= seq![Dit, Dit, Dah, Break, Empty, Empty]); }
    else if c == 'v' { assert(buf =~= seq![Dit, Dit, Dit, Dah, Break, Empty]); }
    else if c == 'w' { assert(buf =~= seq![Dit, Dah, Dah, Break, Empty, Empty]); }
    else if c == 'x' { assert(buf =~= seq![Dah, Dit, Dit, Dah, Break, Empty]); }
    else if c == 'y' { assert(buf =~= seq![Dah, Dit, Dah, Dah, Break, Empty]); }
    else if c == 'z' { assert(buf =~= seq![Dah, Dah, Dit, Dit, Break, Empty]); }
    else if c == '1' { assert(buf =~= seq![Dit, Dah, Dah, Dah, Dah, Break]); }
    else if c == '2' { assert(buf =~= seq![Dit, Dit, Dah, Dah, Dah, Break]); }
    else if c == '3' { assert(buf =~= seq![Dit, Dit, Dit, Dah, Dah, Break]); }
    else if c == '4' { assert(buf =~= seq![Dit, Dit, Dit, Dit, Dah, Break]); }
    else if c == '5' { assert(buf =~= seq![Dit, Dit, Dit, Dit, Dit, Break]); }
    else if c == '6' { assert(buf =~= seq![Dah, Dit, Dit, Dit, Dit, Break]); }
    else if c == '7' { assert(buf =~= seq![Dah, Dah, Dit, Dit, Dit, Break]); }
    else if c == '8' { assert(buf =~= seq![Dah, Dah, Dah, Dit, Dit, Break]); }
    else if c == '9' { assert(buf =~= seq![Dah, Dah, Dah, Dah, Dit, Break]); }
    else { assert(buf =~= seq![Dah, Dah, Dah, Dah, Dah, Break]); }
}

} // verus!
