//! An RGB colour and its text: the three channels in decimal, then the
//! same three bytes as six upper-case hexadecimal digits.

use vstd::prelude::*;
use vstd::string::*;
use crate::digits::{decimal, hex_pair, hex_pair_value, lemma_hex_pair_round_trip};
use crate::digits::{push_decimal, push_hex_pair, read_hex_pair};

verus! {

/// A colour as three 8-bit channels.
#[derive(Clone, Copy, Debug, PartialEq, Eq, Structural)]
pub struct Color {
    pub red: u8,
    pub green: u8,
    pub blue: u8,
}

/// One of the three channels of a colour.
#[derive(Clone, Copy, Debug, PartialEq, Eq, Structural)]
pub enum Channel {
    Red,
    Green,
    Blue,
}

/// A channel value that does not fit in eight bits.
#[derive(Clone, Copy, Debug, PartialEq, Eq, Structural)]
pub struct ValidationError {
    /// The first channel, in red, green, blue order, that is out of range.
    pub channel: Channel,
    /// The value that was given for it.
    pub value: i64,
}

/// Whether `value` can be a channel: 0 to 255.
pub open spec fn in_channel_range(value: i64) -> bool {
    0 <= value <= 255
}

/// What `Color::from_channels` makes of three candidate values.
pub open spec fn checked_channels(red: i64, green: i64, blue: i64) -> Result<
    Color,
    ValidationError,
> {
    if !in_channel_range(red) {
        Err(ValidationError { channel: Channel::Red, value: red })
    } else if !in_channel_range(green) {
        Err(ValidationError { channel: Channel::Green, value: green })
    } else if !in_channel_range(blue) {
        Err(ValidationError { channel: Channel::Blue, value: blue })
    } else {
        Ok(Color { red: red as u8, green: green as u8, blue: blue as u8 })
    }
}

/// The colour that six hexadecimal digits spell, two per channel in red,
/// green, blue order; `None` for any other text.
pub open spec fn decode_hex(s: Seq<char>) -> Option<Color> {
    if s.len() != 6 {
        None
    } else {
        match (
            hex_pair_value(s[0], s[1]),
            hex_pair_value(s[2], s[3]),
            hex_pair_value(s[4], s[5]),
        ) {
            (Some(red), Some(green), Some(blue)) => Some(Color { red, green, blue }),
            _ => None,
        }
    }
}

impl Color {
    /// The six hexadecimal digits of the colour: `RRGGBB`.
    pub open spec fn hex_text(self) -> Seq<char> {
        hex_pair(self.red) + hex_pair(self.green) + hex_pair(self.blue)
    }

    /// The full text of the colour: `RGB (r, g, b) 0xRRGGBB`.
    pub open spec fn text(self) -> Seq<char> {
        seq!['R', 'G', 'B', ' ', '('] + decimal(self.red as nat) + seq![',', ' '] + decimal(
            self.green as nat,
        ) + seq![',', ' '] + decimal(self.blue as nat) + seq![')', ' ', '0', 'x']
            + self.hex_text()
    }

    /// A colour from three channel values.
    pub fn new(red: u8, green: u8, blue: u8) -> (c: Color)
        ensures
            c == (Color { red, green, blue }),
    {
        Color { red, green, blue }
    }

    /// A colour from three values that may be out of range. The first
    /// value outside 0 to 255, in red, green, blue order, is reported.
    pub fn from_channels(red: i64, green: i64, blue: i64) -> (r: Result<Color, ValidationError>)
        ensures
            r == checked_channels(red, green, blue),
    {
        if red < 0 || red > 255 {
            Err(ValidationError { channel: Channel::Red, value: red })
        } else if green < 0 || green > 255 {
            Err(ValidationError { channel: Channel::Green, value: green })
        } else if blue < 0 || blue > 255 {
            Err(ValidationError { channel: Channel::Blue, value: blue })
        } else {
            Ok(Color { red: red as u8, green: green as u8, blue: blue as u8 })
        }
    }

    /// Renders the six hexadecimal digits of the colour.
    pub fn hex(&self) -> (r: String)
        ensures
            r@ == self.hex_text(),
    {
        let mut out = String::new();
        push_hex_pair(&mut out, self.red);
        push_hex_pair(&mut out, self.green);
        push_hex_pair(&mut out, self.blue);
        assert(out@ =~= self.hex_text());
        out
    }

    /// Renders the colour as text.
    pub fn fmt(&self) -> (r: String)
        ensures
            r@ == self.text(),
    {
        proof {
            reveal_strlit("RGB (");
            reveal_strlit(", ");
            reveal_strlit(") 0x");
        }
        let mut out = String::new();
        out.append("RGB (");
        push_decimal(&mut out, self.red as u128);
        out.append(", ");
        push_decimal(&mut out, self.green as u128);
        out.append(", ");
        push_decimal(&mut out, self.blue as u128);
        out.append(") 0x");
        push_hex_pair(&mut out, self.red);
        push_hex_pair(&mut out, self.green);
        push_hex_pair(&mut out, self.blue);
        assert(out@ =~= self.text());
        out
    }

    /// Reads six hexadecimal digits, in either case, back into a colour.
    pub fn from_hex(s: &str) -> (r: Option<Color>)
        ensures
            r == decode_hex(s@),
    {
        if s.unicode_len() != 6 {
            return None;
        }
        let red = read_hex_pair(s.get_char(0), s.get_char(1));
        let green = read_hex_pair(s.get_char(2), s.get_char(3));
        let blue = read_hex_pair(s.get_char(4), s.get_char(5));
        match (red, green, blue) {
            (Some(red), Some(green), Some(blue)) => Some(Color { red, green, blue }),
            _ => None,
        }
    }
}

/// The six digits that a colour renders to read back as that colour: no
/// two colours share their digits, and none is lost.
pub proof fn lemma_hex_round_trip(c: Color)
    ensures
        c.hex_text().len() == 6,
        decode_hex(c.hex_text()) == Some(c),
{
    lemma_hex_pair_round_trip(c.red);
    lemma_hex_pair_round_trip(c.green);
    lemma_hex_pair_round_trip(c.blue);
}

/// The text of a colour ends in its six hexadecimal digits, behind `0x`,
/// and those six characters alone give the colour back.
pub proof fn lemma_text_ends_in_hex(c: Color)
    ensures
        c.text().len() >= 8,
        c.text().subrange(c.text().len() - 6, c.text().len() as int) == c.hex_text(),
        c.text().subrange(c.text().len() - 8, c.text().len() - 6) == seq!['0', 'x'],
        decode_hex(c.text().subrange(c.text().len() - 6, c.text().len() as int)) == Some(c),
{
    lemma_hex_round_trip(c);
    let t = c.text();
    let h = c.hex_text();
    assert(t.subrange(t.len() - 6, t.len() as int) =~= h);
    assert(t.subrange(t.len() - 8, t.len() - 6) =~= seq!['0', 'x']);
}

} // verus!
