//! A calendar timestamp with a zone offset, and the textual name of the
//! generation directory derived from it.
//!
//! The server names each generation directory by its start time at second
//! granularity, `YYYY-MM-DD-HH-MM-SS`; `format_generation_name` produces
//! exactly that text.

use vstd::prelude::*;
use vstd::utf8::{encode_utf8, decode_utf8, is_ascii_chars, is_ascii_chars_encode_utf8,
    encode_utf8_valid_utf8, encode_utf8_decode_utf8};
use crate::codec::utf8_to_string;

verus! {

/// A date and time with a zone offset in minutes, at second granularity.
#[derive(Clone, Copy, PartialEq, Eq, Structural, Debug)]
pub struct DateTime {
    pub year: u16,
    pub month: u8,
    pub day: u8,
    pub hour: u8,
    pub minute: u8,
    pub second: u8,
    /// Minutes east of UTC; zero for UTC itself.
    pub offset_minutes: i16,
}

impl DateTime {
    /// Every field within its calendar range.
    pub open spec fn wf(self) -> bool {
        &&& self.year <= 9999
        &&& 1 <= self.month <= 12
        &&& 1 <= self.day <= 31
        &&& self.hour < 24
        &&& self.minute < 60
        &&& self.second < 60
        &&& -1440 <= self.offset_minutes <= 1440
    }

    /// Check every field range; exactly `wf`.
    pub fn is_wf(&self) -> (r: bool)
        ensures
            r == self.wf(),
    {
        self.year <= 9999 && 1 <= self.month && self.month <= 12 && 1 <= self.day && self.day
            <= 31 && self.hour < 24 && self.minute < 60 && self.second < 60
            && -1440 <= self.offset_minutes && self.offset_minutes <= 1440
    }

    /// The name of the generation directory started at this time.
    pub fn format_generation_name(&self) -> (r: String)
        requires
            self.wf(),
        ensures
            r@ == generation_name(*self),
    {
        let mut out: Vec<u8> = Vec::new();
        push_four_digits(&mut out, self.year);
        out.push(45);
        push_two_digits(&mut out, self.month);
        out.push(45);
        push_two_digits(&mut out, self.day);
        out.push(45);
        push_two_digits(&mut out, self.hour);
        out.push(45);
        push_two_digits(&mut out, self.minute);
        out.push(45);
        push_two_digits(&mut out, self.second);
        proof {
            lemma_generation_name_bytes(*self, out@);
        }
        let ghost chars = generation_name(*self);
        match utf8_to_string(out) {
            Some(s) => {
                proof {
                    encode_utf8_decode_utf8(chars);
                    encode_utf8_decode_utf8(s@);
                }
                s
            },
            None => {
                proof {
                    encode_utf8_valid_utf8(chars);
                }
                vstd::pervasive::unreached()
            },
        }
    }
}

/// The decimal digit `d` as a character.
pub open spec fn digit_char(d: int) -> char
    recommends
        0 <= d < 10,
{
    ((48 + d) as u8) as char
}

/// `n` as two zero-padded decimal digits.
pub open spec fn two_digit_chars(n: int) -> Seq<char>
    recommends
        0 <= n < 100,
{
    seq![digit_char(n / 10), digit_char(n % 10)]
}

/// `n` as four zero-padded decimal digits.
pub open spec fn four_digit_chars(n: int) -> Seq<char>
    recommends
        0 <= n < 10000,
{
    seq![
        digit_char(n / 1000),
        digit_char((n / 100) % 10),
        digit_char((n / 10) % 10),
        digit_char(n % 10),
    ]
}

/// The generation directory name `YYYY-MM-DD-HH-MM-SS` for start time `d`.
pub open spec fn generation_name(d: DateTime) -> Seq<char> {
    four_digit_chars(d.year as int) + seq!['-'] + two_digit_chars(d.month as int) + seq!['-']
        + two_digit_chars(d.day as int) + seq!['-'] + two_digit_chars(d.hour as int) + seq!['-']
        + two_digit_chars(d.minute as int) + seq!['-'] + two_digit_chars(d.second as int)
}

/// Append `n` as two zero-padded ASCII digits.
fn push_two_digits(out: &mut Vec<u8>, n: u8)
    requires
        n < 100,
    ensures
        final(out)@ == old(out)@ + seq![(48 + n / 10) as u8, (48 + n % 10) as u8],
{
    out.push(48 + n / 10);
    out.push(48 + n % 10);
    assert(final(out)@ =~= old(out)@ + seq![(48 + n / 10) as u8, (48 + n % 10) as u8]);
}

/// Append `n` as four zero-padded ASCII digits.
fn push_four_digits(out: &mut Vec<u8>, n: u16)
    requires
        n < 10000,
    ensures
        final(out)@ == old(out)@ + seq![
            (48 + n / 1000) as u8,
            (48 + (n / 100) % 10) as u8,
            (48 + (n / 10) % 10) as u8,
            (48 + n % 10) as u8,
        ],
{
    out.push((48 + n / 1000) as u8);
    out.push((48 + (n / 100) % 10) as u8);
    out.push((48 + (n / 10) % 10) as u8);
    out.push((48 + n % 10) as u8);
    assert(final(out)@ =~= old(out)@ + seq![
        (48 + n / 1000) as u8,
        (48 + (n / 100) % 10) as u8,
        (48 + (n / 10) % 10) as u8,
        (48 + n % 10) as u8,
    ]);
}

/// The generation name is ASCII, and the bytes built by
/// `format_generation_name` are exactly its UTF-8 encoding.
proof fn lemma_generation_name_bytes(d: DateTime, bytes: Seq<u8>)
    requires
        d.wf(),
        bytes =~= seq![
            (48 + d.year / 1000) as u8,
            (48 + (d.year / 100) % 10) as u8,
            (48 + (d.year / 10) % 10) as u8,
            (48 + d.year % 10) as u8,
            45u8,
            (48 + d.month / 10) as u8,
            (48 + d.month % 10) as u8,
            45u8,
            (48 + d.day / 10) as u8,
            (48 + d.day % 10) as u8,
            45u8,
            (48 + d.hour / 10) as u8,
            (48 + d.hour % 10) as u8,
            45u8,
            (48 + d.minute / 10) as u8,
            (48 + d.minute % 10) as u8,
            45u8,
            (48 + d.second / 10) as u8,
            (48 + d.second % 10) as u8,
        ],
    ensures
        encode_utf8(generation_name(d)) == bytes,
{
    let chars = generation_name(d);
    assert(chars.len() == 19);
    assert forall|i: int| 0 <= i < chars.len() implies '\0' <= #[trigger] chars[i] <= '\u{7f}'
        && chars[i] as u8 == bytes[i] by {
        assert(chars[i] == bytes[i] as char);
    }
    assert(is_ascii_chars(chars));
    is_ascii_chars_encode_utf8(chars);
    assert(encode_utf8(chars) =~= bytes);
}

} // verus!
