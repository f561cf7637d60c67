//! Reply text: decimal numbers, truth values, and lines formatted piece by
//! piece into a buffer of fixed length, cut where the buffer ends.

use vstd::prelude::*;
use vstd::slice::slice_subrange;
use vstd::string::*;
use vstd::utf8::*;

verus! {

/// What remains of `text` in a buffer of `capacity` bytes: the whole text
/// where it fits, else its first `capacity` characters.
pub open spec fn truncated(text: Seq<char>, capacity: nat) -> Seq<char> {
    if text.len() <= capacity {
        text
    } else {
        text.take(capacity as int)
    }
}

/// An ASCII text as bytes.
pub open spec fn ascii(text: Seq<char>) -> Seq<u8> {
    Seq::new(text.len(), |i: int| text[i] as u8)
}

/// The character of the decimal digit `d`.
pub open spec fn digit(d: int) -> char {
    if d == 0 {
        '0'
    } else if d == 1 {
        '1'
    } else if d == 2 {
        '2'
    } else if d == 3 {
        '3'
    } else if d == 4 {
        '4'
    } else if d == 5 {
        '5'
    } else if d == 6 {
        '6'
    } else if d == 7 {
        '7'
    } else if d == 8 {
        '8'
    } else {
        '9'
    }
}

/// `n` in decimal, without leading zeros.
pub open spec fn decimal(n: nat) -> Seq<char>
    decreases n,
{
    if n < 10 {
        seq![digit(n as int)]
    } else {
        decimal(n / 10).push(digit((n % 10) as int))
    }
}

/// A truth value as a word.
pub open spec fn truth(value: bool) -> Seq<char> {
    if value {
        "true"@
    } else {
        "false"@
    }
}

/// A level as a binary digit.
pub open spec fn bit(level: bool) -> Seq<char> {
    if level {
        "1"@
    } else {
        "0"@
    }
}

/// Truncation never yields more than the capacity, and what it yields is
/// the beginning of the text.
pub proof fn truncated_fits(text: Seq<char>, capacity: nat)
    ensures
        truncated(text, capacity).len() <= capacity,
        truncated(text, capacity).len() <= text.len(),
        truncated(text, capacity) == text.take(truncated(text, capacity).len() as int),
        text.len() <= capacity ==> truncated(text, capacity) == text,
{
    assert(text.take(text.len() as int) =~= text);
}

/// Two ASCII texts joined are ASCII.
pub proof fn ascii_joined(left: Seq<char>, right: Seq<char>)
    requires
        is_ascii_chars(left),
        is_ascii_chars(right),
    ensures
        is_ascii_chars(left + right),
{
    is_ascii_chars_concat(left + right, left, right);
}

/// Writes `piece` behind the first `used` bytes of `buffer`, as
/// `stackfmt::fmt_truncate` writes a piece of formatted text: through a
/// `stackfmt::WriteTo` made with `new` over the rest of the buffer and filled
/// by one `write_str`; `written_bytes` says how much went in. Believed of
/// that writer, not proved: of ASCII text it copies as many leading bytes as
/// the rest of the buffer holds and touches no other byte.
#[verifier::external_body]
fn write_piece(buffer: &mut [u8], used: usize, piece: &str) -> (written: usize)
    requires
        used <= old(buffer)@.len(),
        is_ascii(piece),
    ensures
        written == if piece@.len() <= old(buffer)@.len() - used {
            piece@.len()
        } else {
            (old(buffer)@.len() - used) as nat
        },
        final(buffer)@ == old(buffer)@.take(used as int) + ascii(piece@).take(written as int)
            + old(buffer)@.skip(used + written),
{
    let mut writer = stackfmt::WriteTo::new(&mut buffer[used..]);
    let _ = core::fmt::Write::write_str(&mut writer, piece);
    writer.written_bytes()
}

/// The bytes as text, by `core::str::from_utf8`. Believed of that function,
/// not proved: it succeeds exactly on valid UTF-8, and the text it hands
/// back is made of the very bytes it was given.
#[verifier::external_body]
pub(crate) fn from_utf8<'a>(bytes: &'a [u8]) -> (text: Option<&'a str>)
    ensures
        text.is_some() == valid_utf8(bytes@),
        text.is_some() ==> text.unwrap().spec_bytes() == bytes@,
{
    core::str::from_utf8(bytes).ok()
}

/// The one-character text of the digit `d`.
fn digit_str(d: u8) -> (s: &'static str)
    requires
        d < 10,
    ensures
        s@ == seq![digit(d as int)],
        is_ascii(s),
{
    proof {
        reveal_strlit("0");
        reveal_strlit("1");
        reveal_strlit("2");
        reveal_strlit("3");
        reveal_strlit("4");
        reveal_strlit("5");
        reveal_strlit("6");
        reveal_strlit("7");
        reveal_strlit("8");
        reveal_strlit("9");
    }
    let s = match d {
        0 => "0",
        1 => "1",
        2 => "2",
        3 => "3",
        4 => "4",
        5 => "5",
        6 => "6",
        7 => "7",
        8 => "8",
        _ => "9",
    };
    assert(s@ =~= seq![digit(d as int)]);
    s
}

/// How far a line has come in the buffer that it is formatted in: the
/// text so far, and how many bytes of it the buffer holds.
pub(crate) struct Line {
    used: usize,
    text: Ghost<Seq<char>>,
}

impl Line {
    /// The text written so far, whether the buffer had room for it or not.
    pub(crate) closed spec fn text(&self) -> Seq<char> {
        self.text@
    }

    /// The buffer begins with the text so far, cut to the buffer's length.
    pub(crate) closed spec fn spells(&self, buffer: Seq<u8>) -> bool {
        &&& is_ascii_chars(self.text@)
        &&& self.used == truncated(self.text@, buffer.len()).len()
        &&& buffer.take(self.used as int) == ascii(truncated(self.text@, buffer.len()))
    }

    /// A line without text yet.
    pub(crate) fn begin(Ghost(buffer): Ghost<Seq<u8>>) -> (line: Self)
        ensures
            line.spells(buffer),
            line.text() == Seq::<char>::empty(),
    {
        let line = Line { used: 0, text: Ghost(Seq::empty()) };
        assert(buffer.take(0) =~= ascii(truncated(Seq::<char>::empty(), buffer.len())));
        line
    }

    /// Appends the ASCII text `piece`, as far as the buffer has room.
    pub(crate) fn push(&mut self, buffer: &mut [u8], piece: &str)
        requires
            old(self).spells(old(buffer)@),
            is_ascii(piece),
        ensures
            final(self).spells(final(buffer)@),
            final(self).text() == old(self).text() + piece@,
            final(buffer)@.len() == old(buffer)@.len(),
    {
        let ghost before = self.text@;
        let ghost held = buffer@;
        let room = buffer.len() - self.used;
        let written = write_piece(buffer, self.used, piece);
        assert(written <= room);
        proof {
            let after = before + piece@;
            let capacity = held.len();
            ascii_joined(before, piece@);
            assert(buffer@.len() == capacity);
            assert(buffer@.take(self.used + written) =~= ascii(truncated(after, capacity))) by {
                assert(held.take(self.used as int) == ascii(truncated(before, capacity)));
                assert forall|i: int| 0 <= i < self.used + written implies buffer@[i] == ascii(
                    truncated(after, capacity),
                )[i] by {
                    if i < self.used {
                        assert(buffer@[i] == held.take(self.used as int)[i]);
                    }
                }
            }
            self.text = Ghost(after);
        }
        self.used = self.used + written;
    }

    /// Appends `n` in decimal, as far as the buffer has room.
    pub(crate) fn push_decimal(&mut self, buffer: &mut [u8], n: u8)
        requires
            old(self).spells(old(buffer)@),
        ensures
            final(self).spells(final(buffer)@),
            final(self).text() == old(self).text() + decimal(n as nat),
            final(buffer)@.len() == old(buffer)@.len(),
    {
        reveal_with_fuel(decimal, 3);
        if n >= 100 {
            self.push(buffer, digit_str(n / 100));
        }
        if n >= 10 {
            self.push(buffer, digit_str((n / 10) % 10));
        }
        self.push(buffer, digit_str(n % 10));
        assert(self.text@ =~= old(self).text@ + decimal(n as nat));
    }

    /// The line as text: what was written, cut to the buffer's length.
    pub(crate) fn finish<'a>(self, buffer: &'a mut [u8]) -> (out: &'a str)
        requires
            self.spells(old(buffer)@),
        ensures
            out@ == truncated(self.text(), old(buffer)@.len()),
            out@.len() <= old(buffer)@.len(),
    {
        let ghost cut = truncated(self.text@, buffer@.len());
        proof {
            truncated_fits(self.text@, buffer@.len());
            assert(is_ascii_chars(cut));
            is_ascii_chars_encode_utf8(cut);
            encode_utf8_valid_utf8(cut);
            assert(encode_utf8(cut) =~= ascii(cut));
        }
        let held: &'a [u8] = buffer;
        let bytes = slice_subrange(held, 0, self.used);
        match from_utf8(bytes) {
            Some(out) => {
                proof {
                    encode_utf8_decode_utf8(out@);
                    encode_utf8_decode_utf8(cut);
                }
                out
            },
            // Not reached: ASCII bytes are valid UTF-8.
            None => "",
        }
    }
}

/// Formats the ASCII text `text` into `buffer`, cut to the buffer's length.
pub(crate) fn fmt_truncate<'a>(buffer: &'a mut [u8], text: &str) -> (out: &'a str)
    requires
        is_ascii(text),
    ensures
        out@ == truncated(text@, old(buffer)@.len()),
        out@.len() <= old(buffer)@.len(),
{
    let mut line = Line::begin(Ghost(buffer@));
    line.push(buffer, text);
    assert(line.text() =~= text@);
    line.finish(buffer)
}

/// The word for `value`.
pub fn truth_str(value: bool) -> (s: &'static str)
    ensures
        s@ == truth(value),
        is_ascii(s),
{
    proof {
        words_are_ascii(value);
    }
    if value {
        "true"
    } else {
        "false"
    }
}

/// The binary digit for `level`.
pub fn bit_str(level: bool) -> (s: &'static str)
    ensures
        s@ == bit(level),
        is_ascii(s),
{
    proof {
        words_are_ascii(level);
    }
    if level {
        "1"
    } else {
        "0"
    }
}

/// The words and digits are ASCII.
pub proof fn words_are_ascii(value: bool)
    ensures
        is_ascii_chars(truth(value)),
        is_ascii_chars(bit(value)),
{
    reveal_strlit("true");
    reveal_strlit("false");
    reveal_strlit("1");
    reveal_strlit("0");
}

} // verus!
