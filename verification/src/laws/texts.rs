//! What holds of text and bytes: UTF-16, white space, digits and base64, each by what it writes and
//! what is read back of it.

use crate::base64_text;
use crate::bytes;
use crate::text;
use vstd::prelude::*;

verus! {

/// The UTF-16 of two texts, one after the other, is the UTF-16 of the one and then of the other,
/// in code units and in bytes.
pub proof fn utf16_is_written_one_text_after_another(x: Seq<char>, y: Seq<char>)
    ensures
        text::utf16(x + y) == text::utf16(x) + text::utf16(y),
        text::utf16_le(x + y) == text::utf16_le(x) + text::utf16_le(y),
    decreases y.len(),
{
    if y.len() == 0 {
        assert(x + y =~= x);
        assert(text::utf16(x + y) =~= text::utf16(x) + text::utf16(y));
    } else {
        assert((x + y).drop_last() =~= x + y.drop_last());
        utf16_is_written_one_text_after_another(x, y.drop_last());
        assert(text::utf16(x + y) =~= text::utf16(x) + text::utf16(y));
    }
    assert(text::utf16_le(x + y) =~= text::utf16_le(x) + text::utf16_le(y));
}

/// A character below 0x1_0000 is the one code unit with its number; any other is a high surrogate
/// and a low one, ten bits of its number beyond 0x1_0000 in each.
pub proof fn a_character_is_one_unit_or_two_surrogates(c: char)
    ensures
        (c as int) < 0x1_0000 ==> text::utf16(seq![c]).len() == 1 && text::utf16(seq![c])[0] as int
            == c as int,
        (c as int) >= 0x1_0000 ==> {
            let units = text::utf16(seq![c]);
            &&& units.len() == 2
            &&& 0xD800 <= units[0] < 0xDC00
            &&& 0xDC00 <= units[1] < 0xE000
            &&& 0x1_0000 + 0x400 * (units[0] - 0xD800) + (units[1] - 0xDC00) == c as int
        },
{
    let none = seq![c].drop_last();
    assert(none =~= Seq::<char>::empty());
    assert(text::utf16(none) =~= Seq::<u16>::empty());
    assert(text::utf16(seq![c]) =~= text::units_of(c));
}

/// The bytes of a text are its code units, two bytes to each, the low one first.
pub proof fn utf16_bytes_are_the_units_low_byte_first(text: Seq<char>)
    ensures
        text::utf16_le(text).len() == 2 * text::utf16(text).len(),
        forall|i: int|
            0 <= i < text::utf16(text).len() ==> text::utf16_le(text)[2 * i] + 0x100
                * text::utf16_le(text)[2 * i + 1] == #[trigger] text::utf16(text)[i],
{
    let units = text::utf16(text);
    let written = text::utf16_le(text);
    assert forall|i: int| 0 <= i < units.len() implies written[2 * i] + 0x100 * written[2 * i + 1]
        == #[trigger] units[i] by {
        assert((2 * i) / 2 == i && (2 * i + 1) / 2 == i);
    }
}

/// A text of characters below 0x1_0000, whatever its length, is two bytes to a character, the low
/// one first.
pub proof fn plain_text_is_two_bytes_to_a_character(text: Seq<char>)
    requires
        forall|i: int| 0 <= i < text.len() ==> (#[trigger] text[i] as int) < 0x1_0000,
    ensures
        text::utf16(text).len() == text.len(),
        text::utf16_le(text).len() == 2 * text.len(),
        forall|i: int|
            0 <= i < text.len() ==> text::utf16_le(text)[2 * i] + 0x100 * text::utf16_le(text)[2 * i
                + 1] == #[trigger] text[i] as int,
    decreases text.len(),
{
    if text.len() > 0 {
        let (front, last) = (text.drop_last(), text.last());
        assert forall|i: int| 0 <= i < front.len() implies (#[trigger] front[i] as int)
            < 0x1_0000 by {
            assert(front[i] == text[i]);
        }
        plain_text_is_two_bytes_to_a_character(front);
        assert(text =~= front + seq![last]);
        utf16_is_written_one_text_after_another(front, seq![last]);
        a_character_is_one_unit_or_two_surrogates(last);
        utf16_bytes_are_the_units_low_byte_first(front);
        utf16_bytes_are_the_units_low_byte_first(text);
        assert forall|i: int| 0 <= i < text.len() implies text::utf16_le(text)[2 * i] + 0x100
            * text::utf16_le(text)[2 * i + 1] == #[trigger] text[i] as int by {
            if i < front.len() {
                assert(front[i] == text[i]);
                assert(text::utf16(text)[i] == text::utf16(front)[i]);
                assert(text::utf16_le(front)[2 * i] + 0x100 * text::utf16_le(front)[2 * i + 1]
                    == front[i] as int);
                assert(text::utf16_le(text)[2 * i] == text::utf16_le(front)[2 * i]);
                assert(text::utf16_le(text)[2 * i + 1] == text::utf16_le(front)[2 * i + 1]);
            } else {
                assert(text::utf16(text)[i] == text::utf16(seq![last])[0]);
            }
        }
    }
}

/// Code units read as a text exactly where they are its UTF-16.
pub proof fn units_read_as_the_text_they_are_written_of(units: Seq<u16>, text: Seq<char>)
    ensures
        text::utf16_text(units) == Some(text) <==> text::utf16(text) == units,
        text::utf16_text(units) is None <==> forall|any: Seq<char>|
            #[trigger] text::utf16(any) != units,
{
    if text::utf16(text) == units {
        text::utf16_text_undoes_utf16(text);
    }
}

/// Bytes are read two to a code unit, the low one first, and an odd last one is left out.
pub proof fn bytes_are_read_two_to_a_unit(read: Seq<u8>)
    ensures
        text::byte_units(read).len() == read.len() / 2,
        forall|i: int|
            0 <= i < read.len() / 2 ==> #[trigger] text::byte_units(read)[i] == read[2 * i] + 0x100
                * read[2 * i + 1],
{
}

/// Bytes that are not UTF-16 are read one to a character, each the character with its number.
pub proof fn bytes_are_read_one_to_a_character(read: Seq<u8>)
    ensures
        text::latin1_text(read).len() == read.len(),
        forall|i: int|
            0 <= i < read.len() ==> #[trigger] text::latin1_text(read)[i] as int == read[i],
{
}

/// Below 0x80, white space is the tab, the four that follow it, and the space.
pub proof fn ascii_white_space(c: char)
    requires
        (c as int) < 0x80,
    ensures
        text::is_white_space(c) <==> c as int == 0x20 || 0x9 <= c as int <= 0xD,
{
}

/// A trimmed text is what stands between white space on both sides, begins and ends with none, and
/// keeps all that is between.
pub proof fn what_is_trimmed_is_the_white_space_around(text: Seq<char>) -> (ends: (int, int))
    ensures
        0 <= ends.0 <= ends.1 <= text.len(),
        text::trimmed(text) == text.subrange(ends.0, ends.1),
        forall|i: int| 0 <= i < ends.0 ==> text::is_white_space(#[trigger] text[i]),
        forall|i: int| ends.1 <= i < text.len() ==> text::is_white_space(#[trigger] text[i]),
        ends.0 < ends.1 ==> !text::is_white_space(text[ends.0]) && !text::is_white_space(
            text[ends.1 - 1],
        ),
    decreases text.len(),
{
    if text.len() > 0 && text::is_white_space(text.first()) {
        let rest = text.drop_first();
        let inner = what_is_trimmed_is_the_white_space_around(rest);
        let ends = (inner.0 + 1, inner.1 + 1);
        assert(text::trimmed(text) =~= text.subrange(ends.0, ends.1));
        assert forall|i: int| 0 <= i < ends.0 implies text::is_white_space(#[trigger] text[i]) by {
            if i > 0 {
                assert(rest[i - 1] == text[i]);
            }
        }
        assert forall|i: int| ends.1 <= i < text.len() implies text::is_white_space(
            #[trigger] text[i],
        ) by {
            assert(rest[i - 1] == text[i]);
        }
        ends
    } else if text.len() > 0 && text::is_white_space(text.last()) {
        let rest = text.drop_last();
        let ends = what_is_trimmed_is_the_white_space_around(rest);
        assert(text::trimmed(text) =~= text.subrange(ends.0, ends.1));
        assert forall|i: int| 0 <= i < ends.0 implies text::is_white_space(#[trigger] text[i]) by {
            assert(rest[i] == text[i]);
        }
        assert forall|i: int| ends.1 <= i < text.len() implies text::is_white_space(
            #[trigger] text[i],
        ) by {
            if i < rest.len() {
                assert(rest[i] == text[i]);
            }
        }
        ends
    } else {
        assert(text =~= text.subrange(0, text.len() as int));
        (0, text.len() as int)
    }
}

/// White space around a text that neither begins nor ends with any is what is trimmed of it.
pub proof fn white_space_around_a_text_is_trimmed(
    before: Seq<char>,
    text: Seq<char>,
    behind: Seq<char>,
)
    requires
        forall|i: int| 0 <= i < before.len() ==> text::is_white_space(#[trigger] before[i]),
        forall|i: int| 0 <= i < behind.len() ==> text::is_white_space(#[trigger] behind[i]),
        text.len() > 0 ==> !text::is_white_space(text.first()) && !text::is_white_space(
            text.last(),
        ),
    ensures
        text::trimmed(before + text + behind) == text,
{
    let whole = before + text + behind;
    let ends = what_is_trimmed_is_the_white_space_around(whole);
    let (from, to) = (before.len() as int, before.len() + text.len());
    assert(forall|i: int| 0 <= i < from ==> #[trigger] whole[i] == before[i]);
    assert(forall|i: int| to <= i < whole.len() ==> #[trigger] whole[i] == behind[i - to]);
    if text.len() > 0 {
        assert(whole[from] == text.first());
        assert(whole[to - 1] == text.last());
        assert(ends.0 == from);
        assert(ends.1 == to);
    } else {
        assert(forall|i: int| 0 <= i < whole.len() ==> text::is_white_space(#[trigger] whole[i]));
        assert(ends.0 == ends.1);
    }
    assert(whole.subrange(ends.0, ends.1) =~= text);
}

/// The number that decimal digits are read as, the first one the highest.
pub open spec fn read_decimal(digits: Seq<char>) -> int
    decreases digits.len(),
{
    if digits.len() == 0 {
        0
    } else {
        10 * read_decimal(digits.drop_last()) + (digits.last() as int - '0' as int)
    }
}

/// A number in decimal digits reads as that number, is made of digits, and begins with no zero but
/// where it is one digit.
pub proof fn decimal_digits_read_back(n: nat)
    ensures
        read_decimal(text::decimal(n)) == n,
        text::decimal(n).len() > 0,
        forall|i: int|
            0 <= i < text::decimal(n).len() ==> '0' <= #[trigger] text::decimal(n)[i] <= '9',
        text::decimal(n).len() > 1 ==> text::decimal(n)[0] != '0',
        n > 0 ==> text::decimal(n)[0] != '0',
    decreases n,
{
    let written = text::decimal(n);
    if n < 10 {
        assert(written.drop_last() =~= seq![]);
        assert(read_decimal(written.drop_last()) == 0);
    } else {
        decimal_digits_read_back(n / 10);
        let front = text::decimal(n / 10);
        assert(written.drop_last() =~= front);
        assert(written[0] == front[0]);
    }
}

/// A thirty-two-bit number is written in four bytes, the lowest first.
pub proof fn four_bytes_sum_to_the_number(n: u32)
    ensures
        bytes::le32(n).len() == 4,
        bytes::le32(n)[0] + 0x100 * bytes::le32(n)[1] + 0x1_0000 * bytes::le32(n)[2] + 0x100_0000
            * bytes::le32(n)[3] == n,
{
}

/// The six bits that a base64 symbol stands for (RFC 4648, table 1).
pub open spec fn six_bits(symbol: char) -> int {
    if 'A' <= symbol <= 'Z' {
        symbol as int - 'A' as int
    } else if 'a' <= symbol <= 'z' {
        symbol as int - 'a' as int + 26
    } else if '0' <= symbol <= '9' {
        symbol as int - '0' as int + 52
    } else if symbol == '+' {
        62
    } else if symbol == '/' {
        63
    } else {
        -1
    }
}

/// Every three bytes are four base64 symbols of six bits each; one byte left over is two symbols
/// and two `=`, and two are three symbols and one `=`, the bits behind them zero.
pub proof fn base64_is_six_bits_to_a_symbol(written: Seq<u8>, k: int)
    requires
        0 <= 3 * k < written.len(),
    ensures
        base64_text::encoded(written).len() == 4 * ((written.len() + 2) / 3),
        ({
            let text = base64_text::encoded(written);
            let left = written.len() - 3 * k;
            let (p, q, r, s) = (text[4 * k], text[4 * k + 1], text[4 * k + 2], text[4 * k + 3]);
            &&& 0 <= six_bits(p) < 64
            &&& 0 <= six_bits(q) < 64
            &&& left >= 3 ==> {
                &&& 0 <= six_bits(r) < 64
                &&& 0 <= six_bits(s) < 64
                &&& 0x4_0000 * six_bits(p) + 0x1000 * six_bits(q) + 0x40 * six_bits(r) + six_bits(s)
                    == 0x1_0000 * written[3 * k] + 0x100 * written[3 * k + 1] + written[3 * k + 2]
            }
            &&& left == 2 ==> {
                &&& s == '='
                &&& 0 <= six_bits(r) < 64
                &&& 0x1000 * six_bits(p) + 0x40 * six_bits(q) + six_bits(r) == 4 * (0x100
                    * written[3 * k] + written[3 * k + 1])
            }
            &&& left == 1 ==> {
                &&& r == '='
                &&& s == '='
                &&& 0x40 * six_bits(p) + six_bits(q) == 16 * written[3 * k]
            }
        }),
    decreases written.len(),
{
    let whole = base64_text::encoded(written);
    let front = base64_text::quad(written);
    lemma_length(written);
    if k == 0 {
        assert(whole[0] == front[0] && whole[1] == front[1]);
        assert(whole[2] == front[2] && whole[3] == front[3]);
        lemma_front(written);
    } else {
        let rest = written.skip(3);
        base64_is_six_bits_to_a_symbol(rest, k - 1);
        let behind = base64_text::encoded(rest);
        assert(whole == front + behind);
        assert(forall|i: int|
            4 <= i < whole.len() ==> #[trigger] whole[i] == behind[i - 4]);
        assert(whole[4 * k] == behind[4 * (k - 1)]);
        assert(whole[4 * k + 1] == behind[4 * (k - 1) + 1]);
        assert(whole[4 * k + 2] == behind[4 * (k - 1) + 2]);
        assert(whole[4 * k + 3] == behind[4 * (k - 1) + 3]);
        assert(rest[3 * (k - 1)] == written[3 * k]);
        if written.len() - 3 * k >= 2 {
            assert(rest[3 * (k - 1) + 1] == written[3 * k + 1]);
        }
        if written.len() - 3 * k >= 3 {
            assert(rest[3 * (k - 1) + 2] == written[3 * k + 2]);
        }
    }
}

proof fn lemma_length(written: Seq<u8>)
    ensures
        base64_text::encoded(written).len() == 4 * ((written.len() + 2) / 3),
    decreases written.len(),
{
    if written.len() > 3 {
        lemma_length(written.skip(3));
    }
}

/// The first four symbols hold the bits of the first bytes.
proof fn lemma_front(written: Seq<u8>)
    requires
        written.len() > 0,
    ensures
        ({
            let front = base64_text::quad(written);
            let (p, q, r, s) = (front[0], front[1], front[2], front[3]);
            &&& 0 <= six_bits(p) < 64
            &&& 0 <= six_bits(q) < 64
            &&& written.len() >= 3 ==> {
                &&& 0 <= six_bits(r) < 64
                &&& 0 <= six_bits(s) < 64
                &&& 0x4_0000 * six_bits(p) + 0x1000 * six_bits(q) + 0x40 * six_bits(r) + six_bits(s)
                    == 0x1_0000 * written[0] + 0x100 * written[1] + written[2]
            }
            &&& written.len() == 2 ==> {
                &&& s == '='
                &&& 0 <= six_bits(r) < 64
                &&& 0x1000 * six_bits(p) + 0x40 * six_bits(q) + six_bits(r) == 4 * (0x100
                    * written[0] + written[1])
            }
            &&& written.len() == 1 ==> {
                &&& r == '='
                &&& s == '='
                &&& 0x40 * six_bits(p) + six_bits(q) == 16 * written[0]
            }
        }),
{
    let a = written[0] as int;
    let b = base64_text::byte_or_zero(written, 1);
    let c = base64_text::byte_or_zero(written, 2);
    lemma_symbol(a / 4);
    lemma_symbol(a % 4 * 16 + b / 16);
    lemma_symbol(b % 16 * 4 + c / 64);
    lemma_symbol(c % 64);
}

proof fn lemma_symbol(group: int)
    requires
        0 <= group < 64,
    ensures
        six_bits(base64_text::symbol(group)) == group,
{
}

/// A text decodes to bytes exactly where it is their base64 text.
pub proof fn base64_is_read_as_what_it_is_written_of(text: Seq<char>, bytes: Seq<u8>)
    ensures
        base64_text::decoded(text) == Some(bytes) <==> base64_text::encoded(bytes) == text,
        base64_text::decoded(text) is None <==> forall|any: Seq<u8>|
            #[trigger] base64_text::encoded(any) != text,
{
    if base64_text::encoded(bytes) == text {
        base64_text::decoding_undoes_encoding(bytes);
    }
}

} // verus!
