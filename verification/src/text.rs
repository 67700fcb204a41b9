//! Text as the protocol treats it: its white space, its upper case, its UTF-16 and its digits.

use vstd::prelude::*;

verus! {

/// Whether a character has the Unicode property `White_Space`.
pub open spec fn is_white_space(c: char) -> bool {
    let point = c as int;
    ||| 0x9 <= point <= 0xD
    ||| point == 0x20
    ||| point == 0x85
    ||| point == 0xA0
    ||| point == 0x1680
    ||| 0x2000 <= point <= 0x200A
    ||| point == 0x2028
    ||| point == 0x2029
    ||| point == 0x202F
    ||| point == 0x205F
    ||| point == 0x3000
}

/// `text` without the white space it begins and ends with.
pub open spec fn trimmed(text: Seq<char>) -> Seq<char>
    decreases text.len(),
{
    if text.len() > 0 && is_white_space(text.first()) {
        trimmed(text.drop_first())
    } else if text.len() > 0 && is_white_space(text.last()) {
        trimmed(text.drop_last())
    } else {
        text
    }
}

/// `str::trim` of std: the text without its leading and trailing white space, where white space
/// is what Unicode gives the property `White_Space`.
pub assume_specification[ str::trim ](s: &str) -> (rest: &str)
    ensures
        rest@ == trimmed(s@),
;

/// The upper case of a text, by the Unicode mapping, in no locale.
pub uninterp spec fn uppercase(text: Seq<char>) -> Seq<char>;

/// `str::to_uppercase` of std: the upper case is a function of the text alone.
pub assume_specification[ str::to_uppercase ](s: &str) -> (upper: String)
    ensures
        upper@ == uppercase(s@),
;

/// `String::push` of std: appends one character.
pub assume_specification[ String::push ](s: &mut String, c: char)
    ensures
        final(s)@ == old(s)@.push(c),
;

/// The UTF-16 code units of one character.
pub open spec fn units_of(c: char) -> Seq<u16> {
    let point = c as int;
    if point < 0x1_0000 {
        seq![point as u16]
    } else {
        seq![
            (0xD800 + (point - 0x1_0000) / 0x400) as u16,
            (0xDC00 + (point - 0x1_0000) % 0x400) as u16,
        ]
    }
}

/// The UTF-16 code units of a text.
pub open spec fn utf16(text: Seq<char>) -> Seq<u16>
    decreases text.len(),
{
    if text.len() == 0 {
        seq![]
    } else {
        utf16(text.drop_last()) + units_of(text.last())
    }
}

/// The text that `units` are the UTF-16 of, where there is one.
pub open spec fn utf16_text(units: Seq<u16>) -> Option<Seq<char>> {
    if exists|text: Seq<char>| utf16(text) == units {
        Some(choose|text: Seq<char>| utf16(text) == units)
    } else {
        None
    }
}

/// Code units as bytes, each with its low byte first.
pub open spec fn unit_bytes(units: Seq<u16>) -> Seq<u8> {
    Seq::new(
        2 * units.len(),
        |i: int|
            if i % 2 == 0 {
                (units[i / 2] % 256) as u8
            } else {
                (units[i / 2] / 256) as u8
            },
    )
}

/// Bytes as code units, two to each, low byte first; an odd last byte is left out.
pub open spec fn byte_units(bytes: Seq<u8>) -> Seq<u16> {
    Seq::new(
        bytes.len() / 2,
        |i: int| (bytes[2 * i] + 256 * bytes[2 * i + 1]) as u16,
    )
}

/// The bytes of a text in UTF-16, low byte first.
pub open spec fn utf16_le(text: Seq<char>) -> Seq<u8> {
    unit_bytes(utf16(text))
}

/// A character is no surrogate, and lies within the planes.
proof fn lemma_scalar_value(c: char)
    ensures
        0 <= c as int <= 0xD7FF || 0xE000 <= c as int <= 0x10_FFFF,
{
}

/// No two texts have the same UTF-16.
pub proof fn utf16_is_injective(x: Seq<char>, y: Seq<char>)
    requires
        utf16(x) == utf16(y),
    ensures
        x == y,
    decreases x.len(),
{
    if x.len() == 0 || y.len() == 0 {
        assert(x =~= y);
    } else {
        let (c, d) = (x.last(), y.last());
        let (u, v) = (units_of(c), units_of(d));
        let units = utf16(x);
        lemma_scalar_value(c);
        lemma_scalar_value(d);
        assert(units.last() == u.last() && units.last() == v.last());
        assert(u.len() == v.len());
        assert(forall|i: int| 0 <= i < u.len() ==> u[i] == units[units.len() - u.len() + i]);
        assert(forall|i: int| 0 <= i < v.len() ==> v[i] == units[units.len() - v.len() + i]);
        if u.len() == 2 {
            assert(u[0] == v[0] && u[1] == v[1]);
        }
        assert(c == d);
        assert(utf16(x.drop_last()) =~= units.take(units.len() - u.len()));
        assert(utf16(y.drop_last()) =~= units.take(units.len() - v.len()));
        utf16_is_injective(x.drop_last(), y.drop_last());
        assert(x =~= x.drop_last().push(c));
        assert(y =~= y.drop_last().push(d));
    }
}

/// A text written in UTF-16 is read back from its code units.
pub proof fn utf16_text_undoes_utf16(text: Seq<char>)
    ensures
        utf16_text(utf16(text)) == Some(text),
{
    let units = utf16(text);
    let read = choose|read: Seq<char>| utf16(read) == units;
    utf16_is_injective(read, text);
}

/// Code units written as bytes are read back from them.
pub proof fn byte_units_undo_unit_bytes(units: Seq<u16>)
    ensures
        byte_units(unit_bytes(units)) == units,
{
    let bytes = unit_bytes(units);
    assert forall|i: int| 0 <= i < units.len() implies #[trigger] byte_units(bytes)[i] == units[i] by {
        assert(bytes[2 * i] == (units[(2 * i) / 2] % 256) as u8);
        assert(bytes[2 * i + 1] == (units[(2 * i + 1) / 2] / 256) as u8);
        assert((2 * i) / 2 == i && (2 * i + 1) / 2 == i);
    }
    assert(byte_units(bytes) =~= units);
}

/// The bytes of `text` in UTF-16, low byte first, appended to `bytes`.
pub(crate) fn append_utf16_le(bytes: &mut Vec<u8>, text: &str)
    ensures
        final(bytes)@ == old(bytes)@ + utf16_le(text@),
{
    let ghost before = bytes@;
    assert(bytes@ =~= before + unit_bytes(utf16(text@.take(0))));
    for c in iter: text.chars()
        invariant
            iter.seq() == text@,
            bytes@ == before + unit_bytes(utf16(text@.take(iter.index()))),
    {
        let ghost done = text@.take(iter.index());
        let ghost next = text@.take(iter.index() + 1);
        let point: u32 = c as u32;
        proof {
            lemma_scalar_value(c);
            assert(next.drop_last() =~= done);
            assert(next.last() == c);
            assert(utf16(next) == utf16(done) + units_of(c));
        }
        if point < 0x1_0000 {
            bytes.push((point % 256) as u8);
            bytes.push((point / 256) as u8);
        } else {
            let high: u32 = 0xD800 + (point - 0x1_0000) / 0x400;
            let low: u32 = 0xDC00 + (point - 0x1_0000) % 0x400;
            bytes.push((high % 256) as u8);
            bytes.push((high / 256) as u8);
            bytes.push((low % 256) as u8);
            bytes.push((low / 256) as u8);
        }
        assert(bytes@ =~= before + unit_bytes(utf16(next)));
    }
    assert(text@.take(text@.len() as int) =~= text@);
}

/// The error of `String::from_utf16`.
#[verifier::external_type_specification]
#[verifier::external_body]
pub struct ExFromUtf16Error(std::string::FromUtf16Error);

/// `String::from_utf16` of std: the text that the code units are the UTF-16 of, and an error
/// where they are the UTF-16 of none.
pub assume_specification[ String::from_utf16 ](units: &[u16]) -> (read: Result<
    String,
    std::string::FromUtf16Error,
>)
    ensures
        match read {
            Ok(text) => utf16(text@) == units@,
            Err(_) => forall|text: Seq<char>| utf16(text) != units@,
        },
;

/// Reads UTF-16 bytes, low byte first.
pub(crate) fn from_utf16_le(bytes: &[u8]) -> (read: Option<String>)
    ensures
        match read {
            Some(text) => utf16_text(byte_units(bytes@)) == Some(text@),
            None => utf16_text(byte_units(bytes@)) is None,
        },
{
    let mut units: Vec<u16> = Vec::new();
    let mut at: usize = 0;
    while bytes.len() - at >= 2
        invariant
            at <= bytes.len(),
            at == 2 * units.len(),
            forall|i: int|
                0 <= i < units.len() ==> #[trigger] units[i] == (bytes[2 * i] + 256 * bytes[2 * i
                    + 1]) as u16,
        decreases bytes.len() - at,
    {
        units.push(bytes[at] as u16 + 256 * bytes[at + 1] as u16);
        at += 2;
    }
    assert(units@ =~= byte_units(bytes@));
    match String::from_utf16(units.as_slice()) {
        Ok(text) => {
            proof {
                utf16_text_undoes_utf16(text@);
            }
            Some(text)
        },
        Err(_) => None,
    }
}

/// Each byte as the character with its number.
pub open spec fn latin1_text(bytes: Seq<u8>) -> Seq<char> {
    bytes.map_values(|byte: u8| byte as char)
}

/// Reads bytes one character each.
pub(crate) fn from_latin1(bytes: &[u8]) -> (text: String)
    ensures
        text@ == latin1_text(bytes@),
{
    let mut text = String::new();
    for at in 0..bytes.len()
        invariant
            text@ == latin1_text(bytes@.take(at as int)),
    {
        text.push(bytes[at] as char);
        assert(text@ =~= latin1_text(bytes@.take(at + 1)));
    }
    assert(bytes@.take(bytes.len() as int) =~= bytes@);
    text
}

/// A number in decimal digits.
pub open spec fn decimal(n: nat) -> Seq<char>
    decreases n,
{
    if n < 10 {
        seq![(48 + n) as char]
    } else {
        decimal(n / 10).push((48 + n % 10) as char)
    }
}

/// Writes a number in decimal digits.
pub(crate) fn to_decimal(n: u64) -> (text: String)
    ensures
        text@ == decimal(n as nat),
    decreases n,
{
    if n < 10 {
        let mut text = String::new();
        text.push((48 + n as u8) as char);
        assert(text@ =~= decimal(n as nat));
        text
    } else {
        let mut text = to_decimal(n / 10);
        text.push((48 + (n % 10) as u8) as char);
        text
    }
}

} // verus!
