//! Base64 as RFC 4648 section 4 writes it, padded.

use base64::engine::general_purpose::STANDARD;
use base64::Engine;
use crate::text;
use vstd::prelude::*;

verus! {

/// The symbol that stands for a group of six bits.
pub open spec fn symbol(group: int) -> char {
    if group < 26 {
        (65 + group) as char
    } else if group < 52 {
        (97 + group - 26) as char
    } else if group < 62 {
        (48 + group - 52) as char
    } else if group == 62 {
        '+'
    } else {
        '/'
    }
}

/// The byte at `at`, and zero past the end.
pub open spec fn byte_or_zero(bytes: Seq<u8>, at: int) -> int {
    if 0 <= at < bytes.len() {
        bytes[at] as int
    } else {
        0
    }
}

/// The four symbols of the first three bytes, with `=` where a byte is missing.
pub open spec fn quad(bytes: Seq<u8>) -> Seq<char> {
    let (a, b, c) = (byte_or_zero(bytes, 0), byte_or_zero(bytes, 1), byte_or_zero(bytes, 2));
    seq![
        symbol(a / 4),
        symbol(a % 4 * 16 + b / 16),
        if bytes.len() > 1 { symbol(b % 16 * 4 + c / 64) } else { '=' },
        if bytes.len() > 2 { symbol(c % 64) } else { '=' },
    ]
}

/// The base64 text of `bytes`.
pub open spec fn encoded(bytes: Seq<u8>) -> Seq<char>
    decreases bytes.len(),
{
    if bytes.len() == 0 {
        seq![]
    } else if bytes.len() <= 3 {
        quad(bytes)
    } else {
        quad(bytes) + encoded(bytes.skip(3))
    }
}

/// The bytes that `text` is the base64 text of, where it is one.
pub open spec fn decoded(text: Seq<char>) -> Option<Seq<u8>> {
    if exists|bytes: Seq<u8>| encoded(bytes) == text {
        Some(choose|bytes: Seq<u8>| encoded(bytes) == text)
    } else {
        None
    }
}

proof fn lemma_symbol_injective(m: int, n: int)
    requires
        0 <= m < 64,
        0 <= n < 64,
        symbol(m) == symbol(n),
    ensures
        m == n,
{
}

proof fn lemma_symbol_is_no_padding(n: int)
    requires
        0 <= n < 64,
    ensures
        symbol(n) != '=',
{
}

proof fn lemma_groups(a: int, b: int, c: int)
    requires
        0 <= a < 256,
        0 <= b < 256,
        0 <= c < 256,
    ensures
        0 <= a / 4 < 64,
        0 <= a % 4 * 16 + b / 16 < 64,
        0 <= b % 16 * 4 + c / 64 < 64,
        0 <= c % 64 < 64,
{
}

/// Two byte strings with the same symbols in front agree on their first three bytes.
proof fn lemma_quad_injective(x: Seq<u8>, y: Seq<u8>)
    requires
        x.len() > 0,
        y.len() > 0,
        quad(x) == quad(y),
    ensures
        x.len() >= 3 <==> y.len() >= 3,
        x.len() < 3 ==> x == y,
        x.len() >= 3 ==> x.take(3) == y.take(3),
{
    let (a, b, c) = (byte_or_zero(x, 0), byte_or_zero(x, 1), byte_or_zero(x, 2));
    let (d, e, f) = (byte_or_zero(y, 0), byte_or_zero(y, 1), byte_or_zero(y, 2));
    lemma_groups(a, b, c);
    lemma_groups(d, e, f);
    assert forall|i: int| 0 <= i < 4 implies quad(x)[i] == quad(y)[i] by {}
    assert(quad(x)[0] == quad(y)[0] && quad(x)[1] == quad(y)[1]);
    assert(quad(x)[2] == quad(y)[2] && quad(x)[3] == quad(y)[3]);
    lemma_symbol_injective(a / 4, d / 4);
    lemma_symbol_injective(a % 4 * 16 + b / 16, d % 4 * 16 + e / 16);
    lemma_symbol_is_no_padding(b % 16 * 4 + c / 64);
    lemma_symbol_is_no_padding(e % 16 * 4 + f / 64);
    lemma_symbol_is_no_padding(c % 64);
    lemma_symbol_is_no_padding(f % 64);
    assert(a % 4 == d % 4 && b / 16 == e / 16);
    assert(a == d);
    if x.len() > 1 {
        lemma_symbol_injective(b % 16 * 4 + c / 64, e % 16 * 4 + f / 64);
        assert(b == e);
        if x.len() > 2 {
            lemma_symbol_injective(c % 64, f % 64);
            assert(c == f);
            assert(x.take(3) =~= y.take(3));
        } else {
            assert(x =~= y);
        }
    } else {
        assert(x =~= y);
    }
}

/// No two byte strings have the same base64 text.
pub proof fn encoding_is_injective(x: Seq<u8>, y: Seq<u8>)
    requires
        encoded(x) == encoded(y),
    ensures
        x == y,
    decreases x.len(),
{
    lemma_encoded_front(x);
    lemma_encoded_front(y);
    if x.len() == 0 || y.len() == 0 {
        assert(x =~= y);
    } else {
        assert(quad(x) =~= encoded(x).take(4));
        assert(quad(y) =~= encoded(y).take(4));
        lemma_quad_injective(x, y);
        if x.len() >= 3 {
            assert(encoded(x.skip(3)) =~= encoded(x).skip(4));
            assert(encoded(y.skip(3)) =~= encoded(y).skip(4));
            encoding_is_injective(x.skip(3), y.skip(3));
            assert(x =~= x.take(3) + x.skip(3));
            assert(y =~= y.take(3) + y.skip(3));
        }
    }
}

proof fn lemma_encoded_front(bytes: Seq<u8>)
    ensures
        bytes.len() == 0 ==> encoded(bytes).len() == 0,
        bytes.len() > 0 ==> encoded(bytes).len() >= 4 && encoded(bytes).take(4) == quad(bytes),
        bytes.len() >= 3 ==> encoded(bytes) == quad(bytes) + encoded(bytes.skip(3)),
{
    if bytes.len() > 0 {
        assert(encoded(bytes).take(4) =~= quad(bytes));
    }
    if bytes.len() == 3 {
        assert(encoded(bytes.skip(3)) =~= seq![]);
        assert(encoded(bytes) =~= quad(bytes) + encoded(bytes.skip(3)));
    }
}

/// What is written in base64 is what is read from it.
pub proof fn decoding_undoes_encoding(bytes: Seq<u8>)
    ensures
        decoded(encoded(bytes)) == Some(bytes),
{
    let text = encoded(bytes);
    let read = choose|read: Seq<u8>| encoded(read) == text;
    encoding_is_injective(read, bytes);
}

/// Base64 text holds no white space.
pub proof fn encoding_holds_no_white_space(bytes: Seq<u8>)
    ensures
        forall|i: int|
            0 <= i < encoded(bytes).len() ==> !text::is_white_space(#[trigger] encoded(bytes)[i]),
        text::trimmed(encoded(bytes)) == encoded(bytes),
    decreases bytes.len(),
{
    let (a, b, c) = (byte_or_zero(bytes, 0), byte_or_zero(bytes, 1), byte_or_zero(bytes, 2));
    lemma_groups(a, b, c);
    assert(forall|n: int| 0 <= n < 64 ==> !text::is_white_space(#[trigger] symbol(n)));
    assert(forall|i: int| 0 <= i < 4 ==> !text::is_white_space(#[trigger] quad(bytes)[i]));
    if bytes.len() > 3 {
        encoding_holds_no_white_space(bytes.skip(3));
    }
}

/// `Engine::decode` of the `base64` crate on its `STANDARD` engine: padding is required, and so
/// are zero bits behind the last byte, so that a text decodes to the bytes it is the base64 text
/// of and every other text is refused.
#[verifier::external_body]
fn standard_decode(text: &str) -> (read: Option<Vec<u8>>)
    ensures
        match read {
            Some(bytes) => encoded(bytes@) == text@,
            None => forall|bytes: Seq<u8>| encoded(bytes) != text@,
        },
{
    STANDARD.decode(text).ok()
}

/// Reads base64.
pub fn decode(text: &str) -> (read: Option<Vec<u8>>)
    ensures
        match read {
            Some(bytes) => decoded(text@) == Some(bytes@),
            None => decoded(text@) is None,
        },
{
    let read = standard_decode(text);
    proof {
        if let Some(bytes) = &read {
            decoding_undoes_encoding(bytes@);
        }
    }
    read
}

} // verus!
