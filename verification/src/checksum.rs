//! The checksum engine and the command encoder.
//!
//! A PMTK sentence body is checksummed by XOR-ing its bytes; the checksum is
//! rendered as two uppercase hexadecimal digits. An encoded command is
//! `$` + body + `*` + checksum + CRLF, with the whole line folded to
//! uppercase. A received line is checksum-valid when the XOR of the
//! characters strictly between the leading `$` and the first `*` matches the
//! two hexadecimal digits after that `*`, compared case-insensitively.
//!
//! The protocol's alphabet is ASCII, so the library works at the character
//! level and takes a character's code point as its byte value; lines holding
//! characters outside ASCII are rejected as invalid rather than decoded.

use vstd::prelude::*;
use vstd::string::*;
use vstd::utf8::is_ascii_chars;
use crate::text::{first_ix, lemma_first_ix};

verus! {

/// XOR of the byte values of a sequence of characters; on the protocol's
/// ASCII alphabet this is the byte-wise XOR of the sentence.
pub open spec fn xor_chars(s: Seq<char>) -> u8
    decreases s.len(),
{
    if s.len() == 0 {
        0u8
    } else {
        xor_chars(s.drop_last()) ^ (s.last() as u8)
    }
}

/// A lowercase ASCII letter.
pub open spec fn is_lower_ascii(c: char) -> bool {
    'a' <= c && c <= 'z'
}

/// ASCII uppercase folding of one character; characters other than `a`-`z`
/// are unchanged.
pub open spec fn upper_char(c: char) -> char {
    if is_lower_ascii(c) {
        (((c as u8) - 32) as u8) as char
    } else {
        c
    }
}

/// The uppercase hexadecimal digit for a value below 16.
pub open spec fn hex_digit_char(v: u8) -> char
    recommends
        v < 16,
{
    if v < 10 {
        ((v + 0x30) as u8) as char
    } else {
        ((v + 0x37) as u8) as char
    }
}

/// The two-digit uppercase hexadecimal rendering of a checksum.
pub open spec fn checksum_field(x: u8) -> Seq<char> {
    seq![hex_digit_char(x / 16), hex_digit_char(x % 16)]
}

/// The wire form of a command body: `$`, the body folded to uppercase, `*`,
/// the two checksum digits (computed over the body as given), and CRLF.
pub open spec fn encoded(body: Seq<char>) -> Seq<char> {
    seq!['$'] + body.map_values(|c: char| upper_char(c)) + seq!['*']
        + checksum_field(xor_chars(body)) + seq!['\r', '\n']
}

/// Relies on String::push from std: appends one character at the end of the
/// string.
#[verifier::external_body]
pub(crate) fn push_char(s: &mut String, c: char)
    ensures
        final(s)@ == old(s)@.push(c),
{
    s.push(c);
}

/// The uppercase hexadecimal digit of a value below 16.
pub(crate) fn hex_char_of(v: u8) -> (c: char)
    requires
        v < 16,
    ensures
        c == hex_digit_char(v),
{
    if v < 10 {
        (v + 0x30) as char
    } else {
        (v + 0x37) as char
    }
}

/// ASCII uppercase folding of one character.
fn to_upper(c: char) -> (r: char)
    requires
        c <= '\u{7f}',
    ensures
        r == upper_char(c),
{
    let u = c as u32;
    if 97 <= u && u <= 122 {
        ((u - 32) as u8) as char
    } else {
        c
    }
}

/// XOR of the byte values of the characters of `s` between `from` and `to`.
pub(crate) fn xor_range(s: &str, from: usize, to: usize) -> (x: u8)
    requires
        s.is_ascii(),
        from <= to <= s@.len(),
    ensures
        x == xor_chars(s@.subrange(from as int, to as int)),
{
    let mut x: u8 = 0;
    let mut i: usize = from;
    #[verifier::loop_isolation(false)]
    while i < to
        invariant
            from <= i <= to,
            x == xor_chars(s@.subrange(from as int, i as int)),
        decreases to - i,
    {
        let c = s.get_char(i);
        x = x ^ (c as u8);
        i = i + 1;
        proof {
            assert(s@.subrange(from as int, i as int).drop_last() =~= s@.subrange(
                from as int,
                i - 1,
            ));
            assert(s@.subrange(from as int, i as int).last() == s@[i - 1]);
        }
    }
    x
}

/// XOR checksum of a sentence body.
pub fn checksum_of(s: &str) -> (x: u8)
    requires
        s.is_ascii(),
    ensures
        x == xor_chars(s@),
{
    let len = s.unicode_len();
    let x = xor_range(s, 0, len);
    proof {
        assert(s@.subrange(0, len as int) =~= s@);
    }
    x
}

/// Index of the first `*` in `s`, or the length of `s` when there is none.
pub(crate) fn star_index(s: &str) -> (j: usize)
    ensures
        j == first_ix(s@, '*'),
{
    let len = s.unicode_len();
    let mut j: usize = 0;
    #[verifier::loop_isolation(false)]
    while j < len && s.get_char(j) != '*'
        invariant
            j <= len,
            forall|k: int| 0 <= k < j ==> s@[k] != '*',
        decreases len - j,
    {
        j = j + 1;
    }
    proof {
        lemma_first_ix(s@, '*');
    }
    j
}

/// A received line carries a valid checksum: it is ASCII, starts with `$`,
/// holds a `*` followed by at least two characters, and the XOR of the
/// characters strictly between `$` and the first `*` equals the value of the
/// two characters after that `*` read as hexadecimal digits, case
/// insensitively; whatever follows the checksum field (the line
/// terminator) is ignored. Anything else, including a line without `*`,
/// is invalid.
pub open spec fn checksum_valid(s: Seq<char>) -> bool {
    let j = first_ix(s, '*');
    let x = xor_chars(s.subrange(1, j));
    is_ascii_chars(s) && s.len() >= 1 && s[0] == '$' && j + 3 <= s.len() && upper_char(
        s[j + 1],
    ) == hex_digit_char(x / 16) && upper_char(s[j + 2]) == hex_digit_char(x % 16)
}

/// Recomputes the checksum of a received line and compares it with the
/// line's own checksum field, total over arbitrary line content.
pub fn is_valid_checksum(line: &str) -> (r: bool)
    ensures
        r == checksum_valid(line@),
{
    if !line.is_ascii() {
        return false;
    }
    let len = line.unicode_len();
    if len == 0 {
        return false;
    }
    if line.get_char(0) != '$' {
        return false;
    }
    let j = star_index(line);
    proof {
        lemma_first_ix(line@, '*');
    }
    if len - j < 3 {
        return false;
    }
    let x = xor_range(line, 1, j);
    let h1 = to_upper(line.get_char(j + 1));
    let h2 = to_upper(line.get_char(j + 2));
    h1 == hex_char_of(x / 16) && h2 == hex_char_of(x % 16)
}

/// Law: encoding then validating succeeds. For any ASCII body without `*`
/// and without lowercase letters — the alphabet of every PMTK command body —
/// re-deriving the checksum of the encoded line matches its checksum field.
///
/// The two exclusions are sharp: the encoder folds the body to uppercase
/// after checksumming the body as given, so a lowercase body (`abc`) yields
/// a line whose recomputed checksum differs, and a `*` inside the body
/// (`A*B`) cuts the validator's scan short.
pub proof fn lemma_encode_validates(body: Seq<char>)
    requires
        is_ascii_chars(body),
        forall|i: int| 0 <= i < body.len() ==> #[trigger] body[i] != '*',
        forall|i: int| 0 <= i < body.len() ==> !is_lower_ascii(#[trigger] body[i]),
    ensures
        checksum_valid(encoded(body)),
{
    let e = encoded(body);
    let n = body.len() as int;
    let up = body.map_values(|c: char| upper_char(c));
    assert(up =~= body);
    assert(e.len() == n + 6);
    assert(e[0] == '$');
    assert(forall|k: int| 1 <= k < n + 1 ==> e[k] == body[k - 1]);
    assert(e[n + 1] == '*');
    let x = xor_chars(body);
    assert(e[n + 2] == hex_digit_char(x / 16));
    assert(e[n + 3] == hex_digit_char(x % 16));
    lemma_first_ix(e, '*');
    let j = first_ix(e, '*');
    assert(j == n + 1);
    assert(e.subrange(1, n + 1) =~= body);
    assert(x / 16 < 16);
    assert(!is_lower_ascii(hex_digit_char(x / 16)));
    assert(!is_lower_ascii(hex_digit_char(x % 16)));
    assert(is_ascii_chars(e)) by {
        assert forall|k: int| 0 <= k < e.len() implies '\0' <= #[trigger] e[k] <= '\u{7f}' by {
            if 1 <= k < n + 1 {
                assert(e[k] == body[k - 1]);
            }
        }
    }
}

/// Law: the encoder is case-normalizing: no character of an encoded line is
/// a lowercase ASCII letter, whatever the body held.
pub proof fn lemma_encoded_uppercase(body: Seq<char>)
    ensures
        forall|i: int|
            0 <= i < encoded(body).len() ==> !is_lower_ascii(#[trigger] encoded(body)[i]),
{
    let e = encoded(body);
    let n = body.len() as int;
    let x = xor_chars(body);
    assert forall|i: int| 0 <= i < e.len() implies !is_lower_ascii(#[trigger] e[i]) by {
        if 1 <= i < n + 1 {
            assert(e[i] == upper_char(body[i - 1]));
        } else if i == n + 2 {
            assert(e[i] == hex_digit_char(x / 16));
            assert(x / 16 < 16);
        } else if i == n + 3 {
            assert(e[i] == hex_digit_char(x % 16));
        }
    }
}

/// Frames a command body for transmission: leading `$`, the body, `*`, the
/// two-digit XOR checksum of the body, and CRLF, the whole line folded to
/// ASCII uppercase.
pub fn add_checksum(sentence: String) -> (r: String)
    requires
        sentence.is_ascii(),
    ensures
        r@ == encoded(sentence@),
{
    let x = checksum_of(sentence.as_str());
    let mut r = String::new();
    push_char(&mut r, '$');
    let len = sentence.as_str().unicode_len();
    let mut i: usize = 0;
    #[verifier::loop_isolation(false)]
    while i < len
        invariant
            i <= len,
            r@ == seq!['$'] + sentence@.subrange(0, i as int).map_values(
                |c: char| upper_char(c),
            ),
        decreases len - i,
    {
        let c = sentence.as_str().get_char(i);
        push_char(&mut r, to_upper(c));
        i = i + 1;
        proof {
            assert(sentence@.subrange(0, i as int).map_values(|c: char| upper_char(c))
                =~= sentence@.subrange(0, i - 1).map_values(|c: char| upper_char(c)).push(
                upper_char(sentence@[i - 1])));
        }
    }
    push_char(&mut r, '*');
    push_char(&mut r, hex_char_of(x / 16));
    push_char(&mut r, hex_char_of(x % 16));
    push_char(&mut r, '\r');
    push_char(&mut r, '\n');
    proof {
        assert(sentence@.subrange(0, len as int) =~= sentence@);
        assert(r@ =~= encoded(sentence@));
    }
    r
}

} // verus!
