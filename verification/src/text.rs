//! Character-level text helpers shared by the protocol layer: finding the
//! first occurrence of a character, splitting a line into comma-separated
//! fields, rendering integers in decimal, and parsing the small decimal
//! fields that PMTK replies carry.

use vstd::prelude::*;
use vstd::string::*;
use crate::checksum::{hex_char_of, hex_digit_char, push_char};

verus! {

/// Index of the first occurrence of `c` in `s`, or `s.len()` when `s` does
/// not contain `c`.
pub open spec fn first_ix(s: Seq<char>, c: char) -> int
    decreases s.len(),
{
    if s.len() == 0 {
        0
    } else if s[0] == c {
        0
    } else {
        1 + first_ix(s.drop_first(), c)
    }
}

/// `first_ix` is the least index holding `c`, and is `s.len()` exactly when
/// `c` does not occur.
pub proof fn lemma_first_ix(s: Seq<char>, c: char)
    ensures
        0 <= first_ix(s, c) <= s.len(),
        first_ix(s, c) < s.len() ==> s[first_ix(s, c)] == c,
        forall|k: int| 0 <= k < first_ix(s, c) ==> s[k] != c,
    decreases s.len(),
{
    if s.len() == 0 {
    } else if s[0] == c {
    } else {
        lemma_first_ix(s.drop_first(), c);
        assert forall|k: int| 0 <= k < first_ix(s, c) implies s[k] != c by {
            if k > 0 {
                assert(s.drop_first()[k - 1] == s[k]);
            }
        }
    }
}

/// The fields of `s` separated by `sep`, in order; separators are not kept,
/// and an empty `s` yields one empty field, as `str::split` does.
pub open spec fn split_chars(s: Seq<char>, sep: char) -> Seq<Seq<char>>
    decreases s.len(),
{
    if s.len() == 0 {
        seq![Seq::<char>::empty()]
    } else {
        let rest = split_chars(s.drop_first(), sep);
        if s[0] == sep {
            seq![Seq::<char>::empty()] + rest
        } else {
            seq![seq![s[0]] + rest[0]] + rest.drop_first()
        }
    }
}

/// Splitting always yields at least one field.
pub proof fn lemma_split_chars_len(s: Seq<char>, sep: char)
    ensures
        split_chars(s, sep).len() >= 1,
    decreases s.len(),
{
    if s.len() > 0 {
        lemma_split_chars_len(s.drop_first(), sep);
    }
}

/// The comma-separated fields of `s@` between positions `from` and `to`.
pub fn split_range(s: &str, from: usize, to: usize) -> (r: Vec<String>)
    requires
        from <= to <= s@.len(),
    ensures
        r.deep_view() == split_chars(s@.subrange(from as int, to as int), ','),
    decreases to - from,
{
    if from == to {
        let mut r: Vec<String> = Vec::new();
        r.push(String::new());
        proof {
            assert(s@.subrange(from as int, to as int) =~= Seq::<char>::empty());
            assert(r.deep_view() =~= split_chars(Seq::<char>::empty(), ','));
        }
        r
    } else {
        let c = s.get_char(from);
        let mut rest = split_range(s, from + 1, to);
        proof {
            lemma_split_chars_len(s@.subrange(from as int + 1, to as int), ',');
            assert(s@.subrange(from as int, to as int).drop_first() =~= s@.subrange(
                from as int + 1,
                to as int,
            ));
            assert(s@.subrange(from as int, to as int)[0] == s@[from as int]);
        }
        if c == ',' {
            rest.insert(0, String::new());
            proof {
                let whole = s@.subrange(from as int, to as int);
                assert(rest.deep_view() =~= split_chars(whole, ','));
            }
            rest
        } else {
            let mut head = String::new();
            push_char(&mut head, c);
            head.append(rest[0].as_str());
            rest.set(0, head);
            proof {
                let whole = s@.subrange(from as int, to as int);
                let sub = split_chars(whole.drop_first(), ',');
                assert(rest.deep_view()[0] =~= seq![whole[0]] + sub[0]);
                assert(rest.deep_view() =~= split_chars(whole, ','));
            }
            rest
        }
    }
}

/// The comma-separated fields of the whole of `s`.
pub fn split_fields(s: &str) -> (r: Vec<String>)
    ensures
        r.deep_view() == split_chars(s@, ','),
{
    let len = s.unicode_len();
    let r = split_range(s, 0, len);
    proof {
        assert(s@.subrange(0, len as int) =~= s@);
    }
    r
}

/// Whether `s` is exactly the one-character string holding `c`.
pub fn string_is_char(s: &String, c: char) -> (r: bool)
    ensures
        r == (s@ == seq![c]),
{
    if s.as_str().unicode_len() == 1 {
        let c0 = s.as_str().get_char(0);
        proof {
            if c0 == c {
                assert(s@ =~= seq![c]);
            }
        }
        c0 == c
    } else {
        false
    }
}

/// The decimal digits of `n`, most significant first.
pub open spec fn dec_digits(n: nat) -> Seq<char>
    decreases n,
{
    if n < 10 {
        seq![hex_digit_char(n as u8)]
    } else {
        dec_digits(n / 10).push(hex_digit_char((n % 10) as u8))
    }
}

/// The decimal rendering of `n`: a minus sign for negative values, then the
/// digits of the magnitude.
pub open spec fn dec_str(n: int) -> Seq<char> {
    if n < 0 {
        seq!['-'] + dec_digits((-n) as nat)
    } else {
        dec_digits(n as nat)
    }
}

/// Appends the decimal digits of `n` to `s`.
pub fn append_u64(s: &mut String, n: u64)
    ensures
        final(s)@ == old(s)@ + dec_digits(n as nat),
    decreases n,
{
    if n < 10 {
        push_char(s, hex_char_of(n as u8));
        proof {
            assert(final(s)@ =~= old(s)@ + dec_digits(n as nat));
        }
    } else {
        append_u64(s, n / 10);
        push_char(s, hex_char_of((n % 10) as u8));
        proof {
            assert(final(s)@ =~= old(s)@ + dec_digits(n as nat));
        }
    }
}

/// Appends the decimal rendering of `n`, sign included, to `s`.
pub fn append_i64(s: &mut String, n: i64)
    requires
        n > i64::MIN,
    ensures
        final(s)@ == old(s)@ + dec_str(n as int),
{
    if n < 0 {
        push_char(s, '-');
        append_u64(s, (-n) as u64);
        proof {
            assert(final(s)@ =~= old(s)@ + dec_str(n as int));
        }
    } else {
        append_u64(s, n as u64);
    }
}

/// A decimal digit character.
pub open spec fn is_digit(c: char) -> bool {
    '0' <= c && c <= '9'
}

/// The numeric value of a digit character.
pub open spec fn digit_val(c: char) -> int
    recommends
        is_digit(c),
{
    c as int - 0x30
}

/// Every character of `s` is a decimal digit.
pub open spec fn all_digits(s: Seq<char>) -> bool {
    forall|i: int| 0 <= i < s.len() ==> is_digit(#[trigger] s[i])
}

/// The value of a digit string read in base ten.
pub open spec fn digits_val(s: Seq<char>) -> int
    decreases s.len(),
{
    if s.len() == 0 {
        0
    } else {
        digits_val(s.drop_last()) * 10 + digit_val(s.last())
    }
}

/// A digit string has a nonnegative value.
pub proof fn lemma_digits_val_nonneg(s: Seq<char>)
    requires
        all_digits(s),
    ensures
        digits_val(s) >= 0,
    decreases s.len(),
{
    if s.len() > 0 {
        lemma_digits_val_nonneg(s.drop_last());
    }
}

/// The value of the digits of `s` from `from` on, capped at 100001, or
/// `None` when that range is empty or holds a non-digit.
fn digits_value_capped(s: &str, from: usize) -> (r: Option<u32>)
    requires
        from <= s@.len(),
    ensures
        ({
            let ds = s@.subrange(from as int, s@.len() as int);
            match r {
                None => !(ds.len() > 0 && all_digits(ds)),
                Some(v) => ds.len() > 0 && all_digits(ds) && v == (if digits_val(ds) <= 100000 {
                    digits_val(ds)
                } else {
                    100001
                }),
            }
        }),
{
    let len = s.unicode_len();
    if from == len {
        return None;
    }
    let mut acc: u32 = 0;
    let mut i: usize = from;
    #[verifier::loop_isolation(false)]
    while i < len
        invariant
            from <= i <= len,
            all_digits(s@.subrange(from as int, i as int)),
            acc == (if digits_val(s@.subrange(from as int, i as int)) <= 100000 {
                digits_val(s@.subrange(from as int, i as int))
            } else {
                100001
            }),
        decreases len - i,
    {
        let c = s.get_char(i);
        let u = c as u32;
        if u < 0x30 || u > 0x39 {
            proof {
                let ds = s@.subrange(from as int, s@.len() as int);
                assert(ds[i - from] == s@[i as int]);
                assert(!is_digit(ds[i - from]));
            }
            return None;
        }
        proof {
            let pfx = s@.subrange(from as int, i as int);
            lemma_digits_val_nonneg(pfx);
            assert(s@.subrange(from as int, i + 1).drop_last() =~= pfx);
            assert(s@.subrange(from as int, i + 1).last() == s@[i as int]);
        }
        acc = acc * 10 + (u - 0x30);
        if acc > 100000 {
            acc = 100001;
        }
        i = i + 1;
    }
    proof {
        assert(s@.subrange(from as int, i as int) =~= s@.subrange(from as int, s@.len() as int));
    }
    Some(acc)
}

/// The value `str::parse::<i8>` would yield for `s`: an optional sign, then
/// one or more digits, the whole within the range of `i8`.
pub open spec fn parse_i8_spec(s: Seq<char>) -> Option<i8> {
    let neg = s.len() > 0 && s[0] == '-';
    let ds = if s.len() > 0 && (s[0] == '-' || s[0] == '+') {
        s.drop_first()
    } else {
        s
    };
    if ds.len() > 0 && all_digits(ds) {
        let v = digits_val(ds);
        if neg {
            if v <= 128 {
                Some((-v) as i8)
            } else {
                None
            }
        } else {
            if v <= 127 {
                Some(v as i8)
            } else {
                None
            }
        }
    } else {
        None
    }
}

/// The value `str::parse::<u16>` would yield for `s`: an optional plus sign,
/// then one or more digits, the whole within the range of `u16`.
pub open spec fn parse_u16_spec(s: Seq<char>) -> Option<u16> {
    let ds = if s.len() > 0 && s[0] == '+' {
        s.drop_first()
    } else {
        s
    };
    if ds.len() > 0 && all_digits(ds) {
        let v = digits_val(ds);
        if v <= 65535 {
            Some(v as u16)
        } else {
            None
        }
    } else {
        None
    }
}

/// Parses a signed decimal byte as `str::parse::<i8>` does.
pub fn parse_i8(s: &str) -> (r: Option<i8>)
    ensures
        r == parse_i8_spec(s@),
{
    let len = s.unicode_len();
    if len == 0 {
        return None;
    }
    let c0 = s.get_char(0);
    let (neg, from): (bool, usize) = if c0 == '-' {
        (true, 1)
    } else if c0 == '+' {
        (false, 1)
    } else {
        (false, 0)
    };
    proof {
        if from == 1 {
            assert(s@.subrange(1, s@.len() as int) =~= s@.drop_first());
        } else {
            assert(s@.subrange(0, s@.len() as int) =~= s@);
        }
    }
    match digits_value_capped(s, from) {
        None => None,
        Some(v) => {
            if neg {
                if v <= 128 {
                    Some((-(v as i32)) as i8)
                } else {
                    None
                }
            } else {
                if v <= 127 {
                    Some(v as i8)
                } else {
                    None
                }
            }
        },
    }
}

/// Parses an unsigned decimal word as `str::parse::<u16>` does.
pub fn parse_u16(s: &str) -> (r: Option<u16>)
    ensures
        r == parse_u16_spec(s@),
{
    let len = s.unicode_len();
    if len == 0 {
        return None;
    }
    let c0 = s.get_char(0);
    let from: usize = if c0 == '+' {
        1
    } else {
        0
    };
    if c0 == '-' {
        proof {
            let ds = s@;
            assert(ds[0] == '-');
            assert(!is_digit(ds[0]));
        }
        return None;
    }
    proof {
        if from == 1 {
            assert(s@.subrange(1, s@.len() as int) =~= s@.drop_first());
        } else {
            assert(s@.subrange(0, s@.len() as int) =~= s@);
        }
    }
    match digits_value_capped(s, from) {
        None => None,
        Some(v) => {
            if v <= 65535 {
                Some(v as u16)
            } else {
                None
            }
        },
    }
}

} // verus!
