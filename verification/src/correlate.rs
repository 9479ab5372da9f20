//! The two reply-correlation primitives: a bounded scan for a `$PMTK001`
//! acknowledgement, and a bounded scan for any `$PMTK` reply.
//!
//! Both work opportunistically over whatever lines arrive: a line that does
//! not match the wanted prefix, or whose checksum does not validate, is
//! discarded and the search goes on until the lookahead budget is spent.

use vstd::prelude::*;
use vstd::string::*;
use crate::checksum::{checksum_valid, is_valid_checksum, star_index};
use crate::text::{first_ix, lemma_first_ix, lemma_split_chars_len, split_chars, split_range};

verus! {

/// Outcome of a `$PMTK001` acknowledgement search.
#[derive(Debug, PartialEq, Eq, Structural)]
pub enum Pmtk001Ack {
    /// The device reported the command invalid (flag `0`).
    Invalid,
    /// The device does not support the command (flag `1`).
    Unsupported,
    /// The command was valid but failed (flag `2`).
    Failed,
    /// The command was carried out (flag `3`).
    Success,
    /// No matching, checksum-valid acknowledgement appeared within the
    /// lookahead budget, or the flag field was missing or unrecognised.
    NoPacket,
}

/// A line the acknowledgement correlator accepts: at least eight characters,
/// beginning `$PMTK001`, with a valid checksum.
pub open spec fn ack_match(s: Seq<char>) -> bool {
    s.len() >= 8 && s[0] == '$' && s[1] == 'P' && s[2] == 'M' && s[3] == 'T' && s[4] == 'K'
        && s[5] == '0' && s[6] == '0' && s[7] == '1' && checksum_valid(s)
}

/// The flag field of a matched acknowledgement: the third comma-separated
/// field of the line with its checksum suffix stripped; empty when the line
/// has fewer than three fields.
pub open spec fn ack_flag(s: Seq<char>) -> Seq<char> {
    let fields = split_chars(s.subrange(0, first_ix(s, '*')), ',');
    if fields.len() >= 3 {
        fields[2]
    } else {
        Seq::<char>::empty()
    }
}

/// The acknowledgement a matched line reports: flags `0` to `3` map to the
/// four explicit outcomes, any other flag field to `NoPacket`.
pub open spec fn ack_outcome(s: Seq<char>) -> Pmtk001Ack {
    let flag = ack_flag(s);
    if flag == seq!['0'] {
        Pmtk001Ack::Invalid
    } else if flag == seq!['1'] {
        Pmtk001Ack::Unsupported
    } else if flag == seq!['2'] {
        Pmtk001Ack::Failed
    } else if flag == seq!['3'] {
        Pmtk001Ack::Success
    } else {
        Pmtk001Ack::NoPacket
    }
}

/// A line the generic reply correlator accepts: at least five characters,
/// beginning `$PMTK`, with a valid checksum.
pub open spec fn reply_match(s: Seq<char>) -> bool {
    s.len() >= 5 && s[0] == '$' && s[1] == 'P' && s[2] == 'M' && s[3] == 'T' && s[4] == 'K'
        && checksum_valid(s)
}

/// The body of a matched reply: the line up to but not including the first
/// `*`, so with checksum field and terminator stripped.
pub open spec fn reply_body(s: Seq<char>) -> Seq<char> {
    s.subrange(0, first_ix(s, '*'))
}

/// The outcome of feeding `lines`, in order, to an acknowledgement search
/// with `depth` reads left: the outcome of the first matching line, or
/// `NoPacket` when the budget or the lines run out first.
pub open spec fn scan_ack(lines: Seq<Seq<char>>, depth: int) -> Pmtk001Ack
    decreases lines.len(),
{
    if depth <= 0 || lines.len() == 0 {
        Pmtk001Ack::NoPacket
    } else if ack_match(lines[0]) {
        ack_outcome(lines[0])
    } else {
        scan_ack(lines.drop_first(), depth - 1)
    }
}

/// The outcome of feeding `lines`, in order, to a generic reply search with
/// `depth` reads left: the body of the first matching line, or `None` when
/// the budget or the lines run out first.
pub open spec fn scan_reply(lines: Seq<Seq<char>>, depth: int) -> Option<Seq<char>>
    decreases lines.len(),
{
    if depth <= 0 || lines.len() == 0 {
        None
    } else if reply_match(lines[0]) {
        Some(reply_body(lines[0]))
    } else {
        scan_reply(lines.drop_first(), depth - 1)
    }
}

/// Law: the bounded acknowledgement search settles on the first matching
/// line, whatever follows it. If line `i` matches, lies within the budget,
/// and no earlier line matches, the scan reports that line's outcome.
pub proof fn lemma_scan_ack_first_match(lines: Seq<Seq<char>>, depth: int, i: int)
    requires
        0 <= i < lines.len(),
        i < depth,
        ack_match(lines[i]),
        forall|k: int| 0 <= k < i ==> !ack_match(#[trigger] lines[k]),
    ensures
        scan_ack(lines, depth) == ack_outcome(lines[i]),
    decreases i,
{
    if i > 0 {
        assert(lines.drop_first()[i - 1] == lines[i]);
        assert forall|k: int| 0 <= k < i - 1 implies !ack_match(
            #[trigger] lines.drop_first()[k],
        ) by {
            assert(lines.drop_first()[k] == lines[k + 1]);
        }
        lemma_scan_ack_first_match(lines.drop_first(), depth - 1, i - 1);
    }
}

/// Law: when no line within the lookahead budget matches, the
/// acknowledgement search reports `NoPacket`.
pub proof fn lemma_scan_ack_exhausted(lines: Seq<Seq<char>>, depth: int)
    requires
        forall|k: int|
            0 <= k < lines.len() && k < depth ==> !ack_match(#[trigger] lines[k]),
    ensures
        scan_ack(lines, depth) == Pmtk001Ack::NoPacket,
    decreases lines.len(),
{
    if depth > 0 && lines.len() > 0 {
        assert forall|k: int|
            0 <= k < lines.drop_first().len() && k < depth - 1 implies !ack_match(
            #[trigger] lines.drop_first()[k],
        ) by {
            assert(lines.drop_first()[k] == lines[k + 1]);
        }
        lemma_scan_ack_exhausted(lines.drop_first(), depth - 1);
    }
}

/// Law: the bounded reply search settles on the first matching line,
/// whatever follows it. If line `i` matches, lies within the budget, and no
/// earlier line matches, the scan returns that line's body.
pub proof fn lemma_scan_reply_first_match(lines: Seq<Seq<char>>, depth: int, i: int)
    requires
        0 <= i < lines.len(),
        i < depth,
        reply_match(lines[i]),
        forall|k: int| 0 <= k < i ==> !reply_match(#[trigger] lines[k]),
    ensures
        scan_reply(lines, depth) == Some(reply_body(lines[i])),
    decreases i,
{
    if i > 0 {
        assert(lines.drop_first()[i - 1] == lines[i]);
        assert forall|k: int| 0 <= k < i - 1 implies !reply_match(
            #[trigger] lines.drop_first()[k],
        ) by {
            assert(lines.drop_first()[k] == lines[k + 1]);
        }
        lemma_scan_reply_first_match(lines.drop_first(), depth - 1, i - 1);
    }
}

/// Law: when no line within the lookahead budget matches, the reply search
/// returns nothing.
pub proof fn lemma_scan_reply_exhausted(lines: Seq<Seq<char>>, depth: int)
    requires
        forall|k: int|
            0 <= k < lines.len() && k < depth ==> !reply_match(#[trigger] lines[k]),
    ensures
        scan_reply(lines, depth) is None,
    decreases lines.len(),
{
    if depth > 0 && lines.len() > 0 {
        assert forall|k: int|
            0 <= k < lines.drop_first().len() && k < depth - 1 implies !reply_match(
            #[trigger] lines.drop_first()[k],
        ) by {
            assert(lines.drop_first()[k] == lines[k + 1]);
        }
        lemma_scan_reply_exhausted(lines.drop_first(), depth - 1);
    }
}

/// Classifies one received line for the acknowledgement correlator: `None`
/// for a line to discard, the reported outcome for a matching line.
pub fn ack_line_outcome(line: &str) -> (r: Option<Pmtk001Ack>)
    ensures
        match r {
            Some(a) => ack_match(line@) && a == ack_outcome(line@),
            None => !ack_match(line@),
        },
{
    let len = line.unicode_len();
    if len < 8 {
        return None;
    }
    if line.get_char(0) != '$' || line.get_char(1) != 'P' || line.get_char(2) != 'M'
        || line.get_char(3) != 'T' || line.get_char(4) != 'K' || line.get_char(5) != '0'
        || line.get_char(6) != '0' || line.get_char(7) != '1' {
        return None;
    }
    if !is_valid_checksum(line) {
        return None;
    }
    let j = star_index(line);
    proof {
        lemma_first_ix(line@, '*');
    }
    let fields = split_range(line, 0, j);
    proof {
        lemma_split_chars_len(line@.subrange(0, j as int), ',');
        assert(fields.deep_view().len() == fields@.len());
    }
    if fields.len() < 3 {
        return Some(Pmtk001Ack::NoPacket);
    }
    let f = &fields[2];
    proof {
        assert(fields.deep_view()[2] == fields@[2]@);
        assert(ack_flag(line@) == f@);
    }
    let flen = f.as_str().unicode_len();
    if flen != 1 {
        return Some(Pmtk001Ack::NoPacket);
    }
    let c = f.as_str().get_char(0);
    if c == '0' {
        proof {
            assert(f@ =~= seq!['0']);
        }
        Some(Pmtk001Ack::Invalid)
    } else if c == '1' {
        proof {
            assert(f@ =~= seq!['1']);
        }
        Some(Pmtk001Ack::Unsupported)
    } else if c == '2' {
        proof {
            assert(f@ =~= seq!['2']);
        }
        Some(Pmtk001Ack::Failed)
    } else if c == '3' {
        proof {
            assert(f@ =~= seq!['3']);
        }
        Some(Pmtk001Ack::Success)
    } else {
        Some(Pmtk001Ack::NoPacket)
    }
}

/// Classifies one received line for the generic reply correlator and, when
/// it matches, hands back its body with the checksum suffix stripped.
pub fn reply_line_body(line: &str) -> (r: Option<String>)
    ensures
        match r {
            Some(b) => reply_match(line@) && b@ == reply_body(line@),
            None => !reply_match(line@),
        },
{
    let len = line.unicode_len();
    if len < 5 {
        return None;
    }
    if line.get_char(0) != '$' || line.get_char(1) != 'P' || line.get_char(2) != 'M'
        || line.get_char(3) != 'T' || line.get_char(4) != 'K' {
        return None;
    }
    if !is_valid_checksum(line) {
        return None;
    }
    let j = star_index(line);
    proof {
        lemma_first_ix(line@, '*');
    }
    let body = line.substring_char(0, j);
    Some(String::from_str(body))
}

/// Scans up to `search_depth` received lines, in order, for a well-formed,
/// checksum-valid `$PMTK001` acknowledgement and classifies its flag field;
/// lines that do not match are discarded, and exhausting the budget yields
/// `NoPacket`.
pub fn correlate_ack(lines: &Vec<String>, search_depth: usize) -> (r: Pmtk001Ack)
    ensures
        r == scan_ack(lines.deep_view(), search_depth as int),
{
    let ghost whole = lines.deep_view();
    let ghost total = lines@.len() as int;
    let n: usize = if search_depth < lines.len() {
        search_depth
    } else {
        lines.len()
    };
    let mut i: usize = 0;
    proof {
        assert(whole.subrange(0, total) =~= whole);
    }
    #[verifier::loop_isolation(false)]
    while i < n
        invariant
            i <= n,
            scan_ack(whole, search_depth as int) == scan_ack(
                whole.subrange(i as int, total),
                search_depth - i,
            ),
        decreases n - i,
    {
        proof {
            assert(whole.subrange(i as int, total)[0] == lines@[i as int]@);
        }
        match ack_line_outcome(lines[i].as_str()) {
            Some(a) => {
                return a;
            },
            None => {},
        }
        i = i + 1;
        proof {
            assert(whole.subrange(i - 1, total).drop_first() =~= whole.subrange(i as int, total));
        }
    }
    proof {
        if i < search_depth {
            assert(whole.subrange(i as int, total).len() == 0);
        }
    }
    Pmtk001Ack::NoPacket
}

/// Scans up to ten received lines, in order, for a checksum-valid `$PMTK`
/// reply and returns its body, checksum stripped; `None` when the budget or
/// the lines are exhausted first.
pub fn correlate_reply(lines: &Vec<String>) -> (r: Option<String>)
    ensures
        r.deep_view() == scan_reply(lines.deep_view(), 10),
{
    let ghost whole = lines.deep_view();
    let ghost total = lines@.len() as int;
    let n: usize = if 10 < lines.len() {
        10
    } else {
        lines.len()
    };
    let mut i: usize = 0;
    proof {
        assert(whole.subrange(0, total) =~= whole);
    }
    #[verifier::loop_isolation(false)]
    while i < n
        invariant
            i <= n,
            scan_reply(whole, 10) == scan_reply(whole.subrange(i as int, total), 10 - i),
        decreases n - i,
    {
        proof {
            assert(whole.subrange(i as int, total)[0] == lines@[i as int]@);
        }
        match reply_line_body(lines[i].as_str()) {
            Some(b) => {
                return Some(b);
            },
            None => {},
        }
        i = i + 1;
        proof {
            assert(whole.subrange(i - 1, total).drop_first() =~= whole.subrange(i as int, total));
        }
    }
    proof {
        if i < 10 {
            assert(whole.subrange(i as int, total).len() == 0);
        }
    }
    None
}

} // verus!
