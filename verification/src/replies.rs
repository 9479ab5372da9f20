//! Typed views of generic replies: the comma-separated fields of a
//! correlated `$PMTK...` body mapped into small closed enumerations and
//! structs.
//!
//! Malformed input never aborts an extraction: a missing reply, a missing
//! field or an unparseable numeric field falls back to the documented
//! sentinel (`Unknown`, `-1`, `0`, or an empty string) instead.

use vstd::prelude::*;
use vstd::string::*;
use crate::text::{
    parse_i8, parse_i8_spec, parse_u16, parse_u16_spec, split_chars, split_fields, string_is_char,
};

verus! {

/// Differential-GPS correction source reported by a `$PMTK501` reply.
#[derive(Debug, PartialEq, Eq, Structural)]
pub enum DgpsMode {
    NoDgps,
    RTCM,
    WAAS,
    Unknown,
}

/// Whether satellite-based augmentation is enabled, from a `$PMTK513` reply.
#[derive(Debug, PartialEq, Eq, Structural)]
pub enum Sbas {
    Enabled,
    Disabled,
    Unknown,
}

/// SBAS operating mode reported by a `$PMTK519` reply.
#[derive(Debug, PartialEq, Eq, Structural)]
pub enum SbasMode {
    Testing,
    Integrity,
    Unknown,
}

/// Per-sentence output frequencies reported by a `$PMTK514` reply; `-1`
/// marks a field that was absent or unparseable.
#[derive(Debug, PartialEq, Eq, Structural)]
pub struct NmeaOutput {
    pub gll: i8,
    pub rmc: i8,
    pub vtg: i8,
    pub gga: i8,
    pub gsa: i8,
    pub gsv: i8,
}

/// EPO status fields reported by a `$PMTK707` reply; `-1` marks a field
/// that was absent or unparseable.
#[derive(Debug, PartialEq, Eq, Structural)]
pub struct EpoData {
    pub set: i8,
    pub fwn_ftow_week_number: i8,
    pub fwn_ftow_tow: i8,
    pub lwn_ltow_week_number: i8,
    pub lwn_ltow_tow: i8,
    pub fcwn_fctow_week_number: i8,
    pub fcwn_fctow_tow: i8,
    pub lcwn_lctow_week_number: i8,
    pub lcwn_lctow_tow: i8,
}

/// The DGPS mode a correlated reply reports: the reply must be exactly ten
/// characters (`$PMTK501,` and one mode digit); anything else is `Unknown`.
pub open spec fn dgps_mode_spec(reply: Option<Seq<char>>) -> DgpsMode {
    match reply {
        None => DgpsMode::Unknown,
        Some(s) => if s.len() != 10 {
            DgpsMode::Unknown
        } else if s[9] == '0' {
            DgpsMode::NoDgps
        } else if s[9] == '1' {
            DgpsMode::RTCM
        } else if s[9] == '2' {
            DgpsMode::WAAS
        } else {
            DgpsMode::Unknown
        },
    }
}

/// Maps a correlated `$PMTK501` reply to the DGPS mode it reports.
pub fn dgps_mode_of_reply(reply: &Option<String>) -> (m: DgpsMode)
    ensures
        m == dgps_mode_spec(reply.deep_view()),
{
    match reply {
        None => DgpsMode::Unknown,
        Some(s) => {
            if s.as_str().unicode_len() != 10 {
                DgpsMode::Unknown
            } else {
                let c = s.as_str().get_char(9);
                if c == '0' {
                    DgpsMode::NoDgps
                } else if c == '1' {
                    DgpsMode::RTCM
                } else if c == '2' {
                    DgpsMode::WAAS
                } else {
                    DgpsMode::Unknown
                }
            }
        },
    }
}

/// The SBAS state a correlated reply reports: the reply must be exactly ten
/// characters (`$PMTK513,` and one digit); anything else is `Unknown`.
pub open spec fn sbas_spec(reply: Option<Seq<char>>) -> Sbas {
    match reply {
        None => Sbas::Unknown,
        Some(s) => if s.len() != 10 {
            Sbas::Unknown
        } else if s[9] == '0' {
            Sbas::Disabled
        } else if s[9] == '1' {
            Sbas::Enabled
        } else {
            Sbas::Unknown
        },
    }
}

/// Maps a correlated `$PMTK513` reply to the SBAS state it reports.
pub fn sbas_of_reply(reply: &Option<String>) -> (m: Sbas)
    ensures
        m == sbas_spec(reply.deep_view()),
{
    match reply {
        None => Sbas::Unknown,
        Some(s) => {
            if s.as_str().unicode_len() != 10 {
                Sbas::Unknown
            } else {
                let c = s.as_str().get_char(9);
                if c == '0' {
                    Sbas::Disabled
                } else if c == '1' {
                    Sbas::Enabled
                } else {
                    Sbas::Unknown
                }
            }
        },
    }
}

/// The SBAS mode a correlated reply reports, read from its last character;
/// an absent or empty reply is `Unknown`.
pub open spec fn sbas_mode_spec(reply: Option<Seq<char>>) -> SbasMode {
    match reply {
        None => SbasMode::Unknown,
        Some(s) => if s.len() == 0 {
            SbasMode::Unknown
        } else if s.last() == '0' {
            SbasMode::Testing
        } else if s.last() == '1' {
            SbasMode::Integrity
        } else {
            SbasMode::Unknown
        },
    }
}

/// Maps a correlated `$PMTK519` reply to the SBAS mode it reports.
pub fn sbas_mode_of_reply(reply: &Option<String>) -> (m: SbasMode)
    ensures
        m == sbas_mode_spec(reply.deep_view()),
{
    match reply {
        None => SbasMode::Unknown,
        Some(s) => {
            let len = s.as_str().unicode_len();
            if len == 0 {
                SbasMode::Unknown
            } else {
                let c = s.as_str().get_char(len - 1);
                if c == '0' {
                    SbasMode::Testing
                } else if c == '1' {
                    SbasMode::Integrity
                } else {
                    SbasMode::Unknown
                }
            }
        },
    }
}

/// Field `k` of a split reply parsed as a signed byte, or `-1` when the
/// field is absent or unparseable.
pub open spec fn i8_field_or_default(fields: Seq<Seq<char>>, k: int) -> i8 {
    if 0 <= k < fields.len() {
        match parse_i8_spec(fields[k]) {
            Some(v) => v,
            None => -1i8,
        }
    } else {
        -1i8
    }
}

/// Parses field `k` of a split reply as a signed byte, `-1` on a missing or
/// unparseable field.
fn i8_field(fields: &Vec<String>, k: usize) -> (v: i8)
    ensures
        v == i8_field_or_default(fields.deep_view(), k as int),
{
    if k < fields.len() {
        proof {
            assert(fields.deep_view()[k as int] == fields@[k as int]@);
        }
        match parse_i8(fields[k].as_str()) {
            Some(v) => v,
            None => -1,
        }
    } else {
        -1
    }
}

/// The output frequencies a correlated `$PMTK514` reply carries in its
/// fields one to six; `-1` for each missing or unparseable field, and for
/// every field when there was no reply.
pub open spec fn nmea_output_spec(reply: Option<Seq<char>>) -> NmeaOutput {
    match reply {
        None => NmeaOutput { gll: -1i8, rmc: -1i8, vtg: -1i8, gga: -1i8, gsa: -1i8, gsv: -1i8 },
        Some(s) => {
            let fields = split_chars(s, ',');
            NmeaOutput {
                gll: i8_field_or_default(fields, 1),
                rmc: i8_field_or_default(fields, 2),
                vtg: i8_field_or_default(fields, 3),
                gga: i8_field_or_default(fields, 4),
                gsa: i8_field_or_default(fields, 5),
                gsv: i8_field_or_default(fields, 6),
            }
        },
    }
}

/// Maps a correlated `$PMTK514` reply to the per-sentence output
/// frequencies it reports.
pub fn nmea_output_of_reply(reply: &Option<String>) -> (r: NmeaOutput)
    ensures
        r == nmea_output_spec(reply.deep_view()),
{
    match reply {
        None => NmeaOutput { gll: -1i8, rmc: -1i8, vtg: -1i8, gga: -1i8, gsa: -1i8, gsv: -1i8 },
        Some(s) => {
            let fields = split_fields(s.as_str());
            NmeaOutput {
                gll: i8_field(&fields, 1),
                rmc: i8_field(&fields, 2),
                vtg: i8_field(&fields, 3),
                gga: i8_field(&fields, 4),
                gsa: i8_field(&fields, 5),
                gsv: i8_field(&fields, 6),
            }
        },
    }
}

/// The EPO status a correlated `$PMTK707` reply carries in its fields one
/// to nine; `-1` for each missing or unparseable field, and for every field
/// when there was no reply.
pub open spec fn epo_data_spec(reply: Option<Seq<char>>) -> EpoData {
    match reply {
        None => EpoData {
            set: -1i8,
            fwn_ftow_week_number: -1i8,
            fwn_ftow_tow: -1i8,
            lwn_ltow_week_number: -1i8,
            lwn_ltow_tow: -1i8,
            fcwn_fctow_week_number: -1i8,
            fcwn_fctow_tow: -1i8,
            lcwn_lctow_week_number: -1i8,
            lcwn_lctow_tow: -1i8,
        },
        Some(s) => {
            let fields = split_chars(s, ',');
            EpoData {
                set: i8_field_or_default(fields, 1),
                fwn_ftow_week_number: i8_field_or_default(fields, 2),
                fwn_ftow_tow: i8_field_or_default(fields, 3),
                lwn_ltow_week_number: i8_field_or_default(fields, 4),
                lwn_ltow_tow: i8_field_or_default(fields, 5),
                fcwn_fctow_week_number: i8_field_or_default(fields, 6),
                fcwn_fctow_tow: i8_field_or_default(fields, 7),
                lcwn_lctow_week_number: i8_field_or_default(fields, 8),
                lcwn_lctow_tow: i8_field_or_default(fields, 9),
            }
        },
    }
}

/// Maps a correlated `$PMTK707` reply to the EPO status it reports.
pub fn epo_data_of_reply(reply: &Option<String>) -> (r: EpoData)
    ensures
        r == epo_data_spec(reply.deep_view()),
{
    match reply {
        None => EpoData {
            set: -1i8,
            fwn_ftow_week_number: -1i8,
            fwn_ftow_tow: -1i8,
            lwn_ltow_week_number: -1i8,
            lwn_ltow_tow: -1i8,
            fcwn_fctow_week_number: -1i8,
            fcwn_fctow_tow: -1i8,
            lcwn_lctow_week_number: -1i8,
            lcwn_lctow_tow: -1i8,
        },
        Some(s) => {
            let fields = split_fields(s.as_str());
            EpoData {
                set: i8_field(&fields, 1),
                fwn_ftow_week_number: i8_field(&fields, 2),
                fwn_ftow_tow: i8_field(&fields, 3),
                lwn_ltow_week_number: i8_field(&fields, 4),
                lwn_ltow_tow: i8_field(&fields, 5),
                fcwn_fctow_week_number: i8_field(&fields, 6),
                fcwn_fctow_tow: i8_field(&fields, 7),
                lcwn_lctow_week_number: i8_field(&fields, 8),
                lcwn_lctow_tow: i8_field(&fields, 9),
            }
        },
    }
}

/// The datum number a correlated `$PMTK530` reply carries in its second
/// field, or `0` when the reply or the field is absent or unparseable.
pub open spec fn datum_spec(reply: Option<Seq<char>>) -> u16 {
    match reply {
        None => 0u16,
        Some(s) => {
            let fields = split_chars(s, ',');
            if fields.len() >= 2 {
                match parse_u16_spec(fields[1]) {
                    Some(v) => v,
                    None => 0u16,
                }
            } else {
                0u16
            }
        },
    }
}

/// Maps a correlated `$PMTK530` reply to the datum number it reports.
pub fn datum_of_reply(reply: &Option<String>) -> (d: u16)
    ensures
        d == datum_spec(reply.deep_view()),
{
    match reply {
        None => 0,
        Some(s) => {
            let fields = split_fields(s.as_str());
            if fields.len() >= 2 {
                proof {
                    assert(fields.deep_view()[1] == fields@[1]@);
                }
                match parse_u16(fields[1].as_str()) {
                    Some(v) => v,
                    None => 0,
                }
            } else {
                0
            }
        },
    }
}

/// Whether a correlated `$PMTK869` reply reports the EASY function enabled:
/// disabled exactly when its third field is `0`; an absent reply or field
/// counts as enabled.
pub open spec fn easy_enabled_spec(reply: Option<Seq<char>>) -> bool {
    match reply {
        None => true,
        Some(s) => {
            let fields = split_chars(s, ',');
            if fields.len() >= 3 {
                fields[2] != seq!['0']
            } else {
                true
            }
        },
    }
}

/// Maps a correlated `$PMTK869` reply to the EASY state it reports.
pub fn easy_enabled_of_reply(reply: &Option<String>) -> (e: bool)
    ensures
        e == easy_enabled_spec(reply.deep_view()),
{
    match reply {
        None => true,
        Some(s) => {
            let fields = split_fields(s.as_str());
            if fields.len() >= 3 {
                proof {
                    assert(fields.deep_view()[2] == fields@[2]@);
                }
                !string_is_char(&fields[2], '0')
            } else {
                true
            }
        },
    }
}

/// The firmware release information a correlated `$PMTK705` reply carries:
/// everything after its first eight characters, empty when the reply is
/// absent or shorter.
pub open spec fn release_spec(reply: Option<Seq<char>>) -> Seq<char> {
    match reply {
        None => Seq::<char>::empty(),
        Some(s) => if s.len() >= 8 {
            s.subrange(8, s.len() as int)
        } else {
            Seq::<char>::empty()
        },
    }
}

/// Maps a correlated `$PMTK705` reply to the firmware release information
/// it carries.
pub fn release_of_reply(reply: &Option<String>) -> (r: String)
    ensures
        r@ == release_spec(reply.deep_view()),
{
    match reply {
        None => String::new(),
        Some(s) => {
            let len = s.as_str().unicode_len();
            if len >= 8 {
                String::from_str(s.as_str().substring_char(8, len))
            } else {
                String::new()
            }
        },
    }
}

/// The navigation-speed-threshold field a correlated `$PMTK527` reply
/// carries: its second field as text, or `None` when the reply or the field
/// is absent.
pub open spec fn nav_threshold_field_spec(reply: Option<Seq<char>>) -> Option<Seq<char>> {
    match reply {
        None => None,
        Some(s) => {
            let fields = split_chars(s, ',');
            if fields.len() >= 2 {
                Some(fields[1])
            } else {
                None
            }
        },
    }
}

/// Maps a correlated `$PMTK527` reply to its navigation-speed-threshold
/// field, left as text for the caller to interpret.
pub fn nav_threshold_field(reply: &Option<String>) -> (r: Option<String>)
    ensures
        r.deep_view() == nav_threshold_field_spec(reply.deep_view()),
{
    match reply {
        None => None,
        Some(s) => {
            let fields = split_fields(s.as_str());
            if fields.len() >= 2 {
                proof {
                    assert(fields.deep_view()[1] == fields@[1]@);
                }
                Some(fields[1].clone())
            } else {
                None
            }
        },
    }
}

} // verus!
