//! Builders for the bodies of the typed catalog commands.
//!
//! Each function renders the body of one PMTK command — the text between
//! the leading `$` and the `*` of the framed line — exactly as it crosses
//! the wire; framing and checksumming are `add_checksum`'s job, and
//! transmitting it is the caller's.

use vstd::prelude::*;
use vstd::string::*;
use crate::checksum::push_char;
use crate::text::{append_i64, append_u64, dec_digits, dec_str};

verus! {

/// Body of the update-rate command: `PMTK220,` and the rate in
/// milliseconds as the caller rendered it.
pub fn format_pmtk_220(update_rate: &str) -> (r: String)
    ensures
        r@ == "PMTK220,"@ + update_rate@,
{
    let mut r = String::from_str("PMTK220,");
    r.append(update_rate);
    r
}

/// Body of the baud-rate command: `PMTK251,` and the baud rate as the
/// caller rendered it.
pub fn format_pmtk_251(baud_rate: &str) -> (r: String)
    ensures
        r@ == "PMTK251,"@ + baud_rate@,
{
    let mut r = String::from_str("PMTK251,");
    r.append(baud_rate);
    r
}

/// Body of the DGPS-mode setter: `PMTK301,` and the mode digit as the
/// caller rendered it.
pub fn format_pmtk_301(dgps_mode: &str) -> (r: String)
    ensures
        r@ == "PMTK301,"@ + dgps_mode@,
{
    let mut r = String::from_str("PMTK301,");
    r.append(dgps_mode);
    r
}

/// Body of the SBAS-enable setter: `PMTK313,` and the flag as the caller
/// rendered it.
pub fn format_pmtk_313(sbas: &str) -> (r: String)
    ensures
        r@ == "PMTK313,"@ + sbas@,
{
    let mut r = String::from_str("PMTK313,");
    r.append(sbas);
    r
}

/// Body of the sentence-output-mask setter: the six per-sentence
/// frequencies, seven reserved zero fields, and the `PMTKCHN` interval.
pub fn format_pmtk_314(
    gll: i8,
    rmc: i8,
    vtg: i8,
    gga: i8,
    gsa: i8,
    gsv: i8,
    pmtkchn_interval: i8,
) -> (r: String)
    ensures
        r@ == "PMTK314,"@ + dec_str(gll as int) + ","@ + dec_str(rmc as int) + ","@ + dec_str(
            vtg as int,
        ) + ","@ + dec_str(gga as int) + ","@ + dec_str(gsa as int) + ","@ + dec_str(gsv as int)
            + ",0,0,0,0,0,0,0,"@ + dec_str(pmtkchn_interval as int),
{
    let mut r = String::from_str("PMTK314,");
    append_i64(&mut r, gll as i64);
    push_char(&mut r, ',');
    append_i64(&mut r, rmc as i64);
    push_char(&mut r, ',');
    append_i64(&mut r, vtg as i64);
    push_char(&mut r, ',');
    append_i64(&mut r, gga as i64);
    push_char(&mut r, ',');
    append_i64(&mut r, gsa as i64);
    push_char(&mut r, ',');
    append_i64(&mut r, gsv as i64);
    r.append(",0,0,0,0,0,0,0,");
    append_i64(&mut r, pmtkchn_interval as i64);
    proof {
        reveal_strlit("PMTK314,");
        reveal_strlit(",");
        reveal_strlit(",0,0,0,0,0,0,0,");
        assert(r@ =~= "PMTK314,"@ + dec_str(gll as int) + ","@ + dec_str(rmc as int) + ","@
            + dec_str(vtg as int) + ","@ + dec_str(gga as int) + ","@ + dec_str(gsa as int) + ","@
            + dec_str(gsv as int) + ",0,0,0,0,0,0,0,"@ + dec_str(pmtkchn_interval as int));
    }
    r
}

/// Body of the SBAS-mode setter, transmitted as `PMTK391,` and the mode
/// flag as the caller rendered it.
pub fn format_pmtk_319(sbas_mode: &str) -> (r: String)
    ensures
        r@ == "PMTK391,"@ + sbas_mode@,
{
    let mut r = String::from_str("PMTK391,");
    r.append(sbas_mode);
    r
}

/// Body of the navigation-speed-threshold setter: `PMTK397,` and the
/// threshold as the caller rendered it (one decimal place on the wire).
/// Both chip families are driven with the `PMTK397` body.
pub fn format_pmtk_397(nav_threshold: &str) -> (r: String)
    ensures
        r@ == "PMTK397,"@ + nav_threshold@,
{
    let mut r = String::from_str("PMTK397,");
    r.append(nav_threshold);
    r
}

/// Body of the ephemeris-acquisition configuration: satellite count,
/// signal-to-noise floor, extension threshold and extension gap.
pub fn format_pmtk_223(sv: i8, snr: i8, ext_threshold: i32, ext_gap: i32) -> (r: String)
    ensures
        r@ == "PMTK223,"@ + dec_str(sv as int) + ","@ + dec_str(snr as int) + ","@ + dec_str(
            ext_threshold as int,
        ) + ","@ + dec_str(ext_gap as int),
{
    let mut r = String::from_str("PMTK223,");
    append_i64(&mut r, sv as i64);
    push_char(&mut r, ',');
    append_i64(&mut r, snr as i64);
    push_char(&mut r, ',');
    append_i64(&mut r, ext_threshold as i64);
    push_char(&mut r, ',');
    append_i64(&mut r, ext_gap as i64);
    proof {
        reveal_strlit("PMTK223,");
        reveal_strlit(",");
        assert(r@ =~= "PMTK223,"@ + dec_str(sv as int) + ","@ + dec_str(snr as int) + ","@
            + dec_str(ext_threshold as int) + ","@ + dec_str(ext_gap as int));
    }
    r
}

/// Body of the periodic power-mode command: the run type and the two
/// run/sleep time pairs in milliseconds.
pub fn format_pmtk_225(
    run_type: u8,
    run_time: u32,
    sleep_time: u32,
    second_run_time: u32,
    second_sleep_time: u32,
) -> (r: String)
    ensures
        r@ == "PMTK225,"@ + dec_digits(run_type as nat) + ","@ + dec_digits(run_time as nat) + ","@
            + dec_digits(sleep_time as nat) + ","@ + dec_digits(second_run_time as nat) + ","@
            + dec_digits(second_sleep_time as nat),
{
    let mut r = String::from_str("PMTK225,");
    append_u64(&mut r, run_type as u64);
    push_char(&mut r, ',');
    append_u64(&mut r, run_time as u64);
    push_char(&mut r, ',');
    append_u64(&mut r, sleep_time as u64);
    push_char(&mut r, ',');
    append_u64(&mut r, second_run_time as u64);
    push_char(&mut r, ',');
    append_u64(&mut r, second_sleep_time as u64);
    proof {
        reveal_strlit("PMTK225,");
        reveal_strlit(",");
        assert(r@ =~= "PMTK225,"@ + dec_digits(run_type as nat) + ","@ + dec_digits(
            run_time as nat,
        ) + ","@ + dec_digits(sleep_time as nat) + ","@ + dec_digits(second_run_time as nat) + ","@
            + dec_digits(second_sleep_time as nat));
    }
    r
}

/// Body of the active-interference-cancellation toggle.
pub fn format_pmtk_286(aic: bool) -> (r: String)
    ensures
        r@ == (if aic {
            "PMTK286,1"@
        } else {
            "PMTK286,0"@
        }),
{
    if aic {
        String::from_str("PMTK286,1")
    } else {
        String::from_str("PMTK286,0")
    }
}

/// Body of the EASY-function toggle.
pub fn format_pmtk_869_enable(enable_easy: bool) -> (r: String)
    ensures
        r@ == (if enable_easy {
            "PMTK869,1,1"@
        } else {
            "PMTK869,1,0"@
        }),
{
    if enable_easy {
        String::from_str("PMTK869,1,1")
    } else {
        String::from_str("PMTK869,1,0")
    }
}

/// Body of the Locus logger configuration: interval mode and the logging
/// interval in seconds.
pub fn format_pmtk_187(locus_interval: i8) -> (r: String)
    ensures
        r@ == "PMTK187,1,"@ + dec_str(locus_interval as int),
{
    let mut r = String::from_str("PMTK187,1,");
    append_i64(&mut r, locus_interval as i64);
    r
}

/// Body of the datum setter: `PMTK330,` and the datum number.
pub fn format_pmtk_330(datum: u16) -> (r: String)
    ensures
        r@ == "PMTK330,"@ + dec_digits(datum as nat),
{
    let mut r = String::from_str("PMTK330,");
    append_u64(&mut r, datum as u64);
    r
}

/// Body of the QZSS NMEA-format toggle.
pub fn format_pmtk_351(enable_qzss: bool) -> (r: String)
    ensures
        r@ == (if enable_qzss {
            "PMTK351,1"@
        } else {
            "PMTK351,0"@
        }),
{
    if enable_qzss {
        String::from_str("PMTK351,1")
    } else {
        String::from_str("PMTK351,0")
    }
}

/// Body of the QZSS-function toggle; the wire flag is `0` to enable the
/// function and `1` to stop it.
pub fn format_pmtk_352(enable: bool) -> (r: String)
    ensures
        r@ == (if enable {
            "PMTK352,0"@
        } else {
            "PMTK352,1"@
        }),
{
    if enable {
        String::from_str("PMTK352,0")
    } else {
        String::from_str("PMTK352,1")
    }
}

} // verus!
