use pmtk::correlate::{
    ack_line_outcome, correlate_ack, correlate_reply, reply_line_body, Pmtk001Ack,
};

fn lines(raw: &[&str]) -> Vec<String> {
    raw.iter().map(|s| s.to_string()).collect()
}

#[test]
fn ack_found_after_unrelated_line() {
    let received = lines(&["$CDACK,7,0*49", "$PMTK001,220,3*30"]);
    assert_eq!(correlate_ack(&received, 2), Pmtk001Ack::Success);
    assert_eq!(correlate_ack(&received, 10), Pmtk001Ack::Success);
}

#[test]
fn ack_budget_too_small_is_no_packet() {
    let received = lines(&["$CDACK,7,0*49", "$PMTK001,220,3*30"]);
    assert_eq!(correlate_ack(&received, 1), Pmtk001Ack::NoPacket);
    assert_eq!(correlate_ack(&received, 0), Pmtk001Ack::NoPacket);
}

#[test]
fn ack_only_unrelated_lines_is_no_packet() {
    let received = lines(&[
        "$CDACK,7,0*49",
        "$PMTK011,MTKGPS*08",
        "$GPGGA,165419.000,,,,,0,0,,,M,,M,,*50",
        "garbage",
        "",
        "$PMTK010,001*2E",
        "$PMTK010,002*2D",
        "$CLR,EPO,000a8000*5E",
        "$CDACK,7,0*49",
        "$CDACK,7,0*49",
    ]);
    assert_eq!(correlate_ack(&received, 10), Pmtk001Ack::NoPacket);
}

#[test]
fn ack_with_corrupt_checksum_is_skipped() {
    let received = lines(&["$PMTK001,220,3*31", "$PMTK001,220,3*30"]);
    assert_eq!(correlate_ack(&received, 2), Pmtk001Ack::Success);
    assert_eq!(correlate_ack(&received, 1), Pmtk001Ack::NoPacket);
}

#[test]
fn ack_flag_mapping() {
    assert_eq!(
        correlate_ack(&lines(&["$PMTK001,220,0*33"]), 10),
        Pmtk001Ack::Invalid
    );
    assert_eq!(
        correlate_ack(&lines(&["$PMTK001,220,1*32"]), 10),
        Pmtk001Ack::Unsupported
    );
    assert_eq!(
        correlate_ack(&lines(&["$PMTK001,220,2*31"]), 10),
        Pmtk001Ack::Failed
    );
    assert_eq!(
        correlate_ack(&lines(&["$PMTK001,220,3*30"]), 10),
        Pmtk001Ack::Success
    );
}

#[test]
fn ack_unrecognised_flag_stops_the_search() {
    // A matched acknowledgement with a flag outside 0..=3 is reported as
    // NoPacket at once; later valid acknowledgements are not reached.
    let received = lines(&["$PMTK001,220,7*34", "$PMTK001,220,3*30"]);
    assert_eq!(correlate_ack(&received, 2), Pmtk001Ack::NoPacket);
}

#[test]
fn ack_missing_flag_field_is_no_packet() {
    let received = lines(&["$PMTK001*33"]);
    assert_eq!(correlate_ack(&received, 10), Pmtk001Ack::NoPacket);
}

#[test]
fn ack_line_outcome_classifies_single_lines() {
    assert_eq!(ack_line_outcome("$CDACK,7,0*49"), None);
    assert_eq!(ack_line_outcome("$PMTK001,220,3*31"), None);
    assert_eq!(
        ack_line_outcome("$PMTK001,220,3*30"),
        Some(Pmtk001Ack::Success)
    );
    assert_eq!(
        ack_line_outcome("$PMTK001,220,3*30\r\n"),
        Some(Pmtk001Ack::Success)
    );
}

#[test]
fn reply_body_has_checksum_stripped() {
    let received = lines(&["$PMTK527,0.40*04"]);
    let body = correlate_reply(&received).expect("reply expected");
    assert_eq!(body, "$PMTK527,0.40");
    // The text between the framing `$` and the checksum field.
    assert_eq!(body.strip_prefix('$').unwrap(), "PMTK527,0.40");
}

#[test]
fn reply_exhausting_ten_lines_is_none() {
    let received = lines(&[
        "$CDACK,7,0*49",
        "$CDACK,7,0*49",
        "$CDACK,7,0*49",
        "$CDACK,7,0*49",
        "$CDACK,7,0*49",
        "$CDACK,7,0*49",
        "$CDACK,7,0*49",
        "$CDACK,7,0*49",
        "$CDACK,7,0*49",
        "$CDACK,7,0*49",
    ]);
    assert_eq!(correlate_reply(&received), None);
}

#[test]
fn reply_beyond_the_ten_line_budget_is_missed() {
    let mut received = lines(&["$CDACK,7,0*49"; 10]);
    received.push("$PMTK527,0.40*04".to_string());
    assert_eq!(correlate_reply(&received), None);
}

#[test]
fn reply_skips_corrupt_and_unrelated_lines() {
    let received = lines(&[
        "$GPGGA,165419.000,,,,,0,0,,,M,,M,,*50",
        "$PMTK527,0.40*05",
        "$PMTK527,0.40*04",
    ]);
    assert_eq!(correlate_reply(&received).as_deref(), Some("$PMTK527,0.40"));
}

#[test]
fn reply_line_body_classifies_single_lines() {
    assert_eq!(reply_line_body("$CDACK,7,0*49"), None);
    assert_eq!(reply_line_body("$PMTK527,0.40*05"), None);
    assert_eq!(
        reply_line_body("$PMTK527,0.40*04\r\n").as_deref(),
        Some("$PMTK527,0.40")
    );
}
