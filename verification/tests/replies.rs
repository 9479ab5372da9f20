use pmtk::correlate::correlate_reply;
use pmtk::replies::{
    datum_of_reply, dgps_mode_of_reply, easy_enabled_of_reply, epo_data_of_reply,
    nav_threshold_field, nmea_output_of_reply, release_of_reply, sbas_mode_of_reply,
    sbas_of_reply, DgpsMode, EpoData, NmeaOutput, Sbas, SbasMode,
};

fn reply(body: &str) -> Option<String> {
    Some(body.to_string())
}

#[test]
fn dgps_mode_mapping() {
    assert_eq!(dgps_mode_of_reply(&reply("$PMTK501,0")), DgpsMode::NoDgps);
    assert_eq!(dgps_mode_of_reply(&reply("$PMTK501,1")), DgpsMode::RTCM);
    assert_eq!(dgps_mode_of_reply(&reply("$PMTK501,2")), DgpsMode::WAAS);
    assert_eq!(dgps_mode_of_reply(&reply("$PMTK501,9")), DgpsMode::Unknown);
    assert_eq!(dgps_mode_of_reply(&reply("$PMTK501,22")), DgpsMode::Unknown);
    assert_eq!(dgps_mode_of_reply(&None), DgpsMode::Unknown);
}

#[test]
fn dgps_query_end_to_end_stops_at_first_match() {
    // A fake transport: the matching reply comes first, then further
    // chatter; the bounded search must settle on the first valid line.
    let received: Vec<String> = vec![
        "$PMTK501,2*28".to_string(),
        "$CDACK,7,0*49".to_string(),
        "$PMTK501,0*2A".to_string(),
        "garbage".to_string(),
    ];
    let body = correlate_reply(&received);
    assert!(body.is_some());
    assert_eq!(dgps_mode_of_reply(&body), DgpsMode::WAAS);
}

#[test]
fn dgps_query_end_to_end_on_an_acknowledgement_line() {
    // An acknowledgement also matches the generic `$PMTK` prefix: the
    // search returns it rather than running out, and the mode extraction
    // reports Unknown for its shape.
    let received: Vec<String> = vec![
        "$PMTK001,401,3*35".to_string(),
        "$CDACK,7,0*49".to_string(),
    ];
    let body = correlate_reply(&received);
    assert_eq!(body.as_deref(), Some("$PMTK001,401,3"));
    assert_eq!(dgps_mode_of_reply(&body), DgpsMode::Unknown);
}

#[test]
fn sbas_mapping() {
    assert_eq!(sbas_of_reply(&reply("$PMTK513,0")), Sbas::Disabled);
    assert_eq!(sbas_of_reply(&reply("$PMTK513,1")), Sbas::Enabled);
    assert_eq!(sbas_of_reply(&reply("$PMTK513,7")), Sbas::Unknown);
    assert_eq!(sbas_of_reply(&reply("$PMTK513,01")), Sbas::Unknown);
    assert_eq!(sbas_of_reply(&None), Sbas::Unknown);
}

#[test]
fn sbas_mode_mapping() {
    assert_eq!(sbas_mode_of_reply(&reply("$PMTK519,0")), SbasMode::Testing);
    assert_eq!(
        sbas_mode_of_reply(&reply("$PMTK519,1")),
        SbasMode::Integrity
    );
    assert_eq!(sbas_mode_of_reply(&reply("$PMTK519,5")), SbasMode::Unknown);
    assert_eq!(sbas_mode_of_reply(&reply("")), SbasMode::Unknown);
    assert_eq!(sbas_mode_of_reply(&None), SbasMode::Unknown);
}

#[test]
fn nmea_output_fields() {
    assert_eq!(
        nmea_output_of_reply(&reply("$PMTK514,1,1,1,1,1,5")),
        NmeaOutput {
            gll: 1,
            rmc: 1,
            vtg: 1,
            gga: 1,
            gsa: 1,
            gsv: 5
        }
    );
    assert_eq!(
        nmea_output_of_reply(&reply("$PMTK514,0,3")),
        NmeaOutput {
            gll: 0,
            rmc: 3,
            vtg: -1,
            gga: -1,
            gsa: -1,
            gsv: -1
        }
    );
    assert_eq!(
        nmea_output_of_reply(&reply("$PMTK514,x,2,,4,5,6")),
        NmeaOutput {
            gll: -1,
            rmc: 2,
            vtg: -1,
            gga: 4,
            gsa: 5,
            gsv: 6
        }
    );
    assert_eq!(
        nmea_output_of_reply(&None),
        NmeaOutput {
            gll: -1,
            rmc: -1,
            vtg: -1,
            gga: -1,
            gsa: -1,
            gsv: -1
        }
    );
}

#[test]
fn epo_data_fields() {
    assert_eq!(
        epo_data_of_reply(&reply("$PMTK707,0,0,0,0,0,0,0,0,0")),
        EpoData {
            set: 0,
            fwn_ftow_week_number: 0,
            fwn_ftow_tow: 0,
            lwn_ltow_week_number: 0,
            lwn_ltow_tow: 0,
            fcwn_fctow_week_number: 0,
            fcwn_fctow_tow: 0,
            lcwn_lctow_week_number: 0,
            lcwn_lctow_tow: 0,
        }
    );
    assert_eq!(
        epo_data_of_reply(&reply("$PMTK707,2,120")),
        EpoData {
            set: 2,
            fwn_ftow_week_number: 120,
            fwn_ftow_tow: -1,
            lwn_ltow_week_number: -1,
            lwn_ltow_tow: -1,
            fcwn_fctow_week_number: -1,
            fcwn_fctow_tow: -1,
            lcwn_lctow_week_number: -1,
            lcwn_lctow_tow: -1,
        }
    );
    assert_eq!(epo_data_of_reply(&None).set, -1);
}

#[test]
fn datum_field() {
    assert_eq!(datum_of_reply(&reply("$PMTK530,0")), 0);
    assert_eq!(datum_of_reply(&reply("$PMTK530,88")), 88);
    assert_eq!(datum_of_reply(&reply("$PMTK530,abc")), 0);
    assert_eq!(datum_of_reply(&reply("$PMTK530")), 0);
    assert_eq!(datum_of_reply(&None), 0);
}

#[test]
fn easy_enabled_field() {
    assert!(!easy_enabled_of_reply(&reply("$PMTK869,2,0")));
    assert!(easy_enabled_of_reply(&reply("$PMTK869,2,1")));
    assert!(easy_enabled_of_reply(&reply("$PMTK869,2")));
    assert!(easy_enabled_of_reply(&None));
}

#[test]
fn release_information() {
    assert_eq!(
        release_of_reply(&reply("$PMTK705,AXN_5.1.7_3333_19020118,0027,PA1010D,1.0")),
        ",AXN_5.1.7_3333_19020118,0027,PA1010D,1.0"
    );
    assert_eq!(release_of_reply(&reply("$PMTK70")), "");
    assert_eq!(release_of_reply(&None), "");
}

#[test]
fn nav_threshold_text_field() {
    assert_eq!(
        nav_threshold_field(&reply("$PMTK527,0.40")).as_deref(),
        Some("0.40")
    );
    assert_eq!(nav_threshold_field(&reply("$PMTK527")), None);
    assert_eq!(nav_threshold_field(&None), None);
}
