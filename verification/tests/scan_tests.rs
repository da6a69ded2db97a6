use fps_enhancer::scan::{parse_monitor_list, scan_monitors, started_instance_ids, Monitor};

const SAMPLE: &str = "Microsoft PnP Utility\n\
\n\
Instance ID:                DISPLAY\\GSM5B08\\5&1234abcd&0&UID4352\n\
Device Description:         Generic PnP Monitor\n\
Class Name:                 Monitor\n\
Class GUID:                 {4d36e96e-e325-11ce-bfc1-08002be10318}\n\
Manufacturer Name:          (Standard monitor types)\n\
Status:                     Started\n\
Driver Name:                oem1.inf\n\
\n\
Instance ID:                DISPLAY\\DELA1E2\\5&1234abcd&0&UID4353\n\
Device Description:         Generic PnP Monitor\n\
Class Name:                 Monitor\n\
Class GUID:                 {4d36e96e-e325-11ce-bfc1-08002be10318}\n\
Manufacturer Name:          (Standard monitor types)\n\
Status:                     Disabled\n\
Driver Name:                oem2.inf\n";

#[test]
fn parses_instance_id_and_status_blocks() {
    let monitors = parse_monitor_list(SAMPLE);
    assert_eq!(monitors.len(), 2);
    assert_eq!(
        monitors[0].instance_id,
        "DISPLAY\\GSM5B08\\5&1234abcd&0&UID4352"
    );
    assert_eq!(monitors[0].status, "Started");
    assert_eq!(
        monitors[1].instance_id,
        "DISPLAY\\DELA1E2\\5&1234abcd&0&UID4353"
    );
    assert_eq!(monitors[1].status, "Disabled");
}

#[test]
fn empty_output_parses_to_no_monitors() {
    assert_eq!(parse_monitor_list("").len(), 0);
    assert_eq!(parse_monitor_list("\n\n\n").len(), 0);
}

#[test]
fn unrecognised_text_fails_closed() {
    let monitors = parse_monitor_list("Some banner\nwithout any known fields\n");
    assert_eq!(monitors.len(), 0);
}

#[test]
fn started_filter_keeps_enabled_monitors_only() {
    let monitors = vec![
        Monitor {
            instance_id: String::from("ID1"),
            status: String::from("Started"),
        },
        Monitor {
            instance_id: String::from("ID2"),
            status: String::from("Disabled"),
        },
        Monitor {
            instance_id: String::from("ID3"),
            status: String::from("Started"),
        },
    ];
    let ids = started_instance_ids(&monitors);
    assert_eq!(ids, vec![String::from("ID1"), String::from("ID3")]);
}

#[test]
fn scan_decodes_gbk_bytes_before_parsing() {
    // "Status:" then GBK bytes 0xD6 0xD0 for the character U+4E2D; a parser
    // fed the raw bytes unchanged could not produce that character
    let mut bytes = Vec::new();
    bytes.extend_from_slice(b"Instance ID: ID-");
    bytes.extend_from_slice(&[0xD6, 0xD0]);
    bytes.extend_from_slice(b"\na\nb\nc\nd\nStatus: Started\n");
    let monitors = scan_monitors(&bytes).unwrap();
    assert_eq!(monitors.len(), 1);
    assert_eq!(monitors[0].instance_id, "ID-\u{4E2D}");
    assert_eq!(monitors[0].status, "Started");
}

#[test]
fn undecodable_bytes_are_replaced_and_the_scan_still_succeeds() {
    // invalid GBK sequences: the decode substitutes replacement characters
    // and continues, so the scan always yields a parse
    let monitors = scan_monitors(&vec![0xFF, 0xFF, 0x81]).unwrap();
    assert_eq!(monitors.len(), 0);
    let mut bytes = Vec::new();
    bytes.extend_from_slice(b"Instance ID: ID9\n1\n2\n3\n4\nStatus: ");
    bytes.push(0xFF);
    bytes.push(b'\n');
    let monitors = scan_monitors(&bytes).unwrap();
    assert_eq!(monitors.len(), 1);
    assert_eq!(monitors[0].instance_id, "ID9");
    assert_eq!(monitors[0].status, "\u{FFFD}");
}

#[test]
fn fields_are_trimmed_of_surrounding_whitespace() {
    let text = "   Instance ID:   MY\\ID  \n1\n2\n3\n4\n   Status:   Started  \n";
    let monitors = parse_monitor_list(text);
    assert_eq!(monitors.len(), 1);
    assert_eq!(monitors[0].instance_id, "MY\\ID");
    assert_eq!(monitors[0].status, "Started");
}
