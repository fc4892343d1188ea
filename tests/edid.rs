use dlux::edid::{read_descriptor, read_mfg_id, Descriptor, DeviceInfo, ParseError};

fn descriptor(tag: u8, text: &[u8]) -> Vec<u8> {
    let mut d = vec![0u8, 0, 0, tag, 0];
    let mut payload = text.to_vec();
    if payload.len() < 13 {
        payload.push(0x0A);
    }
    while payload.len() < 13 {
        payload.push(b' ');
    }
    d.extend_from_slice(&payload);
    d
}

fn block(mfg: [u8; 2], descrs: [Vec<u8>; 4]) -> Vec<u8> {
    let mut b = vec![0u8; 128];
    b[8] = mfg[0];
    b[9] = mfg[1];
    for (i, d) in descrs.iter().enumerate() {
        let start = 54 + 18 * i;
        b[start..start + 18].copy_from_slice(d);
    }
    b
}

#[test]
fn test_parse_mfg_example() {
    let res = read_mfg_id(&[0x24, 0x4D]);

    assert_eq!("IBM", res.unwrap());
}

#[test]
fn mfg_dell() {
    // D=4, E=5, L=12: 0 00100 00101 01100
    assert_eq!(read_mfg_id(&[0x10, 0xAC]).unwrap(), "DEL");
}

#[test]
fn mfg_zero_index_rejected() {
    assert_eq!(read_mfg_id(&[0x00, 0x00]), Err(ParseError::InvalidManufacturer));
}

#[test]
fn mfg_index_over_26_rejected() {
    // third letter index 27
    assert_eq!(read_mfg_id(&[0x24, 0x5B]), Err(ParseError::InvalidManufacturer));
}

#[test]
fn mfg_wrong_length() {
    assert_eq!(read_mfg_id(&[0x24]), Err(ParseError::Truncated));
}

#[test]
fn descriptor_serial_trimmed() {
    match read_descriptor(&descriptor(0xFF, b"CFV9N9890J5S")).unwrap() {
        Descriptor::Serial(s) => assert_eq!(s, "CFV9N9890J5S"),
        _ => panic!("expected a serial"),
    }
}

#[test]
fn descriptor_model_leading_space_trimmed() {
    match read_descriptor(&descriptor(0xFC, b"  DELL U2720Q")).unwrap() {
        Descriptor::Model(s) => assert_eq!(s, "DELL U2720Q"),
        _ => panic!("expected a model"),
    }
}

#[test]
fn descriptor_other_tag_ignored() {
    assert!(matches!(
        read_descriptor(&descriptor(0xFD, b"\xff\xfe")).unwrap(),
        Descriptor::Other
    ));
}

#[test]
fn descriptor_wrong_length() {
    assert!(matches!(read_descriptor(&[0u8; 17]), Err(ParseError::BadDescriptor)));
}

#[test]
fn descriptor_non_ascii_rejected() {
    assert!(matches!(
        read_descriptor(&descriptor(0xFF, b"AB\xC3\xA9")),
        Err(ParseError::BadDescriptor)
    ));
}

#[test]
fn parse_round_trip() {
    let b = block(
        [0x24, 0x4D],
        [
            descriptor(0xFC, b"ThinkVision"),
            descriptor(0xFF, b"V1234567"),
            descriptor(0xFD, b""),
            descriptor(0x10, b""),
        ],
    );
    let info = DeviceInfo::parse(&b).unwrap();
    assert_eq!(info.manufacturer, "IBM");
    assert_eq!(info.model, "ThinkVision");
    assert_eq!(info.serial, "V1234567");
}

#[test]
fn parse_last_descriptor_wins() {
    let b = block(
        [0x10, 0xAC],
        [
            descriptor(0xFF, b"FIRST"),
            descriptor(0xFC, b"U2720Q"),
            descriptor(0xFF, b"SECOND"),
            descriptor(0x00, b""),
        ],
    );
    let info = DeviceInfo::parse(&b).unwrap();
    assert_eq!(info.serial, "SECOND");
    assert_eq!(info.model, "U2720Q");
}

#[test]
fn parse_missing_descriptors_leave_empty_text() {
    let b = block([0x10, 0xAC], [vec![0; 18], vec![0; 18], vec![0; 18], vec![0; 18]]);
    let info = DeviceInfo::parse(&b).unwrap();
    assert_eq!(info.manufacturer, "DEL");
    assert_eq!(info.model, "");
    assert_eq!(info.serial, "");
}

#[test]
fn parse_truncated() {
    assert!(matches!(DeviceInfo::parse(&[0u8; 127]), Err(ParseError::Truncated)));
}

#[test]
fn parse_bad_manufacturer() {
    let b = block([0x00, 0x00], [vec![0; 18], vec![0; 18], vec![0; 18], vec![0; 18]]);
    assert!(matches!(DeviceInfo::parse(&b), Err(ParseError::InvalidManufacturer)));
}

#[test]
fn parse_bad_descriptor_comes_first() {
    let b = block(
        [0x00, 0x00],
        [descriptor(0xFC, b"\x80"), vec![0; 18], vec![0; 18], vec![0; 18]],
    );
    assert!(matches!(DeviceInfo::parse(&b), Err(ParseError::BadDescriptor)));
}
