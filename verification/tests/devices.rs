use eruption::device::{device_info_table, get_device_info, get_device_make, get_device_model};
use eruption::hwdevice::{
    kain_led_frame, kain_report_accepted, kain_status_query, kain_test_pattern_frames,
    parse_kain_status, KAIN_REPORT_LEN,
};
use eruption::pixel::Pixel;

#[test]
fn known_devices_are_found() {
    assert_eq!(get_device_make(0x1e7d, 0x3098), Some("ROCCAT"));
    assert_eq!(get_device_model(0x1e7d, 0x3098), Some("Vulcan 100/12x"));
    assert_eq!(get_device_make(0x1b1c, 0x1b15), Some("Corsair"));
    assert_eq!(
        get_device_model(0x1b1c, 0x1b15),
        Some("Corsair STRAFE Gaming Keyboard")
    );
    assert_eq!(get_device_model(0x1e7d, 0x2e7d), Some("Nyth"));
}

#[test]
fn unknown_device_yields_none() {
    assert!(get_device_info(0xdead, 0xbeef).is_none());
    assert!(get_device_make(0x1e7d, 0x0001).is_none());
    assert!(get_device_model(0x0000, 0x3098).is_none());
}

#[test]
fn device_table_has_fifteen_entries() {
    assert_eq!(device_info_table().len(), 15);
}

#[test]
fn led_frame_layout_is_exact() {
    let map = vec![
        Pixel { r: 1, g: 2, b: 3, a: 255 },
        Pixel { r: 4, g: 5, b: 6, a: 255 },
    ];
    let buf = kain_led_frame(&map, 0xab);
    assert_eq!(buf.len(), KAIN_REPORT_LEN);
    assert_eq!(
        &buf[..11],
        &[0x08, 0x09, 0x33, 0x00, 1, 2, 3, 4, 5, 6, 0xab]
    );
    assert!(buf[11..].iter().all(|&b| b == 0));
}

#[test]
fn status_query_layout_is_exact() {
    let buf = kain_status_query();
    assert_eq!(buf.len(), KAIN_REPORT_LEN);
    assert_eq!(&buf[..5], &[0x08, 0x03, 0x53, 0x00, 0x58]);
    assert!(buf[5..].iter().all(|&b| b == 0));
}

#[test]
fn report_acceptance_skips_busy_frames() {
    assert!(!kain_report_accepted(&vec![0x01, 0x00]));
    assert!(!kain_report_accepted(&vec![0x07, 0x14]));
    assert!(!kain_report_accepted(&vec![0x07, 0x04]));
    assert!(kain_report_accepted(&vec![0x07, 0x05]));
    assert!(kain_report_accepted(&vec![0x08, 0x14]));
}

#[test]
fn test_pattern_has_three_two_led_frames() {
    let frames = kain_test_pattern_frames();
    assert_eq!(frames.len(), 3);
    assert_eq!(frames[0], vec![
        Pixel { r: 255, g: 0, b: 0, a: 255 },
        Pixel { r: 0, g: 0, b: 255, a: 255 },
    ]);
    assert_eq!(frames[1][0], Pixel { r: 0x59, g: 0xa5, b: 0xff, a: 0xff });
    assert_eq!(frames[2], vec![
        Pixel { r: 0, g: 0, b: 255, a: 255 },
        Pixel { r: 255, g: 0, b: 0, a: 255 },
    ]);
}

#[test]
fn status_fields_are_big_endian() {
    let mut buf = vec![0u8; KAIN_REPORT_LEN];
    buf[5] = 0x01;
    buf[6] = 0x40;
    buf[7] = 0x4e;
    buf[8] = 0x20;
    let (battery, snr) = parse_kain_status(&buf);
    assert_eq!(battery, 0x0140);
    assert_eq!(snr, 0x4e20);
}
