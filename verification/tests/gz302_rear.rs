use rog_aura::gz302_rear::{
    aura_report, lamp_control, static_colour_reports, wake_reports, AURA_REPORT_LEN, LAMP_COUNT,
    MULTI_REPORT_LEN,
};
use rog_aura::{Colour, LedBrightness};

#[test]
fn wake_reports_match_source_documented_packets() {
    let expected = [
        &[0x5d, 0xb9][..],
        &b"]ASUS Tech.Inc."[..],
        &[0x5d, 0x05, 0x20, 0x31, 0, 0x1a],
        &[0x5d, 0xc0, 0x03, 0x01],
        &[0x5d, 0xbd, 0x01, 0xff, 0x1f, 0xff, 0xff, 0xff],
        &[0x5d, 0xba, 0xc5, 0xc4, 3],
    ];
    assert_eq!(wake_reports(LedBrightness::High), expected.map(aura_report));
    let off = wake_reports(LedBrightness::Off);
    assert_eq!(off[4], aura_report(&[0x5d, 0xbd, 0x01, 0, 0, 0, 0, 0xff]));
    assert_eq!(off[5], aura_report(&[0x5d, 0xba, 0xc5, 0xc4, 0]));
}

#[test]
fn green_matches_verified_complete_lamparray_packets() {
    let [first, second] = static_colour_reports(Colour { r: 0, g: 255, b: 0 });
    let expected_first = [
        &[4, 8, 0, 0, 0, 1, 0, 2, 0, 3, 0, 4, 0, 5, 0, 6, 0, 7, 0][..],
        &[0, 255, 0, 1].repeat(8),
    ]
    .concat();
    let expected_second = [
        &[4, 3, 1, 8, 0, 9, 0, 10, 0][..],
        &[0; 10],
        &[0, 255, 0, 1].repeat(3),
        &[0; 20],
    ]
    .concat();
    assert_eq!(first.as_slice(), expected_first.as_slice());
    assert_eq!(second.as_slice(), expected_second.as_slice());
    assert_eq!(lamp_control(true), [6, 1]);
    assert_eq!(lamp_control(false), [6, 0]);
}

#[test]
fn aura_report_pads_with_zeros() {
    let report = aura_report(&[1, 2, 3]);
    assert_eq!(report.len(), AURA_REPORT_LEN);
    assert_eq!(&report[..3], &[1, 2, 3]);
    assert!(report[3..].iter().all(|b| *b == 0));
    let full = aura_report(&[7; AURA_REPORT_LEN]);
    assert_eq!(full, [7; AURA_REPORT_LEN]);
    assert_eq!(aura_report(&[]), [0; AURA_REPORT_LEN]);
}

#[test]
fn wake_sequence_carries_each_brightness_level() {
    for (level, value) in [
        (LedBrightness::Off, 0u8),
        (LedBrightness::Low, 1),
        (LedBrightness::Med, 2),
        (LedBrightness::High, 3),
    ] {
        let reports = wake_reports(level);
        assert_eq!(reports[5][4], value);
        assert_eq!(level.level(), value);
        let powered = value != 0;
        assert_eq!(reports[4][3] == 0xff, powered);
        assert_eq!(reports[4][4], if powered { 0x1f } else { 0 });
        assert_eq!(&reports[1][..15], b"]ASUS Tech.Inc.");
    }
    let low = wake_reports(LedBrightness::Low);
    let high = wake_reports(LedBrightness::High);
    assert_eq!(low[..5], high[..5]);
    assert_ne!(low[5], high[5]);
}

#[test]
fn every_lamp_is_listed_once_in_the_colour() {
    let colour = Colour { r: 0x12, g: 0x34, b: 0x56 };
    let reports = static_colour_reports(colour);
    let mut seen = [0u32; LAMP_COUNT];
    for (batch, report) in reports.iter().enumerate() {
        assert_eq!(report.len(), MULTI_REPORT_LEN);
        assert_eq!(report[0], 4);
        assert_eq!(report[2], batch as u8);
        let count = report[1] as usize;
        for slot in 0..count {
            let lamp = u16::from_le_bytes([report[3 + 2 * slot], report[4 + 2 * slot]]) as usize;
            assert_eq!(lamp, 8 * batch + slot);
            seen[lamp] += 1;
            assert_eq!(&report[19 + 4 * slot..23 + 4 * slot], &[0x12, 0x34, 0x56, 1]);
        }
        assert!(report[3 + 2 * count..19].iter().all(|b| *b == 0));
        assert!(report[19 + 4 * count..].iter().all(|b| *b == 0));
    }
    assert_eq!(seen, [1; LAMP_COUNT]);
}
