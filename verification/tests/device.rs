use rog_aura::{AuraDeviceType, PowerZones};

#[test]
fn gz302_rear_and_keyboard_are_distinct() {
    assert_eq!(
        AuraDeviceType::for_product_and_board("18c6", "GZ302EA"),
        AuraDeviceType::RearGlow
    );
    assert_eq!(
        AuraDeviceType::for_product_and_board("1a30", "GZ302EA"),
        AuraDeviceType::LaptopKeyboard2021
    );
    assert_eq!(
        AuraDeviceType::for_product_and_board("18c6", "G533QS"),
        AuraDeviceType::LaptopKeyboardPre2021
    );
    assert_eq!(
        AuraDeviceType::for_product_and_board("18c6", "GZ302XX"),
        AuraDeviceType::LaptopKeyboardPre2021
    );
}

#[test]
fn product_ids_map_to_device_types() {
    let cases = [
        ("tuf", AuraDeviceType::LaptopKeyboardTuf),
        ("1932", AuraDeviceType::ScsiExtDisk),
        ("1866", AuraDeviceType::LaptopKeyboardPre2021),
        ("18c6", AuraDeviceType::LaptopKeyboardPre2021),
        ("1869", AuraDeviceType::LaptopKeyboardPre2021),
        ("1854", AuraDeviceType::LaptopKeyboardPre2021),
        ("1abe", AuraDeviceType::Ally),
        ("1b4c", AuraDeviceType::Ally),
        ("19b3", AuraDeviceType::AnimeOrSlash),
        ("193b", AuraDeviceType::AnimeOrSlash),
        ("19b6", AuraDeviceType::LaptopKeyboard2021),
        ("1a30", AuraDeviceType::LaptopKeyboard2021),
        ("1ce6", AuraDeviceType::LaptopKeyboard2021),
        ("", AuraDeviceType::Unknown),
        ("abcd", AuraDeviceType::Unknown),
        ("18c6 ", AuraDeviceType::Unknown),
        ("x18c6", AuraDeviceType::Unknown),
    ];
    for (id, expected) in cases {
        assert_eq!(AuraDeviceType::from(id), expected, "{id}");
    }
}

#[test]
fn product_ids_ignore_case_and_hex_prefix() {
    assert_eq!(AuraDeviceType::from("TUF"), AuraDeviceType::LaptopKeyboardTuf);
    assert_eq!(AuraDeviceType::from("0x1A30"), AuraDeviceType::LaptopKeyboard2021);
    assert_eq!(AuraDeviceType::from("0X1ABE"), AuraDeviceType::Ally);
    assert_eq!(AuraDeviceType::from("0x0x1866"), AuraDeviceType::LaptopKeyboardPre2021);
    assert_eq!(AuraDeviceType::from("0x"), AuraDeviceType::Unknown);
    assert_eq!(AuraDeviceType::from("\u{e9}19b3"), AuraDeviceType::Unknown);
}

#[test]
fn rear_glow_needs_board_and_id() {
    assert_eq!(
        AuraDeviceType::for_product_and_board("0x18C6", "GZ302EA"),
        AuraDeviceType::RearGlow
    );
    assert_eq!(
        AuraDeviceType::for_product_and_board("0x0x18c6", "GZ302EA"),
        AuraDeviceType::RearGlow
    );
    // The board check trims only a lower-case prefix before comparing.
    assert_eq!(
        AuraDeviceType::for_product_and_board("0X18c6", "GZ302EA"),
        AuraDeviceType::LaptopKeyboardPre2021
    );
    assert_eq!(
        AuraDeviceType::for_product_and_board("18c6", "gz302ea"),
        AuraDeviceType::LaptopKeyboardPre2021
    );
    assert_eq!(
        AuraDeviceType::for_product_and_board("tuf", "GZ302EA"),
        AuraDeviceType::LaptopKeyboardTuf
    );
    assert_eq!(
        AuraDeviceType::for_product_and_board("18c67", "GZ302EA"),
        AuraDeviceType::Unknown
    );
}

#[test]
fn laptop_generation_predicates() {
    let all = [
        AuraDeviceType::LaptopKeyboard2021,
        AuraDeviceType::LaptopKeyboardPre2021,
        AuraDeviceType::LaptopKeyboardTuf,
        AuraDeviceType::ScsiExtDisk,
        AuraDeviceType::Ally,
        AuraDeviceType::AnimeOrSlash,
        AuraDeviceType::RearGlow,
        AuraDeviceType::Unknown,
    ];
    for t in all {
        assert_eq!(t.is_old_laptop(), t == AuraDeviceType::LaptopKeyboardPre2021);
        assert_eq!(t.is_tuf_laptop(), t == AuraDeviceType::LaptopKeyboardTuf);
        assert_eq!(t.is_new_laptop(), t == AuraDeviceType::LaptopKeyboard2021);
    }
    assert_eq!(AuraDeviceType::default(), AuraDeviceType::LaptopKeyboard2021);
}

#[test]
fn power_zone_values() {
    let zones = [
        (PowerZones::Logo, 0u8),
        (PowerZones::Keyboard, 1),
        (PowerZones::Lightbar, 2),
        (PowerZones::Lid, 3),
        (PowerZones::RearGlow, 4),
        (PowerZones::KeyboardAndLightbar, 5),
        (PowerZones::Ally, 6),
        (PowerZones::NoZone, 255),
    ];
    for (zone, value) in zones {
        assert_eq!(zone.value(), value);
    }
    assert_eq!(PowerZones::default(), PowerZones::Keyboard);
}

#[test]
fn device_type_values_and_default() {
    let values = [
        (AuraDeviceType::LaptopKeyboard2021, 0u8),
        (AuraDeviceType::LaptopKeyboardPre2021, 1),
        (AuraDeviceType::LaptopKeyboardTuf, 2),
        (AuraDeviceType::ScsiExtDisk, 3),
        (AuraDeviceType::Ally, 4),
        (AuraDeviceType::AnimeOrSlash, 5),
        (AuraDeviceType::RearGlow, 6),
        (AuraDeviceType::Unknown, 255),
    ];
    for (t, v) in values {
        assert_eq!(t.value(), v);
    }
    assert!(AuraDeviceType::default().is_new_laptop());
}
