use std::sync::atomic::{AtomicUsize, Ordering};

use rog_aura::aura_objects::aura_object_order;
use rog_aura::aura_page::{
    brightness_step, device_label, keyboard_first, mode_position, offered_mode_indices, page_step,
    rear_to_reassert, rear_window_index, select_step, visible_power_zones, BrightnessAction,
    BrightnessEvent, DeviceLabel, PageAction, PageEvent,
};
use rog_aura::colour_hex::{decode_hex, hex_from_colour, hex_text_splits, Rgba};
use rog_aura::selection::{is_current_generation, selection_is_current};
use rog_aura::{
    blue, gradient, green, orange, red, teal, violet, yellow, AuraDeviceType, Colour,
    LedBrightness, PowerZones,
};

fn rgba(red: u8, green: u8, blue: u8) -> Rgba {
    Rgba { alpha: 255, red, green, blue }
}

#[test]
fn decode_hex_reads_colour_fields() {
    assert_eq!(decode_hex("#FF8000"), rgba(255, 128, 0));
    assert_eq!(decode_hex("##0a0B0c"), rgba(10, 11, 12));
    assert_eq!(decode_hex("123456"), rgba(0x12, 0x34, 0x56));
    assert_eq!(decode_hex("#12345678"), rgba(0x12, 0x34, 0x56));
    assert_eq!(decode_hex("zz1234"), rgba(164, 0x12, 0x34));
    assert_eq!(decode_hex("+a+b+c"), rgba(10, 11, 12));
    assert_eq!(decode_hex("-a00++"), rgba(164, 0, 164));
}

#[test]
fn decode_hex_short_text_is_black() {
    assert_eq!(decode_hex(""), rgba(0, 0, 0));
    assert_eq!(decode_hex("#12345"), rgba(0, 0, 0));
    assert_eq!(decode_hex("######"), rgba(0, 0, 0));
}

#[test]
fn hex_text_splitting() {
    assert!(hex_text_splits("#abcdef"));
    assert!(hex_text_splits("#abc"));
    assert!(!hex_text_splits("#abcdefg"));
    assert!(hex_text_splits("\u{e9}\u{e9}\u{e9}"));
    assert!(!hex_text_splits("a\u{e9}\u{e9}a"));
    assert_eq!(decode_hex("\u{e9}\u{e9}\u{e9}"), rgba(164, 164, 164));
}

#[test]
fn hex_from_colour_writes_upper_case() {
    assert_eq!(hex_from_colour(Colour { r: 0x0a, g: 0xff, b: 0x00 }), "#0AFF00");
    assert_eq!(hex_from_colour(Colour { r: 0x9b, g: 0x26, b: 0xb6 }), "#9B26B6");
}

#[test]
fn hex_round_trip() {
    for c in gradient() {
        let text = hex_from_colour(c);
        assert!(hex_text_splits(&text));
        assert_eq!(decode_hex(&text), rgba(c.r, c.g, c.b));
    }
}

#[test]
fn device_labels_and_order() {
    assert_eq!(device_label(AuraDeviceType::RearGlow), DeviceLabel::RearWindow);
    assert_eq!(device_label(AuraDeviceType::LaptopKeyboardTuf), DeviceLabel::Keyboard);
    assert_eq!(device_label(AuraDeviceType::LaptopKeyboardPre2021), DeviceLabel::Keyboard);
    assert_eq!(device_label(AuraDeviceType::LaptopKeyboard2021), DeviceLabel::Keyboard);
    assert_eq!(device_label(AuraDeviceType::Ally), DeviceLabel::AuraDevice);
    assert_eq!(DeviceLabel::RearWindow.text(), "Rear window");
    assert_eq!(DeviceLabel::Keyboard.text(), "Keyboard");
    assert_eq!(DeviceLabel::AuraDevice.text(), "Aura device");

    let labels = vec![
        DeviceLabel::AuraDevice,
        DeviceLabel::Keyboard,
        DeviceLabel::RearWindow,
        DeviceLabel::Keyboard,
    ];
    assert_eq!(keyboard_first(&labels), vec![1, 3, 0, 2]);
    assert_eq!(keyboard_first(&vec![]), Vec::<usize>::new());
    assert_eq!(rear_window_index(&labels), Some(2));
    assert_eq!(rear_window_index(&vec![DeviceLabel::Keyboard]), None);
    assert_eq!(rear_to_reassert(&labels, 1, Some(2)), Some(2));
    assert_eq!(rear_to_reassert(&labels, 0, Some(2)), None);
    assert_eq!(rear_to_reassert(&labels, 3, None), None);
}

#[test]
fn offered_modes_and_positions() {
    let supported = vec![0, 1, 9, 11, 20, -3];
    let offered = offered_mode_indices(12, &supported);
    assert_eq!(offered, vec![0, 1, 11]);
    assert_eq!(offered_mode_indices(0, &supported), Vec::<usize>::new());
    let raws: Vec<i32> = offered.iter().map(|i| *i as i32).collect();
    assert_eq!(mode_position(&raws, 11), 2);
    assert_eq!(mode_position(&raws, 9), 0);
    assert_eq!(mode_position(&vec![5, 5], 5), 0);
    assert_eq!(mode_position(&vec![4, 5, 5], 5), 1);
}

#[test]
fn power_zones_hide_no_zone() {
    let zones = vec![
        PowerZones::NoZone,
        PowerZones::Keyboard,
        PowerZones::NoZone,
        PowerZones::Lid,
        PowerZones::RearGlow,
    ];
    assert_eq!(
        visible_power_zones(&zones),
        vec![PowerZones::Keyboard, PowerZones::Lid, PowerZones::RearGlow]
    );
    assert_eq!(visible_power_zones(&vec![PowerZones::NoZone]), vec![]);
}

#[test]
fn selection_follows_generation() {
    let generation = AtomicUsize::new(0);
    assert!(selection_is_current(&generation, 0));
    let selected = generation.fetch_add(1, Ordering::SeqCst) + 1;
    assert!(!selection_is_current(&generation, 0));
    assert!(selection_is_current(&generation, selected));
    assert!(is_current_generation(3, 3));
    assert!(!is_current_generation(4, 3));
}

#[test]
fn gradient_colours() {
    let g = gradient();
    assert_eq!(g[0], Colour { r: 0xff, g: 0, b: 0 });
    assert_eq!(g[1], Colour { r: 0x9b, g: 0x26, b: 0xb6 });
    assert_eq!(g[6], Colour { r: 0xff, g: 0xa4, b: 0x00 });
}

#[test]
fn named_colours_and_defaults() {
    assert_eq!(red(), Colour { r: 0xff, g: 0, b: 0 });
    assert_eq!(green(), Colour { r: 0, g: 0xff, b: 0 });
    assert_eq!(blue(), Colour { r: 0, g: 0, b: 0xff });
    assert_eq!(violet(), Colour { r: 0x9b, g: 0x26, b: 0xb6 });
    assert_eq!(teal(), Colour { r: 0x00, g: 0x7c, b: 0x80 });
    assert_eq!(yellow(), Colour { r: 0xff, g: 0xef, b: 0x00 });
    assert_eq!(orange(), Colour { r: 0xff, g: 0xa4, b: 0x00 });
    assert_eq!(gradient(), [red(), violet(), blue(), teal(), green(), yellow(), orange()]);
    assert_eq!(Colour::default(), Colour { r: 0, g: 0, b: 0 });
    assert_eq!(LedBrightness::default(), LedBrightness::Med);
}

#[test]
fn stale_events_are_ignored() {
    let events = vec![
        PageEvent::Brightness(LedBrightness::High),
        PageEvent::DeviceType(AuraDeviceType::Ally),
        PageEvent::ModeChanged { raw: 3, offered: vec![0, 3] },
        PageEvent::PowerZones {
            device: AuraDeviceType::LaptopKeyboardPre2021,
            zones: vec![PowerZones::Lid],
        },
    ];
    for event in events {
        assert_eq!(page_step(2, 1, event), PageAction::Ignore);
    }
}

#[test]
fn current_events_update_the_page() {
    assert_eq!(
        page_step(1, 1, PageEvent::Brightness(LedBrightness::Low)),
        PageAction::ShowBrightness(LedBrightness::Low)
    );
    assert_eq!(
        page_step(1, 1, PageEvent::DeviceType(AuraDeviceType::RearGlow)),
        PageAction::ShowDeviceType(AuraDeviceType::RearGlow)
    );
    assert_eq!(
        page_step(0, 0, PageEvent::ModeChanged { raw: 11, offered: vec![0, 1, 11] }),
        PageAction::SelectMode(2)
    );
    assert_eq!(
        page_step(0, 0, PageEvent::ModeChanged { raw: 7, offered: vec![0, 1, 11] }),
        PageAction::SelectMode(0)
    );
    let zones = vec![PowerZones::NoZone, PowerZones::Logo, PowerZones::Lightbar];
    assert_eq!(
        page_step(
            5,
            5,
            PageEvent::PowerZones {
                device: AuraDeviceType::LaptopKeyboardPre2021,
                zones: zones.clone()
            }
        ),
        PageAction::ShowZoneNames(vec![0, 2])
    );
    assert_eq!(
        page_step(5, 5, PageEvent::PowerZones { device: AuraDeviceType::LaptopKeyboard2021, zones }),
        PageAction::ShowZones(vec![PowerZones::Logo, PowerZones::Lightbar])
    );
}

fn object(path: &str, interfaces: &[&str]) -> (String, Vec<String>) {
    (path.to_string(), interfaces.iter().map(|s| s.to_string()).collect())
}

#[test]
fn aura_objects_are_chosen_and_sorted_by_path() {
    let objects = vec![
        object("/xyz/ljones/aura/b", &["org.freedesktop.DBus.Properties", "xyz.ljones.Aura"]),
        object("/xyz/ljones/platform", &["xyz.ljones.Platform"]),
        object("/xyz/ljones/aura/a", &["xyz.ljones.Aura"]),
        object("/xyz/ljones/aura", &["xyz.ljones.Aura"]),
        object("/xyz/ljones/aura/c", &["xyz.ljones.AuraX", "xyz.ljones.aura"]),
        object("/xyz/ljones/Aura", &["xyz.ljones.Aura"]),
    ];
    assert_eq!(aura_object_order(&objects), vec![5, 3, 2, 0]);
    assert!(aura_object_order(&vec![object("/a", &["xyz.ljones.Platform"])]).is_empty());
    assert!(aura_object_order(&vec![]).is_empty());
    let twins = vec![object("/a", &["xyz.ljones.Aura"]), object("/a", &["xyz.ljones.Aura"])];
    assert_eq!(aura_object_order(&twins), vec![0, 1]);
}

#[test]
fn selecting_a_device() {
    let labels = vec![DeviceLabel::Keyboard, DeviceLabel::RearWindow];
    assert_eq!(select_step(&labels, 0, 4, Some(1)), Some((5, Some(1))));
    assert_eq!(select_step(&labels, 1, 5, Some(1)), Some((6, None)));
    assert_eq!(select_step(&labels, 2, 5, Some(1)), None);
    assert_eq!(select_step(&labels, usize::MAX, usize::MAX, None), None);
}

fn run_brightness(
    current: usize,
    selected: usize,
    value: i32,
    rear: Option<Result<rog_aura::LedBrightness, ()>>,
    device_ok: bool,
    rear_write_ok: bool,
) -> Vec<BrightnessAction> {
    let mut actions = Vec::new();
    let mut event = BrightnessEvent::Chosen;
    loop {
        let action = brightness_step(current, selected, value, rear.is_some(), event);
        event = match &action {
            BrightnessAction::WriteDevice(_) => BrightnessEvent::DeviceWritten(device_ok),
            BrightnessAction::ReadRear => BrightnessEvent::RearRead(rear.unwrap().ok()),
            BrightnessAction::WriteRear(_) => BrightnessEvent::RearWritten(rear_write_ok),
            _ => {
                actions.push(action);
                return actions;
            },
        };
        actions.push(action);
    }
}

#[test]
fn brightness_change_sequence() {
    assert_eq!(run_brightness(1, 2, 3, None, true, true), vec![BrightnessAction::Ignore]);
    assert_eq!(run_brightness(2, 2, 3, None, true, true), vec![BrightnessAction::WriteDevice(3), BrightnessAction::ReportSuccess(3)]);
    assert_eq!(run_brightness(2, 2, 3, None, false, true), vec![BrightnessAction::WriteDevice(3), BrightnessAction::ReportFailure]);
    assert_eq!(
        run_brightness(2, 2, 1, Some(Ok(LedBrightness::High)), true, true),
        vec![BrightnessAction::WriteDevice(1), BrightnessAction::ReadRear, BrightnessAction::WriteRear(LedBrightness::High), BrightnessAction::ReportSuccess(1)]
    );
    assert_eq!(
        run_brightness(2, 2, 1, Some(Err(())), true, true),
        vec![BrightnessAction::WriteDevice(1), BrightnessAction::ReadRear, BrightnessAction::ReportFailure]
    );
    assert_eq!(
        run_brightness(2, 2, 1, Some(Ok(LedBrightness::Off)), true, false),
        vec![BrightnessAction::WriteDevice(1), BrightnessAction::ReadRear, BrightnessAction::WriteRear(LedBrightness::Off), BrightnessAction::ReportFailure]
    );
}

#[test]
fn page_load_and_user_events() {
    assert_eq!(page_step(3, 3, PageEvent::LoadRequested), PageAction::StartLoad);
    assert_eq!(page_step(3, 3, PageEvent::LedPower), PageAction::ShowLedPower);
    assert_eq!(page_step(3, 3, PageEvent::LedModeChosen), PageAction::WriteLedMode);
    assert_eq!(page_step(3, 3, PageEvent::LedPowerChosen), PageAction::WriteLedPower);
    assert_eq!(
        page_step(3, 3, PageEvent::ModesRead { name_count: 12, supported: vec![0, 2, 9, 10], restored: Some(10) }),
        PageAction::ShowModes { offered: vec![0, 2, 10], restore: Some(2) }
    );
    assert_eq!(
        page_step(3, 3, PageEvent::ModesRead { name_count: 12, supported: vec![0, 2], restored: Some(9) }),
        PageAction::ShowModes { offered: vec![0, 2], restore: Some(0) }
    );
    assert_eq!(
        page_step(3, 3, PageEvent::ModesRead { name_count: 4, supported: vec![1], restored: None }),
        PageAction::ShowModes { offered: vec![1], restore: None }
    );
    for event in [
        PageEvent::LoadRequested,
        PageEvent::LedPower,
        PageEvent::LedModeChosen,
        PageEvent::LedPowerChosen,
        PageEvent::ModesRead { name_count: 4, supported: vec![1], restored: Some(1) },
    ] {
        assert_eq!(page_step(4, 3, event), PageAction::Ignore);
    }
}
