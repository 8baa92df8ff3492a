//! Kinds of device.

use uhid_battery::descriptor::{
    concat_bytes, BATTERY_FIELDS, GENERIC_HEAD, GENERIC_TAIL, MAX_LEN, MOUSE_HEAD, MOUSE_TAIL,
};
use uhid_battery::Kind;

/// razerd's descriptor, byte for byte: changing it would rename the power
/// supply its users already have history for.
const RAZERD_MOUSE: &[u8] = &[
    0x05, 0x01, 0x09, 0x02, 0xa1, 0x01, 0x85, 0x01, 0x09, 0x01, 0xa1, 0x00, 0x05, 0x09, 0x19,
    0x01, 0x29, 0x03, 0x15, 0x00, 0x25, 0x01, 0x75, 0x01, 0x95, 0x03, 0x81, 0x02, 0x75, 0x05,
    0x95, 0x01, 0x81, 0x03, 0x05, 0x01, 0x09, 0x30, 0x09, 0x31, 0x15, 0x81, 0x25, 0x7f, 0x75,
    0x08, 0x95, 0x02, 0x81, 0x06, 0xc0, 0x85, 0x02, 0x05, 0x06, 0x09, 0x20, 0x15, 0x00, 0x26,
    0x64, 0x00, 0x75, 0x08, 0x95, 0x01, 0x81, 0x02, 0x05, 0x85, 0x09, 0x44, 0x25, 0x01, 0x75,
    0x01, 0x81, 0x02, 0x75, 0x07, 0x81, 0x03, 0xc0,
];

/// The descriptor HeadsetBatteryIndicator shipped with.
const HBI_GENERIC: &[u8] = &[
    0x05, 0x0c, 0x09, 0x01, 0xa1, 0x01, 0x85, 0x01, 0x05, 0x06, 0x09, 0x20, 0x15, 0x00, 0x26,
    0x64, 0x00, 0x75, 0x08, 0x95, 0x01, 0x81, 0x02, 0x05, 0x85, 0x09, 0x44, 0x25, 0x01, 0x75,
    0x01, 0x81, 0x02, 0x06, 0x21, 0xff, 0x09, 0x02, 0x81, 0x02, 0x75, 0x06, 0x81, 0x03, 0xc0,
];

#[test]
fn descriptors_match_the_ones_already_in_the_field() {
    assert_eq!(Kind::Mouse.descriptor(), RAZERD_MOUSE);
    assert_eq!(Kind::Generic.descriptor(), HBI_GENERIC);
    assert_eq!(Kind::Headset.descriptor(), HBI_GENERIC);
}

#[test]
fn every_descriptor_opens_with_an_input_application() {
    // Generic Desktop / Mouse, and Consumer / Consumer Control.
    assert_eq!(
        &Kind::Mouse.descriptor()[..6],
        [0x05, 0x01, 0x09, 0x02, 0xa1, 0x01]
    );
    assert_eq!(
        &Kind::Generic.descriptor()[..6],
        [0x05, 0x0c, 0x09, 0x01, 0xa1, 0x01]
    );
}

#[test]
fn the_battery_report_id_is_the_one_the_descriptor_declares() {
    for kind in [Kind::Mouse, Kind::Generic, Kind::Headset] {
        let descriptor = kind.descriptor();
        let battery = descriptor
            .windows(4)
            .position(|w| w == [0x05, 0x06, 0x09, 0x20])
            .expect("a battery strength usage");
        // The last Report ID item before the battery fields.
        let id = descriptor[..battery]
            .windows(2)
            .rev()
            .find(|w| w[0] == 0x85)
            .map(|w| w[1]);
        assert_eq!(id, Some(kind.report_id()), "{kind:?}");
    }
}

#[test]
fn only_headsets_need_a_udev_rule() {
    assert_eq!(Kind::Mouse.udev_rule("x/*"), None);
    assert_eq!(Kind::Generic.udev_rule("x/*"), None);
    let rule = Kind::Headset.udev_rule("my-daemon/*").unwrap();
    assert!(rule.contains(r#"ATTR{phys}=="my-daemon/*""#), "{rule}");
    assert!(
        rule.contains(r#"ENV{SOUND_FORM_FACTOR}="headset""#),
        "{rule}"
    );
    assert_eq!(Kind::Headset.udev_rule("x\", RUN+=\"/bin/true"), None);
    assert_eq!(Kind::Headset.udev_rule("x\nKERNEL==\"*\""), None);
}

#[test]
fn the_udev_rule_reads_as_a_whole() {
    assert_eq!(
        Kind::Headset.udev_rule("my-daemon/*").unwrap(),
        "SUBSYSTEM==\"input\", KERNEL==\"input*\", ATTR{phys}==\"my-daemon/*\", \
         ENV{SOUND_INITIALIZED}=\"1\", ENV{SOUND_FORM_FACTOR}=\"headset\""
    );
}

#[test]
fn every_control_character_is_kept_out_of_the_udev_rule() {
    for code in 0..=0x10ffff {
        if let Some(c) = char::from_u32(code) {
            if c.is_control() {
                let phys = format!("a{c}b");
                assert_eq!(Kind::Headset.udev_rule(&phys), None, "{code:x}");
            }
        }
    }
    for quotable in ["", "*", "\u{20}", "\u{7e}", "\u{a0}", "é'\\"] {
        assert!(Kind::Headset.udev_rule(quotable).is_some());
    }
}

#[test]
fn the_report_ids_are_the_ones_in_the_names_users_know() {
    assert_eq!(Kind::Mouse.report_id(), 2);
    assert_eq!(Kind::Generic.report_id(), 1);
    assert_eq!(Kind::Headset.report_id(), 1);
}

#[test]
fn the_parts_make_the_descriptors() {
    let mouse = concat_bytes(&[&MOUSE_HEAD, &BATTERY_FIELDS, &MOUSE_TAIL]);
    assert_eq!(mouse.as_slice(), Kind::Mouse.descriptor());
    let generic = concat_bytes(&[&GENERIC_HEAD, &BATTERY_FIELDS, &GENERIC_TAIL]);
    assert_eq!(generic.as_slice(), Kind::Generic.descriptor());
    assert!(concat_bytes(&[]).as_slice().is_empty());
    assert_eq!(concat_bytes(&[&[], &[3; MAX_LEN]]).as_slice(), [3; MAX_LEN]);
}

#[test]
fn the_battery_report_has_the_length_its_descriptor_declares() {
    for kind in [Kind::Mouse, Kind::Generic, Kind::Headset] {
        let descriptor = kind.descriptor();
        let (mut report, mut size, mut count, mut bits) = (0u8, 0u32, 0u32, 0u32);
        let mut at = 0;
        while at < descriptor.len() {
            let len = usize::from(descriptor[at] & 3);
            match descriptor[at] {
                0x85 => report = descriptor[at + 1],
                0x75 => size = u32::from(descriptor[at + 1]),
                0x95 => count = u32::from(descriptor[at + 1]),
                0x81 if report == kind.report_id() => bits += size * count,
                _ => {}
            }
            at += 1 + len;
        }
        // The level and the charging byte, after the report ID.
        assert_eq!(bits, 16, "{kind:?}");
    }
}
