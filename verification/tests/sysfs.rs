//! Finding the power supply.

use uhid_battery::find_power_supply;
use uhid_battery::sysfs::is_report_suffix;

fn listing(names: &[&str]) -> Vec<String> {
    names.iter().map(|name| String::from(*name)).collect()
}

fn found(names: &Vec<String>, uniq: &str) -> Option<String> {
    find_power_supply(names, uniq).map(|i| names[i].clone())
}

#[test]
fn the_supply_is_found_under_both_kernel_naming_schemes() {
    let names = listing(&[
        "hid-headset-3329-4b18-battery-1",
        "hid-razerd-battery",
        // Somebody else's device whose uniq merely starts the same way.
        "hid-headset-3329-4b18-batteryx",
        // And one whose uniq is ours followed by `-battery`.
        "hid-razerd-battery-battery",
        "hid-absent-battery-",
    ]);
    assert_eq!(
        found(&names, "headset-3329-4b18").as_deref(),
        Some("hid-headset-3329-4b18-battery-1")
    );
    assert_eq!(found(&names, "razerd").as_deref(), Some("hid-razerd-battery"));
    assert_eq!(found(&names, "absent"), None);
    assert_eq!(found(&listing(&[]), "razerd"), None);
}

#[test]
fn the_supply_of_another_device_is_left_alone() {
    let names = listing(&[
        "hid-razerd-battery-battery-3",
        "hid-razerd-battery-1x",
        "xhid-razerd-battery",
        "hid-razer-battery",
        "razerd",
        "",
        "BAT0",
    ]);
    assert_eq!(found(&names, "razerd"), None);
    assert_eq!(find_power_supply(&names, "razerd-battery"), Some(0));
    assert_eq!(find_power_supply(&names, "razer"), Some(3));
}

#[test]
fn the_first_supply_in_the_listing_wins() {
    let names = listing(&["AC", "hid-u-battery-12", "hid-u-battery"]);
    assert_eq!(find_power_supply(&names, "u"), Some(1));
    let names = listing(&["hid-é-battery-1"]);
    assert_eq!(find_power_supply(&names, "é"), Some(0));
    assert_eq!(find_power_supply(&names, "e"), None);
}

#[test]
fn a_suffix_is_a_report_id() {
    for suffix in ["", "-0", "-1", "-255", "-00042"] {
        assert!(is_report_suffix(suffix), "{suffix}");
    }
    for suffix in ["-", "1", "-1-", "--1", "-a", "-1a", "x", "-\u{661}", "-battery"] {
        assert!(!is_report_suffix(suffix), "{suffix}");
    }
}
