use fjord_monitor::sensors::{
    choose_cpu_sensor, choose_gpu_card, CardProbe, choose_driver_sensor, is_drm_card, is_hwmon_named, is_package_label,
    nvidia_numbers, SensorProbe, CPU_TEMP_DRIVERS, SENSOR_SLOTS,
};
use fjord_monitor::text::{number_prefix_of, position_of, same_text, text_before, trim};

#[test]
fn trim_removes_unicode_white_space() {
    assert_eq!(trim("  k10temp\n"), "k10temp");
    assert_eq!(trim("\u{3000}\u{a0}x y\t\r"), "x y");
    assert_eq!(trim(" \n "), "");
    assert_eq!(trim(""), "");
    assert_eq!(trim("a"), "a");
}

#[test]
fn number_prefix_ignores_units() {
    assert_eq!(number_prefix_of("37"), "37");
    assert_eq!(number_prefix_of(" 37 %"), "37");
    assert_eq!(number_prefix_of("-12.5C"), "-12.5");
    assert_eq!(number_prefix_of("[N/A]"), "");
}

#[test]
fn position_and_comparison() {
    assert_eq!(position_of("a,b,c", 0, ','), 1);
    assert_eq!(position_of("a,b,c", 2, ','), 3);
    assert_eq!(position_of("abc", 0, ','), 3);
    assert!(same_text("Tdie", "Tdie"));
    assert!(!same_text("Tdie", "Tdi"));
    assert!(!same_text("Tdie", "TdiE"));
}

#[test]
fn nvidia_first_row_only() {
    assert_eq!(nvidia_numbers("37, 45\n12, 50\n"), Some(("37", "45")));
    assert_eq!(nvidia_numbers("37 %, 45 C"), Some(("37", "45")));
    assert_eq!(nvidia_numbers("5, 61\r\n"), Some(("5", "61")));
    assert_eq!(nvidia_numbers("5, 61, 7\n"), Some(("5", "61")));
}

#[test]
fn nvidia_without_two_fields() {
    assert_eq!(nvidia_numbers(""), None);
    assert_eq!(nvidia_numbers("\n37, 45"), None);
    assert_eq!(nvidia_numbers("No devices were found\n"), None);
    assert_eq!(nvidia_numbers("[N/A], 40"), Some(("", "40")));
}

#[test]
fn drm_cards_not_connectors() {
    assert!(is_drm_card("card0"));
    assert!(is_drm_card("card1"));
    assert!(!is_drm_card("card0-eDP-1"));
    assert!(!is_drm_card("renderD128"));
    assert!(!is_drm_card("car"));
    assert!(is_drm_card("card"));
}

#[test]
fn package_labels() {
    assert!(is_package_label("Tctl\n"));
    assert!(is_package_label("Package id 0\n"));
    assert!(is_package_label("Tdie"));
    assert!(!is_package_label("Core 0\n"));
    assert!(!is_package_label("Tccd1"));
}

#[test]
fn hwmon_names() {
    assert!(is_hwmon_named("coretemp\n", "coretemp"));
    assert!(!is_hwmon_named("amdgpu\n", "coretemp"));
    assert_eq!(CPU_TEMP_DRIVERS, ["k10temp", "zenpower", "coretemp"]);
    assert_eq!(SENSOR_SLOTS, 8);
}

fn probe(label: Option<&str>, input_exists: bool) -> SensorProbe {
    SensorProbe { label: label.map(|l| l.to_string()), input_exists }
}

#[test]
fn labelled_package_sensor_is_preferred() {
    let sensors = vec![
        probe(Some("Tccd1\n"), true),
        probe(None, true),
        probe(Some("Tctl\n"), true),
    ];
    assert_eq!(choose_driver_sensor(&sensors), Some(2));
}

#[test]
fn labelled_sensor_without_input_falls_back_to_temp1() {
    let sensors = vec![probe(Some("Core 0"), true), probe(Some("Tdie"), false)];
    assert_eq!(choose_driver_sensor(&sensors), Some(0));
    let none = vec![probe(Some("Core 0"), false), probe(Some("Tdie"), false)];
    assert_eq!(choose_driver_sensor(&none), None);
    assert_eq!(choose_driver_sensor(&Vec::new()), None);
}

#[test]
fn drivers_tried_in_order() {
    let probes = vec![
        None,
        Some(vec![probe(None, false)]),
        Some(vec![probe(Some("Core 0"), true), probe(Some("Package id 0\n"), true)]),
    ];
    assert_eq!(choose_cpu_sensor(&probes), Some((2, 1)));
    let first = vec![Some(vec![probe(None, true)]), Some(vec![probe(Some("Tctl"), true)])];
    assert_eq!(choose_cpu_sensor(&first), Some((0, 0)));
    assert_eq!(choose_cpu_sensor(&vec![None, None, None]), None);
}

#[test]
fn character_order() {
    assert!(text_before("card0", "card1"));
    assert!(!text_before("card1", "card0"));
    assert!(text_before("card1", "card10"));
    assert!(text_before("card10", "card2"));
    assert!(!text_before("card2", "card2"));
    assert!(text_before("", "a"));
    assert!(!text_before("a", ""));
}

fn card(name: &str, has_counter: bool) -> CardProbe {
    CardProbe { name: name.to_string(), has_counter }
}

#[test]
fn first_card_with_counter_by_name() {
    let cards = vec![
        card("card2", true),
        card("renderD128", true),
        card("card1-eDP-1", true),
        card("card0", false),
        card("card1", true),
        card("version", false),
    ];
    assert_eq!(choose_gpu_card(&cards), Some(4));
    let later = vec![card("card10", true), card("card2", true)];
    assert_eq!(choose_gpu_card(&later), Some(0));
    let none = vec![card("card0", false), card("card0-DP-1", true)];
    assert_eq!(choose_gpu_card(&none), None);
    assert_eq!(choose_gpu_card(&Vec::new()), None);
}
