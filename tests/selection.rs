use audio_client::{find_loopback_device, is_loopback_name_lower, select_device, DeviceInfo};

fn name_of(d: &DeviceInfo) -> &str {
    d.name.as_deref().unwrap()
}

#[test]
fn test_find_loopback_device() {
    let devices = vec![
        DeviceInfo::new("Microphone", true),
        DeviceInfo::new("Stereo Mix", true),
        DeviceInfo::new("Speakers", false),
    ];

    let result = find_loopback_device(&devices);
    assert!(result.is_some());
    assert_eq!(name_of(result.unwrap()), "Stereo Mix");
}

#[test]
fn test_find_loopback_device_no_match() {
    let devices = vec![
        DeviceInfo::new("Microphone", true),
        DeviceInfo::new("Speakers", false),
    ];

    let result = find_loopback_device(&devices);
    assert!(result.is_none());
}

#[test]
fn test_select_device_by_index() {
    let devices = vec![
        DeviceInfo::new("Device1", true),
        DeviceInfo::new("Device2", true),
    ];

    let result = select_device(&devices, Some(0), None);
    assert!(result.is_some());
    assert_eq!(name_of(result.unwrap()), "Device1");
}

#[test]
fn test_select_device_by_name() {
    let devices = vec![
        DeviceInfo::new("Microphone", true),
        DeviceInfo::new("Stereo Mix", true),
    ];

    let result = select_device(&devices, None, Some("Stereo Mix"));
    assert!(result.is_some());
    assert_eq!(name_of(result.unwrap()), "Stereo Mix");
}

#[test]
fn test_select_device_default_loopback() {
    let devices = vec![
        DeviceInfo::new("Microphone", true),
        DeviceInfo::new("Stereo Mix", true),
    ];

    let result = select_device(&devices, None, None);
    assert!(result.is_some());
    assert_eq!(name_of(result.unwrap()), "Stereo Mix");
}

#[test]
fn test_select_device_default_fallback() {
    let devices = vec![
        DeviceInfo::new("Microphone", true),
        DeviceInfo::new("Speakers", false),
    ];

    let result = select_device(&devices, None, None);
    assert!(result.is_some());
    assert_eq!(name_of(result.unwrap()), "Microphone");
}

fn catalog() -> Vec<DeviceInfo> {
    vec![
        DeviceInfo::new("Microphone", true),
        DeviceInfo::new("Stereo Mix", true),
        DeviceInfo::new("Speakers", false),
    ]
}

#[test]
fn default_selection_picks_stereo_mix() {
    let devices = catalog();
    assert_eq!(name_of(select_device(&devices, None, None).unwrap()), "Stereo Mix");
}

#[test]
fn explicit_index_zero_picks_microphone() {
    let devices = catalog();
    assert_eq!(name_of(select_device(&devices, Some(0), None).unwrap()), "Microphone");
}

#[test]
fn explicit_index_without_input_selects_nothing() {
    let devices = catalog();
    assert!(select_device(&devices, Some(2), None).is_none());
}

#[test]
fn explicit_index_past_the_end_selects_nothing() {
    let devices = catalog();
    assert!(select_device(&devices, Some(3), None).is_none());
}

#[test]
fn explicit_index_wins_over_name() {
    let devices = catalog();
    let r = select_device(&devices, Some(0), Some("Stereo Mix"));
    assert_eq!(name_of(r.unwrap()), "Microphone");
}

#[test]
fn name_without_input_selects_nothing() {
    let devices = catalog();
    assert!(select_device(&devices, None, Some("Speakers")).is_none());
}

#[test]
fn unknown_name_selects_nothing() {
    let devices = catalog();
    assert!(select_device(&devices, None, Some("Headset")).is_none());
}

#[test]
fn name_must_match_exactly() {
    let devices = catalog();
    assert!(select_device(&devices, None, Some("stereo mix")).is_none());
    assert!(select_device(&devices, None, Some("Stereo")).is_none());
}

#[test]
fn name_picks_first_of_duplicates_with_input() {
    let devices = vec![
        DeviceInfo { name: Some("Mic".to_string()), input_configs: Some(0) },
        DeviceInfo { name: Some("Mic".to_string()), input_configs: Some(3) },
        DeviceInfo { name: Some("Mic".to_string()), input_configs: Some(1) },
    ];
    let r = select_device(&devices, None, Some("Mic")).unwrap();
    assert_eq!(r.input_configs, Some(3));
}

#[test]
fn loopback_match_ignores_case() {
    let devices = vec![
        DeviceInfo::new("Microphone", true),
        DeviceInfo::new("STEREO MIX (Realtek)", true),
    ];
    let r = find_loopback_device(&devices).unwrap();
    assert_eq!(name_of(r), "STEREO MIX (Realtek)");
}

#[test]
fn loopback_needs_no_input_support() {
    let devices = vec![
        DeviceInfo::new("Microphone", true),
        DeviceInfo::new("BlackHole 2ch", false),
    ];
    let r = select_device(&devices, None, None).unwrap();
    assert_eq!(name_of(r), "BlackHole 2ch");
}

#[test]
fn first_loopback_wins() {
    let devices = vec![
        DeviceInfo::new("Line In", true),
        DeviceInfo::new("Soundflower (2ch)", true),
        DeviceInfo::new("Loopback Audio", true),
    ];
    let r = select_device(&devices, None, None).unwrap();
    assert_eq!(name_of(r), "Soundflower (2ch)");
}

#[test]
fn unreadable_names_never_match() {
    let devices = vec![
        DeviceInfo { name: None, input_configs: Some(1) },
        DeviceInfo::new("Microphone", true),
    ];
    assert!(find_loopback_device(&devices).is_none());
    assert!(select_device(&devices, None, Some("Microphone")).is_some());
    let r = select_device(&devices, None, None).unwrap();
    assert_eq!(r.name, None);
}

#[test]
fn failed_config_query_means_no_input() {
    let devices = vec![
        DeviceInfo { name: Some("Mic".to_string()), input_configs: None },
        DeviceInfo { name: Some("Line".to_string()), input_configs: Some(0) },
    ];
    assert!(!devices[0].has_input());
    assert!(!devices[1].has_input());
    assert!(select_device(&devices, None, None).is_none());
    assert!(select_device(&devices, Some(0), None).is_none());
}

#[test]
fn empty_catalog_selects_nothing() {
    let devices: Vec<DeviceInfo> = Vec::new();
    assert!(select_device(&devices, None, None).is_none());
    assert!(select_device(&devices, Some(0), None).is_none());
    assert!(select_device(&devices, None, Some("Mic")).is_none());
    assert!(find_loopback_device(&devices).is_none());
}

#[test]
fn lower_case_marker_check() {
    assert!(is_loopback_name_lower("stereo mix (realtek audio)"));
    assert!(is_loopback_name_lower("my loopback"));
    assert!(is_loopback_name_lower("blackhole 16ch"));
    assert!(is_loopback_name_lower("soundflower (64ch)"));
    assert!(!is_loopback_name_lower("STEREO MIX"));
    assert!(!is_loopback_name_lower("microphone"));
    assert!(!is_loopback_name_lower(""));
}
