use gled::audio::{
    audio_device_label, audio_device_labels, format_audio_device_label, is_capture_input_device,
    is_generic_device_name, normalize_label, pretty_address, sanitize_metadata_line,
    DeviceDescription,
};

fn device(name: &str) -> DeviceDescription {
    DeviceDescription {
        name: name.to_string(),
        manufacturer: None,
        address: None,
        interface_type: None,
        driver: None,
        extended: Vec::new(),
        supports_input: false,
    }
}

fn input_device(name: &str) -> DeviceDescription {
    DeviceDescription { supports_input: true, ..device(name) }
}

#[test]
fn format_audio_device_label_prefers_manufacturer_and_address() {
    let label = format_audio_device_label(
        "USB Audio",
        Some("Focusrite"),
        Some("hw:2,0"),
        Some("USB"),
        Some("ALSA"),
        &[],
        true,
    );

    assert_eq!(label, "Focusrite Audio (Card 2, Device 0)");
}

#[test]
fn format_audio_device_label_uses_pretty_address_for_duplicate_names() {
    let label = format_audio_device_label("USB Audio", None, Some("hw:2,0"), None, None, &[], true);

    assert_eq!(label, "USB Audio (Card 2, Device 0)");
}

#[test]
fn format_audio_device_label_uses_driver_when_other_metadata_is_missing() {
    let label = format_audio_device_label("USB Audio", None, None, None, Some("ALSA"), &[], true);

    assert_eq!(label, "USB Audio (ALSA)");
}

#[test]
fn format_audio_device_label_prefers_extended_human_description() {
    let description = DeviceDescription {
        manufacturer: Some("Focusrite Audio".to_string()),
        address: Some("hw:2,0".to_string()),
        extended: vec!["USB Audio".to_string(), "Scarlett 2i2 USB Audio Interface".to_string()],
        ..device("USB Audio")
    };
    let extended: Vec<&str> = description.extended.iter().map(|s| s.as_str()).collect();

    let label = format_audio_device_label(
        &description.name,
        description.manufacturer.as_deref(),
        description.address.as_deref(),
        description.interface_type.as_deref(),
        description.driver.as_deref(),
        &extended,
        true,
    );

    assert_eq!(label, "Scarlett 2i2 USB Audio Interface (Focusrite Audio)");
}

#[test]
fn audio_device_labels_add_number_suffix_for_identical_final_labels() {
    let devices = vec![device("USB Audio"), device("USB Audio")];

    let labels = audio_device_labels(&devices);

    assert_eq!(labels, vec!["USB Audio (1)", "USB Audio (2)"]);
}

#[test]
fn is_capture_input_device_accepts_real_input_device() {
    let description = input_device("Built-in Microphone");

    assert!(is_capture_input_device(&description, true));
}

#[test]
fn is_capture_input_device_accepts_duplex_device() {
    let description = input_device("USB Audio Codec");

    assert!(is_capture_input_device(&description, true));
}

#[test]
fn is_capture_input_device_rejects_monitor_sources() {
    let description = DeviceDescription {
        extended: vec!["Monitor of sink output".to_string()],
        ..input_device("Monitor of Built-in Audio")
    };

    assert!(!is_capture_input_device(&description, true));
}

#[test]
fn is_capture_input_device_rejects_alsa_virtual_pseudo_devices() {
    for pseudo_driver in &[
        "default",
        "pulse",
        "sysdefault:CARD=PCH",
        "dsnoop:CARD=PCH,DEV=0",
        "iec958:CARD=PCH",
    ] {
        let description = DeviceDescription {
            driver: Some(pseudo_driver.to_string()),
            ..input_device("Some Device")
        };
        assert!(
            !is_capture_input_device(&description, true),
            "should reject ALSA pseudo-device with driver={pseudo_driver}"
        );
    }
}

#[test]
fn is_capture_input_device_accepts_pipewire_mic_device() {
    let description = DeviceDescription {
        driver: Some("pipewire".to_string()),
        ..input_device("Built-in Microphone")
    };

    assert!(is_capture_input_device(&description, true), "should accept real mic exposed via PipeWire");
}

#[test]
fn is_capture_input_device_accepts_hw_addressed_devices() {
    for driver in &["hw:0,0", "hw:1,0", "plughw:0,0"] {
        let description = DeviceDescription {
            driver: Some(driver.to_string()),
            ..input_device("Built-in Mic")
        };
        assert!(is_capture_input_device(&description, true), "should accept real device with driver={driver}");
    }
}

#[test]
fn output_only_device_is_not_a_capture_input() {
    assert!(!is_capture_input_device(&device("Speakers"), true));
}

#[test]
fn labels_collapse_white_space() {
    assert_eq!(normalize_label("  USB \t Audio\n Device  "), "USB Audio Device");
    assert_eq!(normalize_label(""), "");
    assert_eq!(normalize_label(" \t "), "");
    assert_eq!(sanitize_metadata_line("   "), None);
    assert_eq!(sanitize_metadata_line(" a  b "), Some("a b".to_string()));
}

#[test]
fn addresses_are_made_readable() {
    assert_eq!(pretty_address("hw:2,0"), Some("Card 2, Device 0".to_string()));
    assert_eq!(pretty_address("hw:2,0,1"), Some("hw:2,0,1".to_string()));
    assert_eq!(pretty_address("   "), None);
    assert_eq!(pretty_address("a-very-long-device-address-string"), None);
    assert_eq!(pretty_address("exactly-twenty-four-byte"), Some("exactly-twenty-four-byte".to_string()));
}

#[test]
fn generic_names_are_recognised() {
    assert!(is_generic_device_name("Default"));
    assert!(is_generic_device_name("USB Audio"));
    assert!(is_generic_device_name("Monitor of Built-in Audio"));
    assert!(!is_generic_device_name("Scarlett 2i2"));
}

#[test]
fn single_device_label_has_no_detail() {
    let description = DeviceDescription { driver: Some("ALSA".to_string()), ..device("USB Audio") };
    assert_eq!(audio_device_label(&description), "USB Audio");
}

#[test]
fn shared_names_get_details_before_numbers() {
    let devices = vec![
        DeviceDescription { driver: Some("ALSA".to_string()), ..device("Mic") },
        DeviceDescription { address: Some("hw:1,0".to_string()), ..device("Mic") },
        device("Line"),
    ];
    assert_eq!(audio_device_labels(&devices), vec!["Mic (ALSA)", "Mic (Card 1, Device 0)", "Line"]);
}

#[test]
fn manufacturer_naming_audio_is_kept_as_is() {
    let label = format_audio_device_label("Audio", Some("Acme  Audio"), None, None, None, &[], false);
    assert_eq!(label, "Acme Audio");
}

#[test]
fn driver_rules_apply_on_linux_only() {
    let description = DeviceDescription {
        driver: Some("pulse".to_string()),
        ..input_device("Some Device")
    };
    assert!(!is_capture_input_device(&description, true));
    assert!(is_capture_input_device(&description, false));
    let monitor = input_device("Monitor of Built-in Audio");
    assert!(!is_capture_input_device(&monitor, false));
    assert!(!is_capture_input_device(&device("Speakers"), false));
}
