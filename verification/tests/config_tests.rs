use rgbpc::config::{AppConfig, SavedState};

#[test]
fn omarchy_sync_device_scope_can_be_set_and_removed_incrementally() {
    let mut config = AppConfig::default();
    config.set_omarchy_sync_devices(&[
        "gpu::gpu".to_string(),
        "keyboard::keyboard".to_string(),
        "mouse::mouse".to_string(),
    ]);

    config.remove_omarchy_sync_devices(&["keyboard::keyboard".to_string()]);

    assert!(config.omarchy_sync_devices.contains("gpu::gpu"));
    assert!(config.omarchy_sync_devices.contains("mouse::mouse"));
    assert!(!config.omarchy_sync_devices.contains("keyboard::keyboard"));
}

#[test]
fn default_config_has_nothing_remembered() {
    let config = AppConfig::default();
    assert!(!config.omarchy_sync_enabled);
    assert!(config.omarchy_sync_devices.is_empty());
    assert!(!config.restore_on_startup);
    assert_eq!(config.startup_delay_ms, 1500);
    assert!(config.disabled_devices.is_empty());
    assert!(config.saved_device_states.is_empty());
    assert_eq!(config.last_state, None);
}

#[test]
fn disabling_a_device_reads_back_and_enabling_clears_name_and_key() {
    let mut config = AppConfig::default();
    config.disabled_devices.insert("Keyboard".to_string());
    assert!(config.is_device_disabled("keyboard::keyboard", "Keyboard"));
    config.set_device_disabled("keyboard::keyboard", "Keyboard", false);
    assert!(!config.is_device_disabled("keyboard::keyboard", "Keyboard"));
    assert!(config.disabled_devices.is_empty());
    config.set_device_disabled("keyboard::keyboard", "Keyboard", true);
    assert!(config.is_device_disabled("keyboard::keyboard", "Keyboard"));
    assert!(config.disabled_devices.contains("keyboard::keyboard"));
    assert!(!config.disabled_devices.contains("Keyboard"));
    assert_eq!(config.disabled_devices.len(), 1);
}

#[test]
fn saved_state_reads_back_and_clears_the_shared_state() {
    let mut config = AppConfig::default();
    config.last_state = Some(SavedState::Off);
    config.saved_device_states.insert("a::a".to_string(), SavedState::Rainbow);
    config.set_saved_state_for_devices(
        &["b::b".to_string(), "a::a".to_string()],
        SavedState::Color { hex: "ff0000".to_string() },
    );
    assert_eq!(config.last_state, None);
    assert_eq!(
        config.get_saved_state_for_device("a::a"),
        Some(&SavedState::Color { hex: "ff0000".to_string() })
    );
    assert_eq!(
        config.get_saved_state_for_device("b::b"),
        Some(&SavedState::Color { hex: "ff0000".to_string() })
    );
    assert_eq!(config.get_saved_state_for_device("c::c"), None);
    assert_eq!(config.saved_device_states.len(), 2);
}
