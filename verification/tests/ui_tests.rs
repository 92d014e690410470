use rgbpc::config::{AppConfig, SavedState};
use rgbpc::openrgb::{device_profile_key, OpenRgbDevice};
use rgbpc::summary::DeviceActionSummary;
use rgbpc::picker::{
    centring_extents, get_palette_rects, hex_splits_cleanly, hex_to_rgb, middle_part, palette_color,
    picker_click_areas, picker_extents, picker_parts, popup_area, Extent, Rect,
};
use rgbpc::ui::{
    device_line, filter_device_keys, format_sync_scope, sync_scope_line, App, AppEvent, AppMode, Effect, Key,
};

fn device(id: u32, name: &str, device_type: &str) -> OpenRgbDevice {
    OpenRgbDevice { id, name: name.to_string(), device_type: device_type.to_string() }
}

fn three_devices() -> Vec<OpenRgbDevice> {
    vec![device(0, "Mouse", "Mouse"), device(1, "Keyboard", "Keyboard"), device(2, "GPU", "GPU")]
}

fn app_with(devices: Vec<OpenRgbDevice>, omarchy: bool) -> App {
    App::new(AppConfig::default(), devices, omarchy, Ok("112233".to_string()))
}

fn summary(ok: &[&str], failed: &[&str]) -> DeviceActionSummary {
    DeviceActionSummary {
        succeeded_keys: ok.iter().map(|s| s.to_string()).collect(),
        failed_devices: failed.iter().map(|s| s.to_string()).collect(),
    }
}

#[test]
fn startup_restore_toggle_defaults_off() {
    let config = AppConfig::default();
    assert!(!config.restore_on_startup);
}

#[test]
fn filter_device_keys_keeps_only_successful_keys() {
    let requested = vec!["a".to_string(), "b".to_string(), "c".to_string()];
    let succeeded = vec!["b".to_string(), "c".to_string()];

    assert_eq!(filter_device_keys(&requested, &succeeded), vec!["b", "c"]);
}

#[test]
fn sync_scope_counts_devices_in_words() {
    assert_eq!(format_sync_scope(0), "0 devices");
    assert_eq!(format_sync_scope(1), "1 device");
    assert_eq!(format_sync_scope(12), "12 devices");
}

#[test]
fn new_screen_greets_by_environment_and_falls_back_to_the_default_theme_colour() {
    let app = App::new(AppConfig::default(), three_devices(), true, Err("no theme".to_string()));
    assert_eq!(app.theme_color(), "7aa2f7");
    assert!(app.status_message().contains("'s' toggle Sync"));
    assert_eq!(app.selected_index(), 0);
    assert_eq!(app.mode(), AppMode::Normal);
    let plain = app_with(three_devices(), false);
    assert_eq!(plain.theme_color(), "112233");
    assert!(!plain.status_message().contains("toggle Sync"));
}

#[test]
fn selection_wraps_both_ways() {
    let mut app = app_with(three_devices(), false);
    app.previous();
    assert_eq!(app.selected_index(), 2);
    app.next();
    assert_eq!(app.selected_index(), 0);
    app.handle_key(Key::Char('j'));
    app.handle_key(Key::Down);
    assert_eq!(app.selected_index(), 2);
    app.handle_key(Key::Char('k'));
    assert_eq!(app.selected_index(), 1);
    let mut empty = app_with(Vec::new(), false);
    empty.next();
    empty.previous();
    assert_eq!(empty.selected_index(), 0);
}

#[test]
fn toggling_a_device_switches_it_off_then_on_and_asks_to_save() {
    let mut app = app_with(three_devices(), false);
    app.next();
    assert!(matches!(app.handle_key(Key::Char(' ')), Effect::SaveConfig));
    assert_eq!(app.status_message(), "Disabled Keyboard");
    assert!(app.config().disabled_devices.contains("keyboard::keyboard"));
    assert_eq!(app.enabled_device_keys(), vec!["mouse::mouse", "gpu::gpu"]);
    assert!(matches!(app.toggle_current(), Effect::SaveConfig));
    assert_eq!(app.status_message(), "Enabled Keyboard");
    assert!(app.config().disabled_devices.is_empty());
    let mut empty = app_with(Vec::new(), false);
    assert!(matches!(empty.toggle_current(), Effect::Nothing));
}

#[test]
fn sync_key_only_works_with_omarchy_and_scopes_sync_to_enabled_devices() {
    let mut plain = app_with(three_devices(), false);
    assert!(matches!(plain.handle_key(Key::Char('s')), Effect::Nothing));

    let mut app = app_with(three_devices(), true);
    app.next();
    app.toggle_current();
    assert!(matches!(app.handle_key(Key::Char('s')), Effect::InstallSyncHook));
    assert!(matches!(app.toggle_sync(Ok(())), Effect::SaveConfig));
    assert!(app.sync_enabled());
    assert_eq!(app.status_message(), "Omarchy Sync Hook Installed for 2 devices!");
    assert!(app.config().omarchy_sync_devices.contains("gpu::gpu"));
    assert!(!app.config().omarchy_sync_devices.contains("keyboard::keyboard"));

    assert!(matches!(app.handle_key(Key::Char('s')), Effect::RemoveSyncHook));
    assert!(matches!(app.toggle_sync(Err("denied".to_string())), Effect::Nothing));
    assert_eq!(app.status_message(), "Error removing hook: denied");
    assert!(app.sync_enabled());
    assert!(matches!(app.toggle_sync(Ok(())), Effect::SaveConfig));
    assert_eq!(app.status_message(), "Omarchy Sync Hook Removed!");
    assert!(!app.sync_enabled());
    assert!(app.config().omarchy_sync_devices.is_empty());
}

#[test]
fn startup_restore_is_switched_once_the_autostart_work_reports() {
    let mut app = app_with(three_devices(), false);
    assert!(matches!(app.handle_key(Key::Char('a')), Effect::InstallAutostart));
    assert!(matches!(app.toggle_restore_on_startup(Err("read-only".to_string())), Effect::Nothing));
    assert_eq!(app.status_message(), "Error installing autostart: read-only");
    assert!(!app.restore_on_startup());
    assert!(matches!(app.toggle_restore_on_startup(Ok(())), Effect::SaveConfig));
    assert_eq!(app.status_message(), "Startup restore enabled via XDG autostart.");
    assert!(app.restore_on_startup());
    assert!(matches!(app.handle_key(Key::Char('a')), Effect::RemoveAutostart));
    app.toggle_restore_on_startup(Ok(()));
    assert_eq!(app.status_message(), "Startup restore disabled.");
}

#[test]
fn colour_picker_needs_an_enabled_device() {
    let mut empty = app_with(Vec::new(), false);
    empty.handle_key(Key::Char('c'));
    assert_eq!(empty.status_message(), "No devices to apply color to.");
    assert_eq!(empty.mode(), AppMode::Normal);

    let mut app = app_with(vec![device(0, "Mouse", "Mouse")], false);
    app.toggle_current();
    app.open_color_picker();
    assert_eq!(
        app.status_message(),
        "All devices are disabled. Enable at least one device before manual color."
    );
    assert_eq!(app.mode(), AppMode::Normal);
    assert!(matches!(app.force_off(), Effect::Nothing));
    assert_eq!(app.status_message(), "All devices are disabled. Enable at least one device first.");
}

#[test]
fn palette_moves_stay_on_the_grid_and_enter_applies_the_colour() {
    let mut app = app_with(three_devices(), false);
    app.handle_key(Key::Char('c'));
    assert_eq!(app.mode(), AppMode::ColorPicker);
    app.handle_key(Key::Left);
    app.handle_key(Key::Up);
    assert_eq!(app.selected_color_index(), 0);
    for _ in 0..7 {
        app.handle_key(Key::Char('l'));
    }
    assert_eq!(app.selected_color_index(), 5);
    for _ in 0..5 {
        app.handle_key(Key::Char('j'));
    }
    assert_eq!(app.selected_color_index(), 23);
    app.handle_key(Key::Char('k'));
    app.handle_key(Key::Char('h'));
    assert_eq!(app.selected_color_index(), 16);
    assert_eq!(palette_color(16), "F08080");
    match app.handle_key(Key::Enter) {
        Effect::ApplyColor { devices, color } => {
            assert_eq!(devices.len(), 3);
            assert_eq!(color, "F08080");
        }
        _ => panic!("expected a colour to apply"),
    }
    assert_eq!(app.mode(), AppMode::Normal);
    assert_eq!(app.status_message(), "Applying color #F08080 to all enabled devices...");
}

#[test]
fn typed_colour_takes_six_hex_digits_only() {
    let mut app = app_with(three_devices(), false);
    app.handle_key(Key::Char('c'));
    app.handle_key(Key::Char('i'));
    assert!(app.input_active());
    for c in ['a', 'g', 'B', '1', '#', '2', '3', '4', '5'] {
        app.handle_key(Key::Char(c));
    }
    assert_eq!(app.custom_hex_input(), "aB1234");
    app.handle_key(Key::Backspace);
    assert_eq!(app.custom_hex_input(), "aB123");
    assert!(matches!(app.handle_key(Key::Enter), Effect::Nothing));
    assert_eq!(app.status_message(), "HEX code must be 6 characters!");
    app.handle_key(Key::Char('f'));
    match app.handle_key(Key::Enter) {
        Effect::ApplyColor { color, .. } => assert_eq!(color, "aB123f"),
        _ => panic!("expected a colour to apply"),
    }
    assert_eq!(app.status_message(), "Applying custom color #aB123f to all enabled devices...");
}

#[test]
fn escape_leaves_typing_then_the_picker() {
    let mut app = app_with(three_devices(), false);
    app.handle_key(Key::Char('c'));
    app.handle_key(Key::Char('i'));
    app.handle_key(Key::Esc);
    assert!(!app.input_active());
    assert_eq!(app.mode(), AppMode::ColorPicker);
    app.handle_key(Key::Char('q'));
    assert_eq!(app.mode(), AppMode::Normal);
    assert_eq!(app.status_message(), "Color picker cancelled.");
    assert!(matches!(app.handle_key(Key::Char('q')), Effect::Quit));
}

#[test]
fn finished_colour_records_the_state_for_devices_that_took_it() {
    let mut app = app_with(three_devices(), true);
    app.toggle_sync(Ok(()));
    app.handle_key(Key::Char('c'));
    app.handle_key(Key::Enter);
    let effect = app.handle_event(AppEvent::ColorSetComplete(summary(
        &["mouse::mouse", "gpu::gpu"],
        &["Keyboard: boom"],
    )));
    assert!(matches!(effect, Effect::SaveConfig));
    assert_eq!(
        app.status_message(),
        "Color applied to 2 device(s); some failed: Keyboard: boom"
    );
    let config = app.config();
    assert_eq!(
        config.get_saved_state_for_device("mouse::mouse"),
        Some(&SavedState::Color { hex: "FF0000".to_string() })
    );
    assert_eq!(config.get_saved_state_for_device("keyboard::keyboard"), None);
    assert!(!config.omarchy_sync_devices.contains("mouse::mouse"));
    assert!(config.omarchy_sync_devices.contains("keyboard::keyboard"));
    let again = app.handle_event(AppEvent::ColorSetComplete(summary(&["mouse::mouse"], &[])));
    assert!(matches!(again, Effect::Nothing));
    assert_eq!(app.status_message(), "Color applied successfully!");
}

#[test]
fn failed_actions_drop_the_pending_state_and_say_why() {
    let mut app = app_with(three_devices(), false);
    assert!(matches!(app.handle_key(Key::Char('o')), Effect::TurnOff { .. }));
    assert_eq!(app.status_message(), "Turning off lights...");
    app.handle_event(AppEvent::OffComplete(summary(&[], &["Mouse: x", "GPU: y"])));
    assert_eq!(app.status_message(), "Failed to turn off lights: Mouse: x | GPU: y");
    assert!(matches!(
        app.handle_event(AppEvent::OffComplete(summary(&["gpu::gpu"], &[]))),
        Effect::Nothing
    ));
    assert_eq!(app.config().get_saved_state_for_device("gpu::gpu"), None);

    assert!(matches!(app.handle_key(Key::Char('r')), Effect::Rainbow { .. }));
    assert!(matches!(
        app.handle_event(AppEvent::RainbowComplete(summary(&["gpu::gpu"], &[]))),
        Effect::SaveConfig
    ));
    assert_eq!(app.status_message(), "Rainbow mode command sent!");
    assert_eq!(
        app.config().get_saved_state_for_device("gpu::gpu"),
        Some(&SavedState::Rainbow)
    );
}

#[test]
fn sync_runs_once_at_a_time_and_rereads_the_theme() {
    let mut app = app_with(three_devices(), true);
    assert!(matches!(app.handle_key(Key::Char('t')), Effect::Sync));
    assert!(app.is_syncing());
    assert!(matches!(app.force_sync(), Effect::Nothing));
    assert!(matches!(app.handle_event(AppEvent::SyncComplete(Ok(()))), Effect::ReloadTheme));
    assert_eq!(app.status_message(), "Sync complete!");
    assert!(!app.is_syncing());
    app.theme_loaded(Ok("abcdef".to_string()));
    assert_eq!(app.theme_color(), "abcdef");
    app.theme_loaded(Err("gone".to_string()));
    assert_eq!(app.theme_color(), "abcdef");
    app.force_sync();
    app.handle_event(AppEvent::SyncComplete(Err("no theme".to_string())));
    assert_eq!(app.status_message(), "Sync failed: no theme");
}

#[test]
fn rescan_keeps_the_selected_device_by_key() {
    let mut app = app_with(three_devices(), false);
    app.next();
    assert!(matches!(app.handle_key(Key::Char('R')), Effect::Rescan));
    assert_eq!(app.status_message(), "Rescanning OpenRGB devices...");
    let fresh = vec![device(5, "GPU", "GPU"), device(6, "Keyboard", "Keyboard")];
    app.handle_event(AppEvent::DevicesReloaded(Ok(fresh)));
    assert_eq!(app.selected_index(), 1);
    assert_eq!(app.status_message(), "Device rescan complete: 2 device(s) found.");
    app.finish_reload_devices(vec![device(9, "Strip", "LED Strip")]);
    assert_eq!(app.selected_index(), 0);
    app.finish_reload_devices(Vec::new());
    assert_eq!(
        app.status_message(),
        "Device rescan complete, but no OpenRGB devices were found."
    );
    app.handle_event(AppEvent::DevicesReloaded(Err("openrgb missing".to_string())));
    assert_eq!(app.status_message(), "Device rescan failed: openrgb missing");
}

#[test]
fn enabled_devices_follow_the_switched_off_list() {
    let mut config = AppConfig::default();
    config.set_device_disabled("keyboard::keyboard", "Keyboard", true);
    let app = App::new(config, three_devices(), false, Ok("ffffff".to_string()));
    let enabled: Vec<String> = app.enabled_devices().iter().map(device_profile_key).collect();
    assert_eq!(enabled, vec!["mouse::mouse", "gpu::gpu"]);
    assert!(app.has_enabled_devices());
    assert!(!app.is_device_enabled(&device(1, "Keyboard", "Keyboard")));
}

#[test]
fn palette_cells_split_the_area_in_six_columns_and_four_rows() {
    let rects = get_palette_rects(Rect { x: 10, y: 5, width: 42, height: 12 });
    assert_eq!(rects.len(), 24);
    assert_eq!(rects[0], Rect { x: 10, y: 5, width: 7, height: 3 });
    assert_eq!(rects[7], Rect { x: 17, y: 8, width: 7, height: 3 });
    assert_eq!(rects[23], Rect { x: 45, y: 14, width: 7, height: 3 });
}

#[test]
fn popup_is_centred_in_the_terminal() {
    let popup = popup_area(Rect { x: 0, y: 0, width: 100, height: 50 }, 44, 22);
    assert_eq!(popup, Rect { x: 28, y: 14, width: 44, height: 22 });
}

#[test]
fn clicking_a_palette_cell_applies_its_colour() {
    let mut app = app_with(three_devices(), false);
    let (palette, input) = picker_click_areas(Rect { x: 0, y: 0, width: 100, height: 50 });
    assert_eq!(palette, Rect { x: 29, y: 17, width: 42, height: 12 });
    assert_eq!((input.x, input.width), (palette.x, palette.width));
    assert!(palette.y + palette.height <= input.y);
    assert!(matches!(app.handle_mouse_click(30, 17, palette, input), Effect::Nothing));
    app.handle_key(Key::Char('c'));
    match app.handle_mouse_click(29, 17, palette, input) {
        Effect::ApplyColor { color, .. } => assert_eq!(color, "FF0000"),
        _ => panic!("expected the first palette colour"),
    }
    app.handle_key(Key::Char('c'));
    assert!(matches!(app.handle_mouse_click(0, 0, palette, input), Effect::Nothing));
    assert_eq!(app.mode(), AppMode::ColorPicker);
}

#[test]
fn clicking_the_typed_colour_box_starts_typing() {
    let mut app = app_with(three_devices(), false);
    let palette = Rect { x: 10, y: 10, width: 42, height: 12 };
    let input = Rect { x: 10, y: 22, width: 42, height: 3 };
    app.handle_key(Key::Char('c'));
    app.handle_key(Key::Char('i'));
    app.handle_key(Key::Char('a'));
    app.handle_key(Key::Esc);
    assert!(matches!(app.handle_mouse_click(15, 23, palette, input), Effect::Nothing));
    assert!(app.input_active());
    assert_eq!(app.custom_hex_input(), "");
    match app.handle_mouse_click(51, 21, palette, input) {
        Effect::ApplyColor { color, .. } => assert_eq!(color, "8B0000"),
        _ => panic!("expected the last palette colour"),
    }
}

#[test]
fn theme_colours_read_as_rgb() {
    assert_eq!(hex_to_rgb("#7aa2f7"), Some((0x7a, 0xa2, 0xf7)));
    assert_eq!(hex_to_rgb("FFzz00"), Some((255, 255, 0)));
    assert_eq!(hex_to_rgb("+a0000"), Some((10, 0, 0)));
    assert_eq!(hex_to_rgb("12345"), None);
    assert_eq!(hex_to_rgb("blue"), None);
    assert_eq!(hex_to_rgb("é1234"), Some((255, 0x12, 0x34)));
    assert_eq!(hex_to_rgb("#12é34"), Some((0x12, 255, 0x34)));
    assert_eq!(hex_to_rgb("#12é3"), None);
    assert!(hex_splits_cleanly("é1234"));
    assert!(!hex_splits_cleanly("aé123"));
    assert!(hex_splits_cleanly("aé12"));
}

#[test]
fn list_and_settings_lines_read_as_shown() {
    assert_eq!(device_line(true, &device(0, "Mouse", "Mouse")), " [X] Mouse (Mouse)");
    assert_eq!(device_line(false, &device(1, "GPU", "Graphics")), " [ ] GPU (Graphics)");
    assert_eq!(
        sync_scope_line(1),
        "Sync scope locked to 1 device. Manual color/off/rainbow removes only affected devices, and removed devices stay out until you re-enable sync."
    );
}

#[test]
fn picker_pieces_come_from_fixed_rows_and_the_middle_part() {
    let extents = picker_extents();
    assert_eq!(extents, vec![Extent::Length(2), Extent::Length(12), Extent::Length(3)]);
    assert_eq!(centring_extents(50, 22), vec![Extent::Length(14), Extent::Length(22), Extent::Min(0)]);
    assert_eq!(centring_extents(10, 22), vec![Extent::Length(0), Extent::Length(22), Extent::Min(0)]);
    let a = Rect { x: 1, y: 2, width: 3, height: 4 };
    let b = Rect { x: 5, y: 6, width: 7, height: 8 };
    let c = Rect { x: 9, y: 10, width: 11, height: 12 };
    assert_eq!(middle_part(&vec![a, b, c]), b);
    assert_eq!(picker_parts(&vec![a, b, c]), (b, c));
}
