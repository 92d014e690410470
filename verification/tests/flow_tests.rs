use rgbpc::apply::{apply_color, Progress};
use rgbpc::config::{AppConfig, SavedState};
use rgbpc::devices::{apply_color_to_devices_summary, set_rainbow_for_devices_summary};
use rgbpc::flow::{Cursor, Replies, Request, Step};
use rgbpc::openrgb::{ApplyResult, OpenRgbDevice};
use rgbpc::restore::{perform_restore, restore_plan, restore_theme_to_devices, validate_restore_config};
use rgbpc::summary::DeviceActionSummary;
use rgbpc::sync::{perform_sync, sync_target_contains};

fn device(id: u32, name: &str, device_type: &str) -> OpenRgbDevice {
    OpenRgbDevice { id, name: name.to_string(), device_type: device_type.to_string() }
}

fn args(v: &[&str]) -> Vec<String> {
    v.iter().map(|s| s.to_string()).collect()
}

#[test]
fn apply_color_to_devices_succeeds_for_empty_list() {
    match apply_color_to_devices_summary(&[], "ffffff", true, &Replies::new(), Cursor::start()) {
        Step::Done(summary, _) => assert!(summary.failed_devices.is_empty()),
        Step::Ask(_) => panic!("no device needs any work"),
    }
}

#[test]
fn set_rainbow_for_devices_succeeds_for_empty_list() {
    match set_rainbow_for_devices_summary(&[], true, &Replies::new(), Cursor::start()) {
        Step::Done(summary, _) => assert!(summary.failed_devices.is_empty()),
        Step::Ask(_) => panic!("no device needs any work"),
    }
}

#[test]
fn restore_theme_to_devices_succeeds_for_empty_list() {
    match restore_theme_to_devices(&[], &Replies::new(), Cursor::start()) {
        Step::Done(result, _) => assert_eq!(result, Ok(())),
        Step::Ask(_) => panic!("no device needs any work"),
    }
}

#[test]
fn restore_requires_saved_state_when_omarchy_sync_is_off() {
    let config = AppConfig { restore_on_startup: true, ..AppConfig::default() };

    assert!(validate_restore_config(&config).is_err());
}

#[test]
fn restore_allows_missing_saved_state_when_omarchy_sync_is_on() {
    let config = AppConfig { restore_on_startup: true, omarchy_sync_enabled: true, ..AppConfig::default() };

    assert!(validate_restore_config(&config).is_ok());
}

#[test]
fn omarchy_sync_does_not_fall_back_to_live_checkbox_state() {
    let mut config = AppConfig { omarchy_sync_enabled: true, ..AppConfig::default() };
    config.disabled_devices.clear();

    let device = OpenRgbDevice { id: 1, name: "Keyboard".to_string(), device_type: "Keyboard".to_string() };

    assert!(!sync_target_contains(&config, &device));
}

#[test]
fn mixed_restore_scope_routes_synced_and_manual_devices_differently() {
    let mut config = AppConfig { omarchy_sync_enabled: true, ..AppConfig::default() };
    config.set_omarchy_sync_devices(&["mouse::mouse".to_string()]);
    config.saved_device_states.insert(
        "motherboard::motherboard".to_string(),
        SavedState::Color { hex: "ff0000".to_string() },
    );

    let mouse = OpenRgbDevice { id: 1, name: "Mouse".to_string(), device_type: "Mouse".to_string() };
    let motherboard = OpenRgbDevice { id: 2, name: "Motherboard".to_string(), device_type: "Motherboard".to_string() };

    assert!(sync_target_contains(&config, &mouse));
    assert!(!sync_target_contains(&config, &motherboard));
    assert!(config.get_saved_state_for_device("motherboard::motherboard").is_some());
}

#[test]
fn mouse_gets_static_mode_first_and_stops_at_success() {
    let mouse = device(7, "G502", "Mouse");
    let mut outcomes = Vec::new();
    match apply_color(&mouse, "#00ff00", &outcomes) {
        Progress::Run(a) => assert_eq!(a, args(&["-d", "7", "-m", "Static", "-c", "00ff00"])),
        Progress::Done(..) => panic!("a command runs first"),
    }
    outcomes.push(Ok(true));
    match apply_color(&mouse, "#00ff00", &outcomes) {
        Progress::Done(r, used) => {
            assert_eq!(r, Ok(ApplyResult { needs_retry: false }));
            assert_eq!(used, 1);
        }
        Progress::Run(_) => panic!("the first strategy succeeded"),
    }
}

#[test]
fn direct_mode_failure_to_run_skips_the_colour_command() {
    let keyboard = device(12, "Keyboard", "Keyboard");
    let outcomes = vec![Ok(false), Err("Failed to execute openrgb: gone".to_string())];
    match apply_color(&keyboard, "abcdef", &outcomes) {
        Progress::Run(a) => assert_eq!(a, args(&["-d", "12", "-m", "Static", "-c", "abcdef"])),
        Progress::Done(..) => panic!("static mode comes next"),
    }
}

#[test]
fn full_fallback_runs_eleven_commands_and_counts_zones_together() {
    let board = device(0, "MSI MAG B650", "Motherboard");
    let mut outcomes: Vec<Result<bool, String>> = Vec::new();
    let mut commands = Vec::new();
    loop {
        match apply_color(&board, "ff0000", &outcomes) {
            Progress::Run(a) => {
                commands.push(a);
                let n = outcomes.len();
                outcomes.push(if n == 5 { Ok(true) } else { Ok(false) });
            }
            Progress::Done(r, used) => {
                assert_eq!(r, Ok(ApplyResult { needs_retry: true }));
                assert_eq!(used, 11);
                break;
            }
        }
    }
    assert_eq!(commands.len(), 11);
    assert_eq!(commands[1], args(&["-d", "0", "-m", "Direct"]));
    assert_eq!(commands[5], args(&["-d", "0", "-z", "2", "-c", "ff0000"]));
    assert_eq!(
        commands[10],
        args(&["-d", "0", "-m", "Static", "-c", "ff0000", "--save-profile", "omarchy.orp"])
    );
}

#[test]
fn no_strategy_working_reports_the_first_error() {
    let keyboard = device(1, "Keyboard", "Keyboard");
    let mut outcomes: Vec<Result<bool, String>> = Vec::new();
    let result = loop {
        match apply_color(&keyboard, "ff0000", &outcomes) {
            Progress::Run(_) => {
                let n = outcomes.len();
                outcomes.push(if n == 1 { Err("e1".to_string()) } else { Ok(false) });
            }
            Progress::Done(r, _) => break r,
        }
    };
    assert_eq!(result, Err("e1".to_string()));
}

fn drive(
    mut step: impl FnMut(&Replies) -> Step<DeviceActionSummary>,
    replies: &mut Replies,
    command: Result<bool, String>,
    listing: Vec<OpenRgbDevice>,
) -> DeviceActionSummary {
    loop {
        match step(replies) {
            Step::Done(s, _) => return s,
            Step::Ask(Request::Run(_)) => replies.ran.push(command.clone()),
            Step::Ask(Request::List { .. }) => replies.listed.push(Ok(listing.clone())),
            Step::Ask(Request::Rainbow(_)) => replies.rainbow.push(Ok(())),
            Step::Ask(Request::LoadTheme) => replies.themes.push(Ok("ffffff".to_string())),
        }
    }
}

#[test]
fn failing_devices_get_a_second_pass_and_are_reported_by_name() {
    let devices = vec![device(1, "Keyboard", "Keyboard")];
    let mut replies = Replies::new();
    let summary = drive(
        |r| apply_color_to_devices_summary(&devices, "ff0000", true, r, Cursor::start()),
        &mut replies,
        Err("x".to_string()),
        vec![device(4, "Keyboard", "Keyboard")],
    );
    assert!(summary.succeeded_keys.is_empty());
    assert_eq!(summary.failed_devices, vec!["Keyboard: x".to_string()]);
    assert_eq!(replies.listed.len(), 2);
    assert_eq!(summary.into_result(), Err("Keyboard: x".to_string()));
}

#[test]
fn commands_that_run_but_fail_still_count_as_applied() {
    let devices = vec![device(1, "Keyboard", "Keyboard")];
    let mut replies = Replies::new();
    let summary = drive(
        |r| apply_color_to_devices_summary(&devices, "ff0000", true, r, Cursor::start()),
        &mut replies,
        Ok(false),
        vec![],
    );
    assert_eq!(summary.succeeded_keys, vec!["keyboard::keyboard".to_string()]);
    assert!(replies.listed.is_empty());
}

#[test]
fn succeeded_keys_come_from_the_summary() {
    let devices = vec![device(1, "Keyboard", "Keyboard"), device(2, "Mouse", "Mouse")];
    let mut replies = Replies::new();
    let summary = drive(
        |r| apply_color_to_devices_summary(&devices, "ff0000", false, r, Cursor::start()),
        &mut replies,
        Ok(true),
        vec![],
    );
    assert_eq!(summary.succeeded_keys, vec!["keyboard::keyboard".to_string(), "mouse::mouse".to_string()]);
    assert!(summary.failed_devices.is_empty());
    assert!(replies.listed.is_empty());
    assert!(summary.into_result().is_ok());
}

#[test]
fn restore_plan_groups_devices_by_remembered_state() {
    let mut config = AppConfig::default();
    config.saved_device_states.insert("a::a".to_string(), SavedState::Color { hex: "111111".to_string() });
    config.saved_device_states.insert("b::b".to_string(), SavedState::Off);
    config.saved_device_states.insert("c::c".to_string(), SavedState::Color { hex: "111111".to_string() });
    config.last_state = Some(SavedState::Rainbow);
    config.disabled_devices.insert("E".to_string());
    let devices = vec![
        device(1, "A", "A"),
        device(2, "B", "B"),
        device(3, "C", "C"),
        device(4, "D", "D"),
        device(5, "E", "E"),
    ];
    let plan = restore_plan(&config, &devices);
    assert_eq!(plan.color_groups.len(), 1);
    assert_eq!(plan.color_groups[0].0, "111111");
    assert_eq!(plan.color_groups[0].1.len(), 2);
    assert_eq!(plan.off.len(), 1);
    assert_eq!(plan.rainbow.len(), 1);
    assert_eq!(plan.rainbow[0].name, "D");
}

#[test]
fn startup_restore_off_does_nothing_and_no_devices_is_an_error() {
    let config = AppConfig::default();
    match perform_restore(&config, &Replies::new(), Cursor::start()) {
        Step::Done(r, _) => assert_eq!(r, Ok(())),
        Step::Ask(_) => panic!("restore is off"),
    }
    let mut config = AppConfig { restore_on_startup: true, startup_delay_ms: 250, ..AppConfig::default() };
    config.last_state = Some(SavedState::Off);
    let mut replies = Replies::new();
    match perform_restore(&config, &replies, Cursor::start()) {
        Step::Ask(Request::List { pause_ms }) => assert_eq!(pause_ms, 250),
        _ => panic!("the first listing waits for the configured delay"),
    }
    replies.listed.push(Ok(vec![]));
    match perform_restore(&config, &replies, Cursor::start()) {
        Step::Ask(Request::List { pause_ms }) => assert_eq!(pause_ms, 1000),
        _ => panic!("a second attempt follows a failed one"),
    }
    replies.listed.push(Err("openrgb --list-devices failed".to_string()));
    match perform_restore(&config, &replies, Cursor::start()) {
        Step::Done(r, _) => assert_eq!(r, Err("openrgb --list-devices failed".to_string())),
        Step::Ask(_) => panic!("two attempts at most"),
    }
}

#[test]
fn sync_off_and_not_forced_does_nothing_and_records_what_took_the_colour() {
    let config = AppConfig::default();
    match perform_sync(&config, false, &Replies::new(), Cursor::start()) {
        Step::Done(o, _) => {
            assert_eq!(o.result, Ok(()));
            assert!(o.record.is_none());
        }
        Step::Ask(_) => panic!("sync is off"),
    }
    let mut replies = Replies::new();
    replies.themes.push(Ok("123456".to_string()));
    replies.listed.push(Ok(vec![device(1, "Mouse", "Mouse")]));
    replies.listed.push(Ok(vec![device(9, "Mouse", "Mouse")]));
    replies.ran.push(Ok(true));
    match perform_sync(&config, true, &replies, Cursor::start()) {
        Step::Done(o, _) => {
            assert_eq!(o.result, Ok(()));
            let (keys, state) = o.record.unwrap();
            assert_eq!(keys, vec!["mouse::mouse".to_string()]);
            assert_eq!(state, SavedState::Color { hex: "123456".to_string() });
        }
        Step::Ask(_) => panic!("every reply is there"),
    }
}

#[test]
fn partial_failure_flag_gives_the_same_summary() {
    let devices = vec![device(1, "Keyboard", "Keyboard"), device(2, "Mouse", "Mouse")];
    let mut strict_replies = Replies::new();
    let strict = drive(
        |r| apply_color_to_devices_summary(&devices, "00ff00", true, r, Cursor::start()),
        &mut strict_replies,
        Err("busy".to_string()),
        devices.clone(),
    );
    let mut lenient_replies = Replies::new();
    let lenient = drive(
        |r| apply_color_to_devices_summary(&devices, "00ff00", false, r, Cursor::start()),
        &mut lenient_replies,
        Err("busy".to_string()),
        devices.clone(),
    );
    assert_eq!(strict.succeeded_keys, lenient.succeeded_keys);
    assert_eq!(strict.failed_devices, lenient.failed_devices);
    assert_eq!(strict.failed_devices, vec!["Keyboard: busy".to_string(), "Mouse: busy".to_string()]);
}
