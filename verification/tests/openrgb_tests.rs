use rgbpc::apply::{finalize_attempts, rainbow_command, rainbow_result, record_attempt_result};
use rgbpc::openrgb::{device_profile_key, strategy_attempts_for_device, OpenRgbDevice, StrategyKind};

#[test]
fn device_profile_key_is_stable_for_case_and_whitespace() {
    let device = OpenRgbDevice {
        id: 1,
        name: "  My GPU  ".to_string(),
        device_type: " Graphics Card ".to_string(),
    };

    assert_eq!(device_profile_key(&device), "my gpu::graphics card");
}

#[test]
fn mouse_devices_prefer_static_mode_first() {
    let device = OpenRgbDevice {
        id: 1,
        name: "G502 Lightspeed".to_string(),
        device_type: "Mouse".to_string(),
    };

    let attempts = strategy_attempts_for_device(&device);
    assert_eq!(attempts[0].kind, StrategyKind::StaticThenColor);
}

#[test]
fn motherboard_devices_prefer_full_fallback_first() {
    let device = OpenRgbDevice {
        id: 1,
        name: "MSI MAG B650".to_string(),
        device_type: "Motherboard".to_string(),
    };

    let attempts = strategy_attempts_for_device(&device);
    assert_eq!(attempts[0].kind, StrategyKind::FullFallback);
}

#[test]
fn finalize_attempts_returns_success_if_any_attempt_succeeded() {
    let mut any_succeeded = false;
    let mut last_error = None;

    record_attempt_result(Err("boom".to_string()), &mut any_succeeded, &mut last_error);
    record_attempt_result(Ok(true), &mut any_succeeded, &mut last_error);

    assert_eq!(finalize_attempts(any_succeeded, last_error), Ok(true));
}

#[test]
fn other_devices_try_colour_alone_first_and_keep_the_first_error() {
    let device = OpenRgbDevice { id: 3, name: "Keyboard".to_string(), device_type: "Keyboard".to_string() };
    let attempts = strategy_attempts_for_device(&device);
    let kinds: Vec<StrategyKind> = attempts.iter().map(|a| a.kind).collect();
    assert_eq!(
        kinds,
        vec![
            StrategyKind::ColorOnly,
            StrategyKind::DirectThenColor,
            StrategyKind::StaticThenColor,
            StrategyKind::FullFallback
        ]
    );
    let mut any = false;
    let mut last = None;
    record_attempt_result(Err("first".to_string()), &mut any, &mut last);
    record_attempt_result(Err("second".to_string()), &mut any, &mut last);
    record_attempt_result(Ok(false), &mut any, &mut last);
    assert_eq!(finalize_attempts(any, last), Err("first".to_string()));
    assert_eq!(finalize_attempts(false, None), Ok(false));
}

#[test]
fn key_ignores_tabs_newlines_and_ascii_case() {
    let plain = OpenRgbDevice { id: 1, name: "Corsair K70".to_string(), device_type: "Keyboard".to_string() };
    let noisy = OpenRgbDevice {
        id: 9,
        name: "\t CORSAIR k70\n".to_string(),
        device_type: "\u{a0}KEYBOARD ".to_string(),
    };
    assert_eq!(device_profile_key(&plain), device_profile_key(&noisy));
    assert_eq!(device_profile_key(&plain), "corsair k70::keyboard");
}

#[test]
fn rainbow_runs_the_rainbow_mode_and_names_a_failing_device() {
    let device = OpenRgbDevice { id: 12, name: "Fan Hub".to_string(), device_type: "Cooler".to_string() };
    assert_eq!(rainbow_command(&device), vec!["-d", "12", "-m", "rainbow"]);
    assert_eq!(rainbow_result(&device, Ok(true)), Ok(()));
    assert_eq!(
        rainbow_result(&device, Ok(false)),
        Err("Fan Hub: openrgb could not set rainbow mode".to_string())
    );
    assert_eq!(rainbow_result(&device, Err("no openrgb".to_string())), Err("no openrgb".to_string()));
}
