//! Settings validation and sanitization. Volumes and interface scale are in
//! thousandths (500 stands for 0.5), tempo in thousandths of a beat per
//! minute.

use beatr::settings::{
    AppSettings, AudioSettings, AudioSettingsError, DefaultSettings, DefaultSettingsError,
    KeyboardSettings, KeyboardSettingsError, UISettings, UISettingsError,
};
use beatr::shortcuts::{Key, Modifiers};

#[test]
fn test_audio_settings_validation() {
    let mut settings = AudioSettings::default();
    assert!(settings.validate().is_ok());

    // Test invalid sample rate
    settings.sample_rate = 10000;
    assert!(settings.validate().is_err());

    // Reset and test invalid buffer size
    settings.sample_rate = 44100;
    settings.buffer_size = 1000;
    assert!(settings.validate().is_err());

    // Reset and test invalid volume (above double full scale)
    settings.buffer_size = 1024;
    settings.master_volume = 2500;
    assert!(settings.validate().is_err());
}

#[test]
fn test_ui_settings_validation() {
    let mut settings = UISettings::default();
    assert!(settings.validate().is_ok());

    // Test valid themes
    settings.theme = "light".to_string();
    assert!(settings.validate().is_ok());

    settings.theme = "auto".to_string();
    assert!(settings.validate().is_ok());

    // Test invalid theme
    settings.theme = "invalid".to_string();
    assert!(settings.validate().is_err());

    // Reset and test invalid scale
    settings.theme = "dark".to_string();
    settings.ui_scale = 5000;
    assert!(settings.validate().is_err());

    settings.ui_scale = 1000;
    assert!(settings.validate().is_ok());
}

#[test]
fn test_theme_resolution() {
    let mut settings = UISettings::default();

    // Test direct theme resolution
    settings.theme = "dark".to_string();
    assert_eq!(settings.resolve_theme(), "dark");

    settings.theme = "light".to_string();
    assert_eq!(settings.resolve_theme(), "light");

    // Test auto theme resolution (should return either "dark" or "light")
    settings.theme = "auto".to_string();
    let resolved = settings.resolve_theme();
    assert!(resolved == "dark" || resolved == "light");

    // Test invalid theme fallback
    settings.theme = "invalid".to_string();
    assert_eq!(settings.resolve_theme(), "dark");
}

#[test]
fn test_system_theme_detection() {
    // Test that system theme detection returns a valid theme
    let detected = UISettings::detect_system_theme();
    assert!(detected == "dark" || detected == "light");
}

#[test]
fn test_platform_specific_defaults() {
    let settings = UISettings::default();

    // The default scale is unity; platform scaling is an interface concern.
    assert_eq!(settings.ui_scale, 1000);

    // Theme should always default to dark
    assert_eq!(settings.theme, "dark");

    // Validation should pass with defaults
    assert!(settings.validate().is_ok());
}

#[test]
fn test_ui_settings_sanitization() {
    let mut settings = UISettings::default();

    // Test invalid theme sanitization
    settings.theme = "invalid".to_string();
    settings.ui_scale = 1000;
    let corrections = settings.sanitize();
    assert_eq!(settings.theme, "dark");
    assert_eq!(corrections.len(), 1);
    assert!(corrections[0].contains("invalid"));

    // Test scale too small sanitization
    settings = UISettings::default();
    settings.ui_scale = 300;
    let corrections = settings.sanitize();
    assert_eq!(settings.ui_scale, 500);
    assert_eq!(corrections.len(), 1);
    assert!(corrections[0].contains("0.3"));

    // Test scale too large sanitization
    settings = UISettings::default();
    settings.ui_scale = 5000;
    let corrections = settings.sanitize();
    assert_eq!(settings.ui_scale, 3000);
    assert_eq!(corrections.len(), 1);
    assert!(corrections[0].contains("5"));

    // Test multiple corrections
    settings = UISettings {
        theme: "purple".to_string(),
        ui_scale: 10000,
    };
    let corrections = settings.sanitize();
    assert_eq!(settings.theme, "dark");
    assert_eq!(settings.ui_scale, 3000);
    assert_eq!(corrections.len(), 2);
}

#[test]
fn test_default_settings_validation() {
    let mut settings = DefaultSettings::default();
    assert!(settings.validate().is_ok());

    // Test invalid BPM
    settings.default_bpm = 500_000;
    assert!(settings.validate().is_err());

    // Reset and test invalid time signature
    settings.default_bpm = 120_000;
    settings.default_time_signature = (20, 4);
    assert!(settings.validate().is_err());

    // Reset and test invalid pattern length
    settings.default_time_signature = (4, 4);
    settings.default_pattern_length = 100;
    assert!(settings.validate().is_err());
}

#[test]
fn test_default_settings_sanitization() {
    let mut settings = DefaultSettings::default();

    // Test BPM too small sanitization
    settings.default_bpm = 30_000;
    let corrections = settings.sanitize();
    assert_eq!(settings.default_bpm, 60_000);
    assert_eq!(corrections.len(), 1);
    assert!(corrections[0].contains("30"));
    assert!(corrections[0].contains("too slow"));

    // Test BPM too large sanitization
    settings = DefaultSettings::default();
    settings.default_bpm = 400_000;
    let corrections = settings.sanitize();
    assert_eq!(settings.default_bpm, 300_000);
    assert_eq!(corrections.len(), 1);
    assert!(corrections[0].contains("400"));
    assert!(corrections[0].contains("too fast"));

    // Test time signature numerator sanitization
    settings = DefaultSettings::default();
    settings.default_time_signature = (0, 4);
    let corrections = settings.sanitize();
    assert_eq!(settings.default_time_signature.0, 1);
    assert_eq!(corrections.len(), 1);
    assert!(corrections[0].contains("numerator 0"));
    assert!(corrections[0].contains("too small"));

    settings = DefaultSettings::default();
    settings.default_time_signature = (20, 4);
    let corrections = settings.sanitize();
    assert_eq!(settings.default_time_signature.0, 16);
    assert_eq!(corrections.len(), 1);
    assert!(corrections[0].contains("numerator 20"));
    assert!(corrections[0].contains("too large"));

    // Test time signature denominator sanitization
    settings = DefaultSettings::default();
    settings.default_time_signature = (4, 3);
    let corrections = settings.sanitize();
    assert_eq!(settings.default_time_signature.1, 4);
    assert_eq!(corrections.len(), 1);
    assert!(corrections[0].contains("denominator 3"));
    assert!(corrections[0].contains("invalid"));

    // Test pattern length sanitization
    settings = DefaultSettings::default();
    settings.default_pattern_length = 2;
    let corrections = settings.sanitize();
    assert_eq!(settings.default_pattern_length, 4);
    assert_eq!(corrections.len(), 1);
    assert!(corrections[0].contains("length 2"));
    assert!(corrections[0].contains("too short"));

    settings = DefaultSettings::default();
    settings.default_pattern_length = 100;
    let corrections = settings.sanitize();
    assert_eq!(settings.default_pattern_length, 64);
    assert_eq!(corrections.len(), 1);
    assert!(corrections[0].contains("length 100"));
    assert!(corrections[0].contains("too long"));

    // Test multiple corrections
    settings = DefaultSettings {
        default_bpm: 500_000,
        default_time_signature: (0, 3),
        default_pattern_length: 100,
    };
    let corrections = settings.sanitize();
    assert_eq!(settings.default_bpm, 300_000);
    assert_eq!(settings.default_time_signature, (1, 4));
    assert_eq!(settings.default_pattern_length, 64);
    assert_eq!(corrections.len(), 4); // BPM, numerator, denominator, pattern length
}

#[test]
fn test_app_settings_creation_and_validation() {
    let default_settings = AppSettings::default();
    assert!(default_settings.validate().is_ok());
}

#[test]
fn test_settings_sanitization() {
    let mut invalid_settings = AppSettings::default();
    invalid_settings.audio.sample_rate = 10000; // Invalid
    invalid_settings.ui.theme = "invalid".to_string(); // Invalid
    invalid_settings.defaults.default_bpm = 500_000; // Invalid

    let sanitized = AppSettings::sanitize_settings(invalid_settings);
    assert!(sanitized.validate().is_ok());
    assert_eq!(
        sanitized.audio.sample_rate,
        AudioSettings::default().sample_rate
    );
    assert_eq!(sanitized.ui.theme, UISettings::default().theme);
    assert_eq!(sanitized.defaults.default_bpm, 300_000); // Should be sanitized to max value, not default
}

#[test]
fn test_keyboard_settings_validation() {
    let settings = KeyboardSettings::default();
    assert!(settings.validate().is_ok());

    // Test with empty shortcut
    let mut invalid_settings = settings.clone();
    invalid_settings.play_pause = "".to_string();
    assert!(invalid_settings.validate().is_err());

    // Test with duplicate shortcuts
    let mut duplicate_settings = settings.clone();
    duplicate_settings.return_to_start = duplicate_settings.play_pause.clone();
    assert!(duplicate_settings.validate().is_err());

    // Test with too many modifiers
    let mut complex_settings = settings.clone();
    complex_settings.play_pause = "Ctrl+Alt+Shift+Space".to_string();
    assert!(complex_settings.validate().is_err());
}

#[test]
fn test_keyboard_settings_sanitization() {
    let mut settings = KeyboardSettings::default();

    // Test empty shortcut sanitization
    settings.play_pause = "".to_string();
    let corrections = settings.sanitize();
    assert_eq!(settings.play_pause, "Space");
    assert_eq!(corrections.len(), 1);
    assert!(corrections[0].contains("Play/Pause"));
    assert!(corrections[0].contains("Space"));

    // Test multiple empty shortcuts
    let mut settings = KeyboardSettings::default();
    settings.play_pause = "".to_string();
    settings.return_to_start = "".to_string();
    let corrections = settings.sanitize();
    assert_eq!(corrections.len(), 2);
}

#[test]
fn test_keyboard_settings_platform_defaults() {
    let settings = KeyboardSettings::default();

    // Application shortcuts use the control key as the primary modifier.
    assert!(settings.new_project.contains("Ctrl+N"));
    assert!(settings.save_project.contains("Ctrl+S"));
    assert!(settings.open_settings.contains("Ctrl+,"));

    // Test that non-application shortcuts are platform-independent
    assert_eq!(settings.play_pause, "Space");
    assert_eq!(settings.return_to_start, "Enter");
    assert_eq!(settings.timeline_step_back, "Left");
}

#[test]
fn test_keyboard_shortcut_conflict_detection() {
    let mut keyboard = KeyboardSettings::default();

    // Create a conflict by setting two shortcuts to the same value
    keyboard.play_pause = "Space".to_string();
    keyboard.return_to_start = "Space".to_string(); // Conflict!

    // Validation should detect the conflict
    assert!(keyboard.validate().is_err());

    // Reset to defaults should pass validation
    keyboard = KeyboardSettings::default();
    assert!(keyboard.validate().is_ok());
}

#[test]
fn test_settings_error_variants() {
    let mut audio = AudioSettings::default();
    audio.sample_rate = 1;
    assert_eq!(
        audio.validate(),
        Err(AudioSettingsError::SampleRateOutOfRange)
    );
    audio.sample_rate = 44100;
    audio.buffer_size = 77;
    assert_eq!(
        audio.validate(),
        Err(AudioSettingsError::BufferSizeNotSupported)
    );
    audio.buffer_size = 1024;
    audio.master_volume = 9999;
    assert_eq!(
        audio.validate(),
        Err(AudioSettingsError::MasterVolumeOutOfRange)
    );

    let mut ui = UISettings::default();
    ui.theme = "sepia".to_string();
    assert_eq!(ui.validate(), Err(UISettingsError::UnknownTheme));
    ui.theme = "dark".to_string();
    ui.ui_scale = 100;
    assert_eq!(ui.validate(), Err(UISettingsError::ScaleOutOfRange));

    let mut defaults = DefaultSettings::default();
    defaults.default_bpm = 10;
    assert_eq!(defaults.validate(), Err(DefaultSettingsError::BpmOutOfRange));
    defaults.default_bpm = 120_000;
    defaults.default_time_signature = (0, 4);
    assert_eq!(
        defaults.validate(),
        Err(DefaultSettingsError::TimeSignatureNumeratorOutOfRange)
    );
    defaults.default_time_signature = (4, 5);
    assert_eq!(
        defaults.validate(),
        Err(DefaultSettingsError::TimeSignatureDenominatorNotSupported)
    );
    defaults.default_time_signature = (4, 4);
    defaults.default_pattern_length = 2;
    assert_eq!(
        defaults.validate(),
        Err(DefaultSettingsError::PatternLengthOutOfRange)
    );

    let mut keyboard = KeyboardSettings::default();
    keyboard.play_pause = "  ".to_string();
    assert_eq!(
        keyboard.validate(),
        Err(KeyboardSettingsError::MalformedShortcut)
    );
    keyboard = KeyboardSettings::default();
    keyboard.open_project = keyboard.save_project.clone();
    assert_eq!(
        keyboard.validate(),
        Err(KeyboardSettingsError::DuplicateShortcut)
    );
}

#[test]
fn test_keyboard_shortcut_parsing() {
    // Test simple key parsing
    let (key, modifiers) = KeyboardSettings::parse_shortcut("Space").unwrap();
    assert_eq!(key, Key::Space);
    assert_eq!(modifiers, Modifiers::default());

    // Test key with single modifier
    let (key, modifiers) = KeyboardSettings::parse_shortcut("Ctrl+S").unwrap();
    assert_eq!(key, Key::S);
    assert!(modifiers.ctrl);
    assert!(!modifiers.alt && !modifiers.shift);

    // Test key with multiple modifiers
    let (key, modifiers) = KeyboardSettings::parse_shortcut("Ctrl+Shift+S").unwrap();
    assert_eq!(key, Key::S);
    assert!(modifiers.ctrl && modifiers.shift);

    // Test platform-specific modifier
    let (key, modifiers) = KeyboardSettings::parse_shortcut("Cmd+N").unwrap();
    assert_eq!(key, Key::N);
    assert!(modifiers.mac_cmd);

    // Test invalid shortcuts
    assert!(KeyboardSettings::parse_shortcut("").is_none());
    assert!(KeyboardSettings::parse_shortcut("InvalidKey").is_none());
    assert!(KeyboardSettings::parse_shortcut("Ctrl+InvalidKey").is_none());
}

#[test]
fn test_keyboard_shortcut_matching() {
    // Test simple key matching
    let modifiers = Modifiers::default();
    assert!(KeyboardSettings::matches_shortcut("Space", Key::Space, &modifiers));
    assert!(!KeyboardSettings::matches_shortcut("Space", Key::Enter, &modifiers));

    // Test modifier key matching
    let ctrl_modifiers = Modifiers { ctrl: true, ..Default::default() };
    assert!(KeyboardSettings::matches_shortcut("Ctrl+S", Key::S, &ctrl_modifiers));
    assert!(!KeyboardSettings::matches_shortcut("Ctrl+S", Key::S, &modifiers));

    // Test multiple modifiers
    let ctrl_shift_modifiers = Modifiers { ctrl: true, shift: true, ..Default::default() };
    assert!(KeyboardSettings::matches_shortcut(
        "Ctrl+Shift+S",
        Key::S,
        &ctrl_shift_modifiers
    ));
    assert!(!KeyboardSettings::matches_shortcut("Ctrl+Shift+S", Key::S, &ctrl_modifiers));
}

#[test]
fn test_keyboard_shortcut_cross_platform_functionality() {
    // Test that shortcuts work correctly across platforms
    let keyboard = KeyboardSettings::default();

    // Test platform-agnostic shortcuts (should work on all platforms)
    assert!(KeyboardSettings::matches_shortcut(
        &keyboard.play_pause,
        Key::Space,
        &Modifiers::default()
    ));
    assert!(KeyboardSettings::matches_shortcut(
        &keyboard.return_to_start,
        Key::Enter,
        &Modifiers::default()
    ));
    assert!(KeyboardSettings::matches_shortcut(
        &keyboard.timeline_step_back,
        Key::ArrowLeft,
        &Modifiers::default()
    ));

    // Application shortcuts use the control key as the primary modifier.
    let ctrl_modifiers = Modifiers { ctrl: true, ..Default::default() };
    assert!(keyboard.new_project.contains("Ctrl"));
    assert!(KeyboardSettings::matches_shortcut(
        &keyboard.new_project,
        Key::N,
        &ctrl_modifiers
    ));
}

#[test]
fn test_keyboard_integration_with_app_settings() {
    // Test that keyboard settings integrate properly with the main app settings
    let app_settings = AppSettings::default();

    // Validate that keyboard settings exist and are valid
    assert!(app_settings.keyboard.validate().is_ok());

    // Test that all default shortcuts are properly formatted
    let keyboard = &app_settings.keyboard;

    // Test transport shortcuts
    assert!(KeyboardSettings::parse_shortcut(&keyboard.play_pause).is_some());
    assert!(KeyboardSettings::parse_shortcut(&keyboard.return_to_start).is_some());
    assert!(KeyboardSettings::parse_shortcut(&keyboard.stop_escape).is_some());

    // Test timeline navigation shortcuts
    assert!(KeyboardSettings::parse_shortcut(&keyboard.timeline_step_back).is_some());
    assert!(KeyboardSettings::parse_shortcut(&keyboard.timeline_step_forward).is_some());
    assert!(KeyboardSettings::parse_shortcut(&keyboard.timeline_jump_back).is_some());
    assert!(KeyboardSettings::parse_shortcut(&keyboard.timeline_jump_forward).is_some());
    assert!(KeyboardSettings::parse_shortcut(&keyboard.timeline_start).is_some());
    assert!(KeyboardSettings::parse_shortcut(&keyboard.timeline_end).is_some());

    // Test pattern editing shortcuts
    assert!(KeyboardSettings::parse_shortcut(&keyboard.pattern_clear).is_some());
    assert!(KeyboardSettings::parse_shortcut(&keyboard.pattern_select_all).is_some());

    // Test application shortcuts
    assert!(KeyboardSettings::parse_shortcut(&keyboard.new_project).is_some());
    assert!(KeyboardSettings::parse_shortcut(&keyboard.open_project).is_some());
    assert!(KeyboardSettings::parse_shortcut(&keyboard.save_project).is_some());
    assert!(KeyboardSettings::parse_shortcut(&keyboard.save_project_as).is_some());
    assert!(KeyboardSettings::parse_shortcut(&keyboard.open_settings).is_some());
}
