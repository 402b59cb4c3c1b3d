use shard::config::{
    Config, EditorConfig, EditorPreset, KeyPress, KeyboardConfig, Modifiers, SettingsState,
    Shortcut, ShortcutAction,
};

#[test]
fn test_editor_preset_commands() {
    assert_eq!(
        EditorPreset::Vscode.default_command(),
        Some("code --wait {file}")
    );
    assert_eq!(EditorPreset::Helix.default_command(), Some("hx {file}"));
    assert_eq!(EditorPreset::Neovim.default_command(), Some("nvim {file}"));
    assert_eq!(EditorPreset::Custom.default_command(), None);
}

#[test]
fn test_build_command() {
    let config = EditorConfig {
        preset: EditorPreset::Vscode,
        custom_command: String::new(),
    };

    let (prog, args) = config.build_command("/tmp/test.rs").unwrap();
    assert_eq!(prog, "code");
    assert_eq!(args, vec!["--wait", "/tmp/test.rs"]);
}

#[test]
fn test_custom_command() {
    let config = EditorConfig {
        preset: EditorPreset::Custom,
        custom_command: "subl -w {file}".to_string(),
    };

    let (prog, args) = config.build_command("/tmp/test.txt").unwrap();
    assert_eq!(prog, "subl");
    assert_eq!(args, vec!["-w", "/tmp/test.txt"]);
}

#[test]
fn blank_custom_command_builds_nothing() {
    let empty = EditorConfig { preset: EditorPreset::Custom, custom_command: String::new() };
    assert!(empty.build_command("/f").is_none());
    let blank = EditorConfig { preset: EditorPreset::Custom, custom_command: "   ".to_string() };
    assert!(blank.build_command("/f").is_none());
    let twice = EditorConfig {
        preset: EditorPreset::Custom,
        custom_command: "diff {file} {file}.bak".to_string(),
    };
    let (p, a) = twice.build_command("x").unwrap();
    assert_eq!(p, "diff");
    assert_eq!(a, vec!["x", "x.bak"]);
}

#[test]
fn shortcuts_display_and_update() {
    let mut kb = KeyboardConfig::default();
    assert_eq!(kb.get(ShortcutAction::Paste).to_string(), "Ctrl+v");
    assert_eq!(kb.get(ShortcutAction::Escape).to_string(), "Escape");
    kb.set(
        ShortcutAction::Delete,
        Shortcut::named("Backspace", Modifiers::new(true, true, true)),
    );
    assert_eq!(kb.get(ShortcutAction::Delete).to_string(), "Ctrl+Alt+Shift+Backspace");
    assert_eq!(kb.get(ShortcutAction::CopySnippet).to_string(), "Ctrl+c");
    assert_eq!(Modifiers::new(false, true, true).to_string(), "Alt+Shift");
    assert_eq!(ShortcutAction::all().len(), 5);
    assert_eq!(ShortcutAction::NewColor.display_name(), "New Color Input");
}

#[test]
fn settings_round_trip_through_config() {
    let config = Config::default();
    assert_eq!(config.editor.preset, EditorPreset::Helix);
    let mut state = SettingsState::from_config(&config);
    assert!(state.recording_action.is_none());
    state.editor_preset = EditorPreset::Custom;
    state.custom_command = "ed {file}".to_string();
    let mut target = Config::default();
    state.apply_to_config(&mut target);
    assert_eq!(target.editor.preset, EditorPreset::Custom);
    assert_eq!(target.editor.effective_command(), "ed {file}");
    assert_eq!(EditorPreset::Vim.display_name(), "Vim");
}

#[test]
fn shortcuts_match_key_presses() {
    let kb = KeyboardConfig::default();
    let paste = kb.get(ShortcutAction::Paste);
    assert!(paste.matches(&KeyPress::Character("V".to_string()), Modifiers::ctrl()));
    assert!(!paste.matches(&KeyPress::Character("v".to_string()), Modifiers::none()));
    assert!(!paste.matches(&KeyPress::Other, Modifiers::ctrl()));
    let escape = kb.get(ShortcutAction::Escape);
    assert!(escape.matches(&KeyPress::Named("escape".to_string()), Modifiers::none()));
    assert!(!escape.matches(&KeyPress::Named("Enter".to_string()), Modifiers::none()));
    assert!(Modifiers::ctrl().matches(Modifiers::new(true, false, false)));
}
