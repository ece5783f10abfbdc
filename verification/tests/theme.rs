use rift::file_tree::{FileTree, FILE_TREE_PANEL_NAME};
use rift::ordered::KeyedVec;
use rift::outline_panel::OUTLINE_PANEL_NAME;
use rift::panels::{
    panel_name, DockPanel, DIFF_VIEW_PANEL_NAME, EDITOR_PANEL_NAME, SOURCE_CONTROL_PANEL_NAME,
    TERMINAL_PANEL_NAME,
};
use rift::problems_panel::PROBLEMS_PANEL_NAME;
use rift::theme::{
    persist_best_effort, resolve_theme, PersistWarning, Repaint, StoredTheme, Theme, ThemeConfig,
    ThemeMode, CATPPUCCIN_MOCHA_THEME_NAME, DEFAULT_DARK_THEME_NAME, DEFAULT_LIGHT_THEME_NAME,
    DEFAULT_THEME_NAME,
};

fn theme_config(name: &str, mode: ThemeMode) -> ThemeConfig {
    ThemeConfig { name: name.into(), mode }
}

fn mocha() -> Option<ThemeConfig> {
    Some(theme_config(CATPPUCCIN_MOCHA_THEME_NAME, ThemeMode::Dark))
}

fn applied() -> Theme {
    let mut theme = Theme::new();
    theme.apply_theme(mocha());
    theme
}

#[test]
fn test_resolve_theme_returns_the_requested_theme_when_known() {
    let mut themes = KeyedVec::new();
    themes.upsert(theme_config("Light One", ThemeMode::Light));
    themes.upsert(theme_config(DEFAULT_THEME_NAME, ThemeMode::Dark));

    let resolved = resolve_theme(&themes, "Light One").expect("theme is registered");
    assert_eq!(resolved.name, "Light One");
}

#[test]
fn test_resolve_theme_falls_back_to_default_when_name_is_unknown() {
    let mut themes = KeyedVec::new();
    themes.upsert(theme_config(DEFAULT_THEME_NAME, ThemeMode::Dark));

    let resolved = resolve_theme(&themes, "does not exist").expect("default is registered");
    assert_eq!(resolved.name, DEFAULT_THEME_NAME);
}

#[test]
fn test_resolve_theme_returns_none_when_the_registry_is_empty() {
    let themes: KeyedVec<ThemeConfig> = KeyedVec::new();
    assert!(resolve_theme(&themes, "anything").is_none());
}

#[test]
fn test_apply_theme_activates_catppuccin_mocha_dark() {
    let theme = applied();
    assert!(theme.mode().is_dark());
    assert_eq!(theme.theme_name(), CATPPUCCIN_MOCHA_THEME_NAME);
}

#[test]
fn test_apply_persisted_theme_activates_the_stored_named_theme() {
    let mut theme = Theme::new();
    let state = StoredTheme {
        theme_name: DEFAULT_LIGHT_THEME_NAME.to_string(),
        theme_mode: ThemeMode::Light,
        ..StoredTheme::default()
    };

    theme.apply_persisted_theme(mocha(), &state);

    assert!(!theme.mode().is_dark());
    assert_eq!(theme.theme_name(), DEFAULT_LIGHT_THEME_NAME);
}

#[test]
fn test_apply_persisted_theme_unknown_name_falls_back_to_default() {
    let mut theme = Theme::new();
    let state =
        StoredTheme { theme_name: "does not exist".to_string(), ..StoredTheme::default() };

    theme.apply_persisted_theme(mocha(), &state);

    assert!(theme.mode().is_dark());
    assert_eq!(theme.theme_name(), CATPPUCCIN_MOCHA_THEME_NAME);
}

#[test]
fn test_apply_persisted_theme_reapplies_a_mode_independent_of_the_named_theme() {
    let mut theme = Theme::new();
    let state = StoredTheme {
        theme_name: CATPPUCCIN_MOCHA_THEME_NAME.to_string(),
        theme_mode: ThemeMode::Light,
        ..StoredTheme::default()
    };

    theme.apply_persisted_theme(mocha(), &state);

    assert!(!theme.mode().is_dark());
}

#[test]
fn test_set_theme_switches_to_a_light_named_theme_live() {
    let mut theme = applied();
    assert!(theme.mode().is_dark());

    theme.set_theme(DEFAULT_LIGHT_THEME_NAME, false);

    assert!(!theme.mode().is_dark());
    assert_eq!(theme.theme_name(), DEFAULT_LIGHT_THEME_NAME);
}

#[test]
fn test_set_theme_unknown_name_falls_back_to_default() {
    let mut theme = applied();

    theme.set_theme("does not exist", false);

    assert!(theme.mode().is_dark());
    assert_eq!(theme.theme_name(), CATPPUCCIN_MOCHA_THEME_NAME);
}

#[test]
fn test_set_theme_is_a_no_op_when_no_theme_matches() {
    let mut theme = Theme::new();
    assert!(!theme.mode().is_dark());

    assert_eq!(theme.set_theme("does not exist", false), None);

    assert!(!theme.mode().is_dark());
}

#[test]
fn test_set_theme_mode_reuses_the_previously_assigned_named_theme() {
    let mut theme = applied();
    theme.set_theme(DEFAULT_LIGHT_THEME_NAME, false);
    assert!(!theme.mode().is_dark());

    theme.set_theme_mode(ThemeMode::Dark, false);

    assert!(theme.mode().is_dark());
    assert_eq!(theme.theme_name(), CATPPUCCIN_MOCHA_THEME_NAME);
}

#[test]
fn test_set_theme_mode_without_a_window_still_refreshes_open_windows() {
    let mut theme = applied();
    assert_eq!(theme.set_theme_mode(ThemeMode::Light, false), Repaint::AllWindows);
    assert_eq!(theme.set_theme_mode(ThemeMode::Dark, true), Repaint::ThisWindow);
}

#[test]
fn test_toggle_theme_mode_flips_dark_to_light_and_back() {
    let mut theme = applied();
    assert!(theme.mode().is_dark());

    theme.toggle_theme_mode(false);
    assert!(!theme.mode().is_dark());
    assert_eq!(theme.theme_name(), DEFAULT_LIGHT_THEME_NAME);

    theme.toggle_theme_mode(false);
    assert!(theme.mode().is_dark());
    assert_eq!(theme.theme_name(), CATPPUCCIN_MOCHA_THEME_NAME);
}

#[test]
fn test_persist_theme_to_writes_the_active_name_and_mode() {
    let mut theme = applied();
    theme.set_theme(DEFAULT_LIGHT_THEME_NAME, false);

    let mut loaded = StoredTheme::default();
    theme.persist_theme_to(&mut loaded);

    assert_eq!(loaded.theme_name, DEFAULT_LIGHT_THEME_NAME);
    assert_eq!(loaded.theme_mode, ThemeMode::Light);
}

#[test]
fn test_persist_theme_mode_to_after_a_toggle_preserves_the_named_selection() {
    let mut theme = applied();
    let mut loaded = StoredTheme::default();
    theme.persist_theme_to(&mut loaded);

    theme.toggle_theme_mode(false);
    theme.persist_theme_mode_to(&mut loaded);

    assert_eq!(loaded.theme_name, CATPPUCCIN_MOCHA_THEME_NAME);
    assert_eq!(loaded.theme_mode, ThemeMode::Light);
}

#[test]
fn test_set_ui_font_updates_the_live_theme_font_family() {
    let mut theme = applied();
    theme.set_ui_font("Inter", false);
    assert_eq!(theme.font_family(), Some("Inter"));
}

#[test]
fn test_set_mono_font_updates_the_live_theme_mono_font_family() {
    let mut theme = applied();
    theme.set_mono_font("Consolas", false);
    assert_eq!(theme.mono_font_family(), Some("Consolas"));
}

#[test]
fn test_set_ui_font_without_a_window_still_refreshes_open_windows() {
    let mut theme = applied();
    assert_eq!(theme.set_ui_font("Inter", false), Repaint::AllWindows);
    assert_eq!(theme.set_mono_font("Consolas", true), Repaint::ThisWindow);
}

#[test]
fn test_apply_persisted_theme_applies_a_persisted_font_override() {
    let mut theme = Theme::new();
    let state = StoredTheme {
        ui_font_family: "Segoe UI".to_string(),
        mono_font_family: "Cascadia Mono".to_string(),
        ..StoredTheme::default()
    };

    theme.apply_persisted_theme(mocha(), &state);

    assert_eq!(theme.font_family(), Some("Segoe UI"));
    assert_eq!(theme.mono_font_family(), Some("Cascadia Mono"));
}

#[test]
fn test_apply_persisted_theme_empty_font_fields_leave_the_theme_default() {
    let mut theme = Theme::new();
    let before = theme.font_family().map(str::to_owned);

    theme.apply_persisted_theme(mocha(), &StoredTheme::default());

    assert_eq!(theme.font_family().map(str::to_owned), before);
    assert_ne!(theme.font_family(), Some(""));
}

#[test]
fn test_panel_names_are_stable_and_distinct() {
    assert_eq!(FileTree::new().panel_name(), FILE_TREE_PANEL_NAME);
    assert_eq!(FILE_TREE_PANEL_NAME, "explorer");
    assert_eq!(EDITOR_PANEL_NAME, "editor");
    assert_eq!(TERMINAL_PANEL_NAME, "terminal");
    assert_eq!(SOURCE_CONTROL_PANEL_NAME, "source-control");
    assert_eq!(PROBLEMS_PANEL_NAME, "problems");
    assert_eq!(DIFF_VIEW_PANEL_NAME, "diff-view");
    assert_eq!(OUTLINE_PANEL_NAME, "outline");
    assert_eq!(panel_name(DockPanel::Explorer), "explorer");

    let names = [
        FILE_TREE_PANEL_NAME,
        EDITOR_PANEL_NAME,
        TERMINAL_PANEL_NAME,
        SOURCE_CONTROL_PANEL_NAME,
        PROBLEMS_PANEL_NAME,
        DIFF_VIEW_PANEL_NAME,
        OUTLINE_PANEL_NAME,
    ];
    for (i, a) in names.iter().enumerate() {
        for b in &names[i + 1..] {
            assert_ne!(a, b, "panel names must be distinct");
        }
    }
}

#[test]
fn a_theme_that_does_not_load_leaves_everything_alone() {
    let mut theme = Theme::new();
    assert_eq!(theme.apply_theme(None), None);
    assert_eq!(theme.theme_name(), DEFAULT_LIGHT_THEME_NAME);
    theme.apply_persisted_theme(
        None,
        &StoredTheme { theme_mode: ThemeMode::Dark, ..StoredTheme::default() },
    );
    assert_eq!(theme.mode(), ThemeMode::Light);
}

#[test]
fn a_selected_theme_survives_a_restart() {
    let mut stored = StoredTheme::default();
    let mut live = applied();
    assert_eq!(
        live.set_theme_persisted(DEFAULT_LIGHT_THEME_NAME, true, &mut stored),
        Some(Repaint::ThisWindow)
    );
    let mut restarted = Theme::new();
    restarted.apply_persisted_theme(mocha(), &stored);
    assert_eq!(restarted.theme_name(), DEFAULT_LIGHT_THEME_NAME);
    assert_eq!(restarted.mode(), ThemeMode::Light);
}

#[test]
fn a_flipped_mode_survives_a_restart() {
    let mut stored = StoredTheme::default();
    let mut live = applied();
    live.set_theme_persisted(DEFAULT_DARK_THEME_NAME, false, &mut stored);
    live.toggle_theme_mode_persisted(false, &mut stored);
    assert_eq!(stored.theme_name, DEFAULT_DARK_THEME_NAME);
    let mut restarted = Theme::new();
    restarted.apply_persisted_theme(mocha(), &stored);
    assert_eq!(restarted.mode(), ThemeMode::Light);
    restarted.toggle_theme_mode(false);
    assert_eq!(restarted.theme_name(), DEFAULT_DARK_THEME_NAME);
}

#[test]
fn chosen_fonts_and_modes_are_recorded() {
    let mut stored = StoredTheme::default();
    let mut theme = applied();
    theme.set_ui_font_persisted("Inter", false, &mut stored);
    theme.set_mono_font_persisted("Consolas", false, &mut stored);
    theme.set_theme_mode_persisted(ThemeMode::Light, false, &mut stored);
    assert_eq!(stored.ui_font_family, "Inter");
    assert_eq!(stored.mono_font_family, "Consolas");
    assert_eq!(stored.theme_mode, ThemeMode::Light);
    assert_eq!(stored.theme_name, DEFAULT_THEME_NAME);
}

#[test]
fn a_failed_save_is_only_a_warning() {
    let mut saved_to = None;
    assert_eq!(
        persist_best_effort(Ok("/state.json".to_owned()), |path| {
            saved_to = Some(path);
            Ok(())
        }),
        None
    );
    assert_eq!(saved_to.as_deref(), Some("/state.json"));
    assert_eq!(
        persist_best_effort(Ok("/state.json".to_owned()), |_| Err("disk full".to_owned())),
        Some(PersistWarning::SaveFailed("disk full".to_owned()))
    );
    assert_eq!(
        persist_best_effort(Err("no home".to_owned()), |_| unreachable!()),
        Some(PersistWarning::NoStateDirectory("no home".to_owned()))
    );
}
