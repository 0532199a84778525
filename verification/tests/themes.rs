use tasklist::theme::{SerializableColor, SerializableTheme, Theme, ThemeManager};

#[test]
fn the_built_in_themes() {
    let keys: Vec<String> = Theme::get_builtin_themes().into_iter().map(|(k, _)| k).collect();
    assert_eq!(keys, vec!["catppuccin-mocha", "catppuccin-latte", "dracula", "gruvbox-dark", "nord"]);
    let mocha = Theme::catppuccin_mocha();
    assert_eq!(mocha.name, "Catppuccin Mocha");
    assert_eq!(mocha.background, SerializableColor { r: 17, g: 17, b: 27 });
    assert_eq!(mocha.lavender, SerializableColor { r: 180, g: 190, b: 254 });
    assert_eq!(Theme::catppuccin_latte().accent, SerializableColor { r: 4, g: 165, b: 229 });
    assert_eq!(Theme::dracula().red, SerializableColor { r: 255, g: 85, b: 85 });
    assert_eq!(Theme::gruvbox_dark().yellow, SerializableColor { r: 250, g: 189, b: 47 });
    assert_eq!(Theme::nord().mauve, SerializableColor { r: 180, g: 142, b: 173 });
    assert_eq!(Theme::default(), mocha);
}

#[test]
fn a_theme_survives_being_written_and_read() {
    let theme = Theme::nord();
    let written = SerializableTheme::from(theme.clone());
    assert_eq!(written.name, "Nord");
    assert_eq!(written.surface1, theme.surface1);
    assert_eq!(Theme::from(written), theme);
    assert_eq!(theme.copy(), theme);
}

#[test]
fn setting_a_theme_by_its_key() {
    let mut manager = ThemeManager::new();
    assert_eq!(manager.get_current_theme().name, "Catppuccin Mocha");
    assert_eq!(manager.set_theme("dracula"), Ok(()));
    assert_eq!(manager.get_current_theme().name, "Dracula");
    assert_eq!(manager.set_theme("solarized"), Err("Theme 'solarized' not found".to_string()));
    assert_eq!(manager.get_current_theme().name, "Dracula");
    assert_eq!(manager.get_theme_by_key("nord"), Some(&Theme::nord()));
    assert_eq!(manager.get_theme_by_key("Nord"), None);
    assert_eq!(ThemeManager::default().get_available_themes().len(), 5);
}

#[test]
fn adding_a_theme_under_a_key() {
    let mut manager = ThemeManager::new();
    let mut custom = Theme::nord();
    custom.name = "Mine".to_string();
    manager.insert("mine".to_string(), custom.clone());
    assert_eq!(
        manager.get_available_themes(),
        vec!["catppuccin-mocha", "catppuccin-latte", "dracula", "gruvbox-dark", "nord", "mine"]
    );
    assert_eq!(manager.set_theme("mine"), Ok(()));
    assert_eq!(manager.get_current_theme(), &custom);
    manager.insert("dracula".to_string(), custom.clone());
    assert_eq!(manager.get_available_themes().len(), 6);
    assert_eq!(manager.get_theme_by_key("dracula"), Some(&custom));
}

#[test]
fn cycling_through_the_themes() {
    let mut manager = ThemeManager::new();
    let mut seen = Vec::new();
    for _ in 0..5 {
        manager.cycle_theme();
        seen.push(manager.get_current_theme().name.clone());
    }
    assert_eq!(
        seen,
        vec!["Catppuccin Latte", "Dracula", "Gruvbox Dark", "Nord", "Catppuccin Mocha"]
    );
}
