use omarchy_updater::theme::{theme_file, OmarchyColors};

fn original_css(
    bg: &str,
    card_bg: &str,
    fg: &str,
    accent: &str,
    muted: &str,
    green: &str,
) -> String {
        format!(
            r#"
            window.omarchy-updater {{
                background-color: {bg};
                color: {fg};
            }}

            .main-header {{
                font-weight: 800;
                font-size: 20px;
                color: {fg};
            }}

            .badge-up-to-date {{
                background-color: {green};
                color: #ffffff;
                border-radius: 12px;
                padding: 4px 12px;
                font-weight: 700;
                font-size: 13px;
            }}

            .badge-updates-available {{
                background-color: {accent};
                color: #ffffff;
                border-radius: 12px;
                padding: 4px 12px;
                font-weight: 700;
                font-size: 13px;
            }}

            .update-card {{
                background-color: {card_bg};
                border-radius: 12px;
                border: 1px solid {muted};
                padding: 16px;
                margin-bottom: 8px;
            }}

            .btn-update {{
                background: {accent};
                color: #ffffff;
                font-weight: 700;
                font-size: 15px;
                padding: 10px 24px;
                border-radius: 24px;
                border: none;
            }}

            .btn-update:hover {{
                opacity: 0.9;
            }}

            .btn-refresh {{
                background: transparent;
                border-radius: 24px;
                border: 1px solid {muted};
                color: {fg};
                padding: 8px 16px;
            }}

            .log-terminal {{
                background-color: #11111b;
                color: #a6e3a1;
                font-family: monospace;
                font-size: 12px;
                border-radius: 8px;
                padding: 12px;
            }}
            "#
        )
}

#[test]
fn default_colors_give_the_default_sheet() {
    let css = OmarchyColors::default().to_gtk_css();
    assert_eq!(css, original_css("#eaf4ff", "#ffffff", "#173d75", "#316ac5", "#8aaee0", "#38a169"));
}

#[test]
fn set_colors_are_used() {
    let mut c = OmarchyColors::default();
    c.background = Some("#000001".to_string());
    c.lighter_background = Some("#000002".to_string());
    c.foreground = Some("#000003".to_string());
    c.accent = Some("#000004".to_string());
    c.muted = Some("#000005".to_string());
    c.green = Some("#000006".to_string());
    let css = c.to_gtk_css();
    assert_eq!(css, original_css("#000001", "#000002", "#000003", "#000004", "#000005", "#000006"));
    assert!(css.contains("background-color: #000001;"));
}

#[test]
fn red_and_mode_do_not_change_the_sheet() {
    let mut a = OmarchyColors::default();
    a.accent = Some("#123456".to_string());
    let mut b = a.clone();
    b.red = Some("#ff0000".to_string());
    b.mode = Some("dark".to_string());
    b.cyan = Some("#00ffff".to_string());
    assert_eq!(a.to_gtk_css(), b.to_gtk_css());
}

#[test]
fn fallback_theme_is_light_blue() {
    let f = OmarchyColors::fallback();
    assert_eq!(f.mode.as_deref(), Some("light"));
    assert_eq!(f.accent.as_deref(), Some("#316ac5"));
    assert_eq!(f.background.as_deref(), Some("#eaf4ff"));
    assert_eq!(f.foreground.as_deref(), Some("#173d75"));
    assert_eq!(f.lighter_background.as_deref(), Some("#ffffff"));
    assert_eq!(f.green.as_deref(), Some("#228b22"));
    assert_eq!(f.red.as_deref(), Some("#b23b35"));
    assert_eq!(f.yellow.as_deref(), Some("#9b6700"));
    assert_eq!(f.muted.as_deref(), Some("#8aaee0"));
    assert!(f.selection.is_none() && f.cyan.is_none() && f.blue.is_none() && f.magenta.is_none());
    assert!(f.dark_background.is_none() && f.darker_background.is_none());
    assert!(f.dark_foreground.is_none() && f.light_foreground.is_none() && f.bright_foreground.is_none());
    // the fallback's green is its own, not the sheet's default
    assert_eq!(f.to_gtk_css(), original_css("#eaf4ff", "#ffffff", "#173d75", "#316ac5", "#8aaee0", "#228b22"));
}

#[test]
fn loaded_theme_wins_over_fallback() {
    let mut loaded = OmarchyColors::default();
    loaded.accent = Some("#abcdef".to_string());
    let used = OmarchyColors::from_loaded(Some(loaded));
    assert_eq!(used.accent.as_deref(), Some("#abcdef"));
    assert!(used.background.is_none());
    let none = OmarchyColors::from_loaded(None);
    assert_eq!(none.mode.as_deref(), Some("light"));
}

#[test]
fn theme_file_is_under_home() {
    assert_eq!(
        theme_file(&Some("/home/ada".to_string())).as_deref(),
        Some("/home/ada/.local/state/omarchy/current/theme/colors.toml")
    );
    assert_eq!(
        theme_file(&Some("/home/ada/".to_string())).as_deref(),
        Some("/home/ada/.local/state/omarchy/current/theme/colors.toml")
    );
    assert_eq!(
        theme_file(&Some(String::new())).as_deref(),
        Some(".local/state/omarchy/current/theme/colors.toml")
    );
}

#[test]
fn no_home_means_no_theme_file() {
    assert_eq!(theme_file(&None), None);
}
