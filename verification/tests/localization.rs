use vistula_updater::config::AppConfig;
use vistula_updater::i18n::{normalize_lang, LocalizationContext};

fn en_table() -> Vec<(String, String)> {
    vec![
        ("app.title".to_string(), "VistulaOS Updater".to_string()),
        (
            "notify.updates_available".to_string(),
            "Updates available: {n}".to_string(),
        ),
    ]
}

#[test]
fn test_normalize_lang() {
    assert_eq!(normalize_lang("pl"), "pl");
    assert_eq!(normalize_lang("pl_PL"), "pl");
    assert_eq!(normalize_lang("pl_PL.UTF-8"), "pl");
    assert_eq!(normalize_lang("en_US.utf8@variant"), "en");
    assert_eq!(normalize_lang("de"), "en"); // fallback for unknown
}

#[test]
fn test_translate() {
    let mut ctx = LocalizationContext::new();
    ctx.install_table("en", en_table());
    ctx.set_language("en");
    let text = ctx.t("app.title");
    assert!(!text.is_empty());
    assert_eq!(text, "VistulaOS Updater");
}

#[test]
fn test_translate_with_args() {
    let mut ctx = LocalizationContext::new();
    ctx.install_table("en", en_table());
    ctx.set_language("en");
    let args = vec![("n".to_string(), "5".to_string())];
    let text = ctx.t_with_args("notify.updates_available", &args);
    assert!(text.contains("5"));
}

#[test]
fn test_translate_missing_key_is_key() {
    let mut ctx = LocalizationContext::new();
    ctx.install_table("en", en_table());
    let text = ctx.t("no.such.key");
    assert_eq!(text, "no.such.key");
}

#[test]
fn test_translate_falls_back_to_default_language() {
    let mut ctx = LocalizationContext::new();
    ctx.install_table("en", en_table());
    ctx.install_table("pl", vec![("only.pl".to_string(), "tak".to_string())]);
    ctx.set_language("pl");
    assert_eq!(ctx.t("only.pl"), "tak");
    assert_eq!(ctx.t("app.title"), "VistulaOS Updater");
}

#[test]
fn test_substitution_replaces_every_occurrence() {
    let mut ctx = LocalizationContext::new();
    ctx.install_table(
        "en",
        vec![("pair".to_string(), "{n} and {n}, not {m}".to_string())],
    );
    let args = vec![
        ("n".to_string(), "2".to_string()),
        ("m".to_string(), "3".to_string()),
    ];
    assert_eq!(ctx.t_with_args("pair", &args), "2 and 2, not 3");
}

#[test]
fn test_normalize_lang_trims_and_lowers() {
    assert_eq!(normalize_lang("  PL_pl  "), "pl");
    assert_eq!(normalize_lang(""), "en");
    assert_eq!(normalize_lang("en@euro"), "en");
}

#[test]
fn test_has_table_tracks_installs() {
    let mut ctx = LocalizationContext::new();
    assert!(!ctx.has_table("en"));
    ctx.install_table("en", en_table());
    assert!(ctx.has_table("en"));
    assert!(!ctx.has_table("pl"));
}

#[test]
fn test_set_language_normalizes() {
    let mut ctx = LocalizationContext::new();
    ctx.set_language("pl_PL.UTF-8");
    assert_eq!(ctx.current_language(), "pl");
    ctx.set_language("fr");
    assert_eq!(ctx.current_language(), "en");
}

#[test]
fn test_default_config() {
    let config = AppConfig::default();
    assert_eq!(config.language, "en");
    assert_eq!(config.theme, "auto");
}
