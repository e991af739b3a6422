use ytdl_gui::localizations::{locale_to_language_tag, Localizations, Translations};

#[test]
fn translations_insert_and_lookup() {
    let mut table = Translations::new();
    assert!(table.lookup("greeting").is_none());
    table.insert("greeting", "hello");
    assert_eq!(table.lookup("greeting").as_deref(), Some("hello"));
    assert!(table.lookup("farewell").is_none());
}

#[test]
fn later_insert_overrides_earlier_value() {
    let mut table = Translations::new();
    table.insert("greeting", "hello");
    table.insert("greeting", "hi");
    assert_eq!(table.lookup("greeting").as_deref(), Some("hi"));
}

#[test]
fn english_is_active_by_default() {
    let localizer = Localizations::new();
    assert_eq!(
        localizer.lookup_single_language("app-title", None).as_deref(),
        Some("YouTube Downloader")
    );
    assert_eq!(
        localizer.lookup_single_language("status-ready", None).as_deref(),
        Some("Ready")
    );
}

#[test]
fn selecting_spanish_switches_the_strings() {
    let mut localizer = Localizations::new();
    assert!(localizer.select("es-ES").is_ok());
    assert_eq!(
        localizer.lookup_single_language("app-title", None).as_deref(),
        Some("Descargador de YouTube")
    );
    assert_eq!(
        localizer.lookup_single_language("status-ready", None).as_deref(),
        Some("Listo")
    );
    assert_eq!(
        localizer.lookup_single_language("error-invalid-url", None).as_deref(),
        Some("Error: URL inválida")
    );
}

#[test]
fn primary_subtag_selects_by_prefix() {
    let mut localizer = Localizations::new();
    assert!(localizer.select("es").is_ok());
    assert_eq!(
        localizer.lookup_single_language("download-button", None).as_deref(),
        Some("Descargar")
    );
    let mut other = Localizations::new();
    assert!(other.select("es-MX").is_ok());
    assert_eq!(
        other.lookup_single_language("download-button", None).as_deref(),
        Some("Descargar")
    );
}

#[test]
fn unknown_language_falls_back_to_english() {
    let mut localizer = Localizations::new();
    assert!(localizer.select("fr-FR").is_ok());
    assert_eq!(
        localizer.lookup_single_language("status-ready", None).as_deref(),
        Some("Ready")
    );
}

#[test]
fn posix_locales_normalize_to_language_tags() {
    assert_eq!(locale_to_language_tag("es_ES.UTF-8"), "es-ES");
    assert_eq!(locale_to_language_tag("es_MX.UTF-8"), "es-ES");
    assert_eq!(locale_to_language_tag("ES_ES"), "es-ES");
    assert_eq!(locale_to_language_tag("Es_AR"), "es-ES");
    assert_eq!(locale_to_language_tag("es"), "es-ES");
    assert_eq!(locale_to_language_tag("es-MX"), "es-ES");
    assert_eq!(locale_to_language_tag("en_US.UTF-8"), "en-US");
    assert_eq!(locale_to_language_tag("de_DE.UTF-8"), "en-US");
    assert_eq!(locale_to_language_tag("C"), "en-US");
    assert_eq!(locale_to_language_tag(""), "en-US");
    assert_eq!(locale_to_language_tag("et_EE"), "en-US");
}

#[test]
fn normalized_underscore_locale_reaches_spanish() {
    let mut localizer = Localizations::new();
    let tag = locale_to_language_tag("es_ES.UTF-8");
    assert!(localizer.select(&tag).is_ok());
    assert_eq!(
        localizer.lookup_single_language("status-ready", None).as_deref(),
        Some("Listo")
    );
}

#[test]
fn missing_key_yields_none_for_caller_default() {
    let localizer = Localizations::new();
    assert!(localizer.lookup_single_language("enter-url", None).is_none());
    let mut spanish = Localizations::new();
    assert!(spanish.select("es-ES").is_ok());
    assert!(spanish.lookup_single_language("enter-url", None).is_none());
}
