use i18n_leptos::cookie::{cookie_assignment, cookie_value};
use i18n_leptos::langid::LangId;
use i18n_leptos::state::{
    resolve_initial_language, InitError, LangIdSource, LanguageState, Persist,
    DEFAULT_LANGUAGE,
};

fn id(s: &str) -> LangId {
    LangId::parse(s).unwrap()
}

fn local(key: &str, initial: &str) -> LanguageState {
    LanguageState::new(LangIdSource::LocalStorage(key.to_string()), id(initial))
}

#[test]
fn explicit_language_wins() {
    let r = resolve_initial_language(Some(id("de")), Some("fr"), Some("it"), None).unwrap();
    assert_eq!(r.as_str(), "de");
}

#[test]
fn stored_language_wins_over_environment() {
    let r = resolve_initial_language(None, Some("fr_fr"), Some("it"), None).unwrap();
    assert_eq!(r.as_str(), "fr-FR");
}

#[test]
fn unparsable_stored_language_falls_to_environment() {
    let r = resolve_initial_language(None, Some("??"), Some("it-IT"), None).unwrap();
    assert_eq!(r.as_str(), "it-IT");
}

#[test]
fn missing_environment_locale_gives_default() {
    let r = resolve_initial_language(None, None, None, None).unwrap();
    assert_eq!(r.as_str(), DEFAULT_LANGUAGE);
}

#[test]
fn unparsable_environment_locale_is_a_configuration_error() {
    let r = resolve_initial_language(None, None, Some("not a locale"), None);
    assert!(matches!(r, Err(InitError::InvalidEnvironmentLocale)));
}

#[test]
fn configured_fallback_replaces_unparsable_environment_locale() {
    let r = resolve_initial_language(None, Some("??"), Some("not a locale"), Some(id("en-GB"))).unwrap();
    assert_eq!(r.as_str(), "en-GB");
    let r = resolve_initial_language(None, None, Some("sv"), Some(id("en-GB"))).unwrap();
    assert_eq!(r.as_str(), "sv");
}

#[test]
fn set_updates_value_and_asks_for_write_then_broadcast() {
    let mut st = local("lang", "en-US");
    let e = st.set(id("fr-FR"));
    assert_eq!(st.current_untracked().as_str(), "fr-FR");
    match e.persist {
        Some(Persist::LocalStorage { key, value }) => {
            assert_eq!(key, "lang");
            assert_eq!(value, "fr-FR");
        }
        other => panic!("unexpected write {other:?}"),
    }
    assert_eq!(e.notify, "fr-FR");
    assert_eq!(st.fallback().as_str(), "en-US");
}

#[test]
fn set_with_cookie_appends_attributes() {
    let source = LangIdSource::Cookie { name: "lang".to_string(), attributes: "path=/; max-age=60".to_string() };
    let mut st = LanguageState::new(source, id("en"));
    let e = st.set(id("de-AT"));
    match e.persist {
        Some(Persist::Cookie { assignment }) => assert_eq!(assignment, "lang=de-AT; path=/; max-age=60"),
        other => panic!("unexpected write {other:?}"),
    }
    assert_eq!(cookie_assignment("c", "fr", ""), "c=fr");
}

#[test]
fn set_without_backend_writes_nothing() {
    let mut st = LanguageState::new(LangIdSource::Navigator, id("en"));
    let e = st.set(id("nl"));
    assert!(e.persist.is_none());
    assert_eq!(e.notify, "nl");
    assert_eq!(st.current_untracked().as_str(), "nl");
}

#[test]
fn garbage_reconciles_to_fallback() {
    let mut st = local("lang", "en-US");
    assert!(st.reconcile_external("de-DE"));
    assert_eq!(st.current_untracked().as_str(), "de-DE");
    assert!(st.reconcile_external("%%garbage%%"));
    assert_eq!(st.current_untracked().as_str(), "en-US");
}

#[test]
fn reconciling_the_current_value_twice_changes_nothing() {
    let mut st = local("lang", "en-US");
    assert!(st.reconcile_external("pl_pl"));
    assert!(!st.reconcile_external("pl_pl"));
    assert!(!st.reconcile_external("pl-PL"));
    assert_eq!(st.current_untracked().as_str(), "pl-PL");
}

#[test]
fn notifications_reconcile_until_teardown() {
    let mut st = local("lang", "en-US");
    assert!(!st.on_notification(None));
    assert!(st.on_notification(Some("ja")));
    assert_eq!(st.current_untracked().as_str(), "ja");
    st.teardown();
    assert!(!st.on_notification(Some("ko")));
    assert_eq!(st.current_untracked().as_str(), "ja");
}

#[test]
fn storage_events_for_the_key_reconcile() {
    let mut st = local("lang", "en-US");
    assert!(!st.on_storage_event(Some("other"), Some("fr")));
    assert!(st.on_storage_event(Some("lang"), Some("fr")));
    assert_eq!(st.current_untracked().as_str(), "fr");
    assert!(st.on_storage_event(Some("lang"), None));
    assert_eq!(st.current_untracked().as_str(), "en-US");
    assert!(st.on_storage_event(None, Some("es")));
    assert_eq!(st.current_untracked().as_str(), "es");
    let mut nav = LanguageState::new(LangIdSource::Navigator, id("en"));
    assert!(!nav.on_storage_event(Some("lang"), Some("fr")));
}

#[test]
fn polling_reconciles_only_differences() {
    let source = LangIdSource::Cookie { name: "lang".to_string(), attributes: String::new() };
    let mut st = LanguageState::new(source, id("en"));
    assert!(!st.on_poll(Some("en")));
    assert!(!st.on_poll(None));
    assert!(st.on_poll(Some("uk")));
    assert_eq!(st.current_untracked().as_str(), "uk");
    assert!(st.on_poll(Some("bad value")));
    assert_eq!(st.current_untracked().as_str(), "en");
    assert!(st.on_poll(Some("uk")));
    assert!(st.on_poll(None));
    assert_eq!(st.current_untracked().as_str(), "en");
    st.teardown();
    assert!(!st.on_poll(Some("uk")));
}

#[test]
fn write_failures_are_reported_once_per_run() {
    let mut st = local("lang", "en");
    assert!(st.on_persist_result(false));
    assert!(!st.on_persist_result(false));
    assert!(!st.on_persist_result(true));
    assert!(st.on_persist_result(false));
}

#[test]
fn cookie_lookup_finds_the_named_entry() {
    let c = "a=1; lang=fr-FR;  other=x; lang=de";
    assert_eq!(cookie_value(c, "lang"), Some("fr-FR".to_string()));
    assert_eq!(cookie_value(c, "other"), Some("x".to_string()));
    assert_eq!(cookie_value(c, "a"), Some("1".to_string()));
    assert_eq!(cookie_value(c, "lan"), None);
    assert_eq!(cookie_value(c, "b"), None);
    assert_eq!(cookie_value("", "lang"), None);
    assert_eq!(cookie_value("lang=", "lang"), Some(String::new()));
}

#[test]
fn written_cookie_reads_back() {
    let written = cookie_assignment("lang", "fr-FR", "path=/");
    assert_eq!(written, "lang=fr-FR; path=/");
    assert_eq!(cookie_value(&written, "lang"), Some("fr-FR".to_string()));
    let bare = cookie_assignment("lang", "fr-FR", "");
    assert_eq!(cookie_value(&bare, "lang"), Some("fr-FR".to_string()));
}
