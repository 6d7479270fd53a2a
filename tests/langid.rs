use i18n_leptos::langid::LangId;

fn canon(s: &str) -> Option<String> {
    LangId::parse(s).map(|l| l.to_string())
}

#[test]
fn parse_gives_canonical_case_and_separators() {
    assert_eq!(canon("en-US"), Some("en-US".to_string()));
    assert_eq!(canon("EN_us"), Some("en-US".to_string()));
    assert_eq!(canon("sr-latn-rs"), Some("sr-Latn-RS".to_string()));
    assert_eq!(canon("ZH_HANT"), Some("zh-Hant".to_string()));
    assert_eq!(canon("es-419"), Some("es-419".to_string()));
    assert_eq!(canon("fr"), Some("fr".to_string()));
    assert_eq!(canon("chinese"), Some("chinese".to_string()));
}

#[test]
fn parse_rejects_what_is_no_identifier() {
    for s in ["", "e", "en-", "-en", "en--US", "en-US-x", "123", "toolongtag", "en-USA", "en-1234", "fr-Latn-FR-1", "en US", "én"] {
        assert_eq!(canon(s), None, "{s}");
    }
}

#[test]
fn parse_round_trips_through_text() {
    for s in ["en-US", "EN_us", "sr_LATN_rs", "zh-hant", "es-419", "de", "xx-garbage"] {
        let first = LangId::parse(s);
        let again = first.as_ref().and_then(|l| LangId::parse(l.as_str()));
        assert_eq!(again, first, "{s}");
    }
}

#[test]
fn identifiers_compare_by_canonical_form() {
    assert_eq!(LangId::parse("en-us").unwrap(), LangId::parse("EN_US").unwrap());
    assert_ne!(LangId::parse("en-us").unwrap(), LangId::parse("en-gb").unwrap());
    let l = LangId::parse("pt-br").unwrap();
    assert_eq!(l.duplicate(), l);
    assert_eq!(l.clone().as_str(), "pt-BR");
}
