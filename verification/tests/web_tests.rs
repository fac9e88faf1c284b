use minerals::i18n::{language_options, Language};
use minerals::text::{en_text, ui_text};
use minerals::web::{cookie_value, footer_page_content, resolve_language};

#[test]
fn language_codes_round_trip() {
    for lang in Language::all() {
        assert_eq!(Language::from_code(lang.code()), Some(lang));
    }
    assert_eq!(Language::all().len(), 10);
}

#[test]
fn from_code_tolerates_case_region_and_whitespace() {
    assert_eq!(Language::from_code("pt-BR"), Some(Language::Pt));
    assert_eq!(Language::from_code(" EN "), Some(Language::En));
    assert_eq!(Language::from_code("zh-Hans-CN"), Some(Language::Zh));
    assert_eq!(Language::from_code("xx"), None);
    assert_eq!(Language::from_code(""), None);
}

#[test]
fn language_metadata() {
    assert_eq!(Language::En.code(), "en");
    assert_eq!(Language::Ar.dir(), "rtl");
    assert_eq!(Language::Fr.dir(), "ltr");
    assert_eq!(Language::Cs.english_name(), "Czech");
    assert_eq!(Language::Es.native_name(), "Español");
    let options = language_options();
    assert_eq!(options.len(), 10);
    assert_eq!(options[0].code, "en");
    assert_eq!(options[1].label, "Español");
}

#[test]
fn cookie_values_parse_from_the_header() {
    let header = "lang=es; admin_session=deadbeef";
    assert_eq!(cookie_value(header, "lang"), Some("es".to_string()));
    assert_eq!(cookie_value(header, "admin_session"), Some("deadbeef".to_string()));
    assert_eq!(cookie_value(header, "missing"), None);
    // an empty value does not count; a later cookie with the name can
    assert_eq!(cookie_value("lang=; lang=ja", "lang"), Some("ja".to_string()));
    assert_eq!(cookie_value("lang=", "lang"), None);
}

#[test]
fn language_resolution_prefers_the_cookie() {
    assert_eq!(resolve_language(Some("cs"), Language::En), Language::Cs);
    assert_eq!(resolve_language(Some("nope"), Language::De), Language::De);
    assert_eq!(resolve_language(None, Language::En), Language::En);
}

#[test]
fn footer_pages_have_fixed_content() {
    assert_eq!(footer_page_content("legal").0, "Legal");
    assert_eq!(footer_page_content("support").0, "Support");
    assert_eq!(footer_page_content("whatever").0, "Information");
}

#[test]
fn ui_text_localizes_and_falls_back() {
    let en = en_text();
    assert_eq!(en.home_title, "Minerals");
    let es = ui_text(Language::Es);
    assert_eq!(es.home_title, "Minerales");
    // a field Spanish does not override keeps the base-language text
    assert_eq!(es.label_formula, en.label_formula);
    let ja = ui_text(Language::Ja);
    assert_eq!(ja.nav_home, "ホーム");
}
