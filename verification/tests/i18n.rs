use lockpick::i18n::{I18n, Lang};

#[test]
fn test_translate_zh() {
    let i18n = I18n { lang: Lang::Zh };
    assert_eq!(i18n.t("package"), "包名");
    assert_eq!(i18n.t("severity"), "严重程度");
}

#[test]
fn test_translate_en() {
    let i18n = I18n { lang: Lang::En };
    assert_eq!(i18n.t("package"), "Package");
    assert_eq!(i18n.t("severity"), "Severity");
}

#[test]
fn test_unknown_key_is_returned() {
    let i18n = I18n { lang: Lang::Zh };
    assert_eq!(i18n.t("no_such_key"), "no_such_key");
}

#[test]
fn test_detect_cli_lang() {
    let i18n = I18n::detect_from(Some("zh"), None, "");
    assert_eq!(i18n.lang, Lang::Zh);
}

#[test]
fn test_detect_default_en() {
    let i18n = I18n::detect_from(None, None, "");
    assert_eq!(i18n.lang, Lang::En);
}

#[test]
fn test_detect_order() {
    assert_eq!(I18n::detect_from(Some("English"), Some("zh"), "zh_CN.UTF-8").lang, Lang::En);
    assert_eq!(I18n::detect_from(Some("fr"), Some("Chinese"), "").lang, Lang::Zh);
    assert_eq!(I18n::detect_from(None, Some("xx"), "zh_CN.UTF-8").lang, Lang::Zh);
    assert_eq!(I18n::detect_from(None, None, "en_US.UTF-8").lang, Lang::En);
}
