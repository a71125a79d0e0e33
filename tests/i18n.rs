use opentunnel::i18n::{init_lang, parse_lang, parse_lang_lowered, t, Lang};

#[test]
fn parse_known_languages() {
    assert_eq!(parse_lang("en"), Some(Lang::En));
    assert_eq!(parse_lang("zh"), Some(Lang::Zh));
    assert_eq!(parse_lang("cn"), Some(Lang::Zh));
    assert_eq!(parse_lang("English"), Some(Lang::En));
    assert_eq!(parse_lang("中文"), Some(Lang::Zh));
    assert_eq!(parse_lang("fr"), None);
}

#[test]
fn t_macro_selects_correctly() {
    assert_eq!(t(Lang::En, "Hello", "你好"), "Hello");
    assert_eq!(t(Lang::Zh, "Hello", "你好"), "你好");
}

#[test]
fn parse_lang_ignores_letter_case() {
    assert_eq!(parse_lang("EN"), Some(Lang::En));
    assert_eq!(parse_lang("ChInEsE"), Some(Lang::Zh));
    assert_eq!(parse_lang_lowered("EN"), None);
    assert_eq!(parse_lang_lowered("cn"), Some(Lang::Zh));
    assert_eq!(parse_lang(""), None);
}

#[test]
fn cli_flag_wins_over_everything() {
    let l = init_lang(Some("zh"), Some("en"), Some("en"), Some("en_US.UTF-8"));
    assert_eq!(l, Lang::Zh);
}

#[test]
fn unknown_flag_falls_through_to_environment() {
    let l = init_lang(Some("fr"), Some("ZH"), Some("en"), None);
    assert_eq!(l, Lang::Zh);
}

#[test]
fn stored_preference_before_locale() {
    let l = init_lang(None, None, Some("english"), Some("zh_CN.UTF-8"));
    assert_eq!(l, Lang::En);
}

#[test]
fn chinese_locale_selects_chinese() {
    assert_eq!(init_lang(None, None, None, Some("ZH_cn.UTF-8")), Lang::Zh);
    assert_eq!(init_lang(None, None, None, Some("de_DE.UTF-8")), Lang::En);
    assert_eq!(init_lang(None, None, None, None), Lang::En);
}
