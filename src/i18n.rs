use vstd::prelude::*;

use crate::text::{has_prefix, starts_with, text_eq};

verus! {

/// Languages the user interface can speak.
#[derive(Clone, Copy, Debug, PartialEq, Eq, Structural)]
pub enum Lang {
    En,
    Zh,
}

/// What `str::to_lowercase` makes of a string.
pub uninterp spec fn lowercase_of(s: Seq<char>) -> Seq<char>;

/// Relies on `str::to_lowercase`: Unicode lower-case mapping, which depends
/// on the characters of the input alone.
#[verifier::external_body]
fn to_lower(s: &str) -> (r: String)
    ensures
        r@ == lowercase_of(s@),
{
    s.to_lowercase()
}

/// The language that a lower-case language code names.
pub open spec fn lang_of_code(code: Seq<char>) -> Option<Lang> {
    if code == "en"@ || code == "english"@ {
        Some(Lang::En)
    } else if code == "zh"@ || code == "cn"@ || code == "chinese"@ || code == "中文"@ {
        Some(Lang::Zh)
    } else {
        None
    }
}

/// Pick the text of the given language.
pub fn t<'a>(lang: Lang, en: &'a str, zh: &'a str) -> (r: &'a str)
    ensures
        r == (match lang {
            Lang::En => en,
            Lang::Zh => zh,
        }),
{
    match lang {
        Lang::En => en,
        Lang::Zh => zh,
    }
}

/// Read an already lower-cased language code.
pub fn parse_lang_lowered(code: &str) -> (r: Option<Lang>)
    ensures
        r == lang_of_code(code@),
{
    if text_eq(code, "en") || text_eq(code, "english") {
        Some(Lang::En)
    } else if text_eq(code, "zh") || text_eq(code, "cn") || text_eq(code, "chinese") || text_eq(
        code,
        "中文",
    ) {
        Some(Lang::Zh)
    } else {
        None
    }
}

/// Read a language code in any letter case.
pub fn parse_lang(s: &str) -> (r: Option<Lang>)
    ensures
        r == lang_of_code(lowercase_of(s@)),
{
    let lower = to_lower(s);
    parse_lang_lowered(lower.as_str())
}

/// The view of an optional string.
pub open spec fn opt_view(o: Option<&str>) -> Option<Seq<char>> {
    match o {
        Some(s) => Some(s@),
        None => None,
    }
}

/// The language an optional setting names, in any letter case.
pub open spec fn setting_lang(o: Option<Seq<char>>) -> Option<Lang> {
    match o {
        Some(s) => lang_of_code(lowercase_of(s)),
        None => None,
    }
}

/// The language in force: a command-line flag naming a language wins, then
/// the environment's language setting, then the stored preference, then a
/// system locale starting with `zh` (any case) for Chinese; English otherwise.
pub open spec fn resolved_lang(
    cli: Option<Seq<char>>,
    env: Option<Seq<char>>,
    stored: Option<Seq<char>>,
    locale: Option<Seq<char>>,
) -> Lang {
    if setting_lang(cli) is Some {
        setting_lang(cli).unwrap()
    } else if setting_lang(env) is Some {
        setting_lang(env).unwrap()
    } else if setting_lang(stored) is Some {
        setting_lang(stored).unwrap()
    } else if locale matches Some(l) && starts_with(lowercase_of(l), "zh"@) {
        Lang::Zh
    } else {
        Lang::En
    }
}

fn setting(o: Option<&str>) -> (r: Option<Lang>)
    ensures
        r == setting_lang(opt_view(o)),
{
    match o {
        Some(s) => parse_lang(s),
        None => None,
    }
}

/// Decide the interface language once, at start-up, from the command-line
/// flag, the environment's language setting, the stored preference and the
/// system locale (each absent when not given).
pub fn init_lang(
    cli_flag: Option<&str>,
    env_lang: Option<&str>,
    config_lang: Option<&str>,
    locale: Option<&str>,
) -> (r: Lang)
    ensures
        r == resolved_lang(
            opt_view(cli_flag),
            opt_view(env_lang),
            opt_view(config_lang),
            opt_view(locale),
        ),
{
    if let Some(l) = setting(cli_flag) {
        return l;
    }
    if let Some(l) = setting(env_lang) {
        return l;
    }
    if let Some(l) = setting(config_lang) {
        return l;
    }
    if let Some(loc) = locale {
        let lower = to_lower(loc);
        if has_prefix(lower.as_str(), "zh") {
            return Lang::Zh;
        }
    }
    Lang::En
}

/// The language in force, given the one decided at start-up if any;
/// English when none was decided.
pub fn lang(decided: Option<Lang>) -> (r: Lang)
    ensures
        r == (match decided {
            Some(l) => l,
            None => Lang::En,
        }),
{
    match decided {
        Some(l) => l,
        None => Lang::En,
    }
}

} // verus!
