#![allow(non_snake_case)]

use userstyles::response::{Style, StyleSetting, StyleSettingOption};
use userstyles::settings_map::SettingsMap;

fn setting(key: &str, options: Vec<StyleSettingOption>) -> StyleSetting {
    let mut setting = StyleSetting::default();
    setting.install_key = String::from(key);
    setting.style_setting_options = options;
    setting
}

fn option(value: &str, default: bool) -> StyleSettingOption {
    let mut option = StyleSettingOption::default();
    option.value = String::from(value);
    option.default = default;
    option
}

fn style(css: &str, settings: Vec<StyleSetting>) -> Style {
    let mut style = Style::default();
    style.css = String::from(css);
    style.style_settings = settings;
    style
}

#[test]
fn with_no_settings__is_correct_css() {
    let mut style = Style::default();
    style.css = String::from("foobar");

    let response = style.get_css(None);

    assert_eq!(response, "foobar");
}

#[test]
fn with_settings__is_correct_css() {
    let mut option = StyleSettingOption::default();
    option.default = true;
    let mut settings = StyleSetting::default();
    settings.install_key = String::from("bar");
    settings.style_setting_options = vec![option];
    let mut style = Style::default();
    style.css = String::from("foo/*[[bar]]*/");
    style.style_settings = vec![settings];
    let mut map = SettingsMap::new();
    map.insert(String::from("bar"), String::from("bar"));

    let response = style.get_css(Some(map));

    assert_eq!(response, "foobar");
}

#[test]
fn default_used_without_override() {
    let style = style("foo/*[[bar]]*/", vec![setting("bar", vec![option("bar", true)])]);
    assert_eq!(style.get_css(None), "foobar");
}

#[test]
fn no_settings_ignore_overrides() {
    let style = style("a/*[[x]]*/b", vec![]);
    let mut map = SettingsMap::new();
    map.insert(String::from("x"), String::from("y"));
    assert_eq!(style.get_css(Some(map)), "a/*[[x]]*/b");
}

#[test]
fn default_replaces_every_occurrence() {
    let style = style(
        "a{color:/*[[C]]*/}b{border-color:/*[[C]]*/}",
        vec![setting("C", vec![option("#000", false), option("#fff", true)])],
    );
    assert_eq!(style.get_css(None), "a{color:#fff}b{border-color:#fff}");
}

#[test]
fn override_takes_precedence() {
    let style = style(
        "x{color:/*[[ACCENTCOLOR]]*/}",
        vec![setting("ACCENTCOLOR", vec![option("#111111", true)])],
    );
    let mut map = SettingsMap::new();
    map.insert(String::from("ACCENTCOLOR"), String::from("#f00ba2"));
    let css = style.get_css(Some(map));
    assert_eq!(css, "x{color:#f00ba2}");
    assert!(!css.contains("#111111"));
}

#[test]
fn unknown_override_key_is_ignored() {
    let style = style("p/*[[k]]*/q", vec![setting("k", vec![option("v", true)])]);
    let mut map = SettingsMap::new();
    map.insert(String::from("other"), String::from("zzz"));
    assert_eq!(style.get_css(Some(map)), style.get_css(None));
    assert_eq!(style.get_css(None), "pvq");
}

#[test]
fn setting_without_default_keeps_placeholder() {
    let style = style("a/*[[k]]*/b", vec![setting("k", vec![option("v", false)])]);
    assert_eq!(style.get_css(None), "a/*[[k]]*/b");
}

#[test]
fn override_without_default_keeps_placeholder() {
    let style = style("a/*[[k]]*/b", vec![setting("k", vec![option("v", false)])]);
    let mut map = SettingsMap::new();
    map.insert(String::from("k"), String::from("w"));
    assert_eq!(style.get_css(Some(map)), "a/*[[k]]*/b");
}

#[test]
fn first_default_option_wins() {
    let style = style(
        "/*[[k]]*/",
        vec![setting("k", vec![option("one", true), option("two", true)])],
    );
    assert_eq!(style.get_css(None), "one");
}

#[test]
fn later_setting_with_same_key_wins() {
    let style = style(
        "/*[[k]]*/",
        vec![
            setting("k", vec![option("first", true)]),
            setting("k", vec![option("second", true)]),
        ],
    );
    assert_eq!(style.get_css(None), "second");
}

#[test]
fn replacement_is_not_scanned_again() {
    let style = style(
        "/*[[a]]*/|/*[[b]]*/",
        vec![
            setting("a", vec![option("/*[[b]]*/", true)]),
            setting("b", vec![option("B", true)]),
        ],
    );
    assert_eq!(style.get_css(None), "/*[[b]]*/|B");
}

#[test]
fn rendered_output_renders_unchanged() {
    let first = style("x/*[[k]]*/y", vec![setting("k", vec![option("v", true)])]);
    let out = first.get_css(None);
    let again = style(&out, vec![]);
    assert_eq!(again.get_css(None), out);
}

#[test]
fn longest_placeholder_is_taken() {
    let style = style(
        "/*[[a]]*/b]]*/",
        vec![
            setting("a", vec![option("SHORT", true)]),
            setting("a]]*/b", vec![option("LONG", true)]),
        ],
    );
    assert_eq!(style.get_css(None), "LONG");
}

#[test]
fn empty_css_stays_empty() {
    let style = style("", vec![setting("k", vec![option("v", true)])]);
    assert_eq!(style.get_css(None), "");
}

#[test]
fn non_ascii_text_is_kept() {
    let style = style("é/*[[k]]*/ü", vec![setting("k", vec![option("ß", true)])]);
    assert_eq!(style.get_css(None), "éßü");
}

#[test]
fn default_settings_map_holds_each_default() {
    let style = style(
        "",
        vec![
            setting("a", vec![option("1", false), option("2", true)]),
            setting("b", vec![option("3", false)]),
        ],
    );
    let defaults = style.get_default_settings();
    assert_eq!(defaults.get(&String::from("a")), Some(&String::from("2")));
    assert_eq!(defaults.get(&String::from("b")), None);
    assert_eq!(defaults.as_entries().len(), 1);
}

#[test]
fn default_value_of_setting() {
    let s = setting("a", vec![option("1", false), option("2", true), option("3", true)]);
    assert_eq!(s.default_value(), Some(&String::from("2")));
    let none = setting("b", vec![option("1", false)]);
    assert_eq!(none.default_value(), None);
}
