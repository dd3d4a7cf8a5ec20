//! What rendering a style's CSS guarantees, stated over the specifications of
//! `Style::get_css` and `Style::get_default_settings`.

use vstd::prelude::*;
use crate::render::{
    placeholder,
    replace_all,
    lemma_substitute_no_keys,
    lemma_substitute_one_key,
    lemma_substitute_placeholder_alone,
};
use crate::response::{Style, StyleSetting, StyleSettingOption, defaults_of, option_default, rendered_css, with_overrides};

verus! {

/// The value of an option flagged default with no default before it is the
/// options' default.
pub proof fn lemma_first_default_option(options: Seq<StyleSettingOption>, i: int)
    requires
        0 <= i < options.len(),
        options[i].default,
        forall|j: int| 0 <= j < i ==> !(#[trigger] options[j]).default,
    ensures
        option_default(options) == Some(options[i].value@),
    decreases i,
{
    if i > 0 {
        let rest = options.skip(1);
        assert forall|j: int| 0 <= j < i - 1 implies !(#[trigger] rest[j]).default by {
            assert(rest[j] == options[j + 1]);
        }
        lemma_first_default_option(rest, i - 1);
    }
}

/// A style without settings renders to its CSS unchanged, whatever the
/// overrides.
pub proof fn lemma_no_settings_keeps_css(style: Style, overrides: Map<Seq<char>, Seq<char>>)
    requires
        style.style_settings@.len() == 0,
    ensures
        rendered_css(style, overrides) == style.css@,
{
    let m = with_overrides(defaults_of(style.style_settings@), overrides);
    assert(m.dom() =~= Set::<Seq<char>>::empty());
    lemma_substitute_no_keys(m, style.css@);
}

/// A setting with exactly one option flagged default, and no later setting
/// under the same key, gives that option's value as the key's default.
pub proof fn lemma_single_default_resolved(settings: Seq<StyleSetting>, s: int, i: int)
    requires
        0 <= s < settings.len(),
        forall|t: int|
            s < t < settings.len() ==> (#[trigger] settings[t]).install_key@
                != settings[s].install_key@,
        0 <= i < settings[s].style_setting_options@.len(),
        settings[s].style_setting_options@[i].default,
        forall|j: int|
            0 <= j < settings[s].style_setting_options@.len() && j != i
                ==> !(#[trigger] settings[s].style_setting_options@[j]).default,
    ensures
        defaults_of(settings).contains_key(settings[s].install_key@),
        defaults_of(settings)[settings[s].install_key@] == settings[s].style_setting_options@[i].value@,
    decreases settings.len(),
{
    lemma_first_default_option(settings[s].style_setting_options@, i);
    if s < settings.len() - 1 {
        let earlier = settings.drop_last();
        assert forall|t: int| s < t < earlier.len() implies (#[trigger] earlier[t]).install_key@
            != earlier[s].install_key@ by {
            assert(earlier[t] == settings[t]);
        }
        lemma_single_default_resolved(earlier, s, i);
        assert(settings.last() == settings[settings.len() - 1]);
    }
}

/// A style whose one setting has exactly one option flagged default renders,
/// without overrides, to its CSS with every placeholder of that setting
/// replaced by the option's value.
pub proof fn lemma_single_default_substituted(style: Style, i: int)
    requires
        style.style_settings@.len() == 1,
        0 <= i < style.style_settings@[0].style_setting_options@.len(),
        style.style_settings@[0].style_setting_options@[i].default,
        forall|j: int|
            0 <= j < style.style_settings@[0].style_setting_options@.len() && j != i
                ==> !(#[trigger] style.style_settings@[0].style_setting_options@[j]).default,
    ensures
        rendered_css(style, Map::empty()) == replace_all(
            style.css@,
            placeholder(style.style_settings@[0].install_key@),
            style.style_settings@[0].style_setting_options@[i].value@,
        ),
{
    let settings = style.style_settings@;
    let k = settings[0].install_key@;
    let v = settings[0].style_setting_options@[i].value@;
    lemma_single_default_resolved(settings, 0, i);
    assert(settings.drop_last() =~= Seq::<StyleSetting>::empty());
    assert(defaults_of(settings.drop_last()) == Map::<Seq<char>, Seq<char>>::empty());
    lemma_first_default_option(settings[0].style_setting_options@, i);
    assert(settings.last() == settings[0]);
    assert(defaults_of(settings) == Map::<Seq<char>, Seq<char>>::empty().insert(k, v));
    let m = with_overrides(defaults_of(settings), Map::empty());
    assert(m =~= map![k => v]);
    lemma_substitute_one_key(k, v, style.css@);
}

/// Rendering the output again, as the CSS of a style without settings,
/// changes nothing.
pub proof fn lemma_rerender_is_identity(
    style: Style,
    overrides: Map<Seq<char>, Seq<char>>,
    again: Style,
)
    requires
        again.css@ == rendered_css(style, overrides),
        again.style_settings@.len() == 0,
    ensures
        rendered_css(again, Map::empty()) == rendered_css(style, overrides),
{
    lemma_no_settings_keeps_css(again, Map::empty());
}

/// An override of a key that has a default takes its place: the key's value
/// is the override, and CSS that is just the key's placeholder renders to it.
pub proof fn lemma_override_wins(style: Style, overrides: Map<Seq<char>, Seq<char>>, k: Seq<char>)
    requires
        defaults_of(style.style_settings@).contains_key(k),
        overrides.contains_key(k),
    ensures
        with_overrides(defaults_of(style.style_settings@), overrides)[k] == overrides[k],
        style.css@ == placeholder(k) ==> rendered_css(style, overrides) == overrides[k],
{
    let m = with_overrides(defaults_of(style.style_settings@), overrides);
    lemma_substitute_placeholder_alone(m, k);
}

/// An override of a key that no setting defaults changes nothing.
pub proof fn lemma_unknown_override_ignored(
    style: Style,
    overrides: Map<Seq<char>, Seq<char>>,
    k: Seq<char>,
    v: Seq<char>,
)
    requires
        !defaults_of(style.style_settings@).contains_key(k),
    ensures
        rendered_css(style, overrides.insert(k, v)) == rendered_css(style, overrides),
{
    let d = defaults_of(style.style_settings@);
    assert(with_overrides(d, overrides.insert(k, v)) =~= with_overrides(d, overrides));
}

/// Overrides of which no key has a default render as no overrides at all.
pub proof fn lemma_only_unknown_overrides(style: Style, overrides: Map<Seq<char>, Seq<char>>)
    requires
        forall|k: Seq<char>|
            #[trigger] overrides.contains_key(k) ==> !defaults_of(
                style.style_settings@,
            ).contains_key(k),
    ensures
        rendered_css(style, overrides) == rendered_css(style, Map::empty()),
{
    let d = defaults_of(style.style_settings@);
    assert(with_overrides(d, overrides) =~= with_overrides(d, Map::empty()));
}

} // verus!
