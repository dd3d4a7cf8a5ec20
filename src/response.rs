//! The style records served by the catalog, and the rendering of a style's CSS.

use vstd::prelude::*;
use crate::render::{substitute, substitute_placeholders};
use crate::settings_map::{SettingsMap, entries_map, entry_key, keys_distinct, lemma_entries_map_push};

verus! {

/// A userstyle as the catalog describes it.
///
/// It is served at `https://userstyles.org/api/v1/styles/{id}`.
#[derive(PartialEq, Debug, Clone)]
pub struct Style {
    /// id of the style, part of its `userstyles.org` url
    pub id: i32,
    /// Name of the style
    pub name: String,
    /// Summary of what the style does
    pub description: String,
    /// User that created the style
    pub user: User,
    /// Last update time
    pub updated: String,
    /// Installs in this week
    pub weekly_install_count: i32,
    /// Total install count
    pub total_install_count: i32,
    /// Rating of this style from 1 to 3, as the bit pattern of a 32-bit
    /// IEEE 754 number
    pub rating_bits: Option<u32>,
    /// File name of the thumbnail
    pub after_screenshot_name: Option<String>,
    /// id of a newer version of this style
    pub obsoleting_style_id: Option<i32>,
    /// Name of the replacing style
    pub obsoleting_style_name: Option<String>,
    /// Whether the style has been discontinued
    pub obsolete: u8,
    /// Reason why an admin removed the style
    pub admin_delete_reason: Option<String>,
    /// Reason why the style has been obsoleted
    pub obsoletion_message: Option<String>,
    /// Screenshot file names of this style
    pub screenshots: Option<Vec<String>>,
    /// License the style is published under
    pub license: Option<String>,
    /// Creation time
    pub created: String,
    /// Category this style falls in
    pub category: String,
    /// Subcategory or domain name
    pub subcategory: Option<String>,
    /// Pledgie id, mostly unused
    pub pledgie_id: Option<i32>,
    /// Additional information about this style
    pub additional_info: Option<String>,
    /// The style's CSS, with placeholders `/*[[key]]*/`
    pub css: String,
    /// Comments on this style
    pub discussions: Vec<Discussion>,
    /// JavaScript file name of this style
    pub userjs_url: Option<String>,
    /// Available settings
    pub style_settings: Vec<StyleSetting>,
}

/// A `userstyles.org` user.
#[derive(PartialEq, Debug, Clone)]
pub struct User {
    /// id of the user
    pub id: i32,
    /// Username
    pub name: String,
    /// Email address
    pub email: Option<String>,
    /// Paypal email
    pub paypal_email: Option<String>,
    /// Homepage
    pub homepage: Option<String>,
    /// Bio of the user
    pub about: Option<String>,
    /// Default license
    pub license: Option<String>,
}

/// A single comment on a userstyle.
#[derive(PartialEq, Debug, Clone)]
pub struct Discussion {
    /// Comment id
    pub id: i32,
    /// Comment text
    pub name: String,
    /// Rating, 0, 1, 2 or 3; 0 means that no rating was given
    pub rating: i32,
    /// Creation date of this comment
    pub created: String,
    /// Username of the comment's author
    pub author_name: String,
    /// User id of the comment's author
    pub author_id: i32,
}

/// A setting that a userstyle offers.
#[derive(PartialEq, Debug, Clone)]
pub struct StyleSetting {
    /// id of this setting
    pub id: i32,
    /// id of the style this setting belongs to
    pub style_id: i32,
    /// Key of the setting's placeholder and of its value in a settings map
    pub install_key: String,
    /// Human-readable name of this setting
    pub label: String,
    /// The kind of this setting: `color`, `image`, `text` or `dropdown`
    pub setting_type: String,
    /// The available options, among them the default
    pub style_setting_options: Vec<StyleSettingOption>,
}

/// One option of a setting.
#[derive(PartialEq, Debug, Clone)]
pub struct StyleSettingOption {
    /// id of this option
    pub id: i32,
    /// id of the setting this option belongs to
    pub style_setting_id: i32,
    /// Human-readable name of this option
    pub label: String,
    /// Text that replaces the placeholder
    pub value: String,
    /// Whether this is the default option
    pub default: bool,
    /// Position of this option when the options are listed
    pub ordinal: i32,
    /// Key of this option in a request body
    pub install_key: String,
}

/// The value of the first option flagged default, if any.
pub open spec fn option_default(options: Seq<StyleSettingOption>) -> Option<Seq<char>>
    decreases options.len(),
{
    if options.len() == 0 {
        None
    } else if options[0].default {
        Some(options[0].value@)
    } else {
        option_default(options.skip(1))
    }
}

/// The default value of each setting that has one, by install key. Where two
/// settings share a key, the later one counts.
pub open spec fn defaults_of(settings: Seq<StyleSetting>) -> Map<Seq<char>, Seq<char>>
    decreases settings.len(),
{
    if settings.len() == 0 {
        Map::empty()
    } else {
        let earlier = defaults_of(settings.drop_last());
        let last = settings.last();
        match option_default(last.style_setting_options@) {
            Some(v) => earlier.insert(last.install_key@, v),
            None => earlier,
        }
    }
}

/// The keys of `defaults`, each with its override if `overrides` has one and
/// with its default otherwise. Keys of `overrides` alone are left out.
pub open spec fn with_overrides(
    defaults: Map<Seq<char>, Seq<char>>,
    overrides: Map<Seq<char>, Seq<char>>,
) -> Map<Seq<char>, Seq<char>> {
    Map::new(
        |k: Seq<char>| defaults.contains_key(k),
        |k: Seq<char>|
            if overrides.contains_key(k) {
                overrides[k]
            } else {
                defaults[k]
            },
    )
}

/// The overrides that an optional settings map stands for; none stands for
/// an empty map.
pub open spec fn overrides_view(settings: Option<SettingsMap>) -> Map<Seq<char>, Seq<char>> {
    match settings {
        Some(m) => m@,
        None => Map::empty(),
    }
}

/// The CSS of `style` with each setting's placeholder replaced by the
/// setting's value in `overrides`, or else by its default.
pub open spec fn rendered_css(style: Style, overrides: Map<Seq<char>, Seq<char>>) -> Seq<char> {
    substitute(with_overrides(defaults_of(style.style_settings@), overrides), style.css@)
}

impl Default for User {
    /// A user with id 0 and every text empty or absent.
    fn default() -> (r: User)
        ensures
            r.id == 0,
            r.name@.len() == 0,
            r.email is None,
            r.paypal_email is None,
            r.homepage is None,
            r.about is None,
            r.license is None,
    {
        User {
            id: 0,
            name: String::new(),
            email: None,
            paypal_email: None,
            homepage: None,
            about: None,
            license: None,
        }
    }
}

impl Default for StyleSettingOption {
    /// An option with every number 0, every text empty, not flagged default.
    fn default() -> (r: StyleSettingOption)
        ensures
            r.id == 0,
            r.style_setting_id == 0,
            r.label@.len() == 0,
            r.value@.len() == 0,
            !r.default,
            r.ordinal == 0,
            r.install_key@.len() == 0,
    {
        StyleSettingOption {
            id: 0,
            style_setting_id: 0,
            label: String::new(),
            value: String::new(),
            default: false,
            ordinal: 0,
            install_key: String::new(),
        }
    }
}

impl Default for StyleSetting {
    /// A setting with every number 0, every text empty and no options.
    fn default() -> (r: StyleSetting)
        ensures
            r.id == 0,
            r.style_id == 0,
            r.install_key@.len() == 0,
            r.label@.len() == 0,
            r.setting_type@.len() == 0,
            r.style_setting_options@.len() == 0,
    {
        StyleSetting {
            id: 0,
            style_id: 0,
            install_key: String::new(),
            label: String::new(),
            setting_type: String::new(),
            style_setting_options: Vec::new(),
        }
    }
}

impl Default for Style {
    /// A style with every number 0, every text empty or absent, an empty
    /// CSS and no settings, discussions or screenshots.
    fn default() -> (r: Style)
        ensures
            r.id == 0,
            r.name@.len() == 0,
            r.description@.len() == 0,
            r.user.id == 0,
            r.user.name@.len() == 0,
            r.user.email is None,
            r.user.paypal_email is None,
            r.user.homepage is None,
            r.user.about is None,
            r.user.license is None,
            r.updated@.len() == 0,
            r.weekly_install_count == 0,
            r.total_install_count == 0,
            r.rating_bits is None,
            r.after_screenshot_name is None,
            r.obsoleting_style_id is None,
            r.obsoleting_style_name is None,
            r.obsolete == 0,
            r.admin_delete_reason is None,
            r.obsoletion_message is None,
            r.screenshots is None,
            r.license is None,
            r.created@.len() == 0,
            r.category@.len() == 0,
            r.subcategory is None,
            r.pledgie_id is None,
            r.additional_info is None,
            r.css@.len() == 0,
            r.discussions@.len() == 0,
            r.userjs_url is None,
            r.style_settings@.len() == 0,
    {
        Style {
            id: 0,
            name: String::new(),
            description: String::new(),
            user: User::default(),
            updated: String::new(),
            weekly_install_count: 0,
            total_install_count: 0,
            rating_bits: None,
            after_screenshot_name: None,
            obsoleting_style_id: None,
            obsoleting_style_name: None,
            obsolete: 0,
            admin_delete_reason: None,
            obsoletion_message: None,
            screenshots: None,
            license: None,
            created: String::new(),
            category: String::new(),
            subcategory: None,
            pledgie_id: None,
            additional_info: None,
            css: String::new(),
            discussions: Vec::new(),
            userjs_url: None,
            style_settings: Vec::new(),
        }
    }
}

impl StyleSetting {
    /// The value of the first option flagged default, if any.
    pub fn default_value(&self) -> (r: Option<&String>)
        ensures
            match r {
                Some(v) => option_default(self.style_setting_options@) == Some(v@),
                None => option_default(self.style_setting_options@) is None,
            },
    {
        let options = &self.style_setting_options;
        let mut i: usize = 0;
        assert(options@.skip(0) =~= options@);
        while i < options.len()
            invariant
                options@ == self.style_setting_options@,
                i <= options@.len(),
                option_default(options@) == option_default(options@.skip(i as int)),
            decreases options@.len() - i,
        {
            assert(options@.skip(i as int).len() > 0);
            assert(options@.skip(i as int)[0] == options@[i as int]);
            if options[i].default {
                return Some(&options[i].value);
            }
            assert(options@.skip(i as int).skip(1) =~= options@.skip(i + 1));
            i = i + 1;
        }
        None
    }
}

impl Style {
    /// The default value of each setting that has one, by install key.
    pub fn get_default_settings(&self) -> (r: SettingsMap)
        ensures
            r.wf(),
            r@ == defaults_of(self.style_settings@),
    {
        let settings = &self.style_settings;
        let mut map = SettingsMap::new();
        for i in 0..settings.len()
            invariant
                settings@ == self.style_settings@,
                map.wf(),
                map@ == defaults_of(settings@.take(i as int)),
        {
            let setting = &settings[i];
            match setting.default_value() {
                Some(v) => {
                    map.insert(setting.install_key.clone(), v.clone());
                },
                None => {},
            }
            assert(settings@.take(i + 1).drop_last() =~= settings@.take(i as int));
        }
        assert(settings@.take(settings@.len() as int) =~= settings@);
        map
    }

    /// The CSS of this style with each setting's placeholder replaced by the
    /// setting's value in `settings`, or else by its default. Keys of
    /// `settings` that no setting has are ignored; no settings map stands for
    /// an empty one.
    pub fn get_css(&self, settings: Option<SettingsMap>) -> (r: String)
        requires
            settings matches Some(m) ==> m.wf(),
        ensures
            r@ == rendered_css(*self, overrides_view(settings)),
    {
        let ghost o = overrides_view(settings);
        let settings = match settings {
            Some(m) => m,
            None => SettingsMap::new(),
        };
        let defaults = self.get_default_settings();
        let entries = defaults.as_entries();
        proof {
            defaults.lemma_view();
        }
        let mut values = SettingsMap::new();
        for j in 0..entries.len()
            invariant
                settings.wf(),
                settings@ == o,
                entries@ == defaults.entries(),
                keys_distinct(entries@),
                values.wf(),
                values@ == with_overrides(entries_map(entries@.take(j as int)), o),
        {
            let key = &entries[j].0;
            let value = match settings.get(key) {
                Some(v) => v.clone(),
                None => entries[j].1.clone(),
            };
            values.insert(key.clone(), value);
            proof {
                let p = entries@.take(j as int);
                let q = p.push(entries@[j as int]);
                assert(entries@.take(j + 1) == q);
                assert(keys_distinct(q)) by {
                    assert forall|a: int, b: int|
                        0 <= a < q.len() && 0 <= b < q.len() && a != b implies #[trigger] entry_key(
                        q,
                        a,
                    ) != #[trigger] entry_key(q, b) by {
                        assert(entry_key(entries@, a) != entry_key(entries@, b));
                    }
                }
                lemma_entries_map_push(p, entries@[j as int]);
                assert(values@ =~= with_overrides(entries_map(entries@.take(j + 1)), o));
            }
        }
        assert(entries@.take(entries@.len() as int) =~= entries@);
        substitute_placeholders(&self.css, &values)
    }
}

} // verus!
