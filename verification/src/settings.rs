use vstd::prelude::*;

pub mod agent;
pub mod component;

verus! {

/// What a click on an article's media does.
#[derive(Clone, Copy, Debug, PartialEq, Eq, Structural)]
pub enum OnMediaClick {
    Like,
    Expand,
    MarkAsRead,
    Hide,
    Nothing,
}

/// How an article that the filters reject is shown.
#[derive(Clone, Copy, Debug, PartialEq, Eq, Structural)]
pub enum ArticleFilteredMode {
    Visible,
    Hidden,
    Transparent,
    Minimized,
}

/// The app's settings.
#[derive(Clone, Copy, Debug, PartialEq, Eq, Structural)]
pub struct AppSettings {
    pub on_media_click: OnMediaClick,
    pub article_filtered_mode: ArticleFilteredMode,
    pub keep_column_count: bool,
}

/// Settings that a timeline sets for itself; `None` keeps the app's.
#[derive(Clone, Copy, Debug, PartialEq, Eq, Structural)]
pub struct AppSettingsOverride {
    pub on_media_click: Option<OnMediaClick>,
    pub article_filtered_mode: Option<ArticleFilteredMode>,
    pub keep_column_count: Option<bool>,
}

/// A change to one setting.
#[derive(Clone, Copy, Debug, PartialEq, Eq, Structural)]
pub enum ChangeSettingMsg {
    OnMediaClick(OnMediaClick),
    ArticleFilteredMode(ArticleFilteredMode),
    KeepColumnCount(bool),
}

/// `o`'s value where it has one, else `d`.
pub open spec fn or_else<T>(o: Option<T>, d: T) -> T {
    match o {
        Some(v) => v,
        None => d,
    }
}

/// The settings that hold once `o` overrides `s`, field by field.
pub open spec fn overridden(s: AppSettings, o: AppSettingsOverride) -> AppSettings {
    AppSettings {
        on_media_click: or_else(o.on_media_click, s.on_media_click),
        article_filtered_mode: or_else(o.article_filtered_mode, s.article_filtered_mode),
        keep_column_count: or_else(o.keep_column_count, s.keep_column_count),
    }
}

/// The settings after `msg` changed its one setting.
pub open spec fn changed(s: AppSettings, msg: ChangeSettingMsg) -> AppSettings {
    match msg {
        ChangeSettingMsg::OnMediaClick(v) => AppSettings { on_media_click: v, ..s },
        ChangeSettingMsg::ArticleFilteredMode(v) => AppSettings { article_filtered_mode: v, ..s },
        ChangeSettingMsg::KeepColumnCount(v) => AppSettings { keep_column_count: v, ..s },
    }
}

/// The override that keeps every setting.
pub open spec fn empty_override() -> AppSettingsOverride {
    AppSettingsOverride { on_media_click: None, article_filtered_mode: None, keep_column_count: None }
}

/// The override that sets every setting to those of `s`.
pub open spec fn full_override(s: AppSettings) -> AppSettingsOverride {
    AppSettingsOverride {
        on_media_click: Some(s.on_media_click),
        article_filtered_mode: Some(s.article_filtered_mode),
        keep_column_count: Some(s.keep_column_count),
    }
}

/// The choices of what a media click does, in the order the settings list them.
pub open spec fn all_on_media_click() -> Seq<OnMediaClick> {
    seq![OnMediaClick::Like, OnMediaClick::Expand, OnMediaClick::MarkAsRead, OnMediaClick::Hide, OnMediaClick::Nothing]
}

/// The ways of showing a filtered article, in the order the settings list them.
pub open spec fn all_article_filtered_mode() -> Seq<ArticleFilteredMode> {
    seq![ArticleFilteredMode::Visible, ArticleFilteredMode::Hidden, ArticleFilteredMode::Minimized, ArticleFilteredMode::Transparent]
}

/// How a media-click choice is labelled.
pub open spec fn on_media_click_label(v: OnMediaClick) -> Seq<char> {
    match v {
        OnMediaClick::Like => "Like"@,
        OnMediaClick::Expand => "Expand"@,
        OnMediaClick::MarkAsRead => "Mark As Read"@,
        OnMediaClick::Hide => "Hide"@,
        OnMediaClick::Nothing => "Nothing"@,
    }
}

/// How a filtered-article mode is labelled.
pub open spec fn article_filtered_mode_label(v: ArticleFilteredMode) -> Seq<char> {
    match v {
        ArticleFilteredMode::Visible => "Visible"@,
        ArticleFilteredMode::Hidden => "Hidden"@,
        ArticleFilteredMode::Transparent => "Transparent"@,
        ArticleFilteredMode::Minimized => "Minimized"@,
    }
}

impl AppSettings {
    /// The settings a timeline uses: each one that `settings_override` sets,
    /// and the app's for the others.
    pub fn override_settings(&self, settings_override: &AppSettingsOverride) -> (r: Self)
        ensures
            r == overridden(*self, *settings_override),
    {
        AppSettings {
            on_media_click: match settings_override.on_media_click {
                Some(v) => v,
                None => self.on_media_click,
            },
            article_filtered_mode: match settings_override.article_filtered_mode {
                Some(v) => v,
                None => self.article_filtered_mode,
            },
            keep_column_count: match settings_override.keep_column_count {
                Some(v) => v,
                None => self.keep_column_count,
            },
        }
    }

    /// Applies a change of one setting.
    pub fn change(&mut self, msg: ChangeSettingMsg)
        ensures
            *final(self) == changed(*old(self), msg),
    {
        match msg {
            ChangeSettingMsg::OnMediaClick(v) => self.on_media_click = v,
            ChangeSettingMsg::ArticleFilteredMode(v) => self.article_filtered_mode = v,
            ChangeSettingMsg::KeepColumnCount(v) => self.keep_column_count = v,
        }
    }

    /// The settings the app starts with.
    pub open spec fn initial_spec() -> AppSettings {
        AppSettings {
            on_media_click: OnMediaClick::MarkAsRead,
            article_filtered_mode: ArticleFilteredMode::Hidden,
            keep_column_count: true,
        }
    }

    /// The settings the app starts with: a media click marks the article as
    /// read, filtered articles are hidden, and timelines keep their column count.
    pub fn initial() -> (r: Self)
        ensures
            r == Self::initial_spec(),
    {
        AppSettings {
            on_media_click: OnMediaClick::MarkAsRead,
            article_filtered_mode: ArticleFilteredMode::Hidden,
            keep_column_count: true,
        }
    }
}

impl Default for AppSettingsOverride {
    fn default() -> (r: Self)
        ensures
            r == empty_override(),
    {
        AppSettingsOverride { on_media_click: None, article_filtered_mode: None, keep_column_count: None }
    }
}

impl OnMediaClick {
    /// Every choice, once each, in the order the settings list them.
    pub fn iter() -> (r: Vec<OnMediaClick>)
        ensures
            r@ == all_on_media_click(),
    {
        let r = vec![OnMediaClick::Like, OnMediaClick::Expand, OnMediaClick::MarkAsRead, OnMediaClick::Hide, OnMediaClick::Nothing];
        assert(r@ =~= all_on_media_click());
        r
    }

    /// The choice's label.
    pub fn to_string(&self) -> (r: String)
        ensures
            r@ == on_media_click_label(*self),
    {
        match self {
            OnMediaClick::Like => String::from_str("Like"),
            OnMediaClick::Expand => String::from_str("Expand"),
            OnMediaClick::MarkAsRead => String::from_str("Mark As Read"),
            OnMediaClick::Hide => String::from_str("Hide"),
            OnMediaClick::Nothing => String::from_str("Nothing"),
        }
    }
}

impl ArticleFilteredMode {
    /// Every mode, once each, in the order the settings list them.
    pub fn iter() -> (r: Vec<ArticleFilteredMode>)
        ensures
            r@ == all_article_filtered_mode(),
    {
        let r = vec![ArticleFilteredMode::Visible, ArticleFilteredMode::Hidden, ArticleFilteredMode::Minimized, ArticleFilteredMode::Transparent];
        assert(r@ =~= all_article_filtered_mode());
        r
    }

    /// The mode's label.
    pub fn to_string(&self) -> (r: String)
        ensures
            r@ == article_filtered_mode_label(*self),
    {
        match self {
            ArticleFilteredMode::Visible => String::from_str("Visible"),
            ArticleFilteredMode::Hidden => String::from_str("Hidden"),
            ArticleFilteredMode::Transparent => String::from_str("Transparent"),
            ArticleFilteredMode::Minimized => String::from_str("Minimized"),
        }
    }
}

/// An override that sets nothing leaves the settings as they are.
pub proof fn empty_override_keeps_settings(s: AppSettings)
    ensures
        overridden(s, empty_override()) == s,
{
}

/// An override that sets everything replaces the settings whole.
pub proof fn full_override_replaces_settings(s: AppSettings, t: AppSettings)
    ensures
        overridden(s, full_override(t)) == t,
{
}

/// Overriding twice with the same override is overriding once.
pub proof fn overriding_is_idempotent(s: AppSettings, o: AppSettingsOverride)
    ensures
        overridden(overridden(s, o), o) == overridden(s, o),
{
}

/// A change sets its own setting and leaves the two others as they were.
pub proof fn change_touches_one_setting(s: AppSettings, msg: ChangeSettingMsg)
    ensures
        match msg {
            ChangeSettingMsg::OnMediaClick(v) => {
                &&& changed(s, msg).on_media_click == v
                &&& changed(s, msg).article_filtered_mode == s.article_filtered_mode
                &&& changed(s, msg).keep_column_count == s.keep_column_count
            },
            ChangeSettingMsg::ArticleFilteredMode(v) => {
                &&& changed(s, msg).article_filtered_mode == v
                &&& changed(s, msg).on_media_click == s.on_media_click
                &&& changed(s, msg).keep_column_count == s.keep_column_count
            },
            ChangeSettingMsg::KeepColumnCount(v) => {
                &&& changed(s, msg).keep_column_count == v
                &&& changed(s, msg).on_media_click == s.on_media_click
                &&& changed(s, msg).article_filtered_mode == s.article_filtered_mode
            },
        },
{
}

/// The listed choices are all the choices, each listed once.
pub proof fn choices_are_listed_once(v: OnMediaClick, w: ArticleFilteredMode)
    ensures
        all_on_media_click().contains(v),
        all_article_filtered_mode().contains(w),
        all_on_media_click().no_duplicates(),
        all_article_filtered_mode().no_duplicates(),
{
    let s = all_on_media_click();
    let t = all_article_filtered_mode();
    match v {
        OnMediaClick::Like => assert(s[0] == v),
        OnMediaClick::Expand => assert(s[1] == v),
        OnMediaClick::MarkAsRead => assert(s[2] == v),
        OnMediaClick::Hide => assert(s[3] == v),
        OnMediaClick::Nothing => assert(s[4] == v),
    }
    match w {
        ArticleFilteredMode::Visible => assert(t[0] == w),
        ArticleFilteredMode::Hidden => assert(t[1] == w),
        ArticleFilteredMode::Minimized => assert(t[2] == w),
        ArticleFilteredMode::Transparent => assert(t[3] == w),
    }
}

}
