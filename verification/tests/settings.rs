use soshalthing_yew::display::DisplayMode;
use soshalthing_yew::containers::Container;
use soshalthing_yew::settings::{AppSettings, AppSettingsOverride, ArticleFilteredMode, ChangeSettingMsg, OnMediaClick};
use soshalthing_yew::settings::agent::{Request, Response, SettingsAgent};

fn base() -> AppSettings {
    AppSettings {
        on_media_click: OnMediaClick::MarkAsRead,
        article_filtered_mode: ArticleFilteredMode::Hidden,
        keep_column_count: true,
    }
}

#[test]
fn override_settings_takes_each_set_field() {
    let o = AppSettingsOverride {
        on_media_click: Some(OnMediaClick::Like),
        article_filtered_mode: None,
        keep_column_count: Some(false),
    };
    let r = base().override_settings(&o);
    assert_eq!(r.on_media_click, OnMediaClick::Like);
    assert_eq!(r.article_filtered_mode, ArticleFilteredMode::Hidden);
    assert_eq!(r.keep_column_count, false);
}

#[test]
fn empty_override_keeps_the_settings() {
    let r = base().override_settings(&AppSettingsOverride::default());
    assert_eq!(r, base());
}

#[test]
fn full_override_replaces_the_settings() {
    let t = AppSettings {
        on_media_click: OnMediaClick::Nothing,
        article_filtered_mode: ArticleFilteredMode::Transparent,
        keep_column_count: false,
    };
    let o = AppSettingsOverride {
        on_media_click: Some(t.on_media_click),
        article_filtered_mode: Some(t.article_filtered_mode),
        keep_column_count: Some(t.keep_column_count),
    };
    assert_eq!(base().override_settings(&o), t);
}

#[test]
fn overriding_twice_is_overriding_once() {
    let o = AppSettingsOverride { on_media_click: Some(OnMediaClick::Hide), article_filtered_mode: None, keep_column_count: None };
    let once = base().override_settings(&o);
    assert_eq!(once.override_settings(&o), once);
}

#[test]
fn change_sets_one_setting() {
    let mut s = base();
    s.change(ChangeSettingMsg::ArticleFilteredMode(ArticleFilteredMode::Minimized));
    assert_eq!(s.article_filtered_mode, ArticleFilteredMode::Minimized);
    assert_eq!(s.on_media_click, OnMediaClick::MarkAsRead);
    assert_eq!(s.keep_column_count, true);
    s.change(ChangeSettingMsg::KeepColumnCount(false));
    assert_eq!(s.keep_column_count, false);
    s.change(ChangeSettingMsg::OnMediaClick(OnMediaClick::Expand));
    assert_eq!(s.on_media_click, OnMediaClick::Expand);
}

#[test]
fn initial_settings() {
    assert_eq!(AppSettings::initial(), base());
}

#[test]
fn on_media_click_iter_lists_every_choice_in_order() {
    assert_eq!(
        OnMediaClick::iter(),
        vec![OnMediaClick::Like, OnMediaClick::Expand, OnMediaClick::MarkAsRead, OnMediaClick::Hide, OnMediaClick::Nothing]
    );
}

#[test]
fn article_filtered_mode_iter_lists_every_mode_in_order() {
    assert_eq!(
        ArticleFilteredMode::iter(),
        vec![ArticleFilteredMode::Visible, ArticleFilteredMode::Hidden, ArticleFilteredMode::Minimized, ArticleFilteredMode::Transparent]
    );
}

#[test]
fn labels() {
    assert_eq!(OnMediaClick::MarkAsRead.to_string(), "Mark As Read");
    assert_eq!(OnMediaClick::Like.to_string(), "Like");
    assert_eq!(OnMediaClick::Nothing.to_string(), "Nothing");
    assert_eq!(ArticleFilteredMode::Transparent.to_string(), "Transparent");
    assert_eq!(ArticleFilteredMode::Minimized.to_string(), "Minimized");
}

#[test]
fn settings_hub_answers_the_registered_components() {
    let mut hub = SettingsAgent::new();
    let step = hub.handle_input(Request::ChangeOnMediaClick(OnMediaClick::Hide), 1);
    assert!(step.respond.is_none());
    let step = hub.handle_input(Request::RegisterModel, 7);
    assert!(step.respond.is_none());
    let step = hub.handle_input(Request::ChangeOnMediaClick(OnMediaClick::Hide), 1);
    assert_eq!(step.respond, Some((7, Response::ChangeOnMediaClick(OnMediaClick::Hide))));
    let step = hub.handle_input(Request::ChangeSocialFilteredMode(ArticleFilteredMode::Visible), 1);
    assert_eq!(step.respond, Some((7, Response::ChangeSocialFilteredMode(ArticleFilteredMode::Visible))));
}

#[test]
fn settings_hub_tells_a_late_modal_the_viewer_mode() {
    let mut hub = SettingsAgent::new();
    let mode = DisplayMode::Single { container: Container::Row, column_count: 2 };
    let step = hub.handle_input(Request::UpdateFavViewer(mode), 3);
    assert_eq!(step.store_favviewer, Some(mode));
    assert!(step.respond.is_none());
    let step = hub.handle_input(Request::RegisterModal, 4);
    assert_eq!(step.respond, Some((4, Response::UpdateFavViewerSettings(mode))));
    let step = hub.handle_input(Request::ShowModal, 9);
    assert_eq!(step.respond, Some((4, Response::ShowModal)));
    hub.disconnected(4);
    assert_eq!(hub.modal, None);
    let step = hub.handle_input(Request::ShowModal, 9);
    assert!(step.respond.is_none());
}

#[test]
fn settings_hub_init_does_not_store() {
    let mut hub = SettingsAgent::new();
    let step = hub.handle_input(Request::InitFavViewerSettings(DisplayMode::Default), 1);
    assert!(step.store_favviewer.is_none());
    assert_eq!(hub.favviewer_settings, Some(DisplayMode::Default));
    hub.handle_input(Request::RegisterSidebar, 5);
    assert_eq!(hub.sidebar, Some(5));
    hub.disconnected(5);
    assert_eq!(hub.sidebar, None);
}
