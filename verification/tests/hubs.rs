use soshalthing_yew::article_actions::{Action, ActionEffect, ArticleActionsAgent, ServiceActions};
use soshalthing_yew::containers::Container;
use soshalthing_yew::display::DisplayMode;
use soshalthing_yew::modals::{ModalAgent, ModalRequest, ModalType};
use soshalthing_yew::model::{Model, ModelMsg};
use soshalthing_yew::notifications::{Notification, NotificationAgent, NotificationRequest};
use soshalthing_yew::settings::agent::{Request as SettingsRequest, Response as SettingsResponse};
use soshalthing_yew::settings::component::{SettingsModal, SettingsModalMsg, SettingsModalOutput};
use soshalthing_yew::settings::{AppSettings, ChangeSettingMsg, OnMediaClick};

#[test]
fn notifications_show_and_dismiss() {
    let mut n = NotificationAgent::new();
    assert_eq!(n.handle_input(NotificationRequest::Notify(Some("k".to_string()), Notification::Generic("hi".to_string())), 1), None);
    assert_eq!(n.handle_input(NotificationRequest::RegisterTimelineContainer, 9), None);
    assert_eq!(n.handle_input(NotificationRequest::Notify(None, Notification::Login("Twitter".to_string(), "/login".to_string())), 1), Some(9));
    assert!(n.notifications.get("Generated0").is_some());
    assert_eq!(n.notifications.len(), 2);
    assert_eq!(n.delete("k"), Some(9));
    assert!(n.notifications.get("k").is_none());
    assert_eq!(n.notifications.len(), 1);
}

#[test]
fn modal_opens_for_its_component() {
    let mut m = ModalAgent::new();
    assert_eq!(m.handle_input(ModalRequest::Register(ModalType::BatchAction), 4), None);
    assert_eq!(m.handle_input(ModalRequest::ActivateModal(ModalType::BatchAction), 1), Some((4, ModalType::BatchAction)));
    assert_eq!(m.handle_input(ModalRequest::Register(ModalType::BatchAction), 5), None);
    assert_eq!(m.handle_input(ModalRequest::ActivateModal(ModalType::BatchAction), 1), Some((5, ModalType::BatchAction)));
    m.disconnected(4);
    assert_eq!(m.handle_input(ModalRequest::ActivateModal(ModalType::BatchAction), 1), Some((5, ModalType::BatchAction)));
}

#[test]
fn actions_and_their_labels() {
    assert_eq!(Action::iter().len(), 7);
    assert_eq!(Action::MarkAsRead.to_string(), "Mark As Read");
    assert_eq!(Action::FetchData.to_string(), "Fetch Data");
    assert_eq!(Action::LogJsonData.to_string(), "LogJsonData");
}

#[test]
fn action_effects() {
    let mut a = ArticleActionsAgent::new();
    a.init("Pixiv".to_string(), ServiceActions { like: false, repost: false, fetch_data: true });
    assert_eq!(a.effect(Action::FetchData, "Pixiv", false, false), ActionEffect::AskService(Action::FetchData));
    assert_eq!(a.effect(Action::Like, "Pixiv", false, false), ActionEffect::Unhandled);
    assert_eq!(a.effect(Action::Like, "Twitter", false, false), ActionEffect::Unhandled);
    assert_eq!(a.effect(Action::MarkAsRead, "Twitter", true, false), ActionEffect::SetMarkedAsRead(false));
    assert_eq!(a.effect(Action::Hide, "Twitter", true, false), ActionEffect::SetHidden(true));
    a.connected(1);
    a.connected(2);
    a.connected(1);
    a.disconnected(1);
    assert_eq!(a.subscribers, vec![2]);
}

#[test]
fn settings_dialog_edits_the_viewer_mode() {
    let mut d = SettingsModal::new(DisplayMode::Default);
    let (redraw, out) = d.update(SettingsModalMsg::ChangeContainer(Container::Row));
    assert!(redraw);
    assert_eq!(out, SettingsModalOutput::ToHub(SettingsRequest::UpdateFavViewer(DisplayMode::Default)));
    let (_, out) = d.update(SettingsModalMsg::ToggleFavViewerSettings);
    let single = DisplayMode::Single { container: Container::Masonry, column_count: 3 };
    assert_eq!(out, SettingsModalOutput::ToHub(SettingsRequest::UpdateFavViewer(single)));
    d.update(SettingsModalMsg::ChangeColumnCount(5));
    assert_eq!(d.favviewer_settings, DisplayMode::Single { container: Container::Masonry, column_count: 5 });
    d.update(SettingsModalMsg::SettingsResponse(SettingsResponse::ShowModal));
    assert!(d.enabled);
    let (redraw, out) = d.update(SettingsModalMsg::ChangeSetting(ChangeSettingMsg::KeepColumnCount(false)));
    assert!(!redraw);
    assert_eq!(out, SettingsModalOutput::ChangeSetting(ChangeSettingMsg::KeepColumnCount(false)));
}

#[test]
fn model_starts_and_toggles() {
    let mut m = Model::create(None, None, Some("true"), Some(Container::Column), Some("2"), false);
    assert_eq!(m.display_mode, DisplayMode::Single { container: Container::Column, column_count: 2 });
    assert_eq!(m.last_display_single, m.display_mode);
    assert_eq!(m.app_settings, AppSettings::initial());
    let s = m.update(ModelMsg::ToggleDisplayMode);
    assert!(s.redraw);
    assert_eq!(m.display_mode, DisplayMode::Default);
    m.update(ModelMsg::ToggleDisplayMode);
    assert_eq!(m.display_mode, DisplayMode::Single { container: Container::Column, column_count: 2 });
    let s = m.update(ModelMsg::ToggleFavViewer);
    assert!(!s.redraw && !s.toggle_page);
    m.update(ModelMsg::ChangeSetting(ChangeSettingMsg::OnMediaClick(OnMediaClick::Like)));
    assert_eq!(m.app_settings.on_media_click, OnMediaClick::Like);
    m.update(ModelMsg::SetMainColumnCount(9));
    assert_eq!(m.display_mode, DisplayMode::Single { container: Container::Column, column_count: 9 });
    let mut d = Model::create(None, None, None, None, None, true);
    assert_eq!(d.display_mode, DisplayMode::Default);
    assert!(!d.update(ModelMsg::SetMainContainer(Container::Row)).redraw);
    assert!(d.update(ModelMsg::ToggleFavViewer).toggle_page);
}
