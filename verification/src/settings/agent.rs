use vstd::prelude::*;
use crate::display::DisplayMode;
use crate::settings::{ArticleFilteredMode, OnMediaClick};

verus! {

/// What a component asks of the settings hub.
#[derive(Clone, Copy, Debug, PartialEq, Eq, Structural)]
pub enum Request {
    ShowModal,
    InitFavViewerSettings(DisplayMode),
    UpdateFavViewer(DisplayMode),
    RegisterModal,
    RegisterSidebar,
    RegisterModel,
    ChangeOnMediaClick(OnMediaClick),
    ChangeSocialFilteredMode(ArticleFilteredMode),
}

/// What the settings hub tells a component.
#[derive(Clone, Copy, Debug, PartialEq, Eq, Structural)]
pub enum Response {
    ShowModal,
    UpdateFavViewerSettings(DisplayMode),
    ChangeOnMediaClick(OnMediaClick),
    ChangeSocialFilteredMode(ArticleFilteredMode),
}

/// The settings hub: the embedded viewer's display mode, and the components
/// (by handler number) of the settings dialog, the sidebar and the app.
#[derive(Clone, Copy, Debug, PartialEq, Eq, Structural)]
pub struct SettingsAgent {
    pub favviewer_settings: Option<DisplayMode>,
    pub modal: Option<u64>,
    pub sidebar: Option<u64>,
    pub model: Option<u64>,
}

/// What one request makes the hub do besides changing its state: answer one
/// component, and store the embedded viewer's display mode.
#[derive(Clone, Copy, Debug)]
pub struct SettingsStep {
    pub respond: Option<(u64, Response)>,
    pub store_favviewer: Option<DisplayMode>,
}

/// An answer to the component `to` if there is one.
pub open spec fn answer(to: Option<u64>, r: Response) -> Option<(u64, Response)> {
    match to {
        Some(h) => Some((h, r)),
        None => None,
    }
}

/// The hub's next state and what it does, for request `msg` from component `id`.
pub open spec fn settings_step(s: SettingsAgent, msg: Request, id: u64) -> (SettingsAgent, SettingsStep) {
    match msg {
        Request::ShowModal => (s, SettingsStep { respond: answer(s.modal, Response::ShowModal), store_favviewer: None }),
        Request::InitFavViewerSettings(d) => (
            SettingsAgent { favviewer_settings: Some(d), ..s },
            SettingsStep { respond: None, store_favviewer: None },
        ),
        Request::UpdateFavViewer(d) => (
            SettingsAgent { favviewer_settings: Some(d), ..s },
            SettingsStep { respond: answer(s.modal, Response::UpdateFavViewerSettings(d)), store_favviewer: Some(d) },
        ),
        Request::RegisterModal => (
            SettingsAgent { modal: Some(id), ..s },
            SettingsStep {
                respond: match s.favviewer_settings {
                    Some(d) => Some((id, Response::UpdateFavViewerSettings(d))),
                    None => None,
                },
                store_favviewer: None,
            },
        ),
        Request::RegisterSidebar => (SettingsAgent { sidebar: Some(id), ..s }, SettingsStep { respond: None, store_favviewer: None }),
        Request::RegisterModel => (SettingsAgent { model: Some(id), ..s }, SettingsStep { respond: None, store_favviewer: None }),
        Request::ChangeOnMediaClick(v) => (
            s,
            SettingsStep { respond: answer(s.model, Response::ChangeOnMediaClick(v)), store_favviewer: None },
        ),
        Request::ChangeSocialFilteredMode(v) => (
            s,
            SettingsStep { respond: answer(s.model, Response::ChangeSocialFilteredMode(v)), store_favviewer: None },
        ),
    }
}

/// The hub once component `id` has gone: the first of its places that `id`
/// held is emptied.
pub open spec fn settings_disconnect(s: SettingsAgent, id: u64) -> SettingsAgent {
    if s.modal == Some(id) {
        SettingsAgent { modal: None, ..s }
    } else if s.sidebar == Some(id) {
        SettingsAgent { sidebar: None, ..s }
    } else if s.model == Some(id) {
        SettingsAgent { model: None, ..s }
    } else {
        s
    }
}

fn answer_to(to: Option<u64>, r: Response) -> (a: Option<(u64, Response)>)
    ensures
        a == answer(to, r),
{
    match to {
        Some(h) => Some((h, r)),
        None => None,
    }
}

impl SettingsAgent {
    /// A hub that knows no component and no display mode.
    pub fn new() -> (r: Self)
        ensures
            r == (SettingsAgent { favviewer_settings: None, modal: None, sidebar: None, model: None }),
    {
        SettingsAgent { favviewer_settings: None, modal: None, sidebar: None, model: None }
    }

    /// Handles request `msg` from component `id`.
    pub fn handle_input(&mut self, msg: Request, id: u64) -> (step: SettingsStep)
        ensures
            (*final(self), step) == settings_step(*old(self), msg, id),
    {
        match msg {
            Request::ShowModal => SettingsStep { respond: answer_to(self.modal, Response::ShowModal), store_favviewer: None },
            Request::InitFavViewerSettings(d) => {
                self.favviewer_settings = Some(d);
                SettingsStep { respond: None, store_favviewer: None }
            },
            Request::UpdateFavViewer(d) => {
                self.favviewer_settings = Some(d);
                SettingsStep { respond: answer_to(self.modal, Response::UpdateFavViewerSettings(d)), store_favviewer: Some(d) }
            },
            Request::RegisterModal => {
                self.modal = Some(id);
                let respond = match self.favviewer_settings {
                    Some(d) => Some((id, Response::UpdateFavViewerSettings(d))),
                    None => None,
                };
                SettingsStep { respond, store_favviewer: None }
            },
            Request::RegisterSidebar => {
                self.sidebar = Some(id);
                SettingsStep { respond: None, store_favviewer: None }
            },
            Request::RegisterModel => {
                self.model = Some(id);
                SettingsStep { respond: None, store_favviewer: None }
            },
            Request::ChangeOnMediaClick(v) => SettingsStep {
                respond: answer_to(self.model, Response::ChangeOnMediaClick(v)),
                store_favviewer: None,
            },
            Request::ChangeSocialFilteredMode(v) => SettingsStep {
                respond: answer_to(self.model, Response::ChangeSocialFilteredMode(v)),
                store_favviewer: None,
            },
        }
    }

    /// Forgets component `id`.
    pub fn disconnected(&mut self, id: u64)
        ensures
            *final(self) == settings_disconnect(*old(self), id),
    {
        if self.modal == Some(id) {
            self.modal = None;
        } else if self.sidebar == Some(id) {
            self.sidebar = None;
        } else if self.model == Some(id) {
            self.model = None;
        }
    }
}

/// A settings dialog that registers after the embedded viewer's display mode
/// was set is told that mode at once.
pub proof fn registered_modal_learns_the_mode(s: SettingsAgent, d: DisplayMode, id: u64, other: u64)
    ensures
        ({
            let s1 = settings_step(s, Request::UpdateFavViewer(d), other).0;
            settings_step(s1, Request::RegisterModal, id).1.respond == Some((id, Response::UpdateFavViewerSettings(d)))
        }),
{
}

/// A change of the media-click setting reaches the registered app, and nothing
/// is answered while no app is registered.
pub proof fn setting_changes_reach_the_app(s: SettingsAgent, v: OnMediaClick, id: u64, from: u64)
    ensures
        settings_step(settings_step(s, Request::RegisterModel, id).0, Request::ChangeOnMediaClick(v), from).1.respond
            == Some((id, Response::ChangeOnMediaClick(v))),
        s.model is None ==> settings_step(s, Request::ChangeOnMediaClick(v), from).1.respond is None,
{
}

/// A component that held one place holds none once it has gone, and the
/// other places stay as they were.
pub proof fn disconnect_forgets_the_component(s: SettingsAgent, id: u64)
    requires
        (s.modal == Some(id)) as int + (s.sidebar == Some(id)) as int + (s.model == Some(id)) as int <= 1,
    ensures
        settings_disconnect(s, id).modal != Some(id),
        settings_disconnect(s, id).sidebar != Some(id),
        settings_disconnect(s, id).model != Some(id),
        s.modal != Some(id) ==> settings_disconnect(s, id).modal == s.modal,
        s.sidebar != Some(id) ==> settings_disconnect(s, id).sidebar == s.sidebar,
        s.model != Some(id) ==> settings_disconnect(s, id).model == s.model,
        settings_disconnect(s, id).favviewer_settings == s.favviewer_settings,
{
}

}
