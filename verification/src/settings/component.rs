use vstd::prelude::*;
use crate::containers::Container;
use crate::display::{set_main_column_count, set_main_container, toggle_favviewer_settings, DisplayMode};
use crate::settings::agent::{Request as SettingsRequest, Response as SettingsResponse};
use crate::settings::ChangeSettingMsg;

verus! {

/// What the settings dialog is told or asked.
#[derive(Clone, Copy, Debug, PartialEq, Eq, Structural)]
pub enum SettingsModalMsg {
    SetEnabled(bool),
    ChangeContainer(Container),
    ChangeColumnCount(u8),
    SettingsResponse(SettingsResponse),
    ToggleFavViewerSettings,
    ChangeSetting(ChangeSettingMsg),
}

/// What the settings dialog is to send on: a request to the settings hub, or
/// a change of setting for the app.
#[derive(Clone, Copy, Debug, PartialEq, Eq, Structural)]
pub enum SettingsModalOutput {
    Nothing,
    ToHub(SettingsRequest),
    ChangeSetting(ChangeSettingMsg),
}

/// The settings dialog: whether it shows, and the embedded viewer's display
/// mode that it edits.
#[derive(Clone, Copy, Debug, PartialEq, Eq, Structural)]
pub struct SettingsModal {
    pub enabled: bool,
    pub favviewer_settings: DisplayMode,
}

/// The dialog's next state, whether it redraws, and what it sends on.
pub open spec fn modal_step(s: SettingsModal, msg: SettingsModalMsg) -> (SettingsModal, bool, SettingsModalOutput) {
    match msg {
        SettingsModalMsg::SetEnabled(v) => (SettingsModal { enabled: v, ..s }, true, SettingsModalOutput::Nothing),
        SettingsModalMsg::ChangeContainer(c) => {
            let d = match s.favviewer_settings {
                DisplayMode::Single { column_count, .. } => DisplayMode::Single { container: c, column_count },
                DisplayMode::Default => DisplayMode::Default,
            };
            (SettingsModal { favviewer_settings: d, ..s }, true, SettingsModalOutput::ToHub(SettingsRequest::UpdateFavViewer(d)))
        },
        SettingsModalMsg::ChangeColumnCount(n) => {
            let d = match s.favviewer_settings {
                DisplayMode::Single { container, .. } => DisplayMode::Single { container, column_count: n },
                DisplayMode::Default => DisplayMode::Default,
            };
            (SettingsModal { favviewer_settings: d, ..s }, true, SettingsModalOutput::ToHub(SettingsRequest::UpdateFavViewer(d)))
        },
        SettingsModalMsg::SettingsResponse(r) => match r {
            SettingsResponse::ShowModal => (SettingsModal { enabled: true, ..s }, true, SettingsModalOutput::Nothing),
            SettingsResponse::UpdateFavViewerSettings(d) => (SettingsModal { favviewer_settings: d, ..s }, true, SettingsModalOutput::Nothing),
            _ => (s, false, SettingsModalOutput::Nothing),
        },
        SettingsModalMsg::ToggleFavViewerSettings => {
            let d = match s.favviewer_settings {
                DisplayMode::Single { .. } => DisplayMode::Default,
                DisplayMode::Default => DisplayMode::Single { container: Container::Masonry, column_count: 3 },
            };
            (SettingsModal { favviewer_settings: d, ..s }, true, SettingsModalOutput::ToHub(SettingsRequest::UpdateFavViewer(d)))
        },
        SettingsModalMsg::ChangeSetting(c) => (s, false, SettingsModalOutput::ChangeSetting(c)),
    }
}

impl SettingsModal {
    /// A hidden dialog editing `favviewer_settings`.
    pub fn new(favviewer_settings: DisplayMode) -> (r: Self)
        ensures
            r == (SettingsModal { enabled: false, favviewer_settings }),
    {
        SettingsModal { enabled: false, favviewer_settings }
    }

    /// Handles `msg`; tells whether to redraw and what to send on.
    pub fn update(&mut self, msg: SettingsModalMsg) -> (r: (bool, SettingsModalOutput))
        ensures
            (*final(self), r.0, r.1) == modal_step(*old(self), msg),
    {
        match msg {
            SettingsModalMsg::SetEnabled(v) => {
                self.enabled = v;
                (true, SettingsModalOutput::Nothing)
            },
            SettingsModalMsg::ChangeContainer(c) => {
                let _ = set_main_container(&mut self.favviewer_settings, c);
                (true, SettingsModalOutput::ToHub(SettingsRequest::UpdateFavViewer(self.favviewer_settings)))
            },
            SettingsModalMsg::ChangeColumnCount(n) => {
                let _ = set_main_column_count(&mut self.favviewer_settings, n);
                (true, SettingsModalOutput::ToHub(SettingsRequest::UpdateFavViewer(self.favviewer_settings)))
            },
            SettingsModalMsg::SettingsResponse(r) => match r {
                SettingsResponse::ShowModal => {
                    self.enabled = true;
                    (true, SettingsModalOutput::Nothing)
                },
                SettingsResponse::UpdateFavViewerSettings(d) => {
                    self.favviewer_settings = d;
                    (true, SettingsModalOutput::Nothing)
                },
                _ => (false, SettingsModalOutput::Nothing),
            },
            SettingsModalMsg::ToggleFavViewerSettings => {
                self.favviewer_settings = toggle_favviewer_settings(self.favviewer_settings);
                (true, SettingsModalOutput::ToHub(SettingsRequest::UpdateFavViewer(self.favviewer_settings)))
            },
            SettingsModalMsg::ChangeSetting(c) => (false, SettingsModalOutput::ChangeSetting(c)),
        }
    }
}

/// Toggling the embedded viewer's single-timeline mode twice from the
/// multi-timeline mode comes back to it.
pub proof fn toggling_the_viewer_twice(s: SettingsModal)
    requires
        s.favviewer_settings == DisplayMode::Default,
    ensures
        modal_step(modal_step(s, SettingsModalMsg::ToggleFavViewerSettings).0, SettingsModalMsg::ToggleFavViewerSettings).0 == s,
{
}

}
