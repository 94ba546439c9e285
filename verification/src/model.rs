use vstd::prelude::*;
use crate::containers::Container;
use crate::display::{
    initial_display_mode, initial_display_mode_spec, last_single_of, set_main_column_count, set_main_container,
    toggle_display_mode, DisplayMode,
};
use crate::settings::{changed, AppSettings, ChangeSettingMsg};

verus! {

/// What the app's root is told.
#[derive(Clone, Copy, Debug, PartialEq, Eq, Structural)]
pub enum ModelMsg {
    ToggleFavViewer,
    ToggleSidebarFavViewer,
    ToggleDisplayMode,
    SetMainContainer(Container),
    SetMainColumnCount(u8),
    ChangeSetting(ChangeSettingMsg),
}

/// The app's root: how timelines show, the single-timeline mode to come back
/// to, whether the sidebar shows in the embedded viewer, the settings, and
/// whether it is embedded in a page.
#[derive(Clone, Copy, Debug, PartialEq, Eq, Structural)]
pub struct Model {
    pub display_mode: DisplayMode,
    pub last_display_single: DisplayMode,
    pub sidebar_favviewer: bool,
    pub app_settings: AppSettings,
    pub has_page_info: bool,
}

/// What handling a message makes the root do: whether to redraw, and whether
/// to show or hide the page it is embedded in.
#[derive(Clone, Copy, Debug, PartialEq, Eq, Structural)]
pub struct ModelStep {
    pub redraw: bool,
    pub toggle_page: bool,
}

/// The root's next state and what it does.
pub open spec fn model_step(m: Model, msg: ModelMsg) -> (Model, ModelStep) {
    match msg {
        ModelMsg::ToggleFavViewer => (m, ModelStep { redraw: m.has_page_info, toggle_page: m.has_page_info }),
        ModelMsg::ToggleSidebarFavViewer => (
            Model { sidebar_favviewer: !m.sidebar_favviewer, ..m },
            ModelStep { redraw: true, toggle_page: false },
        ),
        ModelMsg::ToggleDisplayMode => (
            Model {
                display_mode: match m.display_mode {
                    DisplayMode::Default => m.last_display_single,
                    DisplayMode::Single { .. } => DisplayMode::Default,
                },
                ..m
            },
            ModelStep { redraw: true, toggle_page: false },
        ),
        ModelMsg::SetMainContainer(c) => match m.display_mode {
            DisplayMode::Single { column_count, .. } => (
                Model { display_mode: DisplayMode::Single { container: c, column_count }, ..m },
                ModelStep { redraw: true, toggle_page: false },
            ),
            DisplayMode::Default => (m, ModelStep { redraw: false, toggle_page: false }),
        },
        ModelMsg::SetMainColumnCount(n) => match m.display_mode {
            DisplayMode::Single { container, .. } => (
                Model { display_mode: DisplayMode::Single { container, column_count: n }, ..m },
                ModelStep { redraw: true, toggle_page: false },
            ),
            DisplayMode::Default => (m, ModelStep { redraw: false, toggle_page: false }),
        },
        ModelMsg::ChangeSetting(c) => (
            Model { app_settings: changed(m.app_settings, c), ..m },
            ModelStep { redraw: true, toggle_page: false },
        ),
    }
}

impl Model {
    /// The root as the app starts: the display mode that
    /// `initial_display_mode` chooses, the single-timeline mode to come back
    /// to, no sidebar in the embedded viewer, and the first settings.
    pub fn create(
        stored: Option<DisplayMode>,
        embedded: Option<DisplayMode>,
        single_timeline: Option<&str>,
        container: Option<Container>,
        column_count: Option<&str>,
        has_page_info: bool,
    ) -> (r: Self)
        ensures
            r.display_mode == initial_display_mode_spec(
                stored,
                embedded,
                match single_timeline { Some(s) => Some(s@), None => None },
                container,
                match column_count { Some(s) => Some(s@), None => None },
            ),
            r.last_display_single == match r.display_mode {
                DisplayMode::Single { .. } => r.display_mode,
                DisplayMode::Default => DisplayMode::Single { container: Container::Masonry, column_count: 4 },
            },
            !r.sidebar_favviewer,
            r.app_settings == AppSettings::initial_spec(),
            r.has_page_info == has_page_info,
    {
        let display_mode = initial_display_mode(stored, embedded, single_timeline, container, column_count);
        Model {
            display_mode,
            last_display_single: last_single_of(display_mode),
            sidebar_favviewer: false,
            app_settings: AppSettings::initial(),
            has_page_info,
        }
    }

    /// Handles `msg`.
    pub fn update(&mut self, msg: ModelMsg) -> (r: ModelStep)
        ensures
            (*final(self), r) == model_step(*old(self), msg),
    {
        let quiet = ModelStep { redraw: false, toggle_page: false };
        match msg {
            ModelMsg::ToggleFavViewer => ModelStep { redraw: self.has_page_info, toggle_page: self.has_page_info },
            ModelMsg::ToggleSidebarFavViewer => {
                self.sidebar_favviewer = !self.sidebar_favviewer;
                ModelStep { redraw: true, ..quiet }
            },
            ModelMsg::ToggleDisplayMode => {
                self.display_mode = toggle_display_mode(self.display_mode, self.last_display_single);
                ModelStep { redraw: true, ..quiet }
            },
            ModelMsg::SetMainContainer(c) => ModelStep { redraw: set_main_container(&mut self.display_mode, c), ..quiet },
            ModelMsg::SetMainColumnCount(n) => ModelStep { redraw: set_main_column_count(&mut self.display_mode, n), ..quiet },
            ModelMsg::ChangeSetting(c) => {
                self.app_settings.change(c);
                ModelStep { redraw: true, ..quiet }
            },
        }
    }
}

/// Toggling the display mode twice, from the mode that a toggle comes back
/// to, leaves the root as it was.
pub proof fn toggling_display_twice(m: Model)
    requires
        m.display_mode == m.last_display_single,
    ensures
        model_step(model_step(m, ModelMsg::ToggleDisplayMode).0, ModelMsg::ToggleDisplayMode).0 == m,
{
}

}
