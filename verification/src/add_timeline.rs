use vstd::prelude::*;
use crate::endpoints::TimelineEndpointWrapper;
use crate::filters::{changed_filters, FilterChange, FilterCollection};

verus! {

/// What the timeline hub asks of the add-timeline dialog: to open, to start a
/// blank timeline, or to start a timeline of a user of a service.
pub enum TimelineAgentResponse {
    AddTimeline,
    AddBlankTimeline,
    AddUserTimeline(String, String),
}

/// What the add-timeline dialog is told.
pub enum AddTimelineMsg {
    /// Add the timeline; the title field holds the text, if the field is there.
    AddTimeline(Option<String>),
    AgentResponse(TimelineAgentResponse),
    SetEnabled(bool),
    ToggleSetMainTimeline,
    /// A change to the new timeline's filters.
    ChangeFilter(FilterChange),
}

/// A timeline to add: its name, endpoints, filters, and whether it becomes
/// the main one.
pub struct NewTimeline {
    pub name: String,
    pub endpoints: Vec<TimelineEndpointWrapper>,
    pub filters: FilterCollection,
    pub set_as_main_timeline: bool,
}

/// What the dialog makes happen besides its own state.
pub enum AddTimelineEffect {
    Nothing,
    /// Add this timeline.
    Add(NewTimeline),
    /// Put this text in the title field.
    SetTitle(String),
    /// Handle `SetEnabled(true)` next.
    Enable,
}

/// The add-timeline dialog: whether it shows, the endpoints chosen, the
/// filters of the new timeline and those a new timeline starts with, and
/// whether the timeline becomes the main one.
pub struct AddTimelineModal {
    pub enabled: bool,
    pub endpoints: Vec<TimelineEndpointWrapper>,
    pub filters: FilterCollection,
    pub default_filters: FilterCollection,
    pub set_as_main_timeline: bool,
}

impl AddTimelineModal {
    pub open spec fn wf(&self) -> bool {
        self.filters.wf() && self.default_filters.wf()
    }

    /// A hidden dialog with no endpoint, whose new timelines start with the
    /// filters `default_filters`.
    pub fn new(default_filters: FilterCollection) -> (r: Self)
        requires
            default_filters.wf(),
        ensures
            r.wf(),
            !r.enabled,
            r.endpoints@.len() == 0,
            r.filters.instances@ == default_filters.instances@,
            r.default_filters == default_filters,
            !r.set_as_main_timeline,
    {
        let filters = default_filters.copy();
        AddTimelineModal { enabled: false, endpoints: Vec::new(), filters, default_filters, set_as_main_timeline: false }
    }

    /// Handles `msg`; tells whether to redraw, and what else to do.
    pub fn update(&mut self, msg: AddTimelineMsg) -> (r: (bool, AddTimelineEffect))
        requires
            old(self).wf(),
        ensures
            final(self).wf(),
            final(self).default_filters == old(self).default_filters,
            match msg {
                AddTimelineMsg::AgentResponse(TimelineAgentResponse::AddBlankTimeline) =>
                    final(self).filters.instances@ == old(self).default_filters.instances@,
                AddTimelineMsg::AgentResponse(TimelineAgentResponse::AddUserTimeline(_, _)) =>
                    final(self).filters.instances@ == old(self).default_filters.instances@,
                AddTimelineMsg::ChangeFilter(c) => final(self).filters@ == changed_filters(old(self).filters@, c),
                _ => final(self).filters.instances@ == old(self).filters.instances@,
            },
            match msg {
                AddTimelineMsg::ChangeFilter(_) => {
                    &&& r.0
                    &&& r.1 is Nothing
                    &&& final(self).enabled == old(self).enabled
                    &&& final(self).endpoints@ == old(self).endpoints@
                    &&& final(self).set_as_main_timeline == old(self).set_as_main_timeline
                },
                AddTimelineMsg::AddTimeline(title) => {
                    &&& r.0
                    &&& r.1 matches AddTimelineEffect::Add(t)
                        && t.name@ == match title { Some(s) => s@, None => "Timeline"@ }
                        && t.endpoints@ == old(self).endpoints@
                        && t.filters.instances@ == old(self).filters.instances@
                        && t.set_as_main_timeline == old(self).set_as_main_timeline
                    &&& final(self).endpoints@.len() == 0
                    &&& !final(self).enabled
                    &&& final(self).set_as_main_timeline == old(self).set_as_main_timeline
                },
                AddTimelineMsg::AgentResponse(TimelineAgentResponse::AddTimeline) => {
                    &&& !r.0
                    &&& r.1 is Enable
                    &&& final(self).enabled == old(self).enabled
                    &&& final(self).endpoints@ == old(self).endpoints@
                    &&& final(self).set_as_main_timeline == old(self).set_as_main_timeline
                },
                AddTimelineMsg::AgentResponse(TimelineAgentResponse::AddBlankTimeline) => {
                    &&& r.0
                    &&& r.1 matches AddTimelineEffect::SetTitle(t) && t@ == "Timeline"@
                    &&& final(self).enabled
                    &&& final(self).endpoints@.len() == 0
                    &&& final(self).set_as_main_timeline == old(self).set_as_main_timeline
                },
                AddTimelineMsg::AgentResponse(TimelineAgentResponse::AddUserTimeline(_, username)) => {
                    &&& r.0
                    &&& r.1 matches AddTimelineEffect::SetTitle(t) && t@ == username@
                    &&& final(self).enabled
                    &&& final(self).endpoints@.len() == 0
                    &&& final(self).set_as_main_timeline == old(self).set_as_main_timeline
                },
                AddTimelineMsg::SetEnabled(v) => {
                    &&& r.0
                    &&& r.1 is Nothing
                    &&& final(self).enabled == v
                    &&& final(self).endpoints@ == old(self).endpoints@
                    &&& final(self).set_as_main_timeline == old(self).set_as_main_timeline
                },
                AddTimelineMsg::ToggleSetMainTimeline => {
                    &&& !r.0
                    &&& r.1 is Nothing
                    &&& final(self).set_as_main_timeline == !old(self).set_as_main_timeline
                    &&& final(self).enabled == old(self).enabled
                    &&& final(self).endpoints@ == old(self).endpoints@
                },
            },
    {
        match msg {
            AddTimelineMsg::AddTimeline(title) => {
                let name = match title {
                    Some(s) => s,
                    None => String::from_str("Timeline"),
                };
                let mut endpoints = Vec::new();
                std::mem::swap(&mut endpoints, &mut self.endpoints);
                self.enabled = false;
                let filters = self.filters.copy();
                (true, AddTimelineEffect::Add(NewTimeline { name, endpoints, filters, set_as_main_timeline: self.set_as_main_timeline }))
            },
            AddTimelineMsg::AgentResponse(TimelineAgentResponse::AddTimeline) => (false, AddTimelineEffect::Enable),
            AddTimelineMsg::AgentResponse(TimelineAgentResponse::AddBlankTimeline) => {
                self.endpoints = Vec::new();
                self.filters = self.default_filters.copy();
                self.enabled = true;
                (true, AddTimelineEffect::SetTitle(String::from_str("Timeline")))
            },
            AddTimelineMsg::AgentResponse(TimelineAgentResponse::AddUserTimeline(_, username)) => {
                self.endpoints = Vec::new();
                self.filters = self.default_filters.copy();
                self.enabled = true;
                (true, AddTimelineEffect::SetTitle(username))
            },
            AddTimelineMsg::SetEnabled(v) => {
                self.enabled = v;
                (true, AddTimelineEffect::Nothing)
            },
            AddTimelineMsg::ToggleSetMainTimeline => {
                self.set_as_main_timeline = !self.set_as_main_timeline;
                (false, AddTimelineEffect::Nothing)
            },
            AddTimelineMsg::ChangeFilter(c) => {
                self.filters.apply(c);
                (true, AddTimelineEffect::Nothing)
            },
        }
    }
}

}
