use vstd::prelude::*;
use crate::article_actions::Action;

verus! {

/// A timeline's number.
pub type TimelineId = i32;

/// What the batch-action dialog is told.
#[derive(Clone, Copy, Debug, PartialEq, Eq, Structural)]
pub enum BatchActionMsg {
    SetEnabled(bool),
    SetAction(Action),
    SetTimeline(Option<usize>),
    Apply,
}

/// The batch-action dialog: whether it shows, the action, and the timeline
/// chosen among those listed (none: every timeline).
#[derive(Clone, Copy, Debug, PartialEq, Eq, Structural)]
pub struct BatchActionModal {
    pub enabled: bool,
    pub action: Action,
    pub timeline_idx: Option<usize>,
}

impl BatchActionModal {
    /// A hidden dialog that marks articles as read, on no chosen timeline.
    pub fn new() -> (r: Self)
        ensures
            r == (BatchActionModal { enabled: false, action: Action::MarkAsRead, timeline_idx: None }),
    {
        BatchActionModal { enabled: false, action: Action::MarkAsRead, timeline_idx: None }
    }

    /// Handles `msg` with the listed timelines `timeline_ids`; tells the action
    /// to apply and the timelines it applies to, when applied. The chosen
    /// timeline must be listed.
    pub fn update(&mut self, msg: BatchActionMsg, timeline_ids: &Vec<TimelineId>) -> (r: Option<(Action, Vec<TimelineId>)>)
        requires
            msg is Apply ==> (old(self).timeline_idx matches Some(i) ==> i < timeline_ids@.len()),
        ensures
            match msg {
                BatchActionMsg::SetEnabled(v) => *final(self) == BatchActionModal { enabled: v, ..*old(self) } && r is None,
                BatchActionMsg::SetAction(a) => *final(self) == BatchActionModal { action: a, ..*old(self) } && r is None,
                BatchActionMsg::SetTimeline(t) => *final(self) == BatchActionModal { timeline_idx: t, ..*old(self) } && r is None,
                BatchActionMsg::Apply => {
                    &&& *final(self) == BatchActionModal { enabled: false, ..*old(self) }
                    &&& r matches Some((a, ts)) && a == old(self).action && ts@ == match old(self).timeline_idx {
                        Some(i) => seq![timeline_ids@[i as int]],
                        None => Seq::<TimelineId>::empty(),
                    }
                },
            },
    {
        match msg {
            BatchActionMsg::SetEnabled(v) => {
                self.enabled = v;
                None
            },
            BatchActionMsg::SetAction(a) => {
                self.action = a;
                None
            },
            BatchActionMsg::SetTimeline(t) => {
                self.timeline_idx = t;
                None
            },
            BatchActionMsg::Apply => {
                let mut ts: Vec<TimelineId> = Vec::new();
                match self.timeline_idx {
                    Some(i) => ts.push(timeline_ids[i]),
                    None => {},
                }
                self.enabled = false;
                proof {
                    match old(self).timeline_idx {
                        Some(i) => assert(ts@ =~= seq![timeline_ids@[i as int]]),
                        None => assert(ts@ =~= Seq::<TimelineId>::empty()),
                    }
                }
                Some((self.action, ts))
            },
        }
    }
}

}
