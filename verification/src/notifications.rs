use vstd::prelude::*;
use crate::error::Error;
use crate::string_map::StrMap;

verus! {

/// A message shown to the user until dismissed.
#[derive(Debug)]
pub enum Notification {
    Generic(String),
    Login(String, String),
    Error(Error),
}

/// What a component asks of the notification hub: to be the one that draws
/// the notifications, or to show a notification under a key (a generated one
/// where none is given).
#[derive(Debug)]
pub enum NotificationRequest {
    RegisterTimelineContainer,
    Notify(Option<String>, Notification),
}

/// The notification hub: the notifications shown, by key, and the component
/// (by handler number) that draws them.
pub struct NotificationAgent {
    pub notifications: StrMap<Notification>,
    pub model: Option<u64>,
}

/// The key a notification gets when none is given.
pub open spec fn generated_key() -> Seq<char> {
    "Generated0"@
}

impl NotificationAgent {
    pub open spec fn wf(&self) -> bool {
        self.notifications.wf()
    }

    /// A hub with no notification and no drawing component.
    pub fn new() -> (r: Self)
        ensures
            r.wf(),
            r.notifications@ == Map::<Seq<char>, Notification>::empty(),
            r.model is None,
    {
        NotificationAgent { notifications: StrMap::new(), model: None }
    }

    /// Handles request `msg` from component `id`; tells which component must
    /// draw the notifications again, if any. A notification without a key
    /// takes the generated key, which must be free.
    pub fn handle_input(&mut self, msg: NotificationRequest, id: u64) -> (redraw: Option<u64>)
        requires
            old(self).wf(),
            msg matches NotificationRequest::Notify(None, _) ==> !old(self).notifications@.contains_key(generated_key()),
        ensures
            final(self).wf(),
            match msg {
                NotificationRequest::RegisterTimelineContainer => {
                    &&& final(self).model == Some(id)
                    &&& final(self).notifications@ == old(self).notifications@
                    &&& redraw is None
                },
                NotificationRequest::Notify(key, n) => {
                    &&& final(self).model == old(self).model
                    &&& final(self).notifications@ == old(self).notifications@.insert(
                        match key { Some(k) => k@, None => generated_key() },
                        n,
                    )
                    &&& redraw == old(self).model
                },
            },
    {
        match msg {
            NotificationRequest::RegisterTimelineContainer => {
                self.model = Some(id);
                None
            },
            NotificationRequest::Notify(key, n) => {
                let k = match key {
                    Some(k) => k,
                    None => {
                        proof { reveal_strlit("Generated0"); }
                        String::from_str("Generated0")
                    },
                };
                self.notifications.insert(k, n);
                self.model
            },
        }
    }

    /// Dismisses the notification under `key`; tells which component must draw
    /// the notifications again, if any.
    pub fn delete(&mut self, key: &str) -> (redraw: Option<u64>)
        requires
            old(self).wf(),
        ensures
            final(self).wf(),
            final(self).notifications@ == old(self).notifications@.remove(key@),
            final(self).model == old(self).model,
            redraw == old(self).model,
    {
        let _ = self.notifications.remove(key);
        self.model
    }
}

/// Showing a notification under a new key and then dismissing it leaves the
/// notifications as they were.
pub proof fn dismissing_undoes_notifying(m: Map<Seq<char>, Notification>, key: Seq<char>, n: Notification)
    requires
        !m.contains_key(key),
    ensures
        m.insert(key, n).remove(key) == m,
{
    assert(m.insert(key, n).remove(key) =~= m);
}

}
