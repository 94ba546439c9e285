use vstd::prelude::*;
use crate::storages::{
    hide_article, hide_spec, local_view_of, mark_article_as_read, mark_spec, session_view_of, LocalStorageView,
    SessionStorageView, SoshalLocalStorage, SoshalSessionStorage,
};
use crate::string_map::StrMap;

verus! {

/// What can be done to an article.
#[derive(Clone, Copy, Debug, PartialEq, Eq, Structural)]
pub enum Action {
    Like,
    Repost,
    MarkAsRead,
    Hide,
    FetchData,
    LogData,
    LogJsonData,
}

/// Every action, in the order the menus list them.
pub open spec fn all_actions() -> Seq<Action> {
    seq![Action::Like, Action::Repost, Action::MarkAsRead, Action::Hide, Action::FetchData, Action::LogData, Action::LogJsonData]
}

/// How an action is labelled.
pub open spec fn action_label(a: Action) -> Seq<char> {
    match a {
        Action::Like => "Like"@,
        Action::Repost => "Repost"@,
        Action::MarkAsRead => "Mark As Read"@,
        Action::Hide => "Hide"@,
        Action::FetchData => "Fetch Data"@,
        Action::LogData => "LogData"@,
        Action::LogJsonData => "LogJsonData"@,
    }
}

impl Action {
    /// Every action, once each, in the order the menus list them.
    pub fn iter() -> (r: Vec<Action>)
        ensures
            r@ == all_actions(),
    {
        let r = vec![Action::Like, Action::Repost, Action::MarkAsRead, Action::Hide, Action::FetchData, Action::LogData, Action::LogJsonData];
        assert(r@ =~= all_actions());
        r
    }

    /// The action's label.
    pub fn to_string(&self) -> (r: String)
        ensures
            r@ == action_label(*self),
    {
        match self {
            Action::Like => String::from_str("Like"),
            Action::Repost => String::from_str("Repost"),
            Action::MarkAsRead => String::from_str("Mark As Read"),
            Action::Hide => String::from_str("Hide"),
            Action::FetchData => String::from_str("Fetch Data"),
            Action::LogData => String::from_str("LogData"),
            Action::LogJsonData => String::from_str("LogJsonData"),
        }
    }
}

/// Which actions a service handles itself.
#[derive(Clone, Copy, Debug, PartialEq, Eq, Structural)]
pub struct ServiceActions {
    pub like: bool,
    pub repost: bool,
    pub fetch_data: bool,
}

/// What an action does to one article.
#[derive(Clone, Copy, Debug, PartialEq, Eq, Structural)]
pub enum ActionEffect {
    /// The article's service is asked to like, repost or fetch it.
    AskService(Action),
    /// The article's read mark is set, and stored.
    SetMarkedAsRead(bool),
    /// The article's hiding is set, and stored.
    SetHidden(bool),
    LogData,
    LogJsonData,
    /// Its service does not handle the action.
    Unhandled,
}

/// What action `a` does to an article of a service that handles
/// `handled` (if the service registered), read-marked `marked` and hidden
/// `hidden`.
pub open spec fn effect_of(a: Action, handled: Option<ServiceActions>, marked: bool, hidden: bool) -> ActionEffect {
    match a {
        Action::Like => if handled matches Some(s) && s.like { ActionEffect::AskService(a) } else { ActionEffect::Unhandled },
        Action::Repost => if handled matches Some(s) && s.repost { ActionEffect::AskService(a) } else { ActionEffect::Unhandled },
        Action::FetchData => if handled matches Some(s) && s.fetch_data { ActionEffect::AskService(a) } else { ActionEffect::Unhandled },
        Action::MarkAsRead => ActionEffect::SetMarkedAsRead(!marked),
        Action::Hide => ActionEffect::SetHidden(!hidden),
        Action::LogData => ActionEffect::LogData,
        Action::LogJsonData => ActionEffect::LogJsonData,
    }
}

/// An action asks the article's service only for that same action, and only
/// when the service is known: liking never asks for a repost, reposting never
/// asks for a like, and so on.
pub proof fn effect_asks_only_for_its_own_action(a: Action, handled: Option<ServiceActions>, marked: bool, hidden: bool)
    ensures
        match effect_of(a, handled, marked, hidden) {
            ActionEffect::AskService(b) => b == a && handled is Some,
            _ => true,
        },
{
}

/// A service that handles likes, reposts or data fetches is asked for exactly
/// that action when it is taken; a service that is not known is asked nothing.
pub proof fn handled_actions_ask_their_service(s: ServiceActions, marked: bool, hidden: bool)
    ensures
        s.like ==> effect_of(Action::Like, Some(s), marked, hidden) == ActionEffect::AskService(Action::Like),
        s.repost ==> effect_of(Action::Repost, Some(s), marked, hidden) == ActionEffect::AskService(Action::Repost),
        s.fetch_data ==> effect_of(Action::FetchData, Some(s), marked, hidden) == ActionEffect::AskService(Action::FetchData),
        !s.like ==> effect_of(Action::Like, Some(s), marked, hidden) == ActionEffect::Unhandled,
        !s.repost ==> effect_of(Action::Repost, Some(s), marked, hidden) == ActionEffect::Unhandled,
        !s.fetch_data ==> effect_of(Action::FetchData, Some(s), marked, hidden) == ActionEffect::Unhandled,
        effect_of(Action::Like, None, marked, hidden) == ActionEffect::Unhandled,
        effect_of(Action::Repost, None, marked, hidden) == ActionEffect::Unhandled,
        effect_of(Action::FetchData, None, marked, hidden) == ActionEffect::Unhandled,
{
}

/// Marking as read and hiding flip the article's current state, whatever
/// service it belongs to.
pub proof fn marking_and_hiding_flip_the_state(handled: Option<ServiceActions>, marked: bool, hidden: bool)
    ensures
        effect_of(Action::MarkAsRead, handled, marked, hidden) == ActionEffect::SetMarkedAsRead(!marked),
        effect_of(Action::Hide, handled, marked, hidden) == ActionEffect::SetHidden(!hidden),
{
}

/// The hub of article actions: which actions each service handles, and the
/// components (by handler number) whose timelines redraw after an action.
pub struct ArticleActionsAgent {
    pub services: StrMap<ServiceActions>,
    pub subscribers: Vec<u64>,
}

impl ArticleActionsAgent {
    pub open spec fn wf(&self) -> bool {
        self.services.wf()
    }

    /// A hub that knows no service and no component.
    pub fn new() -> (r: Self)
        ensures
            r.wf(),
            r.services@ == Map::<Seq<char>, ServiceActions>::empty(),
            r.subscribers@.len() == 0,
    {
        ArticleActionsAgent { services: StrMap::new(), subscribers: Vec::new() }
    }

    /// Registers which actions service `name` handles.
    pub fn init(&mut self, name: String, actions: ServiceActions)
        requires
            old(self).wf(),
        ensures
            final(self).wf(),
            final(self).services@ == old(self).services@.insert(name@, actions),
            final(self).subscribers == old(self).subscribers,
    {
        self.services.insert(name, actions);
    }

    /// What action `a` does to an article of service `service`, read-marked
    /// `marked` and hidden `hidden`.
    pub fn effect(&self, a: Action, service: &str, marked: bool, hidden: bool) -> (r: ActionEffect)
        requires
            self.wf(),
        ensures
            r == effect_of(a, if self.services@.contains_key(service@) { Some(self.services@[service@]) } else { None }, marked, hidden),
    {
        let handled = match self.services.get(service) {
            Some(s) => Some(*s),
            None => None,
        };
        match a {
            Action::Like => match handled {
                Some(s) => if s.like { ActionEffect::AskService(a) } else { ActionEffect::Unhandled },
                None => ActionEffect::Unhandled,
            },
            Action::Repost => match handled {
                Some(s) => if s.repost { ActionEffect::AskService(a) } else { ActionEffect::Unhandled },
                None => ActionEffect::Unhandled,
            },
            Action::FetchData => match handled {
                Some(s) => if s.fetch_data { ActionEffect::AskService(a) } else { ActionEffect::Unhandled },
                None => ActionEffect::Unhandled,
            },
            Action::MarkAsRead => ActionEffect::SetMarkedAsRead(!marked),
            Action::Hide => ActionEffect::SetHidden(!hidden),
            Action::LogData => ActionEffect::LogData,
            Action::LogJsonData => ActionEffect::LogJsonData,
        }
    }

    /// Component `id` redraws its timelines after actions.
    pub fn connected(&mut self, id: u64)
        ensures
            final(self).subscribers@ == old(self).subscribers@.push(id),
            final(self).services == old(self).services,
    {
        self.subscribers.push(id);
    }

    /// Component `id` is gone.
    pub fn disconnected(&mut self, id: u64)
        ensures
            final(self).subscribers@ == old(self).subscribers@.filter(|s: u64| s != id),
            final(self).services == old(self).services,
    {
        let ghost before = self.subscribers@;
        let mut kept: Vec<u64> = Vec::new();
        let mut i: usize = 0;
        while i < self.subscribers.len()
            invariant
                i <= before.len(),
                self.subscribers@ == before,
                kept@ == before.take(i as int).filter(|s: u64| s != id),
            decreases before.len() - i,
        {
            let s = self.subscribers[i];
            proof {
                assert(before.take(i + 1).drop_last() =~= before.take(i as int));
                reveal(Seq::filter);
            }
            if s != id {
                kept.push(s);
            }
            i = i + 1;
        }
        proof { assert(before.take(i as int) =~= before); }
        self.subscribers = kept;
    }
}

/// An article that an action is asked for: its service, its id, and its
/// read and hidden marks.
pub struct ActedArticle {
    pub service: String,
    pub id: String,
    pub marked_as_read: bool,
    pub hidden: bool,
}

/// Session storage after each article of `s` in turn has its read mark
/// flipped and stored.
pub open spec fn marks_after(m: Option<SessionStorageView>, s: Seq<ActedArticle>) -> Option<SessionStorageView>
    decreases s.len(),
{
    if s.len() == 0 {
        m
    } else {
        let x = s.last();
        Some(mark_spec(marks_after(m, s.drop_last()), x.service@, x.id@, !x.marked_as_read))
    }
}

/// Local storage after each article of `s` in turn has its hiding flipped and
/// stored.
pub open spec fn hides_after(m: Option<LocalStorageView>, s: Seq<ActedArticle>) -> Option<LocalStorageView>
    decreases s.len(),
{
    if s.len() == 0 {
        m
    } else {
        let x = s.last();
        Some(hide_spec(hides_after(m, s.drop_last()), x.service@, x.id@, !x.hidden))
    }
}

/// An article after action `a`: marking as read flips its read mark, hiding
/// flips its hiding, and other actions leave it.
pub open spec fn acted(a: Action, x: ActedArticle) -> ActedArticle {
    ActedArticle {
        marked_as_read: if a is MarkAsRead { !x.marked_as_read } else { x.marked_as_read },
        hidden: if a is Hide { !x.hidden } else { x.hidden },
        ..x
    }
}

/// What a request for an action on several articles leads to: what the
/// action does to each, the session and local storage after, and the
/// components whose timelines redraw.
pub struct ActionOutcome {
    pub effects: Vec<ActionEffect>,
    pub session: Option<SoshalSessionStorage>,
    pub local: Option<SoshalLocalStorage>,
    pub redraw: Vec<u64>,
}

impl ArticleActionsAgent {
    /// Does action `a` to each of `articles`, in turn: their marks change and
    /// are stored in `session` (read marks) or `local` (hiding), which stay as
    /// they were for other actions; what each other action asks of its
    /// service is given. Then every component redraws its timelines.
    pub fn act(
        &self,
        a: Action,
        articles: &mut Vec<ActedArticle>,
        session: Option<SoshalSessionStorage>,
        local: Option<SoshalLocalStorage>,
    ) -> (r: ActionOutcome)
        requires
            self.wf(),
            session matches Some(s) ==> s.wf(),
            local matches Some(l) ==> l.wf(),
        ensures
            final(articles)@.len() == old(articles)@.len(),
            forall|i: int| 0 <= i < old(articles)@.len() ==> #[trigger] final(articles)@[i] == acted(a, old(articles)@[i]),
            r.effects@.len() == old(articles)@.len(),
            forall|i: int| 0 <= i < old(articles)@.len() ==> #[trigger] r.effects@[i] == effect_of(
                a,
                if self.services@.contains_key(old(articles)@[i].service@) { Some(self.services@[old(articles)@[i].service@]) } else { None },
                old(articles)@[i].marked_as_read,
                old(articles)@[i].hidden,
            ),
            r.session matches Some(s) ==> s.wf(),
            r.local matches Some(l) ==> l.wf(),
            session_view_of(r.session) == if a is MarkAsRead { marks_after(session_view_of(session), old(articles)@) } else { session_view_of(session) },
            local_view_of(r.local) == if a is Hide { hides_after(local_view_of(local), old(articles)@) } else { local_view_of(local) },
            r.redraw@ == self.subscribers@,
    {
        let ghost before = articles@;
        let n = articles.len();
        let mut effects: Vec<ActionEffect> = Vec::new();
        let mut session = session;
        let mut local = local;
        let ghost s0 = session_view_of(session);
        let ghost l0 = local_view_of(local);
        let mut i: usize = 0;
        while i < n
            invariant
                self.wf(),
                n == before.len(),
                articles@.len() == n,
                i <= n,
                forall|j: int| 0 <= j < i ==> #[trigger] articles@[j] == acted(a, before[j]),
                forall|j: int| i <= j < n ==> #[trigger] articles@[j] == before[j],
                effects@.len() == i,
                forall|j: int| 0 <= j < i ==> #[trigger] effects@[j] == effect_of(
                    a,
                    if self.services@.contains_key(before[j].service@) { Some(self.services@[before[j].service@]) } else { None },
                    before[j].marked_as_read,
                    before[j].hidden,
                ),
                session matches Some(s) ==> s.wf(),
                local matches Some(l) ==> l.wf(),
                session_view_of(session) == if a is MarkAsRead { marks_after(s0, before.take(i as int)) } else { s0 },
                local_view_of(local) == if a is Hide { hides_after(l0, before.take(i as int)) } else { l0 },
            decreases n - i,
        {
            proof {
                assert(before.take(i + 1).drop_last() =~= before.take(i as int));
                assert(before.take(i + 1).last() == before[i as int]);
            }
            let x = &articles[i];
            let e = self.effect(a, x.service.as_str(), x.marked_as_read, x.hidden);
            effects.push(e);
            let marked = if a == Action::MarkAsRead { !x.marked_as_read } else { x.marked_as_read };
            let hidden = if a == Action::Hide { !x.hidden } else { x.hidden };
            if a == Action::MarkAsRead {
                session = Some(mark_article_as_read(session, x.service.as_str(), x.id.clone(), marked));
            }
            if a == Action::Hide {
                local = Some(hide_article(local, x.service.as_str(), x.id.clone(), hidden));
            }
            let y = ActedArticle { service: x.service.clone(), id: x.id.clone(), marked_as_read: marked, hidden };
            articles.set(i, y);
            i = i + 1;
        }
        proof {
            assert(before.take(n as int) =~= before);
        }
        let mut redraw: Vec<u64> = Vec::new();
        let mut k: usize = 0;
        while k < self.subscribers.len()
            invariant
                k <= self.subscribers@.len(),
                redraw@ == self.subscribers@.take(k as int),
            decreases self.subscribers@.len() - k,
        {
            redraw.push(self.subscribers[k]);
            proof { assert(redraw@ =~= self.subscribers@.take(k + 1)); }
            k = k + 1;
        }
        proof { assert(self.subscribers@.take(k as int) =~= self.subscribers@); }
        ActionOutcome { effects, session, local, redraw }
    }
}

/// Marking as read, or hiding, twice in a row gives the article back the mark
/// it had.
pub proof fn toggling_twice_restores(marked: bool, hidden: bool, h: Option<ServiceActions>)
    ensures
        effect_of(Action::MarkAsRead, h, marked, hidden) == ActionEffect::SetMarkedAsRead(!marked),
        effect_of(Action::MarkAsRead, h, !marked, hidden) == ActionEffect::SetMarkedAsRead(marked),
        effect_of(Action::Hide, h, marked, !hidden) == ActionEffect::SetHidden(hidden),
{
}

}
