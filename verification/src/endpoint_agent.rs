use vstd::prelude::*;
use crate::endpoints::{
    asked_at, EndpointConstructorCollection, EndpointId, EndpointSerialized, EndpointView, ParamValue, Params, RefreshTime, plain_wrapper, stored_as, text_of, u64_of,
    TimelineEndpointWrapper,
};
use crate::dummy_service::DummyEndpoint;
use crate::filters::FilterCollection;
use crate::pixiv::{FollowAPIEndpoint, FollowPageEndpoint};
use crate::string_map::StrMap;
use crate::twitter_endpoints::{
    HomeTimelineEndpoint, LikesEndpoint, ListEndpoint, SearchEndpoint, SingleTweetEndpoint, UserTimelineEndpoint,
};
use crate::youtube::PlaylistEndpoint;
use crate::decimal::{push_signed_decimal, signed_decimal_of};
use crate::error::{Error, ErrorKind};
use crate::notifications::{Notification, NotificationRequest};
use crate::services::{refresh_step, RateLimit};

verus! {

/// What the agent keeps of an endpoint: whether timelines share it, how often
/// it refreshes by itself and whether it does, and its rate limit if its
/// service has one.
#[derive(Clone, Copy, Debug, PartialEq, Eq, Structural)]
pub struct EndpointInfo {
    pub shared: bool,
    pub interval: u32,
    pub autorefreshing: bool,
    pub ratelimit: Option<RateLimit>,
}

/// Keys strictly increase along the entries.
pub open spec fn increasing(s: Seq<(EndpointId, EndpointInfo)>) -> bool {
    forall|i: int, j: int| 0 <= i < j < s.len() ==> (#[trigger] s[i]).0 < (#[trigger] s[j]).0
}

/// The entries as a map from endpoint to what the agent keeps of it.
pub open spec fn info_map(s: Seq<(EndpointId, EndpointInfo)>) -> Map<EndpointId, EndpointInfo> {
    Map::new(
        |k: EndpointId| exists|i: int| 0 <= i < s.len() && (#[trigger] s[i]).0 == k,
        |k: EndpointId| s[choose|i: int| 0 <= i < s.len() && (#[trigger] s[i]).0 == k].1,
    )
}

proof fn lemma_info_at(s: Seq<(EndpointId, EndpointInfo)>, i: int)
    requires
        increasing(s),
        0 <= i < s.len(),
    ensures
        info_map(s).contains_key(s[i].0),
        info_map(s)[s[i].0] == s[i].1,
{
    let k = s[i].0;
    assert(exists|j: int| 0 <= j < s.len() && (#[trigger] s[j]).0 == k);
    let j = choose|j: int| 0 <= j < s.len() && (#[trigger] s[j]).0 == k;
    if j != i {
        if j < i {
            assert(s[j].0 < s[i].0);
        } else {
            assert(s[i].0 < s[j].0);
        }
    }
}

proof fn lemma_info_update(s: Seq<(EndpointId, EndpointInfo)>, i: int, v: EndpointInfo)
    requires
        increasing(s),
        0 <= i < s.len(),
    ensures
        increasing(s.update(i, (s[i].0, v))),
        info_map(s.update(i, (s[i].0, v))) == info_map(s).insert(s[i].0, v),
{
    let t = s.update(i, (s[i].0, v));
    let k = s[i].0;
    assert forall|a: int, b: int| 0 <= a < b < t.len() implies (#[trigger] t[a]).0 < (#[trigger] t[b]).0 by {
        assert(s[a].0 < s[b].0);
    }
    assert forall|x: EndpointId| #[trigger] info_map(t).contains_key(x) <==> info_map(s).insert(k, v).contains_key(x) by {
        if info_map(s).contains_key(x) {
            let j = choose|j: int| 0 <= j < s.len() && (#[trigger] s[j]).0 == x;
            assert(t[j].0 == x);
        }
        if info_map(t).contains_key(x) {
            let j = choose|j: int| 0 <= j < t.len() && (#[trigger] t[j]).0 == x;
            assert(s[j].0 == x);
        }
        lemma_info_at(t, i);
    }
    assert forall|x: EndpointId| #[trigger] info_map(t).contains_key(x) implies info_map(t)[x] == info_map(s).insert(k, v)[x] by {
        let j = choose|j: int| 0 <= j < t.len() && (#[trigger] t[j]).0 == x;
        lemma_info_at(t, j);
        if j != i {
            lemma_info_at(s, j);
        }
    }
    assert(info_map(t) =~= info_map(s).insert(k, v));
}

proof fn lemma_info_remove(s: Seq<(EndpointId, EndpointInfo)>, i: int)
    requires
        increasing(s),
        0 <= i < s.len(),
    ensures
        increasing(s.remove(i)),
        info_map(s.remove(i)) == info_map(s).remove(s[i].0),
{
    let t = s.remove(i);
    let k = s[i].0;
    assert forall|a: int, b: int| 0 <= a < b < t.len() implies (#[trigger] t[a]).0 < (#[trigger] t[b]).0 by {
        let sa = if a < i { a } else { a + 1 };
        let sb = if b < i { b } else { b + 1 };
        assert(t[a] == s[sa] && t[b] == s[sb]);
        assert(s[sa].0 < s[sb].0);
    }
    assert forall|x: EndpointId| #[trigger] info_map(t).contains_key(x) <==> info_map(s).remove(k).contains_key(x) by {
        if info_map(t).contains_key(x) {
            let j = choose|j: int| 0 <= j < t.len() && (#[trigger] t[j]).0 == x;
            let sj = if j < i { j } else { j + 1 };
            assert(t[j] == s[sj]);
            assert(s[sj].0 != s[i].0) by {
                if sj < i { assert(s[sj].0 < s[i].0); } else { assert(s[i].0 < s[sj].0); }
            }
        }
        if info_map(s).remove(k).contains_key(x) {
            let j = choose|j: int| 0 <= j < s.len() && (#[trigger] s[j]).0 == x;
            assert(j != i);
            let tj = if j < i { j } else { j - 1 };
            assert(t[tj] == s[j]);
        }
    }
    assert forall|x: EndpointId| #[trigger] info_map(t).contains_key(x) implies info_map(t)[x] == info_map(s)[x] by {
        let j = choose|j: int| 0 <= j < t.len() && (#[trigger] t[j]).0 == x;
        let sj = if j < i { j } else { j + 1 };
        assert(t[j] == s[sj]);
        lemma_info_at(t, j);
        lemma_info_at(s, sj);
    }
    assert(info_map(t) =~= info_map(s).remove(k));
}

proof fn lemma_info_push(s: Seq<(EndpointId, EndpointInfo)>, k: EndpointId, v: EndpointInfo)
    requires
        increasing(s),
        forall|i: int| 0 <= i < s.len() ==> (#[trigger] s[i]).0 < k,
    ensures
        increasing(s.push((k, v))),
        info_map(s.push((k, v))) == info_map(s).insert(k, v),
{
    let t = s.push((k, v));
    assert forall|a: int, b: int| 0 <= a < b < t.len() implies (#[trigger] t[a]).0 < (#[trigger] t[b]).0 by {
        if b < s.len() {
            assert(s[a].0 < s[b].0);
        } else {
            assert(s[a].0 < k);
        }
    }
    lemma_info_at(t, s.len() as int);
    assert forall|x: EndpointId| #[trigger] info_map(t).contains_key(x) <==> info_map(s).insert(k, v).contains_key(x) by {
        if info_map(s).contains_key(x) {
            let j = choose|j: int| 0 <= j < s.len() && (#[trigger] s[j]).0 == x;
            assert(t[j].0 == x);
        }
        if info_map(t).contains_key(x) && x != k {
            let j = choose|j: int| 0 <= j < t.len() && (#[trigger] t[j]).0 == x;
            assert(s[j].0 == x);
        }
    }
    assert forall|x: EndpointId| #[trigger] info_map(t).contains_key(x) implies info_map(t)[x] == info_map(s).insert(k, v)[x] by {
        let j = choose|j: int| 0 <= j < t.len() && (#[trigger] t[j]).0 == x;
        lemma_info_at(t, j);
        if x != k {
            lemma_info_at(s, j);
        }
    }
    assert(info_map(t) =~= info_map(s).insert(k, v));
}

/// The endpoint bookkeeping of the app: every endpoint by number, the next
/// number to give, and the components (by handler number) that follow it.
pub struct EndpointAgent {
    endpoint_counter: EndpointId,
    endpoints: Vec<(EndpointId, EndpointInfo)>,
    subscribers: Vec<u64>,
    timeline_container: Option<u64>,
}

/// A rate limit after asking at `now` whether a request may go.
pub open spec fn stepped(r: Option<RateLimit>, now: i64) -> Option<RateLimit> {
    match r {
        Some(l) => Some(refresh_step(l, now).0),
        None => None,
    }
}

/// Whether an endpoint with rate limit `r` may be asked at `now`.
pub open spec fn may_refresh(r: Option<RateLimit>, now: i64) -> bool {
    match r {
        Some(l) => refresh_step(l, now).1,
        None => true,
    }
}

/// The endpoints of `ws` asked at `t` that may be refreshed at `now`, in order.
pub open spec fn refreshable(m: Map<EndpointId, EndpointInfo>, ws: Seq<TimelineEndpointWrapper>, t: RefreshTime, now: i64) -> Seq<EndpointId>
    decreases ws.len(),
{
    if ws.len() == 0 {
        Seq::empty()
    } else {
        let rest = refreshable(m, ws.drop_last(), t, now);
        let w = ws.last();
        if asked_at(w, t) && may_refresh(m[w.id].ratelimit, now) { rest.push(w.id) } else { rest }
    }
}

/// The endpoints after each one of `ids` was asked at `now` whether it may be
/// refreshed.
pub open spec fn after_asking(m: Map<EndpointId, EndpointInfo>, ids: Set<EndpointId>, now: i64) -> Map<EndpointId, EndpointInfo> {
    Map::new(
        |k: EndpointId| m.contains_key(k),
        |k: EndpointId| if ids.contains(k) { EndpointInfo { ratelimit: stepped(m[k].ratelimit, now), ..m[k] } } else { m[k] },
    )
}

/// The endpoints of `ws` asked at `t`.
pub open spec fn asked_ids(ws: Seq<TimelineEndpointWrapper>, t: RefreshTime) -> Set<EndpointId> {
    Set::new(|k: EndpointId| exists|i: int| 0 <= i < ws.len() && (#[trigger] ws[i]).id == k && asked_at(ws[i], t))
}

/// The endpoints left once a timeline of `ws` is gone: those that it does not
/// share go with it.
pub open spec fn without_unshared(m: Map<EndpointId, EndpointInfo>, ws: Seq<TimelineEndpointWrapper>) -> Map<EndpointId, EndpointInfo> {
    m.restrict(m.dom().filter(|k: EndpointId| m[k].shared || !(exists|i: int| 0 <= i < ws.len() && (#[trigger] ws[i]).id == k)))
}

impl EndpointAgent {
    pub closed spec fn view(&self) -> Map<EndpointId, EndpointInfo> {
        info_map(self.endpoints@)
    }

    /// Every endpoint and what the agent keeps of it, by increasing number.
    pub closed spec fn entries(&self) -> Seq<(EndpointId, EndpointInfo)> {
        self.endpoints@
    }

    /// The number the next endpoint gets.
    pub closed spec fn next_id(&self) -> EndpointId {
        self.endpoint_counter
    }

    pub closed spec fn subscribers_view(&self) -> Set<u64> {
        self.subscribers@.to_set()
    }

    pub closed spec fn container_view(&self) -> Option<u64> {
        self.timeline_container
    }

    pub closed spec fn wf(&self) -> bool {
        &&& increasing(self.endpoints@)
        &&& forall|i: int| 0 <= i < self.endpoints@.len() ==> (#[trigger] self.endpoints@[i]).0 < self.endpoint_counter
    }

    /// Every endpoint has a number below the next one.
    pub proof fn lemma_ids_below(&self)
        requires
            self.wf(),
        ensures
            forall|k: EndpointId| #[trigger] self@.contains_key(k) ==> k < self.next_id(),
    {
        assert forall|k: EndpointId| #[trigger] self@.contains_key(k) implies k < self.next_id() by {
            let j = choose|j: int| 0 <= j < self.endpoints@.len() && (#[trigger] self.endpoints@[j]).0 == k;
        }
    }

    /// No endpoint yet; numbers start at the least `i32`.
    pub fn new() -> (r: Self)
        ensures
            r.wf(),
            r@ == Map::<EndpointId, EndpointInfo>::empty(),
            r.next_id() == i32::MIN,
            r.subscribers_view() == Set::<u64>::empty(),
            r.container_view() is None,
    {
        let r = EndpointAgent { endpoint_counter: i32::MIN, endpoints: Vec::new(), subscribers: Vec::new(), timeline_container: None };
        assert(r@ =~= Map::<EndpointId, EndpointInfo>::empty());
        assert(r.subscribers_view() =~= Set::<u64>::empty());
        r
    }

    fn find(&self, id: EndpointId) -> (r: Option<usize>)
        requires
            self.wf(),
        ensures
            match r {
                Some(i) => i < self.endpoints@.len() && self.endpoints@[i as int].0 == id,
                None => !self@.contains_key(id),
            },
    {
        let mut i: usize = 0;
        while i < self.endpoints.len()
            invariant
                i <= self.endpoints@.len(),
                forall|j: int| 0 <= j < i ==> (#[trigger] self.endpoints@[j]).0 != id,
            decreases self.endpoints@.len() - i,
        {
            if self.endpoints[i].0 == id {
                return Some(i);
            }
            i = i + 1;
        }
        None
    }

    /// What the agent keeps of endpoint `id`, if it has one.
    pub fn get(&self, id: EndpointId) -> (r: Option<EndpointInfo>)
        requires
            self.wf(),
        ensures
            r == (if self@.contains_key(id) { Some(self@[id]) } else { None::<EndpointInfo> }),
    {
        match self.find(id) {
            Some(i) => {
                proof { lemma_info_at(self.endpoints@, i as int); }
                Some(self.endpoints[i].1)
            },
            None => None,
        }
    }

    /// Every endpoint and what the agent keeps of it, by increasing number.
    pub fn endpoints(&self) -> (r: Vec<(EndpointId, EndpointInfo)>)
        requires
            self.wf(),
        ensures
            r@ == self.entries(),
            increasing(r@),
            info_map(r@) == self@,
    {
        let mut r: Vec<(EndpointId, EndpointInfo)> = Vec::new();
        let mut i: usize = 0;
        while i < self.endpoints.len()
            invariant
                i <= self.endpoints@.len(),
                r@ == self.endpoints@.take(i as int),
            decreases self.endpoints@.len() - i,
        {
            r.push(self.endpoints[i]);
            proof { assert(r@ =~= self.endpoints@.take(i + 1)); }
            i = i + 1;
        }
        proof { assert(r@ =~= self.endpoints@); }
        r
    }

    /// Registers a new endpoint and gives its number: the next one.
    pub fn add_endpoint(&mut self, shared: bool, interval: u32, ratelimit: Option<RateLimit>) -> (id: EndpointId)
        requires
            old(self).wf(),
            old(self).next_id() < i32::MAX,
        ensures
            final(self).wf(),
            id == old(self).next_id(),
            final(self).next_id() == old(self).next_id() + 1,
            final(self)@ == old(self)@.insert(id, EndpointInfo { shared, interval, autorefreshing: false, ratelimit }),
            final(self).subscribers_view() == old(self).subscribers_view(),
            final(self).container_view() == old(self).container_view(),
    {
        let id = self.endpoint_counter;
        let info = EndpointInfo { shared, interval, autorefreshing: false, ratelimit };
        proof { lemma_info_push(self.endpoints@, id, info); }
        self.endpoints.push((id, info));
        self.endpoint_counter = id + 1;
        id
    }

    fn set_info(&mut self, i: usize, v: EndpointInfo)
        requires
            old(self).wf(),
            i < old(self).endpoints@.len(),
        ensures
            final(self).wf(),
            final(self)@ == old(self)@.insert(old(self).endpoints@[i as int].0, v),
            final(self).next_id() == old(self).next_id(),
            final(self).subscribers_view() == old(self).subscribers_view(),
            final(self).container_view() == old(self).container_view(),
    {
        let k = self.endpoints[i].0;
        proof { lemma_info_update(self.endpoints@, i as int, v); }
        self.endpoints.set(i, (k, v));
    }

    /// Sets endpoint `id`'s rate limit, if its service has one.
    pub fn update_ratelimit(&mut self, id: EndpointId, ratelimit: RateLimit)
        requires
            old(self).wf(),
            old(self)@.contains_key(id),
        ensures
            final(self).wf(),
            final(self)@ == old(self)@.insert(id, EndpointInfo {
                ratelimit: match old(self)@[id].ratelimit { Some(_) => Some(ratelimit), None => None },
                ..old(self)@[id]
            }),
            final(self).next_id() == old(self).next_id(),
            final(self).subscribers_view() == old(self).subscribers_view(),
            final(self).container_view() == old(self).container_view(),
    {
        let i = self.find(id).unwrap();
        proof { lemma_info_at(self.endpoints@, i as int); }
        let e = self.endpoints[i].1;
        let v = EndpointInfo {
            ratelimit: match e.ratelimit {
                Some(_) => Some(ratelimit),
                None => None,
            },
            ..e
        };
        self.set_info(i, v);
    }

    /// Asks endpoint `id` at `now` whether it may be refreshed; a rate limit
    /// whose window has reset starts full again.
    pub fn try_refresh(&mut self, id: EndpointId, now: i64) -> (r: bool)
        requires
            old(self).wf(),
            old(self)@.contains_key(id),
        ensures
            final(self).wf(),
            r == may_refresh(old(self)@[id].ratelimit, now),
            final(self)@ == old(self)@.insert(id, EndpointInfo { ratelimit: stepped(old(self)@[id].ratelimit, now), ..old(self)@[id] }),
            final(self).next_id() == old(self).next_id(),
            final(self).subscribers_view() == old(self).subscribers_view(),
            final(self).container_view() == old(self).container_view(),
    {
        let i = self.find(id).unwrap();
        proof { lemma_info_at(self.endpoints@, i as int); }
        let e = self.endpoints[i].1;
        match e.ratelimit {
            Some(mut l) => {
                let ok = l.can_refresh(now);
                self.set_info(i, EndpointInfo { ratelimit: Some(l), ..e });
                ok
            },
            None => {
                self.set_info(i, e);
                true
            },
        }
    }

    /// The endpoints of a timeline (`ws`) to refresh at `t` and `now`, in its
    /// order: those it asks at `t` whose rate limit lets them. Each of them is
    /// asked, once or more, whether its rate limit lets it.
    pub fn refresh_timeline(&mut self, ws: &Vec<TimelineEndpointWrapper>, t: RefreshTime, now: i64) -> (r: Vec<EndpointId>)
        requires
            old(self).wf(),
            forall|i: int| 0 <= i < ws@.len() && asked_at(ws@[i], t) ==> old(self)@.contains_key((#[trigger] ws@[i]).id),
        ensures
            final(self).wf(),
            r@ == refreshable(old(self)@, ws@, t, now),
            final(self)@ == after_asking(old(self)@, asked_ids(ws@, t), now),
            final(self).next_id() == old(self).next_id(),
            final(self).subscribers_view() == old(self).subscribers_view(),
            final(self).container_view() == old(self).container_view(),
    {
        let ghost m0 = self@;
        let mut r: Vec<EndpointId> = Vec::new();
        let mut i: usize = 0;
        assert(after_asking(m0, asked_ids(ws@.take(0), t), now) =~= m0);
        while i < ws.len()
            invariant
                self.wf(),
                i <= ws@.len(),
                forall|j: int| 0 <= j < ws@.len() && asked_at(ws@[j], t) ==> m0.contains_key((#[trigger] ws@[j]).id),
                r@ == refreshable(m0, ws@.take(i as int), t, now),
                self@ == after_asking(m0, asked_ids(ws@.take(i as int), t), now),
                self.next_id() == old(self).next_id(),
                self.subscribers_view() == old(self).subscribers_view(),
                self.container_view() == old(self).container_view(),
            decreases ws@.len() - i,
        {
            let w = &ws[i];
            let ghost before = self@;
            let ghost prev = ws@.take(i as int);
            let ghost next = ws@.take(i + 1);
            proof {
                assert(next.drop_last() =~= prev);
                assert(next.last() == w);
            }
            if match t {
                RefreshTime::Start => w.on_start,
                RefreshTime::OnRefresh => w.on_refresh,
            } {
                proof {
                    assert(ws@[i as int] == w);
                    assert(m0.contains_key(w.id));
                }
                let ok = self.try_refresh(w.id, now);
                proof {
                    let l0 = m0[w.id].ratelimit;
                    if asked_ids(prev, t).contains(w.id) {
                        match l0 {
                            Some(l) => crate::services::asking_twice_changes_nothing(l, now),
                            None => {},
                        }
                    }
                    assert(asked_ids(next, t) =~= asked_ids(prev, t).insert(w.id)) by {
                        assert forall|k: EndpointId| asked_ids(next, t).contains(k) implies asked_ids(prev, t).insert(w.id).contains(k) by {
                            let j = choose|j: int| 0 <= j < next.len() && (#[trigger] next[j]).id == k && asked_at(next[j], t);
                            if j < i {
                                assert(prev[j] == next[j]);
                            }
                        }
                        assert forall|k: EndpointId| asked_ids(prev, t).insert(w.id).contains(k) implies asked_ids(next, t).contains(k) by {
                            if k == w.id {
                                assert(next[i as int] == w);
                            } else {
                                let j = choose|j: int| 0 <= j < prev.len() && (#[trigger] prev[j]).id == k && asked_at(prev[j], t);
                                assert(next[j] == prev[j]);
                            }
                        }
                    }
                    assert(before[w.id].ratelimit == (if asked_ids(prev, t).contains(w.id) { stepped(l0, now) } else { l0 }));
                    assert(may_refresh(before[w.id].ratelimit, now) == may_refresh(l0, now));
                    assert(self@ =~= after_asking(m0, asked_ids(next, t), now));
                }
                if ok {
                    r.push(w.id);
                }
            } else {
                proof {
                    assert(asked_ids(next, t) =~= asked_ids(prev, t)) by {
                        assert forall|k: EndpointId| asked_ids(next, t).contains(k) implies asked_ids(prev, t).contains(k) by {
                            let j = choose|j: int| 0 <= j < next.len() && (#[trigger] next[j]).id == k && asked_at(next[j], t);
                            if j < i {
                                assert(prev[j] == next[j]);
                            } else {
                                assert(next[j] == w);
                            }
                        }
                        assert forall|k: EndpointId| asked_ids(prev, t).contains(k) implies asked_ids(next, t).contains(k) by {
                            let j = choose|j: int| 0 <= j < prev.len() && (#[trigger] prev[j]).id == k && asked_at(prev[j], t);
                            assert(next[j] == prev[j]);
                        }
                    }
                }
            }
            i = i + 1;
        }
        assert(ws@.take(i as int) =~= ws@);
        r
    }

    /// Drops the endpoints that a timeline of `ws` does not share, as the
    /// timeline goes; tells whether any went. A timeline holds an endpoint it
    /// does not share once only.
    pub fn remove_timeline(&mut self, ws: &Vec<TimelineEndpointWrapper>) -> (changed: bool)
        requires
            old(self).wf(),
            forall|i: int| 0 <= i < ws@.len() ==> old(self)@.contains_key((#[trigger] ws@[i]).id),
            forall|i: int, j: int| 0 <= i < j < ws@.len() && (#[trigger] ws@[i]).id == (#[trigger] ws@[j]).id
                ==> old(self)@[ws@[i].id].shared,
        ensures
            final(self).wf(),
            final(self)@ == without_unshared(old(self)@, ws@),
            changed == exists|i: int| 0 <= i < ws@.len() && !old(self)@[(#[trigger] ws@[i]).id].shared,
            final(self).next_id() == old(self).next_id(),
            final(self).subscribers_view() == old(self).subscribers_view(),
            final(self).container_view() == old(self).container_view(),
    {
        let ghost m0 = self@;
        let mut changed = false;
        let mut i: usize = 0;
        proof {
            assert(without_unshared(m0, ws@.take(0)) =~= m0);
        }
        while i < ws.len()
            invariant
                self.wf(),
                i <= ws@.len(),
                forall|j: int| 0 <= j < ws@.len() ==> m0.contains_key((#[trigger] ws@[j]).id),
                forall|a: int, b: int| 0 <= a < b < ws@.len() && (#[trigger] ws@[a]).id == (#[trigger] ws@[b]).id
                    ==> m0[ws@[a].id].shared,
                self@ == without_unshared(m0, ws@.take(i as int)),
                changed == exists|j: int| 0 <= j < i && !m0[(#[trigger] ws@[j]).id].shared,
                self.next_id() == old(self).next_id(),
                self.subscribers_view() == old(self).subscribers_view(),
                self.container_view() == old(self).container_view(),
            decreases ws@.len() - i,
        {
            let id = ws[i].id;
            let ghost prev = ws@.take(i as int);
            let ghost next = ws@.take(i + 1);
            proof {
                assert(ws@[i as int].id == id);
                assert(m0.contains_key(id));
                if !m0[id].shared {
                    assert forall|j: int| 0 <= j < prev.len() implies (#[trigger] prev[j]).id != id by {
                        assert(prev[j] == ws@[j]);
                        if ws@[j].id == id {
                            assert(m0[ws@[j].id].shared);
                        }
                    }
                }
                assert(self@.contains_key(id)) by {
                    if !m0[id].shared {
                        if exists|j: int| 0 <= j < prev.len() && (#[trigger] prev[j]).id == id {
                            let j = choose|j: int| 0 <= j < prev.len() && (#[trigger] prev[j]).id == id;
                        }
                    }
                }
            }
            let k = self.find(id).unwrap();
            proof { lemma_info_at(self.endpoints@, k as int); }
            let shared = self.endpoints[k].1.shared;
            proof {
                assert(self@[id] == m0[id]);
            }
            if !shared {
                proof { lemma_info_remove(self.endpoints@, k as int); }
                self.endpoints.remove(k);
                changed = true;
                proof {
                    assert(self@ =~= without_unshared(m0, next)) by {
                        assert forall|x: EndpointId| self@.contains_key(x) <==> without_unshared(m0, next).contains_key(x) by {
                            if x == id {
                                assert(next[i as int].id == id);
                            } else {
                                if exists|j: int| 0 <= j < next.len() && (#[trigger] next[j]).id == x {
                                    let j = choose|j: int| 0 <= j < next.len() && (#[trigger] next[j]).id == x;
                                    assert(j < i);
                                    assert(prev[j] == next[j]);
                                }
                                if exists|j: int| 0 <= j < prev.len() && (#[trigger] prev[j]).id == x {
                                    let j = choose|j: int| 0 <= j < prev.len() && (#[trigger] prev[j]).id == x;
                                    assert(next[j] == prev[j]);
                                }
                            }
                        }
                    }
                    assert(ws@[i as int].id == id);
                }
            } else {
                proof {
                    assert(self@ =~= without_unshared(m0, next)) by {
                        assert forall|x: EndpointId| self@.contains_key(x) <==> without_unshared(m0, next).contains_key(x) by {
                            if exists|j: int| 0 <= j < next.len() && (#[trigger] next[j]).id == x {
                                let j = choose|j: int| 0 <= j < next.len() && (#[trigger] next[j]).id == x;
                                if j < i {
                                    assert(prev[j] == next[j]);
                                }
                            }
                            if exists|j: int| 0 <= j < prev.len() && (#[trigger] prev[j]).id == x {
                                let j = choose|j: int| 0 <= j < prev.len() && (#[trigger] prev[j]).id == x;
                                assert(next[j] == prev[j]);
                            }
                        }
                    }
                }
            }
            i = i + 1;
        }
        assert(ws@.take(i as int) =~= ws@);
        changed
    }

    /// Makes endpoint `id` refresh by itself; tells whether it did not already.
    pub fn start_auto_refresh(&mut self, id: EndpointId) -> (started: bool)
        requires
            old(self).wf(),
            old(self)@.contains_key(id),
        ensures
            final(self).wf(),
            started == !old(self)@[id].autorefreshing,
            final(self)@ == old(self)@.insert(id, EndpointInfo { autorefreshing: true, ..old(self)@[id] }),
            final(self).next_id() == old(self).next_id(),
            final(self).subscribers_view() == old(self).subscribers_view(),
            final(self).container_view() == old(self).container_view(),
    {
        let i = self.find(id).unwrap();
        proof { lemma_info_at(self.endpoints@, i as int); }
        let e = self.endpoints[i].1;
        if e.autorefreshing {
            proof { assert(old(self)@.insert(id, e) =~= old(self)@); }
            false
        } else {
            self.set_info(i, EndpointInfo { autorefreshing: true, ..e });
            true
        }
    }

    /// Stops endpoint `id` refreshing by itself; tells whether it did.
    pub fn stop_auto_refresh(&mut self, id: EndpointId) -> (stopped: bool)
        requires
            old(self).wf(),
            old(self)@.contains_key(id),
        ensures
            final(self).wf(),
            stopped == old(self)@[id].autorefreshing,
            final(self)@ == old(self)@.insert(id, EndpointInfo { autorefreshing: false, ..old(self)@[id] }),
            final(self).next_id() == old(self).next_id(),
            final(self).subscribers_view() == old(self).subscribers_view(),
            final(self).container_view() == old(self).container_view(),
    {
        let i = self.find(id).unwrap();
        proof { lemma_info_at(self.endpoints@, i as int); }
        let e = self.endpoints[i].1;
        if e.autorefreshing {
            self.set_info(i, EndpointInfo { autorefreshing: false, ..e });
            true
        } else {
            proof { assert(old(self)@.insert(id, e) =~= old(self)@); }
            false
        }
    }

    /// Sets how often endpoint `id` refreshes by itself.
    pub fn set_auto_refresh_interval(&mut self, id: EndpointId, interval: u32)
        requires
            old(self).wf(),
            old(self)@.contains_key(id),
        ensures
            final(self).wf(),
            final(self)@ == old(self)@.insert(id, EndpointInfo { interval, ..old(self)@[id] }),
            final(self).next_id() == old(self).next_id(),
            final(self).subscribers_view() == old(self).subscribers_view(),
            final(self).container_view() == old(self).container_view(),
    {
        let i = self.find(id).unwrap();
        proof { lemma_info_at(self.endpoints@, i as int); }
        let e = self.endpoints[i].1;
        self.set_info(i, EndpointInfo { interval, ..e });
    }

    /// Component `id` follows the agent's state.
    pub fn connected(&mut self, id: u64)
        requires
            old(self).wf(),
        ensures
            final(self).wf(),
            final(self).subscribers_view() == old(self).subscribers_view().insert(id),
            final(self)@ == old(self)@,
            final(self).next_id() == old(self).next_id(),
            final(self).container_view() == old(self).container_view(),
    {
        self.subscribers.push(id);
        proof {
            assert(self.subscribers@.to_set() =~= old(self).subscribers@.to_set().insert(id)) by {
                assert forall|x: u64| self.subscribers@.to_set().contains(x) <==> old(self).subscribers@.to_set().insert(id).contains(x) by {
                    if self.subscribers@.contains(x) && x != id {
                        let j = choose|j: int| 0 <= j < self.subscribers@.len() && self.subscribers@[j] == x;
                        assert(old(self).subscribers@[j] == x);
                    }
                    if old(self).subscribers@.contains(x) {
                        let j = choose|j: int| 0 <= j < old(self).subscribers@.len() && old(self).subscribers@[j] == x;
                        assert(self.subscribers@[j] == x);
                    }
                    if x == id {
                        assert(self.subscribers@[self.subscribers@.len() - 1] == id);
                    }
                }
            }
        }
    }

    /// Component `id` is gone: it no longer follows the agent's state, nor
    /// receives new timelines.
    pub fn disconnected(&mut self, id: u64)
        requires
            old(self).wf(),
        ensures
            final(self).wf(),
            final(self).subscribers_view() == old(self).subscribers_view().remove(id),
            final(self).container_view() == (if old(self).container_view() == Some(id) { None } else { old(self).container_view() }),
            final(self)@ == old(self)@,
            final(self).next_id() == old(self).next_id(),
    {
        let ghost before = self.subscribers@;
        let mut kept: Vec<u64> = Vec::new();
        let mut i: usize = 0;
        while i < self.subscribers.len()
            invariant
                self.subscribers@ == before,
                i <= before.len(),
                kept@.to_set() == before.take(i as int).to_set().remove(id),
            decreases before.len() - i,
        {
            let s = self.subscribers[i];
            proof {
                assert(before.take(i + 1) =~= before.take(i as int).push(s));
                assert(before.take(i as int).push(s).to_set() =~= before.take(i as int).to_set().insert(s)) by {
                    let p = before.take(i as int);
                    assert forall|x: u64| p.push(s).to_set().contains(x) <==> p.to_set().insert(s).contains(x) by {
                        if p.push(s).contains(x) && x != s {
                            let j = choose|j: int| 0 <= j < p.push(s).len() && p.push(s)[j] == x;
                            assert(p[j] == x);
                        }
                        if p.contains(x) {
                            let j = choose|j: int| 0 <= j < p.len() && p[j] == x;
                            assert(p.push(s)[j] == x);
                        }
                        if x == s {
                            assert(p.push(s)[p.len() as int] == s);
                        }
                    }
                }
            }
            if s != id {
                let ghost k0 = kept@;
                kept.push(s);
                proof {
                    assert(kept@.to_set() =~= k0.to_set().insert(s)) by {
                        assert forall|x: u64| kept@.to_set().contains(x) <==> k0.to_set().insert(s).contains(x) by {
                            if kept@.contains(x) && x != s {
                                let j = choose|j: int| 0 <= j < kept@.len() && kept@[j] == x;
                                assert(k0[j] == x);
                            }
                            if k0.contains(x) {
                                let j = choose|j: int| 0 <= j < k0.len() && k0[j] == x;
                                assert(kept@[j] == x);
                            }
                            if x == s {
                                assert(kept@[k0.len() as int] == s);
                            }
                        }
                    }
                    assert(kept@.to_set() =~= before.take(i + 1).to_set().remove(id));
                }
            } else {
                proof {
                    assert(kept@.to_set() =~= before.take(i + 1).to_set().remove(id));
                }
            }
            i = i + 1;
        }
        assert(before.take(i as int) =~= before);
        self.subscribers = kept;
        if self.timeline_container == Some(id) {
            self.timeline_container = None;
        }
    }

    /// Component `id` is the one that receives new timelines.
    pub fn register_timeline_container(&mut self, id: u64)
        ensures
            final(self).container_view() == Some(id),
            final(self)@ == old(self)@,
            final(self).wf() == old(self).wf(),
            final(self).next_id() == old(self).next_id(),
            final(self).subscribers_view() == old(self).subscribers_view(),
    {
        self.timeline_container = Some(id);
    }

    /// The component that receives new timelines, if any.
    pub fn timeline_container(&self) -> (r: Option<u64>)
        ensures
            r == self.container_view(),
    {
        self.timeline_container
    }

    /// The components that follow the agent's state, each once.
    pub fn subscribers(&self) -> (r: Vec<u64>)
        ensures
            r@.to_set() == self.subscribers_view(),
    {
        self.subscribers.clone()
    }
}

/// Whether a timeline of `ws` takes the articles that endpoint `id` got for
/// time `t`: it does when it asks that endpoint at `t`.
pub fn receives_articles(ws: &Vec<TimelineEndpointWrapper>, t: RefreshTime, id: EndpointId) -> (r: bool)
    ensures
        r == exists|i: int| 0 <= i < ws@.len() && (#[trigger] ws@[i]).id == id && asked_at(ws@[i], t),
{
    let mut i: usize = 0;
    while i < ws.len()
        invariant
            i <= ws@.len(),
            forall|j: int| 0 <= j < i ==> !((#[trigger] ws@[j]).id == id && asked_at(ws@[j], t)),
        decreases ws@.len() - i,
    {
        let w = &ws[i];
        let asked = match t {
            RefreshTime::Start => w.on_start,
            RefreshTime::OnRefresh => w.on_refresh,
        };
        if w.id == id && asked {
            assert(ws@[i as int] == w);
            return true;
        }
        i = i + 1;
    }
    false
}

/// Where the endpoint of a stored timeline comes from: one already registered
/// that matches it, a new one made by its service (with the refresh interval
/// and rate limit it starts with), or none, its service being unknown.
#[derive(Clone, Copy, Debug, PartialEq, Eq, Structural)]
pub enum EndpointSource {
    Existing(EndpointId),
    Created { interval: u32, ratelimit: Option<RateLimit> },
    Unregistered,
}

/// The names, each in double quotes, separated by commas, in square brackets.
pub open spec fn quoted_list(names: Seq<Seq<char>>) -> Seq<char>
    decreases names.len(),
{
    if names.len() == 0 {
        "[]"@
    } else {
        quoted_items(names) + "]"@
    }
}

/// The opening bracket and the quoted names, separated by commas.
pub open spec fn quoted_items(names: Seq<Seq<char>>) -> Seq<char>
    decreases names.len(),
{
    if names.len() == 0 {
        "["@
    } else if names.len() == 1 {
        "[\""@ + names[0] + "\""@
    } else {
        quoted_items(names.drop_last()) + ", \""@ + names.last() + "\""@
    }
}

/// The message for a stored timeline whose service is not registered.
pub open spec fn unregistered_message(service: Seq<char>, available: Seq<Seq<char>>) -> Seq<char> {
    service + " isn't registered as a service. Available: "@ + quoted_list(available)
}

fn list_names(available: &Vec<String>) -> (r: String)
    ensures
        r@ == quoted_list(available@.map_values(|s: String| s@)),
{
    proof {
        reveal_strlit("[");
        reveal_strlit("]");
        reveal_strlit("[]");
        reveal_strlit("[\"");
        reveal_strlit(", \"");
        reveal_strlit("\"");
    }
    if available.len() == 0 {
        return String::from_str("[]");
    }
    let mut r = String::from_str("[");
    let ghost names = available@.map_values(|s: String| s@);
    let mut i: usize = 0;
    while i < available.len()
        invariant
            i <= available@.len(),
            names == available@.map_values(|s: String| s@),
            available@.len() > 0,
            r@ == quoted_items(names.take(i as int)),
        decreases available@.len() - i,
    {
        let ghost prev = names.take(i as int);
        if i == 0 {
            r.append("\"");
        } else {
            r.append(", \"");
        }
        r.append(available[i].as_str());
        r.append("\"");
        proof {
            reveal_strlit("[");
            reveal_strlit("[\"");
            reveal_strlit(", \"");
            reveal_strlit("\"");
            let next = names.take(i + 1);
            assert(next.drop_last() =~= prev);
            assert(next.last() == available@[i as int]@);
            if i == 0 {
                assert(next.len() == 1);
                assert(next[0] == available@[0]@);
                assert("["@ + "\""@ =~= "[\""@);
                assert(r@ =~= "[\""@ + next[0] + "\""@);
            } else {
                assert(r@ =~= quoted_items(prev) + ", \""@ + next.last() + "\""@);
            }
        }
        i = i + 1;
    }
    r.append("]");
    proof {
        assert(names.take(i as int) =~= names);
    }
    r
}

/// The view of an endpoint that the endpoint chooser shows.
pub open spec fn view_of(e: (EndpointId, EndpointInfo), name: String) -> EndpointView {
    EndpointView {
        id: e.0,
        name,
        ratelimit: e.1.ratelimit,
        is_autorefreshing: e.1.autorefreshing,
        autorefresh_interval: e.1.interval,
        shared: e.1.shared,
    }
}

impl EndpointAgent {
    /// The views of every endpoint, in the order of `entries`, each named by
    /// the name at its place in `names`.
    pub fn endpoint_views(&self, names: &Vec<String>) -> (r: Vec<EndpointView>)
        requires
            names@.len() == self.entries().len(),
        ensures
            r@.len() == self.entries().len(),
            forall|i: int| 0 <= i < r@.len() ==> #[trigger] r@[i] == view_of(self.entries()[i], names@[i]),
    {
        let mut r: Vec<EndpointView> = Vec::new();
        let mut i: usize = 0;
        while i < self.endpoints.len()
            invariant
                i <= self.endpoints@.len(),
                names@.len() == self.endpoints@.len(),
                r@.len() == i,
                forall|j: int| 0 <= j < i ==> #[trigger] r@[j] == view_of(self.endpoints@[j], names@[j]),
            decreases self.endpoints@.len() - i,
        {
            let (id, info) = self.endpoints[i];
            r.push(EndpointView {
                id,
                name: names[i].clone(),
                ratelimit: info.ratelimit,
                is_autorefreshing: info.autorefreshing,
                autorefresh_interval: info.interval,
                shared: info.shared,
            });
            i = i + 1;
        }
        r
    }
}

/// The first endpoint of `matches` that a stored endpoint matched.
pub open spec fn first_match(matches: Seq<(EndpointId, bool)>) -> Option<EndpointId>
    decreases matches.len(),
{
    if matches.len() == 0 {
        None
    } else if matches[0].1 {
        Some(matches[0].0)
    } else {
        first_match(matches.drop_first())
    }
}

/// The registered endpoint that a stored endpoint is, from whether each one,
/// in turn, matched it: the first that did.
pub fn endpoint_from_constructor(matches: &Vec<(EndpointId, bool)>) -> (r: Option<EndpointId>)
    ensures
        r == first_match(matches@),
{
    let mut i: usize = 0;
    assert(matches@.skip(0) =~= matches@);
    while i < matches.len()
        invariant
            i <= matches@.len(),
            first_match(matches@.skip(i as int)) == first_match(matches@),
        decreases matches@.len() - i,
    {
        if matches[i].1 {
            return Some(matches[i].0);
        }
        proof {
            assert(matches@.skip(i as int).drop_first() =~= matches@.skip(i + 1));
        }
        i = i + 1;
    }
    None
}

impl EndpointAgent {
    /// The endpoint for a stored timeline's endpoint: the matching one, else a
    /// new shared one, which refreshes by itself if the timeline asked so, else
    /// the error that its service is not registered, naming those that are.
    /// The timeline's articles of it pass `filters`. Also tells whether the
    /// endpoint is to start refreshing by itself.
    pub fn find_endpoint_or_create(
        &mut self,
        source: EndpointSource,
        on_start: bool,
        on_refresh: bool,
        auto_refresh: bool,
        filters: FilterCollection,
        service: &str,
        available: &Vec<String>,
    ) -> (r: Result<(TimelineEndpointWrapper, bool), Error>)
        requires
            old(self).wf(),
            source is Created ==> old(self).next_id() < i32::MAX,
        ensures
            final(self).wf(),
            match source {
                EndpointSource::Existing(id) => {
                    &&& r == Ok::<(TimelineEndpointWrapper, bool), Error>((TimelineEndpointWrapper { id, on_start, on_refresh, filters }, auto_refresh))
                    &&& final(self)@ == old(self)@
                    &&& final(self).next_id() == old(self).next_id()
                },
                EndpointSource::Created { interval, ratelimit } => {
                    &&& r == Ok::<(TimelineEndpointWrapper, bool), Error>((TimelineEndpointWrapper { id: old(self).next_id(), on_start, on_refresh, filters }, auto_refresh))
                    &&& final(self)@ == old(self)@.insert(old(self).next_id(), EndpointInfo { shared: true, interval, autorefreshing: false, ratelimit })
                    &&& final(self).next_id() == old(self).next_id() + 1
                },
                EndpointSource::Unregistered => {
                    &&& r matches Err(Error::Generic(ErrorKind::Text(m)))
                        && m@ == unregistered_message(service@, available@.map_values(|s: String| s@))
                    &&& final(self)@ == old(self)@
                    &&& final(self).next_id() == old(self).next_id()
                },
            },
    {
        match source {
            EndpointSource::Existing(id) => Ok((TimelineEndpointWrapper { id, on_start, on_refresh, filters }, auto_refresh)),
            EndpointSource::Created { interval, ratelimit } => {
                let id = self.add_endpoint(true, interval, ratelimit);
                Ok((TimelineEndpointWrapper { id, on_start, on_refresh, filters }, auto_refresh))
            },
            EndpointSource::Unregistered => {
                let mut m = String::from_str(service);
                m.append(" isn't registered as a service. Available: ");
                let names = list_names(available);
                m.append(names.as_str());
                Err(Error::Generic(ErrorKind::Text(m)))
            },
        }
    }
}

/// An endpoint of any service, as the registry keeps it.
pub enum AnyEndpoint {
    HomeTimeline(HomeTimelineEndpoint),
    UserTimeline(UserTimelineEndpoint),
    List(ListEndpoint),
    Likes(LikesEndpoint),
    SingleTweet(SingleTweetEndpoint),
    Search(SearchEndpoint),
    FollowPage(FollowPageEndpoint),
    FollowAPI(FollowAPIEndpoint),
    Playlist(PlaylistEndpoint),
    Dummy(DummyEndpoint),
}

/// Whether endpoint `e` is the stored endpoint `s`, as its `eq_storage` tells.
pub open spec fn matches_stored(e: AnyEndpoint, s: EndpointSerialized) -> bool {
    match e {
        AnyEndpoint::HomeTimeline(_) => stored_as(s, "Twitter"@, 0),
        AnyEndpoint::UserTimeline(u) => stored_as(s, "Twitter"@, 1) && text_of(s.params@, "username"@) == Some(u.username@),
        AnyEndpoint::List(l) => stored_as(s, "Twitter"@, 2) && text_of(s.params@, "username"@) == Some(l.username@)
            && text_of(s.params@, "slug"@) == Some(l.slug@),
        AnyEndpoint::Likes(l) => stored_as(s, "Twitter"@, 3) && text_of(s.params@, "username"@) == Some(l.username@),
        AnyEndpoint::SingleTweet(t) => stored_as(s, "Twitter"@, 4) && u64_of(s.params@, "id"@) == Some(t.tweet_id),
        AnyEndpoint::Search(q) => stored_as(s, "Twitter"@, 4) && text_of(s.params@, "query"@) == Some(q.query@),
        AnyEndpoint::FollowPage(_) => stored_as(s, "Pixiv"@, 0),
        AnyEndpoint::FollowAPI(_) => stored_as(s, "Pixiv"@, 1),
        AnyEndpoint::Playlist(_) => stored_as(s, "YouTube"@, 0),
        AnyEndpoint::Dummy(_) => stored_as(s, "Dummy"@, 0),
    }
}

impl AnyEndpoint {
    /// Whether this endpoint is the stored endpoint `storage`.
    pub fn eq_storage(&self, storage: &EndpointSerialized) -> (r: bool)
        requires
            storage.params.wf(),
        ensures
            r == matches_stored(*self, *storage),
    {
        match self {
            AnyEndpoint::HomeTimeline(e) => e.eq_storage(storage),
            AnyEndpoint::UserTimeline(e) => e.eq_storage(storage),
            AnyEndpoint::List(e) => e.eq_storage(storage),
            AnyEndpoint::Likes(e) => e.eq_storage(storage),
            AnyEndpoint::SingleTweet(e) => e.eq_storage(storage),
            AnyEndpoint::Search(e) => e.eq_storage(storage),
            AnyEndpoint::FollowPage(e) => e.eq_storage(storage),
            AnyEndpoint::FollowAPI(e) => e.eq_storage(storage),
            AnyEndpoint::Playlist(e) => e.eq_storage(storage),
            AnyEndpoint::Dummy(e) => e.eq_storage(storage),
        }
    }
}

/// Each endpoint of `es` with whether it is the stored endpoint `s`.
pub open spec fn match_flags(es: Seq<(EndpointId, AnyEndpoint)>, s: EndpointSerialized) -> Seq<(EndpointId, bool)> {
    es.map_values(|e: (EndpointId, AnyEndpoint)| (e.0, matches_stored(e.1, s)))
}

/// Each endpoint of `endpoints`, in order, with whether it is the stored
/// endpoint `stored`.
pub fn storage_matches(endpoints: &Vec<(EndpointId, AnyEndpoint)>, stored: &EndpointSerialized) -> (r: Vec<(EndpointId, bool)>)
    requires
        stored.params.wf(),
    ensures
        r@ == match_flags(endpoints@, *stored),
{
    let mut r: Vec<(EndpointId, bool)> = Vec::new();
    let mut i: usize = 0;
    while i < endpoints.len()
        invariant
            stored.params.wf(),
            i <= endpoints@.len(),
            r@ == match_flags(endpoints@.take(i as int), *stored),
        decreases endpoints@.len() - i,
    {
        let b = endpoints[i].1.eq_storage(stored);
        r.push((endpoints[i].0, b));
        proof {
            assert(match_flags(endpoints@.take(i + 1), *stored) =~= match_flags(endpoints@.take(i as int), *stored).push((endpoints@[i as int].0, b)));
        }
        i = i + 1;
    }
    proof { assert(endpoints@.take(i as int) =~= endpoints@); }
    r
}

proof fn lemma_first_match_in(s: Seq<(EndpointId, bool)>)
    ensures
        first_match(s) matches Some(id) ==> exists|i: int| 0 <= i < s.len() && (#[trigger] s[i]).0 == id,
    decreases s.len(),
{
    if s.len() > 0 && !s[0].1 {
        lemma_first_match_in(s.drop_first());
        if first_match(s) is Some {
            let i = choose|i: int| 0 <= i < s.drop_first().len() && (#[trigger] s.drop_first()[i]).0 == first_match(s)->0;
            assert(s[i + 1] == s.drop_first()[i]);
        }
    }
}

impl EndpointAgent {
    /// The endpoint for a stored timeline's endpoint `stored`, from whether
    /// each registered endpoint, in the order of `entries`, matched it
    /// (`matches`) and the services registered: the first endpoint that
    /// matched; else, when its service is registered, a new shared endpoint
    /// made by the service's kind `stored.endpoint_type` with the stored
    /// parameters, which starts with refresh interval `interval` and rate
    /// limit `ratelimit`; else the error that the service is not registered,
    /// naming those that are. Also tells whether the endpoint is to start
    /// refreshing by itself: when the stored endpoint asked so.
    pub fn find_stored_endpoint_or_create(
        &mut self,
        stored: &EndpointSerialized,
        endpoints: &Vec<(EndpointId, AnyEndpoint)>,
        services: &StrMap<EndpointConstructorCollection>,
        interval: u32,
        ratelimit: Option<RateLimit>,
        on_start: bool,
        on_refresh: bool,
    ) -> (r: Result<(TimelineEndpointWrapper, bool), Error>)
        requires
            old(self).wf(),
            services.wf(),
            stored.params.wf(),
            endpoints@.len() == old(self).entries().len(),
            forall|i: int| 0 <= i < endpoints@.len() ==> (#[trigger] endpoints@[i]).0 == old(self).entries()[i].0,
            first_match(match_flags(endpoints@, *stored)) is None && services@.contains_key(stored.service@) ==> {
                &&& stored.endpoint_type < services@[stored.service@].constructors@.len()
                &&& old(self).next_id() < i32::MAX
            },
        ensures
            final(self).wf(),
            match first_match(match_flags(endpoints@, *stored)) {
                Some(id) => {
                    &&& old(self)@.contains_key(id)
                    &&& r matches Ok((w, auto)) && w.id == id && w.on_start == on_start && w.on_refresh == on_refresh
                        && w.filters.instances@ == stored.filters.instances@ && auto == stored.auto_refresh
                    &&& final(self)@ == old(self)@
                    &&& final(self).next_id() == old(self).next_id()
                },
                None => if services@.contains_key(stored.service@) {
                    &&& r matches Ok((w, auto)) && w.id == old(self).next_id() && w.on_start == on_start && w.on_refresh == on_refresh
                        && w.filters.instances@ == stored.filters.instances@ && auto == stored.auto_refresh
                    &&& final(self)@ == old(self)@.insert(
                        old(self).next_id(),
                        EndpointInfo { shared: true, interval, autorefreshing: false, ratelimit },
                    )
                    &&& final(self).next_id() == old(self).next_id() + 1
                } else {
                    &&& r matches Err(Error::Generic(ErrorKind::Text(m))) && exists|names: Seq<Seq<char>>|
                        names.no_duplicates() && names.to_set() == services@.dom()
                            && m@ == #[trigger] unregistered_message(stored.service@, names)
                    &&& final(self)@ == old(self)@
                    &&& final(self).next_id() == old(self).next_id()
                },
            },
    {
        proof {
            lemma_first_match_in(match_flags(endpoints@, *stored));
        }
        let matches = storage_matches(endpoints, stored);
        proof {
            if first_match(matches@) is Some {
                let i = choose|i: int| 0 <= i < matches@.len() && (#[trigger] matches@[i]).0 == first_match(matches@)->0;
                assert(matches@[i].0 == endpoints@[i].0);
                lemma_info_at(self.endpoints@, i);
            }
        }
        let source = match endpoint_from_constructor(&matches) {
            Some(id) => EndpointSource::Existing(id),
            None => if services.get(stored.service.as_str()).is_some() {
                EndpointSource::Created { interval, ratelimit }
            } else {
                EndpointSource::Unregistered
            },
        };
        let available = services.keys();
        let r = self.find_endpoint_or_create(source, on_start, on_refresh, stored.auto_refresh, stored.filters.copy(), stored.service.as_str(), &available);
        proof {
            if source is Unregistered {
                let names = available@.map_values(|s: String| s@);
                assert(names.no_duplicates() && names.to_set() == services@.dom());
            }
        }
        r
    }
}

/// An endpoint to add in a batch: whether timelines share it, its refresh
/// interval and rate limit, and when the new timeline asks it.
#[derive(Clone, Copy, Debug, PartialEq, Eq, Structural)]
pub struct NewEndpoint {
    pub shared: bool,
    pub interval: u32,
    pub ratelimit: Option<RateLimit>,
    pub on_start: bool,
    pub on_refresh: bool,
}

/// The endpoints after the batch `b` is added with numbers from `start` on.
pub open spec fn batch_added(m: Map<EndpointId, EndpointInfo>, start: int, b: Seq<NewEndpoint>) -> Map<EndpointId, EndpointInfo>
    decreases b.len(),
{
    if b.len() == 0 {
        m
    } else {
        let e = b.last();
        batch_added(m, start, b.drop_last()).insert(
            (start + b.len() - 1) as EndpointId,
            EndpointInfo { shared: e.shared, interval: e.interval, autorefreshing: false, ratelimit: e.ratelimit },
        )
    }
}

impl EndpointAgent {
    /// Adds the endpoints of `batch` for a new timeline, numbered in turn from
    /// the next number, and gives the timeline's endpoints; nothing is added
    /// while no component receives new timelines.
    pub fn batch_add_endpoints(&mut self, batch: &Vec<NewEndpoint>) -> (r: Option<Vec<TimelineEndpointWrapper>>)
        requires
            old(self).wf(),
            old(self).next_id() + batch@.len() <= i32::MAX,
        ensures
            final(self).wf(),
            final(self).subscribers_view() == old(self).subscribers_view(),
            final(self).container_view() == old(self).container_view(),
            old(self).container_view() is None ==> {
                &&& r is None
                &&& final(self)@ == old(self)@
                &&& final(self).next_id() == old(self).next_id()
            },
            old(self).container_view() is Some ==> {
                &&& r matches Some(ws) && ws@.len() == batch@.len() && forall|i: int| 0 <= i < batch@.len() ==> plain_wrapper(#[trigger] ws@[i], (old(self).next_id() + i) as EndpointId, batch@[i].on_start, batch@[i].on_refresh)
                &&& final(self)@ == batch_added(old(self)@, old(self).next_id() as int, batch@)
                &&& final(self).next_id() == old(self).next_id() + batch@.len()
            },
    {
        if self.timeline_container.is_none() {
            return None;
        }
        let ghost m0 = self@;
        let ghost start = self.endpoint_counter as int;
        let mut ws: Vec<TimelineEndpointWrapper> = Vec::new();
        let mut i: usize = 0;
        while i < batch.len()
            invariant
                self.wf(),
                i <= batch@.len(),
                start + batch@.len() <= i32::MAX,
                self.next_id() == start + i,
                self@ == batch_added(m0, start, batch@.take(i as int)),
                self.timeline_container is Some,
                ws@.len() == i,
                forall|j: int| 0 <= j < i ==> plain_wrapper(#[trigger] ws@[j], (start + j) as EndpointId, batch@[j].on_start, batch@[j].on_refresh),
                self.subscribers_view() == old(self).subscribers_view(),
                self.container_view() == old(self).container_view(),
            decreases batch@.len() - i,
        {
            let e = batch[i];
            proof {
                assert(batch@.take(i + 1).drop_last() =~= batch@.take(i as int));
                assert(batch@.take(i + 1).last() == e);
            }
            let id = self.add_endpoint(e.shared, e.interval, e.ratelimit);
            ws.push(TimelineEndpointWrapper::new(id, e.on_start, e.on_refresh));
            i = i + 1;
        }
        proof { assert(batch@.take(i as int) =~= batch@); }
        Some(ws)
    }
}

/// A request that changes the endpoint agent.
pub enum AgentRequest {
    AddEndpoint { shared: bool, interval: u32, ratelimit: Option<RateLimit> },
    BatchAddEndpoints(Vec<NewEndpoint>),
    UpdateRateLimit(EndpointId, RateLimit),
    StartAutoRefresh(EndpointId),
    StopAutoRefresh(EndpointId),
    SetAutoRefreshInterval(EndpointId, u32),
    RemoveTimeline(Vec<TimelineEndpointWrapper>),
    Refresh(Vec<TimelineEndpointWrapper>, RefreshTime, i64),
    RegisterTimelineContainer(u64),
}

/// What the agent answers a request: the new endpoint's number, the new
/// timeline's endpoints, the endpoints to refresh, or whether something
/// changed.
pub enum AgentReply {
    Added(EndpointId),
    Batch(Option<Vec<TimelineEndpointWrapper>>),
    ToRefresh(Vec<EndpointId>),
    Changed(bool),
    Done,
}

/// Whether the agent can take request `q`: the endpoints it names are
/// registered, a timeline that goes does not name an unshared endpoint twice,
/// and numbers for new endpoints remain.
pub open spec fn request_ok(a: EndpointAgent, q: AgentRequest) -> bool {
    match q {
        AgentRequest::AddEndpoint { .. } => a.next_id() < i32::MAX,
        AgentRequest::BatchAddEndpoints(b) => a.next_id() + b@.len() <= i32::MAX,
        AgentRequest::UpdateRateLimit(id, _) => a@.contains_key(id),
        AgentRequest::StartAutoRefresh(id) => a@.contains_key(id),
        AgentRequest::StopAutoRefresh(id) => a@.contains_key(id),
        AgentRequest::SetAutoRefreshInterval(id, _) => a@.contains_key(id),
        AgentRequest::RemoveTimeline(ws) => {
            &&& forall|i: int| 0 <= i < ws@.len() ==> a@.contains_key((#[trigger] ws@[i]).id)
            &&& forall|i: int, j: int| 0 <= i < j < ws@.len() && (#[trigger] ws@[i]).id == (#[trigger] ws@[j]).id
                ==> a@[ws@[i].id].shared
        },
        AgentRequest::Refresh(ws, t, _) => forall|i: int| 0 <= i < ws@.len() && asked_at(ws@[i], t) ==> a@.contains_key((#[trigger] ws@[i]).id),
        AgentRequest::RegisterTimelineContainer(_) => true,
    }
}

impl EndpointAgent {
    /// Handles request `q`. Whatever the request, every endpoint number stays
    /// below the next one, the next number never goes down, and an endpoint
    /// that was not there before has a number given by this request: one that
    /// no endpoint had.
    pub fn handle_input(&mut self, q: AgentRequest) -> (r: AgentReply)
        requires
            old(self).wf(),
            request_ok(*old(self), q),
        ensures
            final(self).wf(),
            final(self).next_id() >= old(self).next_id(),
            forall|k: EndpointId| #[trigger] final(self)@.contains_key(k) ==> k < final(self).next_id(),
            forall|k: EndpointId| #[trigger] final(self)@.contains_key(k) && !old(self)@.contains_key(k)
                ==> old(self).next_id() <= k,
            final(self).subscribers_view() == old(self).subscribers_view(),
            final(self).container_view() == match q {
                AgentRequest::RegisterTimelineContainer(c) => Some(c),
                _ => old(self).container_view(),
            },
            match q {
                AgentRequest::AddEndpoint { shared, interval, ratelimit } => {
                    &&& r == AgentReply::Added(old(self).next_id())
                    &&& final(self)@ == old(self)@.insert(old(self).next_id(), EndpointInfo { shared, interval, autorefreshing: false, ratelimit })
                    &&& final(self).next_id() == old(self).next_id() + 1
                },
                AgentRequest::BatchAddEndpoints(b) => if old(self).container_view() is None {
                    &&& r == AgentReply::Batch(None)
                    &&& final(self)@ == old(self)@
                    &&& final(self).next_id() == old(self).next_id()
                } else {
                    &&& r matches AgentReply::Batch(Some(ws)) && ws@.len() == b@.len() && forall|i: int| 0 <= i < b@.len() ==> plain_wrapper(#[trigger] ws@[i], (old(self).next_id() + i) as EndpointId, b@[i].on_start, b@[i].on_refresh)
                    &&& final(self)@ == batch_added(old(self)@, old(self).next_id() as int, b@)
                    &&& final(self).next_id() == old(self).next_id() + b@.len()
                },
                AgentRequest::UpdateRateLimit(id, l) => {
                    &&& r == AgentReply::Done
                    &&& final(self)@ == old(self)@.insert(id, EndpointInfo {
                        ratelimit: match old(self)@[id].ratelimit { Some(_) => Some(l), None => None },
                        ..old(self)@[id]
                    })
                    &&& final(self).next_id() == old(self).next_id()
                },
                AgentRequest::StartAutoRefresh(id) => {
                    &&& r == AgentReply::Changed(!old(self)@[id].autorefreshing)
                    &&& final(self)@ == old(self)@.insert(id, EndpointInfo { autorefreshing: true, ..old(self)@[id] })
                    &&& final(self).next_id() == old(self).next_id()
                },
                AgentRequest::StopAutoRefresh(id) => {
                    &&& r == AgentReply::Changed(old(self)@[id].autorefreshing)
                    &&& final(self)@ == old(self)@.insert(id, EndpointInfo { autorefreshing: false, ..old(self)@[id] })
                    &&& final(self).next_id() == old(self).next_id()
                },
                AgentRequest::SetAutoRefreshInterval(id, interval) => {
                    &&& r == AgentReply::Done
                    &&& final(self)@ == old(self)@.insert(id, EndpointInfo { interval, ..old(self)@[id] })
                    &&& final(self).next_id() == old(self).next_id()
                },
                AgentRequest::RemoveTimeline(ws) => {
                    &&& r == AgentReply::Changed(exists|i: int| 0 <= i < ws@.len() && !old(self)@[(#[trigger] ws@[i]).id].shared)
                    &&& final(self)@ == without_unshared(old(self)@, ws@)
                    &&& final(self).next_id() == old(self).next_id()
                },
                AgentRequest::Refresh(ws, t, now) => {
                    &&& r matches AgentReply::ToRefresh(ids) && ids@ == refreshable(old(self)@, ws@, t, now)
                    &&& final(self)@ == after_asking(old(self)@, asked_ids(ws@, t), now)
                    &&& final(self).next_id() == old(self).next_id()
                },
                AgentRequest::RegisterTimelineContainer(_) => {
                    &&& r == AgentReply::Done
                    &&& final(self)@ == old(self)@
                    &&& final(self).next_id() == old(self).next_id()
                },
            },
    {
        let r = match q {
            AgentRequest::AddEndpoint { shared, interval, ratelimit } => AgentReply::Added(self.add_endpoint(shared, interval, ratelimit)),
            AgentRequest::BatchAddEndpoints(b) => {
                let ghost m0 = self@;
                let ghost n0 = self.next_id() as int;
                let r = self.batch_add_endpoints(&b);
                proof { lemma_batch_added_keys(m0, n0, b@); }
                AgentReply::Batch(r)
            },
            AgentRequest::UpdateRateLimit(id, l) => {
                self.update_ratelimit(id, l);
                AgentReply::Done
            },
            AgentRequest::StartAutoRefresh(id) => AgentReply::Changed(self.start_auto_refresh(id)),
            AgentRequest::StopAutoRefresh(id) => AgentReply::Changed(self.stop_auto_refresh(id)),
            AgentRequest::SetAutoRefreshInterval(id, i) => {
                self.set_auto_refresh_interval(id, i);
                AgentReply::Done
            },
            AgentRequest::RemoveTimeline(ws) => AgentReply::Changed(self.remove_timeline(&ws)),
            AgentRequest::Refresh(ws, t, now) => AgentReply::ToRefresh(self.refresh_timeline(&ws, t, now)),
            AgentRequest::RegisterTimelineContainer(id) => {
                self.register_timeline_container(id);
                AgentReply::Done
            },
        };
        proof { self.lemma_ids_below(); }
        r
    }
}

proof fn lemma_batch_added_keys(m: Map<EndpointId, EndpointInfo>, start: int, b: Seq<NewEndpoint>)
    requires
        i32::MIN <= start,
        start + b.len() <= i32::MAX,
    ensures
        forall|k: EndpointId| #[trigger] batch_added(m, start, b).contains_key(k) ==> m.contains_key(k) || (start <= k < start + b.len()),
    decreases b.len(),
{
    if b.len() > 0 {
        let d = b.drop_last();
        lemma_batch_added_keys(m, start, d);
        let key = (start + b.len() - 1) as EndpointId;
        assert(key == start + b.len() - 1);
        assert forall|k: EndpointId| #[trigger] batch_added(m, start, b).contains_key(k)
            implies m.contains_key(k) || (start <= k < start + b.len()) by {
            if k != key {
                assert(batch_added(m, start, d).contains_key(k));
            }
        }
    }
}

/// What adding a user's endpoint of service `service` asks: the service's
/// kind of endpoint that lists a user's articles, with the user's name as its
/// `username`; nothing for a service that has none.
pub fn user_endpoint_request(services: &StrMap<EndpointConstructorCollection>, service: &str, username: &str) -> (r: Option<(usize, Params)>)
    requires
        services.wf(),
        services@.contains_key(service@),
    ensures
        match services@[service@].user_endpoint_index {
            Some(t) => r matches Some((k, p)) && k == t && p.wf()
                && p@.dom() == set!["username"@] && text_of(p@, "username"@) == Some(username@),
            None => r is None,
        },
{
    let c = services.get(service).unwrap();
    match c.user_endpoint_index {
        Some(t) => {
            let mut p: Params = StrMap::new();
            p.insert(String::from_str("username"), ParamValue::Str(String::from_str(username)));
            proof {
                reveal_strlit("username");
                assert(p@.dom() =~= set!["username"@]);
            }
            Some((t, p))
        },
        None => None,
    }
}

/// Whether a timeline of endpoints `ws` takes what endpoint `id` got for time
/// `t`.
pub open spec fn hears(ws: Seq<TimelineEndpointWrapper>, t: RefreshTime, id: EndpointId) -> bool {
    exists|i: int| 0 <= i < ws.len() && (#[trigger] ws[i]).id == id && asked_at(ws[i], t)
}

/// The numbers of the timelines of `s`, in order, that take what endpoint
/// `id` got for time `t`.
pub open spec fn hearing(s: Seq<(u64, Vec<TimelineEndpointWrapper>)>, t: RefreshTime, id: EndpointId) -> Seq<u64>
    decreases s.len(),
{
    if s.len() == 0 {
        Seq::empty()
    } else {
        let rest = hearing(s.drop_last(), t, id);
        if hears(s.last().1@, t, id) { rest.push(s.last().0) } else { rest }
    }
}

impl EndpointAgent {
    /// Handles the articles that endpoint `id` got for time `t`, with the rate
    /// limit that came with them, if any: the endpoint takes that rate limit,
    /// and the timelines (each by its number, with its endpoints) that ask
    /// the endpoint at `t` are given, in order, to be sent the articles.
    pub fn refreshed(
        &mut self,
        t: RefreshTime,
        id: EndpointId,
        ratelimit: Option<RateLimit>,
        timelines: &Vec<(u64, Vec<TimelineEndpointWrapper>)>,
    ) -> (r: Vec<u64>)
        requires
            old(self).wf(),
            old(self)@.contains_key(id),
        ensures
            final(self).wf(),
            final(self).next_id() == old(self).next_id(),
            final(self)@ == match ratelimit {
                Some(l) => old(self)@.insert(id, EndpointInfo {
                    ratelimit: match old(self)@[id].ratelimit { Some(_) => Some(l), None => None },
                    ..old(self)@[id]
                }),
                None => old(self)@,
            },
            r@ == hearing(timelines@, t, id),
    {
        if let Some(l) = ratelimit {
            self.update_ratelimit(id, l);
        }
        let mut r: Vec<u64> = Vec::new();
        let mut i: usize = 0;
        while i < timelines.len()
            invariant
                i <= timelines@.len(),
                r@ == hearing(timelines@.take(i as int), t, id),
            decreases timelines@.len() - i,
        {
            proof {
                assert(timelines@.take(i + 1).drop_last() =~= timelines@.take(i as int));
            }
            if receives_articles(&timelines[i].1, t, id) {
                r.push(timelines[i].0);
            }
            i = i + 1;
        }
        proof { assert(timelines@.take(i as int) =~= timelines@); }
        r
    }
}

/// The notification of a failed refresh of endpoint `id`: the error, under
/// the endpoint's key, so that a new failure replaces the last one.
pub fn refresh_fail_notification(id: EndpointId, err: Error) -> (r: NotificationRequest)
    ensures
        r matches NotificationRequest::Notify(Some(k), Notification::Error(e)) && k@ == refresh_fail_key(id) && e == err,
{
    NotificationRequest::Notify(Some(refresh_fail_key_of(id)), Notification::Error(err))
}

/// The key under which a failed refresh of endpoint `id` is notified, so that
/// a new failure replaces the last one.
pub open spec fn refresh_fail_key(id: EndpointId) -> Seq<char> {
    "Endpoint"@ + signed_decimal_of(id as int) + "RefreshFail"@
}

/// The key under which a failed refresh of endpoint `id` is notified.
pub fn refresh_fail_key_of(id: EndpointId) -> (r: String)
    ensures
        r@ == refresh_fail_key(id),
{
    let mut r = String::from_str("Endpoint");
    push_signed_decimal(&mut r, id as i64);
    r.append("RefreshFail");
    r
}

/// Endpoint numbers never repeat: each new endpoint's number is above every
/// number given before.
pub proof fn new_numbers_are_fresh(a: &EndpointAgent)
    requires
        a.wf(),
    ensures
        !a@.contains_key(a.next_id()),
{
    a.lemma_ids_below();
}

/// Asking an endpoint twice at the same time whether it may be refreshed gives
/// the same answer, and leaves it as asking once did.
pub proof fn asking_an_endpoint_twice(info: EndpointInfo, now: i64)
    ensures
        may_refresh(stepped(info.ratelimit, now), now) == may_refresh(info.ratelimit, now),
        stepped(stepped(info.ratelimit, now), now) == stepped(info.ratelimit, now),
{
    match info.ratelimit {
        Some(l) => crate::services::asking_twice_changes_nothing(l, now),
        None => {},
    }
}

}
