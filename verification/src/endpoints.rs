use vstd::prelude::*;
use crate::filters::FilterCollection;
use crate::services::RateLimit;
use crate::string_map::{str_eq, StrMap};

verus! {

/// An endpoint's number.
pub type EndpointId = i32;

/// When a timeline asks an endpoint for articles: when it starts, or when it
/// is refreshed.
#[derive(Clone, Copy, Debug, PartialEq, Eq, Structural)]
pub enum RefreshTime {
    Start,
    OnRefresh,
}

/// One parameter of an endpoint, as its form edits it.
#[derive(Debug)]
pub enum ParamValue {
    Null,
    Bool(bool),
    Number(i64),
    Str(String),
}

impl Clone for ParamValue {
    fn clone(&self) -> (r: Self)
        ensures
            r == *self,
    {
        match self {
            ParamValue::Null => ParamValue::Null,
            ParamValue::Bool(b) => ParamValue::Bool(*b),
            ParamValue::Number(n) => ParamValue::Number(*n),
            ParamValue::Str(s) => ParamValue::Str(s.clone()),
        }
    }
}

/// The parameters of an endpoint, by name.
pub type Params = StrMap<ParamValue>;

/// An endpoint as it is stored with a timeline: its service, its kind among
/// the service's, its parameters, and how the timeline uses it.
pub struct EndpointSerialized {
    pub service: String,
    pub endpoint_type: usize,
    pub params: Params,
    pub filters: FilterCollection,
    pub auto_refresh: bool,
    pub on_start: bool,
    pub on_refresh: bool,
}

/// Whether a stored endpoint is one of `service`'s, of its kind `kind`.
pub open spec fn stored_as(storage: EndpointSerialized, service: Seq<char>, kind: usize) -> bool {
    storage.service@ == service && storage.endpoint_type == kind
}

/// Whether a stored endpoint is one of `service`'s, of its kind `kind`.
pub fn is_stored_as(storage: &EndpointSerialized, service: &str, kind: usize) -> (r: bool)
    ensures
        r == stored_as(*storage, service@, kind),
{
    str_eq(storage.service.as_str(), service) && storage.endpoint_type == kind
}

/// The text of parameter `name`, if it holds text.
pub open spec fn text_of(p: Map<Seq<char>, ParamValue>, name: Seq<char>) -> Option<Seq<char>> {
    if p.contains_key(name) {
        match p[name] {
            ParamValue::Str(s) => Some(s@),
            _ => None,
        }
    } else {
        None
    }
}

/// The boolean of parameter `name`, if it holds one.
pub open spec fn bool_of(p: Map<Seq<char>, ParamValue>, name: Seq<char>) -> Option<bool> {
    if p.contains_key(name) {
        match p[name] {
            ParamValue::Bool(b) => Some(b),
            _ => None,
        }
    } else {
        None
    }
}

/// The whole number of parameter `name`, if it holds one that is not negative.
pub open spec fn u64_of(p: Map<Seq<char>, ParamValue>, name: Seq<char>) -> Option<u64> {
    if p.contains_key(name) {
        match p[name] {
            ParamValue::Number(n) => if n >= 0 { Some(n as u64) } else { None },
            _ => None,
        }
    } else {
        None
    }
}

/// The text of parameter `name`, if it holds text.
pub fn text_param_value(p: &Params, name: &str) -> (r: Option<String>)
    requires
        p.wf(),
    ensures
        match r {
            Some(s) => text_of(p@, name@) == Some(s@),
            None => text_of(p@, name@) is None,
        },
{
    match p.get(name) {
        Some(ParamValue::Str(s)) => Some(s.clone()),
        _ => None,
    }
}

/// A kind of endpoint that a service offers, with its parameters and their
/// defaults.
pub struct EndpointConstructor {
    pub name: String,
    pub param_template: Vec<(String, ParamValue)>,
}

/// The kinds of endpoint a service offers, and which of them lists a user's
/// articles.
pub struct EndpointConstructorCollection {
    pub constructors: Vec<EndpointConstructor>,
    pub user_endpoint_index: Option<usize>,
}

/// The parameters after setting each of `t`'s, in order: a later one of a name
/// replaces an earlier one.
pub open spec fn template_params(t: Seq<(String, ParamValue)>) -> Map<Seq<char>, ParamValue>
    decreases t.len(),
{
    if t.len() == 0 {
        Map::empty()
    } else {
        template_params(t.drop_last()).insert(t.last().0@, t.last().1)
    }
}

impl EndpointConstructor {
    /// The parameters a new endpoint of this kind starts with.
    pub fn default_params(&self) -> (r: Params)
        ensures
            r.wf(),
            r@ == template_params(self.param_template@),
    {
        let mut params = StrMap::new();
        let mut i: usize = 0;
        while i < self.param_template.len()
            invariant
                i <= self.param_template@.len(),
                params.wf(),
                params@ == template_params(self.param_template@.take(i as int)),
            decreases self.param_template@.len() - i,
        {
            let (name, value) = &self.param_template[i];
            params.insert(name.clone(), value.clone());
            proof {
                let t = self.param_template@;
                assert(t.take(i + 1).drop_last() =~= t.take(i as int));
            }
            i = i + 1;
        }
        proof {
            assert(self.param_template@.take(i as int) =~= self.param_template@);
        }
        params
    }
}

/// Parameter `e` is named `name` and defaults to the text `v`.
pub open spec fn text_param(e: (String, ParamValue), name: Seq<char>, v: Seq<char>) -> bool {
    e.0@ == name && (e.1 matches ParamValue::Str(s) && s@ == v)
}

/// Parameter `e` is named `name` and defaults to the boolean `v`.
pub open spec fn bool_param(e: (String, ParamValue), name: Seq<char>, v: bool) -> bool {
    e.0@ == name && e.1 == ParamValue::Bool(v)
}

/// Parameter `e` is named `name` and defaults to the number `v`.
pub open spec fn number_param(e: (String, ParamValue), name: Seq<char>, v: i64) -> bool {
    e.0@ == name && e.1 == ParamValue::Number(v)
}

/// A parameter with a default text.
pub fn text_param_of(name: &str, v: &str) -> (r: (String, ParamValue))
    ensures
        text_param(r, name@, v@),
{
    (String::from_str(name), ParamValue::Str(String::from_str(v)))
}

/// A parameter with a default boolean.
pub fn bool_param_of(name: &str, v: bool) -> (r: (String, ParamValue))
    ensures
        bool_param(r, name@, v),
{
    (String::from_str(name), ParamValue::Bool(v))
}

/// A parameter with a default number.
pub fn number_param_of(name: &str, v: i64) -> (r: (String, ParamValue))
    ensures
        number_param(r, name@, v),
{
    (String::from_str(name), ParamValue::Number(v))
}

/// A kind of endpoint named `name` with parameters `params`.
pub fn constructor_of(name: &str, params: Vec<(String, ParamValue)>) -> (r: EndpointConstructor)
    ensures
        r.name@ == name@,
        r.param_template@ == params@,
{
    EndpointConstructor { name: String::from_str(name), param_template: params }
}

/// An endpoint as a timeline uses it: when the timeline asks it for
/// articles, and the filters its articles pass before the timeline shows them.
#[derive(Clone, Debug, PartialEq)]
pub struct TimelineEndpointWrapper {
    pub id: EndpointId,
    pub on_start: bool,
    pub on_refresh: bool,
    pub filters: FilterCollection,
}

/// Whether two wrappers are the same: the same endpoint, asked at the same
/// times, with the same filters.
pub open spec fn same_wrapper(a: TimelineEndpointWrapper, b: TimelineEndpointWrapper) -> bool {
    &&& a.id == b.id
    &&& a.on_start == b.on_start
    &&& a.on_refresh == b.on_refresh
    &&& a.filters.instances@ == b.filters.instances@
}

/// Whether `w` is endpoint `id` asked as the two flags say, with no filter.
pub open spec fn plain_wrapper(w: TimelineEndpointWrapper, id: EndpointId, on_start: bool, on_refresh: bool) -> bool {
    &&& w.id == id
    &&& w.on_start == on_start
    &&& w.on_refresh == on_refresh
    &&& w.filters.instances@.len() == 0
}

impl TimelineEndpointWrapper {
    /// Endpoint `id`, asked as the two flags say, with no filter.
    pub fn new(id: EndpointId, on_start: bool, on_refresh: bool) -> (r: Self)
        ensures
            plain_wrapper(r, id, on_start, on_refresh),
            r.filters.wf(),
    {
        TimelineEndpointWrapper { id, on_start, on_refresh, filters: FilterCollection::new() }
    }

    /// Endpoint `id`, asked both when the timeline starts and when it
    /// refreshes, with no filter.
    pub fn new_both(id: EndpointId) -> (r: Self)
        ensures
            plain_wrapper(r, id, true, true),
            r.filters.wf(),
    {
        TimelineEndpointWrapper { id, on_start: true, on_refresh: true, filters: FilterCollection::new() }
    }

    /// The same wrapper.
    pub fn copy(&self) -> (r: Self)
        ensures
            same_wrapper(r, *self),
    {
        TimelineEndpointWrapper { id: self.id, on_start: self.on_start, on_refresh: self.on_refresh, filters: self.filters.copy() }
    }
}

/// Whether a timeline asks endpoint `e` at `t`.
pub open spec fn asked_at(e: TimelineEndpointWrapper, t: RefreshTime) -> bool {
    match t {
        RefreshTime::Start => e.on_start,
        RefreshTime::OnRefresh => e.on_refresh,
    }
}

/// The wrapper of endpoint `id` asked only at `t`, with filters `f`.
pub open spec fn wrapper_for(t: RefreshTime, id: EndpointId, f: FilterCollection) -> TimelineEndpointWrapper {
    match t {
        RefreshTime::Start => TimelineEndpointWrapper { id, on_start: true, on_refresh: false, filters: f },
        RefreshTime::OnRefresh => TimelineEndpointWrapper { id, on_start: false, on_refresh: true, filters: f },
    }
}

/// The first index of endpoint `id` in `s`, or -1.
pub open spec fn first_index(s: Seq<TimelineEndpointWrapper>, id: EndpointId) -> int
    decreases s.len(),
{
    if s.len() == 0 {
        -1
    } else if s[0].id == id {
        0
    } else {
        let r = first_index(s.drop_first(), id);
        if r == -1 { -1 } else { r + 1 }
    }
}

proof fn lemma_first_index(s: Seq<TimelineEndpointWrapper>, id: EndpointId)
    ensures
        -1 <= first_index(s, id) < s.len(),
        first_index(s, id) >= 0 ==> s[first_index(s, id)].id == id,
        forall|i: int| 0 <= i < s.len() && i < first_index(s, id) ==> (#[trigger] s[i]).id != id,
        first_index(s, id) == -1 ==> forall|i: int| 0 <= i < s.len() ==> (#[trigger] s[i]).id != id,
    decreases s.len(),
{
    if s.len() > 0 {
        lemma_first_index(s.drop_first(), id);
        assert forall|i: int| 0 < i < s.len() implies (#[trigger] s[i]) == s.drop_first()[i - 1] by {}
    }
}

/// A timeline's endpoints after it stops asking endpoint `id` at `t`: the
/// first wrapper of `id` keeps only its other time, or goes if it had none.
pub open spec fn remove_at(s: Seq<TimelineEndpointWrapper>, t: RefreshTime, id: EndpointId) -> Seq<TimelineEndpointWrapper> {
    let p = first_index(s, id);
    if p < 0 {
        s
    } else {
        let e = s[p];
        match t {
            RefreshTime::Start => if e.on_refresh { s.update(p, TimelineEndpointWrapper { on_start: false, ..e }) } else { s.remove(p) },
            RefreshTime::OnRefresh => if e.on_start { s.update(p, TimelineEndpointWrapper { on_refresh: false, ..e }) } else { s.remove(p) },
        }
    }
}

/// Makes a timeline ask endpoint `id` at `t` only, its articles passing the
/// filters `filters`.
pub fn add_timeline_endpoint(endpoints: &mut Vec<TimelineEndpointWrapper>, t: RefreshTime, id: EndpointId, filters: FilterCollection)
    ensures
        final(endpoints)@ == old(endpoints)@.push(wrapper_for(t, id, filters)),
{
    let w = match t {
        RefreshTime::Start => TimelineEndpointWrapper { id, on_start: true, on_refresh: false, filters },
        RefreshTime::OnRefresh => TimelineEndpointWrapper { id, on_start: false, on_refresh: true, filters },
    };
    endpoints.push(w);
}

/// Makes a timeline ask endpoint `id` at both times, its articles passing the
/// filters `filters`.
pub fn add_timeline_endpoint_both(endpoints: &mut Vec<TimelineEndpointWrapper>, id: EndpointId, filters: FilterCollection)
    ensures
        final(endpoints)@ == old(endpoints)@.push(TimelineEndpointWrapper { id, on_start: true, on_refresh: true, filters }),
{
    endpoints.push(TimelineEndpointWrapper { id, on_start: true, on_refresh: true, filters });
}

/// Makes a timeline stop asking endpoint `id` at `t`.
pub fn remove_timeline_endpoint(endpoints: &mut Vec<TimelineEndpointWrapper>, t: RefreshTime, id: EndpointId)
    ensures
        final(endpoints)@ == remove_at(old(endpoints)@, t, id),
{
    proof { lemma_first_index(endpoints@, id); }
    let mut i: usize = 0;
    while i < endpoints.len()
        invariant
            *endpoints == *old(endpoints),
            i <= endpoints@.len(),
            forall|j: int| 0 <= j < i ==> (#[trigger] endpoints@[j]).id != id,
        decreases endpoints@.len() - i,
    {
        if endpoints[i].id == id {
            proof {
                lemma_first_index(endpoints@, id);
                let p = first_index(endpoints@, id);
                if p != i as int {
                    assert(endpoints@[p].id == id);
                }
            }
            let ghost before = endpoints@;
            let mut e = endpoints.remove(i);
            let keep = match t {
                RefreshTime::Start => e.on_refresh,
                RefreshTime::OnRefresh => e.on_start,
            };
            if keep {
                match t {
                    RefreshTime::Start => e.on_start = false,
                    RefreshTime::OnRefresh => e.on_refresh = false,
                }
                endpoints.insert(i, e);
                proof {
                    assert(endpoints@ =~= before.update(i as int, match t {
                        RefreshTime::Start => TimelineEndpointWrapper { on_start: false, ..before[i as int] },
                        RefreshTime::OnRefresh => TimelineEndpointWrapper { on_refresh: false, ..before[i as int] },
                    }));
                }
            }
            return;
        }
        i = i + 1;
    }
    proof { lemma_first_index(endpoints@, id); }
}

/// The endpoints a timeline asks at `t`, in its order.
pub open spec fn asked_endpoints(s: Seq<TimelineEndpointWrapper>, t: RefreshTime) -> Seq<TimelineEndpointWrapper> {
    s.filter(|e: TimelineEndpointWrapper| asked_at(e, t))
}

/// The endpoints a timeline asks at `t`, in its order.
pub fn endpoints_asked_at(endpoints: &Vec<TimelineEndpointWrapper>, t: RefreshTime) -> (r: Vec<TimelineEndpointWrapper>)
    ensures
        r@.len() == asked_endpoints(endpoints@, t).len(),
        forall|i: int| 0 <= i < r@.len() ==> same_wrapper(#[trigger] r@[i], asked_endpoints(endpoints@, t)[i]),
{
    let mut r: Vec<TimelineEndpointWrapper> = Vec::new();
    let mut i: usize = 0;
    while i < endpoints.len()
        invariant
            i <= endpoints@.len(),
            r@.len() == asked_endpoints(endpoints@.take(i as int), t).len(),
            forall|j: int| 0 <= j < r@.len() ==> same_wrapper(#[trigger] r@[j], asked_endpoints(endpoints@.take(i as int), t)[j]),
        decreases endpoints@.len() - i,
    {
        let e = &endpoints[i];
        proof {
            let s = endpoints@;
            assert(s.take(i + 1).drop_last() =~= s.take(i as int));
            reveal(Seq::filter);
        }
        let asked = match t {
            RefreshTime::Start => e.on_start,
            RefreshTime::OnRefresh => e.on_refresh,
        };
        if asked {
            r.push(e.copy());
        }
        i = i + 1;
    }
    assert(endpoints@.take(i as int) =~= endpoints@);
    r
}

/// Asking a new endpoint at one time and then no longer asking it at that
/// time leaves the timeline's endpoints as they were.
pub proof fn removing_undoes_adding(s: Seq<TimelineEndpointWrapper>, t: RefreshTime, id: EndpointId, f: FilterCollection)
    requires
        forall|i: int| 0 <= i < s.len() ==> (#[trigger] s[i]).id != id,
    ensures
        remove_at(s.push(wrapper_for(t, id, f)), t, id) == s,
{
    let s2 = s.push(wrapper_for(t, id, f));
    lemma_first_index(s2, id);
    assert(s2[s.len() as int].id == id);
    let p = first_index(s2, id);
    if p < s.len() {
        assert(s2[p] == s[p]);
    }
    assert(p == s.len());
    assert(s2.remove(p) =~= s);
}

/// A timeline that asks an endpoint at both times and stops asking it at one
/// time still asks it at the other.
pub proof fn removing_one_time_keeps_the_other(s: Seq<TimelineEndpointWrapper>, id: EndpointId, f: FilterCollection)
    requires
        forall|i: int| 0 <= i < s.len() ==> (#[trigger] s[i]).id != id,
    ensures
        remove_at(s.push(TimelineEndpointWrapper { id, on_start: true, on_refresh: true, filters: f }), RefreshTime::Start, id)
            == s.push(TimelineEndpointWrapper { id, on_start: false, on_refresh: true, filters: f }),
        remove_at(s.push(TimelineEndpointWrapper { id, on_start: true, on_refresh: true, filters: f }), RefreshTime::OnRefresh, id)
            == s.push(TimelineEndpointWrapper { id, on_start: true, on_refresh: false, filters: f }),
{
    let s2 = s.push(TimelineEndpointWrapper { id, on_start: true, on_refresh: true, filters: f });
    lemma_first_index(s2, id);
    assert(s2[s.len() as int].id == id);
    let p = first_index(s2, id);
    if p < s.len() {
        assert(s2[p] == s[p]);
    }
    assert(p == s.len());
    assert(s2.update(p, TimelineEndpointWrapper { id, on_start: false, on_refresh: true, filters: f }) =~= s.push(TimelineEndpointWrapper { id, on_start: false, on_refresh: true, filters: f }));
    assert(s2.update(p, TimelineEndpointWrapper { id, on_start: true, on_refresh: false, filters: f }) =~= s.push(TimelineEndpointWrapper { id, on_start: true, on_refresh: false, filters: f }));
}

/// What the endpoint list shows of one endpoint.
#[derive(Debug)]
pub struct EndpointView {
    pub id: EndpointId,
    pub name: String,
    pub ratelimit: Option<RateLimit>,
    pub is_autorefreshing: bool,
    pub autorefresh_interval: u32,
    pub shared: bool,
}

}
