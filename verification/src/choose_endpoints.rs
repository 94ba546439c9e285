use vstd::prelude::*;
use crate::endpoints::{
    add_timeline_endpoint, add_timeline_endpoint_both, remove_at, remove_timeline_endpoint, template_params,
    wrapper_for, EndpointConstructorCollection, EndpointId, EndpointView, ParamValue, Params, RefreshTime,
    TimelineEndpointWrapper,
};
use crate::filters::{changed_filters, FilterChange, FilterCollection, FilterInstance};
use crate::string_map::{str_eq, StrMap};

verus! {

/// A new endpoint being filled in: when the timeline will ask it, its service,
/// its kind among the service's, and its parameters.
pub struct EndpointForm {
    pub refresh_time: RefreshTime,
    pub service: String,
    pub endpoint_type: usize,
    pub params: Params,
    pub filters: FilterCollection,
}

/// What the endpoint chooser of a timeline shows: its two dropdowns, the
/// endpoints known, the form of a new endpoint, and the services' kinds of
/// endpoint.
pub struct ChooseEndpoints {
    pub show_start_endpoint_dropdown: bool,
    pub show_refresh_endpoint_dropdown: bool,
    pub endpoint_views: Vec<EndpointView>,
    pub endpoint_form: Option<EndpointForm>,
    pub services: StrMap<EndpointConstructorCollection>,
}

/// What the chooser is told or asked.
pub enum Msg {
    UpdatedState(StrMap<EndpointConstructorCollection>, Vec<EndpointView>),
    AddBlankTimeline,
    AddUserTimeline(String, String),
    ToggleStartEndpointDropdown,
    ToggleRefreshEndpointDropdown,
    CreateNewEndpointForm(RefreshTime),
    SetFormService(String),
    SetFormType(usize),
    SetFormParamValue(String, ParamValue, String),
    CreateEndpoint(bool),
    AddTimelineEndpoint(RefreshTime, EndpointId, FilterCollection),
    AddTimelineEndpointBoth(EndpointId, FilterCollection),
    RemoveTimelineEndpoint(RefreshTime, EndpointId),
    /// A change to the new endpoint's filters.
    ChangeFormFilter(FilterChange),
    /// A change to the filters of the timeline's endpoint at a place.
    ChangeExistingFilter(usize, FilterChange),
}

/// A form as values: its time, service, kind, parameters and filters.
pub type FormView = (RefreshTime, Seq<char>, usize, Map<Seq<char>, ParamValue>, Set<FilterInstance>);

/// A new endpoint to make: the form that was filled in, and whether the
/// timeline asks it at both times.
pub struct CreateRequest {
    pub form: EndpointForm,
    pub both: bool,
}

impl EndpointForm {
    pub open spec fn view(&self) -> FormView {
        (self.refresh_time, self.service@, self.endpoint_type, self.params@, self.filters@)
    }

    pub open spec fn wf(&self) -> bool {
        self.params.wf() && self.filters.wf()
    }
}

/// The view of an optional form.
pub open spec fn form_of(f: Option<EndpointForm>) -> Option<FormView> {
    match f {
        Some(f) => Some(f@),
        None => None,
    }
}

/// The service's kinds of endpoint are all well formed.
pub open spec fn services_wf(m: Map<Seq<char>, EndpointConstructorCollection>) -> bool {
    forall|k: Seq<char>| #[trigger] m.contains_key(k) ==> (m[k].user_endpoint_index matches Some(t)
        ==> t < m[k].constructors@.len())
}

/// Choosing service `name` on the form is possible: it is its service, or a
/// known one with a kind of endpoint.
pub open spec fn service_change_ok(form: Option<EndpointForm>, m: Map<Seq<char>, EndpointConstructorCollection>, name: Seq<char>) -> bool {
    match form {
        Some(f) => f.service@ != name ==> m.contains_key(name) && m[name].constructors@.len() > 0,
        None => true,
    }
}

/// Choosing kind `t` on the form is possible: it is its kind, or one that its
/// service offers.
pub open spec fn type_change_ok(form: Option<EndpointForm>, m: Map<Seq<char>, EndpointConstructorCollection>, t: usize) -> bool {
    match form {
        Some(f) => f.endpoint_type != t ==> m.contains_key(f.service@) && t < m[f.service@].constructors@.len(),
        None => true,
    }
}

/// The parameters a new endpoint of kind `t` of service `name` starts with.
pub open spec fn defaults_of(m: Map<Seq<char>, EndpointConstructorCollection>, name: Seq<char>, t: int) -> Map<Seq<char>, ParamValue> {
    template_params(m[name].constructors@[t].param_template@)
}

/// The parameters of a user's timeline.
pub open spec fn user_params(username: String) -> Map<Seq<char>, ParamValue> {
    map![
        "username"@ => ParamValue::Str(username),
        "include_retweets"@ => ParamValue::Bool(true),
        "include_replies"@ => ParamValue::Bool(true),
    ]
}

/// The value a parameter field shows: the parameter's, or nothing.
pub open spec fn param_of(p: Map<Seq<char>, ParamValue>, name: Seq<char>) -> ParamValue {
    if p.contains_key(name) { p[name] } else { ParamValue::Null }
}

/// Whether the parameter already holds the text typed in.
pub open spec fn holds_text(v: ParamValue, text: Seq<char>) -> bool {
    v matches ParamValue::Str(s) && s@ == text
}

/// The parameter's new value after `text` is typed into a field of type
/// `ptype`: a checkbox flips, or, holding no boolean yet, takes whether the
/// text is neither "on" nor "true"; any other field takes the text.
pub open spec fn typed_value(current: ParamValue, ptype: ParamValue, text: String) -> ParamValue {
    if ptype is Bool {
        match current {
            ParamValue::Bool(prev) => ParamValue::Bool(!prev),
            _ => ParamValue::Bool(text@ != "on"@ && text@ != "true"@),
        }
    } else {
        ParamValue::Str(text)
    }
}

/// The form after choosing service `name`: a change of service starts its
/// first kind afresh; tells whether anything changed.
pub open spec fn set_service_spec(f: Option<FormView>, m: Map<Seq<char>, EndpointConstructorCollection>, name: Seq<char>) -> (Option<FormView>, bool) {
    match f {
        None => (None, false),
        Some(f) => if f.1 != name {
            (Some((f.0, name, 0usize, defaults_of(m, name, 0), f.4)), true)
        } else {
            (Some(f), false)
        },
    }
}

/// The form after choosing kind `t`: a change of kind starts its parameters
/// afresh; tells whether anything changed.
pub open spec fn set_type_spec(f: Option<FormView>, m: Map<Seq<char>, EndpointConstructorCollection>, t: usize) -> (Option<FormView>, bool) {
    match f {
        None => (None, false),
        Some(f) => if f.2 != t {
            (Some((f.0, f.1, t, defaults_of(m, f.1, t as int), f.4)), true)
        } else {
            (Some(f), false)
        },
    }
}

/// The form after typing `text` into parameter `name`; tells whether anything
/// changed.
pub open spec fn set_param_spec(f: Option<FormView>, name: Seq<char>, ptype: ParamValue, text: String) -> (Option<FormView>, bool) {
    match f {
        None => (None, false),
        Some(f) => if !holds_text(param_of(f.3, name), text@) {
            (Some((f.0, f.1, f.2, f.3.insert(name, typed_value(param_of(f.3, name), ptype, text)), f.4)), true)
        } else {
            (Some(f), false)
        },
    }
}

impl ChooseEndpoints {
    pub open spec fn wf(&self) -> bool {
        &&& self.services.wf()
        &&& services_wf(self.services@)
        &&& self.endpoint_form matches Some(f) ==> f.wf()
    }

    /// A chooser with nothing shown and nothing known.
    pub fn new() -> (r: Self)
        ensures
            r.wf(),
            !r.show_start_endpoint_dropdown,
            !r.show_refresh_endpoint_dropdown,
            r.endpoint_views@.len() == 0,
            r.endpoint_form is None,
            r.services@ == Map::<Seq<char>, EndpointConstructorCollection>::empty(),
    {
        ChooseEndpoints {
            show_start_endpoint_dropdown: false,
            show_refresh_endpoint_dropdown: false,
            endpoint_views: Vec::new(),
            endpoint_form: None,
            services: StrMap::new(),
        }
    }

    /// Takes the endpoints and services the endpoint agent now has.
    pub fn updated_state(&mut self, services: StrMap<EndpointConstructorCollection>, views: Vec<EndpointView>)
        requires
            services.wf(),
            services_wf(services@),
            old(self).wf(),
        ensures
            final(self).wf(),
            final(self).services@ == services@,
            final(self).endpoint_views@ == views@,
            form_of(final(self).endpoint_form) == form_of(old(self).endpoint_form),
    {
        self.endpoint_views = views;
        self.services = services;
    }

    /// Starts the form of a user's timeline of `service`, if the service has
    /// a kind of endpoint for users; tells whether it did.
    pub fn add_user_timeline(&mut self, service: String, username: String) -> (changed: bool)
        requires
            old(self).wf(),
            old(self).services@.contains_key(service@),
        ensures
            final(self).wf(),
            final(self).services@ == old(self).services@,
            match old(self).services@[service@].user_endpoint_index {
                Some(t) => changed && form_of(final(self).endpoint_form) == Some((RefreshTime::Start, service@, t, user_params(username), Set::<FilterInstance>::empty())),
                None => !changed && form_of(final(self).endpoint_form) == form_of(old(self).endpoint_form),
            },
    {
        let idx = match self.services.get(service.as_str()) {
            Some(c) => c.user_endpoint_index,
            None => None,
        };
        match idx {
            Some(t) => {
                let mut params: Params = StrMap::new();
                let ghost u = username;
                params.insert(String::from_str("username"), ParamValue::Str(username));
                params.insert(String::from_str("include_retweets"), ParamValue::Bool(true));
                params.insert(String::from_str("include_replies"), ParamValue::Bool(true));
                proof {
                    reveal_strlit("username");
                    reveal_strlit("include_retweets");
                    reveal_strlit("include_replies");
                    assert(params@ =~= user_params(u));
                }
                self.endpoint_form = Some(EndpointForm { refresh_time: RefreshTime::Start, service, endpoint_type: t, params, filters: FilterCollection::new() });
                true
            },
            None => false,
        }
    }

    /// Starts the form of a new endpoint asked at `refresh_time`, on Twitter's
    /// first kind of endpoint.
    pub fn create_new_endpoint_form(&mut self, refresh_time: RefreshTime)
        requires
            old(self).wf(),
            old(self).services@.contains_key("Twitter"@),
            old(self).services@["Twitter"@].constructors@.len() > 0,
        ensures
            final(self).wf(),
            final(self).services@ == old(self).services@,
            form_of(final(self).endpoint_form) == Some((refresh_time, "Twitter"@, 0usize, defaults_of(old(self).services@, "Twitter"@, 0), Set::<FilterInstance>::empty())),
    {
        let params = match self.services.get("Twitter") {
            Some(c) => c.constructors[0].default_params(),
            None => StrMap::new(),
        };
        self.endpoint_form = Some(EndpointForm { refresh_time, service: String::from_str("Twitter"), endpoint_type: 0, params, filters: FilterCollection::new() });
    }

    /// Chooses the form's service; tells whether anything changed.
    pub fn set_form_service(&mut self, name: String) -> (changed: bool)
        requires
            old(self).wf(),
            service_change_ok(old(self).endpoint_form, old(self).services@, name@),
        ensures
            final(self).wf(),
            final(self).services@ == old(self).services@,
            (form_of(final(self).endpoint_form), changed) == set_service_spec(form_of(old(self).endpoint_form), old(self).services@, name@),
    {
        let differs = match &self.endpoint_form {
            Some(f) => !str_eq(f.service.as_str(), name.as_str()),
            None => false,
        };
        if !differs {
            return false;
        }
        let params = match self.services.get(name.as_str()) {
            Some(c) => c.constructors[0].default_params(),
            None => StrMap::new(),
        };
        match self.endpoint_form.take() {
            Some(f) => {
                self.endpoint_form = Some(EndpointForm { refresh_time: f.refresh_time, service: name, endpoint_type: 0, params, filters: f.filters });
            },
            None => {},
        }
        true
    }

    /// Chooses the form's kind of endpoint; tells whether anything changed.
    pub fn set_form_type(&mut self, endpoint_type: usize) -> (changed: bool)
        requires
            old(self).wf(),
            type_change_ok(old(self).endpoint_form, old(self).services@, endpoint_type),
        ensures
            final(self).wf(),
            final(self).services@ == old(self).services@,
            (form_of(final(self).endpoint_form), changed) == set_type_spec(form_of(old(self).endpoint_form), old(self).services@, endpoint_type),
    {
        match self.endpoint_form.take() {
            None => false,
            Some(f) => {
                if f.endpoint_type != endpoint_type {
                    let params = match self.services.get(f.service.as_str()) {
                        Some(c) => c.constructors[endpoint_type].default_params(),
                        None => StrMap::new(),
                    };
                    self.endpoint_form = Some(EndpointForm { refresh_time: f.refresh_time, service: f.service, endpoint_type, params, filters: f.filters });
                    true
                } else {
                    self.endpoint_form = Some(f);
                    false
                }
            },
        }
    }

    /// Types `text` into the form's parameter `name`, a field of type `ptype`;
    /// tells whether anything changed.
    pub fn set_form_param_value(&mut self, name: String, ptype: ParamValue, text: String) -> (changed: bool)
        requires
            old(self).wf(),
        ensures
            final(self).wf(),
            final(self).services@ == old(self).services@,
            (form_of(final(self).endpoint_form), changed) == set_param_spec(form_of(old(self).endpoint_form), name@, ptype, text),
    {
        match self.endpoint_form.take() {
            None => false,
            Some(mut f) => {
                let (same, current_bool) = match f.params.get(name.as_str()) {
                    Some(ParamValue::Str(s)) => (str_eq(s.as_str(), text.as_str()), None),
                    Some(ParamValue::Bool(b)) => (false, Some(*b)),
                    _ => (false, None),
                };
                if same {
                    self.endpoint_form = Some(f);
                    return false;
                }
                let v = match ptype {
                    ParamValue::Bool(_) => match current_bool {
                        Some(prev) => ParamValue::Bool(!prev),
                        None => {
                            proof {
                                reveal_strlit("on");
                                reveal_strlit("true");
                            }
                            ParamValue::Bool(!str_eq(text.as_str(), "on") && !str_eq(text.as_str(), "true"))
                        },
                    },
                    _ => ParamValue::Str(text),
                };
                f.params.insert(name, v);
                self.endpoint_form = Some(f);
                true
            },
        }
    }

    /// Ends the form: a filled-in form becomes a request to make its endpoint,
    /// with the form's filters for the timeline; tells whether there was one.
    pub fn create_endpoint(&mut self, both: bool) -> (r: Option<CreateRequest>)
        requires
            old(self).wf(),
        ensures
            final(self).wf(),
            final(self).endpoint_form is None,
            final(self).services@ == old(self).services@,
            match old(self).endpoint_form {
                Some(f) => r matches Some(c) && c.form@ == f@ && c.both == both && c.form.wf(),
                None => r is None,
            },
    {
        match self.endpoint_form.take() {
            Some(f) => Some(CreateRequest { form: f, both }),
            None => None,
        }
    }

    /// Handles `msg`; the timeline's endpoints are `timeline`. Tells whether to
    /// redraw, and the endpoint to make, if any.
    pub fn update(&mut self, msg: Msg, timeline: &mut Vec<TimelineEndpointWrapper>) -> (r: (bool, Option<CreateRequest>))
        requires
            old(self).wf(),
            msg matches Msg::UpdatedState(s, _) ==> s.wf() && services_wf(s@),
            msg matches Msg::AddUserTimeline(s, _) ==> old(self).services@.contains_key(s@),
            msg is CreateNewEndpointForm ==> old(self).services@.contains_key("Twitter"@)
                && old(self).services@["Twitter"@].constructors@.len() > 0,
            msg matches Msg::SetFormService(name) ==> service_change_ok(old(self).endpoint_form, old(self).services@, name@),
            msg matches Msg::SetFormType(t) ==> type_change_ok(old(self).endpoint_form, old(self).services@, t),
            msg is ChangeFormFilter ==> old(self).endpoint_form is Some,
            msg matches Msg::ChangeExistingFilter(k, _) ==> k < old(timeline)@.len() && old(timeline)@[k as int].filters.wf(),
        ensures
            final(self).wf(),
            match msg {
                Msg::UpdatedState(s, v) => r.0 && final(self).services@ == s@ && final(self).endpoint_views@ == v@
                    && form_of(final(self).endpoint_form) == form_of(old(self).endpoint_form),
                Msg::AddBlankTimeline => r.0 && final(self).endpoint_form is None,
                Msg::AddUserTimeline(s, u) => match old(self).services@[s@].user_endpoint_index {
                    Some(t) => r.0 && form_of(final(self).endpoint_form) == Some((RefreshTime::Start, s@, t, user_params(u), Set::<FilterInstance>::empty())),
                    None => !r.0 && form_of(final(self).endpoint_form) == form_of(old(self).endpoint_form),
                },
                Msg::ToggleStartEndpointDropdown => r.0
                    && final(self).show_start_endpoint_dropdown == !old(self).show_start_endpoint_dropdown,
                Msg::ToggleRefreshEndpointDropdown => r.0
                    && final(self).show_refresh_endpoint_dropdown == !old(self).show_refresh_endpoint_dropdown,
                Msg::CreateNewEndpointForm(t) => r.0
                    && form_of(final(self).endpoint_form) == Some((t, "Twitter"@, 0usize, defaults_of(old(self).services@, "Twitter"@, 0), Set::<FilterInstance>::empty())),
                Msg::SetFormService(name) => (form_of(final(self).endpoint_form), r.0)
                    == set_service_spec(form_of(old(self).endpoint_form), old(self).services@, name@),
                Msg::SetFormType(t) => (form_of(final(self).endpoint_form), r.0)
                    == set_type_spec(form_of(old(self).endpoint_form), old(self).services@, t),
                Msg::SetFormParamValue(name, ptype, text) => (form_of(final(self).endpoint_form), r.0)
                    == set_param_spec(form_of(old(self).endpoint_form), name@, ptype, text),
                Msg::CreateEndpoint(both) => final(self).endpoint_form is None && match old(self).endpoint_form {
                    Some(f) => r.0 && (r.1 matches Some(c) && c.form@ == f@ && c.both == both),
                    None => !r.0 && r.1 is None,
                },
                Msg::AddTimelineEndpoint(t, id, fs) => r.0 && final(timeline)@ == old(timeline)@.push(wrapper_for(t, id, fs)),
                Msg::AddTimelineEndpointBoth(id, fs) => r.0
                    && final(timeline)@ == old(timeline)@.push(TimelineEndpointWrapper { id, on_start: true, on_refresh: true, filters: fs }),
                Msg::ChangeFormFilter(c) => r.0 && match old(self).endpoint_form {
                    Some(f) => form_of(final(self).endpoint_form) == Some((f@.0, f@.1, f@.2, f@.3, changed_filters(f@.4, c))),
                    None => false,
                },
                Msg::ChangeExistingFilter(k, c) => {
                    &&& r.0
                    &&& final(timeline)@.len() == old(timeline)@.len()
                    &&& forall|j: int| 0 <= j < old(timeline)@.len() && j != k ==> #[trigger] final(timeline)@[j] == old(timeline)@[j]
                    &&& final(timeline)@[k as int].id == old(timeline)@[k as int].id
                    &&& final(timeline)@[k as int].on_start == old(timeline)@[k as int].on_start
                    &&& final(timeline)@[k as int].on_refresh == old(timeline)@[k as int].on_refresh
                    &&& final(timeline)@[k as int].filters.wf()
                    &&& final(timeline)@[k as int].filters@ == changed_filters(old(timeline)@[k as int].filters@, c)
                },
                Msg::RemoveTimelineEndpoint(t, id) => r.0 && final(timeline)@ == remove_at(old(timeline)@, t, id),
            },
            !(msg is CreateEndpoint) ==> r.1 is None,
            !(msg is AddTimelineEndpoint || msg is AddTimelineEndpointBoth || msg is RemoveTimelineEndpoint || msg is ChangeExistingFilter)
                ==> final(timeline)@ == old(timeline)@,
            !(msg is ChangeFormFilter || msg is SetFormService || msg is SetFormType || msg is SetFormParamValue || msg is CreateEndpoint
                || msg is CreateNewEndpointForm || msg is AddUserTimeline || msg is AddBlankTimeline)
                ==> form_of(final(self).endpoint_form) == form_of(old(self).endpoint_form),
    {
        match msg {
            Msg::UpdatedState(s, v) => {
                self.updated_state(s, v);
                (true, None)
            },
            Msg::AddBlankTimeline => {
                self.endpoint_form = None;
                (true, None)
            },
            Msg::AddUserTimeline(s, u) => (self.add_user_timeline(s, u), None),
            Msg::ToggleStartEndpointDropdown => {
                self.show_start_endpoint_dropdown = !self.show_start_endpoint_dropdown;
                (true, None)
            },
            Msg::ToggleRefreshEndpointDropdown => {
                self.show_refresh_endpoint_dropdown = !self.show_refresh_endpoint_dropdown;
                (true, None)
            },
            Msg::CreateNewEndpointForm(t) => {
                self.create_new_endpoint_form(t);
                (true, None)
            },
            Msg::SetFormService(name) => (self.set_form_service(name), None),
            Msg::SetFormType(t) => (self.set_form_type(t), None),
            Msg::SetFormParamValue(name, ptype, text) => (self.set_form_param_value(name, ptype, text), None),
            Msg::CreateEndpoint(both) => {
                let c = self.create_endpoint(both);
                let created = c.is_some();
                (created, c)
            },
            Msg::AddTimelineEndpoint(t, id, fs) => {
                add_timeline_endpoint(timeline, t, id, fs);
                (true, None)
            },
            Msg::AddTimelineEndpointBoth(id, fs) => {
                add_timeline_endpoint_both(timeline, id, fs);
                (true, None)
            },
            Msg::ChangeFormFilter(c) => {
                match self.endpoint_form.take() {
                    Some(mut f) => {
                        f.filters.apply(c);
                        self.endpoint_form = Some(f);
                    },
                    None => {},
                }
                (true, None)
            },
            Msg::ChangeExistingFilter(k, c) => {
                let ghost before = timeline@;
                let mut w = timeline.remove(k);
                w.filters.apply(c);
                timeline.insert(k, w);
                proof {
                    assert forall|j: int| 0 <= j < before.len() && j != k implies #[trigger] timeline@[j] == before[j] by {
                        if j < k {
                            assert(timeline@[j] == before[j]);
                        } else {
                            assert(timeline@[j] == before.remove(k as int)[j - 1]);
                        }
                    }
                }
                (true, None)
            },
            Msg::RemoveTimelineEndpoint(t, id) => {
                remove_timeline_endpoint(timeline, t, id);
                (true, None)
            },
        }
    }
}

impl CreateRequest {
    /// The message that puts the endpoint, once made with number `id`, into
    /// the timeline: at both times when asked so, else at the form's time.
    pub fn follow_up(&self, id: EndpointId) -> (m: Msg)
        ensures
            self.both ==> (m matches Msg::AddTimelineEndpointBoth(i, fs) && i == id && fs.instances@ == self.form.filters.instances@),
            !self.both ==> (m matches Msg::AddTimelineEndpoint(t, i, fs) && t == self.form.refresh_time && i == id
                && fs.instances@ == self.form.filters.instances@),
    {
        if self.both {
            Msg::AddTimelineEndpointBoth(id, self.form.filters.copy())
        } else {
            Msg::AddTimelineEndpoint(self.form.refresh_time, id, self.form.filters.copy())
        }
    }
}

/// Choosing the service a form already has changes nothing.
pub proof fn choosing_the_same_service_changes_nothing(f: FormView, m: Map<Seq<char>, EndpointConstructorCollection>)
    ensures
        set_service_spec(Some(f), m, f.1) == (Some(f), false),
{
}

/// Typing a checkbox twice brings it back where it was, when it held a boolean.
pub proof fn checking_twice_restores(f: FormView, name: Seq<char>, ptype: ParamValue, text: String, b: bool)
    requires
        ptype is Bool,
        f.3.contains_key(name),
        f.3[name] == ParamValue::Bool(b),
    ensures
        ({
            let once = set_param_spec(Some(f), name, ptype, text).0;
            set_param_spec(once, name, ptype, text).0 == Some(f)
        }),
{
    let once = set_param_spec(Some(f), name, ptype, text).0;
    assert(once == Some((f.0, f.1, f.2, f.3.insert(name, ParamValue::Bool(!b)), f.4)));
    let g = once.unwrap();
    assert(g.3.insert(name, ParamValue::Bool(b)) =~= f.3);
}

}
