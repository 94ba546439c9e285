use soshalthing_yew::article_actions::ServiceActions;
use soshalthing_yew::choose_endpoints::{ChooseEndpoints, Msg};
use soshalthing_yew::endpoint_agent::{receives_articles, EndpointAgent, EndpointInfo, EndpointSource};
use soshalthing_yew::endpoints::{
    add_timeline_endpoint, add_timeline_endpoint_both, endpoints_asked_at, remove_timeline_endpoint, EndpointConstructor,
    EndpointConstructorCollection, ParamValue, RefreshTime, TimelineEndpointWrapper,
};
use soshalthing_yew::error::{Error, ErrorKind};
use soshalthing_yew::filters::FilterCollection;
use soshalthing_yew::services::RateLimit;
use soshalthing_yew::string_map::StrMap;

fn w(id: i32, on_start: bool, on_refresh: bool) -> TimelineEndpointWrapper {
    TimelineEndpointWrapper::new(id, on_start, on_refresh)
}

#[test]
fn wrappers() {
    assert_eq!(TimelineEndpointWrapper::new_both(3), w(3, true, true));
    assert_eq!(TimelineEndpointWrapper::new(3, false, true), w(3, false, true));
}

#[test]
fn removing_undoes_adding() {
    let mut v = vec![w(1, true, false)];
    add_timeline_endpoint(&mut v, RefreshTime::OnRefresh, 2, FilterCollection::new());
    assert_eq!(v, vec![w(1, true, false), w(2, false, true)]);
    remove_timeline_endpoint(&mut v, RefreshTime::OnRefresh, 2);
    assert_eq!(v, vec![w(1, true, false)]);
}

#[test]
fn removing_one_time_keeps_the_other() {
    let mut v = vec![];
    add_timeline_endpoint_both(&mut v, 7, FilterCollection::new());
    remove_timeline_endpoint(&mut v, RefreshTime::Start, 7);
    assert_eq!(v, vec![w(7, false, true)]);
    remove_timeline_endpoint(&mut v, RefreshTime::OnRefresh, 7);
    assert!(v.is_empty());
    remove_timeline_endpoint(&mut v, RefreshTime::OnRefresh, 7);
    assert!(v.is_empty());
}

#[test]
fn asked_endpoints() {
    let v = vec![w(1, true, false), w(2, false, true), w(3, true, true)];
    assert_eq!(endpoints_asked_at(&v, RefreshTime::Start), vec![w(1, true, false), w(3, true, true)]);
    assert_eq!(endpoints_asked_at(&v, RefreshTime::OnRefresh), vec![w(2, false, true), w(3, true, true)]);
    assert!(receives_articles(&v, RefreshTime::Start, 1));
    assert!(!receives_articles(&v, RefreshTime::OnRefresh, 1));
    assert!(!receives_articles(&v, RefreshTime::Start, 9));
}

#[test]
fn default_params_later_wins() {
    let c = EndpointConstructor {
        name: "User Timeline".to_string(),
        param_template: vec![
            ("username".to_string(), ParamValue::Str("".to_string())),
            ("include_retweets".to_string(), ParamValue::Bool(true)),
            ("username".to_string(), ParamValue::Str("x".to_string())),
        ],
    };
    let p = c.default_params();
    assert_eq!(p.len(), 2);
    assert!(matches!(p.get("username"), Some(ParamValue::Str(s)) if s == "x"));
    assert!(matches!(p.get("include_retweets"), Some(ParamValue::Bool(true))));
}

#[test]
fn endpoint_numbers_start_at_the_least_i32_and_grow() {
    let mut a = EndpointAgent::new();
    let i = a.add_endpoint(false, 90_000, None);
    let j = a.add_endpoint(true, 60_000, Some(RateLimit::default()));
    assert_eq!(i, i32::MIN);
    assert_eq!(j, i32::MIN + 1);
    assert_eq!(a.get(j), Some(EndpointInfo { shared: true, interval: 60_000, autorefreshing: false, ratelimit: Some(RateLimit::default()) }));
    assert_eq!(a.endpoints().len(), 2);
}

#[test]
fn removing_a_timeline_drops_its_unshared_endpoints() {
    let mut a = EndpointAgent::new();
    let i = a.add_endpoint(false, 1, None);
    let j = a.add_endpoint(true, 1, None);
    assert!(a.remove_timeline(&vec![w(i, true, true), w(j, true, false), w(j, false, true)]));
    assert_eq!(a.get(i), None);
    assert!(a.get(j).is_some());
    assert!(!a.remove_timeline(&vec![w(j, true, true)]));
}

#[test]
fn refreshing_a_timeline_follows_rate_limits() {
    let mut a = EndpointAgent::new();
    let free = a.add_endpoint(false, 1, None);
    let spent = a.add_endpoint(false, 1, Some(RateLimit { limit: 10, remaining: 0, reset: 1000 }));
    let reset = a.add_endpoint(false, 1, Some(RateLimit { limit: 10, remaining: 0, reset: 10 }));
    let ws = vec![w(free, true, true), w(spent, true, true), w(reset, false, true), w(reset, true, false)];
    assert_eq!(a.refresh_timeline(&ws, RefreshTime::OnRefresh, 500), vec![free, reset]);
    assert_eq!(a.get(reset).unwrap().ratelimit, Some(RateLimit { limit: 10, remaining: 10, reset: 10 }));
    assert_eq!(a.get(spent).unwrap().ratelimit, Some(RateLimit { limit: 10, remaining: 0, reset: 1000 }));
    assert_eq!(a.refresh_timeline(&ws, RefreshTime::Start, 500), vec![free, reset]);
}

#[test]
fn auto_refresh_on_and_off() {
    let mut a = EndpointAgent::new();
    let i = a.add_endpoint(false, 1, None);
    assert!(a.start_auto_refresh(i));
    assert!(!a.start_auto_refresh(i));
    a.set_auto_refresh_interval(i, 5000);
    assert_eq!(a.get(i).unwrap().interval, 5000);
    assert!(a.stop_auto_refresh(i));
    assert!(!a.stop_auto_refresh(i));
}

#[test]
fn rate_limit_updates_only_where_there_is_one() {
    let mut a = EndpointAgent::new();
    let i = a.add_endpoint(false, 1, None);
    let j = a.add_endpoint(false, 1, Some(RateLimit::default()));
    let r = RateLimit { limit: 5, remaining: 4, reset: 3 };
    a.update_ratelimit(i, r);
    a.update_ratelimit(j, r);
    assert_eq!(a.get(i).unwrap().ratelimit, None);
    assert_eq!(a.get(j).unwrap().ratelimit, Some(r));
    assert!(a.try_refresh(j, 0));
}

#[test]
fn subscribers_and_container() {
    let mut a = EndpointAgent::new();
    a.connected(3);
    a.connected(4);
    a.register_timeline_container(4);
    a.disconnected(4);
    assert_eq!(a.subscribers(), vec![3]);
    assert_eq!(a.timeline_container(), None);
}

#[test]
fn find_endpoint_or_create() {
    let mut a = EndpointAgent::new();
    let names = vec!["Twitter".to_string(), "Pixiv".to_string()];
    let r = a.find_endpoint_or_create(EndpointSource::Created { interval: 9, ratelimit: None }, true, false, true, FilterCollection::new(), "Twitter", &names).unwrap();
    assert_eq!(r, (w(i32::MIN, true, false), true));
    assert_eq!(a.get(i32::MIN).unwrap().shared, true);
    let r = a.find_endpoint_or_create(EndpointSource::Existing(i32::MIN), false, true, false, FilterCollection::new(), "Twitter", &names).unwrap();
    assert_eq!(r, (w(i32::MIN, false, true), false));
    match a.find_endpoint_or_create(EndpointSource::Unregistered, true, true, false, FilterCollection::new(), "Mastodon", &names) {
        Err(Error::Generic(ErrorKind::Text(m))) => {
            assert_eq!(m, "Mastodon isn't registered as a service. Available: [\"Twitter\", \"Pixiv\"]")
        }
        other => panic!("unexpected {:?}", other),
    }
    match a.find_endpoint_or_create(EndpointSource::Unregistered, true, true, false, FilterCollection::new(), "X", &vec![]) {
        Err(Error::Generic(ErrorKind::Text(m))) => assert_eq!(m, "X isn't registered as a service. Available: []"),
        other => panic!("unexpected {:?}", other),
    }
}

fn twitter_services() -> StrMap<EndpointConstructorCollection> {
    let mut m = StrMap::new();
    m.insert(
        "Twitter".to_string(),
        EndpointConstructorCollection {
            constructors: vec![
                EndpointConstructor { name: "Home Timeline".to_string(), param_template: vec![] },
                EndpointConstructor {
                    name: "User Timeline".to_string(),
                    param_template: vec![
                        ("username".to_string(), ParamValue::Str("".to_string())),
                        ("include_retweets".to_string(), ParamValue::Bool(true)),
                    ],
                },
            ],
            user_endpoint_index: Some(1),
        },
    );
    m.insert(
        "Pixiv".to_string(),
        EndpointConstructorCollection {
            constructors: vec![EndpointConstructor {
                name: "Follow API".to_string(),
                param_template: vec![("r18".to_string(), ParamValue::Bool(false)), ("current_page".to_string(), ParamValue::Number(0))],
            }],
            user_endpoint_index: None,
        },
    );
    m
}

#[test]
fn endpoint_form_flow() {
    let mut c = ChooseEndpoints::new();
    let mut tl = vec![];
    let (redraw, _) = c.update(Msg::UpdatedState(twitter_services(), vec![]), &mut tl);
    assert!(redraw);
    c.update(Msg::CreateNewEndpointForm(RefreshTime::OnRefresh), &mut tl);
    let f = c.endpoint_form.as_ref().unwrap();
    assert_eq!(f.service, "Twitter");
    assert_eq!(f.endpoint_type, 0);
    assert_eq!(f.params.len(), 0);
    let (changed, _) = c.update(Msg::SetFormType(1), &mut tl);
    assert!(changed);
    assert_eq!(c.endpoint_form.as_ref().unwrap().params.len(), 2);
    let (changed, _) = c.update(Msg::SetFormType(1), &mut tl);
    assert!(!changed);
    let (changed, _) = c.update(Msg::SetFormParamValue("username".to_string(), ParamValue::Str(String::new()), "bob".to_string()), &mut tl);
    assert!(changed);
    let (changed, _) = c.update(Msg::SetFormParamValue("username".to_string(), ParamValue::Str(String::new()), "bob".to_string()), &mut tl);
    assert!(!changed);
    c.update(Msg::SetFormParamValue("include_retweets".to_string(), ParamValue::Bool(true), "on".to_string()), &mut tl);
    assert!(matches!(c.endpoint_form.as_ref().unwrap().params.get("include_retweets"), Some(ParamValue::Bool(false))));
    c.update(Msg::SetFormParamValue("new_flag".to_string(), ParamValue::Bool(true), "on".to_string()), &mut tl);
    assert!(matches!(c.endpoint_form.as_ref().unwrap().params.get("new_flag"), Some(ParamValue::Bool(false))));
    c.update(Msg::SetFormParamValue("other".to_string(), ParamValue::Bool(true), "off".to_string()), &mut tl);
    assert!(matches!(c.endpoint_form.as_ref().unwrap().params.get("other"), Some(ParamValue::Bool(true))));
    let (created, req) = c.update(Msg::CreateEndpoint(true), &mut tl);
    assert!(created);
    let req = req.unwrap();
    assert!(req.both);
    assert_eq!(req.form.refresh_time, RefreshTime::OnRefresh);
    assert!(c.endpoint_form.is_none());
    let (created, req) = c.update(Msg::CreateEndpoint(false), &mut tl);
    assert!(!created);
    assert!(req.is_none());
}

#[test]
fn changing_the_form_service() {
    let mut c = ChooseEndpoints::new();
    let mut tl = vec![];
    c.update(Msg::UpdatedState(twitter_services(), vec![]), &mut tl);
    let (changed, _) = c.update(Msg::SetFormService("Pixiv".to_string()), &mut tl);
    assert!(!changed);
    c.update(Msg::CreateNewEndpointForm(RefreshTime::Start), &mut tl);
    let (changed, _) = c.update(Msg::SetFormService("Twitter".to_string()), &mut tl);
    assert!(!changed);
    let (changed, _) = c.update(Msg::SetFormService("Pixiv".to_string()), &mut tl);
    assert!(changed);
    let f = c.endpoint_form.as_ref().unwrap();
    assert_eq!(f.service, "Pixiv");
    assert!(matches!(f.params.get("current_page"), Some(ParamValue::Number(0))));
}

#[test]
fn user_timeline_form() {
    let mut c = ChooseEndpoints::new();
    let mut tl = vec![];
    c.update(Msg::UpdatedState(twitter_services(), vec![]), &mut tl);
    let (changed, _) = c.update(Msg::AddUserTimeline("Pixiv".to_string(), "amy".to_string()), &mut tl);
    assert!(!changed);
    let (changed, _) = c.update(Msg::AddUserTimeline("Twitter".to_string(), "amy".to_string()), &mut tl);
    assert!(changed);
    let f = c.endpoint_form.as_ref().unwrap();
    assert_eq!(f.endpoint_type, 1);
    assert_eq!(f.refresh_time, RefreshTime::Start);
    assert!(matches!(f.params.get("username"), Some(ParamValue::Str(s)) if s == "amy"));
    assert!(matches!(f.params.get("include_replies"), Some(ParamValue::Bool(true))));
    c.update(Msg::AddBlankTimeline, &mut tl);
    assert!(c.endpoint_form.is_none());
}

#[test]
fn chooser_edits_the_timeline() {
    let mut c = ChooseEndpoints::new();
    let mut tl = vec![];
    c.update(Msg::AddTimelineEndpoint(RefreshTime::Start, 4, FilterCollection::new()), &mut tl);
    c.update(Msg::AddTimelineEndpointBoth(5, FilterCollection::new()), &mut tl);
    assert_eq!(tl, vec![w(4, true, false), w(5, true, true)]);
    c.update(Msg::RemoveTimelineEndpoint(RefreshTime::Start, 5), &mut tl);
    assert_eq!(tl, vec![w(4, true, false), w(5, false, true)]);
    c.update(Msg::ToggleStartEndpointDropdown, &mut tl);
    assert!(c.show_start_endpoint_dropdown);
    c.update(Msg::ToggleRefreshEndpointDropdown, &mut tl);
    assert!(c.show_refresh_endpoint_dropdown);
}

#[test]
fn service_catalogues() {
    let t = soshalthing_yew::twitter::endpoint_constructors();
    assert_eq!(t.user_endpoint_index, Some(1));
    let names: Vec<&str> = t.constructors.iter().map(|c| c.name.as_str()).collect();
    assert_eq!(names, vec!["Home Timeline", "User Timeline", "List", "Likes", "Single Tweet", "Search"]);
    let p = t.constructors[1].default_params();
    assert!(matches!(p.get("include_replies"), Some(ParamValue::Bool(true))));
    let px = soshalthing_yew::pixiv::endpoint_constructors();
    assert_eq!(px.constructors[0].name, "Follow API");
    assert!(matches!(px.constructors[0].default_params().get("current_page"), Some(ParamValue::Number(0))));
    let yt = soshalthing_yew::youtube::endpoint_constructors();
    assert_eq!(yt.constructors[0].name, "Playlist");
    assert_eq!(yt.user_endpoint_index, None);
    assert_eq!(soshalthing_yew::twitter::service_actions(), ServiceActions { like: true, repost: true, fetch_data: false });
    assert_eq!(soshalthing_yew::pixiv::service_actions(), ServiceActions { like: false, repost: false, fetch_data: true });
    assert_eq!(soshalthing_yew::youtube::service_actions(), ServiceActions { like: false, repost: false, fetch_data: false });
}
