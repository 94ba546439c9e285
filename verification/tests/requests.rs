use soshalthing_yew::article_actions::{ActedArticle, Action, ActionEffect, ArticleActionsAgent, ServiceActions};
use soshalthing_yew::choose_endpoints::{ChooseEndpoints, Msg};
use soshalthing_yew::components::ArticleView;
use soshalthing_yew::endpoint_agent::{
    refresh_fail_notification, user_endpoint_request, AgentReply, AgentRequest, AnyEndpoint, EndpointAgent, NewEndpoint,
};
use soshalthing_yew::endpoints::{
    EndpointConstructor, EndpointConstructorCollection, EndpointSerialized, ParamValue, RefreshTime,
    TimelineEndpointWrapper,
};
use soshalthing_yew::error::{Error, ErrorKind};
use soshalthing_yew::filters::{asked_wrapper, filtered_articles, timeline_articles, FilterChange, FilterCollection, FilterInstance};
use soshalthing_yew::timeline::ArticleKey;
use soshalthing_yew::twitter_endpoints::HomeTimelineEndpoint;
use soshalthing_yew::notifications::{Notification, NotificationRequest};
use soshalthing_yew::services::RateLimit;
use soshalthing_yew::storages::service_storage;
use soshalthing_yew::string_map::StrMap;
use soshalthing_yew::text::{clean_text, TextUrl};
use soshalthing_yew::timeline::{Timeline, TimelineMsg};
use soshalthing_yew::twitter::{AuthState, Entities, TweetArticleData, TweetFetchError, TweetJson, TwitterAgent};

fn services() -> StrMap<EndpointConstructorCollection> {
    let mut m = StrMap::new();
    m.insert(
        "Twitter".to_string(),
        EndpointConstructorCollection {
            constructors: vec![
                EndpointConstructor { name: "Home Timeline".to_string(), param_template: vec![] },
                EndpointConstructor { name: "User Timeline".to_string(), param_template: vec![] },
            ],
            user_endpoint_index: Some(1),
        },
    );
    m.insert(
        "Pixiv".to_string(),
        EndpointConstructorCollection {
            constructors: vec![EndpointConstructor { name: "Follow API".to_string(), param_template: vec![] }],
            user_endpoint_index: None,
        },
    );
    m
}

fn stored_filters() -> FilterCollection {
    let mut f = FilterCollection::new();
    f.insert(FilterInstance { filter: 3, enabled: true, inverted: true });
    f
}

fn stored(service: &str, auto_refresh: bool) -> EndpointSerialized {
    EndpointSerialized {
        service: service.to_string(),
        endpoint_type: 0,
        params: StrMap::new(),
        filters: stored_filters(),
        auto_refresh,
        on_start: true,
        on_refresh: true,
    }
}

fn w(id: i32, on_start: bool, on_refresh: bool) -> TimelineEndpointWrapper {
    TimelineEndpointWrapper::new(id, on_start, on_refresh)
}

#[test]
fn stored_endpoints_are_found_or_made() {
    let mut a = EndpointAgent::new();
    let s = services();
    let r = a.find_stored_endpoint_or_create(&stored("Twitter", true), &vec![], &s, 90_000, None, true, false).unwrap();
    assert_eq!((r.0.id, r.0.on_start, r.0.on_refresh, r.1), (i32::MIN, true, false, true));
    assert_eq!(r.0.filters, stored_filters());
    assert!(a.get(i32::MIN).unwrap().shared);
    assert_eq!(a.get(i32::MIN).unwrap().interval, 90_000);
    let home = vec![(i32::MIN, AnyEndpoint::HomeTimeline(HomeTimelineEndpoint::new(i32::MIN)))];
    let r = a.find_stored_endpoint_or_create(&stored("Twitter", false), &home, &s, 1, None, false, true).unwrap();
    assert_eq!((r.0.id, r.0.on_start, r.0.on_refresh, r.1), (i32::MIN, false, true, false));
    assert_eq!(r.0.filters, stored_filters());
    assert!(a.get(i32::MIN + 1).is_none());
    match a.find_stored_endpoint_or_create(&stored("Mastodon", false), &home, &s, 1, None, true, true) {
        Err(Error::Generic(ErrorKind::Text(m))) => {
            assert!(m.starts_with("Mastodon isn't registered as a service. Available: ["));
            assert!(m.contains("\"Twitter\"") && m.contains("\"Pixiv\""));
        }
        other => panic!("unexpected {:?}", other),
    }
    assert!(a.get(i32::MIN + 1).is_none());
}

#[test]
fn batches_and_user_endpoints() {
    let mut a = EndpointAgent::new();
    let e = NewEndpoint { shared: true, interval: 5, ratelimit: None, on_start: true, on_refresh: false };
    assert!(a.batch_add_endpoints(&vec![e]).is_none());
    assert!(a.get(i32::MIN).is_none());
    a.register_timeline_container(3);
    let f = NewEndpoint { shared: false, interval: 6, ratelimit: None, on_start: false, on_refresh: true };
    let ws = a.batch_add_endpoints(&vec![e, f]).unwrap();
    assert_eq!(ws, vec![w(i32::MIN, true, false), w(i32::MIN + 1, false, true)]);
    assert!(!a.get(i32::MIN + 1).unwrap().shared);

    let s = services();
    let (t, p) = user_endpoint_request(&s, "Twitter", "amy").unwrap();
    assert_eq!(t, 1);
    assert!(matches!(p.get("username"), Some(ParamValue::Str(u)) if u == "amy"));
    assert_eq!(p.len(), 1);
    assert!(user_endpoint_request(&s, "Pixiv", "amy").is_none());
}

#[test]
fn requests_give_fresh_numbers() {
    let mut a = EndpointAgent::new();
    let r = a.handle_input(AgentRequest::AddEndpoint { shared: false, interval: 1, ratelimit: None });
    assert!(matches!(r, AgentReply::Added(i32::MIN)));
    assert!(matches!(a.handle_input(AgentRequest::StartAutoRefresh(i32::MIN)), AgentReply::Changed(true)));
    assert!(matches!(a.handle_input(AgentRequest::StartAutoRefresh(i32::MIN)), AgentReply::Changed(false)));
    a.handle_input(AgentRequest::RegisterTimelineContainer(1));
    let e = NewEndpoint { shared: true, interval: 5, ratelimit: None, on_start: true, on_refresh: true };
    match a.handle_input(AgentRequest::BatchAddEndpoints(vec![e])) {
        AgentReply::Batch(Some(ws)) => assert_eq!(ws, vec![w(i32::MIN + 1, true, true)]),
        _ => panic!("expected the batch"),
    }
    assert!(matches!(a.handle_input(AgentRequest::RemoveTimeline(vec![w(i32::MIN, true, true)])), AgentReply::Changed(true)));
    assert!(a.get(i32::MIN).is_none());
    assert!(matches!(a.handle_input(AgentRequest::AddEndpoint { shared: true, interval: 1, ratelimit: None }), AgentReply::Added(n) if n == i32::MIN + 2));
}

#[test]
fn created_endpoint_follow_up() {
    let mut c = ChooseEndpoints::new();
    let mut tl: Vec<TimelineEndpointWrapper> = vec![];
    let mut s = StrMap::new();
    s.insert(
        "Twitter".to_string(),
        EndpointConstructorCollection {
            constructors: vec![EndpointConstructor { name: "Home Timeline".to_string(), param_template: vec![] }],
            user_endpoint_index: None,
        },
    );
    c.update(Msg::UpdatedState(s, vec![]), &mut tl);
    c.update(Msg::CreateNewEndpointForm(RefreshTime::Start), &mut tl);
    let (_, req) = c.update(Msg::CreateEndpoint(false), &mut tl);
    let m = req.unwrap().follow_up(7);
    assert!(matches!(m, Msg::AddTimelineEndpoint(RefreshTime::Start, 7, ref f) if f.instances.is_empty()));
    c.update(m, &mut tl);
    c.update(Msg::CreateNewEndpointForm(RefreshTime::OnRefresh), &mut tl);
    let f = FilterInstance { filter: 4, enabled: true, inverted: false };
    c.update(Msg::ChangeFormFilter(FilterChange::Add(4, false)), &mut tl);
    let (_, req) = c.update(Msg::CreateEndpoint(true), &mut tl);
    let m = req.unwrap().follow_up(8);
    assert!(matches!(m, Msg::AddTimelineEndpointBoth(8, ref fs) if fs.instances == vec![f]));
    c.update(m, &mut tl);
    assert_eq!(tl[0], w(7, true, false));
    assert_eq!((tl[1].id, tl[1].on_start, tl[1].on_refresh), (8, true, true));
    assert_eq!(tl[1].filters.instances, vec![f]);
    c.update(Msg::ChangeExistingFilter(1, FilterChange::ToggleInverted(f)), &mut tl);
    assert_eq!(tl[1].filters.instances, vec![FilterInstance { inverted: true, ..f }]);
    assert_eq!(tl[0], w(7, true, false));
}

fn acted(service: &str, id: &str, marked: bool) -> ActedArticle {
    ActedArticle { service: service.to_string(), id: id.to_string(), marked_as_read: marked, hidden: false }
}

#[test]
fn marking_a_request_as_read() {
    let mut agent = ArticleActionsAgent::new();
    agent.init("Twitter".to_string(), ServiceActions { like: true, repost: true, fetch_data: false });
    agent.connected(4);
    agent.connected(5);
    let mut arts = vec![acted("Twitter", "1", false), acted("Pixiv", "2", true)];
    let out = agent.act(Action::MarkAsRead, &mut arts, None, None);
    assert!(arts[0].marked_as_read && !arts[1].marked_as_read);
    assert_eq!(out.effects, vec![ActionEffect::SetMarkedAsRead(true), ActionEffect::SetMarkedAsRead(false)]);
    assert_eq!(out.redraw, vec![4, 5]);
    assert!(out.local.is_none());
    let session = out.session.unwrap();
    let tw = service_storage(None, Some(session), "Twitter");
    assert!(tw.session.articles_marked_as_read.contains("1"));
    let mut arts = vec![acted("Twitter", "1", true), acted("Pixiv", "2", false)];
    let out = agent.act(Action::Like, &mut arts, None, None);
    assert_eq!(out.effects, vec![ActionEffect::AskService(Action::Like), ActionEffect::Unhandled]);
    assert!(out.session.is_none());
    assert!(arts[0].marked_as_read && !arts[0].hidden);
}

fn plain_tweet(id: u64) -> TweetJson {
    TweetJson {
        id: Some(id),
        retweeted_status: None,
        quoted_status: None,
        in_reply_to_status_id: None,
        in_reply_to_screen_name: None,
        full_text: Some("hi".to_string()),
        text: None,
        created_at: Some("now".to_string()),
        user_screen_name: Some("u".to_string()),
        user_name: Some("U".to_string()),
        user_profile_image_url_https: Some("p".to_string()),
        favorited: None,
        retweeted: None,
        favorite_count: Some(0),
        retweet_count: Some(0),
        entities: Entities { hashtags: vec![], urls: vec![], user_mentions: vec![] },
        extended_media: None,
        raw: String::new(),
    }
}

#[test]
fn twitter_fetch_answers() {
    let st = service_storage(None, None, "Twitter");
    let mut agent = TwitterAgent::new();
    agent.auth(Some("12"));
    let arts = vec![TweetArticleData::from(&plain_tweet(3), &st), TweetArticleData::from(&plain_tweet(2), &st)];
    let (fwd, note) = agent.fetch_response(Ok((arts, None)));
    assert!(matches!(fwd, Ok((ref ids, None)) if *ids == vec![3, 2]));
    assert!(note.is_none());
    assert!(agent.get(3).is_some() && agent.get(2).is_some());
    let (fwd, note) = agent.fetch_response(Err(TweetFetchError::Other(Error::Generic(ErrorKind::ToStr))));
    assert!(matches!(fwd, Err(Error::Generic(ErrorKind::ToStr))));
    assert!(note.is_none());
    assert!(matches!(agent.auth_state(), AuthState::LoggedIn(12)));
    let (fwd, note) = agent.fetch_response(Err(TweetFetchError::Unauthorized));
    assert!(matches!(fwd, Ok((ref ids, None)) if ids.is_empty()));
    assert!(matches!(note, Some(NotificationRequest::Notify(Some(ref k), Notification::Login(ref s, ref u)))
        if k == "TwitterLogin" && s == "Twitter" && u == "/proxy/twitter/login"));
    assert!(matches!(agent.auth_state(), AuthState::NotLoggedIn));
}

#[test]
fn cleaning_decoded_text() {
    let urls = vec![TextUrl { url: "https://t.co/a".to_string(), display_url: "ex.com".to_string() }];
    let (shown, stripped) = clean_text("  see https://t.co/a https://t.co/m  ", &vec!["https://t.co/m".to_string()], &urls);
    assert_eq!(stripped, "  see https://t.co/a   ");
    assert_eq!(shown, "see ex.com");
}

#[test]
fn timeline_dropdowns() {
    let mut t = Timeline::new(vec![], true, 3);
    assert!(!t.show_container_dropdown && !t.show_article_component_dropdown);
    assert_eq!(t.article_component, ArticleView::Social);
    t.update(TimelineMsg::ToggleContainerDropdown);
    assert!(t.show_container_dropdown && !t.show_article_component_dropdown);
    t.update(TimelineMsg::ToggleArticleComponentDropdown);
    assert!(t.show_article_component_dropdown);
    t.update(TimelineMsg::ChangeArticleComponent(ArticleView::Gallery));
    assert_eq!(t.article_component, ArticleView::Gallery);
    t.update(TimelineMsg::ToggleContainerDropdown);
    assert!(!t.show_container_dropdown);
}

#[test]
fn refreshed_endpoints_reach_their_timelines() {
    let mut a = EndpointAgent::new();
    let id = a.add_endpoint(true, 1, Some(RateLimit::default()));
    let other = a.add_endpoint(true, 1, None);
    let timelines = vec![
        (10u64, vec![w(id, true, false)]),
        (11u64, vec![w(other, true, true), w(id, false, true)]),
        (12u64, vec![w(other, true, true)]),
    ];
    let l = RateLimit { limit: 5, remaining: 4, reset: 99 };
    assert_eq!(a.refreshed(RefreshTime::OnRefresh, id, Some(l), &timelines), vec![11]);
    assert_eq!(a.get(id).unwrap().ratelimit, Some(l));
    assert_eq!(a.refreshed(RefreshTime::Start, id, None, &timelines), vec![10]);
    assert_eq!(a.refreshed(RefreshTime::Start, other, Some(l), &timelines), vec![11, 12]);
    assert_eq!(a.get(other).unwrap().ratelimit, None);
    match refresh_fail_notification(-3, Error::Generic(ErrorKind::ToStr)) {
        NotificationRequest::Notify(Some(k), Notification::Error(Error::Generic(ErrorKind::ToStr))) => {
            assert_eq!(k, "Endpoint-3RefreshFail")
        }
        other => panic!("unexpected {:?}", other),
    }
}

#[test]
fn timelines_see_what_passes_their_filters() {
    let mut f = FilterCollection::new();
    f.insert(FilterInstance { filter: 1, enabled: true, inverted: false });
    f.insert(FilterInstance { filter: 2, enabled: true, inverted: true });
    let arts = vec![
        ArticleKey { id: "a".to_string(), sortable_id: 1 },
        ArticleKey { id: "b".to_string(), sortable_id: 2 },
        ArticleKey { id: "c".to_string(), sortable_id: 3 },
    ];
    let verdicts = vec![vec![true, false], vec![true, true], vec![false, false]];
    let kept = filtered_articles(&f, &arts, &verdicts);
    assert_eq!(kept.iter().map(|k| k.id.as_str()).collect::<Vec<_>>(), vec!["a"]);
    let mut off = FilterCollection::new();
    off.insert(FilterInstance { filter: 1, enabled: false, inverted: false });
    assert!(filtered_articles(&off, &arts, &vec![vec![true], vec![true], vec![true]]).is_empty());
    assert_eq!(filtered_articles(&FilterCollection::new(), &arts, &vec![vec![], vec![], vec![]]).len(), 3);

    let ws = vec![w(1, true, false), w(2, false, true), w(2, true, true)];
    assert_eq!(asked_wrapper(&ws, RefreshTime::Start, 2), Some(2));
    assert_eq!(asked_wrapper(&ws, RefreshTime::OnRefresh, 2), Some(1));
    assert_eq!(asked_wrapper(&ws, RefreshTime::OnRefresh, 1), None);
}

#[test]
fn articles_a_timeline_receives() {
    let mut f = FilterCollection::new();
    f.insert(FilterInstance { filter: 9, enabled: true, inverted: false });
    let mut filtered = w(5, false, true);
    filtered.filters = f;
    let ws = vec![w(5, true, false), filtered];
    let arts = vec![ArticleKey { id: "x".to_string(), sortable_id: 1 }, ArticleKey { id: "y".to_string(), sortable_id: 2 }];
    let on_refresh = timeline_articles(&ws, RefreshTime::OnRefresh, 5, &arts, &vec![vec![false], vec![true]]).unwrap();
    assert_eq!(on_refresh.iter().map(|k| k.id.as_str()).collect::<Vec<_>>(), vec!["y"]);
    let on_start = timeline_articles(&ws, RefreshTime::Start, 5, &arts, &vec![vec![], vec![]]).unwrap();
    assert_eq!(on_start.len(), 2);
    assert!(timeline_articles(&ws, RefreshTime::Start, 6, &arts, &vec![vec![], vec![]]).is_none());
}
