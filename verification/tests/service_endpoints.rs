use soshalthing_yew::endpoints::{EndpointSerialized, ParamValue, Params};
use soshalthing_yew::filters::FilterCollection;
use soshalthing_yew::pixiv::{FollowAPIEndpoint, FollowPageEndpoint};
use soshalthing_yew::string_map::StrMap;
use soshalthing_yew::twitter_endpoints::{
    HomeTimelineEndpoint, LikesEndpoint, ListEndpoint, SearchEndpoint, SingleTweetEndpoint, UserTimelineEndpoint,
};
use soshalthing_yew::youtube::PlaylistEndpoint;

fn params(entries: Vec<(&str, ParamValue)>) -> Params {
    let mut p: Params = StrMap::new();
    for (k, v) in entries {
        p.insert(k.to_string(), v);
    }
    p
}

fn stored(service: &str, endpoint_type: usize, p: Params) -> EndpointSerialized {
    EndpointSerialized {
        service: service.to_string(),
        endpoint_type,
        params: p,
        filters: FilterCollection::new(),
        auto_refresh: false,
        on_start: true,
        on_refresh: true,
    }
}

#[test]
fn user_timeline_endpoint() {
    let p = params(vec![
        ("username", ParamValue::Str("misc".to_string())),
        ("include_retweets", ParamValue::Bool(true)),
        ("include_replies", ParamValue::Bool(false)),
    ]);
    let e = UserTimelineEndpoint::from_json(4, &p);
    assert_eq!(e.id, 4);
    assert_eq!(e.username, "misc");
    assert!(e.include_retweets);
    assert!(!e.include_replies);
    assert_eq!(e.name(), "misc User Timeline Endpoint");
    assert_eq!(e.refresh_url("http://h"), "http://h/proxy/twitter/user/misc?replies=false&rts=true&count=20");
    assert_eq!(
        e.load_bottom_url("http://h", Some("123")),
        "http://h/proxy/twitter/user/misc?replies=false&rts=true&max_id=123"
    );
    assert_eq!(e.load_bottom_url("http://h", None), e.refresh_url("http://h"));
    assert!(e.eq_storage(&stored("Twitter", 1, p)));
    let other = params(vec![("username", ParamValue::Str("other".to_string()))]);
    assert!(!e.eq_storage(&stored("Twitter", 1, other)));
    let same = params(vec![("username", ParamValue::Str("misc".to_string()))]);
    assert!(!e.eq_storage(&stored("Twitter", 3, same)));
}

#[test]
fn home_and_list_endpoints() {
    let h = HomeTimelineEndpoint::new(1);
    assert_eq!(h.name(), "Home Timeline Endpoint");
    assert_eq!(h.refresh_url(""), "/proxy/twitter/home?count=20");
    assert_eq!(h.load_bottom_url("", Some("9")), "/proxy/twitter/home?max_id=9");
    assert!(h.eq_storage(&stored("Twitter", 0, params(vec![]))));
    assert!(!h.eq_storage(&stored("Pixiv", 0, params(vec![]))));

    let p = params(vec![("username", ParamValue::Str("a".to_string())), ("slug", ParamValue::Str("b".to_string()))]);
    let l = ListEndpoint::from_json(2, &p);
    assert_eq!(l.name(), "List a/b");
    assert_eq!(l.refresh_url("x"), "x/proxy/twitter/list/a/b");
    assert_eq!(l.load_bottom_url("x", Some("5")), "x/proxy/twitter/list/a/b?max_id=5");
    assert!(l.eq_storage(&stored("Twitter", 2, p)));
    let wrong_slug = params(vec![("username", ParamValue::Str("a".to_string())), ("slug", ParamValue::Str("c".to_string()))]);
    assert!(!l.eq_storage(&stored("Twitter", 2, wrong_slug)));
}

#[test]
fn likes_single_tweet_and_search_endpoints() {
    let likes = LikesEndpoint::new(3, "u".to_string());
    assert_eq!(likes.name(), "Liked by u");
    assert_eq!(likes.refresh_url("b"), "b/proxy/twitter/likes/u?count=20");
    assert_eq!(likes.load_bottom_url("b", Some("7")), "b/proxy/twitter/likes/u?max_id=7");

    let t = SingleTweetEndpoint::from_json(5, &params(vec![("id", ParamValue::Str("1234567890123".to_string()))]));
    assert_eq!(t.tweet_id, 1234567890123);
    assert_eq!(t.name(), "Single Tweet 1234567890123");
    assert_eq!(t.refresh_url("b"), "b/proxy/twitter/status/1234567890123");
    assert!(t.eq_storage(&stored("Twitter", 4, params(vec![("id", ParamValue::Number(1234567890123))]))));
    assert!(!t.eq_storage(&stored("Twitter", 4, params(vec![("id", ParamValue::Str("1234567890123".to_string()))]))));

    let s = SearchEndpoint::from_json(6, &params(vec![("query", ParamValue::Str("cats".to_string()))]));
    assert_eq!(s.name(), "Search \"cats\"");
    assert_eq!(s.search_url("b"), "b/proxy/twitter/search");
    assert_eq!(s.query_text(), "query=cats");
    assert_eq!(
        s.load_bottom_pairs("42"),
        vec![("query".to_string(), "cats".to_string()), ("max_id".to_string(), "42".to_string())]
    );
    assert!(s.eq_storage(&stored("Twitter", 4, params(vec![("query", ParamValue::Str("cats".to_string()))]))));
    assert!(!s.eq_storage(&stored("Twitter", 5, params(vec![("query", ParamValue::Str("cats".to_string()))]))));
}

#[test]
fn pixiv_endpoints() {
    let page = FollowPageEndpoint::new(1);
    assert_eq!(page.name(), "Follow Page Endpoint");
    assert!(page.eq_storage(&stored("Pixiv", 0, params(vec![]))));
    assert!(!page.eq_storage(&stored("Pixiv", 1, params(vec![]))));

    let mut api = FollowAPIEndpoint::new(2, true, 0);
    assert_eq!(api.name(), "Follow API Endpoint");
    assert_eq!(api.refresh_url(), "https://www.pixiv.net/ajax/follow_latest/illust?mode=r18");
    assert_eq!(api.load_bottom(), "https://www.pixiv.net/ajax/follow_latest/illust?p=2&mode=r18");
    assert_eq!(api.page, 1);
    assert!(api.eq_storage(&stored("Pixiv", 1, params(vec![]))));
}

#[test]
fn playlist_endpoint() {
    let p = PlaylistEndpoint::from_json(8, &params(vec![("id", ParamValue::Str("PL1".to_string()))]));
    assert_eq!(p.playlist_id, "PL1");
    assert_eq!(p.name(), "Playlist PL1");
    assert_eq!(p.refresh_url("h"), "h/proxy/youtube/playlist/PL1");
    assert!(p.eq_storage(&stored("YouTube", 0, params(vec![]))));
    assert!(!p.eq_storage(&stored("Twitter", 0, params(vec![]))));
}
