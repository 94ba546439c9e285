use soshalthing_yew::containers::Container;
use soshalthing_yew::endpoint_agent::refresh_fail_key_of;
use soshalthing_yew::notifications::{Notification, NotificationRequest};
use soshalthing_yew::server::{get_access_token, get_token, list_args, user_timeline_args, TimelineQuery, TokenChoice};
use soshalthing_yew::storages::service_storage;
use soshalthing_yew::timeline::{add_articles, add_new_articles, sort_newest_first, width_style_of, ArticleKey, Timeline, TimelineMsg};
use soshalthing_yew::twitter::{AuthState, Entities, StoredRef, TweetArticleData, TweetJson, TwitterAgent};

fn k(id: &str, n: u64) -> ArticleKey {
    ArticleKey { id: id.to_string(), sortable_id: n }
}

fn ids(v: &[ArticleKey]) -> Vec<String> {
    v.iter().map(|a| a.id.clone()).collect()
}

#[test]
fn newest_first_is_stable() {
    let v = vec![k("a", 1), k("b", 3), k("c", 1), k("d", 2), k("e", 3)];
    assert_eq!(ids(&sort_newest_first(&v)), vec!["b", "e", "d", "a", "c"]);
}

#[test]
fn new_articles_skip_known_ids() {
    let mut v = vec![k("a", 1)];
    add_new_articles(&mut v, &vec![k("b", 2), k("a", 9), k("b", 5), k("c", 0)]);
    assert_eq!(ids(&v), vec!["a", "b", "c"]);
    assert_eq!(v[0].sortable_id, 1);
}

#[test]
fn endpoint_articles_stay_newest_first() {
    let mut v = vec![k("x", 5)];
    add_articles(&mut v, &vec![k("y", 7), k("x", 5), k("z", 1)]);
    assert_eq!(ids(&v), vec!["y", "x", "z"]);
}

#[test]
fn timeline_messages() {
    let mut t = Timeline::new(vec![k("a", 1), k("b", 2)], true, 3);
    assert_eq!(t.container, Container::Masonry);
    assert_eq!(ids(&t.shown_articles()), vec!["b", "a"]);
    t.update(TimelineMsg::Refreshed(vec![k("c", 0)]));
    t.update(TimelineMsg::NewArticles(vec![k("c", 0), k("d", 4)]));
    assert_eq!(ids(&t.articles), vec!["a", "b", "c", "d"]);
    t.update(TimelineMsg::Shuffle);
    assert!(!t.sorted);
    let mut shuffled = ids(&t.articles);
    shuffled.sort();
    assert_eq!(shuffled, vec!["a", "b", "c", "d"]);
    assert_eq!(t.shown_articles().len(), 4);
    t.update(TimelineMsg::ChangeWidth(3));
    assert_eq!(width_style_of(t.width), Some("width: 1500px".to_string()));
    assert_eq!(width_style_of(1), None);
    t.update(TimelineMsg::ClearArticles);
    assert!(t.articles.is_empty());
    let c = Timeline::new(vec![], false, 1);
    assert_eq!(c.container, Container::Column);
}

#[test]
fn refresh_fail_keys() {
    assert_eq!(refresh_fail_key_of(i32::MIN), "Endpoint-2147483648RefreshFail");
    assert_eq!(refresh_fail_key_of(0), "Endpoint0RefreshFail");
    assert_eq!(refresh_fail_key_of(12), "Endpoint12RefreshFail");
}

#[test]
fn server_tokens() {
    let tokens = vec![5, 42];
    assert_eq!(get_access_token(Some("42"), &tokens), Some(42));
    assert_eq!(get_access_token(Some("43"), &tokens), None);
    assert_eq!(get_access_token(Some("x"), &tokens), None);
    assert_eq!(get_access_token(None, &tokens), None);
    assert_eq!(get_token(Some("5"), &tokens), TokenChoice::User(5));
    assert_eq!(get_token(None, &tokens), TokenChoice::Bearer);
}

#[test]
fn server_timeline_defaults() {
    let q = TimelineQuery { replies: None, rts: None, count: None, min_id: None, max_id: None };
    assert_eq!(user_timeline_args(q), (true, true, 200));
    assert_eq!(list_args(q), (false, 200));
    let q = TimelineQuery { replies: Some(false), rts: Some(true), count: Some(20), min_id: Some(1), max_id: None };
    assert_eq!(user_timeline_args(q), (false, true, 20));
    assert_eq!(list_args(q), (true, 20));
}

fn plain_tweet(id: u64, likes: u64) -> TweetJson {
    TweetJson {
        id: Some(id),
        retweeted_status: None,
        quoted_status: None,
        in_reply_to_status_id: None,
        in_reply_to_screen_name: None,
        full_text: None,
        text: Some("hello".to_string()),
        created_at: Some("now".to_string()),
        user_screen_name: Some("u".to_string()),
        user_name: Some("U".to_string()),
        user_profile_image_url_https: Some("p".to_string()),
        favorited: None,
        retweeted: None,
        favorite_count: Some(likes),
        retweet_count: Some(0),
        entities: Entities { hashtags: vec![], urls: vec![], user_mentions: vec![] },
        extended_media: None,
        raw: String::new(),
    }
}

#[test]
fn twitter_agent_keeps_each_tweet_once() {
    let st = service_storage(None, None, "Twitter");
    let mut agent = TwitterAgent::new();
    let mut rt = plain_tweet(1, 0);
    rt.retweeted_status = Some(Box::new(plain_tweet(2, 5)));
    let i = agent.insert_or_update(TweetArticleData::from(&rt, &st));
    let (a, r) = agent.get(1).unwrap();
    assert_eq!(a.id, 1);
    assert_eq!(r, StoredRef::Reposted(2));
    assert!(i < 2);
    assert_eq!(agent.get(2).unwrap().0.like_count, 5);
    agent.insert_or_update(TweetArticleData::from(&plain_tweet(2, 8), &st));
    assert_eq!(agent.get(2).unwrap().0.like_count, 8);
    assert_eq!(agent.get(1).unwrap().1, StoredRef::Reposted(2));
    assert!(agent.get(3).is_none());
}

#[test]
fn twitter_agent_sign_in() {
    let mut agent = TwitterAgent::new();
    assert_eq!(agent.sidebar(4), 4);
    assert_eq!(agent.auth(Some("99")), Some(4));
    assert_eq!(agent.auth_state(), AuthState::LoggedIn(99));
    match agent.unauthorized() {
        NotificationRequest::Notify(Some(key), Notification::Login(service, url)) => {
            assert_eq!(key, "TwitterLogin");
            assert_eq!(service, "Twitter");
            assert_eq!(url, "/proxy/twitter/login");
        }
        _ => panic!("expected a sign-in request"),
    }
    assert_eq!(agent.auth_state(), AuthState::NotLoggedIn);
    agent.disconnected(4);
    assert_eq!(agent.sidebar_handler(), None);
    assert_eq!(agent.auth(None), None);
}
