use soshalthing_yew::dummy_service::{endpoint_constructors as dummy_constructors, service_actions as dummy_actions, DummyEndpoint, DummyServiceAgent};
use soshalthing_yew::decimal::{parse_u16, IntErrorKind};
use soshalthing_yew::endpoint_agent::{endpoint_from_constructor, EndpointAgent};
use soshalthing_yew::favviewer::{follow_timeline_args, setup, FavViewerPage, FavViewerStyle, PageInfo};
use soshalthing_yew::services::RateLimit;
use soshalthing_yew::text::contains;

#[test]
fn text_contains() {
    assert!(contains("https://www.pixiv.net/bookmark_new_illust.php", "pixiv.net/bookmark_new_illust"));
    assert!(contains("abc", ""));
    assert!(contains("abc", "abc"));
    assert!(!contains("ab", "abc"));
    assert!(!contains("aXbc", "abc"));
}

#[test]
fn pixiv_pages() {
    assert_eq!(setup("https://www.pixiv.net/bookmark_new_illust_r18.php?p=2"), Some(FavViewerPage::Follow));
    assert_eq!(setup("https://www.pixiv.net/en/users/1234"), Some(FavViewerPage::User));
    assert_eq!(setup("https://twitter.com/home"), None);
}

#[test]
fn follow_timeline_arguments() {
    assert_eq!(follow_timeline_args("/bookmark_new_illust_r18.php", Some("3")), (true, 2));
    assert_eq!(follow_timeline_args("/bookmark_new_illust.php", None), (false, 0));
    assert_eq!(follow_timeline_args("/bookmark_new_illust.php", Some("x")), (false, 0));
    assert_eq!(parse_u16("65535"), Ok(65535));
    assert_eq!(parse_u16("65536"), Err(IntErrorKind::PosOverflow));
}

#[test]
fn page_info_toggles_once_ready() {
    let setup_page = PageInfo::Setup { initial_style: FavViewerStyle::Hidden, page: FavViewerPage::Follow };
    let mut p = setup_page;
    p.toggle_hidden();
    assert_eq!(p, setup_page);
    let mut ready = setup_page.start().unwrap();
    assert_eq!(ready, PageInfo::Ready { style: FavViewerStyle::Hidden, page: FavViewerPage::Follow });
    assert_eq!(ready.start(), None);
    ready.toggle_hidden();
    assert_eq!(ready, PageInfo::Ready { style: FavViewerStyle::Normal, page: FavViewerPage::Follow });
    ready.toggle_hidden();
    assert_eq!(ready, PageInfo::Ready { style: FavViewerStyle::Hidden, page: FavViewerPage::Follow });
}

#[test]
fn endpoint_views_and_matches() {
    let mut a = EndpointAgent::new();
    let first = a.add_endpoint(true, 60_000, None);
    let second = a.add_endpoint(false, 30_000, Some(RateLimit::default()));
    let views = a.endpoint_views(&vec!["one".to_string(), "two".to_string()]);
    assert_eq!(views.len(), 2);
    assert_eq!(views[0].id, first);
    assert_eq!(views[0].name, "one");
    assert!(views[0].shared && views[0].ratelimit.is_none());
    assert_eq!(views[1].id, second);
    assert_eq!(views[1].autorefresh_interval, 30_000);
    assert!(!views[1].is_autorefreshing && views[1].ratelimit.is_some());

    assert_eq!(endpoint_from_constructor(&vec![(first, false), (second, true)]), Some(second));
    assert_eq!(endpoint_from_constructor(&vec![(first, true), (second, true)]), Some(first));
    assert_eq!(endpoint_from_constructor(&vec![(first, false)]), None);
}

#[test]
fn dummy_service_likes_and_reposts() {
    let mut agent = DummyServiceAgent::new();
    assert_eq!(agent.article_ids(), vec![0]);
    assert_eq!(agent.articles[0].text, "Text");
    assert_eq!(agent.articles[0].like_count(), 0);
    agent.like(0);
    assert!(agent.articles[0].liked);
    assert_eq!(agent.articles[0].like_count(), 1);
    assert!(!agent.articles[0].reposted);
    agent.repost(0);
    assert_eq!(agent.articles[0].repost_count(), 1);
    agent.like(0);
    assert!(!agent.articles[0].liked);
    let e = DummyEndpoint::new(3, agent.article_ids());
    assert_eq!(e.name(), "Dummy Endpoint");
    assert_eq!(e.articles, vec![0]);
    let c = dummy_constructors();
    assert_eq!(c.constructors.len(), 1);
    assert_eq!(c.constructors[0].name, "Endpoint");
    assert!(c.user_endpoint_index.is_none());
    let a = dummy_actions();
    assert!(a.like && a.repost && !a.fetch_data);
}
