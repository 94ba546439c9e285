use soshalthing_yew::display::DisplayMode;
use soshalthing_yew::storages::{cache_articles, hide_article, mark_article_as_read, service_storage};
use soshalthing_yew::string_map::StrMap;

#[test]
fn marked_article_reads_back() {
    let s = mark_article_as_read(None, "Twitter", "42".to_string(), true);
    let st = service_storage(None, Some(s), "Twitter");
    assert!(st.session.articles_marked_as_read.contains("42"));
    assert!(!st.session.articles_marked_as_read.contains("43"));
    assert!(!st.local.hidden_articles.contains("42"));
}

#[test]
fn unmarking_removes_the_mark_and_keeps_others() {
    let s = mark_article_as_read(None, "Twitter", "1".to_string(), true);
    let s = mark_article_as_read(Some(s), "Twitter", "2".to_string(), true);
    let s = mark_article_as_read(Some(s), "Pixiv", "1".to_string(), true);
    let s = mark_article_as_read(Some(s), "Twitter", "1".to_string(), false);
    let tw = service_storage(None, Some(s), "Twitter");
    assert!(!tw.session.articles_marked_as_read.contains("1"));
    assert!(tw.session.articles_marked_as_read.contains("2"));
}

#[test]
fn marking_twice_is_marking_once() {
    let once = mark_article_as_read(None, "Twitter", "5".to_string(), true);
    let twice = mark_article_as_read(Some(mark_article_as_read(None, "Twitter", "5".to_string(), true)), "Twitter", "5".to_string(), true);
    let a = service_storage(None, Some(once), "Twitter");
    let b = service_storage(None, Some(twice), "Twitter");
    assert_eq!(a.session.articles_marked_as_read.items().len(), 1);
    assert_eq!(b.session.articles_marked_as_read.items().len(), 1);
}

#[test]
fn hidden_article_reads_back_and_keeps_the_mode() {
    let l = hide_article(None, "YouTube", "abc".to_string(), true);
    assert_eq!(l.display_mode, DisplayMode::Default);
    let l = hide_article(Some(l), "YouTube", "def".to_string(), true);
    let st = service_storage(Some(l), None, "YouTube");
    assert!(st.local.hidden_articles.contains("abc"));
    assert!(st.local.hidden_articles.contains("def"));
    let other = service_storage(None, None, "Twitter");
    assert!(!other.local.hidden_articles.contains("abc"));
}

#[test]
fn cached_articles_read_back() {
    let mut arts = StrMap::new();
    arts.insert("1".to_string(), serde_json::Value::Bool(true));
    let s = cache_articles(None, "Pixiv", arts);
    let mut more = StrMap::new();
    more.insert("1".to_string(), serde_json::Value::Null);
    more.insert("2".to_string(), serde_json::Value::Bool(false));
    let s = cache_articles(Some(s), "Pixiv", more);
    let st = service_storage(None, Some(s), "Pixiv");
    assert_eq!(st.session.cached_articles.get("1"), Some(&serde_json::Value::Null));
    assert_eq!(st.session.cached_articles.get("2"), Some(&serde_json::Value::Bool(false)));
    assert_eq!(st.session.cached_articles.len(), 2);
}
