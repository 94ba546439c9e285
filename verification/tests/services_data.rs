use soshalthing_yew::articles::MediaQueueInfo;
use soshalthing_yew::error::{Error, ErrorKind};
use soshalthing_yew::pixiv::{
    follow_api_url_of, follow_page_articles, payload_body, FollowAPIResponse, FollowAPIThumbnails, post_url_of, APIPayload, FollowAPIIllust, FullPostAPI, FullPostAPIURLs, PixivAgent,
    PixivArticle, PixivMedia, UnfetchedCheck, CachedMedia,
};
use soshalthing_yew::storages::{hide_article, mark_article_as_read, service_storage, ServiceStorage};
use soshalthing_yew::text::{parse_text, replace, trim, TextUrl};
use soshalthing_yew::twitter::{
    action_url_of, author_url_of, parse_media, url_of, weak_actual_article, Entities, MediaType, TweetArticleData, TweetJson, TweetMedia,
    TweetRef, TweetUrl, VideoInfo, VideoVariant,
};
use soshalthing_yew::youtube::{YouTubeAgent, YouTubeChannel, PlaylistItem, PlaylistItemResourceId, PlaylistItemSnippet, Thumbnail, Thumbnails, YouTubeArticle};

fn storage_with(service: &str, marked: &str, hidden: &str) -> ServiceStorage {
    let s = mark_article_as_read(None, service, marked.to_string(), true);
    let l = hide_article(None, service, hidden.to_string(), true);
    service_storage(Some(l), Some(s), service)
}

fn full_post(id: &str) -> FullPostAPI {
    FullPostAPI {
        id: id.to_string(),
        title: "t".to_string(),
        urls: FullPostAPIURLs {
            mini: "m".to_string(),
            thumb: "th".to_string(),
            small: "s".to_string(),
            regular: "r".to_string(),
            original: "o".to_string(),
        },
        user_account: "acc".to_string(),
        user_name: "name".to_string(),
        user_id: "77".to_string(),
        like_count: 3,
        like_data: true,
        bookmark_count: 4,
        bookmark_data: false,
        create_date: "2021".to_string(),
    }
}

#[test]
fn pixiv_full_post() {
    let st = storage_with("Pixiv", "10", "11");
    let a = PixivArticle::from_full_post("{\"id\":\"10\"}".to_string(), &full_post("10"), Some("av".to_string()), &st);
    assert_eq!(a.id, 10);
    assert_eq!(a.author_id, 77);
    assert!(a.marked_as_read);
    assert!(!a.hidden);
    assert!(a.is_fully_fetched);
    assert_eq!(a.author_avatar_url, "av");
    assert_eq!(a.raw_json, "{\"id\":\"10\"}");
    assert!(matches!(a.media, PixivMedia::Thumbnail(ref s) if s == "o"));
    let b = PixivArticle::from_full_post("{}".to_string(), &full_post("11"), None, &st);
    assert!(b.hidden && !b.marked_as_read);
    assert_eq!(b.author_avatar_url, "");
}

#[test]
fn pixiv_follow_illust() {
    let st = storage_with("Pixiv", "1", "2");
    let ill = FollowAPIIllust {
        id: "5".to_string(),
        title: "x".to_string(),
        url: "u".to_string(),
        user_id: "6".to_string(),
        user_name: "n".to_string(),
        profile_image_url: "p".to_string(),
        bookmark_data: true,
        create_date: "d".to_string(),
    };
    let a = PixivArticle::from_follow_illust("{}".to_string(), &ill, None, &st);
    assert!(matches!(a.media, PixivMedia::Thumbnail(ref s) if s == "u"));
    assert!(!a.is_fully_fetched);
    assert!(a.bookmarked);
    let cached = CachedMedia { media_type: MediaType::Video, src: "c.mp4".to_string(), queue_load_info: MediaQueueInfo::LazyLoad { loaded: false } };
    let b = PixivArticle::from_follow_illust("{}".to_string(), &ill, Some(cached), &st);
    assert!(matches!(b.media, PixivMedia::Cached(ref m) if m.src == "c.mp4" && m.media_type == MediaType::Video));
    assert!(b.is_fully_fetched);
}

fn cached_image() -> CachedMedia {
    CachedMedia { media_type: MediaType::Image, src: "cached.png".to_string(), queue_load_info: MediaQueueInfo::Thumbnail }
}

#[test]
fn pixiv_page_card() {
    let st = storage_with("Pixiv", "7", "8");
    let s = |x: &str| Some(x.to_string());
    let a = PixivArticle::parse_article(s("007"), s("T"), s("9"), s("A"), s("thumb"), s("av"), None, &st).unwrap();
    assert_eq!(a.id, 7);
    assert!(a.marked_as_read);
    assert!(matches!(a.media, PixivMedia::Thumbnail(ref t) if t == "thumb"));
    assert!(PixivArticle::parse_article(s("x"), s("T"), s("9"), s("A"), s("thumb"), s("av"), None, &st).is_none());
    assert!(PixivArticle::parse_article(s("1"), None, s("9"), s("A"), s("thumb"), s("av"), None, &st).is_none());
    assert!(PixivArticle::parse_article(s("1"), s("T"), s("9"), s("A"), None, s("av"), None, &st).is_none());
    let c = PixivArticle::parse_article(s("1"), s("T"), s("9"), s("A"), None, s("av"), Some(cached_image()), &st).unwrap();
    assert!(matches!(c.media, PixivMedia::Cached(ref m) if m.src == "cached.png"));
    assert!(c.is_fully_fetched);
    assert_eq!(c.raw_json, "null");
    assert!(PixivArticle::parse_article(s("1"), s("T"), s("-9"), s("A"), s("t"), s("av"), Some(cached_image()), &st).is_none());
}

#[test]
fn pixiv_addresses() {
    assert_eq!(follow_api_url_of(0, false), "https://www.pixiv.net/ajax/follow_latest/illust?");
    assert_eq!(follow_api_url_of(0, true), "https://www.pixiv.net/ajax/follow_latest/illust?mode=r18");
    assert_eq!(follow_api_url_of(2, true), "https://www.pixiv.net/ajax/follow_latest/illust?p=3&mode=r18");
    assert_eq!(follow_api_url_of(1, false), "https://www.pixiv.net/ajax/follow_latest/illust?p=2");
    assert_eq!(post_url_of(123), "https://www.pixiv.net/ajax/illust/123");
}

#[test]
fn pixiv_payload() {
    let p = APIPayload { error: true, message: "bad".to_string(), body: 1 };
    match payload_body(p) {
        Err(Error::Generic(ErrorKind::Text(m))) => assert_eq!(m, "bad"),
        other => panic!("unexpected {:?}", other),
    }
    assert!(matches!(payload_body(APIPayload { error: false, message: String::new(), body: 5 }), Ok(5)));
}

fn illust_article(id: u32, full: bool) -> PixivArticle {
    PixivArticle {
        id,
        title: format!("t{}", id),
        media: PixivMedia::Cached(cached_image()),
        author_name: String::new(),
        author_id: 0,
        author_avatar_url: String::new(),
        marked_as_read: false,
        hidden: false,
        is_fully_fetched: full,
        like_count: 0,
        liked: false,
        bookmark_count: 0,
        bookmarked: false,
        raw_json: format!("{{\"id\":{}}}", id),
    }
}

#[test]
fn pixiv_fetches_at_most_five_unfetched_posts() {
    let mut agent = PixivAgent::new();
    for id in 0..8 {
        agent.insert_or_update(illust_article(id, id == 3));
    }
    match agent.check_unfetched_articles() {
        UnfetchedCheck::Fetch(ids) => assert_eq!(ids, vec![0, 1, 2, 4, 5]),
        _ => panic!("expected a fetch"),
    }
    match agent.check_unfetched_articles() {
        UnfetchedCheck::Nothing => {}
        _ => panic!("five are being fetched"),
    }
    for id in [0, 1, 2, 4, 5] {
        agent.insert_or_update(illust_article(id, true));
        agent.stop_fetching(id);
    }
    match agent.check_unfetched_articles() {
        UnfetchedCheck::Fetch(ids) => assert_eq!(ids, vec![6, 7]),
        _ => panic!("expected a fetch"),
    }
    for id in [6, 7] {
        agent.insert_or_update(illust_article(id, true));
        agent.stop_fetching(id);
    }
    assert!(matches!(agent.check_unfetched_articles(), UnfetchedCheck::Cache));
}

#[test]
fn pixiv_update_keeps_fully_fetched() {
    let mut a = illust_article(1, true);
    a.update(&illust_article(1, false));
    assert!(a.is_fully_fetched);
    let mut b = illust_article(1, false);
    let mut n = illust_article(1, true);
    n.like_count = 9;
    b.update(&n);
    assert!(b.is_fully_fetched);
    assert_eq!(b.like_count, 9);
    let mut c = illust_article(2, false);
    let mut m = illust_article(2, false);
    m.raw_json = "null".to_string();
    c.update(&m);
    assert_eq!(c.raw_json, "{\"id\":2}");
    m.raw_json = "{\"new\":1}".to_string();
    c.update(&m);
    assert_eq!(c.raw_json, "{\"new\":1}");
}

fn thumb(url: &str) -> Option<Thumbnail> {
    Some(Thumbnail { height: 9, url: url.to_string(), width: 16 })
}

#[test]
fn youtube_video_takes_the_best_thumbnail() {
    let st = storage_with("YouTube", "vid", "other");
    let item = PlaylistItem {
        snippet: PlaylistItemSnippet {
            channel_id: "c".to_string(),
            channel_title: "C".to_string(),
            published_at: "2020".to_string(),
            resource_id: PlaylistItemResourceId { video_id: "vid".to_string() },
            thumbnails: Thumbnails { default: thumb("d"), high: thumb("h"), maxres: None, medium: thumb("m"), standard: None },
            title: "T".to_string(),
        },
    };
    let v = YouTubeArticle::from_playlist_item(item, "{\"kind\":\"item\"}".to_string(), &st);
    assert_eq!(v.thumbnail.as_ref().unwrap().url, "h");
    assert!(v.marked_as_read);
    assert!(!v.hidden);
    assert_eq!(v.channel.avatar_url, "");
    assert_eq!(v.raw_json, "{\"kind\":\"item\"}");
}

#[test]
fn text_helpers() {
    assert_eq!(replace("a-b-c", "-", "+"), "a+b+c");
    assert_eq!(replace("aaa", "aa", "b"), "ba");
    assert_eq!(replace("abc", "", "x"), "xaxbxcx");
    assert_eq!(replace("", "", "x"), "x");
    assert_eq!(trim("  hi \n"), "hi");
    assert_eq!(trim("\u{3000}\u{a0} x y\u{2028}"), "x y");
    assert_eq!(trim(" \t "), "");
    assert_eq!(parse_text("a &amp; b &lt;3", &vec![], &vec![]).0, "a & b <3");
    assert_eq!(parse_text("plain", &vec![], &vec![]).0, "plain");
}

#[test]
fn tweet_text_is_cleaned() {
    let media = vec!["https://t.co/m".to_string()];
    let urls = vec![TextUrl { url: "https://t.co/u".to_string(), display_url: "example.com".to_string() }];
    let (shown, stripped) = parse_text("see https://t.co/u &amp; more https://t.co/m ", &media, &urls);
    assert_eq!(shown, "see example.com & more");
    assert_eq!(stripped, "see https://t.co/u & more  ");
}

fn tweet(id: u64) -> TweetJson {
    TweetJson {
        id: Some(id),
        retweeted_status: None,
        quoted_status: None,
        in_reply_to_status_id: None,
        in_reply_to_screen_name: None,
        full_text: Some(format!("tweet {} https://t.co/x", id)),
        text: None,
        created_at: Some("Wed Oct 10 20:19:24 +0000 2018".to_string()),
        user_screen_name: Some("bob".to_string()),
        user_name: Some("Bob".to_string()),
        user_profile_image_url_https: Some("av".to_string()),
        favorited: Some(true),
        retweeted: None,
        favorite_count: Some(4_294_967_297),
        retweet_count: Some(2),
        entities: Entities { hashtags: vec![], urls: vec![], user_mentions: vec![] },
        extended_media: Some(vec![TweetMedia::Photo {
            media_url_https: "img".to_string(),
            url: "https://t.co/x".to_string(),
            large_w: 4,
            large_h: 3,
        }]),
        raw: format!("{{\"id\":{}}}", id),
    }
}

#[test]
fn tweet_from_json() {
    let st = storage_with("Twitter", "2", "1");
    let mut outer = tweet(1);
    outer.retweeted_status = Some(Box::new(tweet(2)));
    outer.in_reply_to_status_id = Some(9);
    outer.in_reply_to_screen_name = Some("al".to_string());
    let a = TweetArticleData::from(&outer, &st);
    assert_eq!(a.id, 1);
    assert_eq!(a.raw_json, "{\"id\":1}");
    assert_eq!(a.text, "tweet 1");
    assert!(a.liked);
    assert!(!a.retweeted);
    assert_eq!(a.like_count, 1);
    assert!(a.hidden && !a.marked_as_read);
    assert_eq!(a.actual_article_index, Some(0));
    assert_eq!(a.reply_info.as_ref().unwrap().tweet_id, 9);
    assert_eq!(a.media.len(), 1);
    assert_eq!(a.media[0].media_type, MediaType::Image);
    match &a.referenced {
        TweetRef::Reposted(b) => {
            assert_eq!(b.id, 2);
            assert!(b.marked_as_read && !b.hidden);
        }
        _ => panic!("expected a repost"),
    }
    let mut q = tweet(3);
    q.quoted_status = Some(Box::new(tweet(4)));
    let c = TweetArticleData::from(&q, &st);
    assert_eq!(c.actual_article_index, None);
    assert!(matches!(&c.referenced, TweetRef::Quote(b) if b.id == 4));
}

#[test]
fn tweet_media_takes_the_first_mp4() {
    let v = VideoInfo {
        aspect_ratio: (16, 9),
        variants: vec![
            VideoVariant { content_type: "application/x-mpegURL".to_string(), url: "m3u8".to_string() },
            VideoVariant { content_type: "video/mp4".to_string(), url: "a.mp4".to_string() },
            VideoVariant { content_type: "video/mp4".to_string(), url: "b.mp4".to_string() },
        ],
    };
    let m = parse_media(&Some(vec![TweetMedia::Video { url: "u".to_string(), video_info: v }]));
    assert_eq!(m[0].src, "a.mp4");
    assert_eq!(m[0].media_type, MediaType::Video);
    assert_eq!((m[0].width, m[0].height), (16, 9));
    assert!(parse_media(&None).is_empty());
}

#[test]
fn tweet_addresses() {
    assert_eq!(url_of("bob", 12), "https://twitter.com/bob/status/12");
    assert_eq!(author_url_of("bob"), "https://twitter.com/bob");
    assert_eq!(action_url_of("http://h", true, false, 5, false).unwrap(), "http://h/proxy/twitter/like/5");
    assert_eq!(action_url_of("http://h", true, true, 5, false).unwrap(), "http://h/proxy/twitter/unlike/5");
    assert_eq!(action_url_of("http://h", false, true, 5, false).unwrap(), "http://h/proxy/twitter/unretweet/5");
    assert!(action_url_of("http://h", false, false, 5, true).is_none());
    let _ = TweetUrl { display_url: String::new(), expanded_url: String::new(), indices: (0, 0), url: String::new() };
}

#[test]
fn youtube_store_updates_known_videos() {

    let video = |title: &str, marked: bool| YouTubeArticle {
        id: "v1".to_string(),
        published_at: "p".to_string(),
        title: title.to_string(),
        thumbnail: None,
        channel: YouTubeChannel { id: "c".to_string(), title: "C".to_string(), avatar_url: String::new() },
        marked_as_read: marked,
        hidden: false,
        raw_json: String::new(),
    };
    let mut agent = YouTubeAgent::new();
    agent.insert_or_update(video("first", true));
    agent.insert_or_update(video("second", false));
    let kept = agent.articles.get("v1").unwrap();
    assert_eq!(kept.title, "second");
    assert!(kept.marked_as_read);
    assert_eq!(agent.articles.len(), 1);
}

#[test]
fn tweet_references() {
    let st = storage_with("Twitter", "", "");
    let mut outer = tweet(1);
    outer.retweeted_status = Some(Box::new(tweet(2)));
    outer.in_reply_to_status_id = Some(9);
    outer.in_reply_to_screen_name = Some("al".to_string());
    let a = TweetArticleData::from(&outer, &st);
    assert_eq!(a.unfetched_references(), vec!["al".to_string()]);
    assert_eq!(a.actual_article().map(|t| t.id), Some(2));
    assert_eq!(weak_actual_article(&a).id, 2);

    let mut q = tweet(3);
    q.quoted_status = Some(Box::new(tweet(4)));
    let c = TweetArticleData::from(&q, &st);
    assert!(c.unfetched_references().is_empty());
    assert!(c.actual_article().is_none());
    assert_eq!(weak_actual_article(&c).id, 3);
}

#[test]
fn pixiv_follow_page_in_order() {
    let st = storage_with("Pixiv", "3", "");
    let ill = |id: &str| FollowAPIIllust {
        id: id.to_string(),
        title: format!("t{}", id),
        url: format!("u{}", id),
        user_id: "6".to_string(),
        user_name: "n".to_string(),
        profile_image_url: "p".to_string(),
        bookmark_data: false,
        create_date: "d".to_string(),
    };
    let page = APIPayload {
        error: false,
        message: String::new(),
        body: FollowAPIResponse { thumbnails: FollowAPIThumbnails { illust: vec![ill("3"), ill("4")] } },
    };
    let raws = vec!["{\"id\":3}".to_string(), "{\"id\":4}".to_string()];
    let v = follow_page_articles(page, &raws, &vec![None, Some(cached_image())], &st).unwrap();
    assert_eq!(v.len(), 2);
    assert_eq!(v[0].id, 3);
    assert!(v[0].marked_as_read);
    assert!(matches!(v[0].media, PixivMedia::Thumbnail(ref u) if u == "u3"));
    assert_eq!(v[1].id, 4);
    assert_eq!(v[1].raw_json, "{\"id\":4}");
    assert!(v[1].is_fully_fetched);
    let failed = APIPayload {
        error: true,
        message: "no".to_string(),
        body: FollowAPIResponse { thumbnails: FollowAPIThumbnails { illust: vec![] } },
    };
    match follow_page_articles(failed, &vec![], &vec![], &st) {
        Err(Error::Generic(ErrorKind::Text(m))) => assert_eq!(m, "no"),
        _ => panic!("expected the message"),
    }
}
