use vstd::prelude::*;
use crate::article_actions::ServiceActions;
use crate::endpoints::{bool_param, bool_param_of, constructor_of, text_param, text_param_of, EndpointConstructorCollection};
use crate::decimal::{decimal_of, parse_u64, parse_unsigned_spec, u64_to_decimal};
use crate::error::Error;
use crate::notifications::{Notification, NotificationRequest};
use crate::services::RateLimit;
use crate::storages::ServiceStorage;
use crate::string_map::str_eq;
use crate::text::{parse_text, stripped_text, tweet_text, TextUrl};

verus! {

/// What kind of media an article shows.
#[derive(Clone, Copy, Debug, PartialEq, Eq, Structural)]
pub enum MediaType {
    Image,
    Video,
    VideoGif,
}

/// A Twitter account.
pub struct TwitterUser {
    pub username: String,
    pub name: String,
    pub avatar_url: String,
}

/// The tweet that a tweet answers, and its author.
pub struct ReplyInfo {
    pub screen_name: String,
    pub tweet_id: u64,
}

/// A hashtag of a tweet's text.
pub struct TweetHashtag {
    pub indices: (usize, usize),
    pub text: String,
}

/// An account mentioned in a tweet's text.
pub struct TweetMention {
    pub indices: (usize, usize),
    pub screen_name: String,
}

/// A link of a tweet's text.
pub struct TweetUrl {
    pub display_url: String,
    pub expanded_url: String,
    pub indices: (usize, usize),
    pub url: String,
}

/// The entities of a tweet's text.
pub struct Entities {
    pub hashtags: Vec<TweetHashtag>,
    pub urls: Vec<TweetUrl>,
    pub user_mentions: Vec<TweetMention>,
}

/// One encoding of a video.
pub struct VideoVariant {
    pub content_type: String,
    pub url: String,
}

/// A video's proportions and encodings.
pub struct VideoInfo {
    pub aspect_ratio: (u16, u16),
    pub variants: Vec<VideoVariant>,
}

/// A media attached to a tweet, as the API gives it: a photo (with its large
/// size), a looping GIF or a video; each with the short address that the
/// tweet's text holds.
pub enum TweetMedia {
    Photo { media_url_https: String, url: String, large_w: u32, large_h: u32 },
    AnimatedGif { url: String, video_info: VideoInfo },
    Video { url: String, video_info: VideoInfo },
}

/// A tweet as the API gives it, with what the app reads of it.
pub struct TweetJson {
    pub id: Option<u64>,
    pub retweeted_status: Option<Box<TweetJson>>,
    pub quoted_status: Option<Box<TweetJson>>,
    pub in_reply_to_status_id: Option<u64>,
    pub in_reply_to_screen_name: Option<String>,
    pub full_text: Option<String>,
    pub text: Option<String>,
    pub created_at: Option<String>,
    pub user_screen_name: Option<String>,
    pub user_name: Option<String>,
    pub user_profile_image_url_https: Option<String>,
    pub favorited: Option<bool>,
    pub retweeted: Option<bool>,
    pub favorite_count: Option<u64>,
    pub retweet_count: Option<u64>,
    pub entities: Entities,
    pub extended_media: Option<Vec<TweetMedia>>,
    /// The tweet's whole JSON, as text.
    pub raw: String,
}

/// A media as an article shows it: its kind, address, and proportions.
pub struct TweetMediaData {
    pub media_type: MediaType,
    pub src: String,
    pub width: u32,
    pub height: u32,
}

/// The tweet that a tweet shows inside itself.
pub enum TweetRef {
    NoRef,
    Reposted(Box<TweetArticleData>),
    Quote(Box<TweetArticleData>),
}

/// A tweet as the timelines keep it (but its date object and JSON).
pub struct TweetArticleData {
    pub id: u64,
    pub text: String,
    pub stripped_text: String,
    pub created_at: String,
    pub author: TwitterUser,
    pub liked: bool,
    pub retweeted: bool,
    pub like_count: u32,
    pub retweet_count: u32,
    pub media: Vec<TweetMediaData>,
    pub referenced: TweetRef,
    pub actual_article_index: Option<usize>,
    pub marked_as_read: bool,
    pub hidden: bool,
    pub reply_info: Option<ReplyInfo>,
    /// The tweet's JSON, as text.
    pub raw_json: String,
}

/// Whether `v` is an MP4 encoding.
pub open spec fn is_mp4(v: VideoVariant) -> bool {
    v.content_type@ == "video/mp4"@
}

/// The first MP4 encoding of a video.
pub open spec fn first_mp4(vs: Seq<VideoVariant>) -> int {
    choose|i: int| 0 <= i < vs.len() && is_mp4(vs[i]) && forall|j: int| 0 <= j < i ==> !is_mp4(#[trigger] vs[j])
}

/// A video has an MP4 encoding and non-zero proportions.
pub open spec fn video_ok(v: VideoInfo) -> bool {
    &&& exists|i: int| 0 <= i < v.variants@.len() && is_mp4(#[trigger] v.variants@[i])
    &&& v.aspect_ratio.0 != 0
    &&& v.aspect_ratio.1 != 0
}

/// A media has what an article needs of it.
pub open spec fn media_ok(m: TweetMedia) -> bool {
    match m {
        TweetMedia::Photo { large_w, large_h, .. } => large_w != 0 && large_h != 0,
        TweetMedia::AnimatedGif { video_info, .. } => video_ok(video_info),
        TweetMedia::Video { video_info, .. } => video_ok(video_info),
    }
}

/// The article media of a tweet media.
pub open spec fn media_shown(m: TweetMedia, d: TweetMediaData) -> bool {
    match m {
        TweetMedia::Photo { media_url_https, large_w, large_h, .. } => {
            &&& d.media_type == MediaType::Image
            &&& d.src == media_url_https
            &&& d.width == large_w
            &&& d.height == large_h
        },
        TweetMedia::AnimatedGif { video_info, .. } => {
            &&& d.media_type == MediaType::VideoGif
            &&& d.src == video_info.variants@[first_mp4(video_info.variants@)].url
            &&& d.width == video_info.aspect_ratio.0
            &&& d.height == video_info.aspect_ratio.1
        },
        TweetMedia::Video { video_info, .. } => {
            &&& d.media_type == MediaType::Video
            &&& d.src == video_info.variants@[first_mp4(video_info.variants@)].url
            &&& d.width == video_info.aspect_ratio.0
            &&& d.height == video_info.aspect_ratio.1
        },
    }
}

/// The short address that a tweet media's place in the text holds.
pub open spec fn media_url(m: TweetMedia) -> String {
    match m {
        TweetMedia::Photo { url, .. } => url,
        TweetMedia::AnimatedGif { url, .. } => url,
        TweetMedia::Video { url, .. } => url,
    }
}

/// The short addresses of a tweet's media, to remove from its text.
pub open spec fn media_urls(m: Option<Vec<TweetMedia>>) -> Seq<String> {
    match m {
        Some(v) => v@.map_values(|x: TweetMedia| media_url(x)),
        None => Seq::empty(),
    }
}

/// The links of a tweet's text, each with its short address and its shown form.
pub open spec fn text_urls(e: Entities) -> Seq<TextUrl> {
    e.urls@.map_values(|u: TweetUrl| TextUrl { url: u.url, display_url: u.display_url })
}

/// The text a tweet holds: its full text, else its text, else nothing.
pub open spec fn raw_text(j: TweetJson) -> Seq<char> {
    match j.full_text {
        Some(t) => t@,
        None => match j.text {
            Some(t) => t@,
            None => Seq::empty(),
        },
    }
}

/// A tweet has what an article needs of it, and so does the tweet it shows.
pub open spec fn tweet_ok(j: TweetJson) -> bool
    decreases j,
{
    &&& j.id is Some
    &&& j.created_at is Some
    &&& j.user_screen_name is Some
    &&& j.user_name is Some
    &&& j.user_profile_image_url_https is Some
    &&& j.favorite_count is Some
    &&& j.retweet_count is Some
    &&& (j.in_reply_to_status_id is Some ==> j.in_reply_to_screen_name is Some)
    &&& (j.extended_media matches Some(v) ==> forall|i: int| 0 <= i < v@.len() ==> media_ok(#[trigger] v@[i]))
    &&& match j.retweeted_status {
        Some(r) => tweet_ok(*r),
        None => match j.quoted_status {
            Some(q) => tweet_ok(*q),
            None => true,
        },
    }
}

/// `a` is the article that tweet `j` makes, with the read and hidden marks of
/// service storage `marked` and `hidden`: its fields are the tweet's, its
/// counts cut to 32 bits, and it shows the tweet it reposts, else the one it
/// quotes; a repost's actual article is the reposted one.
pub open spec fn tweet_built(a: TweetArticleData, j: TweetJson, marked: Set<Seq<char>>, hidden: Set<Seq<char>>) -> bool
    decreases j,
{
    &&& a.id == j.id->0
    &&& a.text@ == tweet_text(raw_text(j), media_urls(j.extended_media), text_urls(j.entities))
    &&& a.stripped_text@ == stripped_text(raw_text(j), media_urls(j.extended_media))
    &&& a.created_at == j.created_at->0
    &&& a.raw_json == j.raw
    &&& a.author.username == j.user_screen_name->0
    &&& a.author.name == j.user_name->0
    &&& a.author.avatar_url == j.user_profile_image_url_https->0
    &&& a.liked == (j.favorited == Some(true))
    &&& a.retweeted == (j.retweeted == Some(true))
    &&& a.like_count == j.favorite_count->0 as u32
    &&& a.retweet_count == j.retweet_count->0 as u32
    &&& match j.extended_media {
        Some(v) => a.media@.len() == v@.len() && forall|i: int| 0 <= i < v@.len() ==> media_shown(#[trigger] v@[i], a.media@[i]),
        None => a.media@.len() == 0,
    }
    &&& a.marked_as_read == marked.contains(decimal_of(a.id as nat))
    &&& a.hidden == hidden.contains(decimal_of(a.id as nat))
    &&& match j.in_reply_to_status_id {
        Some(rid) => a.reply_info matches Some(r) && r.tweet_id == rid && r.screen_name == j.in_reply_to_screen_name->0,
        None => a.reply_info is None,
    }
    &&& match j.retweeted_status {
        Some(r) => a.actual_article_index == Some(0usize)
            && (a.referenced matches TweetRef::Reposted(b) && tweet_built(*b, *r, marked, hidden)),
        None => a.actual_article_index is None && match j.quoted_status {
            Some(q) => a.referenced matches TweetRef::Quote(b) && tweet_built(*b, *q, marked, hidden),
            None => a.referenced is NoRef,
        },
    }
}

fn mp4_of(v: &VideoInfo, media_type: MediaType) -> (d: TweetMediaData)
    requires
        video_ok(*v),
    ensures
        d.media_type == media_type,
        d.src == v.variants@[first_mp4(v.variants@)].url,
        d.width == v.aspect_ratio.0,
        d.height == v.aspect_ratio.1,
{
    proof { reveal_strlit("video/mp4"); }
    let mut i: usize = 0;
    while i < v.variants.len()
        invariant
            i <= v.variants@.len(),
            video_ok(*v),
            forall|j: int| 0 <= j < i ==> !is_mp4(#[trigger] v.variants@[j]),
        decreases v.variants@.len() - i,
    {
        proof { reveal_strlit("video/mp4"); }
        if str_eq(v.variants[i].content_type.as_str(), "video/mp4") {
            proof {
                let k = first_mp4(v.variants@);
                assert(is_mp4(v.variants@[i as int]));
                assert(0 <= k < v.variants@.len() && is_mp4(v.variants@[k]) && forall|j: int| 0 <= j < k ==> !is_mp4(#[trigger] v.variants@[j]));
                if k < i {
                    assert(!is_mp4(v.variants@[k]));
                } else if k > i {
                    assert(!is_mp4(v.variants@[i as int]));
                }
            }
            return TweetMediaData {
                media_type,
                src: v.variants[i].url.clone(),
                width: v.aspect_ratio.0 as u32,
                height: v.aspect_ratio.1 as u32,
            };
        }
        i = i + 1;
    }
    proof {
        let k = choose|k: int| 0 <= k < v.variants@.len() && is_mp4(#[trigger] v.variants@[k]);
        assert(!is_mp4(v.variants@[k]));
    }
    TweetMediaData { media_type, src: String::new(), width: 0, height: 0 }
}

/// The media an article shows of a tweet's media.
pub fn parse_media(media: &Option<Vec<TweetMedia>>) -> (r: Vec<TweetMediaData>)
    requires
        media matches Some(v) ==> forall|i: int| 0 <= i < v@.len() ==> media_ok(#[trigger] v@[i]),
    ensures
        match *media {
            Some(v) => r@.len() == v@.len() && forall|i: int| 0 <= i < v@.len() ==> media_shown(#[trigger] v@[i], r@[i]),
            None => r@.len() == 0,
        },
{
    let mut r: Vec<TweetMediaData> = Vec::new();
    match media {
        None => r,
        Some(v) => {
            let mut i: usize = 0;
            while i < v.len()
                invariant
                    i <= v@.len(),
                    forall|k: int| 0 <= k < v@.len() ==> media_ok(#[trigger] v@[k]),
                    r@.len() == i,
                    forall|k: int| 0 <= k < i ==> media_shown(#[trigger] v@[k], r@[k]),
                decreases v@.len() - i,
            {
                let d = match &v[i] {
                    TweetMedia::Photo { media_url_https, large_w, large_h, .. } => TweetMediaData {
                        media_type: MediaType::Image,
                        src: media_url_https.clone(),
                        width: *large_w,
                        height: *large_h,
                    },
                    TweetMedia::AnimatedGif { video_info, .. } => mp4_of(video_info, MediaType::VideoGif),
                    TweetMedia::Video { video_info, .. } => mp4_of(video_info, MediaType::Video),
                };
                r.push(d);
                i = i + 1;
            }
            r
        },
    }
}

fn media_url_list(media: &Option<Vec<TweetMedia>>) -> (r: Vec<String>)
    ensures
        r@ == media_urls(*media),
{
    let mut r: Vec<String> = Vec::new();
    match media {
        None => {
            assert(r@ =~= media_urls(*media));
            r
        },
        Some(v) => {
            let mut i: usize = 0;
            while i < v.len()
                invariant
                    i <= v@.len(),
                    r@ == v@.take(i as int).map_values(|x: TweetMedia| media_url(x)),
                decreases v@.len() - i,
            {
                let u = match &v[i] {
                    TweetMedia::Photo { url, .. } => url.clone(),
                    TweetMedia::AnimatedGif { url, .. } => url.clone(),
                    TweetMedia::Video { url, .. } => url.clone(),
                };
                r.push(u);
                proof {
                    assert(r@ =~= v@.take(i + 1).map_values(|x: TweetMedia| media_url(x)));
                }
                i = i + 1;
            }
            proof { assert(v@.take(i as int) =~= v@); }
            r
        },
    }
}

fn text_url_list(e: &Entities) -> (r: Vec<TextUrl>)
    ensures
        r@ == text_urls(*e),
{
    let mut r: Vec<TextUrl> = Vec::new();
    let mut i: usize = 0;
    while i < e.urls.len()
        invariant
            i <= e.urls@.len(),
            r@ == e.urls@.take(i as int).map_values(|u: TweetUrl| TextUrl { url: u.url, display_url: u.display_url }),
        decreases e.urls@.len() - i,
    {
        r.push(TextUrl { url: e.urls[i].url.clone(), display_url: e.urls[i].display_url.clone() });
        proof {
            assert(r@ =~= e.urls@.take(i + 1).map_values(|u: TweetUrl| TextUrl { url: u.url, display_url: u.display_url }));
        }
        i = i + 1;
    }
    proof { assert(e.urls@.take(i as int) =~= e.urls@); }
    r
}

impl TweetArticleData {
    /// The article of a tweet, with the tweet it reposts or else quotes, and
    /// the read and hidden marks that the service's storage holds for each.
    pub fn from(json: &TweetJson, storage: &ServiceStorage) -> (r: TweetArticleData)
        requires
            tweet_ok(*json),
            storage.local.wf(),
            storage.session.wf(),
        ensures
            tweet_built(r, *json, storage.session.articles_marked_as_read@, storage.local.hidden_articles@),
        decreases json,
    {
        let id = json.id.unwrap();
        let (referenced, actual_article_index) = match &json.retweeted_status {
            Some(rt) => (TweetRef::Reposted(Box::new(TweetArticleData::from(rt, storage))), Some(0usize)),
            None => match &json.quoted_status {
                Some(q) => (TweetRef::Quote(Box::new(TweetArticleData::from(q, storage))), None),
                None => (TweetRef::NoRef, None),
            },
        };
        let reply_info = match json.in_reply_to_status_id {
            Some(rid) => Some(ReplyInfo { screen_name: json.in_reply_to_screen_name.clone().unwrap(), tweet_id: rid }),
            None => None,
        };
        let original = match &json.full_text {
            Some(t) => t.clone(),
            None => match &json.text {
                Some(t) => t.clone(),
                None => String::new(),
            },
        };
        let murls = media_url_list(&json.extended_media);
        let turls = text_url_list(&json.entities);
        let (text, stripped) = parse_text(original.as_str(), &murls, &turls);
        let key = u64_to_decimal(id);
        TweetArticleData {
            id,
            text,
            stripped_text: stripped,
            created_at: json.created_at.clone().unwrap(),
            author: TwitterUser {
                username: json.user_screen_name.clone().unwrap(),
                name: json.user_name.clone().unwrap(),
                avatar_url: json.user_profile_image_url_https.clone().unwrap(),
            },
            liked: match json.favorited {
                Some(b) => b,
                None => false,
            },
            retweeted: match json.retweeted {
                Some(b) => b,
                None => false,
            },
            like_count: json.favorite_count.unwrap() as u32,
            retweet_count: json.retweet_count.unwrap() as u32,
            media: parse_media(&json.extended_media),
            referenced,
            actual_article_index,
            marked_as_read: storage.session.articles_marked_as_read.contains(key.as_str()),
            hidden: storage.local.hidden_articles.contains(key.as_str()),
            reply_info,
            raw_json: json.raw.clone(),
        }
    }

    /// Takes the counts, marks and JSON of a newer fetch of the same tweet.
    pub fn update(&mut self, new: &TweetArticleData)
        ensures
            *final(self) == updated_tweet(*old(self), *new),
            final(self).raw_json == new.raw_json,
            final(self).liked == new.liked,
            final(self).retweeted == new.retweeted,
            final(self).like_count == new.like_count,
            final(self).retweet_count == new.retweet_count,
            final(self).id == old(self).id,
            final(self).text == old(self).text,
            final(self).author == old(self).author,
            final(self).marked_as_read == old(self).marked_as_read,
            final(self).hidden == old(self).hidden,
    {
        self.liked = new.liked;
        self.retweeted = new.retweeted;
        self.like_count = new.like_count;
        self.retweet_count = new.retweet_count;
        self.raw_json = new.raw_json.clone();
    }

    /// The accounts the tweet refers to that are not fetched with it: the
    /// author of the tweet it answers.
    pub fn unfetched_references(&self) -> (r: Vec<String>)
        ensures
            r@.len() == (if self.reply_info is Some { 1int } else { 0int }),
            self.reply_info matches Some(i) ==> r@[0] == i.screen_name,
    {
        match &self.reply_info {
            Some(i) => vec![i.screen_name.clone()],
            None => Vec::new(),
        }
    }

    /// The tweet that this one stands for: the retweeted one, where the
    /// tweet is a retweet; none where its actual article is a quote.
    pub fn actual_article(&self) -> (r: Option<&TweetArticleData>)
        requires
            self.actual_article_index matches Some(i) ==> i == 0 && !(self.referenced is NoRef),
        ensures
            r == match (self.actual_article_index, &self.referenced) {
                (Some(_), TweetRef::Reposted(b)) => Some(&**b),
                _ => None::<&TweetArticleData>,
            },
    {
        match self.actual_article_index {
            Some(_) => match &self.referenced {
                TweetRef::Reposted(b) => Some(&**b),
                _ => None,
            },
            None => None,
        }
    }
}

/// The tweet a timeline shows for `article`: the one it stands for, or
/// itself.
pub fn weak_actual_article(article: &TweetArticleData) -> (r: &TweetArticleData)
    requires
        article.actual_article_index matches Some(i) ==> i == 0 && !(article.referenced is NoRef),
    ensures
        r == match (article.actual_article_index, &article.referenced) {
            (Some(_), TweetRef::Reposted(b)) => &**b,
            _ => article,
        },
{
    match article.actual_article() {
        Some(a) => a,
        None => article,
    }
}

/// The address of a tweet.
pub open spec fn tweet_url(username: Seq<char>, id: u64) -> Seq<char> {
    "https://twitter.com/"@ + username + "/status/"@ + decimal_of(id as nat)
}

/// The address of a tweet.
pub fn url_of(username: &str, id: u64) -> (r: String)
    ensures
        r@ == tweet_url(username@, id),
{
    let mut r = String::from_str("https://twitter.com/");
    r.append(username);
    r.append("/status/");
    let n = u64_to_decimal(id);
    r.append(n.as_str());
    r
}

/// The address of an account's page.
pub fn author_url_of(username: &str) -> (r: String)
    ensures
        r@ == "https://twitter.com/"@ + username@,
{
    let mut r = String::from_str("https://twitter.com/");
    r.append(username);
    r
}

/// The address that likes or unlikes (`like`), or retweets or unretweets, a
/// tweet through the app's server; only an article that reposts nothing can
/// be acted on.
pub open spec fn action_url(base: Seq<char>, like: bool, done: bool, id: u64) -> Seq<char> {
    base + "/proxy/twitter/"@
        + (if like { if done { "unlike"@ } else { "like"@ } } else { if done { "unretweet"@ } else { "retweet"@ } })
        + "/"@ + decimal_of(id as nat)
}

/// The address is the base, the server's Twitter proxy, the verb, and the
/// tweet's number: retweeting uses "retweet" (or "unretweet" when already
/// done), liking uses "like" (or "unlike").
pub proof fn action_url_verbs(base: Seq<char>, done: bool, id: u64)
    ensures
        action_url(base, false, false, id) == base + "/proxy/twitter/retweet/"@ + decimal_of(id as nat),
        action_url(base, false, true, id) == base + "/proxy/twitter/unretweet/"@ + decimal_of(id as nat),
        action_url(base, true, false, id) == base + "/proxy/twitter/like/"@ + decimal_of(id as nat),
        action_url(base, true, true, id) == base + "/proxy/twitter/unlike/"@ + decimal_of(id as nat),
{
    reveal_strlit("/proxy/twitter/");
    reveal_strlit("retweet");
    reveal_strlit("unretweet");
    reveal_strlit("like");
    reveal_strlit("unlike");
    reveal_strlit("/");
    reveal_strlit("/proxy/twitter/retweet/");
    reveal_strlit("/proxy/twitter/unretweet/");
    reveal_strlit("/proxy/twitter/like/");
    reveal_strlit("/proxy/twitter/unlike/");
    let d = decimal_of(id as nat);
    assert("/proxy/twitter/"@ + "retweet"@ + "/"@ =~= "/proxy/twitter/retweet/"@);
    assert("/proxy/twitter/"@ + "unretweet"@ + "/"@ =~= "/proxy/twitter/unretweet/"@);
    assert("/proxy/twitter/"@ + "like"@ + "/"@ =~= "/proxy/twitter/like/"@);
    assert("/proxy/twitter/"@ + "unlike"@ + "/"@ =~= "/proxy/twitter/unlike/"@);
    assert(action_url(base, false, false, id) =~= base + "/proxy/twitter/retweet/"@ + d);
    assert(action_url(base, false, true, id) =~= base + "/proxy/twitter/unretweet/"@ + d);
    assert(action_url(base, true, false, id) =~= base + "/proxy/twitter/like/"@ + d);
    assert(action_url(base, true, true, id) =~= base + "/proxy/twitter/unlike/"@ + d);
}

/// Liking and retweeting a tweet go to different addresses, and so do doing
/// and undoing either.
pub proof fn like_and_retweet_addresses_differ(base: Seq<char>, like: bool, done: bool, id: u64)
    ensures
        action_url(base, true, done, id) != action_url(base, false, done, id),
        action_url(base, like, true, id) != action_url(base, like, false, id),
{
    reveal_strlit("/proxy/twitter/");
    reveal_strlit("retweet");
    reveal_strlit("unretweet");
    reveal_strlit("like");
    reveal_strlit("unlike");
    let p = base + "/proxy/twitter/"@;
    let k = p.len() as int;
    let d = decimal_of(id as nat);
    let ul = p + "unlike"@ + "/"@ + d;
    let l = p + "like"@ + "/"@ + d;
    let ur = p + "unretweet"@ + "/"@ + d;
    let r = p + "retweet"@ + "/"@ + d;
    assert(ul[k] == 'u' && ul[k + 2] == 'l');
    assert(l[k] == 'l');
    assert(ur[k] == 'u' && ur[k + 2] == 'r');
    assert(r[k] == 'r');
}

/// The address that acts on tweet `id` (liking it if `like`, else retweeting
/// it; undoing when already `done`); none for an article that reposts
/// another, which is acted on through the reposted one.
pub fn action_url_of(base: &str, like: bool, done: bool, id: u64, reposts: bool) -> (r: Option<String>)
    ensures
        reposts ==> r is None,
        !reposts ==> (r matches Some(u) && u@ == action_url(base@, like, done, id)),
{
    if reposts {
        return None;
    }
    let mut r = String::from_str(base);
    r.append("/proxy/twitter/");
    let verb = if like {
        if done { "unlike" } else { "like" }
    } else {
        if done { "unretweet" } else { "retweet" }
    };
    r.append(verb);
    r.append("/");
    let n = u64_to_decimal(id);
    r.append(n.as_str());
    Some(r)
}


/// Twitter's kinds of endpoint, with their parameters, and which one lists a
/// user's tweets: the user timeline.
pub fn endpoint_constructors() -> (r: EndpointConstructorCollection)
    ensures
        r.user_endpoint_index == Some(1usize),
        r.constructors@.len() == 6,
        r.constructors@[0].name@ == "Home Timeline"@ && r.constructors@[0].param_template@.len() == 0,
        r.constructors@[1].name@ == "User Timeline"@ && r.constructors@[1].param_template@.len() == 3
            && text_param(r.constructors@[1].param_template@[0], "username"@, ""@)
            && bool_param(r.constructors@[1].param_template@[1], "include_retweets"@, true)
            && bool_param(r.constructors@[1].param_template@[2], "include_replies"@, true),
        r.constructors@[2].name@ == "List"@ && r.constructors@[2].param_template@.len() == 2
            && text_param(r.constructors@[2].param_template@[0], "username"@, ""@)
            && text_param(r.constructors@[2].param_template@[1], "slug"@, ""@),
        r.constructors@[3].name@ == "Likes"@ && r.constructors@[3].param_template@.len() == 1
            && text_param(r.constructors@[3].param_template@[0], "username"@, ""@),
        r.constructors@[4].name@ == "Single Tweet"@ && r.constructors@[4].param_template@.len() == 1
            && text_param(r.constructors@[4].param_template@[0], "id"@, ""@),
        r.constructors@[5].name@ == "Search"@ && r.constructors@[5].param_template@.len() == 1
            && text_param(r.constructors@[5].param_template@[0], "query"@, ""@),
{
    let constructors = vec![
        constructor_of("Home Timeline", vec![]),
        constructor_of("User Timeline", vec![
            text_param_of("username", ""),
            bool_param_of("include_retweets", true),
            bool_param_of("include_replies", true),
        ]),
        constructor_of("List", vec![text_param_of("username", ""), text_param_of("slug", "")]),
        constructor_of("Likes", vec![text_param_of("username", "")]),
        constructor_of("Single Tweet", vec![text_param_of("id", "")]),
        constructor_of("Search", vec![text_param_of("query", "")]),
    ];
    EndpointConstructorCollection { constructors, user_endpoint_index: Some(1) }
}

/// The actions Twitter handles itself: liking and retweeting.
pub fn service_actions() -> (r: ServiceActions)
    ensures
        r == (ServiceActions { like: true, repost: true, fetch_data: false }),
{
    ServiceActions { like: true, repost: true, fetch_data: false }
}

/// Whether the app's server has a Twitter account signed in.
#[derive(Clone, Copy, Debug, PartialEq, Eq, Structural)]
pub enum AuthState {
    NotLoggedIn,
    LoggedIn(u64),
}

/// How a stored tweet shows another: by the other's id.
#[derive(Clone, Copy, Debug, PartialEq, Eq, Structural)]
pub enum StoredRef {
    NoRef,
    Reposted(u64),
    Quote(u64),
}

/// Why a fetch of tweets failed: the server had no signed-in account, or
/// another error.
pub enum TweetFetchError {
    Unauthorized,
    Other(Error),
}

/// The ids of the tweets `s`, in order.
pub open spec fn tweet_ids(s: Seq<TweetArticleData>) -> Seq<u64> {
    s.map_values(|a: TweetArticleData| a.id)
}

/// The Twitter agent: who is signed in, the sidebar component (by handler
/// number), and every tweet fetched, once each, with the tweet it shows.
pub struct TwitterAgent {
    auth_state: AuthState,
    sidebar_handler: Option<u64>,
    articles: Vec<(TweetArticleData, StoredRef)>,
}

/// The user id that the sign-in text reads as.
pub open spec fn auth_user(s: Seq<char>) -> u64 {
    parse_unsigned_spec(s, u64::MAX as int)->Ok_0 as u64
}

/// A kept tweet after a newer fetch `new` of it: the counts, the reader's
/// like and retweet, and the JSON are the new ones; all else stays.
pub open spec fn updated_tweet(kept: TweetArticleData, new: TweetArticleData) -> TweetArticleData {
    TweetArticleData {
        liked: new.liked,
        retweeted: new.retweeted,
        like_count: new.like_count,
        retweet_count: new.retweet_count,
        raw_json: new.raw_json,
        ..kept
    }
}

/// The tweet of id `id` in a store, if it holds one.
pub open spec fn stored_tweet(s: Seq<(TweetArticleData, StoredRef)>, id: u64) -> Option<TweetArticleData> {
    if exists|j: int| 0 <= j < s.len() && (#[trigger] s[j]).0.id == id {
        Some(s[choose|j: int| 0 <= j < s.len() && (#[trigger] s[j]).0.id == id].0)
    } else {
        None
    }
}

/// What a store holds of tweet `data` once it is kept: a newer fetch of the
/// tweet it held, else `data` itself.
pub open spec fn kept_tweet(held: Option<TweetArticleData>, data: TweetArticleData) -> TweetArticleData {
    match held {
        Some(k) => updated_tweet(k, data),
        None => data,
    }
}

/// The tweet that tweet `a` shows inside itself, if any.
pub open spec fn shown_tweet(a: TweetArticleData) -> Option<TweetArticleData> {
    match a.referenced {
        TweetRef::Reposted(b) => Some(*b),
        TweetRef::Quote(b) => Some(*b),
        TweetRef::NoRef => None,
    }
}

/// Tweet `a` as a store keeps it: the tweet it shows is kept apart.
pub open spec fn without_ref(a: TweetArticleData) -> TweetArticleData {
    TweetArticleData { referenced: TweetRef::NoRef, ..a }
}

/// What a store `s` holds of tweet `x` once the tweet `r` shows, if any, is
/// kept.
pub open spec fn held_after_shown(s: Seq<(TweetArticleData, StoredRef)>, r: Option<TweetArticleData>, x: u64) -> Option<TweetArticleData> {
    match r {
        Some(b) => if b.id == x { Some(kept_tweet(stored_tweet(s, x), b)) } else { stored_tweet(s, x) },
        None => stored_tweet(s, x),
    }
}

/// What a store that held `s0` holds of tweet `x` after the tweets of
/// `arts` are kept in turn.
pub open spec fn held_after_all(s0: Seq<(TweetArticleData, StoredRef)>, arts: Seq<TweetArticleData>, x: u64) -> Option<TweetArticleData>
    decreases arts.len(),
{
    if arts.len() == 0 {
        stored_tweet(s0, x)
    } else {
        let a = arts.last();
        let d = arts.drop_last();
        let before = match shown_tweet(a) {
            Some(b) => if b.id == x { Some(kept_tweet(held_after_all(s0, d, x), b)) } else { held_after_all(s0, d, x) },
            None => held_after_all(s0, d, x),
        };
        if x == a.id { Some(kept_tweet(before, without_ref(a))) } else { before }
    }
}

proof fn lemma_stored_at(s: Seq<(TweetArticleData, StoredRef)>, j: int)
    requires
        stored_ids(s).no_duplicates(),
        0 <= j < s.len(),
    ensures
        stored_tweet(s, s[j].0.id) == Some(s[j].0),
{
    let id = s[j].0.id;
    assert(exists|k: int| 0 <= k < s.len() && (#[trigger] s[k]).0.id == id);
    let k = choose|k: int| 0 <= k < s.len() && (#[trigger] s[k]).0.id == id;
    if k != j {
        assert(stored_ids(s)[k] == stored_ids(s)[j]);
    }
}

proof fn lemma_absent(s: Seq<(TweetArticleData, StoredRef)>, id: u64)
    requires
        !stored_ids(s).contains(id),
    ensures
        stored_tweet(s, id) is None,
{
    if exists|k: int| 0 <= k < s.len() && (#[trigger] s[k]).0.id == id {
        let k = choose|k: int| 0 <= k < s.len() && (#[trigger] s[k]).0.id == id;
        assert(stored_ids(s)[k] == id);
    }
}

/// Two stores that agree on every entry of id `x`, at the same places, hold
/// the same tweet of that id.
proof fn lemma_same_elsewhere(a: Seq<(TweetArticleData, StoredRef)>, b: Seq<(TweetArticleData, StoredRef)>, x: u64)
    requires
        stored_ids(a).no_duplicates(),
        stored_ids(b).no_duplicates(),
        forall|j: int| 0 <= j < a.len() && (#[trigger] a[j]).0.id == x ==> j < b.len() && b[j] == a[j],
        forall|j: int| 0 <= j < b.len() && (#[trigger] b[j]).0.id == x ==> j < a.len() && a[j] == b[j],
    ensures
        stored_tweet(a, x) == stored_tweet(b, x),
{
    if exists|k: int| 0 <= k < a.len() && (#[trigger] a[k]).0.id == x {
        let k = choose|k: int| 0 <= k < a.len() && (#[trigger] a[k]).0.id == x;
        lemma_stored_at(a, k);
        lemma_stored_at(b, k);
    } else if exists|k: int| 0 <= k < b.len() && (#[trigger] b[k]).0.id == x {
        let k = choose|k: int| 0 <= k < b.len() && (#[trigger] b[k]).0.id == x;
        assert(a[k] == b[k]);
    }
}

/// The ids of a store's tweets.
pub open spec fn stored_ids(s: Seq<(TweetArticleData, StoredRef)>) -> Seq<u64> {
    s.map_values(|e: (TweetArticleData, StoredRef)| e.0.id)
}

impl TwitterAgent {
    /// The tweets, in the order they came, each with the tweet it shows.
    pub closed spec fn store(&self) -> Seq<(TweetArticleData, StoredRef)> {
        self.articles@
    }

    pub closed spec fn wf(&self) -> bool {
        stored_ids(self.articles@).no_duplicates()
    }

    /// Who is signed in.
    pub closed spec fn auth_view(&self) -> AuthState {
        self.auth_state
    }

    /// The sidebar component, if any.
    pub closed spec fn sidebar_view(&self) -> Option<u64> {
        self.sidebar_handler
    }

    /// Who is signed in.
    pub fn auth_state(&self) -> (r: AuthState)
        ensures
            r == self.auth_view(),
    {
        self.auth_state
    }

    /// The sidebar component, if any.
    pub fn sidebar_handler(&self) -> (r: Option<u64>)
        ensures
            r == self.sidebar_view(),
    {
        self.sidebar_handler
    }

    /// The kept tweet of id `id`, and the tweet it shows, if it is kept.
    pub fn get(&self, id: u64) -> (r: Option<(&TweetArticleData, StoredRef)>)
        ensures
            match r {
                Some((a, sr)) => exists|i: int| 0 <= i < self.store().len() && self.store()[i].0 == *a && self.store()[i].1 == sr && a.id == id,
                None => !stored_ids(self.store()).contains(id),
            },
    {
        match self.position(id) {
            Some(i) => {
                assert(self.store()[i as int].0 == self.articles@[i as int].0);
                Some((&self.articles[i].0, self.articles[i].1))
            },
            None => None,
        }
    }

    /// No one signed in, no sidebar, no tweet.
    pub fn new() -> (r: Self)
        ensures
            r.wf(),
            r.auth_view() == AuthState::NotLoggedIn,
            r.sidebar_view() is None,
            r.store().len() == 0,
    {
        let r = TwitterAgent { auth_state: AuthState::NotLoggedIn, sidebar_handler: None, articles: Vec::new() };
        assert(stored_ids(r.articles@) =~= Seq::<u64>::empty());
        r
    }

    /// Takes who signed in (the user id's text, or none); tells the sidebar to
    /// redraw, if there is one. The text must read as a user id.
    pub fn auth(&mut self, auth: Option<&str>) -> (redraw: Option<u64>)
        requires
            auth matches Some(s) ==> parse_unsigned_spec(s@, u64::MAX as int) is Ok,
        ensures
            final(self).auth_view() == match auth {
                Some(s) => AuthState::LoggedIn(auth_user(s@)),
                None => AuthState::NotLoggedIn,
            },
            redraw == old(self).sidebar_view(),
            final(self).sidebar_view() == old(self).sidebar_view(),
            final(self).store() == old(self).store(),
    {
        self.auth_state = match auth {
            Some(s) => match parse_u64(s) {
                Ok(v) => AuthState::LoggedIn(v),
                Err(_) => AuthState::NotLoggedIn,
            },
            None => AuthState::NotLoggedIn,
        };
        self.sidebar_handler
    }

    /// Component `id` shows the sidebar, and is drawn it now.
    pub fn sidebar(&mut self, id: u64) -> (respond: u64)
        ensures
            final(self).sidebar_view() == Some(id),
            respond == id,
            final(self).auth_view() == old(self).auth_view(),
            final(self).store() == old(self).store(),
    {
        self.sidebar_handler = Some(id);
        id
    }

    /// Component `id` is gone.
    pub fn disconnected(&mut self, id: u64)
        ensures
            final(self).sidebar_view() == (if old(self).sidebar_view() == Some(id) { None } else { old(self).sidebar_view() }),
            final(self).auth_view() == old(self).auth_view(),
            final(self).store() == old(self).store(),
    {
        if self.sidebar_handler == Some(id) {
            self.sidebar_handler = None;
        }
    }

    /// A fetch was refused for want of a signed-in account: no one is signed
    /// in, and the user is asked to sign in.
    pub fn unauthorized(&mut self) -> (r: NotificationRequest)
        ensures
            final(self).auth_view() == AuthState::NotLoggedIn,
            final(self).sidebar_view() == old(self).sidebar_view(),
            final(self).store() == old(self).store(),
            r matches NotificationRequest::Notify(Some(k), Notification::Login(service, url))
                && k@ == "TwitterLogin"@ && service@ == "Twitter"@ && url@ == "/proxy/twitter/login"@,
    {
        self.auth_state = AuthState::NotLoggedIn;
        NotificationRequest::Notify(
            Some(String::from_str("TwitterLogin")),
            Notification::Login(String::from_str("Twitter"), String::from_str("/proxy/twitter/login")),
        )
    }

    /// Handles the answer of an endpoint's fetch of tweets and gives what is
    /// forwarded to the endpoint agent, with the notification to show: the
    /// fetched tweets are kept, and their ids forwarded in order with the rate
    /// limit; a fetch refused for want of a signed-in account signs out, asks
    /// the user to sign in, and forwards no tweet and no rate limit; another
    /// error is forwarded as it came.
    pub fn fetch_response(
        &mut self,
        r: Result<(Vec<TweetArticleData>, Option<RateLimit>), TweetFetchError>,
    ) -> (out: (Result<(Vec<u64>, Option<RateLimit>), Error>, Option<NotificationRequest>))
        requires
            old(self).wf(),
        ensures
            final(self).wf(),
            final(self).sidebar_view() == old(self).sidebar_view(),
            match r {
                Ok((arts, rl)) => {
                    &&& out.0 matches Ok((ids, l)) && ids@ == tweet_ids(arts@) && l == rl
                    &&& out.1 is None
                    &&& final(self).auth_view() == old(self).auth_view()
                    &&& forall|i: int| 0 <= i < arts@.len() ==> stored_ids(final(self).store()).contains(#[trigger] arts@[i].id)
                    &&& forall|x: u64| #[trigger] stored_tweet(final(self).store(), x) == held_after_all(old(self).store(), arts@, x)
                    &&& stored_ids(old(self).store()).to_set().subset_of(stored_ids(final(self).store()).to_set())
                },
                Err(TweetFetchError::Unauthorized) => {
                    &&& out.0 matches Ok((ids, l)) && ids@.len() == 0 && l is None
                    &&& out.1 matches Some(NotificationRequest::Notify(Some(k), Notification::Login(service, url)))
                        && k@ == "TwitterLogin"@ && service@ == "Twitter"@ && url@ == "/proxy/twitter/login"@
                    &&& final(self).auth_view() == AuthState::NotLoggedIn
                    &&& final(self).store() == old(self).store()
                },
                Err(TweetFetchError::Other(e)) => {
                    &&& out.0 == Err::<(Vec<u64>, Option<RateLimit>), Error>(e)
                    &&& out.1 is None
                    &&& final(self).auth_view() == old(self).auth_view()
                    &&& final(self).store() == old(self).store()
                },
            },
    {
        match r {
            Ok((arts, rl)) => {
                let ghost all = arts@;
                let ghost start = stored_ids(self.articles@).to_set();
                let ghost s0 = self.articles@;
                let ghost auth = self.auth_state;
                let ghost sidebar = self.sidebar_handler;
                let mut arts = arts;
                let mut ids: Vec<u64> = Vec::new();
                let n = arts.len();
                let mut k: usize = 0;
                while k < n
                    invariant
                        n == all.len(),
                        k <= n,
                        arts@ == all.skip(k as int),
                        ids@ == tweet_ids(all.take(k as int)),
                        self.wf(),
                        self.auth_state == auth,
                        self.sidebar_handler == sidebar,
                        start.subset_of(stored_ids(self.articles@).to_set()),
                        forall|j: int| 0 <= j < k ==> stored_ids(self.articles@).contains(#[trigger] all[j].id),
                        forall|x: u64| #[trigger] stored_tweet(self.articles@, x) == held_after_all(s0, all.take(k as int), x),
                    decreases n - k,
                {
                    proof {
                        assert(all.skip(k as int)[0] == all[k as int]);
                        assert(all.skip(k as int).remove(0) =~= all.skip(k + 1));
                        assert(tweet_ids(all.take(k + 1)) =~= tweet_ids(all.take(k as int)).push(all[k as int].id));
                    }
                    let a = arts.remove(0);
                    let id = a.id;
                    let ghost before = stored_ids(self.articles@).to_set();
                    let ghost prev = self.articles@;
                    let ghost ga = a;
                    let i = self.insert_or_update(a);
                    proof {
                        let t1 = all.take(k + 1);
                        assert(t1.drop_last() =~= all.take(k as int));
                        assert(t1.last() == ga);
                        assert forall|x: u64| #[trigger] stored_tweet(self.articles@, x) == held_after_all(s0, t1, x) by {
                            assert(stored_tweet(prev, x) == held_after_all(s0, all.take(k as int), x));
                        }
                        let after = stored_ids(self.articles@);
                        assert(after[i as int] == id);
                        assert forall|j: int| 0 <= j < k implies after.contains(#[trigger] all[j].id) by {
                            assert(before.contains(all[j].id));
                        }
                        assert forall|x: u64| start.contains(x) implies after.to_set().contains(x) by {
                            assert(before.contains(x));
                        }
                    }
                    ids.push(id);
                    k = k + 1;
                }
                proof { assert(all.take(n as int) =~= all); }
                (Ok((ids, rl)), None)
            },
            Err(TweetFetchError::Unauthorized) => {
                let note = self.unauthorized();
                (Ok((Vec::new(), None)), Some(note))
            },
            Err(TweetFetchError::Other(e)) => (Err(e), None),
        }
    }

    fn position(&self, id: u64) -> (r: Option<usize>)
        ensures
            match r {
                Some(i) => i < self.articles@.len() && self.articles@[i as int].0.id == id,
                None => !stored_ids(self.articles@).contains(id),
            },
    {
        let mut i: usize = 0;
        while i < self.articles.len()
            invariant
                i <= self.articles@.len(),
                forall|j: int| 0 <= j < i ==> (#[trigger] self.articles@[j]).0.id != id,
            decreases self.articles@.len() - i,
        {
            if self.articles[i].0.id == id {
                return Some(i);
            }
            i = i + 1;
        }
        proof {
            if stored_ids(self.articles@).contains(id) {
                let j = choose|j: int| 0 <= j < stored_ids(self.articles@).len() && stored_ids(self.articles@)[j] == id;
                assert(self.articles@[j].0.id == id);
            }
        }
        None
    }

    fn keep(&mut self, data: TweetArticleData, reference: Option<StoredRef>) -> (i: usize)
        requires
            old(self).wf(),
        ensures
            final(self).wf(),
            i < final(self).store().len(),
            final(self).store()[i as int].0.id == data.id,
            final(self).auth_view() == old(self).auth_view(),
            final(self).sidebar_view() == old(self).sidebar_view(),
            stored_ids(final(self).store()).to_set() == stored_ids(old(self).store()).to_set().insert(data.id),
            final(self).store()[i as int].1 == match reference {
                Some(r) => r,
                None => if stored_ids(old(self).store()).contains(data.id) { old(self).store()[i as int].1 } else { StoredRef::NoRef },
            },
            stored_ids(old(self).store()).contains(data.id) ==> {
                let before = old(self).store()[i as int].0;
                let after = final(self).store()[i as int].0;
                &&& after.like_count == data.like_count
                &&& after.retweet_count == data.retweet_count
                &&& after.liked == data.liked
                &&& after.retweeted == data.retweeted
                &&& after.text == before.text
                &&& after.marked_as_read == before.marked_as_read
                &&& after.hidden == before.hidden
            },
            !stored_ids(old(self).store()).contains(data.id) ==> final(self).store()[i as int].0 == data,
            stored_tweet(final(self).store(), data.id) == Some(kept_tweet(stored_tweet(old(self).store(), data.id), data)),
            forall|x: u64| x != data.id ==> #[trigger] stored_tweet(final(self).store(), x) == stored_tweet(old(self).store(), x),
    {
        match self.position(data.id) {
            Some(i) => {
                let ghost before = self.articles@;
                let (mut a, r0) = self.articles.remove(i);
                a.update(&data);
                let r = match reference {
                    Some(r) => r,
                    None => r0,
                };
                self.articles.insert(i, (a, r));
                proof {
                    let after = self.articles@;
                    assert(after =~= before.update(i as int, (a, r)));
                    assert(stored_ids(after) =~= stored_ids(before));
                    lemma_stored_at(before, i as int);
                    lemma_stored_at(after, i as int);
                    assert forall|x: u64| x != data.id implies #[trigger] stored_tweet(after, x) == stored_tweet(before, x) by {
                        lemma_same_elsewhere(before, after, x);
                    }
                    assert(stored_ids(before).contains(data.id)) by {
                        assert(stored_ids(before)[i as int] == data.id);
                    }
                    assert(stored_ids(before).to_set().insert(data.id) =~= stored_ids(before).to_set());
                }
                i
            },
            None => {
                let ghost before = self.articles@;
                let n = self.articles.len();
                let r = match reference {
                    Some(r) => r,
                    None => StoredRef::NoRef,
                };
                let ghost id = data.id;
                self.articles.push((data, r));
                proof {
                    let after = self.articles@;
                    assert(stored_ids(after) =~= stored_ids(before).push(id));
                    assert(after[n as int].0.id == id);
                    assert(stored_ids(after).no_duplicates());
                    lemma_stored_at(after, n as int);
                    lemma_absent(before, id);
                    assert forall|x: u64| x != id implies #[trigger] stored_tweet(after, x) == stored_tweet(before, x) by {
                        lemma_same_elsewhere(before, after, x);
                    }
                    assert(stored_ids(after).to_set() =~= stored_ids(before).to_set().insert(id)) by {
                        let sa = stored_ids(after);
                        let sb = stored_ids(before);
                        assert forall|x: u64| sa.to_set().contains(x) <==> sb.to_set().insert(id).contains(x) by {
                            if sa.contains(x) && x != id {
                                let j = choose|j: int| 0 <= j < sa.len() && sa[j] == x;
                                assert(sb[j] == x);
                            }
                            if sb.contains(x) {
                                let j = choose|j: int| 0 <= j < sb.len() && sb[j] == x;
                                assert(sa[j] == x);
                            }
                            if x == id {
                                assert(sa[n as int] == id);
                            }
                        }
                    }
                }
                n
            },
        }
    }

    /// Keeps a fetched tweet and the tweet it shows: a tweet already kept
    /// takes the new counts and marks, a new one is kept as it came; the kept
    /// tweet shows the other by its id. Gives the kept tweet's index.
    pub fn insert_or_update(&mut self, article: TweetArticleData) -> (i: usize)
        requires
            old(self).wf(),
        ensures
            final(self).wf(),
            i < final(self).store().len(),
            final(self).store()[i as int].0.id == article.id,
            match article.referenced {
                TweetRef::NoRef => !stored_ids(old(self).store()).contains(article.id)
                    ==> final(self).store()[i as int].1 == StoredRef::NoRef,
                TweetRef::Reposted(b) => final(self).store()[i as int].1 == StoredRef::Reposted(b.id),
                TweetRef::Quote(b) => final(self).store()[i as int].1 == StoredRef::Quote(b.id),
            },
            match article.referenced {
                TweetRef::NoRef => true,
                TweetRef::Reposted(b) => stored_ids(final(self).store()).contains(b.id),
                TweetRef::Quote(b) => stored_ids(final(self).store()).contains(b.id),
            },
            stored_ids(old(self).store()).to_set().subset_of(stored_ids(final(self).store()).to_set()),
            final(self).auth_view() == old(self).auth_view(),
            final(self).sidebar_view() == old(self).sidebar_view(),
            stored_tweet(final(self).store(), article.id)
                == Some(kept_tweet(held_after_shown(old(self).store(), shown_tweet(article), article.id), without_ref(article))),
            match shown_tweet(article) {
                Some(b) => b.id != article.id
                    ==> stored_tweet(final(self).store(), b.id) == Some(kept_tweet(stored_tweet(old(self).store(), b.id), b)),
                None => true,
            },
            forall|x: u64| x != article.id && !(shown_tweet(article) matches Some(b) && b.id == x)
                ==> #[trigger] stored_tweet(final(self).store(), x) == stored_tweet(old(self).store(), x),
    {
        let ghost start = stored_ids(self.articles@).to_set();
        let ghost store0 = self.articles@;
        let ghost orig = article;
        let mut article = article;
        let mut referenced = TweetRef::NoRef;
        std::mem::swap(&mut referenced, &mut article.referenced);
        let reference = match referenced {
            TweetRef::NoRef => None,
            TweetRef::Reposted(b) => {
                let rid = b.id;
                self.keep(*b, None);
                Some(StoredRef::Reposted(rid))
            },
            TweetRef::Quote(b) => {
                let rid = b.id;
                self.keep(*b, None);
                Some(StoredRef::Quote(rid))
            },
        };
        let ghost mid = stored_ids(self.articles@).to_set();
        let ghost store1 = self.articles@;
        proof {
            assert(article == without_ref(orig));
            assert forall|x: u64| #[trigger] stored_tweet(store1, x) == held_after_shown(store0, shown_tweet(orig), x) by {}
        }
        let i = self.keep(article, reference);
        proof {
            let s = stored_ids(self.articles@);
            assert(s.to_set() == mid.insert(article.id));
            match orig.referenced {
                TweetRef::Reposted(b) => {
                    assert(mid.contains(b.id));
                    assert(s.to_set().contains(b.id));
                },
                TweetRef::Quote(b) => {
                    assert(mid.contains(b.id));
                    assert(s.to_set().contains(b.id));
                },
                TweetRef::NoRef => {},
            }
        }
        i
    }
}

}
