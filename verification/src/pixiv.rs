use vstd::prelude::*;
use crate::decimal::{decimal_of, parse_u32, parse_unsigned_spec, u64_to_decimal};
use crate::article_actions::ServiceActions;
use crate::endpoints::{
    bool_param, bool_param_of, constructor_of, is_stored_as, number_param, number_param_of, stored_as, EndpointConstructorCollection,
    EndpointId, EndpointSerialized,
};
use crate::error::{Error, ErrorKind};
use crate::articles::MediaQueueInfo;
use crate::storages::ServiceStorage;
use crate::string_map::str_eq;
use crate::twitter::MediaType;

verus! {

/// What Pixiv's web API answers: whether it failed, its message, and the body.
pub struct APIPayload<T> {
    pub error: bool,
    pub message: String,
    pub body: T,
}

/// The sizes of a post's image.
pub struct FullPostAPIURLs {
    pub mini: String,
    pub thumb: String,
    pub small: String,
    pub regular: String,
    pub original: String,
}

/// A post as Pixiv's web API gives it in full.
pub struct FullPostAPI {
    pub id: String,
    pub title: String,
    pub urls: FullPostAPIURLs,
    pub user_account: String,
    pub user_name: String,
    pub user_id: String,
    pub like_count: u32,
    pub like_data: bool,
    pub bookmark_count: u32,
    pub bookmark_data: bool,
    pub create_date: String,
}

/// The answer of the latest posts of followed users.
pub struct FollowAPIResponse {
    pub thumbnails: FollowAPIThumbnails,
}

/// The posts of the latest posts of followed users.
pub struct FollowAPIThumbnails {
    pub illust: Vec<FollowAPIIllust>,
}

/// A post among the latest posts of followed users.
pub struct FollowAPIIllust {
    pub id: String,
    pub title: String,
    pub url: String,
    pub user_id: String,
    pub user_name: String,
    pub profile_image_url: String,
    pub bookmark_data: bool,
    pub create_date: String,
}

/// A media read back from the cache of fetched posts: its kind, its address
/// and how it loads (its proportions are not held).
pub struct CachedMedia {
    pub media_type: MediaType,
    pub src: String,
    pub queue_load_info: MediaQueueInfo,
}

impl CachedMedia {
    /// The same media.
    pub fn copy(&self) -> (r: CachedMedia)
        ensures
            r == *self,
    {
        CachedMedia { media_type: self.media_type, src: self.src.clone(), queue_load_info: self.queue_load_info }
    }
}

/// The image of a Pixiv article: the one cached for it, or an image at the
/// given address, loaded as a thumbnail.
pub enum PixivMedia {
    Cached(CachedMedia),
    Thumbnail(String),
}

/// The text of the JSON value `null`, which a post read off a page has for
/// its JSON.
pub open spec fn null_json() -> Seq<char> {
    "null"@
}

/// A Pixiv article as the timelines keep it (but its date and JSON).
pub struct PixivArticle {
    pub id: u32,
    pub title: String,
    pub media: PixivMedia,
    pub author_name: String,
    pub author_id: u32,
    pub author_avatar_url: String,
    pub marked_as_read: bool,
    pub hidden: bool,
    pub is_fully_fetched: bool,
    pub like_count: u32,
    pub liked: bool,
    pub bookmark_count: u32,
    pub bookmarked: bool,
    /// The post's JSON, as text.
    pub raw_json: String,
}

/// A kept article after a newer fetch `new` of it: the image, title, counts
/// and the reader's like and bookmark are the new ones, the JSON too unless
/// it is `null`; it stays fully fetched once it was; all else stays.
pub open spec fn updated_post(kept: PixivArticle, new: PixivArticle) -> PixivArticle {
    PixivArticle {
        media: new.media,
        title: new.title,
        is_fully_fetched: kept.is_fully_fetched || new.is_fully_fetched,
        like_count: new.like_count,
        liked: new.liked,
        bookmark_count: new.bookmark_count,
        bookmarked: new.bookmarked,
        raw_json: if new.raw_json@ == null_json() { kept.raw_json } else { new.raw_json },
        ..kept
    }
}

/// The number that `s` reads as, if it is a `u32`.
pub open spec fn u32_of(s: Seq<char>) -> Option<u32> {
    match parse_unsigned_spec(s, u32::MAX as int) {
        Ok(v) => Some(v as u32),
        Err(_) => None,
    }
}

/// Whether `s` reads as a `u32`.
pub open spec fn reads_as_u32(s: Seq<char>) -> bool {
    u32_of(s) is Some
}

fn read_u32(s: &str) -> (r: Option<u32>)
    ensures
        r == u32_of(s@),
{
    match parse_u32(s) {
        Ok(v) => Some(v),
        Err(_) => None,
    }
}

/// What `from_follow_illust` makes of post `data` with JSON text `raw_json`
/// and the cached image `cached_media`.
pub open spec fn follow_article(r: PixivArticle, raw_json: String, data: FollowAPIIllust, cached_media: Option<CachedMedia>, storage: ServiceStorage) -> bool {
    &&& r.id == u32_of(data.id@)->0
    &&& r.title@ == data.title@
    &&& r.media == match cached_media {
        Some(m) => PixivMedia::Cached(m),
        None => PixivMedia::Thumbnail(data.url),
    }
    &&& r.is_fully_fetched == cached_media is Some
    &&& r.raw_json == raw_json
    &&& r.author_name@ == data.user_name@
    &&& r.author_id == u32_of(data.user_id@)->0
    &&& r.author_avatar_url@ == data.profile_image_url@
    &&& r.marked_as_read == storage.session.articles_marked_as_read@.contains(data.id@)
    &&& r.hidden == storage.local.hidden_articles@.contains(data.id@)
    &&& r.like_count == 0
    &&& !r.liked
    &&& r.bookmark_count == 0
    &&& r.bookmarked == data.bookmark_data
}

impl PixivArticle {
    /// The article of a post given in full; its author's avatar is the cached
    /// one, if any, else none. The post's and author's ids are numbers.
    pub fn from_full_post(raw_json: String, data: &FullPostAPI, cached_avatar: Option<String>, storage: &ServiceStorage) -> (r: PixivArticle)
        requires
            reads_as_u32(data.id@),
            reads_as_u32(data.user_id@),
            storage.local.wf(),
            storage.session.wf(),
        ensures
            r.id == u32_of(data.id@)->0,
            r.title@ == data.title@,
            r.media matches PixivMedia::Thumbnail(src) && src@ == data.urls.original@,
            r.author_name@ == data.user_name@,
            r.author_id == u32_of(data.user_id@)->0,
            r.author_avatar_url@ == match cached_avatar { Some(a) => a@, None => Seq::<char>::empty() },
            r.marked_as_read == storage.session.articles_marked_as_read@.contains(data.id@),
            r.hidden == storage.local.hidden_articles@.contains(data.id@),
            r.is_fully_fetched,
            r.like_count == data.like_count,
            r.liked == data.like_data,
            r.bookmark_count == data.bookmark_count,
            r.bookmarked == data.bookmark_data,
            r.raw_json == raw_json,
    {
        let id = read_u32(data.id.as_str()).unwrap();
        let author_id = read_u32(data.user_id.as_str()).unwrap();
        PixivArticle {
            raw_json,
            id,
            title: data.title.clone(),
            media: PixivMedia::Thumbnail(data.urls.original.clone()),
            author_name: data.user_name.clone(),
            author_id,
            author_avatar_url: match cached_avatar {
                Some(a) => a,
                None => String::new(),
            },
            marked_as_read: storage.session.articles_marked_as_read.contains(data.id.as_str()),
            hidden: storage.local.hidden_articles.contains(data.id.as_str()),
            is_fully_fetched: true,
            like_count: data.like_count,
            liked: data.like_data,
            bookmark_count: data.bookmark_count,
            bookmarked: data.bookmark_data,
        }
    }

    /// The article of a post among the latest of followed users: its image is
    /// the cached one, and then it is fully fetched, else the post's thumbnail.
    pub fn from_follow_illust(raw_json: String, data: &FollowAPIIllust, cached_media: Option<CachedMedia>, storage: &ServiceStorage) -> (r: PixivArticle)
        requires
            reads_as_u32(data.id@),
            reads_as_u32(data.user_id@),
            storage.local.wf(),
            storage.session.wf(),
        ensures
            follow_article(r, raw_json, *data, cached_media, *storage),
    {
        let id = read_u32(data.id.as_str()).unwrap();
        let author_id = read_u32(data.user_id.as_str()).unwrap();
        let is_fully_fetched = cached_media.is_some();
        PixivArticle {
            id,
            title: data.title.clone(),
            media: match cached_media {
                Some(m) => PixivMedia::Cached(m),
                None => PixivMedia::Thumbnail(data.url.clone()),
            },
            author_name: data.user_name.clone(),
            author_id,
            author_avatar_url: data.profile_image_url.clone(),
            raw_json,
            marked_as_read: storage.session.articles_marked_as_read.contains(data.id.as_str()),
            hidden: storage.local.hidden_articles.contains(data.id.as_str()),
            is_fully_fetched,
            like_count: 0,
            liked: false,
            bookmark_count: 0,
            bookmarked: data.bookmark_data,
        }
    }

    /// The article of a post card of the follow page, from what the card
    /// holds: its first link's id, its second link's text (the title), its
    /// fourth link's id and text (the author's), its first image's address
    /// (the thumbnail) and its second's (the avatar); `None` where the card
    /// lacks one. The image cached for the post, if one was read back, is
    /// `cached_media`. A card that lacks what the article needs, or whose ids
    /// are not numbers, gives no article; its JSON is `null`.
    pub fn parse_article(
        id_attr: Option<String>,
        title: Option<String>,
        author_id_attr: Option<String>,
        author_name: Option<String>,
        thumbnail_src: Option<String>,
        avatar_src: Option<String>,
        cached_media: Option<CachedMedia>,
        storage: &ServiceStorage,
    ) -> (r: Option<PixivArticle>)
        requires
            storage.local.wf(),
            storage.session.wf(),
        ensures
            r is Some <==> {
                &&& id_attr matches Some(s) && reads_as_u32(s@)
                &&& title is Some
                &&& author_id_attr matches Some(s) && reads_as_u32(s@)
                &&& author_name is Some
                &&& avatar_src is Some
                &&& (cached_media is Some || thumbnail_src is Some)
            },
            r matches Some(a) ==> {
                &&& a.id == u32_of(id_attr->0@)->0
                &&& a.title@ == title->0@
                &&& a.author_id == u32_of(author_id_attr->0@)->0
                &&& a.author_name@ == author_name->0@
                &&& a.author_avatar_url@ == avatar_src->0@
                &&& a.media == match cached_media {
                    Some(m) => PixivMedia::Cached(m),
                    None => PixivMedia::Thumbnail(thumbnail_src->0),
                }
                &&& a.is_fully_fetched == cached_media is Some
                &&& a.raw_json@ == null_json()
                &&& a.marked_as_read == storage.session.articles_marked_as_read@.contains(decimal_of(a.id as nat))
                &&& a.hidden == storage.local.hidden_articles@.contains(decimal_of(a.id as nat))
                &&& a.like_count == 0 && !a.liked && a.bookmark_count == 0 && !a.bookmarked
            },
    {
        let id = match &id_attr {
            Some(s) => match read_u32(s.as_str()) {
                Some(v) => v,
                None => return None,
            },
            None => return None,
        };
        let title = match title {
            Some(t) => t,
            None => return None,
        };
        let author_id = match &author_id_attr {
            Some(s) => match read_u32(s.as_str()) {
                Some(v) => v,
                None => return None,
            },
            None => return None,
        };
        let author_name = match author_name {
            Some(n) => n,
            None => return None,
        };
        let author_avatar_url = match avatar_src {
            Some(a) => a,
            None => return None,
        };
        let is_fully_fetched = cached_media.is_some();
        let media = match cached_media {
            Some(m) => PixivMedia::Cached(m),
            None => match thumbnail_src {
                Some(src) => PixivMedia::Thumbnail(src),
                None => return None,
            },
        };
        let key = u64_to_decimal(id as u64);
        Some(PixivArticle {
            id,
            title,
            media,
            author_name,
            author_id,
            author_avatar_url,
            marked_as_read: storage.session.articles_marked_as_read.contains(key.as_str()),
            hidden: storage.local.hidden_articles.contains(key.as_str()),
            is_fully_fetched,
            raw_json: String::from_str("null"),
            like_count: 0,
            liked: false,
            bookmark_count: 0,
            bookmarked: false,
        })
    }

    /// Takes what a newer fetch of the same article brought: its image, title
    /// and counts, and its JSON unless that is `null`; the article stays fully
    /// fetched once it was.
    pub fn update(&mut self, new: &PixivArticle)
        ensures
            *final(self) == updated_post(*old(self), *new),
            final(self).media == new.media,
            final(self).title == new.title,
            final(self).is_fully_fetched == (old(self).is_fully_fetched || new.is_fully_fetched),
            final(self).like_count == new.like_count,
            final(self).liked == new.liked,
            final(self).bookmark_count == new.bookmark_count,
            final(self).bookmarked == new.bookmarked,
            final(self).id == old(self).id,
            final(self).author_name == old(self).author_name,
            final(self).author_id == old(self).author_id,
            final(self).author_avatar_url == old(self).author_avatar_url,
            final(self).marked_as_read == old(self).marked_as_read,
            final(self).hidden == old(self).hidden,
            final(self).raw_json == (if new.raw_json@ == null_json() { old(self).raw_json } else { new.raw_json }),
    {
        self.media = match &new.media {
            PixivMedia::Cached(m) => PixivMedia::Cached(m.copy()),
            PixivMedia::Thumbnail(s) => PixivMedia::Thumbnail(s.clone()),
        };
        if !str_eq(new.raw_json.as_str(), "null") {
            self.raw_json = new.raw_json.clone();
        }
        proof { reveal_strlit("null"); }
        self.title = new.title.clone();
        self.is_fully_fetched = self.is_fully_fetched || new.is_fully_fetched;
        self.like_count = new.like_count;
        self.liked = new.liked;
        self.bookmark_count = new.bookmark_count;
        self.bookmarked = new.bookmarked;
    }
}

/// The cached JSON of the post whose card gives the id text `id_text`, as it
/// stands on the card: what the session storage caches under that text, if
/// anything. Its media, once read back, is what `parse_article` takes as the
/// cached image.
pub fn cached_post<'a>(storage: &'a ServiceStorage, id_text: &str) -> (r: Option<&'a serde_json::Value>)
    requires
        storage.session.wf(),
    ensures
        match r {
            Some(v) => storage.session.cached_articles@.contains_key(id_text@) && *v == storage.session.cached_articles@[id_text@],
            None => !storage.session.cached_articles@.contains_key(id_text@),
        },
{
    storage.session.cached_articles.get(id_text)
}

/// The address of a page of the latest posts of followed users: pages after
/// the first are numbered from 2, and adult posts ask their own mode.
pub open spec fn follow_api_url(page: u16, r18: bool) -> Seq<char> {
    let query = if page > 0 {
        if r18 { "p="@ + decimal_of((page + 1) as nat) + "&mode=r18"@ } else { "p="@ + decimal_of((page + 1) as nat) }
    } else {
        if r18 { "mode=r18"@ } else { Seq::empty() }
    };
    "https://www.pixiv.net/ajax/follow_latest/illust?"@ + query
}

/// The address that an endpoint of the latest posts of followed users fetches.
pub fn follow_api_url_of(page: u16, r18: bool) -> (r: String)
    requires
        page < u16::MAX,
    ensures
        r@ == follow_api_url(page, r18),
{
    let mut r = String::from_str("https://www.pixiv.net/ajax/follow_latest/illust?");
    if page > 0 {
        r.append("p=");
        let n = u64_to_decimal((page + 1) as u64);
        r.append(n.as_str());
        if r18 {
            r.append("&mode=r18");
        }
    } else if r18 {
        r.append("mode=r18");
    }
    proof {
        reveal_strlit("https://www.pixiv.net/ajax/follow_latest/illust?");
        reveal_strlit("p=");
        reveal_strlit("&mode=r18");
        reveal_strlit("mode=r18");
        assert(r@ =~= follow_api_url(page, r18));
    }
    r
}


/// The posts read off the follow page that is open in the browser.
pub struct FollowPageEndpoint {
    pub id: EndpointId,
}

impl FollowPageEndpoint {
    pub fn new(id: EndpointId) -> (r: Self)
        ensures
            r.id == id,
    {
        FollowPageEndpoint { id }
    }

    pub fn name(&self) -> (r: String)
        ensures
            r@ == "Follow Page Endpoint"@,
    {
        String::from_str("Follow Page Endpoint")
    }

    /// Whether `storage` is Pixiv's follow page.
    pub fn eq_storage(&self, storage: &EndpointSerialized) -> (r: bool)
        ensures
            r == stored_as(*storage, "Pixiv"@, 0),
    {
        is_stored_as(storage, "Pixiv", 0)
    }
}

/// The latest posts of followed users, a page at a time from the web API.
pub struct FollowAPIEndpoint {
    pub id: EndpointId,
    pub r18: bool,
    pub page: u16,
}

impl FollowAPIEndpoint {
    pub fn new(id: EndpointId, r18: bool, current_page: u16) -> (r: Self)
        ensures
            r.id == id,
            r.r18 == r18,
            r.page == current_page,
    {
        FollowAPIEndpoint { id, r18, page: current_page }
    }

    pub fn name(&self) -> (r: String)
        ensures
            r@ == "Follow API Endpoint"@,
    {
        String::from_str("Follow API Endpoint")
    }

    /// The address of the endpoint's current page.
    pub fn refresh_url(&self) -> (r: String)
        requires
            self.page < u16::MAX,
        ensures
            r@ == follow_api_url(self.page, self.r18),
    {
        follow_api_url_of(self.page, self.r18)
    }

    /// Turns to the next page and gives its address.
    pub fn load_bottom(&mut self) -> (r: String)
        requires
            old(self).page < u16::MAX - 1,
        ensures
            final(self).page == old(self).page + 1,
            final(self).id == old(self).id,
            final(self).r18 == old(self).r18,
            r@ == follow_api_url(final(self).page, final(self).r18),
    {
        self.page = self.page + 1;
        self.refresh_url()
    }

    /// Whether `storage` is Pixiv's latest posts of followed users.
    pub fn eq_storage(&self, storage: &EndpointSerialized) -> (r: bool)
        ensures
            r == stored_as(*storage, "Pixiv"@, 1),
    {
        is_stored_as(storage, "Pixiv", 1)
    }
}

/// Pixiv's kind of endpoint, the latest posts of followed users, with its
/// parameters; none lists a user's posts.
pub fn endpoint_constructors() -> (r: EndpointConstructorCollection)
    ensures
        r.user_endpoint_index is None,
        r.constructors@.len() == 1,
        r.constructors@[0].name@ == "Follow API"@ && r.constructors@[0].param_template@.len() == 2
            && bool_param(r.constructors@[0].param_template@[0], "r18"@, false)
            && number_param(r.constructors@[0].param_template@[1], "current_page"@, 0),
{
    let constructors = vec![constructor_of("Follow API", vec![bool_param_of("r18", false), number_param_of("current_page", 0)])];
    EndpointConstructorCollection { constructors, user_endpoint_index: None }
}

/// The actions Pixiv handles itself: fetching a post in full.
pub fn service_actions() -> (r: ServiceActions)
    ensures
        r == (ServiceActions { like: false, repost: false, fetch_data: true }),
{
    ServiceActions { like: false, repost: false, fetch_data: true }
}

/// The address of a post's full data.
pub open spec fn post_url(id: u32) -> Seq<char> {
    "https://www.pixiv.net/ajax/illust/"@ + decimal_of(id as nat)
}

/// The address of a post's full data.
pub fn post_url_of(id: u32) -> (r: String)
    ensures
        r@ == post_url(id),
{
    let mut r = String::from_str("https://www.pixiv.net/ajax/illust/");
    let n = u64_to_decimal(id as u64);
    r.append(n.as_str());
    r
}

/// What an answer of Pixiv's web API gives: its body, or its message when it
/// reports an error.
pub fn payload_body<T>(p: APIPayload<T>) -> (r: Result<T, Error>)
    ensures
        p.error ==> (r matches Err(Error::Generic(ErrorKind::Text(m))) && m@ == p.message@),
        !p.error ==> r == Ok::<T, Error>(p.body),
{
    if p.error {
        Err(Error::Generic(ErrorKind::Text(p.message)))
    } else {
        Ok(p.body)
    }
}

/// The articles of a page of the latest posts of followed users, in order:
/// each post with its JSON text (`raws`, at the same place) and the image
/// cached for it, if any (`cached`); the message of an answer that reports an
/// error. Each post's and author's ids are numbers.
pub fn follow_page_articles(
    payload: APIPayload<FollowAPIResponse>,
    raws: &Vec<String>,
    cached: &Vec<Option<CachedMedia>>,
    storage: &ServiceStorage,
) -> (r: Result<Vec<PixivArticle>, Error>)
    requires
        !payload.error ==> {
            let ill = payload.body.thumbnails.illust@;
            &&& raws@.len() == ill.len()
            &&& cached@.len() == ill.len()
            &&& forall|i: int| 0 <= i < ill.len() ==> reads_as_u32((#[trigger] ill[i]).id@) && reads_as_u32(ill[i].user_id@)
        },
        storage.local.wf(),
        storage.session.wf(),
    ensures
        payload.error ==> (r matches Err(Error::Generic(ErrorKind::Text(m))) && m@ == payload.message@),
        !payload.error ==> (r matches Ok(v) && {
            let ill = payload.body.thumbnails.illust@;
            &&& v@.len() == ill.len()
            &&& forall|i: int| 0 <= i < ill.len() ==> follow_article(#[trigger] v@[i], raws@[i], ill[i], cached@[i], *storage)
        }),
{
    let error = payload.error;
    match payload_body(payload) {
        Err(e) => Err(e),
        Ok(body) => {
            let ill = &body.thumbnails.illust;
            let mut v: Vec<PixivArticle> = Vec::new();
            let mut i: usize = 0;
            while i < ill.len()
                invariant
                    !error,
                    i <= ill@.len(),
                    raws@.len() == ill@.len(),
                    cached@.len() == ill@.len(),
                    forall|j: int| 0 <= j < ill@.len() ==> reads_as_u32((#[trigger] ill@[j]).id@) && reads_as_u32(ill@[j].user_id@),
                    storage.local.wf(),
                    storage.session.wf(),
                    v@.len() == i,
                    forall|j: int| 0 <= j < i ==> follow_article(#[trigger] v@[j], raws@[j], ill@[j], cached@[j], *storage),
                decreases ill@.len() - i,
            {
                let c = match &cached[i] {
                    Some(m) => Some(m.copy()),
                    None => None,
                };
                let a = PixivArticle::from_follow_illust(raws[i].clone(), &ill[i], c, storage);
                v.push(a);
                i = i + 1;
            }
            Ok(v)
        },
    }
}

/// How many posts may be fetched in full at once.
pub const MAX_FETCHING: usize = 5;

/// What the Pixiv agent does after its articles changed: fetch some posts in
/// full, cache its articles, or nothing.
pub enum UnfetchedCheck {
    Fetch(Vec<u32>),
    Cache,
    Nothing,
}

/// The Pixiv agent: its articles (each id once) and the posts being fetched
/// in full.
pub struct PixivAgent {
    articles: Vec<PixivArticle>,
    fetching: Vec<u32>,
}

/// The ids of `s`'s articles that are not fully fetched and not being fetched,
/// in order.
pub open spec fn unfetched(s: Seq<PixivArticle>, fetching: Set<u32>) -> Seq<u32>
    decreases s.len(),
{
    if s.len() == 0 {
        Seq::empty()
    } else {
        let rest = unfetched(s.drop_last(), fetching);
        let a = s.last();
        if !a.is_fully_fetched && !fetching.contains(a.id) { rest.push(a.id) } else { rest }
    }
}

/// Each id once.
pub open spec fn distinct_ids(s: Seq<PixivArticle>) -> bool {
    forall|i: int, j: int| 0 <= i < j < s.len() ==> (#[trigger] s[i]).id != (#[trigger] s[j]).id
}

proof fn lemma_unfetched_distinct(s: Seq<PixivArticle>, fetching: Set<u32>)
    requires
        distinct_ids(s),
    ensures
        unfetched(s, fetching).no_duplicates(),
        forall|k: int| 0 <= k < unfetched(s, fetching).len() ==> !fetching.contains(#[trigger] unfetched(s, fetching)[k])
            && exists|i: int| 0 <= i < s.len() && s[i].id == unfetched(s, fetching)[k],
        forall|i: int| 0 <= i < s.len() && !(#[trigger] s[i]).is_fully_fetched && !fetching.contains(s[i].id)
            ==> unfetched(s, fetching).contains(s[i].id),
    decreases s.len(),
{
    if s.len() > 0 {
        let d = s.drop_last();
        assert forall|i: int, j: int| 0 <= i < j < d.len() implies (#[trigger] d[i]).id != (#[trigger] d[j]).id by {
            assert(d[i] == s[i] && d[j] == s[j]);
        }
        lemma_unfetched_distinct(d, fetching);
        let rest = unfetched(d, fetching);
        let a = s.last();
        assert forall|k: int| 0 <= k < rest.len() implies (#[trigger] rest[k]) != a.id by {
            let i = choose|i: int| 0 <= i < d.len() && d[i].id == rest[k];
            assert(d[i] == s[i]);
            assert(s[i].id != s[s.len() - 1].id);
        }
        let u = unfetched(s, fetching);
        assert forall|k: int| 0 <= k < u.len() implies !fetching.contains(#[trigger] u[k])
            && exists|i: int| 0 <= i < s.len() && s[i].id == u[k] by {
            if k < rest.len() {
                assert(u[k] == rest[k]);
                let i = choose|i: int| 0 <= i < d.len() && d[i].id == rest[k];
                assert(s[i] == d[i]);
            } else {
                assert(s[s.len() - 1].id == u[k]);
            }
        }
        assert forall|i: int| 0 <= i < s.len() && !(#[trigger] s[i]).is_fully_fetched && !fetching.contains(s[i].id)
            implies u.contains(s[i].id) by {
            if i < d.len() {
                assert(d[i] == s[i]);
                assert(rest.contains(s[i].id));
                let k = choose|k: int| 0 <= k < rest.len() && rest[k] == s[i].id;
                assert(u[k] == rest[k]);
            } else {
                assert(u[u.len() - 1] == a.id);
            }
        }
    }
}

impl PixivAgent {
    /// The articles, in the order they came.
    pub closed spec fn articles_view(&self) -> Seq<PixivArticle> {
        self.articles@
    }

    /// The posts being fetched in full.
    pub closed spec fn fetching_view(&self) -> Set<u32> {
        self.fetching@.to_set()
    }

    pub closed spec fn wf(&self) -> bool {
        &&& distinct_ids(self.articles@)
        &&& self.fetching@.no_duplicates()
    }

    /// An agent with no article, fetching nothing.
    pub fn new() -> (r: Self)
        ensures
            r.wf(),
            r.articles_view().len() == 0,
            r.fetching_view() == Set::<u32>::empty(),
    {
        let r = PixivAgent { articles: Vec::new(), fetching: Vec::new() };
        assert(r.fetching_view() =~= Set::<u32>::empty());
        r
    }

    /// Keeps `article`: an article of its id takes what it brought, else it
    /// joins the others. Gives the index it has.
    pub fn insert_or_update(&mut self, article: PixivArticle) -> (i: usize)
        requires
            old(self).wf(),
        ensures
            final(self).wf(),
            i < final(self).articles_view().len(),
            final(self).articles_view()[i as int].id == article.id,
            final(self).fetching_view() == old(self).fetching_view(),
            (exists|j: int| 0 <= j < old(self).articles_view().len() && (#[trigger] old(self).articles_view()[j]).id == article.id) ==> {
                &&& final(self).articles_view().len() == old(self).articles_view().len()
                &&& forall|j: int| 0 <= j < old(self).articles_view().len() && j != i ==> final(self).articles_view()[j] == old(self).articles_view()[j]
                &&& old(self).articles_view()[i as int].id == article.id
                &&& final(self).articles_view()[i as int] == updated_post(old(self).articles_view()[i as int], article)
            },
            !(exists|j: int| 0 <= j < old(self).articles_view().len() && (#[trigger] old(self).articles_view()[j]).id == article.id)
                ==> final(self).articles_view() == old(self).articles_view().push(article),
    {
        let mut i: usize = 0;
        while i < self.articles.len()
            invariant
                i <= self.articles@.len(),
                *self == *old(self),
                self.wf(),
                forall|j: int| 0 <= j < i ==> (#[trigger] self.articles@[j]).id != article.id,
            decreases self.articles@.len() - i,
        {
            if self.articles[i].id == article.id {
                let mut a = self.articles.remove(i);
                a.update(&article);
                self.articles.insert(i, a);
                proof {
                    let s = self.articles@;
                    let o = old(self).articles@;
                    assert forall|j: int| 0 <= j < o.len() && j != i implies s[j] == o[j] by {}
                    assert forall|x: int, y: int| 0 <= x < y < s.len() implies (#[trigger] s[x]).id != (#[trigger] s[y]).id by {
                        assert(o[x].id != o[y].id);
                    }
                }
                return i;
            }
            i = i + 1;
        }
        let n = self.articles.len();
        let ghost id = article.id;
        self.articles.push(article);
        proof {
            let s = self.articles@;
            let o = old(self).articles@;
            assert forall|x: int, y: int| 0 <= x < y < s.len() implies (#[trigger] s[x]).id != (#[trigger] s[y]).id by {
                if y < o.len() {
                    assert(o[x].id != o[y].id);
                }
            }
        }
        n
    }

    fn is_fetching(&self, id: u32) -> (r: bool)
        ensures
            r == self.fetching_view().contains(id),
    {
        let mut i: usize = 0;
        while i < self.fetching.len()
            invariant
                i <= self.fetching@.len(),
                forall|j: int| 0 <= j < i ==> self.fetching@[j] != id,
            decreases self.fetching@.len() - i,
        {
            if self.fetching[i] == id {
                assert(self.fetching@[i as int] == id);
                return true;
            }
            i = i + 1;
        }
        proof {
            if self.fetching@.contains(id) {
                let j = choose|j: int| 0 <= j < self.fetching@.len() && self.fetching@[j] == id;
            }
        }
        false
    }

    /// Post `id` is being fetched in full.
    pub fn start_fetching(&mut self, id: u32)
        requires
            old(self).wf(),
        ensures
            final(self).wf(),
            final(self).fetching_view() == old(self).fetching_view().insert(id),
            final(self).articles_view() == old(self).articles_view(),
    {
        if !self.is_fetching(id) {
            let ghost before = self.fetching@;
            self.fetching.push(id);
            proof {
                assert(self.fetching@.to_set() =~= before.to_set().insert(id)) by {
                    assert forall|x: u32| self.fetching@.to_set().contains(x) <==> before.to_set().insert(id).contains(x) by {
                        if self.fetching@.contains(x) && x != id {
                            let j = choose|j: int| 0 <= j < self.fetching@.len() && self.fetching@[j] == x;
                            assert(before[j] == x);
                        }
                        if before.contains(x) {
                            let j = choose|j: int| 0 <= j < before.len() && before[j] == x;
                            assert(self.fetching@[j] == x);
                        }
                        if x == id {
                            assert(self.fetching@[before.len() as int] == id);
                        }
                    }
                }
                assert forall|a: int, b: int| 0 <= a < b < self.fetching@.len() implies self.fetching@[a] != self.fetching@[b] by {
                    if b == before.len() {
                        assert(before[a] == self.fetching@[a]);
                        assert(before.contains(before[a]));
                    }
                }
            }
        } else {
            proof { assert(old(self).fetching_view().insert(id) =~= old(self).fetching_view()); }
        }
    }

    /// Post `id` is no longer being fetched.
    pub fn stop_fetching(&mut self, id: u32)
        requires
            old(self).wf(),
        ensures
            final(self).wf(),
            final(self).fetching_view() == old(self).fetching_view().remove(id),
            final(self).articles_view() == old(self).articles_view(),
    {
        let ghost before = self.fetching@;
        let mut kept: Vec<u32> = Vec::new();
        let mut i: usize = 0;
        while i < self.fetching.len()
            invariant
                i <= before.len(),
                self.fetching@ == before,
                before.no_duplicates(),
                kept@.no_duplicates(),
                forall|j: int| 0 <= j < kept@.len() ==> #[trigger] kept@[j] != id,
                forall|j: int| 0 <= j < kept@.len() ==> exists|k: int| 0 <= k < i && before[k] == #[trigger] kept@[j],
                forall|k: int| 0 <= k < i && before[k] != id ==> kept@.contains(#[trigger] before[k]),
            decreases before.len() - i,
        {
            let x = self.fetching[i];
            if x != id {
                proof {
                    assert forall|j: int| 0 <= j < kept@.len() implies #[trigger] kept@[j] != x by {
                        let k = choose|k: int| 0 <= k < i && before[k] == kept@[j];
                        assert(before[k] != before[i as int]);
                    }
                }
                let ghost k0 = kept@;
                kept.push(x);
                proof {
                    assert forall|j: int| 0 <= j < kept@.len() implies exists|k: int| 0 <= k < i + 1 && before[k] == #[trigger] kept@[j] by {
                        if j < k0.len() {
                            assert(kept@[j] == k0[j]);
                            let k = choose|k: int| 0 <= k < i && before[k] == k0[j];
                        } else {
                            assert(before[i as int] == kept@[j]);
                        }
                    }
                    assert forall|k: int| 0 <= k < i + 1 && before[k] != id implies kept@.contains(#[trigger] before[k]) by {
                        if k < i {
                            assert(k0.contains(before[k]));
                            let j = choose|j: int| 0 <= j < k0.len() && k0[j] == before[k];
                            assert(kept@[j] == k0[j]);
                        } else {
                            assert(kept@[k0.len() as int] == before[k]);
                        }
                    }
                }
            }
            i = i + 1;
        }
        self.fetching = kept;
        proof {
            assert(self.fetching@.to_set() =~= before.to_set().remove(id)) by {
                assert forall|x: u32| self.fetching@.to_set().contains(x) <==> before.to_set().remove(id).contains(x) by {
                    if self.fetching@.contains(x) {
                        let j = choose|j: int| 0 <= j < self.fetching@.len() && self.fetching@[j] == x;
                        let k = choose|k: int| 0 <= k < before.len() && before[k] == self.fetching@[j];
                    }
                    if before.contains(x) && x != id {
                        let k = choose|k: int| 0 <= k < before.len() && before[k] == x;
                    }
                }
            }
        }
    }

    fn count_fetching(&self) -> (n: usize)
        requires
            self.wf(),
        ensures
            n == self.fetching_view().len(),
    {
        proof { self.fetching@.unique_seq_to_set(); }
        self.fetching.len()
    }

    /// After the articles changed: while fewer than five posts are being
    /// fetched, fetches the first five (at most) of those not fully fetched
    /// nor being fetched; with none such and none being fetched, the articles
    /// are to be cached.
    pub fn check_unfetched_articles(&mut self) -> (r: UnfetchedCheck)
        requires
            old(self).wf(),
        ensures
            final(self).wf(),
            final(self).articles_view() == old(self).articles_view(),
            ({
                let u = unfetched(old(self).articles_view(), old(self).fetching_view());
                if u.len() > 0 {
                    if old(self).fetching_view().len() < 5 {
                        let n = if u.len() < 5 { u.len() } else { 5 };
                        &&& r matches UnfetchedCheck::Fetch(ids) && ids@ == u.take(n as int)
                        &&& final(self).fetching_view() == old(self).fetching_view() + u.take(n as int).to_set()
                    } else {
                        r is Nothing && final(self).fetching_view() == old(self).fetching_view()
                    }
                } else if old(self).fetching_view().len() == 0 {
                    r is Cache && final(self).fetching_view() == old(self).fetching_view()
                } else {
                    r is Nothing && final(self).fetching_view() == old(self).fetching_view()
                }
            }),
    {
        let ghost f0 = self.fetching_view();
        let ghost s0 = self.articles@;
        let mut u: Vec<u32> = Vec::new();
        let mut i: usize = 0;
        while i < self.articles.len()
            invariant
                i <= self.articles@.len(),
                *self == *old(self),
                f0 == self.fetching_view(),
                s0 == self.articles@,
                u@ == unfetched(s0.take(i as int), f0),
            decreases self.articles@.len() - i,
        {
            proof { assert(s0.take(i + 1).drop_last() =~= s0.take(i as int)); }
            let a = &self.articles[i];
            if !a.is_fully_fetched && !self.is_fetching(a.id) {
                u.push(a.id);
            }
            i = i + 1;
        }
        proof { assert(s0.take(i as int) =~= s0); }
        let fetching = self.count_fetching();
        if u.len() > 0 {
            if fetching < 5 {
                let n: usize = if u.len() < 5 { u.len() } else { 5 };
                let mut ids: Vec<u32> = Vec::new();
                let mut k: usize = 0;
                while k < n
                    invariant
                        k <= n <= u@.len(),
                        ids@ == u@.take(k as int),
                        self.wf(),
                        self.articles@ == s0,
                        self.fetching_view() == f0 + u@.take(k as int).to_set(),
                    decreases n - k,
                {
                    let id = u[k];
                    self.start_fetching(id);
                    ids.push(id);
                    proof {
                        assert(ids@ =~= u@.take(k + 1));
                        assert(u@.take(k + 1).to_set() =~= u@.take(k as int).to_set().insert(id)) by {
                            let p = u@.take(k as int);
                            let q = u@.take(k + 1);
                            assert forall|x: u32| q.to_set().contains(x) <==> p.to_set().insert(id).contains(x) by {
                                if q.contains(x) && x != id {
                                    let j = choose|j: int| 0 <= j < q.len() && q[j] == x;
                                    assert(p[j] == x);
                                }
                                if p.contains(x) {
                                    let j = choose|j: int| 0 <= j < p.len() && p[j] == x;
                                    assert(q[j] == x);
                                }
                                if x == id {
                                    assert(q[k as int] == id);
                                }
                            }
                        }
                        assert(f0 + u@.take(k + 1).to_set() =~= (f0 + u@.take(k as int).to_set()).insert(id));
                    }
                    k = k + 1;
                }
                UnfetchedCheck::Fetch(ids)
            } else {
                UnfetchedCheck::Nothing
            }
        } else if fetching == 0 {
            UnfetchedCheck::Cache
        } else {
            UnfetchedCheck::Nothing
        }
    }
}

/// The posts that a check starts fetching are not fully fetched, were not
/// being fetched, and differ from one another.
pub proof fn fetched_posts_are_new(s: Seq<PixivArticle>, fetching: Set<u32>, n: int)
    requires
        distinct_ids(s),
        0 <= n <= unfetched(s, fetching).len(),
    ensures
        unfetched(s, fetching).take(n).no_duplicates(),
        forall|k: int| 0 <= k < n ==> !fetching.contains(#[trigger] unfetched(s, fetching).take(n)[k]),
{
    lemma_unfetched_distinct(s, fetching);
    let u = unfetched(s, fetching);
    assert forall|k: int| 0 <= k < n implies !fetching.contains(#[trigger] u.take(n)[k]) by {
        assert(u.take(n)[k] == u[k]);
    }
    assert forall|a: int, b: int| 0 <= a < b < n implies u.take(n)[a] != u.take(n)[b] by {
        assert(u.take(n)[a] == u[a] && u.take(n)[b] == u[b]);
    }
}

}
