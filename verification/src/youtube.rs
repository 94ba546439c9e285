use vstd::prelude::*;
use crate::article_actions::ServiceActions;
use crate::endpoints::{
    constructor_of, is_stored_as, stored_as, text_of, text_param, text_param_of, text_param_value, EndpointConstructorCollection,
    EndpointId, EndpointSerialized, Params,
};
use crate::storages::ServiceStorage;
use crate::string_map::StrMap;

verus! {

/// A YouTube channel.
pub struct YouTubeChannel {
    pub id: String,
    pub title: String,
    pub avatar_url: String,
}

/// A video's thumbnail at one size.
pub struct Thumbnail {
    pub height: u16,
    pub url: String,
    pub width: u16,
}

/// A video's thumbnails, by size.
pub struct Thumbnails {
    pub default: Option<Thumbnail>,
    pub high: Option<Thumbnail>,
    pub maxres: Option<Thumbnail>,
    pub medium: Option<Thumbnail>,
    pub standard: Option<Thumbnail>,
}

/// What a playlist item names: its video.
pub struct PlaylistItemResourceId {
    pub video_id: String,
}

/// What a playlist item tells of its video.
pub struct PlaylistItemSnippet {
    pub channel_id: String,
    pub channel_title: String,
    pub published_at: String,
    pub resource_id: PlaylistItemResourceId,
    pub thumbnails: Thumbnails,
    pub title: String,
}

/// An item of a YouTube playlist.
pub struct PlaylistItem {
    pub snippet: PlaylistItemSnippet,
}

/// A video as the timelines keep it (but its date and JSON): its id, title,
/// thumbnail (its address, width and height, if it has one) and channel.
pub struct YouTubeArticle {
    pub id: String,
    pub published_at: String,
    pub title: String,
    pub thumbnail: Option<Thumbnail>,
    pub channel: YouTubeChannel,
    pub marked_as_read: bool,
    pub hidden: bool,
    /// The playlist item's JSON, as text.
    pub raw_json: String,
}

/// The thumbnail a video shows: the standard one, else the largest, else the
/// high, medium, and default ones, in that order.
pub open spec fn chosen_thumbnail(t: Thumbnails) -> Option<Thumbnail> {
    if t.standard is Some {
        t.standard
    } else if t.maxres is Some {
        t.maxres
    } else if t.high is Some {
        t.high
    } else if t.medium is Some {
        t.medium
    } else {
        t.default
    }
}

impl YouTubeArticle {
    /// The video of a playlist item, with the item's JSON text `raw_json`; it
    /// is marked as read or hidden as the service's storage says of its id.
    pub fn from_playlist_item(item: PlaylistItem, raw_json: String, storage: &ServiceStorage) -> (r: YouTubeArticle)
        requires
            storage.local.wf(),
            storage.session.wf(),
        ensures
            r.id == item.snippet.resource_id.video_id,
            r.published_at == item.snippet.published_at,
            r.title == item.snippet.title,
            r.thumbnail == chosen_thumbnail(item.snippet.thumbnails),
            r.channel.id == item.snippet.channel_id,
            r.channel.title == item.snippet.channel_title,
            r.channel.avatar_url@ == Seq::<char>::empty(),
            r.marked_as_read == storage.session.articles_marked_as_read@.contains(item.snippet.resource_id.video_id@),
            r.hidden == storage.local.hidden_articles@.contains(item.snippet.resource_id.video_id@),
            r.raw_json == raw_json,
    {
        let s = item.snippet;
        let t = s.thumbnails;
        let thumbnail = if t.standard.is_some() {
            t.standard
        } else if t.maxres.is_some() {
            t.maxres
        } else if t.high.is_some() {
            t.high
        } else if t.medium.is_some() {
            t.medium
        } else {
            t.default
        };
        let id = s.resource_id.video_id;
        let marked_as_read = storage.session.articles_marked_as_read.contains(id.as_str());
        let hidden = storage.local.hidden_articles.contains(id.as_str());
        YouTubeArticle {
            id,
            published_at: s.published_at,
            title: s.title,
            thumbnail,
            channel: YouTubeChannel { id: s.channel_id, title: s.channel_title, avatar_url: String::new() },
            marked_as_read,
            hidden,
            raw_json,
        }
    }

    /// Takes what a newer fetch of the same video brought: its id, date,
    /// title and channel.
    pub fn update(&mut self, new: &YouTubeArticle)
        ensures
            final(self).id == new.id,
            final(self).published_at == new.published_at,
            final(self).title == new.title,
            final(self).channel == new.channel,
            final(self).thumbnail == old(self).thumbnail,
            final(self).marked_as_read == old(self).marked_as_read,
            final(self).hidden == old(self).hidden,
            final(self).raw_json == old(self).raw_json,
    {
        self.id = new.id.clone();
        self.published_at = new.published_at.clone();
        self.title = new.title.clone();
        self.channel = YouTubeChannel {
            id: new.channel.id.clone(),
            title: new.channel.title.clone(),
            avatar_url: new.channel.avatar_url.clone(),
        };
    }
}


/// YouTube's kind of endpoint, a playlist, with its parameter; none lists a
/// user's videos.
pub fn endpoint_constructors() -> (r: EndpointConstructorCollection)
    ensures
        r.user_endpoint_index is None,
        r.constructors@.len() == 1,
        r.constructors@[0].name@ == "Playlist"@ && r.constructors@[0].param_template@.len() == 1
            && text_param(r.constructors@[0].param_template@[0], "id"@, ""@),
{
    let constructors = vec![constructor_of("Playlist", vec![text_param_of("id", "")])];
    EndpointConstructorCollection { constructors, user_endpoint_index: None }
}

/// YouTube handles no action itself.
pub fn service_actions() -> (r: ServiceActions)
    ensures
        r == (ServiceActions { like: false, repost: false, fetch_data: false }),
{
    ServiceActions { like: false, repost: false, fetch_data: false }
}


/// The YouTube agent's videos, by id, each once.
pub struct YouTubeAgent {
    pub articles: StrMap<YouTubeArticle>,
}

impl YouTubeAgent {
    pub open spec fn wf(&self) -> bool {
        self.articles.wf()
    }

    /// An agent with no video.
    pub fn new() -> (r: Self)
        ensures
            r.wf(),
            r.articles@ == Map::<Seq<char>, YouTubeArticle>::empty(),
    {
        YouTubeAgent { articles: StrMap::new() }
    }

    /// Keeps a fetched video: a video already kept takes what the new fetch
    /// brought, a new one is kept as it came.
    pub fn insert_or_update(&mut self, article: YouTubeArticle)
        requires
            old(self).wf(),
        ensures
            final(self).wf(),
            final(self).articles@.dom() == old(self).articles@.dom().insert(article.id@),
            forall|k: Seq<char>| #[trigger] old(self).articles@.contains_key(k) && k != article.id@
                ==> final(self).articles@[k] == old(self).articles@[k],
            !old(self).articles@.contains_key(article.id@) ==> final(self).articles@[article.id@] == article,
            old(self).articles@.contains_key(article.id@) ==> {
                let before = old(self).articles@[article.id@];
                let after = final(self).articles@[article.id@];
                &&& after.id == article.id
                &&& after.title == article.title
                &&& after.published_at == article.published_at
                &&& after.channel == article.channel
                &&& after.thumbnail == before.thumbnail
                &&& after.marked_as_read == before.marked_as_read
                &&& after.hidden == before.hidden
            },
    {
        let key = article.id.clone();
        match self.articles.remove(key.as_str()) {
            Some(mut existing) => {
                existing.update(&article);
                self.articles.insert(key, existing);
                proof {
                    assert(self.articles@.dom() =~= old(self).articles@.dom().insert(article.id@));
                }
            },
            None => {
                self.articles.insert(key, article);
                proof {
                    assert(self.articles@.dom() =~= old(self).articles@.dom().insert(article.id@));
                }
            },
        }
    }
}

/// The videos of a playlist.
pub struct PlaylistEndpoint {
    pub id: EndpointId,
    pub playlist_id: String,
}

impl PlaylistEndpoint {
    pub fn new(id: EndpointId, playlist_id: String) -> (r: Self)
        ensures
            r.id == id,
            r.playlist_id == playlist_id,
    {
        PlaylistEndpoint { id, playlist_id }
    }

    /// The endpoint with the stored parameters `params`.
    pub fn from_json(id: EndpointId, params: &Params) -> (r: Self)
        requires
            params.wf(),
            text_of(params@, "id"@) is Some,
        ensures
            r.id == id,
            Some(r.playlist_id@) == text_of(params@, "id"@),
    {
        Self::new(id, text_param_value(params, "id").unwrap())
    }

    pub fn name(&self) -> (r: String)
        ensures
            r@ == "Playlist "@ + self.playlist_id@,
    {
        let mut r = String::from_str("Playlist ");
        r.append(self.playlist_id.as_str());
        r
    }

    /// The address of the playlist's videos, on the app's server at `base`.
    pub fn refresh_url(&self, base: &str) -> (r: String)
        ensures
            r@ == base@ + "/proxy/youtube/playlist/"@ + self.playlist_id@,
    {
        let mut r = String::from_str(base);
        r.append("/proxy/youtube/playlist/");
        r.append(self.playlist_id.as_str());
        r
    }

    /// Whether `storage` is one of YouTube's playlists; which playlist is
    /// not compared.
    pub fn eq_storage(&self, storage: &EndpointSerialized) -> (r: bool)
        ensures
            r == stored_as(*storage, "YouTube"@, 0),
    {
        is_stored_as(storage, "YouTube", 0)
    }
}

}
