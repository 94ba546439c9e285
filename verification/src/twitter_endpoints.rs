use vstd::prelude::*;
use crate::decimal::{decimal_of, lemma_parse_unsigned_range, parse_u64, parse_unsigned_spec, push_decimal};
use crate::endpoints::{
    bool_of, is_stored_as, stored_as, text_of, text_param_value, u64_of, EndpointId, EndpointSerialized, ParamValue, Params,
};
use crate::string_map::str_eq;

verus! {

fn bool_param(p: &Params, name: &str) -> (r: Option<bool>)
    requires
        p.wf(),
    ensures
        r == bool_of(p@, name@),
{
    match p.get(name) {
        Some(ParamValue::Bool(b)) => Some(*b),
        _ => None,
    }
}

fn u64_param(p: &Params, name: &str) -> (r: Option<u64>)
    requires
        p.wf(),
    ensures
        r == u64_of(p@, name@),
{
    match p.get(name) {
        Some(ParamValue::Number(n)) => if *n >= 0 { Some(*n as u64) } else { None },
        _ => None,
    }
}

/// Whether parameter `name` holds the text `v`.
fn same_text(p: &Params, name: &str, v: &String) -> (b: bool)
    requires
        p.wf(),
    ensures
        b == (text_of(p@, name@) == Some(v@)),
{
    match text_param_value(p, name) {
        Some(s) => str_eq(s.as_str(), v.as_str()),
        None => false,
    }
}

/// The text of a boolean, as `Display` writes it.
pub open spec fn bool_text(b: bool) -> Seq<char> {
    if b { "true"@ } else { "false"@ }
}

fn bool_str(b: bool) -> (r: &'static str)
    ensures
        r@ == bool_text(b),
{
    if b { "true" } else { "false" }
}

/// The tweets a user posted.
pub struct UserTimelineEndpoint {
    pub id: EndpointId,
    pub username: String,
    pub include_retweets: bool,
    pub include_replies: bool,
}

impl UserTimelineEndpoint {
    pub fn new(id: EndpointId, username: String, include_retweets: bool, include_replies: bool) -> (r: Self)
        ensures
            r.id == id,
            r.username == username,
            r.include_retweets == include_retweets,
            r.include_replies == include_replies,
    {
        UserTimelineEndpoint { id, username, include_retweets, include_replies }
    }

    /// The endpoint with the stored parameters `value`.
    pub fn from_json(id: EndpointId, value: &Params) -> (r: Self)
        requires
            value.wf(),
            text_of(value@, "username"@) is Some,
            bool_of(value@, "include_retweets"@) is Some,
            bool_of(value@, "include_replies"@) is Some,
        ensures
            r.id == id,
            Some(r.username@) == text_of(value@, "username"@),
            Some(r.include_retweets) == bool_of(value@, "include_retweets"@),
            Some(r.include_replies) == bool_of(value@, "include_replies"@),
    {
        Self::new(
            id,
            text_param_value(value, "username").unwrap(),
            bool_param(value, "include_retweets").unwrap(),
            bool_param(value, "include_replies").unwrap(),
        )
    }

    pub fn name(&self) -> (r: String)
        ensures
            r@ == self.username@ + " User Timeline Endpoint"@,
    {
        let mut r = self.username.clone();
        r.append(" User Timeline Endpoint");
        r
    }

    /// The part of the endpoint's addresses that names the user's timeline.
    pub open spec fn path(&self) -> Seq<char> {
        "/proxy/twitter/user/"@ + self.username@ + "?replies="@ + bool_text(self.include_replies) + "&rts="@
            + bool_text(self.include_retweets)
    }

    fn push_path(&self, r: &mut String)
        ensures
            final(r)@ == old(r)@ + self.path(),
    {
        r.append("/proxy/twitter/user/");
        r.append(self.username.as_str());
        r.append("?replies=");
        r.append(bool_str(self.include_replies));
        r.append("&rts=");
        r.append(bool_str(self.include_retweets));
    }

    /// The address of the newest tweets, on the app's server at `base`.
    pub fn refresh_url(&self, base: &str) -> (r: String)
        ensures
            r@ == base@ + self.path() + "&count=20"@,
    {
        let mut r = String::from_str(base);
        self.push_path(&mut r);
        r.append("&count=20");
        r
    }

    /// The address of the tweets older than `last_id`, the oldest held; with
    /// none held, that of the newest.
    pub fn load_bottom_url(&self, base: &str, last_id: Option<&str>) -> (r: String)
        ensures
            r@ == match last_id {
                Some(l) => base@ + self.path() + "&max_id="@ + l@,
                None => base@ + self.path() + "&count=20"@,
            },
    {
        match last_id {
            Some(l) => {
                let mut r = String::from_str(base);
                self.push_path(&mut r);
                r.append("&max_id=");
                r.append(l);
                r
            },
            None => self.refresh_url(base),
        }
    }

    /// Whether `storage` is this endpoint: Twitter's user timeline of the
    /// same user.
    pub fn eq_storage(&self, storage: &EndpointSerialized) -> (r: bool)
        requires
            storage.params.wf(),
        ensures
            r == (stored_as(*storage, "Twitter"@, 1) && text_of(storage.params@, "username"@) == Some(self.username@)),
    {
        is_stored_as(storage, "Twitter", 1) && same_text(&storage.params, "username", &self.username)
    }
}

/// The tweets of the signed-in user's home timeline.
pub struct HomeTimelineEndpoint {
    pub id: EndpointId,
}

impl HomeTimelineEndpoint {
    pub fn new(id: EndpointId) -> (r: Self)
        ensures
            r.id == id,
    {
        HomeTimelineEndpoint { id }
    }

    pub fn name(&self) -> (r: String)
        ensures
            r@ == "Home Timeline Endpoint"@,
    {
        String::from_str("Home Timeline Endpoint")
    }

    /// The address of the newest tweets, on the app's server at `base`.
    pub fn refresh_url(&self, base: &str) -> (r: String)
        ensures
            r@ == base@ + "/proxy/twitter/home?count=20"@,
    {
        let mut r = String::from_str(base);
        r.append("/proxy/twitter/home?count=20");
        r
    }

    /// The address of the tweets older than `last_id`, the oldest held; with
    /// none held, that of the newest.
    pub fn load_bottom_url(&self, base: &str, last_id: Option<&str>) -> (r: String)
        ensures
            r@ == match last_id {
                Some(l) => base@ + "/proxy/twitter/home?max_id="@ + l@,
                None => base@ + "/proxy/twitter/home?count=20"@,
            },
    {
        match last_id {
            Some(l) => {
                let mut r = String::from_str(base);
                r.append("/proxy/twitter/home?max_id=");
                r.append(l);
                r
            },
            None => self.refresh_url(base),
        }
    }

    /// Whether `storage` is Twitter's home timeline.
    pub fn eq_storage(&self, storage: &EndpointSerialized) -> (r: bool)
        ensures
            r == stored_as(*storage, "Twitter"@, 0),
    {
        is_stored_as(storage, "Twitter", 0)
    }
}

/// The tweets of a user's list.
pub struct ListEndpoint {
    pub id: EndpointId,
    pub username: String,
    pub slug: String,
}

impl ListEndpoint {
    pub fn new(id: EndpointId, username: String, slug: String) -> (r: Self)
        ensures
            r.id == id,
            r.username == username,
            r.slug == slug,
    {
        ListEndpoint { id, username, slug }
    }

    /// The endpoint with the stored parameters `value`.
    pub fn from_json(id: EndpointId, value: &Params) -> (r: Self)
        requires
            value.wf(),
            text_of(value@, "username"@) is Some,
            text_of(value@, "slug"@) is Some,
        ensures
            r.id == id,
            Some(r.username@) == text_of(value@, "username"@),
            Some(r.slug@) == text_of(value@, "slug"@),
    {
        Self::new(id, text_param_value(value, "username").unwrap(), text_param_value(value, "slug").unwrap())
    }

    pub fn name(&self) -> (r: String)
        ensures
            r@ == "List "@ + self.username@ + "/"@ + self.slug@,
    {
        let mut r = String::from_str("List ");
        r.append(self.username.as_str());
        r.append("/");
        r.append(self.slug.as_str());
        r
    }

    /// The part of the endpoint's addresses that names the list.
    pub open spec fn path(&self) -> Seq<char> {
        "/proxy/twitter/list/"@ + self.username@ + "/"@ + self.slug@
    }

    fn push_path(&self, r: &mut String)
        ensures
            final(r)@ == old(r)@ + self.path(),
    {
        r.append("/proxy/twitter/list/");
        r.append(self.username.as_str());
        r.append("/");
        r.append(self.slug.as_str());
    }

    /// The address of the newest tweets, on the app's server at `base`.
    pub fn refresh_url(&self, base: &str) -> (r: String)
        ensures
            r@ == base@ + self.path(),
    {
        let mut r = String::from_str(base);
        self.push_path(&mut r);
        r
    }

    /// The address of the tweets older than `last_id`, the oldest held; with
    /// none held, that of the newest.
    pub fn load_bottom_url(&self, base: &str, last_id: Option<&str>) -> (r: String)
        ensures
            r@ == match last_id {
                Some(l) => base@ + self.path() + "?max_id="@ + l@,
                None => base@ + self.path(),
            },
    {
        match last_id {
            Some(l) => {
                let mut r = String::from_str(base);
                self.push_path(&mut r);
                r.append("?max_id=");
                r.append(l);
                r
            },
            None => self.refresh_url(base),
        }
    }

    /// Whether `storage` is this endpoint: Twitter's list of the same user
    /// and slug.
    pub fn eq_storage(&self, storage: &EndpointSerialized) -> (r: bool)
        requires
            storage.params.wf(),
        ensures
            r == (stored_as(*storage, "Twitter"@, 2) && text_of(storage.params@, "username"@) == Some(self.username@)
                && text_of(storage.params@, "slug"@) == Some(self.slug@)),
    {
        is_stored_as(storage, "Twitter", 2) && same_text(&storage.params, "username", &self.username)
            && same_text(&storage.params, "slug", &self.slug)
    }
}

/// The tweets a user liked.
pub struct LikesEndpoint {
    pub id: EndpointId,
    pub username: String,
}

impl LikesEndpoint {
    pub fn new(id: EndpointId, username: String) -> (r: Self)
        ensures
            r.id == id,
            r.username == username,
    {
        LikesEndpoint { id, username }
    }

    /// The endpoint with the stored parameters `value`.
    pub fn from_json(id: EndpointId, value: &Params) -> (r: Self)
        requires
            value.wf(),
            text_of(value@, "username"@) is Some,
        ensures
            r.id == id,
            Some(r.username@) == text_of(value@, "username"@),
    {
        Self::new(id, text_param_value(value, "username").unwrap())
    }

    pub fn name(&self) -> (r: String)
        ensures
            r@ == "Liked by "@ + self.username@,
    {
        let mut r = String::from_str("Liked by ");
        r.append(self.username.as_str());
        r
    }

    /// The address of the newest tweets, on the app's server at `base`.
    pub fn refresh_url(&self, base: &str) -> (r: String)
        ensures
            r@ == base@ + "/proxy/twitter/likes/"@ + self.username@ + "?count=20"@,
    {
        let mut r = String::from_str(base);
        r.append("/proxy/twitter/likes/");
        r.append(self.username.as_str());
        r.append("?count=20");
        r
    }

    /// The address of the tweets older than `last_id`, the oldest held; with
    /// none held, that of the newest.
    pub fn load_bottom_url(&self, base: &str, last_id: Option<&str>) -> (r: String)
        ensures
            r@ == match last_id {
                Some(l) => base@ + "/proxy/twitter/likes/"@ + self.username@ + "?max_id="@ + l@,
                None => base@ + "/proxy/twitter/likes/"@ + self.username@ + "?count=20"@,
            },
    {
        match last_id {
            Some(l) => {
                let mut r = String::from_str(base);
                r.append("/proxy/twitter/likes/");
                r.append(self.username.as_str());
                r.append("?max_id=");
                r.append(l);
                r
            },
            None => self.refresh_url(base),
        }
    }

    /// Whether `storage` is this endpoint: Twitter's likes of the same user.
    pub fn eq_storage(&self, storage: &EndpointSerialized) -> (r: bool)
        requires
            storage.params.wf(),
        ensures
            r == (stored_as(*storage, "Twitter"@, 3) && text_of(storage.params@, "username"@) == Some(self.username@)),
    {
        is_stored_as(storage, "Twitter", 3) && same_text(&storage.params, "username", &self.username)
    }
}

/// One tweet.
pub struct SingleTweetEndpoint {
    pub id: EndpointId,
    pub tweet_id: u64,
}

impl SingleTweetEndpoint {
    pub fn new(id: EndpointId, tweet_id: u64) -> (r: Self)
        ensures
            r.id == id,
            r.tweet_id == tweet_id,
    {
        SingleTweetEndpoint { id, tweet_id }
    }

    /// The endpoint with the stored parameters `value`, whose `id` is the
    /// tweet's number as text.
    pub fn from_json(id: EndpointId, value: &Params) -> (r: Self)
        requires
            value.wf(),
            text_of(value@, "id"@) matches Some(t) && parse_unsigned_spec(t, u64::MAX as int) is Ok,
        ensures
            r.id == id,
            parse_unsigned_spec(text_of(value@, "id"@)->0, u64::MAX as int)
                == Ok::<int, crate::decimal::IntErrorKind>(r.tweet_id as int),
    {
        let t = text_param_value(value, "id").unwrap();
        proof {
            lemma_parse_unsigned_range(t@, u64::MAX as int);
        }
        let tweet_id = match parse_u64(t.as_str()) {
            Ok(v) => v,
            Err(_) => 0,
        };
        Self::new(id, tweet_id)
    }

    pub fn name(&self) -> (r: String)
        ensures
            r@ == "Single Tweet "@ + decimal_of(self.tweet_id as nat),
    {
        let mut r = String::from_str("Single Tweet ");
        push_decimal(&mut r, self.tweet_id);
        r
    }

    /// The address of the tweet, on the app's server at `base`. A single
    /// tweet has no older ones: loading below it fetches it again.
    pub fn refresh_url(&self, base: &str) -> (r: String)
        ensures
            r@ == base@ + "/proxy/twitter/status/"@ + decimal_of(self.tweet_id as nat),
    {
        let mut r = String::from_str(base);
        r.append("/proxy/twitter/status/");
        push_decimal(&mut r, self.tweet_id);
        r
    }

    /// Whether `storage` is this endpoint: Twitter's single tweet whose
    /// stored `id` is this tweet's number, held as a number.
    pub fn eq_storage(&self, storage: &EndpointSerialized) -> (r: bool)
        requires
            storage.params.wf(),
        ensures
            r == (stored_as(*storage, "Twitter"@, 4) && u64_of(storage.params@, "id"@) == Some(self.tweet_id)),
    {
        is_stored_as(storage, "Twitter", 4) && u64_param(&storage.params, "id") == Some(self.tweet_id)
    }
}

/// The tweets that match a search.
pub struct SearchEndpoint {
    pub id: EndpointId,
    pub query: String,
}

impl SearchEndpoint {
    pub fn new(id: EndpointId, query: String) -> (r: Self)
        ensures
            r.id == id,
            r.query == query,
    {
        SearchEndpoint { id, query }
    }

    /// The endpoint with the stored parameters `value`.
    pub fn from_json(id: EndpointId, value: &Params) -> (r: Self)
        requires
            value.wf(),
            text_of(value@, "query"@) is Some,
        ensures
            r.id == id,
            Some(r.query@) == text_of(value@, "query"@),
    {
        Self::new(id, text_param_value(value, "query").unwrap())
    }

    pub fn name(&self) -> (r: String)
        ensures
            r@ == "Search \""@ + self.query@ + "\""@,
    {
        let mut r = String::from_str("Search \"");
        r.append(self.query.as_str());
        r.append("\"");
        r
    }

    /// The search address on the app's server at `base`, before its query
    /// part is set.
    pub fn search_url(&self, base: &str) -> (r: String)
        ensures
            r@ == base@ + "/proxy/twitter/search"@,
    {
        let mut r = String::from_str(base);
        r.append("/proxy/twitter/search");
        r
    }

    /// The query part of the newest tweets' address.
    pub fn query_text(&self) -> (r: String)
        ensures
            r@ == "query="@ + self.query@,
    {
        let mut r = String::from_str("query=");
        r.append(self.query.as_str());
        r
    }

    /// The form pairs of the tweets older than `last_id`, the oldest held:
    /// the query, and that tweet.
    pub fn load_bottom_pairs(&self, last_id: &str) -> (r: Vec<(String, String)>)
        ensures
            r@.len() == 2,
            r@[0].0@ == "query"@ && r@[0].1@ == self.query@,
            r@[1].0@ == "max_id"@ && r@[1].1@ == last_id@,
    {
        vec![(String::from_str("query"), self.query.clone()), (String::from_str("max_id"), String::from_str(last_id))]
    }

    /// Whether `storage` is this endpoint: a stored Twitter endpoint of the
    /// single-tweet kind whose `query` is this search's, as the stored kinds
    /// are compared.
    pub fn eq_storage(&self, storage: &EndpointSerialized) -> (r: bool)
        requires
            storage.params.wf(),
        ensures
            r == (stored_as(*storage, "Twitter"@, 4) && text_of(storage.params@, "query"@) == Some(self.query@)),
    {
        is_stored_as(storage, "Twitter", 4) && same_text(&storage.params, "query", &self.query)
    }
}

}
