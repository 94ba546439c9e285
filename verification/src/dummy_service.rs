use vstd::prelude::*;
use crate::article_actions::ServiceActions;
use crate::endpoints::{constructor_of, is_stored_as, stored_as, EndpointConstructorCollection, EndpointId, EndpointSerialized};

verus! {

/// An article of the service that stands in for a real one while the app is
/// built: no media, and counts that only show the reader's own like and
/// repost.
pub struct DummyArticleData {
    pub id: u32,
    pub text: String,
    pub author_name: String,
    pub author_avatar_url: String,
    pub author_url: String,
    pub url: String,
    pub marked_as_read: bool,
    pub hidden: bool,
    pub liked: bool,
    pub reposted: bool,
}

impl DummyArticleData {
    /// One like where the reader liked the article, none else.
    pub fn like_count(&self) -> (r: u32)
        ensures
            r == (if self.liked { 1u32 } else { 0u32 }),
    {
        if self.liked { 1 } else { 0 }
    }

    /// One repost where the reader reposted the article, none else.
    pub fn repost_count(&self) -> (r: u32)
        ensures
            r == (if self.reposted { 1u32 } else { 0u32 }),
    {
        if self.reposted { 1 } else { 0 }
    }
}

/// The articles of the stand-in service, each held once.
pub struct DummyServiceAgent {
    pub articles: Vec<DummyArticleData>,
}

/// No two articles share a number.
pub open spec fn distinct_dummy_ids(s: Seq<DummyArticleData>) -> bool {
    forall|i: int, j: int| 0 <= i < s.len() && 0 <= j < s.len() && i != j ==> (#[trigger] s[i]).id != (#[trigger] s[j]).id
}

/// Whether article `id` is held.
pub open spec fn holds_dummy(s: Seq<DummyArticleData>, id: u32) -> bool {
    exists|i: int| 0 <= i < s.len() && (#[trigger] s[i]).id == id
}

/// What the agent does to each article it holds when the reader likes (or
/// reposts, if `like` is false) article `id`: that one's mark flips, the others
/// stay.
pub open spec fn toggled_in(before: Seq<DummyArticleData>, after: Seq<DummyArticleData>, id: u32, like: bool) -> bool {
    &&& after.len() == before.len()
    &&& forall|i: int| 0 <= i < before.len() ==> {
        let (b, a) = (#[trigger] before[i], after[i]);
        &&& a.id == b.id
        &&& a.text == b.text
        &&& a.marked_as_read == b.marked_as_read
        &&& a.hidden == b.hidden
        &&& a.liked == (if like && b.id == id { !b.liked } else { b.liked })
        &&& a.reposted == (if !like && b.id == id { !b.reposted } else { b.reposted })
    }
}

impl DummyServiceAgent {
    pub open spec fn wf(&self) -> bool {
        distinct_dummy_ids(self.articles@)
    }

    /// The agent with its one article, number 0.
    pub fn new() -> (r: Self)
        ensures
            r.wf(),
            r.articles@.len() == 1,
            r.articles@[0].id == 0,
            r.articles@[0].text@ == "Text"@,
            r.articles@[0].author_name@ == "Author Name"@,
            r.articles@[0].author_avatar_url@ == ""@,
            r.articles@[0].author_url@ == ""@,
            r.articles@[0].url@ == ""@,
            !r.articles@[0].marked_as_read && !r.articles@[0].hidden,
            !r.articles@[0].liked && !r.articles@[0].reposted,
    {
        let a = DummyArticleData {
            id: 0,
            text: String::from_str("Text"),
            author_name: String::from_str("Author Name"),
            author_avatar_url: String::from_str(""),
            author_url: String::from_str(""),
            url: String::from_str(""),
            marked_as_read: false,
            hidden: false,
            liked: false,
            reposted: false,
        };
        DummyServiceAgent { articles: vec![a] }
    }

    /// The numbers of the articles held, which the service's endpoint shows.
    pub fn article_ids(&self) -> (r: Vec<u32>)
        ensures
            r@.len() == self.articles@.len(),
            forall|i: int| 0 <= i < r@.len() ==> r@[i] == #[trigger] self.articles@[i].id,
    {
        let mut r: Vec<u32> = Vec::new();
        let mut i: usize = 0;
        while i < self.articles.len()
            invariant
                i <= self.articles@.len(),
                r@.len() == i,
                forall|j: int| 0 <= j < i ==> r@[j] == #[trigger] self.articles@[j].id,
            decreases self.articles@.len() - i,
        {
            r.push(self.articles[i].id);
            i = i + 1;
        }
        r
    }

    /// Flips the like (or, if `like` is false, the repost) of article `id`,
    /// which the agent holds.
    fn toggle(&mut self, id: u32, like: bool)
        requires
            old(self).wf(),
            holds_dummy(old(self).articles@, id),
        ensures
            final(self).wf(),
            toggled_in(old(self).articles@, final(self).articles@, id, like),
    {
        let n = self.articles.len();
        let mut i: usize = 0;
        while i < n
            invariant
                n == self.articles@.len(),
                n == old(self).articles@.len(),
                i <= n,
                forall|j: int| 0 <= j < n ==> (#[trigger] self.articles@[j]).id == old(self).articles@[j].id,
                distinct_dummy_ids(old(self).articles@),
                forall|j: int| #![trigger self.articles@[j]] 0 <= j < n ==> {
                    let (b, a) = (old(self).articles@[j], self.articles@[j]);
                    &&& a.text == b.text
                    &&& a.marked_as_read == b.marked_as_read
                    &&& a.hidden == b.hidden
                    &&& a.liked == (if j < i && like && b.id == id { !b.liked } else { b.liked })
                    &&& a.reposted == (if j < i && !like && b.id == id { !b.reposted } else { b.reposted })
                },
            decreases n - i,
        {
            if self.articles[i].id == id {
                let mut a = self.articles.remove(i);
                if like {
                    a.liked = !a.liked;
                } else {
                    a.reposted = !a.reposted;
                }
                self.articles.insert(i, a);
            }
            i = i + 1;
        }
        proof {
            assert forall|x: int, y: int| 0 <= x < n && 0 <= y < n && x != y implies
                (#[trigger] self.articles@[x]).id != (#[trigger] self.articles@[y]).id by {
                assert(old(self).articles@[x].id != old(self).articles@[y].id);
            }
        }
    }

    /// Flips whether the reader likes article `id`, which the agent holds.
    pub fn like(&mut self, id: u32)
        requires
            old(self).wf(),
            holds_dummy(old(self).articles@, id),
        ensures
            final(self).wf(),
            toggled_in(old(self).articles@, final(self).articles@, id, true),
    {
        self.toggle(id, true)
    }

    /// Flips whether the reader reposted article `id`, which the agent holds.
    pub fn repost(&mut self, id: u32)
        requires
            old(self).wf(),
            holds_dummy(old(self).articles@, id),
        ensures
            final(self).wf(),
            toggled_in(old(self).articles@, final(self).articles@, id, false),
    {
        self.toggle(id, false)
    }
}

/// The stand-in service's one endpoint, which shows every article it holds.
pub struct DummyEndpoint {
    pub id: EndpointId,
    pub articles: Vec<u32>,
}

impl DummyEndpoint {
    pub fn new(id: EndpointId, articles: Vec<u32>) -> (r: Self)
        ensures
            r.id == id,
            r.articles == articles,
    {
        DummyEndpoint { id, articles }
    }

    pub fn name(&self) -> (r: String)
        ensures
            r@ == "Dummy Endpoint"@,
    {
        String::from_str("Dummy Endpoint")
    }

    /// Whether `storage` is the stand-in service's endpoint.
    pub fn eq_storage(&self, storage: &EndpointSerialized) -> (r: bool)
        ensures
            r == stored_as(*storage, "Dummy"@, 0),
    {
        is_stored_as(storage, "Dummy", 0)
    }
}

/// The stand-in service's one kind of endpoint, with no parameters.
pub fn endpoint_constructors() -> (r: EndpointConstructorCollection)
    ensures
        r.user_endpoint_index is None,
        r.constructors@.len() == 1,
        r.constructors@[0].name@ == "Endpoint"@ && r.constructors@[0].param_template@.len() == 0,
{
    let constructors = vec![constructor_of("Endpoint", vec![])];
    EndpointConstructorCollection { constructors, user_endpoint_index: None }
}

/// The actions the stand-in service handles itself: liking and reposting.
pub fn service_actions() -> (r: ServiceActions)
    ensures
        r == (ServiceActions { like: true, repost: true, fetch_data: false }),
{
    ServiceActions { like: true, repost: true, fetch_data: false }
}

/// Liking an article twice leaves the stand-in service's articles as they
/// were.
pub proof fn liking_twice_restores(a: Seq<DummyArticleData>, b: Seq<DummyArticleData>, c: Seq<DummyArticleData>, id: u32)
    requires
        toggled_in(a, b, id, true),
        toggled_in(b, c, id, true),
    ensures
        c.len() == a.len(),
        forall|i: int| 0 <= i < a.len() ==> (#[trigger] c[i]).liked == a[i].liked && c[i].reposted == a[i].reposted
            && c[i].id == a[i].id,
{
    assert forall|i: int| 0 <= i < a.len() implies (#[trigger] c[i]).liked == a[i].liked && c[i].reposted == a[i].reposted
        && c[i].id == a[i].id by {
        assert(b[i].id == a[i].id);
    }
}

}
