use vstd::prelude::*;
use crate::components::ArticleView;
use crate::containers::Container;
use crate::decimal::{decimal_of, u64_to_decimal};
use crate::string_map::str_eq;
use rand::seq::SliceRandom;

verus! {

/// An article of a timeline, by its id, and the number it is ordered by.
pub struct ArticleKey {
    pub id: String,
    pub sortable_id: u64,
}

impl ArticleKey {
    /// A copy of the key.
    pub fn copy(&self) -> (r: ArticleKey)
        ensures
            r == *self,
    {
        ArticleKey { id: self.id.clone(), sortable_id: self.sortable_id }
    }
}

/// Shuffles `v` in place with `rand`'s `SliceRandom::shuffle` and the
/// thread's generator. Which order comes out depends on the generator; the
/// source swaps elements only, so what holds of every outcome is that the
/// elements are the same, each as many times.
#[verifier::external_body]
fn shuffle_keys(v: &mut Vec<ArticleKey>)
    ensures
        final(v)@.to_multiset() == old(v)@.to_multiset(),
{
    v.shuffle(&mut rand::thread_rng());
}

/// How many articles `s` starts with whose number is at least `k`.
pub open spec fn leading_at_least(s: Seq<ArticleKey>, k: u64) -> nat
    decreases s.len(),
{
    if s.len() == 0 {
        0
    } else if s[0].sortable_id >= k {
        1 + leading_at_least(s.drop_first(), k)
    } else {
        0
    }
}

/// `s` with its articles from the highest number to the lowest, articles of
/// equal numbers staying in their order: a stable sort, newest first.
pub open spec fn newest_first(s: Seq<ArticleKey>) -> Seq<ArticleKey>
    decreases s.len(),
{
    if s.len() == 0 {
        s
    } else {
        let r = newest_first(s.drop_last());
        r.insert(leading_at_least(r, s.last().sortable_id) as int, s.last())
    }
}

proof fn lemma_leading_at_least(s: Seq<ArticleKey>, k: u64, p: int)
    requires
        0 <= p <= s.len(),
        forall|j: int| 0 <= j < p ==> (#[trigger] s[j]).sortable_id >= k,
        p == s.len() || s[p].sortable_id < k,
    ensures
        leading_at_least(s, k) == p,
    decreases p,
{
    if p > 0 {
        let t = s.drop_first();
        assert forall|j: int| 0 <= j < p - 1 implies (#[trigger] t[j]).sortable_id >= k by {
            assert(t[j] == s[j + 1]);
        }
        if p - 1 < t.len() {
            assert(t[p - 1] == s[p]);
        }
        lemma_leading_at_least(t, k, p - 1);
    }
}

/// Whether a timeline holds an article of id `id`.
pub open spec fn holds_id(s: Seq<ArticleKey>, id: Seq<char>) -> bool {
    exists|i: int| 0 <= i < s.len() && (#[trigger] s[i]).id@ == id
}

/// The timeline's articles after new ones come, in order: each joins unless
/// an article of its id is there already.
pub open spec fn with_new(s: Seq<ArticleKey>, new: Seq<ArticleKey>) -> Seq<ArticleKey>
    decreases new.len(),
{
    if new.len() == 0 {
        s
    } else {
        let t = with_new(s, new.drop_last());
        if holds_id(t, new.last().id@) { t } else { t.push(new.last()) }
    }
}

/// What a timeline is told.
pub enum TimelineMsg {
    Refreshed(Vec<ArticleKey>),
    NewArticles(Vec<ArticleKey>),
    ClearArticles,
    ToggleOptions,
    ToggleCompact,
    ChangeContainer(Container),
    ToggleContainerDropdown,
    ChangeArticleComponent(ArticleView),
    ToggleArticleComponentDropdown,
    ChangeColumnCount(u8),
    ChangeWidth(u8),
    Shuffle,
    SetChooseEndpointModal(bool),
}

/// A timeline: its articles, whether it shows them newest first, and how it
/// shows.
pub struct Timeline {
    pub articles: Vec<ArticleKey>,
    pub sorted: bool,
    pub options_shown: bool,
    pub compact: bool,
    pub container: Container,
    pub show_container_dropdown: bool,
    pub article_component: ArticleView,
    pub show_article_component_dropdown: bool,
    pub column_count: u8,
    pub width: u8,
    pub show_choose_endpoint: bool,
}

impl Timeline {
    /// A timeline with `articles`, newest first, masonry for the main timeline
    /// and a column otherwise.
    pub fn new(articles: Vec<ArticleKey>, main_timeline: bool, column_count: u8) -> (r: Self)
        ensures
            r.articles@ == articles@,
            r.sorted,
            r.container == (if main_timeline { Container::Masonry } else { Container::Column }),
            r.column_count == column_count,
            r.width == 1,
            !r.options_shown && !r.compact && !r.show_choose_endpoint,
            !r.show_container_dropdown && !r.show_article_component_dropdown,
            r.article_component == ArticleView::Social,
    {
        Timeline {
            articles,
            sorted: true,
            options_shown: false,
            compact: false,
            container: if main_timeline { Container::Masonry } else { Container::Column },
            show_container_dropdown: false,
            article_component: ArticleView::Social,
            show_article_component_dropdown: false,
            column_count,
            width: 1,
            show_choose_endpoint: false,
        }
    }

}

fn holds(articles: &Vec<ArticleKey>, id: &str) -> (r: bool)
    ensures
        r == holds_id(articles@, id@),
{
    let mut i: usize = 0;
    while i < articles.len()
        invariant
            i <= articles@.len(),
            forall|j: int| 0 <= j < i ==> (#[trigger] articles@[j]).id@ != id@,
        decreases articles@.len() - i,
    {
        if str_eq(articles[i].id.as_str(), id) {
            assert(articles@[i as int].id@ == id@);
            return true;
        }
        i = i + 1;
    }
    false
}

/// Adds the new articles `a`, in order, but those whose id is there already.
pub fn add_new_articles(articles: &mut Vec<ArticleKey>, a: &Vec<ArticleKey>)
    ensures
        final(articles)@ == with_new(old(articles)@, a@),
{
    let ghost start = articles@;
    let mut i: usize = 0;
    proof { assert(a@.take(0) =~= Seq::<ArticleKey>::empty()); }
    while i < a.len()
        invariant
            i <= a@.len(),
            articles@ == with_new(start, a@.take(i as int)),
        decreases a@.len() - i,
    {
        let x = a[i].copy();
        proof {
            assert(a@.take(i + 1).drop_last() =~= a@.take(i as int));
            assert(a@.take(i + 1).last() == x);
        }
        if !holds(articles, x.id.as_str()) {
            articles.push(x);
        }
        i = i + 1;
    }
    proof { assert(a@.take(i as int) =~= a@); }
}

impl Timeline {
    /// Handles `msg`; tells whether to redraw.
    pub fn update(&mut self, msg: TimelineMsg) -> (redraw: bool)
        ensures
            redraw,
            match msg {
                TimelineMsg::Refreshed(a) => final(self).articles@ == old(self).articles@ + a@,
                TimelineMsg::NewArticles(a) => final(self).articles@ == with_new(old(self).articles@, a@),
                TimelineMsg::ClearArticles => final(self).articles@.len() == 0,
                TimelineMsg::Shuffle => final(self).articles@.to_multiset() == old(self).articles@.to_multiset()
                    && !final(self).sorted,
                _ => final(self).articles@ == old(self).articles@,
            },
            !(msg is Shuffle) ==> final(self).sorted == old(self).sorted,
            final(self).options_shown == (if msg is ToggleOptions { !old(self).options_shown } else { old(self).options_shown }),
            final(self).compact == (if msg is ToggleCompact { !old(self).compact } else { old(self).compact }),
            final(self).container == match msg { TimelineMsg::ChangeContainer(c) => c, _ => old(self).container },
            final(self).show_container_dropdown == (if msg is ToggleContainerDropdown { !old(self).show_container_dropdown } else { old(self).show_container_dropdown }),
            final(self).article_component == match msg { TimelineMsg::ChangeArticleComponent(c) => c, _ => old(self).article_component },
            final(self).show_article_component_dropdown == (if msg is ToggleArticleComponentDropdown {
                !old(self).show_article_component_dropdown
            } else {
                old(self).show_article_component_dropdown
            }),
            final(self).column_count == match msg { TimelineMsg::ChangeColumnCount(n) => n, _ => old(self).column_count },
            final(self).width == match msg { TimelineMsg::ChangeWidth(n) => n, _ => old(self).width },
            final(self).show_choose_endpoint == match msg { TimelineMsg::SetChooseEndpointModal(v) => v, _ => old(self).show_choose_endpoint },
    {
        match msg {
            TimelineMsg::Refreshed(a) => {
                let mut a = a;
                self.articles.append(&mut a);
            },
            TimelineMsg::NewArticles(a) => {
                add_new_articles(&mut self.articles, &a);
            },
            TimelineMsg::ClearArticles => {
                self.articles.clear();
            },
            TimelineMsg::ToggleOptions => {
                self.options_shown = !self.options_shown;
            },
            TimelineMsg::ToggleCompact => {
                self.compact = !self.compact;
            },
            TimelineMsg::ChangeContainer(c) => {
                self.container = c;
            },
            TimelineMsg::ToggleContainerDropdown => {
                self.show_container_dropdown = !self.show_container_dropdown;
            },
            TimelineMsg::ChangeArticleComponent(c) => {
                self.article_component = c;
            },
            TimelineMsg::ToggleArticleComponentDropdown => {
                self.show_article_component_dropdown = !self.show_article_component_dropdown;
            },
            TimelineMsg::ChangeColumnCount(n) => {
                self.column_count = n;
            },
            TimelineMsg::ChangeWidth(n) => {
                self.width = n;
            },
            TimelineMsg::Shuffle => {
                shuffle_keys(&mut self.articles);
                self.sorted = false;
            },
            TimelineMsg::SetChooseEndpointModal(v) => {
                self.show_choose_endpoint = v;
            },
        }
        true
    }

    /// The articles as the timeline shows them: newest first while sorted,
    /// else in their order.
    pub fn shown_articles(&self) -> (r: Vec<ArticleKey>)
        ensures
            r@ == (if self.sorted { newest_first(self.articles@) } else { self.articles@ }),
    {
        if self.sorted {
            sort_newest_first(&self.articles)
        } else {
            copy_keys(&self.articles)
        }
    }
}

fn copy_keys(v: &Vec<ArticleKey>) -> (r: Vec<ArticleKey>)
    ensures
        r@ == v@,
{
    let mut r: Vec<ArticleKey> = Vec::new();
    let mut i: usize = 0;
    while i < v.len()
        invariant
            i <= v@.len(),
            r@ == v@.take(i as int),
        decreases v@.len() - i,
    {
        r.push(v[i].copy());
        proof { assert(r@ =~= v@.take(i + 1)); }
        i = i + 1;
    }
    proof { assert(v@.take(i as int) =~= v@); }
    r
}

/// The articles from the newest to the oldest, articles of equal numbers
/// staying in their order.
pub fn sort_newest_first(v: &Vec<ArticleKey>) -> (r: Vec<ArticleKey>)
    ensures
        r@ == newest_first(v@),
{
    let mut r: Vec<ArticleKey> = Vec::new();
    let mut i: usize = 0;
    while i < v.len()
        invariant
            i <= v@.len(),
            r@ == newest_first(v@.take(i as int)),
        decreases v@.len() - i,
    {
        let x = v[i].copy();
        proof {
            assert(v@.take(i + 1).drop_last() =~= v@.take(i as int));
            assert(v@.take(i + 1).last() == x);
        }
        let mut p: usize = 0;
        while p < r.len() && r[p].sortable_id >= x.sortable_id
            invariant
                p <= r@.len(),
                forall|j: int| 0 <= j < p ==> (#[trigger] r@[j]).sortable_id >= x.sortable_id,
            decreases r@.len() - p,
        {
            p = p + 1;
        }
        proof { lemma_leading_at_least(r@, x.sortable_id, p as int); }
        r.insert(p, x);
        i = i + 1;
    }
    proof { assert(v@.take(i as int) =~= v@); }
    r
}

/// What an endpoint holds after fetching `new`: the new articles it did not
/// hold join it, and all are kept newest first.
pub fn add_articles(articles: &mut Vec<ArticleKey>, new: &Vec<ArticleKey>)
    ensures
        final(articles)@ == newest_first(with_new(old(articles)@, new@)),
{
    add_new_articles(articles, new);
    let sorted = sort_newest_first(articles);
    *articles = sorted;
}

/// The style that widens a timeline: 500 pixels for each unit of width, when
/// it is wider than one.
pub open spec fn width_style(width: u8) -> Option<Seq<char>> {
    if width > 1 {
        Some("width: "@ + decimal_of((width * 500) as nat) + "px"@)
    } else {
        None
    }
}

/// The style that widens a timeline.
pub fn width_style_of(width: u8) -> (r: Option<String>)
    ensures
        match r {
            Some(s) => width_style(width) == Some(s@),
            None => width_style(width) is None,
        },
{
    if width > 1 {
        let mut s = String::from_str("width: ");
        let n = u64_to_decimal(width as u64 * 500);
        s.append(n.as_str());
        s.append("px");
        Some(s)
    } else {
        None
    }
}


/// Newest first: numbers never increase along `s`.
pub open spec fn is_newest_first(s: Seq<ArticleKey>) -> bool {
    forall|i: int, j: int| 0 <= i < j < s.len() ==> (#[trigger] s[i]).sortable_id >= (#[trigger] s[j]).sortable_id
}

proof fn lemma_leading_props(s: Seq<ArticleKey>, k: u64)
    ensures
        leading_at_least(s, k) <= s.len(),
        forall|j: int| 0 <= j < leading_at_least(s, k) ==> (#[trigger] s[j]).sortable_id >= k,
        leading_at_least(s, k) < s.len() ==> s[leading_at_least(s, k) as int].sortable_id < k,
    decreases s.len(),
{
    if s.len() > 0 {
        let t = s.drop_first();
        lemma_leading_props(t, k);
        assert forall|j: int| 0 < j < s.len() implies (#[trigger] s[j]) == t[j - 1] by {}
    }
}

/// The articles a sorted timeline shows are its articles, each as many times,
/// from the newest to the oldest.
pub proof fn shown_newest_first(s: Seq<ArticleKey>)
    ensures
        is_newest_first(newest_first(s)),
        newest_first(s).to_multiset() == s.to_multiset(),
    decreases s.len(),
{
    broadcast use vstd::seq_lib::group_to_multiset_ensures;
    if s.len() > 0 {
        let d = s.drop_last();
        let x = s.last();
        shown_newest_first(d);
        let r = newest_first(d);
        let k = x.sortable_id;
        lemma_leading_props(r, k);
        let p = leading_at_least(r, k) as int;
        let n = r.insert(p, x);
        assert forall|j: int| p <= j < r.len() implies (#[trigger] r[j]).sortable_id < k by {
            if j > p {
                assert(r[p].sortable_id >= r[j].sortable_id);
            }
        }
        assert forall|i: int, j: int| 0 <= i < j < n.len() implies (#[trigger] n[i]).sortable_id >= (#[trigger] n[j]).sortable_id by {
            if j < p {
                assert(n[i] == r[i] && n[j] == r[j]);
            } else if j == p {
                assert(n[i] == r[i]);
            } else if i < p {
                assert(n[i] == r[i] && n[j] == r[j - 1]);
            } else if i == p {
                assert(n[j] == r[j - 1]);
            } else {
                assert(n[i] == r[i - 1] && n[j] == r[j - 1]);
            }
        }
        assert(n.remove(p) =~= r);
        assert(n[p] == x);
        assert(n.to_multiset() =~= r.to_multiset().insert(x)) by {
            assert(n.remove(p).to_multiset() =~= n.to_multiset().remove(x));
            assert(n.to_multiset().count(x) > 0);
        }
        assert(s =~= d.push(x));
    }
}


/// No id occurs twice among `s`.
pub open spec fn unique_article_ids(s: Seq<ArticleKey>) -> bool {
    forall|i: int, j: int| 0 <= i < j < s.len() ==> (#[trigger] s[i]).id@ != (#[trigger] s[j]).id@
}

/// New articles keep a timeline's ids unique, every new id is there after,
/// and the articles that were there stay first, in their order.
pub proof fn new_articles_keep_ids_unique(s: Seq<ArticleKey>, new: Seq<ArticleKey>)
    requires
        unique_article_ids(s),
    ensures
        unique_article_ids(with_new(s, new)),
        forall|i: int| 0 <= i < new.len() ==> holds_id(with_new(s, new), (#[trigger] new[i]).id@),
        with_new(s, new).len() >= s.len(),
        with_new(s, new).take(s.len() as int) == s,
    decreases new.len(),
{
    if new.len() > 0 {
        let d = new.drop_last();
        new_articles_keep_ids_unique(s, d);
        let t = with_new(s, d);
        let x = new.last();
        if !holds_id(t, x.id@) {
            let u = t.push(x);
            assert forall|i: int, j: int| 0 <= i < j < u.len() implies (#[trigger] u[i]).id@ != (#[trigger] u[j]).id@ by {
                if j == t.len() {
                    assert(u[i] == t[i]);
                } else {
                    assert(u[i] == t[i] && u[j] == t[j]);
                }
            }
            assert forall|i: int| 0 <= i < new.len() implies holds_id(u, (#[trigger] new[i]).id@) by {
                if i < d.len() {
                    assert(d[i] == new[i]);
                    assert(holds_id(t, d[i].id@));
                    let k = choose|k: int| 0 <= k < t.len() && (#[trigger] t[k]).id@ == d[i].id@;
                    assert(u[k] == t[k]);
                } else {
                    assert(u[t.len() as int] == x);
                }
            }
            assert(u.take(s.len() as int) =~= t.take(s.len() as int));
        } else {
            assert forall|i: int| 0 <= i < new.len() implies holds_id(t, (#[trigger] new[i]).id@) by {
                if i < d.len() {
                    assert(d[i] == new[i]);
                }
            }
        }
    } else {
        assert(s.take(s.len() as int) =~= s);
    }
}


proof fn lemma_newest_first_unique(s: Seq<ArticleKey>)
    requires
        unique_article_ids(s),
    ensures
        unique_article_ids(newest_first(s)),
    decreases s.len(),
{
    broadcast use vstd::seq_lib::group_to_multiset_ensures;
    if s.len() > 0 {
        let d = s.drop_last();
        let x = s.last();
        assert forall|i: int, j: int| 0 <= i < j < d.len() implies (#[trigger] d[i]).id@ != (#[trigger] d[j]).id@ by {
            assert(d[i] == s[i] && d[j] == s[j]);
        }
        lemma_newest_first_unique(d);
        shown_newest_first(d);
        let r = newest_first(d);
        lemma_leading_props(r, x.sortable_id);
        let p = leading_at_least(r, x.sortable_id) as int;
        let n = r.insert(p, x);
        assert forall|j: int| 0 <= j < r.len() implies (#[trigger] r[j]).id@ != x.id@ by {
            assert(r.to_multiset().count(r[j]) > 0);
            assert(d.contains(r[j]));
            let k = choose|k: int| 0 <= k < d.len() && d[k] == r[j];
            assert(s[k] == d[k]);
            assert(s[s.len() - 1] == x);
        }
        assert forall|i: int, j: int| 0 <= i < j < n.len() implies (#[trigger] n[i]).id@ != (#[trigger] n[j]).id@ by {
            if j < p {
                assert(n[i] == r[i] && n[j] == r[j]);
            } else if j == p {
                assert(n[i] == r[i]);
            } else if i < p {
                assert(n[i] == r[i] && n[j] == r[j - 1]);
            } else if i == p {
                assert(n[j] == r[j - 1]);
            } else {
                assert(n[i] == r[i - 1] && n[j] == r[j - 1]);
            }
        }
    }
}

/// What an endpoint holds after `add_articles` keeps each id once, when it
/// did before, holds every new article's id, and is newest first.
pub proof fn added_articles_are_unique_and_sorted(s: Seq<ArticleKey>, new: Seq<ArticleKey>)
    requires
        unique_article_ids(s),
    ensures
        unique_article_ids(newest_first(with_new(s, new))),
        is_newest_first(newest_first(with_new(s, new))),
        forall|i: int| 0 <= i < new.len() ==> holds_id(newest_first(with_new(s, new)), (#[trigger] new[i]).id@),
{
    broadcast use vstd::seq_lib::group_to_multiset_ensures;
    new_articles_keep_ids_unique(s, new);
    let t = with_new(s, new);
    lemma_newest_first_unique(t);
    shown_newest_first(t);
    let n = newest_first(t);
    assert forall|i: int| 0 <= i < new.len() implies holds_id(n, (#[trigger] new[i]).id@) by {
        assert(holds_id(t, new[i].id@));
        let k = choose|k: int| 0 <= k < t.len() && (#[trigger] t[k]).id@ == new[i].id@;
        assert(t.to_multiset().count(t[k]) > 0);
        assert(n.contains(t[k]));
        let m = choose|m: int| 0 <= m < n.len() && n[m] == t[k];
        assert(n[m].id@ == new[i].id@);
    }
}

}
