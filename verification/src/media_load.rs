use vstd::prelude::*;

verus! {

/// How many media may load at once before further requests wait in the queue.
pub const MAX_LOADING: usize = 5;

/// Where one media of an article stands.
#[derive(Clone, Copy, Debug, PartialEq, Eq, Structural)]
pub enum MediaLoadState {
    NotLoaded,
    Loading,
    Loaded,
}

/// What a component asks of the media loader: to queue, load now, or report
/// loaded the media `media_index` of an article.
#[derive(Debug)]
pub enum Request {
    QueueMedia(String, usize),
    LoadMedia(String, usize),
    MediaLoaded(String, usize),
}

/// What the media loader tells a component about one of its media.
#[derive(Clone, Copy, Debug, PartialEq, Eq, Structural)]
pub enum Response {
    UpdateState(usize, MediaLoadState),
}

/// A media of an article, with the components (by handler number) waiting on it.
pub struct MediaEntry {
    pub article_id: String,
    pub media_index: usize,
    pub handlers: Vec<u64>,
}

/// A media, named by its article's id and its index among the article's media.
pub type MediaKey = (Seq<char>, usize);

/// A media and the set of components waiting on it.
pub type EntryView = (MediaKey, Set<u64>);

impl MediaEntry {
    pub open spec fn view_entry(&self) -> EntryView {
        ((self.article_id@, self.media_index), self.handlers@.to_set())
    }
}

pub open spec fn entries_view(v: Seq<MediaEntry>) -> Seq<EntryView> {
    v.map_values(|e: MediaEntry| e.view_entry())
}

/// The first index of `s` whose media is `k`, or -1.
pub open spec fn position_of(s: Seq<EntryView>, k: MediaKey) -> int
    decreases s.len(),
{
    if s.len() == 0 {
        -1
    } else if s[0].0 == k {
        0
    } else {
        let r = position_of(s.drop_first(), k);
        if r == -1 { -1 } else { r + 1 }
    }
}

/// No media occurs twice.
pub open spec fn unique_keys(s: Seq<EntryView>) -> bool {
    forall|i: int, j: int| 0 <= i < j < s.len() ==> (#[trigger] s[i]).0 != (#[trigger] s[j]).0
}

/// Starts loading `k` for the components `ids`: merged into its entry if it is
/// already loading, appended otherwise.
pub open spec fn add_loading(s: Seq<EntryView>, k: MediaKey, ids: Set<u64>) -> Seq<EntryView> {
    let p = position_of(s, k);
    if p >= 0 {
        s.update(p, (k, s[p].1.union(ids)))
    } else {
        s.push((k, ids))
    }
}

/// Drops component `id` from the entries in order, up to and including the
/// first entry that it leaves empty, which is removed.
pub open spec fn disconnect_entries(s: Seq<EntryView>, id: u64) -> Seq<EntryView>
    decreases s.len(),
{
    if s.len() == 0 {
        s
    } else if s[0].1.contains(id) && s[0].1.remove(id).is_empty() {
        s.drop_first()
    } else {
        seq![(s[0].0, s[0].1.remove(id))] + disconnect_entries(s.drop_first(), id)
    }
}

/// The responses that tell each of `ids` that media `index` is now in `state`.
pub open spec fn responses_to(ids: Set<u64>, index: usize, state: MediaLoadState) -> Set<(u64, Response)> {
    ids.map(|x: u64| (x, Response::UpdateState(index, state)))
}

proof fn lemma_position_of(s: Seq<EntryView>, k: MediaKey)
    ensures
        -1 <= position_of(s, k) < s.len(),
        position_of(s, k) >= 0 ==> s[position_of(s, k)].0 == k,
        position_of(s, k) == -1 ==> forall|i: int| 0 <= i < s.len() ==> (#[trigger] s[i]).0 != k,
        forall|i: int| 0 <= i < position_of(s, k) ==> (#[trigger] s[i]).0 != k,
    decreases s.len(),
{
    if s.len() > 0 {
        lemma_position_of(s.drop_first(), k);
        assert forall|i: int| 0 < i < s.len() implies (#[trigger] s[i]) == s.drop_first()[i - 1] by {}
    }
}

/// The media loader: media waiting for room, and media loading now.
pub struct MediaLoadAgent {
    load_queue: Vec<MediaEntry>,
    currently_loading: Vec<MediaEntry>,
}

impl MediaLoadAgent {
    /// The waiting media, front first, with the components waiting on each.
    pub closed spec fn queue_view(&self) -> Seq<EntryView> {
        entries_view(self.load_queue@)
    }

    /// The media loading now, with the components waiting on each.
    pub closed spec fn loading_view(&self) -> Seq<EntryView> {
        entries_view(self.currently_loading@)
    }

    pub open spec fn wf(&self) -> bool {
        unique_keys(self.queue_view()) && unique_keys(self.loading_view())
    }

    /// A loader with nothing queued and nothing loading.
    pub fn new() -> (r: Self)
        ensures
            r.wf(),
            r.queue_view() == Seq::<EntryView>::empty(),
            r.loading_view() == Seq::<EntryView>::empty(),
    {
        let r = MediaLoadAgent { load_queue: Vec::new(), currently_loading: Vec::new() };
        assert(r.queue_view() =~= Seq::<EntryView>::empty());
        assert(r.loading_view() =~= Seq::<EntryView>::empty());
        r
    }

    /// How many media are loading now.
    pub fn loading_count(&self) -> (n: usize)
        ensures
            n == self.loading_view().len(),
    {
        self.currently_loading.len()
    }

    /// How many media wait in the queue.
    pub fn queue_len(&self) -> (n: usize)
        ensures
            n == self.queue_view().len(),
    {
        self.load_queue.len()
    }
}

fn find_entry(v: &Vec<MediaEntry>, article_id: &String, media_index: usize) -> (r: Option<usize>)
    ensures
        match r {
            Some(p) => p as int == position_of(entries_view(v@), (article_id@, media_index)),
            None => position_of(entries_view(v@), (article_id@, media_index)) == -1,
        },
{
    let ghost s = entries_view(v@);
    let ghost k = (article_id@, media_index);
    proof { lemma_position_of(s, k); }
    let mut i: usize = 0;
    while i < v.len()
        invariant
            i <= v@.len(),
            s == entries_view(v@),
            k == (article_id@, media_index),
            forall|j: int| 0 <= j < i ==> (#[trigger] s[j]).0 != k,
        decreases v@.len() - i,
    {
        assert(s[i as int] == v@[i as int].view_entry());
        if v[i].media_index == media_index && v[i].article_id == *article_id {
            proof {
                lemma_position_of(s, k);
                assert(s[i as int].0 == k);
                let p = position_of(s, k);
                if p >= 0 && p < i {
                    assert(s[p].0 == k);
                }
            }
            return Some(i);
        }
        i = i + 1;
    }
    proof {
        lemma_position_of(s, k);
        let p = position_of(s, k);
        if p != -1 {
            assert(s[p].0 == k);
        }
    }
    None
}

fn add_handler(v: &mut Vec<u64>, id: u64)
    ensures
        final(v)@.to_set() == old(v)@.to_set().insert(id),
{
    let mut i: usize = 0;
    while i < v.len()
        invariant
            i <= v@.len(),
            forall|j: int| 0 <= j < i ==> v@[j] != id,
        decreases v@.len() - i,
    {
        if v[i] == id {
            assert(v@.to_set().contains(id));
            assert(v@.to_set() =~= v@.to_set().insert(id));
            return;
        }
        i = i + 1;
    }
    let ghost before = v@;
    v.push(id);
    proof { before.lemma_push_to_set_commute(id); }
}

/// Removes every occurrence of `id`; tells whether there was one.
fn remove_handler(v: &mut Vec<u64>, id: u64) -> (found: bool)
    ensures
        final(v)@.to_set() == old(v)@.to_set().remove(id),
        found == old(v)@.to_set().contains(id),
{
    let mut kept: Vec<u64> = Vec::new();
    let mut found = false;
    let mut i: usize = 0;
    while i < v.len()
        invariant
            i <= v@.len(),
            forall|x: u64| #[trigger] kept@.contains(x) <==> (x != id && v@.take(i as int).contains(x)),
            found == v@.take(i as int).contains(id),
        decreases v@.len() - i,
    {
        let x = v[i];
        assert(v@.take((i + 1) as int) =~= v@.take(i as int).push(x));
        let ghost old_kept = kept@;
        if x == id {
            found = true;
        } else {
            kept.push(x);
        }
        assert forall|y: u64| #[trigger] kept@.contains(y) <==> (y != id && v@.take((i + 1) as int).contains(y)) by {
            let t1 = v@.take((i + 1) as int);
            let t0 = v@.take(i as int);
            assert(t1[i as int] == x);
            if t1.contains(y) && y != x {
                let j = choose|j: int| 0 <= j < t1.len() && #[trigger] t1[j] == y;
                assert(t0[j] == y);
                assert(t0.contains(y));
            }
            if y != x && t0.contains(y) {
                let j = choose|j: int| 0 <= j < t0.len() && #[trigger] t0[j] == y;
                assert(t1[j] == y);
            }
            if x != id {
                assert(kept@ == old_kept.push(x));
                assert(kept@[kept@.len() - 1] == x);
                if kept@.contains(y) && y != x {
                    let j = choose|j: int| 0 <= j < kept@.len() && #[trigger] kept@[j] == y;
                    assert(old_kept[j] == y);
                    assert(old_kept.contains(y));
                }
                if old_kept.contains(y) {
                    let j = choose|j: int| 0 <= j < old_kept.len() && #[trigger] old_kept[j] == y;
                    assert(kept@[j] == y);
                }
            } else {
                assert(kept@ == old_kept);
            }
        }
        proof {
            if x == id {
                assert(v@.take((i + 1) as int)[i as int] == id);
            } else if v@.take((i + 1) as int).contains(id) {
                let t = v@.take((i + 1) as int);
                let j = choose|j: int| 0 <= j < t.len() && #[trigger] t[j] == id;
                assert(v@.take(i as int)[j] == id);
            }
        }
        i = i + 1;
    }
    assert(v@.take(v@.len() as int) =~= v@);
    assert(kept@.to_set() =~= v@.to_set().remove(id));
    *v = kept;
    found
}


/// Appends to `out` one response per component of `ids`, telling each that
/// media `index` is in `state`.
fn respond_all(out: &mut Vec<(u64, Response)>, ids: &Vec<u64>, index: usize, state: MediaLoadState)
    ensures
        final(out)@.to_set() == old(out)@.to_set().union(responses_to(ids@.to_set(), index, state)),
{
    let ghost start = out@.to_set();
    let mut j: usize = 0;
    while j < ids.len()
        invariant
            j <= ids@.len(),
            out@.to_set() == start.union(responses_to(ids@.take(j as int).to_set(), index, state)),
        decreases ids@.len() - j,
    {
        let ghost before = out@;
        let x = ids[j];
        out.push((x, Response::UpdateState(index, state)));
        proof {
            before.lemma_push_to_set_commute((x, Response::UpdateState(index, state)));
            let t0 = ids@.take(j as int);
            let t1 = ids@.take((j + 1) as int);
            assert(t1 =~= t0.push(x));
            t0.lemma_push_to_set_commute(x);
            lemma_responses_insert(t0.to_set(), x, index, state);
            assert(out@.to_set() =~= start.union(responses_to(t1.to_set(), index, state)));
        }
        j = j + 1;
    }
    assert(ids@.take(ids@.len() as int) =~= ids@);
}

proof fn lemma_responses_insert(ids: Set<u64>, x: u64, index: usize, state: MediaLoadState)
    ensures
        responses_to(ids.insert(x), index, state) == responses_to(ids, index, state).insert((x, Response::UpdateState(index, state))),
{
    let f = |y: u64| (y, Response::UpdateState(index, state));
    let a = responses_to(ids.insert(x), index, state);
    let b = responses_to(ids, index, state).insert((x, Response::UpdateState(index, state)));
    assert forall|q: (u64, Response)| a.contains(q) <==> b.contains(q) by {
        if a.contains(q) {
            let y = choose|y: u64| ids.insert(x).contains(y) && f(y) == q;
            if y != x {
                assert(ids.contains(y));
                assert(responses_to(ids, index, state).contains(q));
            }
        }
        if b.contains(q) {
            if q == f(x) {
                assert(ids.insert(x).contains(x));
            } else {
                let y = choose|y: u64| ids.contains(y) && f(y) == q;
                assert(ids.insert(x).contains(y));
            }
        }
    }
    assert(a =~= b);
}

proof fn lemma_to_set_empty(v: Seq<u64>)
    ensures
        v.to_set().is_empty() <==> v.len() == 0,
{
    if v.len() > 0 {
        assert(v.to_set().contains(v[0]));
    } else {
        assert(v.to_set() =~= Set::<u64>::empty());
    }
}

proof fn lemma_entries_update(v: Seq<MediaEntry>, p: int, e: MediaEntry)
    requires
        0 <= p < v.len(),
    ensures
        entries_view(v.remove(p).insert(p, e)) == entries_view(v).update(p, e.view_entry()),
{
    assert(v.remove(p).insert(p, e) =~= v.update(p, e));
    assert(entries_view(v.update(p, e)) =~= entries_view(v).update(p, e.view_entry()));
}

proof fn lemma_unique_update(s: Seq<EntryView>, p: int, e: EntryView)
    requires
        unique_keys(s),
        0 <= p < s.len(),
        e.0 == s[p].0,
    ensures
        unique_keys(s.update(p, e)),
{
    let t = s.update(p, e);
    assert forall|i: int, j: int| 0 <= i < j < t.len() implies (#[trigger] t[i]).0 != (#[trigger] t[j]).0 by {
        assert(s[i].0 != s[j].0);
    }
}

proof fn lemma_unique_push(s: Seq<EntryView>, e: EntryView)
    requires
        unique_keys(s),
        position_of(s, e.0) == -1,
    ensures
        unique_keys(s.push(e)),
{
    lemma_position_of(s, e.0);
    let t = s.push(e);
    assert forall|i: int, j: int| 0 <= i < j < t.len() implies (#[trigger] t[i]).0 != (#[trigger] t[j]).0 by {
        if j == s.len() {
            assert(s[i].0 != e.0);
        } else {
            assert(s[i].0 != s[j].0);
        }
    }
}

proof fn lemma_unique_remove(s: Seq<EntryView>, p: int)
    requires
        unique_keys(s),
        0 <= p < s.len(),
    ensures
        unique_keys(s.remove(p)),
{
    let t = s.remove(p);
    assert forall|i: int, j: int| 0 <= i < j < t.len() implies (#[trigger] t[i]).0 != (#[trigger] t[j]).0 by {
        let si = if i < p { i } else { i + 1 };
        let sj = if j < p { j } else { j + 1 };
        assert(t[i] == s[si]);
        assert(t[j] == s[sj]);
        assert(s[si].0 != s[sj].0);
    }
}

/// Adds the components `ids` to the entry of media `(article_id, media_index)`
/// in `v`, or appends a new entry for it.
fn merge_entry(v: &mut Vec<MediaEntry>, article_id: String, media_index: usize, ids: Vec<u64>)
    requires
        unique_keys(entries_view(old(v)@)),
    ensures
        unique_keys(entries_view(final(v)@)),
        entries_view(final(v)@) == add_loading(entries_view(old(v)@), (article_id@, media_index), ids@.to_set()),
{
    let ghost k = (article_id@, media_index);
    let ghost s = entries_view(v@);
    match find_entry(v, &article_id, media_index) {
        Some(p) => {
            proof { lemma_position_of(s, k); }
            let ghost old_v = v@;
            let mut e = v.remove(p);
            let ghost e0 = e.view_entry();
            assert(e0 == s[p as int]);
            let mut j: usize = 0;
            while j < ids.len()
                invariant
                    j <= ids@.len(),
                    e.article_id@ == article_id@,
                    e.media_index == media_index,
                    e.handlers@.to_set() == e0.1.union(ids@.take(j as int).to_set()),
                decreases ids@.len() - j,
            {
                let x = ids[j];
                add_handler(&mut e.handlers, x);
                proof {
                    let t0 = ids@.take(j as int);
                    let t1 = ids@.take((j + 1) as int);
                    assert(t1 =~= t0.push(x));
                    t0.lemma_push_to_set_commute(x);
                    assert(e.handlers@.to_set() =~= e0.1.union(t1.to_set()));
                }
                j = j + 1;
            }
            assert(ids@.take(ids@.len() as int) =~= ids@);
            let ghost e1 = e.view_entry();
            v.insert(p, e);
            proof {
                lemma_entries_update(old_v, p as int, e);
                assert(e1 == (k, s[p as int].1.union(ids@.to_set())));
                lemma_unique_update(s, p as int, e1);
            }
        },
        None => {
            let e = MediaEntry { article_id, media_index, handlers: ids };
            let ghost old_v = v@;
            v.push(e);
            proof {
                assert(entries_view(old_v.push(e)) =~= s.push(e.view_entry()));
                lemma_unique_push(s, e.view_entry());
            }
        },
    }
}

/// The entries with component `id` dropped from each.
pub open spec fn strip_id(s: Seq<EntryView>, id: u64) -> Seq<EntryView> {
    s.map_values(|e: EntryView| (e.0, e.1.remove(id)))
}

pub open spec fn empties_on(e: EntryView, id: u64) -> bool {
    e.1.contains(id) && e.1.remove(id).is_empty()
}

proof fn lemma_disconnect_prefix(s: Seq<EntryView>, id: u64, i: int)
    requires
        0 <= i <= s.len(),
        forall|j: int| 0 <= j < i ==> !empties_on(#[trigger] s[j], id),
    ensures
        disconnect_entries(s, id) == strip_id(s.take(i), id) + disconnect_entries(s.skip(i), id),
    decreases i,
{
    if i == 0 {
        assert(strip_id(s.take(0), id) =~= Seq::<EntryView>::empty());
        assert(s.skip(0) =~= s);
        assert(Seq::<EntryView>::empty() + disconnect_entries(s, id) =~= disconnect_entries(s, id));
    } else {
        let d = s.drop_first();
        assert(!empties_on(s[0], id));
        assert forall|j: int| 0 <= j < i - 1 implies !empties_on(#[trigger] d[j], id) by {
            assert(d[j] == s[j + 1]);
        }
        lemma_disconnect_prefix(d, id, i - 1);
        assert(d.skip(i - 1) =~= s.skip(i));
        assert(seq![(s[0].0, s[0].1.remove(id))] + strip_id(d.take(i - 1), id) =~= strip_id(s.take(i), id));
        assert(disconnect_entries(s, id) == seq![(s[0].0, s[0].1.remove(id))] + disconnect_entries(d, id));
        assert(seq![(s[0].0, s[0].1.remove(id))] + (strip_id(d.take(i - 1), id) + disconnect_entries(s.skip(i), id))
            =~= strip_id(s.take(i), id) + disconnect_entries(s.skip(i), id));
    }
}

proof fn lemma_unique_stripped(s: Seq<EntryView>, id: u64, i: int, cut: bool)
    requires
        unique_keys(s),
        0 <= i <= s.len(),
        cut ==> i < s.len(),
    ensures
        unique_keys(strip_id(s.take(i), id) + (if cut { s.skip(i + 1) } else { s.skip(i) })),
{
    let a = strip_id(s.take(i), id);
    let b = if cut { s.skip(i + 1) } else { s.skip(i) };
    let t = a + b;
    let off = if cut { i + 1 } else { i };
    assert forall|x: int, y: int| 0 <= x < y < t.len() implies (#[trigger] t[x]).0 != (#[trigger] t[y]).0 by {
        let sx = if x < i { x } else { x - i + off };
        let sy = if y < i { y } else { y - i + off };
        if x < i {
            assert(t[x].0 == s[sx].0);
        } else {
            assert(t[x] == s[sx]);
        }
        if y < i {
            assert(t[y].0 == s[sy].0);
        } else {
            assert(t[y] == s[sy]);
        }
        assert(s[sx].0 != s[sy].0);
    }
}

/// Drops component `id` from the entries of `v` as `disconnect_entries` says.
fn disconnect_vec(v: &mut Vec<MediaEntry>, id: u64)
    requires
        unique_keys(entries_view(old(v)@)),
    ensures
        unique_keys(entries_view(final(v)@)),
        entries_view(final(v)@) == disconnect_entries(entries_view(old(v)@), id),
{
    let ghost s = entries_view(v@);
    let mut i: usize = 0;
    while i < v.len()
        invariant
            i <= v@.len(),
            v@.len() == s.len(),
            entries_view(v@) == strip_id(s.take(i as int), id) + s.skip(i as int),
            forall|j: int| 0 <= j < i ==> !empties_on(#[trigger] s[j], id),
            unique_keys(s),
            s == entries_view(old(v)@),
        decreases v@.len() - i,
    {
        let ghost before = v@;
        let mut e = v.remove(i);
        assert(entries_view(before)[i as int] == before[i as int].view_entry());
        assert((strip_id(s.take(i as int), id) + s.skip(i as int))[i as int] == s[i as int]);
        assert(e.view_entry() == s[i as int]);
        assert(entries_view(v@) =~= entries_view(before).remove(i as int));
        let found = remove_handler(&mut e.handlers, id);
        proof { lemma_to_set_empty(e.handlers@); }
        if found && e.handlers.len() == 0 {
            proof {
                lemma_disconnect_prefix(s, id, i as int);
                assert(empties_on(s[i as int], id));
                assert(disconnect_entries(s.skip(i as int), id) == s.skip(i as int).drop_first());
                assert(s.skip(i as int).drop_first() =~= s.skip(i + 1));
                assert(entries_view(v@) =~= strip_id(s.take(i as int), id) + s.skip(i + 1));
                assert(disconnect_entries(s, id) =~= strip_id(s.take(i as int), id) + s.skip(i + 1));
                lemma_unique_stripped(s, id, i as int, true);
            }
            return;
        }
        v.insert(i, e);
        proof {
            assert(!empties_on(s[i as int], id));
            lemma_entries_update(before, i as int, e);
            assert(strip_id(s.take((i + 1) as int), id) + s.skip(i + 1) =~=
                (strip_id(s.take(i as int), id) + s.skip(i as int)).update(i as int, e.view_entry()));
        }
        i = i + 1;
    }
    proof {
        lemma_disconnect_prefix(s, id, i as int);
        assert(s.skip(i as int) =~= Seq::<EntryView>::empty());
        assert(disconnect_entries(s.skip(i as int), id) == Seq::<EntryView>::empty());
        assert(strip_id(s.take(i as int), id) + s.skip(i as int) =~= strip_id(s.take(i as int), id));
        assert(strip_id(s.take(i as int), id) + disconnect_entries(s.skip(i as int), id) =~= strip_id(s.take(i as int), id));
        lemma_unique_stripped(s, id, i as int, false);
    }
}



/// The queue, the loading media and the responses after component `id` asks to
/// queue media `k`: when `MAX_LOADING` media are loading it waits in the queue
/// (joining its entry if it is there), otherwise it starts loading.
pub open spec fn queue_media_spec(q: Seq<EntryView>, l: Seq<EntryView>, k: MediaKey, id: u64)
    -> (Seq<EntryView>, Seq<EntryView>, Set<(u64, Response)>)
{
    if l.len() >= MAX_LOADING {
        (add_loading(q, k, Set::empty().insert(id)), l, Set::empty())
    } else {
        (q, add_loading(l, k, Set::empty().insert(id)), responses_to(Set::empty().insert(id), k.1, MediaLoadState::Loading))
    }
}

/// After component `id` asks to load media `k` now: it leaves the queue if it
/// waited there, and starts loading for everyone who waited on it and for `id`.
pub open spec fn load_media_spec(q: Seq<EntryView>, l: Seq<EntryView>, k: MediaKey, id: u64)
    -> (Seq<EntryView>, Seq<EntryView>, Set<(u64, Response)>)
{
    let p = position_of(q, k);
    let ids = if p >= 0 { q[p].1.insert(id) } else { Set::empty().insert(id) };
    (if p >= 0 { q.remove(p) } else { q }, add_loading(l, k, ids), responses_to(ids, k.1, MediaLoadState::Loading))
}

/// After component `id` reports media `k` loaded: the media stops loading and
/// every other component waiting on it hears that it is loaded; then, if there
/// is room, the front of the queue starts loading (for its components and `id`).
pub open spec fn media_loaded_spec(q: Seq<EntryView>, l: Seq<EntryView>, k: MediaKey, id: u64)
    -> (Seq<EntryView>, Seq<EntryView>, Set<(u64, Response)>)
{
    let p = position_of(l, k);
    let mid = if p >= 0 { l.remove(p) } else { l };
    let loaded = if p >= 0 { responses_to(l[p].1.remove(id), k.1, MediaLoadState::Loaded) } else { Set::empty() };
    if mid.len() < MAX_LOADING && q.len() > 0 {
        let next = q[0];
        let ids = next.1.insert(id);
        (q.drop_first(), add_loading(mid, next.0, ids), loaded.union(responses_to(ids, next.0.1, MediaLoadState::Loading)))
    } else {
        (q, mid, loaded)
    }
}

proof fn lemma_singleton_to_set(id: u64)
    ensures
        seq![id].to_set() == Set::<u64>::empty().insert(id),
{
    assert(seq![id].to_set() =~= Set::<u64>::empty().insert(id)) by {
        assert(seq![id][0] == id);
    }
}

fn single(id: u64) -> (v: Vec<u64>)
    ensures
        v@.to_set() == Set::<u64>::empty().insert(id),
{
    let mut v = Vec::new();
    v.push(id);
    proof {
        assert(v@ =~= seq![id]);
        lemma_singleton_to_set(id);
    }
    v
}

impl MediaLoadAgent {
    /// Component `id` asks for media `media_index` of article `article_id`;
    /// returns the responses to send, each to the component it names.
    pub fn queue_media(&mut self, article_id: String, media_index: usize, id: u64) -> (out: Vec<(u64, Response)>)
        requires
            old(self).wf(),
        ensures
            final(self).wf(),
            ({
                let r = queue_media_spec(old(self).queue_view(), old(self).loading_view(), (article_id@, media_index), id);
                final(self).queue_view() == r.0 && final(self).loading_view() == r.1 && out@.to_set() == r.2
            }),
    {
        let mut out: Vec<(u64, Response)> = Vec::new();
        assert(out@.to_set() =~= Set::<(u64, Response)>::empty());
        if self.currently_loading.len() >= MAX_LOADING {
            merge_entry(&mut self.load_queue, article_id, media_index, single(id));
        } else {
            let ids = single(id);
            respond_all(&mut out, &ids, media_index, MediaLoadState::Loading);
            merge_entry(&mut self.currently_loading, article_id, media_index, ids);
            assert(out@.to_set() =~= responses_to(Set::empty().insert(id), media_index, MediaLoadState::Loading));
        }
        out
    }

    /// Component `id` asks to load media `media_index` of article `article_id`
    /// now, whatever else is loading.
    pub fn load_media(&mut self, article_id: String, media_index: usize, id: u64) -> (out: Vec<(u64, Response)>)
        requires
            old(self).wf(),
        ensures
            final(self).wf(),
            ({
                let r = load_media_spec(old(self).queue_view(), old(self).loading_view(), (article_id@, media_index), id);
                final(self).queue_view() == r.0 && final(self).loading_view() == r.1 && out@.to_set() == r.2
            }),
    {
        let mut out: Vec<(u64, Response)> = Vec::new();
        assert(out@.to_set() =~= Set::<(u64, Response)>::empty());
        let ghost q = self.queue_view();
        let ghost k = (article_id@, media_index);
        match find_entry(&self.load_queue, &article_id, media_index) {
            Some(p) => {
                proof { lemma_position_of(q, k); }
                let ghost old_v = self.load_queue@;
                let mut e = self.load_queue.remove(p);
                assert(entries_view(old_v)[p as int] == e.view_entry());
                proof {
                    assert(entries_view(self.load_queue@) =~= q.remove(p as int));
                    lemma_unique_remove(q, p as int);
                }
                add_handler(&mut e.handlers, id);
                respond_all(&mut out, &e.handlers, media_index, MediaLoadState::Loading);
                merge_entry(&mut self.currently_loading, article_id, media_index, e.handlers);
                assert(out@.to_set() =~= responses_to(q[p as int].1.insert(id), media_index, MediaLoadState::Loading));
            },
            None => {
                let ids = single(id);
                respond_all(&mut out, &ids, media_index, MediaLoadState::Loading);
                merge_entry(&mut self.currently_loading, article_id, media_index, ids);
                assert(out@.to_set() =~= responses_to(Set::empty().insert(id), media_index, MediaLoadState::Loading));
            },
        }
        out
    }

    /// Component `id` reports media `media_index` of article `article_id` loaded.
    pub fn media_loaded(&mut self, article_id: String, media_index: usize, id: u64) -> (out: Vec<(u64, Response)>)
        requires
            old(self).wf(),
        ensures
            final(self).wf(),
            ({
                let r = media_loaded_spec(old(self).queue_view(), old(self).loading_view(), (article_id@, media_index), id);
                final(self).queue_view() == r.0 && final(self).loading_view() == r.1 && out@.to_set() == r.2
            }),
    {
        let mut out: Vec<(u64, Response)> = Vec::new();
        assert(out@.to_set() =~= Set::<(u64, Response)>::empty());
        let ghost l = self.loading_view();
        let ghost q = self.queue_view();
        let ghost k = (article_id@, media_index);
        proof { lemma_position_of(l, k); }
        match find_entry(&self.currently_loading, &article_id, media_index) {
            Some(p) => {
                let ghost old_v = self.currently_loading@;
                let mut e = self.currently_loading.remove(p);
                assert(entries_view(old_v)[p as int] == e.view_entry());
                proof {
                    assert(entries_view(self.currently_loading@) =~= l.remove(p as int));
                    lemma_unique_remove(l, p as int);
                }
                remove_handler(&mut e.handlers, id);
                respond_all(&mut out, &e.handlers, media_index, MediaLoadState::Loaded);
            },
            None => {},
        }
        let ghost loaded = out@.to_set();
        if self.currently_loading.len() < MAX_LOADING && self.load_queue.len() > 0 {
            let ghost old_q = self.load_queue@;
            let mut next = self.load_queue.remove(0);
            assert(entries_view(old_q)[0] == next.view_entry());
            proof {
                assert(entries_view(self.load_queue@) =~= q.drop_first());
                assert(q.drop_first() =~= q.remove(0));
                lemma_unique_remove(q, 0);
            }
            add_handler(&mut next.handlers, id);
            respond_all(&mut out, &next.handlers, next.media_index, MediaLoadState::Loading);
            merge_entry(&mut self.currently_loading, next.article_id, next.media_index, next.handlers);
        }
        out
    }

    /// Component `id` went away: it stops waiting on queued and loading media.
    pub fn disconnected(&mut self, id: u64)
        requires
            old(self).wf(),
        ensures
            final(self).wf(),
            final(self).queue_view() == disconnect_entries(old(self).queue_view(), id),
            final(self).loading_view() == disconnect_entries(old(self).loading_view(), id),
    {
        disconnect_vec(&mut self.load_queue, id);
        disconnect_vec(&mut self.currently_loading, id);
    }

    /// Handles a request of component `id`; returns the responses to send.
    pub fn handle_input(&mut self, msg: Request, id: u64) -> (out: Vec<(u64, Response)>)
        requires
            old(self).wf(),
        ensures
            final(self).wf(),
            ({
                let (q, l) = (old(self).queue_view(), old(self).loading_view());
                let r = match msg {
                    Request::QueueMedia(a, m) => queue_media_spec(q, l, (a@, m), id),
                    Request::LoadMedia(a, m) => load_media_spec(q, l, (a@, m), id),
                    Request::MediaLoaded(a, m) => media_loaded_spec(q, l, (a@, m), id),
                };
                final(self).queue_view() == r.0 && final(self).loading_view() == r.1 && out@.to_set() == r.2
            }),
    {
        match msg {
            Request::QueueMedia(a, m) => self.queue_media(a, m, id),
            Request::LoadMedia(a, m) => self.load_media(a, m, id),
            Request::MediaLoaded(a, m) => self.media_loaded(a, m, id),
        }
    }
}


proof fn lemma_add_loading(s: Seq<EntryView>, k: MediaKey, ids: Set<u64>)
    ensures
        position_of(add_loading(s, k, ids), k) >= 0,
        ids.subset_of(add_loading(s, k, ids)[position_of(add_loading(s, k, ids), k)].1),
        add_loading(s, k, ids).len() == if position_of(s, k) >= 0 { s.len() } else { s.len() + 1 },
{
    lemma_position_of(s, k);
    let t = add_loading(s, k, ids);
    let p = position_of(s, k);
    lemma_position_of(t, k);
    if p >= 0 {
        assert(t[p].0 == k);
        let pt = position_of(t, k);
        if pt != p {
            if pt < p {
                assert(t[pt] == s[pt]);
            } else {
                assert(t[p].0 == k);
            }
        }
    } else {
        assert(t[s.len() as int].0 == k);
        let pt = position_of(t, k);
        if pt != s.len() {
            assert(t[pt] == s[pt]);
        }
    }
}

/// A media that a component asks for while there is room starts loading, and
/// the component waits on it; asking to load it now always does so.
pub proof fn requested_media_is_loading(q: Seq<EntryView>, l: Seq<EntryView>, k: MediaKey, id: u64)
    ensures
        l.len() < MAX_LOADING ==> ({
            let after = queue_media_spec(q, l, k, id).1;
            position_of(after, k) >= 0 && after[position_of(after, k)].1.contains(id)
        }),
        l.len() >= MAX_LOADING ==> ({
            let after = queue_media_spec(q, l, k, id).0;
            position_of(after, k) >= 0 && after[position_of(after, k)].1.contains(id)
        }),
        ({
            let after = load_media_spec(q, l, k, id).1;
            position_of(after, k) >= 0 && after[position_of(after, k)].1.contains(id)
        }),
{
    lemma_add_loading(l, k, Set::empty().insert(id));
    lemma_add_loading(q, k, Set::empty().insert(id));
    let p = position_of(q, k);
    let ids = if p >= 0 { q[p].1.insert(id) } else { Set::empty().insert(id) };
    lemma_add_loading(l, k, ids);
    assert(ids.contains(id));
}

/// A media reported loaded stops loading, unless it is also the media at the
/// front of the queue, which then starts loading again.
pub proof fn loaded_media_stops_loading(q: Seq<EntryView>, l: Seq<EntryView>, k: MediaKey, id: u64)
    requires
        unique_keys(l),
        q.len() == 0 || q[0].0 != k,
    ensures
        position_of(media_loaded_spec(q, l, k, id).1, k) == -1,
{
    lemma_position_of(l, k);
    let p = position_of(l, k);
    let mid = if p >= 0 { l.remove(p) } else { l };
    assert forall|i: int| 0 <= i < mid.len() implies (#[trigger] mid[i]).0 != k by {
        if p >= 0 {
            let si = if i < p { i } else { i + 1 };
            assert(mid[i] == l[si]);
            if si != p {
                assert(l[si].0 != l[p].0);
            }
        }
    }
    lemma_position_of(mid, k);
    if mid.len() < MAX_LOADING && q.len() > 0 {
        let next = q[0];
        let t = add_loading(mid, next.0, next.1.insert(id));
        lemma_position_of(mid, next.0);
        let pn = position_of(mid, next.0);
        assert forall|i: int| 0 <= i < t.len() implies (#[trigger] t[i]).0 != k by {
            if pn >= 0 {
                if i == pn {
                    assert(t[i].0 == next.0);
                } else {
                    assert(t[i] == mid[i]);
                }
            } else if i == mid.len() {
                assert(t[i].0 == next.0);
            } else {
                assert(t[i] == mid[i]);
            }
        }
        lemma_position_of(t, k);
        if position_of(t, k) >= 0 {
            assert(t[position_of(t, k)].0 == k);
        }
    } else if position_of(mid, k) >= 0 {
        assert(mid[position_of(mid, k)].0 == k);
    }
}

/// Queueing never starts loading a media beyond `MAX_LOADING` at once.
pub proof fn queueing_respects_the_limit(q: Seq<EntryView>, l: Seq<EntryView>, k: MediaKey, id: u64)
    requires
        l.len() <= MAX_LOADING,
    ensures
        queue_media_spec(q, l, k, id).1.len() <= MAX_LOADING,
{
    lemma_add_loading(l, k, Set::empty().insert(id));
}

}
