use vstd::prelude::*;
use crate::endpoints::{asked_at, EndpointId, RefreshTime, TimelineEndpointWrapper};
use crate::timeline::ArticleKey;

verus! {

/// A filter as a timeline or an endpoint uses it: which filter (by its
/// number among the app's filters), whether it is on, and whether it keeps
/// what the filter rejects instead.
#[derive(Clone, Copy, Debug, PartialEq, Eq, Structural)]
pub struct FilterInstance {
    pub filter: u32,
    pub enabled: bool,
    pub inverted: bool,
}

/// A set of filters, each held once.
#[derive(Clone, Debug, PartialEq)]
pub struct FilterCollection {
    pub instances: Vec<FilterInstance>,
}

impl FilterCollection {
    pub open spec fn view(&self) -> Set<FilterInstance> {
        self.instances@.to_set()
    }

    pub open spec fn wf(&self) -> bool {
        self.instances@.no_duplicates()
    }

    /// No filter; what a new endpoint of a timeline starts with.
    pub fn new() -> (r: Self)
        ensures
            r.wf(),
            r@ == Set::<FilterInstance>::empty(),
            r.instances@.len() == 0,
    {
        let r = FilterCollection { instances: Vec::new() };
        assert(r@ =~= Set::<FilterInstance>::empty());
        r
    }

    /// The same filters.
    pub fn copy(&self) -> (r: Self)
        ensures
            r.instances@ == self.instances@,
    {
        let mut v: Vec<FilterInstance> = Vec::new();
        let mut i: usize = 0;
        while i < self.instances.len()
            invariant
                i <= self.instances@.len(),
                v@ == self.instances@.take(i as int),
            decreases self.instances@.len() - i,
        {
            v.push(self.instances[i]);
            proof { assert(v@ =~= self.instances@.take(i + 1)); }
            i = i + 1;
        }
        proof { assert(v@ =~= self.instances@); }
        FilterCollection { instances: v }
    }

    fn position(&self, f: FilterInstance) -> (r: Option<usize>)
        ensures
            match r {
                Some(i) => i < self.instances@.len() && self.instances@[i as int] == f,
                None => !self.instances@.contains(f),
            },
    {
        let mut i: usize = 0;
        while i < self.instances.len()
            invariant
                i <= self.instances@.len(),
                forall|j: int| 0 <= j < i ==> self.instances@[j] != f,
            decreases self.instances@.len() - i,
        {
            if self.instances[i] == f {
                return Some(i);
            }
            i = i + 1;
        }
        None
    }

    /// Adds filter `f`, unless it is held already.
    pub fn insert(&mut self, f: FilterInstance)
        requires
            old(self).wf(),
        ensures
            final(self).wf(),
            final(self)@ == old(self)@.insert(f),
    {
        match self.position(f) {
            Some(_) => {
                assert(old(self)@.insert(f) =~= old(self)@);
            },
            None => {
                let ghost before = self.instances@;
                self.instances.push(f);
                proof {
                    assert(self.instances@ == before.push(f));
                    assert forall|x: FilterInstance| #[trigger] self@.contains(x) <==> old(self)@.insert(f).contains(x) by {
                        if self.instances@.contains(x) && x != f {
                            let k = choose|k: int| 0 <= k < self.instances@.len() && self.instances@[k] == x;
                            assert(k < before.len());
                            assert(before[k] == x);
                        }
                        if before.contains(x) {
                            let k = choose|k: int| 0 <= k < before.len() && before[k] == x;
                            assert(self.instances@[k] == x);
                        }
                        if x == f {
                            assert(self.instances@[before.len() as int] == f);
                        }
                    }
                    assert(self@ =~= old(self)@.insert(f));
                    assert forall|a: int, b: int| 0 <= a < self.instances@.len() && 0 <= b < self.instances@.len() && a != b
                        implies self.instances@[a] != self.instances@[b] by {
                        if a < before.len() && b < before.len() {
                        } else if a < before.len() {
                            assert(before.contains(self.instances@[a]));
                        } else if b < before.len() {
                            assert(before.contains(self.instances@[b]));
                        }
                    }
                }
            },
        }
    }

    /// Removes filter `f`, if it is held.
    pub fn remove(&mut self, f: FilterInstance)
        requires
            old(self).wf(),
        ensures
            final(self).wf(),
            final(self)@ == old(self)@.remove(f),
    {
        match self.position(f) {
            Some(i) => {
                let ghost before = self.instances@;
                self.instances.remove(i);
                proof {
                    let after = self.instances@;
                    assert(after == before.remove(i as int));
                    assert forall|x: FilterInstance| #[trigger] after.contains(x) <==> (before.contains(x) && x != f) by {
                        if after.contains(x) {
                            let k = choose|k: int| 0 <= k < after.len() && after[k] == x;
                            if k < i {
                                assert(before[k] == x);
                            } else {
                                assert(before[k + 1] == x);
                                assert(k + 1 != i);
                            }
                        }
                        if before.contains(x) && x != f {
                            let k = choose|k: int| 0 <= k < before.len() && before[k] == x;
                            assert(k != i);
                            if k < i {
                                assert(after[k] == x);
                            } else {
                                assert(after[k - 1] == x);
                            }
                        }
                    }
                    assert(self@ =~= old(self)@.remove(f));
                    assert forall|a: int, b: int| 0 <= a < after.len() && 0 <= b < after.len() && a != b
                        implies after[a] != after[b] by {
                        let a2 = if a < i { a } else { a + 1 };
                        let b2 = if b < i { b } else { b + 1 };
                        assert(after[a] == before[a2] && after[b] == before[b2]);
                    }
                }
            },
            None => {
                assert(old(self)@.remove(f) =~= old(self)@);
            },
        }
    }

    /// Turns filter `f` on if it was off, off if it was on.
    pub fn toggle_enabled(&mut self, f: FilterInstance)
        requires
            old(self).wf(),
        ensures
            final(self).wf(),
            final(self)@ == old(self)@.remove(f).insert(FilterInstance { enabled: !f.enabled, ..f }),
    {
        self.remove(f);
        self.insert(FilterInstance { enabled: !f.enabled, ..f });
    }

    /// Makes filter `f` keep what it rejected, or the reverse.
    pub fn toggle_inverted(&mut self, f: FilterInstance)
        requires
            old(self).wf(),
        ensures
            final(self).wf(),
            final(self)@ == old(self)@.remove(f).insert(FilterInstance { inverted: !f.inverted, ..f }),
    {
        self.remove(f);
        self.insert(FilterInstance { inverted: !f.inverted, ..f });
    }
}

/// A change to a set of filters.
#[derive(Clone, Copy, Debug, PartialEq, Eq, Structural)]
pub enum FilterChange {
    /// Turns the filter on or off.
    ToggleEnabled(FilterInstance),
    /// Inverts the filter, or stops inverting it.
    ToggleInverted(FilterInstance),
    Remove(FilterInstance),
    /// Adds filter number `0`, on, inverted as `1` says.
    Add(u32, bool),
}

/// The filters `s` after change `c`.
pub open spec fn changed_filters(s: Set<FilterInstance>, c: FilterChange) -> Set<FilterInstance> {
    match c {
        FilterChange::ToggleEnabled(f) => s.remove(f).insert(FilterInstance { enabled: !f.enabled, ..f }),
        FilterChange::ToggleInverted(f) => s.remove(f).insert(FilterInstance { inverted: !f.inverted, ..f }),
        FilterChange::Remove(f) => s.remove(f),
        FilterChange::Add(filter, inverted) => s.insert(FilterInstance { filter, inverted, enabled: true }),
    }
}

impl FilterCollection {
    /// Makes change `c`.
    pub fn apply(&mut self, c: FilterChange)
        requires
            old(self).wf(),
        ensures
            final(self).wf(),
            final(self)@ == changed_filters(old(self)@, c),
    {
        match c {
            FilterChange::ToggleEnabled(f) => self.toggle_enabled(f),
            FilterChange::ToggleInverted(f) => self.toggle_inverted(f),
            FilterChange::Remove(f) => self.remove(f),
            FilterChange::Add(filter, inverted) => self.insert(FilterInstance { filter, inverted, enabled: true }),
        }
    }
}

/// Whether an article passes the filters `fs`, where `verdicts[i]` is what
/// the filter of `fs[i]` says of it: every filter is on and its verdict is
/// not what it inverts.
pub open spec fn passes(fs: Seq<FilterInstance>, verdicts: Seq<bool>) -> bool {
    forall|i: int| 0 <= i < fs.len() ==> (#[trigger] fs[i]).enabled && verdicts[i] != fs[i].inverted
}

/// Whether an article passes the filters `fs`, given what each filter says
/// of it.
pub fn article_passes(fs: &FilterCollection, verdicts: &Vec<bool>) -> (r: bool)
    requires
        verdicts@.len() == fs.instances@.len(),
    ensures
        r == passes(fs.instances@, verdicts@),
{
    let mut i: usize = 0;
    while i < fs.instances.len()
        invariant
            i <= fs.instances@.len(),
            verdicts@.len() == fs.instances@.len(),
            forall|j: int| 0 <= j < i ==> (#[trigger] fs.instances@[j]).enabled && verdicts@[j] != fs.instances@[j].inverted,
        decreases fs.instances@.len() - i,
    {
        let f = fs.instances[i];
        if !(f.enabled && verdicts[i] != f.inverted) {
            return false;
        }
        i = i + 1;
    }
    true
}

/// The articles of `arts`, in order, that pass the filters `fs`, where
/// `verdicts[i]` holds what each filter of `fs` says of article `i`.
pub open spec fn kept_articles(fs: Seq<FilterInstance>, arts: Seq<ArticleKey>, verdicts: Seq<Vec<bool>>) -> Seq<ArticleKey>
    decreases arts.len(),
{
    if arts.len() == 0 {
        Seq::empty()
    } else {
        let n = arts.len() - 1;
        let rest = kept_articles(fs, arts.drop_last(), verdicts.take(n));
        if passes(fs, verdicts[n]@) { rest.push(arts[n]) } else { rest }
    }
}

/// The articles of `arts`, in order, that a timeline shows through an
/// endpoint with filters `fs`, where `verdicts[i]` holds what each filter
/// of `fs` says of article `i`.
pub fn filtered_articles(fs: &FilterCollection, arts: &Vec<ArticleKey>, verdicts: &Vec<Vec<bool>>) -> (r: Vec<ArticleKey>)
    requires
        verdicts@.len() == arts@.len(),
        forall|i: int| 0 <= i < verdicts@.len() ==> (#[trigger] verdicts@[i])@.len() == fs.instances@.len(),
    ensures
        r@ == kept_articles(fs.instances@, arts@, verdicts@),
{
    let mut r: Vec<ArticleKey> = Vec::new();
    let mut i: usize = 0;
    while i < arts.len()
        invariant
            i <= arts@.len(),
            verdicts@.len() == arts@.len(),
            forall|j: int| 0 <= j < verdicts@.len() ==> (#[trigger] verdicts@[j])@.len() == fs.instances@.len(),
            r@ == kept_articles(fs.instances@, arts@.take(i as int), verdicts@.take(i as int)),
        decreases arts@.len() - i,
    {
        proof {
            assert(arts@.take(i + 1).drop_last() =~= arts@.take(i as int));
            assert(verdicts@.take(i + 1).take(i as int) =~= verdicts@.take(i as int));
            assert(verdicts@.take(i + 1)[i as int] == verdicts@[i as int]);
            assert(arts@.take(i + 1)[i as int] == arts@[i as int]);
        }
        if article_passes(fs, &verdicts[i]) {
            r.push(arts[i].copy());
        }
        i = i + 1;
    }
    proof {
        assert(arts@.take(i as int) =~= arts@);
        assert(verdicts@.take(i as int) =~= verdicts@);
    }
    r
}

/// The place of the first wrapper of `ws` for endpoint `id` that is asked at
/// `t`, if any.
pub fn asked_wrapper(ws: &Vec<TimelineEndpointWrapper>, t: RefreshTime, id: EndpointId) -> (r: Option<usize>)
    ensures
        match r {
            Some(k) => k < ws@.len() && ws@[k as int].id == id && asked_at(ws@[k as int], t)
                && forall|j: int| 0 <= j < k ==> !((#[trigger] ws@[j]).id == id && asked_at(ws@[j], t)),
            None => forall|j: int| 0 <= j < ws@.len() ==> !((#[trigger] ws@[j]).id == id && asked_at(ws@[j], t)),
        },
{
    let mut i: usize = 0;
    while i < ws.len()
        invariant
            i <= ws@.len(),
            forall|j: int| 0 <= j < i ==> !((#[trigger] ws@[j]).id == id && asked_at(ws@[j], t)),
        decreases ws@.len() - i,
    {
        let w = &ws[i];
        let asked = match t {
            RefreshTime::Start => w.on_start,
            RefreshTime::OnRefresh => w.on_refresh,
        };
        if w.id == id && asked {
            return Some(i);
        }
        i = i + 1;
    }
    None
}

/// The first wrapper of `ws` for endpoint `id` that is asked at `t`, if any.
pub open spec fn first_asked(ws: Seq<TimelineEndpointWrapper>, t: RefreshTime, id: EndpointId) -> Option<int> {
    if exists|k: int| 0 <= k < ws.len() && (#[trigger] ws[k]).id == id && asked_at(ws[k], t) {
        Some(choose|k: int| 0 <= k < ws.len() && (#[trigger] ws[k]).id == id && asked_at(ws[k], t)
            && forall|j: int| 0 <= j < k ==> !((#[trigger] ws[j]).id == id && asked_at(ws[j], t)))
    } else {
        None
    }
}

/// The articles `arts` that endpoint `id` got for time `t` as a timeline of
/// endpoints `ws` receives them: none when the timeline does not ask the
/// endpoint at `t`; else those that pass the filters of its first wrapper of
/// the endpoint asked at `t`, in order, where `verdicts[i]` holds what each of
/// those filters says of article `i`.
pub fn timeline_articles(
    ws: &Vec<TimelineEndpointWrapper>,
    t: RefreshTime,
    id: EndpointId,
    arts: &Vec<ArticleKey>,
    verdicts: &Vec<Vec<bool>>,
) -> (r: Option<Vec<ArticleKey>>)
    requires
        verdicts@.len() == arts@.len(),
        first_asked(ws@, t, id) matches Some(k) ==> forall|i: int| 0 <= i < verdicts@.len()
            ==> (#[trigger] verdicts@[i])@.len() == ws@[k].filters.instances@.len(),
    ensures
        match first_asked(ws@, t, id) {
            Some(k) => r matches Some(v) && v@ == kept_articles(ws@[k].filters.instances@, arts@, verdicts@),
            None => r is None,
        },
{
    match asked_wrapper(ws, t, id) {
        Some(k) => {
            proof {
                let p = |k2: int| 0 <= k2 < ws@.len() && ws@[k2].id == id && asked_at(ws@[k2], t)
                    && forall|j: int| 0 <= j < k2 ==> !((#[trigger] ws@[j]).id == id && asked_at(ws@[j], t));
                assert(p(k as int));
                let c = first_asked(ws@, t, id)->0;
                if c != k as int {
                    if c < k as int {
                        assert(!(ws@[c].id == id && asked_at(ws@[c], t)));
                    } else {
                        assert(!(ws@[k as int].id == id && asked_at(ws@[k as int], t)));
                    }
                }
            }
            Some(filtered_articles(&ws[k].filters, arts, verdicts))
        },
        None => None,
    }
}

}
