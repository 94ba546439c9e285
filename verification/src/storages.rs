use vstd::prelude::*;
use crate::display::DisplayMode;
use crate::string_map::{StrMap, StrSet};

verus! {

/// A JSON value, carried through unread.
#[verifier::external_type_specification]
#[verifier::external_body]
pub struct ExJsonValue(serde_json::Value);

/// What a service keeps for the browser session: which articles were marked as
/// read, and the JSON of articles cached by id.
pub struct SessionStorageService {
    pub articles_marked_as_read: StrSet,
    pub cached_articles: StrMap<serde_json::Value>,
}

/// What the app keeps for the session, per service name.
pub struct SoshalSessionStorage {
    pub services: StrMap<SessionStorageService>,
}

/// What a service keeps across sessions: which articles are hidden.
pub struct LocalStorageService {
    pub hidden_articles: StrSet,
}

/// What the app keeps across sessions: per service name, and the display mode.
pub struct SoshalLocalStorage {
    pub services: StrMap<LocalStorageService>,
    pub display_mode: DisplayMode,
}

/// Both storages of one service.
pub struct ServiceStorage {
    pub local: LocalStorageService,
    pub session: SessionStorageService,
}

/// The articles marked as read, and the cached articles by id.
pub type SessionView = (Set<Seq<char>>, Map<Seq<char>, serde_json::Value>);

/// Per service name, what it keeps for the session.
pub type SessionStorageView = Map<Seq<char>, SessionView>;

/// Per service name, the hidden articles; and the display mode.
pub type LocalStorageView = (Map<Seq<char>, Set<Seq<char>>>, DisplayMode);

impl View for SessionStorageService {
    type V = SessionView;

    open spec fn view(&self) -> SessionView {
        (self.articles_marked_as_read@, self.cached_articles@)
    }
}

impl View for SoshalSessionStorage {
    type V = SessionStorageView;

    open spec fn view(&self) -> SessionStorageView {
        self.services@.map_values(|s: SessionStorageService| s@)
    }
}

impl View for SoshalLocalStorage {
    type V = LocalStorageView;

    open spec fn view(&self) -> LocalStorageView {
        (self.services@.map_values(|s: LocalStorageService| s.hidden_articles@), self.display_mode)
    }
}

/// What session storage holds, when it could be read.
pub open spec fn session_view_of(s: Option<SoshalSessionStorage>) -> Option<SessionStorageView> {
    match s {
        Some(s) => Some(s@),
        None => None,
    }
}

/// What local storage holds, when it could be read.
pub open spec fn local_view_of(s: Option<SoshalLocalStorage>) -> Option<LocalStorageView> {
    match s {
        Some(s) => Some(s@),
        None => None,
    }
}

/// What service `name` keeps for the session; nothing when storage could not
/// be read or holds nothing for it.
pub open spec fn session_of(m: Option<SessionStorageView>, name: Seq<char>) -> SessionView {
    match m {
        Some(m) => if m.contains_key(name) { m[name] } else { (Set::empty(), Map::empty()) },
        None => (Set::empty(), Map::empty()),
    }
}

/// The articles that service `name` has hidden.
pub open spec fn hidden_of(m: Option<LocalStorageView>, name: Seq<char>) -> Set<Seq<char>> {
    match m {
        Some(m) => if m.0.contains_key(name) { m.0[name] } else { Set::empty() },
        None => Set::empty(),
    }
}

/// Session storage after marking article `id` of service `name` as read or
/// unread; storage that could not be read starts empty.
pub open spec fn mark_spec(m: Option<SessionStorageView>, name: Seq<char>, id: Seq<char>, value: bool) -> SessionStorageView {
    let base = match m { Some(m) => m, None => Map::empty() };
    let s = session_of(m, name);
    base.insert(name, (if value { s.0.insert(id) } else { s.0.remove(id) }, s.1))
}

/// Session storage after caching `articles` for service `name`.
pub open spec fn cache_spec(m: Option<SessionStorageView>, name: Seq<char>, articles: Map<Seq<char>, serde_json::Value>) -> SessionStorageView {
    let base = match m { Some(m) => m, None => Map::empty() };
    let s = session_of(m, name);
    base.insert(name, (s.0, s.1.union_prefer_right(articles)))
}

/// Local storage after hiding or showing article `id` of service `name`;
/// storage that could not be read starts empty, with the multi-timeline display.
pub open spec fn hide_spec(m: Option<LocalStorageView>, name: Seq<char>, id: Seq<char>, value: bool) -> LocalStorageView {
    let (base, mode) = match m { Some(m) => m, None => (Map::empty(), DisplayMode::Default) };
    let h = hidden_of(m, name);
    (base.insert(name, if value { h.insert(id) } else { h.remove(id) }), mode)
}

impl SessionStorageService {
    pub open spec fn wf(&self) -> bool {
        self.articles_marked_as_read.wf() && self.cached_articles.wf()
    }

    /// Nothing marked, nothing cached.
    pub fn new() -> (r: Self)
        ensures
            r.wf(),
            r@ == (Set::<Seq<char>>::empty(), Map::<Seq<char>, serde_json::Value>::empty()),
    {
        SessionStorageService { articles_marked_as_read: StrSet::new(), cached_articles: StrMap::new() }
    }
}

impl LocalStorageService {
    pub open spec fn wf(&self) -> bool {
        self.hidden_articles.wf()
    }

    /// Nothing hidden.
    pub fn new() -> (r: Self)
        ensures
            r.wf(),
            r.hidden_articles@ == Set::<Seq<char>>::empty(),
    {
        LocalStorageService { hidden_articles: StrSet::new() }
    }
}

impl SoshalSessionStorage {
    pub open spec fn wf(&self) -> bool {
        &&& self.services.wf()
        &&& forall|k: Seq<char>| #[trigger] self.services@.contains_key(k) ==> self.services@[k].wf()
    }

    /// No service stored.
    pub fn new() -> (r: Self)
        ensures
            r.wf(),
            r@ == Map::<Seq<char>, SessionView>::empty(),
    {
        let r = SoshalSessionStorage { services: StrMap::new() };
        assert(r@ =~= Map::<Seq<char>, SessionView>::empty());
        r
    }
}

impl SoshalLocalStorage {
    pub open spec fn wf(&self) -> bool {
        &&& self.services.wf()
        &&& forall|k: Seq<char>| #[trigger] self.services@.contains_key(k) ==> self.services@[k].wf()
    }

    /// No service stored, and the multi-timeline display.
    pub fn new() -> (r: Self)
        ensures
            r.wf(),
            r@ == (Map::<Seq<char>, Set<Seq<char>>>::empty(), DisplayMode::Default),
    {
        let r = SoshalLocalStorage { services: StrMap::new(), display_mode: DisplayMode::Default };
        assert(r@.0 =~= Map::<Seq<char>, Set<Seq<char>>>::empty());
        r
    }
}

/// The storages of service `service`, out of what was read from local and
/// session storage (`None` where reading failed); a service not found has empty
/// storages.
pub fn service_storage(local: Option<SoshalLocalStorage>, session: Option<SoshalSessionStorage>, service: &str) -> (r: ServiceStorage)
    requires
        local matches Some(l) ==> l.wf(),
        session matches Some(s) ==> s.wf(),
    ensures
        r.local.wf(),
        r.session.wf(),
        r.local.hidden_articles@ == hidden_of(local_view_of(local), service@),
        r.session@ == session_of(session_view_of(session), service@),
{
    let l = match local {
        Some(mut l) => match l.services.remove(service) {
            Some(x) => x,
            None => LocalStorageService::new(),
        },
        None => LocalStorageService::new(),
    };
    let s = match session {
        Some(mut s) => match s.services.remove(service) {
            Some(x) => x,
            None => SessionStorageService::new(),
        },
        None => SessionStorageService::new(),
    };
    ServiceStorage { local: l, session: s }
}

/// The session storage after marking article `id` of service `service_name` as
/// read (`value`) or unread, starting from what was read (`None` where reading
/// failed, which starts afresh).
pub fn mark_article_as_read(storage: Option<SoshalSessionStorage>, service_name: &str, id: String, value: bool) -> (r: SoshalSessionStorage)
    requires
        storage matches Some(s) ==> s.wf(),
    ensures
        r.wf(),
        r@ == mark_spec(session_view_of(storage), service_name@, id@, value),
{
    let ghost m = session_view_of(storage);
    let mut st = match storage {
        Some(s) => s,
        None => SoshalSessionStorage::new(),
    };
    proof {
        let before = st.services@;
        assert(m matches Some(v) ==> v == st@);
        assert(before.contains_key(service_name@) ==> st@[service_name@] == before[service_name@]@);
        assert(st@.contains_key(service_name@) == before.contains_key(service_name@));
    }
    let mut svc = match st.services.remove(service_name) {
        Some(x) => x,
        None => SessionStorageService::new(),
    };
    assert(svc@ == session_of(m, service_name@));
    svc.articles_marked_as_read.set_member(id, value);
    st.services.insert(String::from_str(service_name), svc);
    proof {
        assert(st@ =~= mark_spec(m, service_name@, id@, value));
    }
    st
}

/// The local storage after hiding (`value`) or showing article `id` of service
/// `service_name`, starting from what was read (`None` where reading failed,
/// which starts afresh with the multi-timeline display).
pub fn hide_article(storage: Option<SoshalLocalStorage>, service_name: &str, id: String, value: bool) -> (r: SoshalLocalStorage)
    requires
        storage matches Some(s) ==> s.wf(),
    ensures
        r.wf(),
        r@ == hide_spec(local_view_of(storage), service_name@, id@, value),
{
    let ghost m = local_view_of(storage);
    let mut st = match storage {
        Some(s) => s,
        None => SoshalLocalStorage::new(),
    };
    proof {
        let before = st.services@;
        assert(m matches Some(v) ==> v == st@);
        assert(before.contains_key(service_name@) ==> st@.0[service_name@] == before[service_name@].hidden_articles@);
        assert(st@.0.contains_key(service_name@) == before.contains_key(service_name@));
    }
    let mut svc = match st.services.remove(service_name) {
        Some(x) => x,
        None => LocalStorageService::new(),
    };
    assert(svc.hidden_articles@ == hidden_of(m, service_name@));
    svc.hidden_articles.set_member(id, value);
    st.services.insert(String::from_str(service_name), svc);
    proof {
        assert(st@.0 =~= hide_spec(m, service_name@, id@, value).0);
    }
    st
}

/// The session storage after caching `articles` (JSON by article id) for
/// service `service_name`; a cached article replaces an earlier one of its id.
pub fn cache_articles(storage: Option<SoshalSessionStorage>, service_name: &str, articles: StrMap<serde_json::Value>) -> (r: SoshalSessionStorage)
    requires
        storage matches Some(s) ==> s.wf(),
        articles.wf(),
    ensures
        r.wf(),
        r@ == cache_spec(session_view_of(storage), service_name@, articles@),
{
    let ghost m = session_view_of(storage);
    let ghost arts = articles@;
    let mut st = match storage {
        Some(s) => s,
        None => SoshalSessionStorage::new(),
    };
    proof {
        let before = st.services@;
        assert(m matches Some(v) ==> v == st@);
        assert(before.contains_key(service_name@) ==> st@[service_name@] == before[service_name@]@);
        assert(st@.contains_key(service_name@) == before.contains_key(service_name@));
    }
    let mut svc = match st.services.remove(service_name) {
        Some(x) => x,
        None => SessionStorageService::new(),
    };
    assert(svc@ == session_of(m, service_name@));
    svc.cached_articles.extend(articles);
    st.services.insert(String::from_str(service_name), svc);
    proof {
        assert(st@ =~= cache_spec(m, service_name@, arts));
    }
    st
}

/// Marking an article and reading the service's storage back gives the mark.
pub proof fn marked_article_reads_back(m: Option<SessionStorageView>, name: Seq<char>, id: Seq<char>, value: bool)
    ensures
        session_of(Some(mark_spec(m, name, id, value)), name).0.contains(id) == value,
{
}

/// Marking an article leaves the marks of other articles, the cache, and other
/// services as they were.
pub proof fn marking_touches_only_its_article(
    m: Option<SessionStorageView>,
    name: Seq<char>,
    id: Seq<char>,
    value: bool,
    other_service: Seq<char>,
    other_id: Seq<char>,
)
    requires
        other_id != id,
    ensures
        session_of(Some(mark_spec(m, name, id, value)), name).0.contains(other_id) == session_of(m, name).0.contains(other_id),
        session_of(Some(mark_spec(m, name, id, value)), name).1 == session_of(m, name).1,
        other_service != name ==> session_of(Some(mark_spec(m, name, id, value)), other_service) == session_of(m, other_service),
{
}

/// Marking the same article the same way twice is marking it once.
pub proof fn marking_is_idempotent(m: Option<SessionStorageView>, name: Seq<char>, id: Seq<char>, value: bool)
    ensures
        mark_spec(Some(mark_spec(m, name, id, value)), name, id, value) == mark_spec(m, name, id, value),
{
    let once = mark_spec(m, name, id, value);
    let s = session_of(m, name);
    let marks = if value { s.0.insert(id) } else { s.0.remove(id) };
    assert((if value { marks.insert(id) } else { marks.remove(id) }) =~= marks);
    assert(mark_spec(Some(once), name, id, value) =~= once);
}

/// Hiding an article and reading the service's storage back gives the choice;
/// other articles, other services and the display mode stay as they were.
pub proof fn hidden_article_reads_back(
    m: Option<LocalStorageView>,
    name: Seq<char>,
    id: Seq<char>,
    value: bool,
    other_service: Seq<char>,
    other_id: Seq<char>,
)
    ensures
        hidden_of(Some(hide_spec(m, name, id, value)), name).contains(id) == value,
        other_id != id ==> hidden_of(Some(hide_spec(m, name, id, value)), name).contains(other_id) == hidden_of(m, name).contains(other_id),
        other_service != name ==> hidden_of(Some(hide_spec(m, name, id, value)), other_service) == hidden_of(m, other_service),
        m is Some ==> hide_spec(m, name, id, value).1 == m.unwrap().1,
{
}

/// Caching articles and reading the service's storage back gives each of them;
/// other cached articles and the marks stay as they were.
pub proof fn cached_articles_read_back(
    m: Option<SessionStorageView>,
    name: Seq<char>,
    articles: Map<Seq<char>, serde_json::Value>,
    id: Seq<char>,
)
    ensures
        articles.contains_key(id) ==> session_of(Some(cache_spec(m, name, articles)), name).1.contains_key(id)
            && session_of(Some(cache_spec(m, name, articles)), name).1[id] == articles[id],
        !articles.contains_key(id) ==> session_of(Some(cache_spec(m, name, articles)), name).1.contains_key(id)
            == session_of(m, name).1.contains_key(id),
        session_of(Some(cache_spec(m, name, articles)), name).0 == session_of(m, name).0,
{
}

}
