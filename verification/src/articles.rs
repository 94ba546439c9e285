use vstd::prelude::*;
use crate::media_load::{MediaLoadState, Response as MediaLoadResponse};
use crate::decimal::{decimal_of, u64_to_decimal};
use crate::settings::OnMediaClick;

verus! {

/// How a media of an article loads: at once, as a thumbnail, or lazily
/// through the media loader (and whether it already loaded once).
#[derive(Clone, Copy, Debug, PartialEq, Eq, Structural)]
pub enum MediaQueueInfo {
    DirectLoad,
    Thumbnail,
    LazyLoad { loaded: bool },
}

/// The state a media starts in: everything shows at once without lazy
/// loading; with it, only a lazily loaded media that loaded before does.
pub open spec fn initial_state(lazy_loading: bool, m: MediaQueueInfo) -> MediaLoadState {
    if !lazy_loading {
        MediaLoadState::Loaded
    } else {
        match m {
            MediaQueueInfo::LazyLoad { loaded } => if loaded { MediaLoadState::Loaded } else { MediaLoadState::NotLoaded },
            _ => MediaLoadState::NotLoaded,
        }
    }
}

/// The states an article's media start in.
pub fn make_media_load_states(lazy_loading: bool, media: &Vec<MediaQueueInfo>) -> (r: Vec<MediaLoadState>)
    ensures
        r@.len() == media@.len(),
        forall|i: int| 0 <= i < media@.len() ==> r@[i] == initial_state(lazy_loading, #[trigger] media@[i]),
{
    let mut r: Vec<MediaLoadState> = Vec::new();
    let mut i: usize = 0;
    while i < media.len()
        invariant
            i <= media@.len(),
            r@.len() == i,
            forall|j: int| 0 <= j < i ==> r@[j] == initial_state(lazy_loading, #[trigger] media@[j]),
        decreases media@.len() - i,
    {
        let s = if !lazy_loading {
            MediaLoadState::Loaded
        } else {
            match media[i] {
                MediaQueueInfo::LazyLoad { loaded } => if loaded { MediaLoadState::Loaded } else { MediaLoadState::NotLoaded },
                _ => MediaLoadState::NotLoaded,
            }
        };
        r.push(s);
        i = i + 1;
    }
    r
}

/// The indices of the media loaded lazily, in order.
pub open spec fn lazy_indices(media: Seq<MediaQueueInfo>) -> Seq<usize>
    decreases media.len(),
{
    if media.len() == 0 {
        Seq::empty()
    } else {
        let rest = lazy_indices(media.drop_last());
        if media.last() is LazyLoad { rest.push((media.len() - 1) as usize) } else { rest }
    }
}

/// The media that the media loader is to queue when an article first shows
/// with lazy loading.
pub fn media_to_queue(media: &Vec<MediaQueueInfo>) -> (r: Vec<usize>)
    requires
        media@.len() <= usize::MAX,
    ensures
        r@ == lazy_indices(media@),
{
    let mut r: Vec<usize> = Vec::new();
    let mut i: usize = 0;
    while i < media.len()
        invariant
            i <= media@.len(),
            r@ == lazy_indices(media@.take(i as int)),
        decreases media@.len() - i,
    {
        proof {
            assert(media@.take(i + 1).drop_last() =~= media@.take(i as int));
        }
        match media[i] {
            MediaQueueInfo::LazyLoad { .. } => r.push(i),
            _ => {},
        }
        i = i + 1;
    }
    assert(media@.take(i as int) =~= media@);
    r
}

/// What an article's component is told or asked.
#[derive(Clone, Copy, Debug, PartialEq, Eq, Structural)]
pub enum Msg {
    OnMediaClick,
    LogData,
    LogJsonData,
    FetchData,
    Like,
    Repost,
    ToggleMarkAsRead,
    ToggleHide,
    ToggleInModal,
    LoadMedia(usize),
    MediaLoaded(usize),
    MediaLoadResponse(MediaLoadResponse),
}

/// What handling a message makes the component do outside itself.
#[derive(Clone, Copy, Debug, PartialEq, Eq, Structural)]
pub enum Effect {
    Nothing,
    LogData,
    LogJsonData,
    FetchData,
    Like,
    Repost,
    /// Pause its video, set the article's mark, store it, and redraw the timelines.
    SetMarkedAsRead(bool),
    /// Pause its video, set the article's hiding, store it, and redraw the timelines.
    SetHidden(bool),
    /// Ask the media loader to load media `index` now.
    LoadMedia(usize),
    /// Tell the media loader and the article that media `index` loaded.
    MediaLoaded(usize),
}

/// The message a click on a media sends, as the settings choose.
pub open spec fn media_click_message(c: OnMediaClick) -> Option<Msg> {
    match c {
        OnMediaClick::Like => Some(Msg::Like),
        OnMediaClick::Expand => Some(Msg::ToggleInModal),
        OnMediaClick::MarkAsRead => Some(Msg::ToggleMarkAsRead),
        OnMediaClick::Hide => Some(Msg::ToggleHide),
        OnMediaClick::Nothing => None,
    }
}

/// The outcome of handling one message: whether to redraw, the message to
/// handle next, and the effect.
#[derive(Clone, Copy, Debug, PartialEq, Eq, Structural)]
pub struct Step {
    pub redraw: bool,
    pub follow_up: Option<Msg>,
    pub effect: Effect,
}

/// What an article's component keeps: whether it is shown in a dialog, and
/// the state of each of its media.
pub struct ArticleComponent {
    pub in_modal: bool,
    pub media_load_states: Vec<MediaLoadState>,
}

/// The index a message about one media names, if any.
pub open spec fn media_index(msg: Msg) -> Option<usize> {
    match msg {
        Msg::LoadMedia(i) => Some(i),
        Msg::MediaLoaded(i) => Some(i),
        Msg::MediaLoadResponse(MediaLoadResponse::UpdateState(i, _)) => Some(i),
        _ => None,
    }
}

impl ArticleComponent {
    /// A component not in a dialog, with its media in their first states.
    pub fn new(lazy_loading: bool, media: &Vec<MediaQueueInfo>) -> (r: Self)
        ensures
            !r.in_modal,
            r.media_load_states@.len() == media@.len(),
            forall|i: int| 0 <= i < media@.len() ==> r.media_load_states@[i] == initial_state(lazy_loading, #[trigger] media@[i]),
    {
        ArticleComponent { in_modal: false, media_load_states: make_media_load_states(lazy_loading, media) }
    }

    /// Handles `msg`, given what a media click does, and whether the article
    /// is marked as read and hidden.
    pub fn update(&mut self, msg: Msg, on_media_click: OnMediaClick, marked_as_read: bool, hidden: bool) -> (r: Step)
        requires
            media_index(msg) matches Some(i) ==> i < old(self).media_load_states@.len(),
        ensures
            final(self).media_load_states@.len() == old(self).media_load_states@.len(),
            match msg {
                Msg::OnMediaClick => r == (Step { redraw: false, follow_up: media_click_message(on_media_click), effect: Effect::Nothing }),
                Msg::LogData => r == (Step { redraw: false, follow_up: None, effect: Effect::LogData }),
                Msg::LogJsonData => r == (Step { redraw: false, follow_up: None, effect: Effect::LogJsonData }),
                Msg::FetchData => r == (Step { redraw: false, follow_up: None, effect: Effect::FetchData }),
                Msg::Like => r == (Step { redraw: false, follow_up: None, effect: Effect::Like }),
                Msg::Repost => r == (Step { redraw: false, follow_up: None, effect: Effect::Repost }),
                Msg::ToggleMarkAsRead => r == (Step { redraw: true, follow_up: None, effect: Effect::SetMarkedAsRead(!marked_as_read) }),
                Msg::ToggleHide => r == (Step { redraw: true, follow_up: None, effect: Effect::SetHidden(!hidden) }),
                Msg::ToggleInModal => r == (Step { redraw: true, follow_up: None, effect: Effect::Nothing }),
                Msg::LoadMedia(i) => r == (Step { redraw: true, follow_up: None, effect: Effect::LoadMedia(i) }),
                Msg::MediaLoaded(i) => r == (Step { redraw: true, follow_up: None, effect: Effect::MediaLoaded(i) }),
                Msg::MediaLoadResponse(_) => r == (Step { redraw: true, follow_up: None, effect: Effect::Nothing }),
            },
            final(self).in_modal == (if msg is ToggleInModal { !old(self).in_modal } else { old(self).in_modal }),
            final(self).media_load_states@ == match msg {
                Msg::LoadMedia(i) => old(self).media_load_states@.update(i as int, MediaLoadState::Loading),
                Msg::MediaLoaded(i) => old(self).media_load_states@.update(i as int, MediaLoadState::Loaded),
                Msg::MediaLoadResponse(MediaLoadResponse::UpdateState(i, s)) => old(self).media_load_states@.update(i as int, s),
                _ => old(self).media_load_states@,
            },
    {
        let quiet = Step { redraw: false, follow_up: None, effect: Effect::Nothing };
        match msg {
            Msg::OnMediaClick => {
                let follow_up = match on_media_click {
                    OnMediaClick::Like => Some(Msg::Like),
                    OnMediaClick::Expand => Some(Msg::ToggleInModal),
                    OnMediaClick::MarkAsRead => Some(Msg::ToggleMarkAsRead),
                    OnMediaClick::Hide => Some(Msg::ToggleHide),
                    OnMediaClick::Nothing => None,
                };
                Step { follow_up, ..quiet }
            },
            Msg::LogData => Step { effect: Effect::LogData, ..quiet },
            Msg::LogJsonData => Step { effect: Effect::LogJsonData, ..quiet },
            Msg::FetchData => Step { effect: Effect::FetchData, ..quiet },
            Msg::Like => Step { effect: Effect::Like, ..quiet },
            Msg::Repost => Step { effect: Effect::Repost, ..quiet },
            Msg::ToggleMarkAsRead => Step { redraw: true, effect: Effect::SetMarkedAsRead(!marked_as_read), ..quiet },
            Msg::ToggleHide => Step { redraw: true, effect: Effect::SetHidden(!hidden), ..quiet },
            Msg::ToggleInModal => {
                self.in_modal = !self.in_modal;
                Step { redraw: true, ..quiet }
            },
            Msg::LoadMedia(i) => {
                self.media_load_states.set(i, MediaLoadState::Loading);
                Step { redraw: true, effect: Effect::LoadMedia(i), ..quiet }
            },
            Msg::MediaLoaded(i) => {
                self.media_load_states.set(i, MediaLoadState::Loaded);
                Step { redraw: true, effect: Effect::MediaLoaded(i), ..quiet }
            },
            Msg::MediaLoadResponse(MediaLoadResponse::UpdateState(i, s)) => {
                self.media_load_states.set(i, s);
                Step { redraw: true, ..quiet }
            },
        }
    }
}


/// The abbreviation of month `m` (from 0, January).
pub open spec fn month_abbrev(m: u32) -> Seq<char> {
    if m == 0 { "Jan"@ } else if m == 1 { "Feb"@ } else if m == 2 { "Mar"@ } else if m == 3 { "Apr"@ }
    else if m == 4 { "May"@ } else if m == 5 { "Jun"@ } else if m == 6 { "Jul"@ } else if m == 7 { "Aug"@ }
    else if m == 8 { "Sep"@ } else if m == 9 { "Oct"@ } else if m == 10 { "Nov"@ } else { "Dec"@ }
}

fn month_abbrev_of(m: u32) -> (r: &'static str)
    requires
        m < 12,
    ensures
        r@ == month_abbrev(m),
{
    if m == 0 { "Jan" } else if m == 1 { "Feb" } else if m == 2 { "Mar" } else if m == 3 { "Apr" }
    else if m == 4 { "May" } else if m == 5 { "Jun" } else if m == 6 { "Jul" } else if m == 7 { "Aug" }
    else if m == 8 { "Sep" } else if m == 9 { "Oct" } else if m == 10 { "Nov" } else { "Dec" }
}

/// How long ago an article was made, in its timestamp's words: under a second
/// is "just now"; then whole seconds, minutes, hours, and days up to a week;
/// older articles show their month, day and year.
pub open spec fn short_timestamp_spec(since: int, month: u32, day: u32, year: u32) -> Seq<char> {
    if since < 1000 {
        "just now"@
    } else if since < 60_000 {
        decimal_of((since / 1000) as nat) + "s"@
    } else if since < 3_600_000 {
        decimal_of((since / 60_000) as nat) + "m"@
    } else if since < 86_400_000 {
        decimal_of((since / 3_600_000) as nat) + "h"@
    } else if since < 604_800_000 {
        decimal_of((since / 86_400_000) as nat) + "d"@
    } else {
        month_abbrev(month) + " "@ + decimal_of(day as nat) + " "@ + decimal_of(year as nat)
    }
}

/// Under a minute, the timestamp counts the whole seconds `n` that have gone
/// by: `n` seconds is at most the time since, and `n + 1` seconds more than it.
pub proof fn timestamp_counts_whole_seconds(since: int, n: nat, month: u32, day: u32, year: u32)
    requires
        1000 <= since < 60_000,
        n * 1000 <= since < (n + 1) * 1000,
    ensures
        short_timestamp_spec(since, month, day, year) == decimal_of(n) + "s"@,
{
    assert(since / 1000 == n);
}

/// Under an hour, the timestamp counts the whole minutes that have gone by.
pub proof fn timestamp_counts_whole_minutes(since: int, n: nat, month: u32, day: u32, year: u32)
    requires
        60_000 <= since < 3_600_000,
        n * 60_000 <= since < (n + 1) * 60_000,
    ensures
        short_timestamp_spec(since, month, day, year) == decimal_of(n) + "m"@,
{
    assert(since / 60_000 == n);
}

/// Under a day, the timestamp counts the whole hours that have gone by.
pub proof fn timestamp_counts_whole_hours(since: int, n: nat, month: u32, day: u32, year: u32)
    requires
        3_600_000 <= since < 86_400_000,
        n * 3_600_000 <= since < (n + 1) * 3_600_000,
    ensures
        short_timestamp_spec(since, month, day, year) == decimal_of(n) + "h"@,
{
    assert(since / 3_600_000 == n);
}

/// Under a week, the timestamp counts the whole days that have gone by.
pub proof fn timestamp_counts_whole_days(since: int, n: nat, month: u32, day: u32, year: u32)
    requires
        86_400_000 <= since < 604_800_000,
        n * 86_400_000 <= since < (n + 1) * 86_400_000,
    ensures
        short_timestamp_spec(since, month, day, year) == decimal_of(n) + "d"@,
{
    assert(since / 86_400_000 == n);
}

/// The timestamp of an article made at `time` (milliseconds), seen at `now`;
/// `month` (from 0), `day` and `year` are its local date.
pub fn short_timestamp(now: i64, time: i64, month: u32, day: u32, year: u32) -> (r: String)
    requires
        month < 12,
    ensures
        r@ == short_timestamp_spec(now - time, month, day, year),
{
    let since: i128 = now as i128 - time as i128;
    if since < 1000 {
        return String::from_str("just now");
    }
    let (n, unit): (i128, &str) = if since < 60_000 {
        (since / 1000, "s")
    } else if since < 3_600_000 {
        (since / 60_000, "m")
    } else if since < 86_400_000 {
        (since / 3_600_000, "h")
    } else if since < 604_800_000 {
        (since / 86_400_000, "d")
    } else {
        let mut r = String::from_str(month_abbrev_of(month));
        r.append(" ");
        let d = u64_to_decimal(day as u64);
        r.append(d.as_str());
        r.append(" ");
        let y = u64_to_decimal(year as u64);
        r.append(y.as_str());
        return r;
    };
    let mut r = u64_to_decimal(n as u64);
    r.append(unit);
    r
}

}
