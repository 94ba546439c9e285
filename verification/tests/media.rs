use soshalthing_yew::articles::{make_media_load_states, media_to_queue, short_timestamp, ArticleComponent, Effect, MediaQueueInfo, Msg};
use soshalthing_yew::media_load::{MediaLoadAgent, MediaLoadState, Request, Response, MAX_LOADING};
use soshalthing_yew::settings::OnMediaClick;

fn sorted(mut v: Vec<(u64, Response)>) -> Vec<(u64, Response)> {
    v.sort_by_key(|(id, _)| *id);
    v
}

#[test]
fn queued_media_loads_while_there_is_room() {
    let mut agent = MediaLoadAgent::new();
    let out = agent.handle_input(Request::QueueMedia("a".to_string(), 0), 1);
    assert_eq!(out, vec![(1, Response::UpdateState(0, MediaLoadState::Loading))]);
    assert_eq!(agent.loading_count(), 1);
    assert_eq!(agent.queue_len(), 0);
}

#[test]
fn queue_waits_at_the_limit_and_moves_on_when_loaded() {
    let mut agent = MediaLoadAgent::new();
    for i in 0..MAX_LOADING {
        agent.handle_input(Request::QueueMedia("a".to_string(), i), 1);
    }
    assert_eq!(agent.loading_count(), MAX_LOADING);
    let out = agent.handle_input(Request::QueueMedia("b".to_string(), 0), 2);
    assert!(out.is_empty());
    assert_eq!(agent.queue_len(), 1);
    let out = agent.handle_input(Request::QueueMedia("b".to_string(), 0), 3);
    assert!(out.is_empty());
    assert_eq!(agent.queue_len(), 1);
    let out = agent.handle_input(Request::MediaLoaded("a".to_string(), 0), 1);
    assert_eq!(
        sorted(out),
        vec![
            (1, Response::UpdateState(0, MediaLoadState::Loading)),
            (2, Response::UpdateState(0, MediaLoadState::Loading)),
            (3, Response::UpdateState(0, MediaLoadState::Loading)),
        ]
    );
    assert_eq!(agent.queue_len(), 0);
    assert_eq!(agent.loading_count(), MAX_LOADING);
}

#[test]
fn loaded_media_tells_the_others() {
    let mut agent = MediaLoadAgent::new();
    agent.handle_input(Request::LoadMedia("x".to_string(), 2), 1);
    agent.handle_input(Request::LoadMedia("x".to_string(), 2), 2);
    let out = agent.handle_input(Request::MediaLoaded("x".to_string(), 2), 1);
    assert_eq!(out, vec![(2, Response::UpdateState(2, MediaLoadState::Loaded))]);
    assert_eq!(agent.loading_count(), 0);
}

#[test]
fn disconnected_component_leaves_its_entries() {
    let mut agent = MediaLoadAgent::new();
    agent.handle_input(Request::LoadMedia("x".to_string(), 0), 1);
    agent.disconnected(1);
    assert_eq!(agent.loading_count(), 0);
}

#[test]
fn media_states_start_as_their_queue_says() {
    let media = vec![MediaQueueInfo::DirectLoad, MediaQueueInfo::LazyLoad { loaded: true }, MediaQueueInfo::LazyLoad { loaded: false }, MediaQueueInfo::Thumbnail];
    assert_eq!(make_media_load_states(false, &media), vec![MediaLoadState::Loaded; 4]);
    assert_eq!(
        make_media_load_states(true, &media),
        vec![MediaLoadState::NotLoaded, MediaLoadState::Loaded, MediaLoadState::NotLoaded, MediaLoadState::NotLoaded]
    );
    assert_eq!(media_to_queue(&media), vec![1, 2]);
}

#[test]
fn media_click_follows_the_setting() {
    let mut c = ArticleComponent::new(true, &vec![MediaQueueInfo::LazyLoad { loaded: false }]);
    let s = c.update(Msg::OnMediaClick, OnMediaClick::MarkAsRead, false, false);
    assert_eq!(s.follow_up, Some(Msg::ToggleMarkAsRead));
    assert!(!s.redraw);
    let s = c.update(Msg::ToggleMarkAsRead, OnMediaClick::MarkAsRead, false, false);
    assert_eq!(s.effect, Effect::SetMarkedAsRead(true));
    let s = c.update(Msg::ToggleHide, OnMediaClick::MarkAsRead, false, true);
    assert_eq!(s.effect, Effect::SetHidden(false));
    let s = c.update(Msg::OnMediaClick, OnMediaClick::Nothing, false, false);
    assert_eq!(s.follow_up, None);
    let s = c.update(Msg::OnMediaClick, OnMediaClick::Expand, false, false);
    assert_eq!(s.follow_up, Some(Msg::ToggleInModal));
}

#[test]
fn media_messages_set_the_media_state() {
    let mut c = ArticleComponent::new(true, &vec![MediaQueueInfo::LazyLoad { loaded: false }, MediaQueueInfo::DirectLoad]);
    let s = c.update(Msg::LoadMedia(1), OnMediaClick::Nothing, false, false);
    assert_eq!(s.effect, Effect::LoadMedia(1));
    assert_eq!(c.media_load_states, vec![MediaLoadState::NotLoaded, MediaLoadState::Loading]);
    c.update(Msg::MediaLoaded(1), OnMediaClick::Nothing, false, false);
    c.update(Msg::MediaLoadResponse(Response::UpdateState(0, MediaLoadState::Loading)), OnMediaClick::Nothing, false, false);
    assert_eq!(c.media_load_states, vec![MediaLoadState::Loading, MediaLoadState::Loaded]);
    assert!(!c.in_modal);
    c.update(Msg::ToggleInModal, OnMediaClick::Nothing, false, false);
    assert!(c.in_modal);
}

#[test]
fn timestamps() {
    let now = 1_700_000_000_000i64;
    assert_eq!(short_timestamp(now, now - 999, 0, 1, 2020), "just now");
    assert_eq!(short_timestamp(now, now + 5000, 0, 1, 2020), "just now");
    assert_eq!(short_timestamp(now, now - 59_999, 0, 1, 2020), "59s");
    assert_eq!(short_timestamp(now, now - 60_000, 0, 1, 2020), "1m");
    assert_eq!(short_timestamp(now, now - 3_600_000 * 5, 0, 1, 2020), "5h");
    assert_eq!(short_timestamp(now, now - 86_400_000 * 6 - 1, 0, 1, 2020), "6d");
    assert_eq!(short_timestamp(now, now - 604_800_000, 11, 25, 2021), "Dec 25 2021");
}
