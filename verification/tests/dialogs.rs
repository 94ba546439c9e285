use soshalthing_yew::add_timeline::{AddTimelineEffect, AddTimelineModal, AddTimelineMsg, TimelineAgentResponse};
use soshalthing_yew::article_actions::Action;
use soshalthing_yew::batch_action::{BatchActionModal, BatchActionMsg};
use soshalthing_yew::components::{is_compact, toggle_compact, toggle_expanded, ArticleView, IconSize, IconType};
use soshalthing_yew::endpoints::TimelineEndpointWrapper;
use soshalthing_yew::filters::{FilterChange, FilterCollection, FilterInstance};

#[test]
fn add_timeline_dialog() {
    let mut defaults = FilterCollection::new();
    defaults.insert(FilterInstance { filter: 1, enabled: true, inverted: false });
    let mut d = AddTimelineModal::new(defaults);
    assert_eq!(d.filters.instances, vec![FilterInstance { filter: 1, enabled: true, inverted: false }]);
    let (redraw, _) = d.update(AddTimelineMsg::ChangeFilter(FilterChange::Add(2, true)));
    assert!(redraw);
    d.update(AddTimelineMsg::ChangeFilter(FilterChange::ToggleEnabled(FilterInstance { filter: 1, enabled: true, inverted: false })));
    let (redraw, e) = d.update(AddTimelineMsg::AgentResponse(TimelineAgentResponse::AddTimeline));
    assert!(!redraw);
    assert!(matches!(e, AddTimelineEffect::Enable));
    d.update(AddTimelineMsg::SetEnabled(true));
    d.endpoints.push(TimelineEndpointWrapper::new_both(3));
    d.update(AddTimelineMsg::ToggleSetMainTimeline);
    let (redraw, e) = d.update(AddTimelineMsg::AddTimeline(None));
    assert!(redraw);
    match e {
        AddTimelineEffect::Add(t) => {
            assert_eq!(t.name, "Timeline");
            assert_eq!(t.endpoints, vec![TimelineEndpointWrapper::new_both(3)]);
            assert!(t.set_as_main_timeline);
            assert_eq!(t.filters.instances.len(), 2);
            assert!(t.filters.instances.contains(&FilterInstance { filter: 2, enabled: true, inverted: true }));
            assert!(t.filters.instances.contains(&FilterInstance { filter: 1, enabled: false, inverted: false }));
        }
        _ => panic!("expected a new timeline"),
    }
    assert!(!d.enabled);
    assert!(d.endpoints.is_empty());
    let (_, e) = d.update(AddTimelineMsg::AgentResponse(TimelineAgentResponse::AddUserTimeline("Twitter".to_string(), "amy".to_string())));
    assert!(matches!(e, AddTimelineEffect::SetTitle(t) if t == "amy"));
    assert!(d.enabled);
    assert_eq!(d.filters.instances, vec![FilterInstance { filter: 1, enabled: true, inverted: false }]);
    let (_, e) = d.update(AddTimelineMsg::AddTimeline(Some("Mine".to_string())));
    assert!(matches!(e, AddTimelineEffect::Add(t) if t.name == "Mine"));
}

#[test]
fn batch_action_dialog() {
    let mut d = BatchActionModal::new();
    assert_eq!(d.action, Action::MarkAsRead);
    let ids = vec![10, 20, 30];
    assert_eq!(d.update(BatchActionMsg::SetEnabled(true), &ids), None);
    assert_eq!(d.update(BatchActionMsg::Apply, &ids), Some((Action::MarkAsRead, vec![])));
    assert!(!d.enabled);
    d.update(BatchActionMsg::SetAction(Action::Hide), &ids);
    d.update(BatchActionMsg::SetTimeline(Some(1)), &ids);
    assert_eq!(d.update(BatchActionMsg::Apply, &ids), Some((Action::Hide, vec![20])));
}

#[test]
fn component_classes() {
    assert_eq!(IconType::Brand.class(), "fab");
    assert_eq!(IconSize::X10.class(), "fa-10x");
    assert_eq!(IconSize::ExtraSmall.class(), "fa-xs");
    assert_eq!(ArticleView::Gallery.name(), "Gallery");
    assert!(is_compact(None, true));
    assert!(!is_compact(Some(false), true));
    assert_eq!(toggle_compact(None, true), Some(false));
    assert_eq!(toggle_compact(Some(false), true), Some(true));
    assert_eq!(toggle_expanded(false, true), (true, Some(true)));
    assert_eq!(toggle_expanded(true, false), (false, None));
}
