use std::collections::HashMap;
use zellij_attention::config::NotificationConfig;
use zellij_attention::host::{Effect, Event, PaneInfo, PaneManifest, PipeMessage, TabInfo};
use zellij_attention::message::MessageError;
use zellij_attention::shared::{Response, State, Step};
use zellij_attention::state::{
    load_state, save_state, NotificationSet, NotificationType, PersistedState,
};

fn config() -> NotificationConfig {
    NotificationConfig {
        enabled: true,
        waiting_icon: "W".to_string(),
        completed_icon: "C".to_string(),
    }
}

fn tab(position: usize, name: &str, active: bool) -> TabInfo {
    TabInfo { position, name: name.to_string(), active, are_floating_panes_visible: false }
}

fn terminal(id: u32, is_focused: bool) -> PaneInfo {
    PaneInfo { id, is_plugin: false, is_focused, is_floating: false }
}

fn manifest(entries: Vec<(usize, Vec<PaneInfo>)>) -> PaneManifest {
    let mut panes = HashMap::new();
    for (position, list) in entries {
        panes.insert(position, list);
    }
    PaneManifest { panes }
}

fn persisted(
    notifications: Vec<(u32, NotificationType)>,
    names: Vec<(usize, &str)>,
) -> PersistedState {
    let mut state = PersistedState::default();
    for (pane, kind) in notifications {
        state.notifications.insert(pane, NotificationSet::only(kind));
    }
    for (position, name) in names {
        state.original_tab_names.insert(position, name.to_string());
    }
    state
}

fn rename(tab: u32, name: &str) -> Step {
    Step::Perform(Effect::RenameTab { tab, name: name.to_string() })
}

fn unblock(pipe: &str) -> Step {
    Step::Perform(Effect::UnblockPipe { pipe: pipe.to_string() })
}

fn two_tabs() -> State {
    let mut state = State::new(config());
    state.tabs = vec![tab(0, "shell", true), tab(1, "build", false)];
    state.panes = manifest(vec![(0, vec![terminal(1, true)]), (1, vec![terminal(2, true)])]);
    state
}

#[test]
fn notification_is_saved_and_read_by_every_instance() {
    let mut sender = two_tabs();
    let name = "zellij-attention::waiting::2";
    let response = sender.pipe(PipeMessage { name: name.to_string(), payload: None });
    assert_eq!(
        response,
        Response {
            render: false,
            steps: vec![
                Step::Save(persisted(vec![(2, NotificationType::Waiting)], vec![])),
                Step::Reload,
                unblock(name),
            ],
        }
    );
    let mut reader = two_tabs();
    let steps = reader.update_tab_names(persisted(vec![(2, NotificationType::Waiting)], vec![]));
    assert_eq!(
        steps,
        vec![
            rename(1, "W build"),
            Step::Save(persisted(vec![(2, NotificationType::Waiting)], vec![(1, "build")])),
        ]
    );
}

#[test]
fn own_name_comes_back_and_icons_do_not_pile_up() {
    let mut state = two_tabs();
    state.tabs[1].name = "W build".to_string();
    let file = persisted(vec![(2, NotificationType::Completed)], vec![(1, "build")]);
    let steps = state.update_tab_names(file);
    assert_eq!(
        steps,
        vec![
            rename(1, "C build"),
            Step::Save(persisted(vec![(2, NotificationType::Completed)], vec![(1, "build")])),
        ]
    );
    let steps = state.update_tab_names(persisted(vec![], vec![(1, "build")]));
    assert_eq!(steps, vec![rename(1, "build"), Step::Save(persisted(vec![], vec![]))]);
}

#[test]
fn several_names_come_back_in_some_order() {
    let mut state = two_tabs();
    let mut steps = state
        .update_tab_names(persisted(vec![], vec![(0, "a"), (1, "b"), (7, "gone")]));
    assert_eq!(steps.pop(), Some(Step::Save(persisted(vec![], vec![]))));
    assert_eq!(steps.len(), 2);
    assert!(steps.contains(&rename(0, "a")));
    assert!(steps.contains(&rename(1, "b")));
    assert!(state.original_tab_names.is_empty());
}

#[test]
fn unnamed_tab_is_remembered_by_its_number() {
    let mut state = two_tabs();
    state.tabs[1].name = String::new();
    let steps = state.update_tab_names(persisted(vec![(2, NotificationType::Waiting)], vec![]));
    assert_eq!(
        steps,
        vec![
            rename(1, "W Tab #2"),
            Step::Save(persisted(vec![(2, NotificationType::Waiting)], vec![(1, "Tab #2")])),
        ]
    );
}

#[test]
fn disabled_instance_reloads_and_does_nothing() {
    let mut state = two_tabs();
    state.config.enabled = false;
    let steps = state.update_tab_names(persisted(vec![(2, NotificationType::Waiting)], vec![(1, "x")]));
    assert_eq!(steps, vec![]);
    assert!(state.notification_state.contains_key(&2));
    assert_eq!(state.original_tab_names.get(&1), Some(&"x".to_string()));
}

#[test]
fn focus_clears_saves_and_updates() {
    let mut state = two_tabs();
    state.load(config(), persisted(
        vec![(1, NotificationType::Waiting), (2, NotificationType::Waiting)],
        vec![],
    ));
    assert_eq!(state.determine_focused_pane(), Some(1));
    let response = state
        .update(Event::TabUpdate(vec![tab(0, "shell", true), tab(1, "build", false)]));
    let kept = persisted(vec![(2, NotificationType::Waiting)], vec![]);
    assert_eq!(
        response,
        Response { render: false, steps: vec![Step::Save(kept), Step::Reload, Step::Reload] }
    );
    assert_eq!(state.check_and_clear_focus(), vec![]);
}

#[test]
fn only_the_first_active_tab_is_looked_at() {
    let mut state = two_tabs();
    state.tabs[1].active = true;
    assert_eq!(state.determine_focused_pane(), Some(1));
    state.tabs[0].active = false;
    assert_eq!(state.determine_focused_pane(), Some(2));
    state.tabs[1].active = false;
    assert_eq!(state.determine_focused_pane(), None);
}

#[test]
fn pane_update_without_focus_only_reloads() {
    let mut state = two_tabs();
    let response = state.update(Event::PaneUpdate(manifest(vec![])));
    assert_eq!(response, Response { render: false, steps: vec![Step::Reload] });
    assert_eq!(state.update(Event::Other), Response { render: false, steps: vec![] });
}

#[test]
fn permission_result_hides_the_instance() {
    let mut state = State::new(config());
    let response = state.update(Event::PermissionRequestResult(true));
    assert!(state.permissions_granted);
    assert_eq!(
        response,
        Response {
            render: true,
            steps: vec![Step::Perform(Effect::SetSelectable(false)), Step::Reload],
        }
    );
}

#[test]
fn plugin_panes_count_here() {
    let mut state = two_tabs();
    let pane = PaneInfo { id: 4, is_plugin: true, is_focused: false, is_floating: false };
    state.panes = manifest(vec![(1, vec![pane])]);
    state.notification_state.insert(4, NotificationSet::only(NotificationType::Completed));
    assert_eq!(state.get_tab_notification_state(1), Some(NotificationType::Completed));
}

#[test]
fn cleanup_removes_closed_panes() {
    let mut state = two_tabs();
    state.load(config(), persisted(
        vec![(2, NotificationType::Waiting), (3, NotificationType::Waiting)],
        vec![(1, "build")],
    ));
    let kept = persisted(vec![(2, NotificationType::Waiting)], vec![(1, "build")]);
    assert_eq!(state.cleanup_stale_panes(), vec![Step::Save(kept), Step::Reload]);
    assert_eq!(state.cleanup_stale_panes(), vec![]);
}

#[test]
fn refused_messages_are_reported() {
    let mut state = two_tabs();
    let name = "zellij-attention::waiting::x";
    assert_eq!(
        state.pipe(PipeMessage { name: name.to_string(), payload: None }).steps,
        vec![
            Step::Perform(Effect::Report(MessageError::InvalidPaneId("x".to_string()))),
            unblock(name),
        ]
    );
    let name = "zellij-attention::other::2";
    assert_eq!(
        state.pipe(PipeMessage { name: name.to_string(), payload: None }).steps,
        vec![Step::Perform(Effect::Report(MessageError::UnknownEvent("other".to_string())))]
    );
    let name = "zellij-attention::other";
    assert_eq!(
        state.pipe(PipeMessage { name: name.to_string(), payload: None }).steps,
        vec![Step::Perform(Effect::Report(MessageError::InvalidFormat)), unblock(name)]
    );
    assert_eq!(
        state.pipe(PipeMessage { name: "else".to_string(), payload: None }).steps,
        vec![]
    );
}

#[test]
fn other_notifications_keep_the_icon() {
    let mut state = two_tabs();
    state.panes = manifest(vec![
        (0, vec![terminal(1, true)]),
        (1, vec![terminal(2, true), terminal(3, false)]),
    ]);
    let file = persisted(vec![(3, NotificationType::Completed)], vec![(1, "build")]);
    assert_eq!(
        state.update_tab_names(file),
        vec![
            rename(1, "C build"),
            Step::Save(persisted(vec![(3, NotificationType::Completed)], vec![(1, "build")])),
        ]
    );
}

#[test]
fn removed_file_clears_everything() {
    let mut state = two_tabs();
    state.notification_state.insert(2, NotificationSet::only(NotificationType::Waiting));
    state.original_tab_names.insert(1, "build".to_string());
    let steps = state.update_tab_names(load_state(None));
    assert_eq!(steps, vec![Step::Save(persisted(vec![], vec![]))]);
    assert!(state.notification_state.is_empty());
    assert!(state.original_tab_names.is_empty());
}

#[test]
fn update_with_the_saved_state_changes_nothing() {
    let mut state = two_tabs();
    let file = persisted(vec![(2, NotificationType::Waiting)], vec![(7, "gone")]);
    let mut steps = state.update_tab_names(file);
    let saved = match steps.pop() {
        Some(Step::Save(saved)) => saved,
        _ => panic!("an update ends with a save"),
    };
    let bytes = save_state(&saved).unwrap();
    let mut again = state.update_tab_names(load_state(Some(bytes)));
    assert_eq!(again.pop(), Some(Step::Save(saved)));
}
