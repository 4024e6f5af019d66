use std::collections::HashMap;
use zellij_attention::config::NotificationConfig;
use zellij_attention::host::{Effect, Event, PaneInfo, PaneManifest, PipeMessage, TabInfo};
use zellij_attention::message::MessageError;
use zellij_attention::plugin::{ExternalRename, Response, State};
use zellij_attention::state::{NotificationSet, NotificationType};

fn config() -> NotificationConfig {
    NotificationConfig {
        enabled: true,
        waiting_icon: "⏳".to_string(),
        completed_icon: "✅".to_string(),
    }
}

fn tab(position: usize, name: &str, active: bool) -> TabInfo {
    TabInfo { position, name: name.to_string(), active, are_floating_panes_visible: false }
}

fn terminal(id: u32, is_focused: bool) -> PaneInfo {
    PaneInfo { id, is_plugin: false, is_focused, is_floating: false }
}

fn plugin_pane(id: u32, is_focused: bool) -> PaneInfo {
    PaneInfo { id, is_plugin: true, is_focused, is_floating: false }
}

fn manifest(entries: Vec<(usize, Vec<PaneInfo>)>) -> PaneManifest {
    let mut panes = HashMap::new();
    for (position, list) in entries {
        panes.insert(position, list);
    }
    PaneManifest { panes }
}

fn message(name: &str) -> PipeMessage {
    PipeMessage { name: name.to_string(), payload: None }
}

fn rename(tab: u32, name: &str) -> Effect {
    Effect::RenameTab { tab, name: name.to_string() }
}

fn unblock(pipe: &str) -> Effect {
    Effect::UnblockPipe { pipe: pipe.to_string() }
}

/// Two tabs; the first is active, its pane 1 has the focus; pane 2 is in the second.
fn two_tabs() -> State {
    let mut state = State::new(config());
    state.update(Event::TabUpdate(vec![tab(0, "shell", true), tab(1, "build", false)]));
    state.update(Event::PaneUpdate(manifest(vec![
        (0, vec![terminal(1, true)]),
        (1, vec![plugin_pane(9, true), terminal(2, true)]),
    ])));
    state
}

fn silent(effects: Vec<Effect>) -> Response {
    Response { render: false, effects }
}

#[test]
fn permission_result_hides_the_plugin_and_strips_old_icons() {
    let mut state = State::new(config());
    state.tabs = vec![tab(3, "old ✅", false)];
    let response = state.update(Event::PermissionRequestResult(true));
    assert!(state.permissions_granted);
    assert_eq!(
        response,
        Response {
            render: true,
            effects: vec![Effect::SetSelectable(false), rename(4, "old")]
        }
    );
    assert!(!state.updating_tabs);
}

#[test]
fn notification_marks_the_tab_and_focus_restores_its_name() {
    let mut state = two_tabs();
    let name = "zellij-attention::waiting::2";
    assert_eq!(
        state.pipe(message(name)),
        silent(vec![unblock(name), rename(2, "build ⏳")])
    );
    // the host reports the new name: nothing more to do
    let response = state
        .update(Event::TabUpdate(vec![tab(0, "shell", true), tab(1, "build ⏳", false)]));
    assert_eq!(response, silent(vec![]));
    // the user goes to the second tab
    let response = state
        .update(Event::TabUpdate(vec![tab(0, "shell", false), tab(1, "build ⏳", true)]));
    assert_eq!(response, silent(vec![rename(2, "build")]));
    assert!(state.notification_state.is_empty());
    assert!(state.pending_strips.contains(&1));
    // the old name bounces once more: no second strip
    let response = state
        .update(Event::TabUpdate(vec![tab(0, "shell", false), tab(1, "build ⏳", true)]));
    assert_eq!(response, silent(vec![]));
}

#[test]
fn latest_notification_replaces_the_one_before() {
    let mut state = two_tabs();
    state.pipe(message("zellij-attention::waiting::2"));
    state.tabs = vec![tab(0, "shell", true), tab(1, "build ⏳", false)];
    let name = "zellij-attention::completed::2";
    assert_eq!(
        state.pipe(message(name)),
        silent(vec![unblock(name), rename(2, "build ✅")])
    );
    assert_eq!(
        state.notification_state.get(&2),
        Some(&NotificationSet::only(NotificationType::Completed))
    );
}

#[test]
fn waiting_comes_before_completed() {
    let mut state = State::new(config());
    state.panes = manifest(vec![(4, vec![terminal(1, false), terminal(2, false)])]);
    state.notification_state.insert(1, NotificationSet::only(NotificationType::Completed));
    assert_eq!(state.get_tab_notification_state(4), Some(NotificationType::Completed));
    state.notification_state.insert(2, NotificationSet::only(NotificationType::Waiting));
    assert_eq!(state.get_tab_notification_state(4), Some(NotificationType::Waiting));
    assert_eq!(state.get_tab_notification_state(5), None);
}

#[test]
fn plugin_panes_do_not_count() {
    let mut state = State::new(config());
    state.tabs = vec![tab(0, "a", true)];
    state.panes = manifest(vec![(0, vec![plugin_pane(1, true)])]);
    state.notification_state.insert(1, NotificationSet::only(NotificationType::Waiting));
    assert_eq!(state.get_tab_notification_state(0), None);
    assert!(!state.check_and_clear_focus());
    assert!(state.clean_stale_notifications());
    assert!(state.notification_state.is_empty());
    assert!(!state.clean_stale_notifications());
}

#[test]
fn focus_of_every_active_tab_is_cleared() {
    let mut state = State::new(config());
    state.tabs = vec![tab(0, "a", true), tab(1, "b", false), tab(2, "c", true)];
    state.panes = manifest(vec![
        (0, vec![terminal(1, true)]),
        (1, vec![terminal(2, true)]),
        (2, vec![terminal(3, true)]),
    ]);
    for id in [1u32, 2, 3] {
        state.notification_state.insert(id, NotificationSet::only(NotificationType::Waiting));
    }
    assert!(state.check_and_clear_focus());
    assert!(!state.notification_state.contains_key(&1));
    assert!(state.notification_state.contains_key(&2));
    assert!(!state.notification_state.contains_key(&3));
    assert!(!state.check_and_clear_focus());
}

#[test]
fn floating_panes_have_the_focus_only_while_they_are_shown() {
    let mut state = State::new(config());
    let floating = PaneInfo { id: 7, is_plugin: false, is_focused: true, is_floating: true };
    state.panes = manifest(vec![(0, vec![terminal(1, true), floating])]);
    state.tabs = vec![tab(0, "a", true)];
    state.notification_state.insert(7, NotificationSet::only(NotificationType::Waiting));
    assert!(!state.check_and_clear_focus());
    state.tabs[0].are_floating_panes_visible = true;
    assert!(state.check_and_clear_focus());
}

#[test]
fn stale_notifications_stay_while_no_panes_are_known() {
    let mut state = State::new(config());
    state.notification_state.insert(7, NotificationSet::only(NotificationType::Waiting));
    assert!(!state.clean_stale_notifications());
    assert!(state.notification_state.contains_key(&7));
    state.panes = manifest(vec![(0, vec![])]);
    assert!(state.clean_stale_notifications());
    assert!(state.notification_state.is_empty());
}

#[test]
fn icons_at_the_end_of_names() {
    let state = State::new(config());
    assert!(state.tab_name_has_icon("a ⏳"));
    assert!(state.tab_name_has_icon("a ✅"));
    assert!(!state.tab_name_has_icon("a⏳"));
    assert!(!state.tab_name_has_icon("⏳ a"));
    assert_eq!(state.strip_icons("a ⏳ ⏳"), "a");
    assert_eq!(state.strip_icons("a ✅ ⏳"), "a");
    assert_eq!(state.strip_icons("a ⏳ ✅"), "a");
    assert_eq!(state.strip_icons("a ✅ ⏳ ⏳ ✅ ✅ ⏳"), "a");
    assert_eq!(state.strip_icons(" ⏳"), "");
    assert_eq!(state.strip_icons("plain"), "plain");
}

#[test]
fn completed_icon_that_ends_like_the_waiting_one_does_not_come_off() {
    let mut state = State::new(config());
    state.load(NotificationConfig {
        enabled: true,
        waiting_icon: "!".to_string(),
        completed_icon: "done !".to_string(),
    });
    assert_eq!(state.strip_icons("a done !"), "a done");
    state.load(NotificationConfig {
        enabled: true,
        waiting_icon: "!".to_string(),
        completed_icon: "! !".to_string(),
    });
    assert_eq!(state.strip_icons("a ! !"), "a");
}

#[test]
fn all_waiting_icons_come_off_before_the_completed_ones() {
    let mut state = State::new(config());
    state.load(NotificationConfig {
        enabled: true,
        waiting_icon: "a x".to_string(),
        completed_icon: "x".to_string(),
    });
    assert_eq!(state.strip_icons("foo a x x"), "foo a");
    assert_eq!(state.strip_icons("foo a x a x"), "foo");
    assert_eq!(state.strip_icons("foo x a x"), "foo");
    assert!(!state.tab_name_has_icon("foo a"));
}

#[test]
fn stale_icons_are_seen_until_a_strip_is_under_way() {
    let mut state = State::new(config());
    state.tabs = vec![tab(5, "a ⏳", false)];
    assert!(state.has_stale_icons());
    assert_eq!(state.update_tab_names(), vec![rename(6, "a")]);
    assert!(!state.has_stale_icons());
    assert_eq!(state.update_tab_names(), vec![]);
    state.tabs = vec![tab(5, "a", false)];
    assert_eq!(state.update_tab_names(), vec![]);
    assert!(state.pending_strips.is_empty());
}

#[test]
fn strips_of_tabs_that_are_gone_are_forgotten() {
    let mut state = State::new(config());
    state.pending_strips.insert(8);
    assert_eq!(state.update_tab_names(), vec![]);
    assert!(state.pending_strips.contains(&8));
    state.tabs = vec![tab(0, "a", false)];
    assert_eq!(state.update_tab_names(), vec![]);
    assert!(state.pending_strips.is_empty());
}

#[test]
fn order_of_the_tabs_does_not_count() {
    let mut state = two_tabs();
    state.tabs = vec![tab(1, "build", false), tab(0, "shell ⏳", true)];
    state.notification_state.insert(2, NotificationSet::only(NotificationType::Completed));
    assert_eq!(
        state.update_tab_names(),
        vec![rename(2, "build ✅"), rename(1, "shell")]
    );
}

#[test]
fn tab_without_a_name_gets_its_number() {
    let mut state = State::new(config());
    state.tabs = vec![tab(11, "", false)];
    state.panes = manifest(vec![(11, vec![terminal(1, false)])]);
    state.notification_state.insert(1, NotificationSet::only(NotificationType::Completed));
    assert_eq!(state.update_tab_names(), vec![rename(12, "Tab #12 ✅")]);
    state.notification_state.clear();
    assert_eq!(state.update_tab_names(), vec![]);
}

#[test]
fn disabled_plugin_renames_nothing() {
    let mut state = two_tabs();
    state.config.enabled = false;
    let name = "zellij-attention::waiting::2";
    assert_eq!(state.pipe(message(name)), silent(vec![unblock(name)]));
    assert!(state.notification_state.contains_key(&2));
}

#[test]
fn refused_messages_unblock_their_sender() {
    let mut state = two_tabs();
    let name = "zellij-attention::nonsense::2";
    assert_eq!(
        state.pipe(message(name)),
        silent(vec![
            Effect::Report(MessageError::UnknownEvent("nonsense".to_string())),
            unblock(name)
        ])
    );
    let name = "zellij-attention::waiting::two";
    assert_eq!(
        state.pipe(message(name)),
        silent(vec![
            Effect::Report(MessageError::InvalidPaneId("two".to_string())),
            unblock(name)
        ])
    );
    let name = "zellij-attention::waiting";
    assert_eq!(
        state.pipe(message(name)),
        silent(vec![Effect::Report(MessageError::InvalidFormat), unblock(name)])
    );
    assert!(state.notification_state.is_empty());
}

#[test]
fn other_messages_and_events_are_not_answered() {
    let mut state = two_tabs();
    assert_eq!(state.pipe(message("waiting::2")), silent(vec![]));
    assert_eq!(state.update(Event::Other), silent(vec![]));
}

#[test]
fn message_in_the_payload_unblocks_the_pipe_by_its_name() {
    let mut state = two_tabs();
    let response = state.pipe(PipeMessage {
        name: "6f1c".to_string(),
        payload: Some("zellij-attention::Waiting::2".to_string()),
    });
    assert_eq!(response, silent(vec![unblock("6f1c"), rename(2, "build ⏳")]));
}

#[test]
fn renames_from_elsewhere_are_detected() {
    let state = two_tabs();
    let found = state.external_renames(&vec![
        tab(0, "shell ⏳", true),
        tab(1, "release", false),
        tab(2, "new", false),
    ]);
    assert_eq!(
        found,
        vec![ExternalRename {
            position: 1,
            old_name: "build".to_string(),
            new_name: "release".to_string(),
            old_base: "build".to_string(),
            new_base: "release".to_string(),
        }]
    );
}

#[test]
fn closed_pane_takes_its_notification_along() {
    let mut state = two_tabs();
    state.pipe(message("zellij-attention::waiting::2"));
    state.tabs[1].name = "build ⏳".to_string();
    let response = state.update(Event::PaneUpdate(manifest(vec![(0, vec![terminal(1, true)])])));
    assert_eq!(response, silent(vec![rename(2, "build")]));
}

#[test]
fn every_notified_tab_gets_its_icon() {
    let mut state = two_tabs();
    state.notification_state.insert(1, NotificationSet::only(NotificationType::Waiting));
    state.notification_state.insert(2, NotificationSet::only(NotificationType::Completed));
    let effects = state.update_tab_names();
    assert_eq!(effects.len(), 2);
    for tab in &mut state.tabs {
        for effect in &effects {
            if let Effect::RenameTab { tab: number, name } = effect {
                if *number as usize == tab.position + 1 {
                    tab.name = name.clone();
                }
            }
        }
    }
    assert!(state.update_tab_names().is_empty());
    assert!(!state.updating_tabs);
}

#[test]
fn second_update_strips_nothing() {
    let mut state = two_tabs();
    let waiting = format!(" {}", state.config.waiting_icon);
    state.tabs[0].name.push_str(&waiting);
    assert_eq!(state.update_tab_names().len(), 1);
    assert!(!state.has_stale_icons());
    assert!(state.update_tab_names().is_empty());
}

#[test]
fn mixed_stale_icons_all_go_on_startup() {
    let mut state = State::new(NotificationConfig {
        enabled: true,
        waiting_icon: "W".to_string(),
        completed_icon: "C".to_string(),
    });
    assert_eq!(state.strip_icons("build W C"), "build");
    state.tabs = vec![tab(0, "build W C", false)];
    let response = state.update(Event::PermissionRequestResult(true));
    assert_eq!(response.effects, vec![Effect::SetSelectable(false), rename(1, "build")]);
    assert_eq!(state.update(Event::TabUpdate(vec![tab(0, "build", false)])), silent(vec![]));
    assert!(!state.has_stale_icons());
}

#[test]
fn repeated_updates_do_nothing() {
    let mut state = two_tabs();
    let tabs = || vec![tab(0, "shell ⏳", true), tab(1, "build", false)];
    assert_eq!(state.update(Event::TabUpdate(tabs())), silent(vec![rename(1, "shell")]));
    let pending = state.pending_strips.clone();
    assert_eq!(state.update(Event::TabUpdate(tabs())), silent(vec![]));
    assert_eq!(state.pending_strips, pending);
    let panes = || manifest(vec![(0, vec![terminal(1, true)])]);
    assert_eq!(state.update(Event::PaneUpdate(panes())), silent(vec![]));
    assert_eq!(state.update(Event::PaneUpdate(panes())), silent(vec![]));
    assert_eq!(state.pending_strips, pending);
}

#[test]
fn names_settle_once_the_renames_are_done() {
    let mut state = two_tabs();
    state.tabs = vec![tab(0, "shell ✅ ⏳ ✅", true), tab(1, "build ⏳ ✅", false)];
    state.notification_state.insert(2, NotificationSet::only(NotificationType::Waiting));
    assert_eq!(state.update_tab_names(), vec![rename(1, "shell"), rename(2, "build ⏳")]);
    state.tabs = vec![tab(0, "shell", true), tab(1, "build ⏳", false)];
    assert_eq!(state.update_tab_names(), vec![]);
    assert!(state.pending_strips.is_empty());
}
