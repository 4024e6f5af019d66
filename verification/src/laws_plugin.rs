//! What the plugin that keeps icons behind tab names does with each tab, event and message, said of
//! what it knew before and of what it asks for.

use vstd::prelude::*;

use crate::config::ConfigView;
use crate::host;
use crate::host::{EffectView, EventView, PaneInfo, TabView};
use crate::laws;
use crate::message::{MessageErrorView, MessageView};
use crate::plugin;
use crate::plugin::{ExternalRenameView, ResponseView, StateView};
use crate::state::{NotificationSet, NotificationType};
use crate::text;

verus! {

// Icons and names

/// A name carries an icon if it ends with a space and one of the two icons.
pub proof fn law_icon_stands_behind_a_space(config: ConfigView, name: Seq<char>)
    ensures
        plugin::has_icon(config, name) <==> (seq![' '] + config.waiting_icon).is_suffix_of(name)
            || (seq![' '] + config.completed_icon).is_suffix_of(name),
{
}

/// Each kind of notification has the icon that is configured for it.
pub proof fn law_icon_of_each_kind(config: ConfigView)
    ensures
        config.icon(NotificationType::Waiting) == config.waiting_icon,
        config.icon(NotificationType::Completed) == config.completed_icon,
{
}

/// Stripping, from the end of the name: a waiting icon does not count; where no waiting icon is
/// at the end, all the completed icons there do not count; a name that ends with neither stays.
pub proof fn law_stripping_from_the_end(
    config: ConfigView,
    name: Seq<char>,
    copies: Seq<char>,
)
    ensures
        plugin::stripped(config, name + seq![' '] + config.waiting_icon) == plugin::stripped(
            config,
            name,
        ),
        laws::made_of(copies, seq![' '] + config.completed_icon) && !(seq![' ']
            + config.completed_icon).is_suffix_of(name) && !(seq![' ']
            + config.waiting_icon).is_suffix_of(name + copies) ==> plugin::stripped(
            config,
            name + copies,
        ) == plugin::stripped(config, name),
        !(seq![' '] + config.waiting_icon).is_suffix_of(name) && !(seq![' ']
            + config.completed_icon).is_suffix_of(name) ==> plugin::stripped(config, name) == name,
{
    let waiting = seq![' '] + config.waiting_icon;
    let completed = seq![' '] + config.completed_icon;
    assert(waiting == plugin::icon_suffix(config.waiting_icon));
    assert(completed == plugin::icon_suffix(config.completed_icon));
    let longer = name + seq![' '] + config.waiting_icon;
    assert(longer =~= name + waiting);
    assert(waiting =~= longer.subrange(name.len() as int, longer.len() as int));
    laws::law_trimmed(name, waiting);
    assert(plugin::stripped_once(config, longer) == plugin::stripped_once(config, name));
    if !plugin::has_icon(config, name) {
        laws::law_stripping(config, name);
        plugin::lemma_stripped_once_len(config, name);
        laws::law_trimmed(name, completed);
        assert(plugin::stripped_once(config, name) == name);
    }
    if laws::made_of(copies, completed) && !completed.is_suffix_of(name)
        && !waiting.is_suffix_of(name + copies) {
        laws::lemma_trimmed_copies(name, copies, completed);
        laws::law_trimmed(name, completed);
        assert(plugin::stripped_once(config, name + copies) == name);
        if copies.len() == 0 {
            assert(name + copies =~= name);
        } else {
            let whole = name + copies;
            assert(completed =~= whole.subrange(whole.len() - completed.len(), whole.len() as int));
            assert(plugin::has_icon(config, whole));
        }
    }
}

/// The name of a tab apart from icons is its name without them; of a tab without a name it is the
/// word Tab and its number, counted from one.
pub proof fn law_base_name(config: ConfigView, tab: TabView)
    ensures
        plugin::base_name(config, tab) == if tab.name.len() == 0 {
            "Tab #"@ + text::decimal((tab.position + 1) as nat)
        } else {
            plugin::stripped(config, tab.name)
        },
{
}

/// A tab is stale if it carries an icon, shows no notification, and no strip is under way at its
/// position.
pub proof fn law_stale_icons(state: StateView)
    ensures
        state.any_stale() <==> exists|i: int|
            0 <= i < state.tabs.len() && state.kind_at((#[trigger] state.tabs[i]).position) is None
                && !state.pending_strips.contains(state.tabs[i].position) && ((seq![' ']
                + state.config.waiting_icon).is_suffix_of(state.tabs[i].name) || (seq![' ']
                + state.config.completed_icon).is_suffix_of(state.tabs[i].name)),
{
    if state.any_stale() {
        let i = choose|i: int|
            0 <= i < state.tabs.len() && state.is_stale(#[trigger] state.tabs[i]);
        assert(state.kind_at(state.tabs[i].position) is None);
    }
    assert forall|i: int|
        0 <= i < state.tabs.len() && state.kind_at((#[trigger] state.tabs[i]).position) is None
            && !state.pending_strips.contains(state.tabs[i].position) && plugin::has_icon(
            state.config,
            state.tabs[i].name,
        ) implies state.any_stale() by {
        assert(state.is_stale(state.tabs[i]));
    }
}

// Tab names

/// A plugin that is disabled, or in the middle of an update, asks for nothing and changes nothing;
/// one without tabs neither.
pub proof fn law_nothing_to_update(state: StateView)
    requires
        !state.config.enabled || state.updating_tabs || state.tabs.len() == 0,
    ensures
        state.renames() == Seq::<EffectView>::empty(),
        state.names_updated() == state,
{
}

/// An update changes nothing but the strips that are under way.
pub proof fn law_update_changes_strips_only(state: StateView)
    ensures
        state.names_updated() == (StateView {
            pending_strips: state.names_updated().pending_strips,
            ..state
        }),
{
}

/// What one more tab behind the others adds to an update. If the tab shows a notification it is to
/// be called by its name apart from icons, a space and the icon of the notification, and that is
/// asked for unless it is its name already. If it shows none but carries an icon, its name apart
/// from icons is asked for unless that strip is under way. Nothing else is asked for, and the tabs
/// before it get what they get without it. Afterwards a strip is under way at its position exactly
/// if it carries an icon without a notification.
pub proof fn law_one_more_tab(state: StateView, tab: TabView)
    requires
        state.config.enabled,
        !state.updating_tabs,
    ensures
        ({
            let more = StateView { tabs: state.tabs.push(tab), ..state };
            let base = if tab.name.len() == 0 {
                "Tab #"@ + text::decimal((tab.position + 1) as nat)
            } else {
                plugin::stripped(state.config, tab.name)
            };
            let waiting_name = base + seq![' '] + state.config.waiting_icon;
            let completed_name = base + seq![' '] + state.config.completed_icon;
            let carries_icon = (seq![' '] + state.config.waiting_icon).is_suffix_of(tab.name) || (
            seq![' '] + state.config.completed_icon).is_suffix_of(tab.name);
            let shares_position = exists|i: int|
                0 <= i < state.tabs.len() && (#[trigger] state.tabs[i]).position == tab.position;
            let under_way = if shares_position {
                state.names_updated().pending_strips.contains(tab.position)
            } else {
                state.pending_strips.contains(tab.position)
            };
            let number = (tab.position + 1) as u32;
            let added: Seq<EffectView> = match state.kind_at(tab.position) {
                Some(NotificationType::Waiting) => if tab.name == waiting_name {
                    seq![]
                } else {
                    seq![EffectView::RenameTab { tab: number, name: waiting_name }]
                },
                Some(NotificationType::Completed) => if tab.name == completed_name {
                    seq![]
                } else {
                    seq![EffectView::RenameTab { tab: number, name: completed_name }]
                },
                None => if carries_icon && !under_way {
                    seq![EffectView::RenameTab { tab: number, name: base }]
                } else {
                    seq![]
                },
            };
            &&& more.renames() == state.renames() + added
            &&& more.names_updated().pending_strips.contains(tab.position) <==> carries_icon
                && state.kind_at(tab.position) is None
            &&& forall|position: usize|
                position != tab.position ==> (#[trigger] more.names_updated().pending_strips.contains(
                    position,
                ) <==> state.names_updated().pending_strips.contains(position) && exists|i: int|
                    0 <= i < state.tabs.len() && (#[trigger] state.tabs[i]).position == position)
        }),
{
    let more = StateView { tabs: state.tabs.push(tab), ..state };
    let n = state.tabs.len() as int;
    laws::law_stripping(state.config, tab.name);
    lemma_swept_prefix(state, more, n);
    assert(more.tabs[n] == tab);
    assert(more.kind_at(tab.position) == state.kind_at(tab.position));
    let before = state.swept(n);
    let step = more.named(tab, before.0);
    assert(more.swept(n + 1) == (step.0, before.1 + step.1));
    assert forall|position: usize| host::is_position(more.tabs, position) <==> position
        == tab.position || host::is_position(state.tabs, position) by {
        if host::is_position(state.tabs, position) {
            let i = choose|i: int|
                0 <= i < state.tabs.len() && (#[trigger] state.tabs[i]).position == position;
            assert(more.tabs[i].position == position);
        }
        if host::is_position(more.tabs, position) {
            let i = choose|i: int|
                0 <= i < more.tabs.len() && (#[trigger] more.tabs[i]).position == position;
            if i < n {
                assert(state.tabs[i].position == position);
            }
        }
    }
    lemma_untouched(state, n, tab.position);
    assert(host::is_position(more.tabs, tab.position));
    assert(seq![' '] + state.config.waiting_icon == plugin::icon_suffix(state.config.waiting_icon));
    assert(before.0.contains(tab.position) == if host::is_position(state.tabs, tab.position) {
        state.names_updated().pending_strips.contains(tab.position)
    } else {
        state.pending_strips.contains(tab.position)
    });
    assert forall|position: usize| position != tab.position implies (
    #[trigger] more.names_updated().pending_strips.contains(position)
        <==> state.names_updated().pending_strips.contains(position) && exists|i: int|
        0 <= i < state.tabs.len() && (#[trigger] state.tabs[i]).position == position) by {
        assert(step.0.contains(position) == before.0.contains(position));
        assert(host::is_position(more.tabs, position) <==> host::is_position(
            state.tabs,
            position,
        ));
    }
}

proof fn lemma_swept_prefix(state: StateView, more: StateView, n: int)
    requires
        0 <= n <= state.tabs.len() <= more.tabs.len(),
        more == (StateView { tabs: more.tabs, ..state }),
        forall|i: int| 0 <= i < state.tabs.len() ==> #[trigger] more.tabs[i] == state.tabs[i],
    ensures
        more.swept(n) == state.swept(n),
    decreases n,
{
    if n > 0 {
        lemma_swept_prefix(state, more, n - 1);
        assert(more.tabs[n - 1] == state.tabs[n - 1]);
        assert(more.kind_at(state.tabs[n - 1].position) == state.kind_at(
            state.tabs[n - 1].position,
        ));
    }
}

proof fn lemma_untouched(state: StateView, n: int, position: usize)
    requires
        0 <= n <= state.tabs.len(),
    ensures
        !host::is_position(state.tabs, position) ==> state.swept(n).0.contains(position)
            == state.pending_strips.contains(position),
    decreases n,
{
    if n > 0 {
        lemma_untouched(state, n - 1, position);
        assert(state.tabs[n - 1].position == position ==> host::is_position(state.tabs, position));
    }
}

/// Every tab gets its name, whatever else is known: one that shows a notification is called by its
/// name apart from icons and the icon, or asked to be. One that shows none but carries an icon is
/// asked to be called by its name apart from icons, unless that strip is under way or another tab
/// stands at its position.
pub proof fn law_every_tab_gets_its_name(state: StateView, i: int)
    requires
        state.config.enabled,
        !state.updating_tabs,
        0 <= i < state.tabs.len(),
    ensures
        ({
            let tab = state.tabs[i];
            let base = if tab.name.len() == 0 {
                "Tab #"@ + text::decimal((tab.position + 1) as nat)
            } else {
                plugin::stripped(state.config, tab.name)
            };
            let number = (tab.position + 1) as u32;
            let asks = |name: Seq<char>|
                state.renames().contains(EffectView::RenameTab { tab: number, name });
            match state.kind_at(tab.position) {
                Some(NotificationType::Waiting) => {
                    let name = base + seq![' '] + state.config.waiting_icon;
                    tab.name == name || asks(name)
                },
                Some(NotificationType::Completed) => {
                    let name = base + seq![' '] + state.config.completed_icon;
                    tab.name == name || asks(name)
                },
                None => (forall|j: int|
                    0 <= j < state.tabs.len() && j != i ==> (#[trigger] state.tabs[j]).position
                        != tab.position) && !state.pending_strips.contains(tab.position) && ((
                seq![' '] + state.config.waiting_icon).is_suffix_of(tab.name) || (seq![' ']
                    + state.config.completed_icon).is_suffix_of(tab.name)) ==> asks(base),
            }
        }),
{
    let tab = state.tabs[i];
    if state.kind_at(tab.position) is Some {
        laws::law_icon_is_present(state, i);
    } else if (forall|j: int|
        0 <= j < state.tabs.len() && j != i ==> (#[trigger] state.tabs[j]).position
            != tab.position) && !state.pending_strips.contains(tab.position)
        && plugin::has_icon(state.config, tab.name) {
        lemma_untouched_before(state, i, i);
        laws::law_stripping(state.config, tab.name);
        let effect = plugin::rename(tab.position, plugin::stripped(state.config, tab.name));
        let before = state.swept(i);
        let step = state.named(tab, before.0);
        assert(step.1[0] == effect);
        laws::lemma_concat_contains(before.1, step.1, effect);
        laws::lemma_swept_keeps(state, i + 1, state.tabs.len() as int, effect);
    }
}

proof fn lemma_untouched_before(state: StateView, n: int, i: int)
    requires
        0 <= n <= i < state.tabs.len(),
        forall|j: int|
            0 <= j < state.tabs.len() && j != i ==> (#[trigger] state.tabs[j]).position
                != state.tabs[i].position,
    ensures
        state.swept(n).0.contains(state.tabs[i].position) == state.pending_strips.contains(
            state.tabs[i].position,
        ),
    decreases n,
{
    if n > 0 {
        lemma_untouched_before(state, n - 1, i);
        assert(state.tabs[n - 1].position != state.tabs[i].position);
    }
}

/// Every rename that is asked for is one of a tab: to its name apart from icons and the icon of
/// the notification that it shows, or, if it shows none, to its name apart from icons.
pub proof fn law_renames_have_a_reason(state: StateView, k: int)
    requires
        0 <= k < state.renames().len(),
    ensures
        state.config.enabled,
        !state.updating_tabs,
        exists|i: int|
            0 <= i < state.tabs.len() && state.renames()[k] == (EffectView::RenameTab {
                tab: ((#[trigger] state.tabs[i]).position + 1) as u32,
                name: match state.kind_at(state.tabs[i].position) {
                    Some(NotificationType::Waiting) => plugin::base_name(
                        state.config,
                        state.tabs[i],
                    ) + seq![' '] + state.config.waiting_icon,
                    Some(NotificationType::Completed) => plugin::base_name(
                        state.config,
                        state.tabs[i],
                    ) + seq![' '] + state.config.completed_icon,
                    None => plugin::base_name(state.config, state.tabs[i]),
                },
            }),
{
    lemma_reason(state, state.tabs.len() as int, k);
}

proof fn lemma_reason(state: StateView, n: int, k: int)
    requires
        0 <= n <= state.tabs.len(),
        0 <= k < state.swept(n).1.len(),
    ensures
        exists|i: int|
            0 <= i < n && state.swept(n).1[k] == (EffectView::RenameTab {
                tab: ((#[trigger] state.tabs[i]).position + 1) as u32,
                name: match state.kind_at(state.tabs[i].position) {
                    Some(NotificationType::Waiting) => plugin::base_name(
                        state.config,
                        state.tabs[i],
                    ) + seq![' '] + state.config.waiting_icon,
                    Some(NotificationType::Completed) => plugin::base_name(
                        state.config,
                        state.tabs[i],
                    ) + seq![' '] + state.config.completed_icon,
                    None => plugin::base_name(state.config, state.tabs[i]),
                },
            }),
    decreases n,
{
    let before = state.swept(n - 1);
    if k < before.1.len() {
        lemma_reason(state, n - 1, k);
        assert(state.swept(n).1[k] == before.1[k]);
    } else {
        let tab = state.tabs[n - 1];
        assert(state.swept(n).1[k] == state.named(tab, before.0).1[k - before.1.len()]);
        assert(state.tabs[n - 1] == tab);
    }
}

// Events

/// The answer to the permissions: the plugin cannot be selected, then its tabs are renamed, and
/// it wants to be drawn. Only the permissions and the strips under way change.
pub proof fn law_permissions(state: StateView, granted: bool)
    ensures
        ({
            let told = StateView { permissions_granted: granted, ..state };
            let next = state.after_event(EventView::PermissionRequestResult(granted));
            &&& next.0 == told.names_updated()
            &&& next.0.permissions_granted == granted
            &&& next.0.tabs == state.tabs
            &&& next.0.panes == state.panes
            &&& next.0.notification_state == state.notification_state
            &&& next.1.render
            &&& next.1.effects == seq![EffectView::SetSelectable(false)] + told.renames()
        }),
{
}

/// A change of the tabs replaces the tabs, clears what clients look at and what has no terminal,
/// and updates the names exactly if that took a notification away or a tab carries an icon without
/// a notification and without a strip under way.
pub proof fn law_tab_update(state: StateView, tabs: Seq<TabView>)
    ensures
        ({
            let next = state.after_event(EventView::TabUpdate(tabs));
            let told = StateView { tabs, ..state };
            let cleared = StateView {
                notification_state: told.focus_cleared().stale_cleaned().notification_state,
                ..told
            };
            let carries_icon = |name: Seq<char>|
                (seq![' '] + state.config.waiting_icon).is_suffix_of(name) || (seq![' ']
                    + state.config.completed_icon).is_suffix_of(name);
            let reason = cleared.notification_state != state.notification_state || exists|i: int|
                0 <= i < tabs.len() && cleared.kind_at((#[trigger] tabs[i]).position) is None
                    && !state.pending_strips.contains(tabs[i].position) && carries_icon(
                    tabs[i].name,
                );
            &&& next.0.tabs == tabs
            &&& next.0.notification_state == cleared.notification_state
            &&& next.0 == if reason {
                cleared.names_updated()
            } else {
                cleared
            }
            &&& !next.1.render
            &&& next.1.effects == if reason {
                cleared.renames()
            } else {
                Seq::<EffectView>::empty()
            }
        }),
{
    let told = StateView { tabs, ..state };
    lemma_reaction(told);
}

/// A change of the panes replaces the panes, clears what clients look at and what has no terminal,
/// and updates the names exactly if that took a notification away or a tab carries an icon without
/// a notification and without a strip under way.
pub proof fn law_pane_update(state: StateView, panes: Map<usize, Seq<PaneInfo>>)
    ensures
        ({
            let next = state.after_event(EventView::PaneUpdate(panes));
            let told = StateView { panes, ..state };
            let cleared = StateView {
                notification_state: told.focus_cleared().stale_cleaned().notification_state,
                ..told
            };
            let tabs = state.tabs;
            let carries_icon = |name: Seq<char>|
                (seq![' '] + state.config.waiting_icon).is_suffix_of(name) || (seq![' ']
                    + state.config.completed_icon).is_suffix_of(name);
            let reason = cleared.notification_state != state.notification_state || exists|i: int|
                0 <= i < tabs.len() && cleared.kind_at((#[trigger] tabs[i]).position) is None
                    && !state.pending_strips.contains(tabs[i].position) && carries_icon(
                    tabs[i].name,
                );
            &&& next.0.panes == panes
            &&& next.0.notification_state == cleared.notification_state
            &&& next.0 == if reason {
                cleared.names_updated()
            } else {
                cleared
            }
            &&& !next.1.render
            &&& next.1.effects == if reason {
                cleared.renames()
            } else {
                Seq::<EffectView>::empty()
            }
        }),
{
    let told = StateView { panes, ..state };
    lemma_reaction(told);
}

proof fn lemma_reaction(told: StateView)
    ensures
        ({
            let cleared = StateView {
                notification_state: told.focus_cleared().stale_cleaned().notification_state,
                ..told
            };
            let carries_icon = |name: Seq<char>|
                (seq![' '] + told.config.waiting_icon).is_suffix_of(name) || (seq![' ']
                    + told.config.completed_icon).is_suffix_of(name);
            let reason = cleared.notification_state != told.notification_state || exists|i: int|
                0 <= i < told.tabs.len() && cleared.kind_at((#[trigger] told.tabs[i]).position)
                    is None && !told.pending_strips.contains(told.tabs[i].position)
                    && carries_icon(told.tabs[i].name);
            &&& told.settled() == cleared
            &&& told.needs_update() == reason
        }),
{
    let cleared = StateView {
        notification_state: told.focus_cleared().stale_cleaned().notification_state,
        ..told
    };
    assert(told.settled() == cleared);
    let first = told.focus_cleared().notification_state;
    if cleared.notification_state == told.notification_state {
        assert(first =~= told.notification_state) by {
            assert forall|pane: u32| told.notification_state.contains_key(pane) implies first.contains_key(
                pane,
            ) by {
                assert(cleared.notification_state.contains_key(pane));
            }
        }
    }
    if cleared.any_stale() {
        let i = choose|i: int|
            0 <= i < cleared.tabs.len() && cleared.is_stale(#[trigger] cleared.tabs[i]);
        assert(cleared.kind_at(told.tabs[i].position) is None);
    }
    assert forall|i: int|
        0 <= i < told.tabs.len() && cleared.kind_at((#[trigger] told.tabs[i]).position) is None
            && !told.pending_strips.contains(told.tabs[i].position) && plugin::has_icon(
            told.config,
            told.tabs[i].name,
        ) implies cleared.any_stale() by {
        assert(cleared.is_stale(cleared.tabs[i]));
    }
}

/// Any other event is not answered and changes nothing.
pub proof fn law_other_events(state: StateView)
    ensures
        state.after_event(EventView::Other) == (
            state,
            ResponseView { render: false, effects: seq![] },
        ),
{
}

// Messages

/// A message that notifies leaves its pane with exactly that notification and every other pane
/// with what it had, and everything else as it was but for the strips under way. The sender is
/// unblocked, and then the tabs are renamed for the new notifications.
pub proof fn law_message_sets_its_pane(
    state: StateView,
    pipe: Seq<char>,
    pane: u32,
    kind: NotificationType,
    other: u32,
)
    ensures
        ({
            let next = state.after_message(pipe, MessageView::Notify { pane, kind });
            let told = StateView {
                notification_state: state.notification_state.insert(
                    pane,
                    NotificationSet { waiting: kind is Waiting, completed: kind is Completed },
                ),
                ..state
            };
            &&& next.0.notification_state.contains_key(pane)
            &&& next.0.notification_state[pane].waiting <==> kind is Waiting
            &&& next.0.notification_state[pane].completed <==> kind is Completed
            &&& other != pane ==> next.0.notification_state.get(other)
                == state.notification_state.get(other)
            &&& next.0 == told.names_updated()
            &&& next.0 == (StateView {
                notification_state: told.notification_state,
                pending_strips: next.0.pending_strips,
                ..state
            })
            &&& !next.1.render
            &&& next.1.effects == seq![EffectView::UnblockPipe { pipe }] + told.renames()
        }),
{
}

/// A message that is refused is reported and its sender unblocked; one to others is not answered.
/// Neither changes anything.
pub proof fn law_messages_without_effect(
    state: StateView,
    pipe: Seq<char>,
    error: MessageErrorView,
)
    ensures
        state.after_message(pipe, MessageView::Rejected(error)) == (
            state,
            ResponseView {
                render: false,
                effects: seq![EffectView::Report(error), EffectView::UnblockPipe { pipe }],
            },
        ),
        state.after_message(pipe, MessageView::Ignored) == (
            state,
            ResponseView { render: false, effects: seq![] },
        ),
{
}

/// Messages about different panes do not disturb each other: whatever comes first, both panes have
/// their notifications.
pub proof fn law_two_messages(
    state: StateView,
    pipe: Seq<char>,
    one: u32,
    first: NotificationType,
    two: u32,
    second: NotificationType,
)
    requires
        one != two,
    ensures
        ({
            let a = MessageView::Notify { pane: one, kind: first };
            let b = MessageView::Notify { pane: two, kind: second };
            let next = state.after_message(pipe, a).0.after_message(pipe, b).0;
            let turned = state.after_message(pipe, b).0.after_message(pipe, a).0;
            &&& next.notification_state == turned.notification_state
            &&& next.notification_state.contains_key(one)
            &&& next.notification_state[one].waiting <==> first is Waiting
            &&& next.notification_state[one].completed <==> first is Completed
        }),
{
    let a = MessageView::Notify { pane: one, kind: first };
    let b = MessageView::Notify { pane: two, kind: second };
    assert(state.after_message(pipe, a).0.after_message(pipe, b).0.notification_state
        =~= state.after_message(pipe, b).0.after_message(pipe, a).0.notification_state);
}

// Renames from elsewhere

proof fn lemma_tab_at(tabs: Seq<TabView>, position: usize)
    ensures
        match plugin::tab_at(tabs, position) {
            Some(i) => 0 <= i < tabs.len() && tabs[i].position == position && forall|j: int|
                0 <= j < i ==> (#[trigger] tabs[j]).position != position,
            None => forall|j: int| 0 <= j < tabs.len() ==> (#[trigger] tabs[j]).position != position,
        },
    decreases tabs.len(),
{
    if tabs.len() > 0 {
        let rest = tabs.drop_last();
        lemma_tab_at(rest, position);
        match plugin::tab_at(rest, position) {
            Some(i) => {
                assert(rest[i] == tabs[i]);
                assert forall|j: int| 0 <= j < i implies (#[trigger] tabs[j]).position
                    != position by {
                    assert(rest[j] == tabs[j]);
                }
            },
            None => {
                assert forall|j: int| 0 <= j < tabs.len() - 1 implies (
                #[trigger] tabs[j]).position != position by {
                    assert(rest[j] == tabs[j]);
                }
            },
        }
    }
}

/// A new tab shows a rename from elsewhere exactly if the first known tab at its position has
/// another name, and another one apart from icons. Each new tab is looked at on its own, in order.
pub proof fn law_renames_from_elsewhere(state: StateView, tabs: Seq<TabView>, tab: TabView, i: int)
    requires
        0 <= i <= state.tabs.len(),
        forall|j: int| 0 <= j < i ==> (#[trigger] state.tabs[j]).position != tab.position,
        i < state.tabs.len() ==> state.tabs[i].position == tab.position,
    ensures
        state.external_renames(seq![]) == Seq::<ExternalRenameView>::empty(),
        ({
            let known = state.tabs[i];
            let old_base = plugin::stripped(state.config, known.name);
            let new_base = plugin::stripped(state.config, tab.name);
            state.external_renames(tabs.push(tab)) == if i < state.tabs.len() && known.name
                != tab.name && old_base != new_base {
                state.external_renames(tabs).push(
                    ExternalRenameView {
                        position: tab.position,
                        old_name: known.name,
                        new_name: tab.name,
                        old_base,
                        new_base,
                    },
                )
            } else {
                state.external_renames(tabs)
            }
        }),
{
    lemma_tab_at(state.tabs, tab.position);
    assert(tabs.push(tab).drop_last() =~= tabs);
    match plugin::tab_at(state.tabs, tab.position) {
        Some(k) => {
            if k < i {
                assert(state.tabs[k].position != tab.position);
            }
            assert(i < state.tabs.len());
            assert(k == i);
        },
        None => {
            if i < state.tabs.len() {
                assert(state.tabs[i].position != tab.position);
            }
        },
    }
    assert(state.external_renames(tabs) + Seq::<ExternalRenameView>::empty()
        =~= state.external_renames(tabs));
}

} // verus!
