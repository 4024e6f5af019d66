//! What holds of the values that pass through the library and of the state file, said of their
//! parts.

use vstd::prelude::*;

use crate::codec;
use crate::config::NotificationConfig;
use crate::host;
use crate::host::{
    Effect, EffectView, Event, EventView, PaneManifest, PipeMessage, TabInfo, TabView,
};
use crate::message::{Message, MessageError, MessageErrorView, MessageView};
use crate::plugin;
use crate::shared;
use crate::shared::{Step, StepView};
use crate::state;
use crate::state::{NotificationSet, NotificationType, PersistedState, PersistedStateView};
use crate::text;

verus! {

// Notifications

/// A set of notifications holds a kind if its flag is set; the set of one kind holds that kind and
/// no other.
pub proof fn law_notification_sets(set: NotificationSet, kind: NotificationType)
    ensures
        set.holds(NotificationType::Waiting) == set.waiting,
        set.holds(NotificationType::Completed) == set.completed,
        NotificationSet::just(kind).waiting == (kind is Waiting),
        NotificationSet::just(kind).completed == (kind is Completed),
{
}

// The state file

/// What is listed for the encoder: each pane of the map once and no other, with 0 for a waiting
/// and 1 for a completed notification.
pub proof fn law_listed_notifications(
    list: Seq<(u32, Seq<u32>)>,
    sets: Map<u32, NotificationSet>,
    pane: u32,
)
    requires
        state::lists_notifications(list, sets),
    ensures
        sets.contains_key(pane) <==> exists|i: int|
            0 <= i < list.len() && (#[trigger] list[i]).0 == pane,
        forall|i: int, j: int|
            #![trigger list[i], list[j]]
            0 <= i < j < list.len() ==> list[i].0 != list[j].0,
        forall|i: int|
            0 <= i < list.len() && (#[trigger] list[i]).0 == pane ==> list[i].1 == match (
                sets[pane].waiting,
                sets[pane].completed,
            ) {
                (true, true) => seq![0u32, 1u32],
                (true, false) => seq![0u32],
                (false, true) => seq![1u32],
                (false, false) => seq![],
            },
{
    assert forall|i: int| 0 <= i < list.len() && (#[trigger] list[i]).0 == pane implies list[i].1
        =~= match (sets[pane].waiting, sets[pane].completed) {
        (true, true) => seq![0u32, 1u32],
        (true, false) => seq![0u32],
        (false, true) => seq![1u32],
        (false, false) => seq![],
    } by {}
}

/// What is listed for the encoder: each tab position of the map once and no other, with its name.
pub proof fn law_listed_names(
    list: Seq<(u64, Seq<char>)>,
    names: Map<usize, Seq<char>>,
    position: usize,
)
    requires
        state::lists_names(list, names),
    ensures
        names.contains_key(position) <==> exists|i: int|
            0 <= i < list.len() && (#[trigger] list[i]).0 == position,
        forall|i: int, j: int|
            #![trigger list[i], list[j]]
            0 <= i < j < list.len() ==> list[i].0 != list[j].0,
        forall|i: int|
            0 <= i < list.len() && (#[trigger] list[i]).0 == position ==> list[i].1
                == names[position],
{
    assert forall|i: int| 0 <= i < list.len() && (#[trigger] list[i]).0 == position implies list[i].1
        == names[position] && names.contains_key(position) by {
        assert(list[i].0 as usize == position);
    }
}

/// What lists describe, entry by entry: nothing describes the empty state, and one more entry gives
/// its pane the notifications of its codes, 0 for waiting and 1 for completed, or its position its
/// name, whatever stood there before. Other codes and positions beyond this machine spoil it all.
pub proof fn law_described(
    sets: Seq<(u32, Seq<u32>)>,
    names: Seq<(u64, Seq<char>)>,
    set: (u32, Seq<u32>),
    name: (u64, Seq<char>),
)
    ensures
        ({
            let empty = PersistedStateView {
                notifications: Map::empty(),
                original_tab_names: Map::empty(),
            };
            let readable = (forall|i: int, j: int|
                0 <= i < sets.len() && 0 <= j < sets[i].1.len() ==> #[trigger] sets[i].1[j] <= 1)
                && forall|i: int|
                0 <= i < names.len() ==> (#[trigger] names[i]).0 <= usize::MAX;
            let known = forall|j: int| 0 <= j < set.1.len() ==> #[trigger] set.1[j] <= 1;
            &&& state::described(seq![], seq![]) == empty
            &&& !readable ==> state::described(sets, names) == empty
            &&& readable && known ==> state::described(sets.push(set), names) == (
            PersistedStateView {
                notifications: state::described(sets, names).notifications.insert(
                    set.0,
                    NotificationSet {
                        waiting: set.1.contains(0),
                        completed: set.1.contains(1),
                    },
                ),
                ..state::described(sets, names)
            })
            &&& readable && name.0 <= usize::MAX ==> state::described(sets, names.push(name)) == (
            PersistedStateView {
                original_tab_names: state::described(sets, names).original_tab_names.insert(
                    name.0 as usize,
                    name.1,
                ),
                ..state::described(sets, names)
            })
        }),
{
    let readable = (forall|i: int, j: int|
        0 <= i < sets.len() && 0 <= j < sets[i].1.len() ==> #[trigger] sets[i].1[j] <= 1)
        && forall|i: int| 0 <= i < names.len() ==> (#[trigger] names[i]).0 <= usize::MAX;
    assert(readable <==> state::readable_notifications(sets) && state::readable_names(names)) by {
        if state::readable_notifications(sets) {
            assert forall|i: int, j: int|
                0 <= i < sets.len() && 0 <= j < sets[i].1.len() implies #[trigger] sets[i].1[j]
                <= 1 by {
                assert(state::known_codes(sets[i].1));
            }
        }
    }
    assert(sets.push(set).drop_last() =~= sets);
    assert(names.push(name).drop_last() =~= names);
    assert(sets.push(set).last() == set);
    assert(names.push(name).last() == name);
    let known = forall|j: int| 0 <= j < set.1.len() ==> #[trigger] set.1[j] <= 1;
    if readable && known {
        let more = sets.push(set);
        assert forall|i: int| 0 <= i < more.len() implies state::known_codes(
            (#[trigger] more[i]).1,
        ) by {
            if i < sets.len() {
                assert(more[i] == sets[i]);
            }
        }
    }
    if readable && name.0 <= usize::MAX {
        let more = names.push(name);
        assert forall|i: int| 0 <= i < more.len() implies (#[trigger] more[i]).0 <= usize::MAX by {
            if i < names.len() {
                assert(more[i] == names[i]);
            }
        }
    }
}

/// A file that is missing, or from which no lists can be read, stands for the empty state, and
/// any other for what its lists describe.
pub proof fn law_restored(bytes: Seq<u8>)
    ensures
        ({
            let empty = PersistedStateView {
                notifications: Map::empty(),
                original_tab_names: Map::empty(),
            };
            &&& state::restored(None) == empty
            &&& state::restored(Some(bytes)) == match codec::decoded_record(
                bytes,
                usize::BITS as nat,
            ) {
                Some((sets, names)) => state::described(sets, names),
                None => empty,
            }
        }),
{
}

// Values and what they hold

/// What the library reads of a tab, of panes and of the configuration.
pub proof fn law_what_inputs_hold(
    tab: TabInfo,
    tabs: Seq<TabInfo>,
    panes: PaneManifest,
    config: NotificationConfig,
    message: PipeMessage,
)
    ensures
        tab@ == (TabView {
            position: tab.position,
            name: tab.name@,
            active: tab.active,
            are_floating_panes_visible: tab.are_floating_panes_visible,
        }),
        host::tabs_view(tabs).len() == tabs.len(),
        forall|i: int| 0 <= i < tabs.len() ==> #[trigger] host::tabs_view(tabs)[i] == tabs[i]@,
        forall|position: usize| #[trigger]
            panes@.contains_key(position) <==> panes.panes@.contains_key(position),
        forall|position: usize| #[trigger]
            panes@.contains_key(position) ==> panes@[position] == panes.panes@[position]@,
        config@.enabled == config.enabled,
        config@.waiting_icon == config.waiting_icon@,
        config@.completed_icon == config.completed_icon@,
        host::payload_view(message.payload) == match message.payload {
            Some(sent) => Some(sent@),
            None => None,
        },
{
}

/// What the library reads of an event, and what its answers ask for.
pub proof fn law_what_events_and_answers_hold(
    event: Event,
    effect: Effect,
    effects: Seq<Effect>,
    step: Step,
    steps: Seq<Step>,
    meaning: Message,
    error: MessageError,
)
    ensures
        event@ == match event {
            Event::PermissionRequestResult(granted) => EventView::PermissionRequestResult(granted),
            Event::TabUpdate(tabs) => EventView::TabUpdate(host::tabs_view(tabs@)),
            Event::PaneUpdate(panes) => EventView::PaneUpdate(panes@),
            Event::Other => EventView::Other,
        },
        effect@ == match effect {
            Effect::RenameTab { tab, name } => EffectView::RenameTab { tab, name: name@ },
            Effect::UnblockPipe { pipe } => EffectView::UnblockPipe { pipe: pipe@ },
            Effect::SetSelectable(selectable) => EffectView::SetSelectable(selectable),
            Effect::Report(reason) => EffectView::Report(reason@),
        },
        host::effects_view(effects).len() == effects.len(),
        forall|i: int|
            0 <= i < effects.len() ==> #[trigger] host::effects_view(effects)[i] == effects[i]@,
        step@ == match step {
            Step::Perform(asked) => StepView::Perform(asked@),
            Step::Save(persisted) => StepView::Save(persisted@),
            Step::Reload => StepView::Reload,
        },
        shared::steps_view(steps).len() == steps.len(),
        forall|i: int| 0 <= i < steps.len() ==> #[trigger] shared::steps_view(steps)[i] == steps[i]@,
        meaning@ == match meaning {
            Message::Ignored => MessageView::Ignored,
            Message::Rejected(reason) => MessageView::Rejected(reason@),
            Message::Notify { pane, kind } => MessageView::Notify { pane, kind },
        },
        error@ == match error {
            MessageError::InvalidFormat => MessageErrorView::InvalidFormat,
            MessageError::InvalidPaneId(field) => MessageErrorView::InvalidPaneId(field@),
            MessageError::UnknownEvent(name) => MessageErrorView::UnknownEvent(name@),
        },
{
}

/// What the plugin knows and what it answers.
pub proof fn law_what_the_plugin_holds(
    known: plugin::State,
    answer: plugin::Response,
    found: plugin::ExternalRename,
)
    ensures
        known@ == (plugin::StateView {
            permissions_granted: known.permissions_granted,
            tabs: host::tabs_view(known.tabs@),
            panes: known.panes@,
            notification_state: known.notification_state@,
            config: known.config@,
            updating_tabs: known.updating_tabs,
            pending_strips: known.pending_strips@,
        }),
        answer@ == (plugin::ResponseView {
            render: answer.render,
            effects: host::effects_view(answer.effects@),
        }),
        found@ == (plugin::ExternalRenameView {
            position: found.position,
            old_name: found.old_name@,
            new_name: found.new_name@,
            old_base: found.old_base@,
            new_base: found.new_base@,
        }),
{
}

/// What an instance with a state file knows, what it answers, and what it keeps in the file.
pub proof fn law_what_an_instance_holds(
    known: shared::State,
    answer: shared::Response,
    kept: PersistedState,
    names: Map<usize, String>,
    position: usize,
)
    ensures
        known@ == (shared::StateView {
            permissions_granted: known.permissions_granted,
            tabs: host::tabs_view(known.tabs@),
            panes: known.panes@,
            notification_state: known.notification_state@,
            original_tab_names: state::names_view(known.original_tab_names@),
            config: known.config@,
        }),
        answer@ == (shared::ResponseView {
            render: answer.render,
            steps: shared::steps_view(answer.steps@),
        }),
        kept@ == (PersistedStateView {
            notifications: kept.notifications@,
            original_tab_names: state::names_view(kept.original_tab_names@),
        }),
        state::names_view(names).contains_key(position) <==> names.contains_key(position),
        names.contains_key(position) ==> state::names_view(names)[position] == names[position]@,
        PersistedStateView::empty() == (PersistedStateView {
            notifications: Map::empty(),
            original_tab_names: Map::empty(),
        }),
{
}

/// What a list of strings holds.
pub proof fn law_what_lists_of_strings_hold(list: Seq<String>)
    ensures
        text::texts(list).len() == list.len(),
        forall|i: int| 0 <= i < list.len() ==> #[trigger] text::texts(list)[i] == list[i]@,
{
}

/// Any tabs can be handled whose positions can be counted from one; with a state file, that is
/// asked of tabs without a name only.
pub proof fn law_tabs_that_can_be_handled(
    known: plugin::State,
    instance: shared::State,
    tabs: Seq<TabView>,
)
    ensures
        host::numberable(tabs) <==> forall|i: int|
            0 <= i < tabs.len() ==> (#[trigger] tabs[i]).position < usize::MAX,
        (forall|i: int|
            0 <= i < known.tabs@.len() ==> (#[trigger] known.tabs@[i]).position < usize::MAX)
            ==> known.wf(),
        (forall|i: int|
            0 <= i < instance.tabs@.len() && (#[trigger] instance.tabs@[i]).name@.len() == 0
                ==> instance.tabs@[i].position < usize::MAX) ==> instance.wf(),
{
    assert forall|i: int| 0 <= i < known@.tabs.len() implies #[trigger] known@.tabs[i]
        == known.tabs@[i]@ by {}
    assert forall|i: int| 0 <= i < instance@.tabs.len() implies #[trigger] instance@.tabs[i]
        == instance.tabs@[i]@ by {}
}

} // verus!
