//! What holds of the plugin that keeps its state in a file.

use vstd::prelude::*;

use crate::host;
use crate::host::{EffectView, EventView, TabView};
use crate::message::{MessageErrorView, MessageView};
use crate::panes;
use crate::shared;
use crate::shared::{ResponseView, StateView, StepView};
use crate::state;
use crate::state::{NotificationSet, NotificationType, PersistedStateView};
use crate::text;

verus! {

/// The remembered names grow while the icons are put on: a name that is remembered stays, and
/// names come up for tabs that show a notification only.
proof fn lemma_marked_names(state: StateView, n: int, position: usize)
    requires
        0 <= n <= state.tabs.len(),
    ensures
        state.original_tab_names.contains_key(position) ==> state.marked(n).0.contains_key(position)
            && state.marked(n).0[position] == state.original_tab_names[position],
        state.marked(n).0.contains_key(position) && !state.original_tab_names.contains_key(position)
            ==> state.kind_at(position) is Some && exists|i: int|
            0 <= i < n && (#[trigger] state.tabs[i]).position == position,
        forall|i: int|
            0 <= i < n && (#[trigger] state.tabs[i]).position == position && state.kind_at(position)
                is Some ==> state.marked(n).0.contains_key(position),
    decreases n,
{
    if n > 0 {
        lemma_marked_names(state, n - 1, position);
        let tab = state.tabs[n - 1];
        assert(state.tabs[n - 1].position == tab.position);
    }
}

/// A name that is remembered for a position stays so while icons are put on further tabs.
proof fn lemma_marked_keeps(state: StateView, m: int, n: int, position: usize)
    requires
        0 <= m <= n <= state.tabs.len(),
        state.marked(m).0.contains_key(position),
    ensures
        state.marked(n).0.contains_key(position),
        state.marked(n).0[position] == state.marked(m).0[position],
    decreases n,
{
    if m < n {
        lemma_marked_keeps(state, m, n - 1, position);
    }
}

/// Whether no tab before this one stands at the same position.
pub open spec fn is_first_at_its_position(tabs: Seq<TabView>, i: int) -> bool {
    forall|j: int| 0 <= j < i ==> (#[trigger] tabs[j]).position != tabs[i].position
}

/// After an update names are remembered of exactly the tabs that show a notification.
pub proof fn law_names_of_notified_tabs(before: StateView, persisted: PersistedStateView)
    requires
        before.config.enabled,
    ensures
        before.names_updated(persisted).original_tab_names.dom() == before.reloaded(
            persisted,
        ).notified_positions(),
{
    let loaded = before.reloaded(persisted);
    let names = before.names_updated(persisted).original_tab_names;
    assert forall|position: usize| names.contains_key(position)
        <==> loaded.notified_positions().contains(position) by {
        lemma_marked_names(loaded, loaded.tabs.len() as int, position);
        if loaded.notified_positions().contains(position) {
            let i = choose|i: int|
                0 <= i < loaded.tabs.len() && (#[trigger] loaded.tabs[i]).position == position;
            assert(loaded.tabs[i].position == position);
        }
    }
    assert(names.dom() =~= loaded.notified_positions());
}

/// The name of a tab is remembered as it was before the first icon: a name in the file stays,
/// and otherwise it is the tab's own.
pub proof fn law_own_name_is_remembered(
    before: StateView,
    persisted: PersistedStateView,
    i: int,
)
    requires
        before.config.enabled,
        0 <= i < before.tabs.len(),
        is_first_at_its_position(before.tabs, i),
        before.reloaded(persisted).kind_at(before.tabs[i].position) is Some,
    ensures
        ({
            let tab = before.tabs[i];
            let names = before.names_updated(persisted).original_tab_names;
            &&& names.contains_key(tab.position)
            &&& names[tab.position] == if persisted.original_tab_names.contains_key(tab.position) {
                persisted.original_tab_names[tab.position]
            } else {
                shared::own_name(tab)
            }
        }),
{
    let loaded = before.reloaded(persisted);
    let tab = loaded.tabs[i];
    assert(before.tabs[i] == tab);
    let n = loaded.tabs.len() as int;
    lemma_marked_names(loaded, n, tab.position);
    if !loaded.original_tab_names.contains_key(tab.position) {
        lemma_marked_names(loaded, i, tab.position);
        assert(!loaded.marked(i).0.contains_key(tab.position)) by {
            if loaded.marked(i).0.contains_key(tab.position) {
                let j = choose|j: int|
                    0 <= j < i && (#[trigger] loaded.tabs[j]).position == tab.position;
                assert(before.tabs[j].position != before.tabs[i].position);
            }
        }
        assert(loaded.marked(i + 1).0[tab.position] == shared::own_name(tab));
        lemma_marked_keeps(loaded, i + 1, n, tab.position);
    }
    assert(loaded.notified_positions().contains(tab.position));
}

/// A tab that no longer shows a notification gets back the name that is remembered for it,
/// whatever it is called now, and the name is forgotten.
pub proof fn law_own_name_comes_back(
    before: StateView,
    persisted: PersistedStateView,
    steps: Seq<StepView>,
    position: usize,
)
    requires
        before.config.enabled,
        before.updates_names(persisted, steps),
        host::is_position(before.tabs, position),
        persisted.original_tab_names.contains_key(position),
        before.reloaded(persisted).kind_at(position) is None,
    ensures
        steps.contains(shared::rename(position, persisted.original_tab_names[position])),
        !before.names_updated(persisted).original_tab_names.contains_key(position),
{
    let loaded = before.reloaded(persisted);
    let n = loaded.tabs.len() as int;
    lemma_marked_names(loaded, n, position);
    let names = loaded.all_names();
    assert(loaded.restored_positions().contains(position));
    let marks = loaded.marked(n).1;
    let order = choose|order: Seq<usize>| #[trigger]
        shared::orders(order, loaded.restored_positions()) && steps == marks + shared::restores(
            order,
            names,
        ) + seq![StepView::Save(before.names_updated(persisted).persisted())];
    assert(order.to_set().contains(position));
    let k = choose|k: int| 0 <= k < order.len() && order[k] == position;
    assert(shared::restores(order, names)[k] == shared::rename(position, names[position]));
    assert(steps[marks.len() + k] == shared::rename(position, names[position]));
}

/// Marking a tab and then giving its name back are inverse: a tab with a name gets exactly that
/// name back, whatever happened in between, as long as the file keeps what was saved of it.
pub proof fn law_name_is_restored(
    noticed: StateView,
    first: PersistedStateView,
    i: int,
    quiet: StateView,
    second: PersistedStateView,
    steps: Seq<StepView>,
)
    requires
        noticed.config.enabled,
        0 <= i < noticed.tabs.len(),
        is_first_at_its_position(noticed.tabs, i),
        noticed.tabs[i].name.len() > 0,
        noticed.reloaded(first).kind_at(noticed.tabs[i].position) is Some,
        !first.original_tab_names.contains_key(noticed.tabs[i].position),
        second.original_tab_names.contains_key(noticed.tabs[i].position),
        second.original_tab_names[noticed.tabs[i].position] == noticed.names_updated(
            first,
        ).original_tab_names[noticed.tabs[i].position],
        quiet.config.enabled,
        quiet.updates_names(second, steps),
        host::is_position(quiet.tabs, noticed.tabs[i].position),
        quiet.reloaded(second).kind_at(noticed.tabs[i].position) is None,
    ensures
        steps.contains(shared::rename(noticed.tabs[i].position, noticed.tabs[i].name)),
{
    law_own_name_is_remembered(noticed, first, i);
    law_own_name_comes_back(quiet, second, steps, noticed.tabs[i].position);
}

/// Icons do not pile up: a tab that shows a notification is always given the icon and the name
/// that is remembered for it, whatever it is called now.
pub proof fn law_icon_before_own_name(
    before: StateView,
    persisted: PersistedStateView,
    steps: Seq<StepView>,
    i: int,
)
    requires
        before.config.enabled,
        before.updates_names(persisted, steps),
        0 <= i < before.tabs.len(),
        before.reloaded(persisted).kind_at(before.tabs[i].position) is Some,
    ensures
        ({
            let tab = before.tabs[i];
            let kind = before.reloaded(persisted).kind_at(tab.position)->0;
            let own = before.names_updated(persisted).original_tab_names[tab.position];
            steps.contains(
                shared::rename(tab.position, text::spaced(before.config.icon(kind), own)),
            )
        }),
{
    let loaded = before.reloaded(persisted);
    let n = loaded.tabs.len() as int;
    let tab = loaded.tabs[i];
    assert(before.tabs[i] == tab);
    lemma_marked_keeps(loaded, i + 1, n, tab.position);
    lemma_marks_stay(loaded, i + 1, n);
    assert(loaded.notified_positions().contains(tab.position));
    let marks = loaded.marked(n).1;
    let k = loaded.marked(i + 1).1.len() - 1;
    let order = choose|order: Seq<usize>| #[trigger]
        shared::orders(order, loaded.restored_positions()) && steps == marks + shared::restores(
            order,
            loaded.all_names(),
        ) + seq![StepView::Save(before.names_updated(persisted).persisted())];
    assert(steps[k] == marks[k]);
}

proof fn lemma_marks_stay(state: StateView, m: int, n: int)
    requires
        0 <= m <= n <= state.tabs.len(),
    ensures
        state.marked(m).1.len() <= state.marked(n).1.len(),
        forall|k: int|
            0 <= k < state.marked(m).1.len() ==> #[trigger] state.marked(n).1[k] == state.marked(
                m,
            ).1[k],
    decreases n,
{
    if m < n {
        lemma_marks_stay(state, m, n - 1);
    }
}

/// An update ends with the new state in the file, and reading that file again changes nothing.
pub proof fn law_update_is_saved(
    before: StateView,
    persisted: PersistedStateView,
    steps: Seq<StepView>,
)
    requires
        before.config.enabled,
        before.updates_names(persisted, steps),
    ensures
        ({
            let next = before.names_updated(persisted);
            &&& steps.len() > 0
            &&& steps.last() == StepView::Save(next.persisted())
            &&& next.names_updated(next.persisted()) == next
        }),
{
    let loaded = before.reloaded(persisted);
    let next = before.names_updated(persisted);
    let order = choose|order: Seq<usize>| #[trigger]
        shared::orders(order, loaded.restored_positions()) && steps == loaded.marked(
            loaded.tabs.len() as int,
        ).1 + shared::restores(order, loaded.all_names()) + seq![
            StepView::Save(next.persisted()),
        ];
    assert(steps.last() == StepView::Save(next.persisted()));
    assert(next.reloaded(next.persisted()) == next);
    law_names_of_notified_tabs(before, persisted);
    assert(next.notified_positions() =~= loaded.notified_positions());
    let again = next.names_updated(next.persisted());
    law_names_of_notified_tabs(next, next.persisted());
    assert forall|position: usize| again.original_tab_names.contains_key(position) implies
        again.original_tab_names[position] == next.original_tab_names[position] by {
        lemma_marked_names(next, next.tabs.len() as int, position);
        assert(next.original_tab_names.dom().contains(position));
    }
    assert(again.original_tab_names =~= next.original_tab_names);
}

/// All instances that read the same file have the same notifications; with the same tabs, panes
/// and configuration they also remember the same names.
pub proof fn law_instances_agree(a: StateView, b: StateView, persisted: PersistedStateView)
    ensures
        a.names_updated(persisted).notification_state == persisted.notifications,
        b.names_updated(persisted).notification_state == persisted.notifications,
        a.tabs == b.tabs && a.panes == b.panes && a.config == b.config ==> a.names_updated(
            persisted,
        ).persisted() == b.names_updated(persisted).persisted(),
{
    if a.tabs == b.tabs && a.panes == b.panes && a.config == b.config {
        let x = a.reloaded(persisted);
        let y = b.reloaded(persisted);
        lemma_marked_alike(x, y, x.tabs.len() as int);
        assert(x.notified_positions() =~= y.notified_positions());
    }
}

proof fn lemma_marked_alike(x: StateView, y: StateView, n: int)
    requires
        x == (StateView { permissions_granted: x.permissions_granted, ..y }),
    ensures
        x.marked(n) == y.marked(n),
    decreases n,
{
    if n > 0 {
        lemma_marked_alike(x, y, n - 1);
    }
}

/// A notification goes into the file first, and so reaches every instance that reads it from
/// there: each then has exactly this notification for the pane.
pub proof fn law_notification_reaches_every_instance(
    sender: StateView,
    pipe: Seq<char>,
    pane: u32,
    kind: NotificationType,
    reader: StateView,
)
    ensures
        ({
            let steps = sender.after_message(pipe, MessageView::Notify { pane, kind }).1.steps;
            let saved = sender.notified(pane, kind).persisted();
            let read = reader.names_updated(saved).notification_state;
            &&& steps[0] == StepView::Save(saved)
            &&& steps[1] is Reload
            &&& read.contains_key(pane)
            &&& forall|any: NotificationType| #[trigger] read[pane].holds(any) == (any == kind)
        }),
{
}

/// What is cleared because it has the focus is gone from the file as well; other panes keep their
/// notifications.
pub proof fn law_focus_clears(before: StateView, other: u32)
    ensures
        ({
            let next = before.focus_cleared();
            &&& !next.focus_is_notified()
            &&& before.focus_is_notified() ==> next.published_since(before) == seq![
                StepView::Save(next.persisted()),
                StepView::Reload,
            ]
            &&& !before.focus_is_notified() ==> next.published_since(before) == Seq::<
                StepView,
            >::empty()
            &&& before.focus() != Some(other) ==> next.notification_state.get(other)
                == before.notification_state.get(other)
        }),
{
    let next = before.focus_cleared();
    if before.focus_is_notified() {
        assert(!next.notification_state.contains_key(before.focus()->0));
        assert(next.notification_state != before.notification_state);
    }
}

/// Only the panes that exist keep their notifications when stale ones are cleaned up, and they do
/// keep them.
pub proof fn law_stale_panes_go(before: StateView, pane: u32)
    ensures
        before.stale_cleaned().notification_state.get(pane) == if panes::is_live(
            before.panes,
            true,
            pane,
        ) {
            before.notification_state.get(pane)
        } else {
            None
        },
        before.stale_cleaned().stale_cleaned() == before.stale_cleaned(),
{
    let next = before.stale_cleaned();
    assert(next.stale_cleaned().notification_state =~= next.notification_state);
}

/// While the plugin is disabled an update takes over what the file holds, renames no tab and
/// writes nothing.
pub proof fn law_disabled_does_nothing(
    before: StateView,
    persisted: PersistedStateView,
    steps: Seq<StepView>,
)
    requires
        !before.config.enabled,
        before.updates_names(persisted, steps),
    ensures
        steps.len() == 0,
        before.names_updated(persisted) == before.reloaded(persisted),
{
}

/// As long as some pane of the tab has a notification the tab does not get its name back: it
/// shows a notification, and its name stays remembered.
pub proof fn law_other_notifications_keep_the_icon(
    before: StateView,
    persisted: PersistedStateView,
    position: usize,
    k: int,
    kind: NotificationType,
)
    requires
        before.config.enabled,
        host::is_position(before.tabs, position),
        before.panes.contains_key(position),
        0 <= k < before.panes[position].len(),
        persisted.notifications.contains_key(before.panes[position][k].id),
        persisted.notifications[before.panes[position][k].id].holds(kind),
    ensures
        before.reloaded(persisted).kind_at(position) is Some,
        !before.reloaded(persisted).restored_positions().contains(position),
        before.names_updated(persisted).original_tab_names.contains_key(position),
{
    let loaded = before.reloaded(persisted);
    assert(panes::pane_holds(loaded.panes[position][k], loaded.notification_state, true, kind));
    assert(panes::tab_holds(loaded.panes, loaded.notification_state, position, true, kind));
    law_names_of_notified_tabs(before, persisted);
    assert(loaded.notified_positions().contains(position));
    assert(before.names_updated(persisted).original_tab_names.dom().contains(position));
}

/// Removing the state file clears all notifications: an update then renames no tab, and what it
/// writes to the file is the empty state.
pub proof fn law_removed_file_clears_everything(before: StateView, steps: Seq<StepView>)
    requires
        before.config.enabled,
        before.updates_names(state::restored(None), steps),
    ensures
        steps == seq![StepView::Save(PersistedStateView::empty())],
        before.names_updated(state::restored(None)).persisted() == PersistedStateView::empty(),
{
    let empty = PersistedStateView::empty();
    let loaded = before.reloaded(empty);
    lemma_unmarked(loaded, loaded.tabs.len() as int);
    let order = choose|order: Seq<usize>| #[trigger]
        shared::orders(order, loaded.restored_positions()) && steps == loaded.marked(
            loaded.tabs.len() as int,
        ).1 + shared::restores(order, loaded.all_names()) + seq![
            StepView::Save(before.names_updated(empty).persisted()),
        ];
    assert(order.len() == 0) by {
        if order.len() > 0 {
            assert(order.to_set().contains(order[0]));
        }
    }
    assert(before.names_updated(empty).original_tab_names =~= Map::empty());
    assert(steps =~= seq![StepView::Save(empty)]);
}

proof fn lemma_unmarked(state: StateView, n: int)
    requires
        state.notification_state == Map::<u32, NotificationSet>::empty(),
    ensures
        state.marked(n) == (state.original_tab_names, Seq::<StepView>::empty()),
    decreases n,
{
    if n > 0 {
        lemma_unmarked(state, n - 1);
    }
}

// Steps of an update

/// The name of a tab that shows a notification: the icon, a space, and the name that is remembered.
spec fn marked_name(
    state: StateView,
    names: Map<usize, Seq<char>>,
    position: usize,
) -> Seq<char> {
    state.config.icon(state.kind_at(position)->0) + seq![' '] + names[position]
}

/// The mark of a tab that shows a notification stands behind the marks of the tabs before it.
proof fn lemma_mark_of(state: StateView, i: int)
    requires
        0 <= i < state.tabs.len(),
        state.kind_at(state.tabs[i].position) is Some,
    ensures
        state.marked(i).1.len() < state.marked(state.tabs.len() as int).1.len(),
        state.all_names().contains_key(state.tabs[i].position),
        state.marked(state.tabs.len() as int).1[state.marked(i).1.len() as int] == shared::rename(
            state.tabs[i].position,
            marked_name(state, state.all_names(), state.tabs[i].position),
        ),
{
    let n = state.tabs.len() as int;
    lemma_marked_keeps(state, i + 1, n, state.tabs[i].position);
    lemma_marks_stay(state, i + 1, n);
    let k = state.marked(i).1.len() as int;
    assert(state.marked(n).1[k] == state.marked(i + 1).1[k]);
}

/// Every mark is one of a tab that shows a notification.
proof fn lemma_mark_at(state: StateView, n: int, k: int) -> (i: int)
    requires
        0 <= n <= state.tabs.len(),
        0 <= k < state.marked(n).1.len(),
    ensures
        0 <= i < n,
        state.kind_at(state.tabs[i].position) is Some,
        state.marked(i).1.len() == k,
    decreases n,
{
    if k < state.marked(n - 1).1.len() {
        lemma_mark_at(state, n - 1, k)
    } else {
        n - 1
    }
}

/// The steps of an update: the marks, the names given back in some order, and the save.
proof fn lemma_steps(
    before: StateView,
    persisted: PersistedStateView,
    steps: Seq<StepView>,
) -> (order: Seq<usize>)
    requires
        before.config.enabled,
        before.updates_names(persisted, steps),
    ensures
        ({
            let loaded = before.reloaded(persisted);
            let marks = loaded.marked(loaded.tabs.len() as int).1;
            &&& order.no_duplicates()
            &&& forall|position: usize|
                order.contains(position) <==> #[trigger] loaded.restored_positions().contains(
                    position,
                )
            &&& steps.len() == marks.len() + order.len() + 1
            &&& forall|k: int| 0 <= k < marks.len() ==> #[trigger] steps[k] == marks[k]
            &&& forall|k: int|
                marks.len() <= k < steps.len() - 1 ==> #[trigger] steps[k] == shared::rename(
                    order[k - marks.len()],
                    loaded.all_names()[order[k - marks.len()]],
                )
            &&& steps.last() == StepView::Save(before.names_updated(persisted).persisted())
        }),
{
    let loaded = before.reloaded(persisted);
    let names = loaded.all_names();
    let marks = loaded.marked(loaded.tabs.len() as int).1;
    let order = choose|order: Seq<usize>| #[trigger]
        shared::orders(order, loaded.restored_positions()) && steps == marks + shared::restores(
            order,
            names,
        ) + seq![StepView::Save(before.names_updated(persisted).persisted())];
    let restores = shared::restores(order, names);
    assert forall|k: int| marks.len() <= k < steps.len() - 1 implies #[trigger] steps[k]
        == shared::rename(order[k - marks.len()], names[order[k - marks.len()]]) by {
        assert(steps[k] == restores[k - marks.len()]);
    }
    assert forall|position: usize|
        order.contains(position) <==> #[trigger] loaded.restored_positions().contains(position) by {
        assert(order.to_set().contains(position) == order.contains(position));
    }
    order
}

/// A position at which a name is given back is one of a tab without a notification.
proof fn lemma_restored(state: StateView, order: Seq<usize>, k: int) -> (i: int)
    requires
        forall|position: usize|
            order.contains(position) <==> #[trigger] state.restored_positions().contains(position),
        0 <= k < order.len(),
    ensures
        0 <= i < state.tabs.len(),
        state.tabs[i].position == order[k],
        state.kind_at(order[k]) is None,
        state.original_tab_names.contains_key(order[k]),
        state.all_names()[order[k]] == state.original_tab_names[order[k]],
{
    assert(order.contains(order[k]));
    assert(state.restored_positions().contains(order[k]));
    lemma_marked_names(state, state.tabs.len() as int, order[k]);
    choose|i: int| 0 <= i < state.tabs.len() && (#[trigger] state.tabs[i]).position == order[k]
}

/// Whether a step renames the tab with this number.
spec fn renames(step: StepView, number: u32) -> bool {
    step matches StepView::Perform(EffectView::RenameTab { tab, .. }) && tab == number
}

proof fn lemma_steps_of_a_tab(
    before: StateView,
    persisted: PersistedStateView,
    steps: Seq<StepView>,
    position: usize,
    k: int,
)
    requires
        before.config.enabled,
        before.updates_names(persisted, steps),
        forall|j: int| 0 <= j < before.tabs.len() ==> (#[trigger] before.tabs[j]).position <= u32::MAX,
        host::is_position(before.tabs, position),
        0 <= k < steps.len(),
        renames(steps[k], position as u32),
    ensures
        ({
            let loaded = before.reloaded(persisted);
            let names = before.names_updated(persisted).original_tab_names;
            match loaded.kind_at(position) {
                Some(kind) => names.contains_key(position) && steps[k] == shared::rename(
                    position,
                    marked_name(loaded, names, position),
                ),
                None => persisted.original_tab_names.contains_key(position) && steps[k]
                    == shared::rename(position, persisted.original_tab_names[position]),
            }
        }),
{
    let loaded = before.reloaded(persisted);
    let n = loaded.tabs.len() as int;
    let marks = loaded.marked(n).1;
    let order = lemma_steps(before, persisted, steps);
    let at = choose|j: int|
        0 <= j < before.tabs.len() && (#[trigger] before.tabs[j]).position == position;
    assert(before.tabs[at].position <= u32::MAX);
    if k < marks.len() {
        let i = lemma_mark_at(loaded, n, k);
        lemma_mark_of(loaded, i);
        assert(before.tabs[i].position <= u32::MAX);
        assert(loaded.tabs[i].position == position);
        assert(loaded.notified_positions().contains(position));
    } else {
        assert(k < steps.len() - 1);
        let i = lemma_restored(loaded, order, k - marks.len());
        assert(before.tabs[i].position <= u32::MAX);
        assert(loaded.tabs[i].position == position);
    }
}

/// A tab that shows a notification ends up with its icon: after the steps of an update, in their
/// order, it is called by the icon, a space and the name that is remembered for it. That rename is
/// among the steps, and no other rename of the tab is.
pub proof fn law_notified_tab_ends_up_with_its_icon(
    before: StateView,
    persisted: PersistedStateView,
    steps: Seq<StepView>,
    i: int,
)
    requires
        before.config.enabled,
        before.updates_names(persisted, steps),
        forall|j: int| 0 <= j < before.tabs.len() ==> (#[trigger] before.tabs[j]).position <= u32::MAX,
        0 <= i < before.tabs.len(),
        (StateView { notification_state: persisted.notifications, ..before }).kind_at(
            before.tabs[i].position,
        ) is Some,
    ensures
        ({
            let position = before.tabs[i].position;
            let kind = (StateView {
                notification_state: persisted.notifications,
                ..before
            }).kind_at(position)->0;
            let icon = match kind {
                NotificationType::Waiting => before.config.waiting_icon,
                NotificationType::Completed => before.config.completed_icon,
            };
            let own = before.names_updated(persisted).original_tab_names[position];
            let wanted = StepView::Perform(
                EffectView::RenameTab { tab: position as u32, name: icon + seq![' '] + own },
            );
            &&& steps.contains(wanted)
            &&& forall|k: int|
                0 <= k < steps.len() ==> (#[trigger] steps[k] matches StepView::Perform(
                    EffectView::RenameTab { tab, .. },
                ) ==> tab == position as u32 ==> steps[k] == wanted)
        }),
{
    let position = before.tabs[i].position;
    let loaded = before.reloaded(persisted);
    let told = StateView { notification_state: persisted.notifications, ..before };
    assert(told.kind_at(position) == loaded.kind_at(position));
    law_icon_before_own_name(before, persisted, steps, i);
    assert(host::is_position(before.tabs, position));
    assert forall|k: int|
        0 <= k < steps.len() && renames(#[trigger] steps[k], position as u32) implies steps[k]
        == shared::rename(
        position,
        marked_name(loaded, before.names_updated(persisted).original_tab_names, position),
    ) by {
        lemma_steps_of_a_tab(before, persisted, steps, position, k);
    }
    assert forall|k: int|
        0 <= k < steps.len() && (#[trigger] steps[k] matches StepView::Perform(
            EffectView::RenameTab { tab, .. },
        ) && tab == position as u32) implies renames(steps[k], position as u32) by {}
}

/// A tab that shows no notification is renamed only if a name is remembered for it, and then to
/// that name.
pub proof fn law_quiet_tab_ends_up_with_its_name(
    before: StateView,
    persisted: PersistedStateView,
    steps: Seq<StepView>,
    i: int,
)
    requires
        before.config.enabled,
        before.updates_names(persisted, steps),
        forall|j: int| 0 <= j < before.tabs.len() ==> (#[trigger] before.tabs[j]).position <= u32::MAX,
        0 <= i < before.tabs.len(),
        (StateView { notification_state: persisted.notifications, ..before }).kind_at(
            before.tabs[i].position,
        ) is None,
    ensures
        ({
            let position = before.tabs[i].position;
            let remembered = persisted.original_tab_names.contains_key(position);
            let wanted = StepView::Perform(
                EffectView::RenameTab {
                    tab: position as u32,
                    name: persisted.original_tab_names[position],
                },
            );
            &&& remembered ==> steps.contains(wanted)
            &&& forall|k: int|
                0 <= k < steps.len() ==> (#[trigger] steps[k] matches StepView::Perform(
                    EffectView::RenameTab { tab, .. },
                ) ==> tab == position as u32 ==> remembered && steps[k] == wanted)
        }),
{
    let position = before.tabs[i].position;
    let loaded = before.reloaded(persisted);
    let told = StateView { notification_state: persisted.notifications, ..before };
    assert(told.kind_at(position) == loaded.kind_at(position));
    assert(host::is_position(before.tabs, position));
    if persisted.original_tab_names.contains_key(position) {
        law_own_name_comes_back(before, persisted, steps, position);
    }
    assert forall|k: int|
        0 <= k < steps.len() && renames(#[trigger] steps[k], position as u32) implies
        persisted.original_tab_names.contains_key(position) && steps[k] == shared::rename(
        position,
        persisted.original_tab_names[position],
    ) by {
        lemma_steps_of_a_tab(before, persisted, steps, position, k);
    }
    assert forall|k: int|
        0 <= k < steps.len() && (#[trigger] steps[k] matches StepView::Perform(
            EffectView::RenameTab { tab, .. },
        ) && tab == position as u32) implies renames(steps[k], position as u32) by {}
}

/// The steps of an update are renames of tabs that exist, and then one save: of the notifications
/// in the file, and of the names that are remembered now. A tab that shows a notification is
/// renamed to the icon, a space and its remembered name, any other to its name in the file.
pub proof fn law_steps_are_renames_and_a_save(
    before: StateView,
    persisted: PersistedStateView,
    steps: Seq<StepView>,
    k: int,
)
    requires
        before.config.enabled,
        before.updates_names(persisted, steps),
        0 <= k < steps.len(),
    ensures
        k == steps.len() - 1 ==> steps[k] == StepView::Save(
            PersistedStateView {
                notifications: persisted.notifications,
                original_tab_names: before.names_updated(persisted).original_tab_names,
            },
        ),
        k < steps.len() - 1 ==> exists|i: int|
            {
                let position = (#[trigger] before.tabs[i]).position;
                let told = StateView { notification_state: persisted.notifications, ..before };
                let own = before.names_updated(persisted).original_tab_names[position];
                &&& 0 <= i < before.tabs.len()
                &&& told.kind_at(position) is None ==> persisted.original_tab_names.contains_key(
                    position,
                )
                &&& steps[k] == StepView::Perform(
                    EffectView::RenameTab {
                        tab: position as u32,
                        name: match told.kind_at(position) {
                            Some(NotificationType::Waiting) => before.config.waiting_icon + seq![' ']
                                + own,
                            Some(NotificationType::Completed) => before.config.completed_icon
                                + seq![' '] + own,
                            None => persisted.original_tab_names[position],
                        },
                    },
                )
            },
{
    let loaded = before.reloaded(persisted);
    let n = loaded.tabs.len() as int;
    let marks = loaded.marked(n).1;
    let order = lemma_steps(before, persisted, steps);
    let told = StateView { notification_state: persisted.notifications, ..before };
    if k < marks.len() {
        let i = lemma_mark_at(loaded, n, k);
        lemma_mark_of(loaded, i);
        let position = before.tabs[i].position;
        assert(position == loaded.tabs[i].position);
        assert(told.kind_at(position) == loaded.kind_at(position));
        assert(host::is_position(loaded.tabs, position));
        assert(loaded.notified_positions().contains(position));
    } else if k < steps.len() - 1 {
        let i = lemma_restored(loaded, order, k - marks.len());
        let position = before.tabs[i].position;
        assert(position == loaded.tabs[i].position);
        assert(told.kind_at(position) == loaded.kind_at(position));
    }
}

/// Where no two tabs stand at one position no tab is renamed twice.
pub proof fn law_no_tab_is_renamed_twice(
    before: StateView,
    persisted: PersistedStateView,
    steps: Seq<StepView>,
    a: int,
    b: int,
)
    requires
        before.config.enabled,
        before.updates_names(persisted, steps),
        forall|j: int| 0 <= j < before.tabs.len() ==> (#[trigger] before.tabs[j]).position <= u32::MAX,
        forall|i: int, j: int|
            #![trigger before.tabs[i], before.tabs[j]]
            0 <= i < j < before.tabs.len() ==> before.tabs[i].position != before.tabs[j].position,
        0 <= a < b < steps.len() - 1,
    ensures
        steps[a] matches StepView::Perform(EffectView::RenameTab { tab: one, .. }) && (
        steps[b] matches StepView::Perform(EffectView::RenameTab { tab: two, .. }) && one != two),
{
    let loaded = before.reloaded(persisted);
    let n = loaded.tabs.len() as int;
    let marks = loaded.marked(n).1;
    let order = lemma_steps(before, persisted, steps);
    let i = if a < marks.len() {
        let i = lemma_mark_at(loaded, n, a);
        lemma_mark_of(loaded, i);
        i
    } else {
        lemma_restored(loaded, order, a - marks.len())
    };
    let j = if b < marks.len() {
        let j = lemma_mark_at(loaded, n, b);
        lemma_mark_of(loaded, j);
        j
    } else {
        lemma_restored(loaded, order, b - marks.len())
    };
    assert(loaded.tabs[i].position != loaded.tabs[j].position) by {
        if b < marks.len() {
            assert(i != j);
            assert(before.tabs[i].position != before.tabs[j].position);
        } else if a >= marks.len() {
            assert(order[a - marks.len()] != order[b - marks.len()]);
        }
    }
    assert(before.tabs[i].position <= u32::MAX);
    assert(before.tabs[j].position <= u32::MAX);
}

/// Icons come in the order of the tabs, and before any name is given back.
pub proof fn law_order_of_renames(
    before: StateView,
    persisted: PersistedStateView,
    steps: Seq<StepView>,
    i: int,
    j: int,
)
    requires
        before.config.enabled,
        before.updates_names(persisted, steps),
        0 <= i < before.tabs.len(),
        0 <= j < before.tabs.len(),
        (StateView { notification_state: persisted.notifications, ..before }).kind_at(
            before.tabs[i].position,
        ) is Some,
        if (StateView { notification_state: persisted.notifications, ..before }).kind_at(
            before.tabs[j].position,
        ) is Some {
            i < j
        } else {
            persisted.original_tab_names.contains_key(before.tabs[j].position)
        },
    ensures
        exists|a: int, b: int|
            0 <= a < b < steps.len() && (#[trigger] steps[a] matches StepView::Perform(
                EffectView::RenameTab { tab, .. },
            ) && tab == before.tabs[i].position as u32) && (#[trigger] steps[b]
                matches StepView::Perform(EffectView::RenameTab { tab, .. }) && tab
                == before.tabs[j].position as u32),
{
    let loaded = before.reloaded(persisted);
    let told = StateView { notification_state: persisted.notifications, ..before };
    let n = loaded.tabs.len() as int;
    let p = before.tabs[i].position;
    let q = before.tabs[j].position;
    assert(told.kind_at(p) == loaded.kind_at(p));
    assert(told.kind_at(q) == loaded.kind_at(q));
    let order = lemma_steps(before, persisted, steps);
    lemma_mark_of(loaded, i);
    assert(loaded.tabs[i].position == p && loaded.tabs[j].position == q);
    let marks = loaded.marked(n).1;
    let a = loaded.marked(i).1.len() as int;
    assert(steps[a] == marks[a]);
    if loaded.kind_at(q) is Some {
        lemma_mark_of(loaded, j);
        lemma_marks_stay(loaded, i + 1, j);
        let b = loaded.marked(j).1.len() as int;
        assert(steps[b] == marks[b]);
        assert(a < b);
    } else {
        lemma_marked_names(loaded, n, q);
        assert(host::is_position(loaded.tabs, q));
        assert(loaded.restored_positions().contains(q));
        let k = choose|k: int| 0 <= k < order.len() && order[k] == q;
        let b = marks.len() + k;
        assert(steps[b] == shared::rename(q, loaded.all_names()[q]));
        assert(a < b);
    }
}

/// What an instance knows after an update: the notifications in the file; of the tabs that show
/// one, the name in the file or else the name that the first tab there has, which is the word Tab
/// and its number if it has none; and everything else as before.
pub proof fn law_what_is_known_after_an_update(
    before: StateView,
    persisted: PersistedStateView,
    position: usize,
    i: int,
)
    requires
        before.config.enabled,
    ensures
        ({
            let next = before.names_updated(persisted);
            let told = StateView { notification_state: persisted.notifications, ..before };
            let names = next.original_tab_names;
            &&& next == (StateView {
                notification_state: persisted.notifications,
                original_tab_names: names,
                ..before
            })
            &&& names.contains_key(position) <==> told.kind_at(position) is Some && exists|j: int|
                0 <= j < before.tabs.len() && (#[trigger] before.tabs[j]).position == position
            &&& names.contains_key(position) && persisted.original_tab_names.contains_key(position)
                ==> names[position] == persisted.original_tab_names[position]
            &&& names.contains_key(position) && !persisted.original_tab_names.contains_key(position)
                && 0 <= i < before.tabs.len() && before.tabs[i].position == position && (forall|
                j: int,
            | 0 <= j < i ==> (#[trigger] before.tabs[j]).position != position) ==> names[position]
                == if before.tabs[i].name.len() == 0 {
                "Tab #"@ + text::decimal((position + 1) as nat)
            } else {
                before.tabs[i].name
            }
        }),
{
    let loaded = before.reloaded(persisted);
    let told = StateView { notification_state: persisted.notifications, ..before };
    let next = before.names_updated(persisted);
    assert(told.kind_at(position) == loaded.kind_at(position));
    law_names_of_notified_tabs(before, persisted);
    assert(next.original_tab_names.dom().contains(position)
        == loaded.notified_positions().contains(position));
    assert(host::is_position(loaded.tabs, position) == host::is_position(before.tabs, position));
    lemma_marked_names(loaded, loaded.tabs.len() as int, position);
    if next.original_tab_names.contains_key(position) && 0 <= i < before.tabs.len()
        && before.tabs[i].position == position && (forall|j: int|
        0 <= j < i ==> (#[trigger] before.tabs[j]).position != position) {
        law_own_name_is_remembered(before, persisted, i);
    }
}

/// While an instance is disabled an update takes over what is in the file and does nothing.
pub proof fn law_disabled_update(
    before: StateView,
    persisted: PersistedStateView,
    steps: Seq<StepView>,
)
    requires
        !before.config.enabled,
        before.updates_names(persisted, steps),
    ensures
        steps == Seq::<StepView>::empty(),
        before.names_updated(persisted) == (StateView {
            notification_state: persisted.notifications,
            original_tab_names: persisted.original_tab_names,
            ..before
        }),
{
}

/// Taking over the file replaces the notifications and the names, and nothing else; what goes into
/// the file is these two.
pub proof fn law_file_holds_notifications_and_names(
    before: StateView,
    persisted: PersistedStateView,
)
    ensures
        before.reloaded(persisted) == (StateView {
            notification_state: persisted.notifications,
            original_tab_names: persisted.original_tab_names,
            ..before
        }),
        before.persisted() == (PersistedStateView {
            notifications: before.notification_state,
            original_tab_names: before.original_tab_names,
        }),
{
}

// Events and messages

/// The answer to the permissions: the instance cannot be selected, then the names are updated,
/// and it wants to be drawn.
pub proof fn law_permissions(before: StateView, granted: bool)
    ensures
        before.after_event(EventView::PermissionRequestResult(granted)) == (
            StateView { permissions_granted: granted, ..before },
            ResponseView {
                render: true,
                steps: seq![
                    StepView::Perform(EffectView::SetSelectable(false)),
                    StepView::Reload,
                ],
            },
        ),
{
}

/// A change of the tabs or of the panes replaces them and clears the focused pane. If that pane had
/// notifications, the rest is saved and the names are updated; the names are updated in any case.
pub proof fn law_change(before: StateView, event: EventView)
    requires
        event is TabUpdate || event is PaneUpdate,
    ensures
        ({
            let told = match event {
                EventView::TabUpdate(tabs) => StateView { tabs, ..before },
                EventView::PaneUpdate(panes) => StateView { panes, ..before },
                _ => before,
            };
            let next = before.after_event(event);
            let had = told.focus() is Some && before.notification_state.contains_key(
                told.focus()->0,
            );
            &&& next.0 == (StateView {
                notification_state: if had {
                    before.notification_state.remove(told.focus()->0)
                } else {
                    before.notification_state
                },
                ..told
            })
            &&& !next.1.render
            &&& next.1.steps == if had {
                seq![
                    StepView::Save(
                        PersistedStateView {
                            notifications: before.notification_state.remove(told.focus()->0),
                            original_tab_names: before.original_tab_names,
                        },
                    ),
                    StepView::Reload,
                    StepView::Reload,
                ]
            } else {
                seq![StepView::Reload]
            }
        }),
{
    let told = match event {
        EventView::TabUpdate(tabs) => StateView { tabs, ..before },
        EventView::PaneUpdate(panes) => StateView { panes, ..before },
        _ => before,
    };
    law_focus_clears(told, 0);
    let steps = before.after_event(event).1.steps;
    if told.focus_is_notified() {
        assert(steps =~= seq![
            StepView::Save(told.focus_cleared().persisted()),
            StepView::Reload,
            StepView::Reload,
        ]);
    } else {
        assert(steps =~= seq![StepView::Reload]);
    }
}

/// Any other event is not answered and changes nothing.
pub proof fn law_other_events(before: StateView)
    ensures
        before.after_event(EventView::Other) == (
            before,
            ResponseView { render: false, steps: seq![] },
        ),
{
}

/// A message that notifies gives its pane exactly that notification and leaves every other pane
/// and everything else alone; the result is saved, the names are updated, and then the sender is
/// unblocked.
pub proof fn law_message_sets_its_pane(
    before: StateView,
    pipe: Seq<char>,
    pane: u32,
    kind: NotificationType,
)
    ensures
        ({
            let next = before.after_message(pipe, MessageView::Notify { pane, kind });
            let notifications = before.notification_state.insert(
                pane,
                NotificationSet { waiting: kind is Waiting, completed: kind is Completed },
            );
            &&& next.0 == (StateView { notification_state: notifications, ..before })
            &&& !next.1.render
            &&& next.1.steps == seq![
                StepView::Save(
                    PersistedStateView {
                        notifications,
                        original_tab_names: before.original_tab_names,
                    },
                ),
                StepView::Reload,
                StepView::Perform(EffectView::UnblockPipe { pipe }),
            ]
        }),
{
}

/// A message that is refused is reported, and its sender unblocked unless the event is unknown;
/// one to others is not answered. Neither changes anything.
pub proof fn law_messages_without_effect(
    before: StateView,
    pipe: Seq<char>,
    error: MessageErrorView,
)
    ensures
        before.after_message(pipe, MessageView::Rejected(error)) == (
            before,
            ResponseView {
                render: false,
                steps: if error is UnknownEvent {
                    seq![StepView::Perform(EffectView::Report(error))]
                } else {
                    seq![
                        StepView::Perform(EffectView::Report(error)),
                        StepView::Perform(EffectView::UnblockPipe { pipe }),
                    ]
                },
            },
        ),
        before.after_message(pipe, MessageView::Ignored) == (
            before,
            ResponseView { render: false, steps: seq![] },
        ),
{
}

/// What is done after notifications may have changed: they are saved and the names updated if they
/// did, and nothing otherwise.
pub proof fn law_changes_are_saved(before: StateView, next: StateView)
    ensures
        next.published_since(before) == if next.notification_state != before.notification_state {
            seq![
                StepView::Save(
                    PersistedStateView {
                        notifications: next.notification_state,
                        original_tab_names: next.original_tab_names,
                    },
                ),
                StepView::Reload,
            ]
        } else {
            seq![]
        },
{
}

} // verus!
