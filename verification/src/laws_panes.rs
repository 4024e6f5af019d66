//! Which notification a tab shows, which panes have the focus and which exist, said of the lists of
//! panes themselves.

use vstd::prelude::*;

use crate::host::{PaneInfo, TabView};
use crate::panes;
use crate::plugin;
use crate::shared;
use crate::state::{NotificationSet, NotificationType};

verus! {

/// A tab shows Waiting if one of its terminals waits, Completed if none waits and one has
/// completed, and nothing otherwise. Plugin panes do not count.
pub proof fn law_tab_shows_the_strongest(state: plugin::StateView, position: usize)
    ensures
        ({
            let known = state.panes.contains_key(position);
            let list = state.panes[position];
            let sets = state.notification_state;
            let waits = known && exists|k: int|
                0 <= k < list.len() && !(#[trigger] list[k]).is_plugin && sets.contains_key(
                    list[k].id,
                ) && sets[list[k].id].waiting;
            let done = known && exists|k: int|
                0 <= k < list.len() && !(#[trigger] list[k]).is_plugin && sets.contains_key(
                    list[k].id,
                ) && sets[list[k].id].completed;
            state.kind_at(position) == if waits {
                Some(NotificationType::Waiting)
            } else if done {
                Some(NotificationType::Completed)
            } else {
                None
            }
        }),
{
    lemma_tab_holds(state.panes, state.notification_state, position, false);
}

/// With the state file, too, a tab shows Waiting if one of its panes waits, Completed if none
/// waits and one has completed, and nothing otherwise. Here every pane counts.
pub proof fn law_shared_tab_shows_the_strongest(state: shared::StateView, position: usize)
    ensures
        ({
            let known = state.panes.contains_key(position);
            let list = state.panes[position];
            let sets = state.notification_state;
            let waits = known && exists|k: int|
                0 <= k < list.len() && sets.contains_key((#[trigger] list[k]).id)
                    && sets[list[k].id].waiting;
            let done = known && exists|k: int|
                0 <= k < list.len() && sets.contains_key((#[trigger] list[k]).id)
                    && sets[list[k].id].completed;
            state.kind_at(position) == if waits {
                Some(NotificationType::Waiting)
            } else if done {
                Some(NotificationType::Completed)
            } else {
                None
            }
        }),
{
    lemma_tab_holds(state.panes, state.notification_state, position, true);
}

/// What a tab shows, said of the panes that count: every pane, or the terminals only.
pub proof fn law_waiting_before_completed(
    panes: Map<usize, Seq<PaneInfo>>,
    sets: Map<u32, NotificationSet>,
    position: usize,
    with_plugins: bool,
)
    ensures
        ({
            let known = panes.contains_key(position);
            let list = panes[position];
            let waits = known && exists|k: int|
                0 <= k < list.len() && (with_plugins || !(#[trigger] list[k]).is_plugin)
                    && sets.contains_key(list[k].id) && sets[list[k].id].waiting;
            let done = known && exists|k: int|
                0 <= k < list.len() && (with_plugins || !(#[trigger] list[k]).is_plugin)
                    && sets.contains_key(list[k].id) && sets[list[k].id].completed;
            panes::tab_kind(panes, sets, position, with_plugins) == if waits {
                Some(NotificationType::Waiting)
            } else if done {
                Some(NotificationType::Completed)
            } else {
                None
            }
        }),
{
    lemma_tab_holds(panes, sets, position, with_plugins);
}

proof fn lemma_tab_holds(
    panes: Map<usize, Seq<PaneInfo>>,
    sets: Map<u32, NotificationSet>,
    position: usize,
    with_plugins: bool,
)
    ensures
        forall|kind: NotificationType|
            panes.contains_key(position) ==> (#[trigger] panes::tab_holds(
                panes,
                sets,
                position,
                with_plugins,
                kind,
            ) <==> exists|k: int|
                0 <= k < panes[position].len() && (with_plugins || !(
                #[trigger] panes[position][k]).is_plugin) && sets.contains_key(
                    panes[position][k].id,
                ) && match kind {
                    NotificationType::Waiting => sets[panes[position][k].id].waiting,
                    NotificationType::Completed => sets[panes[position][k].id].completed,
                }),
{
    if panes.contains_key(position) {
        assert forall|kind: NotificationType|
            #[trigger] panes::tab_holds(panes, sets, position, with_plugins, kind) <==> exists|
                k: int,
            |
                0 <= k < panes[position].len() && (with_plugins || !(
                #[trigger] panes[position][k]).is_plugin) && sets.contains_key(
                    panes[position][k].id,
                ) && match kind {
                    NotificationType::Waiting => sets[panes[position][k].id].waiting,
                    NotificationType::Completed => sets[panes[position][k].id].completed,
                } by {
            if panes::tab_holds(panes, sets, position, with_plugins, kind) {
                let k = choose|k: int|
                    0 <= k < panes[position].len() && panes::pane_holds(
                        #[trigger] panes[position][k],
                        sets,
                        with_plugins,
                        kind,
                    );
                assert(panes::pane_holds(panes[position][k], sets, with_plugins, kind));
            }
        }
    }
}

/// Of a list of panes the first one has the focus that is focused in the layer that is shown:
/// a floating pane while floating panes are shown, a tiled one while they are hidden. Plugin panes
/// count only if asked for.
pub proof fn law_focus_is_in_the_shown_layer(
    list: Seq<PaneInfo>,
    floating_visible: bool,
    with_plugins: bool,
    id: u32,
)
    ensures
        panes::focused_id(list, floating_visible, with_plugins) == Some(id) <==> exists|k: int|
            0 <= k < list.len() && (#[trigger] list[k]).id == id && list[k].is_focused
                && list[k].is_floating == floating_visible && (with_plugins || !list[k].is_plugin)
                && forall|j: int|
                0 <= j < k && (#[trigger] list[j]).is_focused && list[j].is_floating
                    == floating_visible ==> !with_plugins && list[j].is_plugin,
    decreases list.len(),
{
    if list.len() > 0 {
        let rest = list.skip(1);
        law_focus_is_in_the_shown_layer(rest, floating_visible, with_plugins, id);
        let fits = |pane: PaneInfo|
            pane.is_focused && pane.is_floating == floating_visible && (with_plugins
                || !pane.is_plugin);
        if fits(list[0]) {
            if list[0].id == id {
                assert(list[0].id == id);
            }
        } else {
            if panes::focused_id(rest, floating_visible, with_plugins) == Some(id) {
                let k = choose|k: int|
                    0 <= k < rest.len() && (#[trigger] rest[k]).id == id && rest[k].is_focused
                        && rest[k].is_floating == floating_visible && (with_plugins
                        || !rest[k].is_plugin) && forall|j: int|
                        0 <= j < k && (#[trigger] rest[j]).is_focused && rest[j].is_floating
                            == floating_visible ==> !with_plugins && rest[j].is_plugin;
                assert(list[k + 1] == rest[k]);
                assert forall|j: int|
                    0 <= j < k + 1 && (#[trigger] list[j]).is_focused && list[j].is_floating
                        == floating_visible implies !with_plugins && list[j].is_plugin by {
                    if j > 0 {
                        assert(list[j] == rest[j - 1]);
                    }
                }
            }
            if exists|k: int|
                0 <= k < list.len() && (#[trigger] list[k]).id == id && list[k].is_focused
                    && list[k].is_floating == floating_visible && (with_plugins
                    || !list[k].is_plugin) && forall|j: int|
                    0 <= j < k && (#[trigger] list[j]).is_focused && list[j].is_floating
                        == floating_visible ==> !with_plugins && list[j].is_plugin {
                let k = choose|k: int|
                    0 <= k < list.len() && (#[trigger] list[k]).id == id && list[k].is_focused
                        && list[k].is_floating == floating_visible && (with_plugins
                        || !list[k].is_plugin) && forall|j: int|
                        0 <= j < k && (#[trigger] list[j]).is_focused && list[j].is_floating
                            == floating_visible ==> !with_plugins && list[j].is_plugin;
                assert(k > 0);
                assert(rest[k - 1] == list[k]);
                assert forall|j: int|
                    0 <= j < k - 1 && (#[trigger] rest[j]).is_focused && rest[j].is_floating
                        == floating_visible implies !with_plugins && rest[j].is_plugin by {
                    assert(rest[j] == list[j + 1]);
                }
            }
        }
    }
}

/// With the state file, the focused pane is the first one that is focused in the shown layer of
/// the first active tab.
pub proof fn law_focused_pane_of_the_first_active_tab(state: shared::StateView, id: u32)
    ensures
        state.focus() == Some(id) <==> exists|i: int, k: int|
            0 <= i < state.tabs.len() && (#[trigger] state.tabs[i]).active && (forall|j: int|
                0 <= j < i ==> !(#[trigger] state.tabs[j]).active) && state.panes.contains_key(
                state.tabs[i].position,
            ) && 0 <= k < state.panes[state.tabs[i].position].len() && (
            #[trigger] state.panes[state.tabs[i].position][k]).id == id
                && state.panes[state.tabs[i].position][k].is_focused
                && state.panes[state.tabs[i].position][k].is_floating
                == state.tabs[i].are_floating_panes_visible && forall|j: int|
                0 <= j < k && (#[trigger] state.panes[state.tabs[i].position][j]).is_focused
                    ==> state.panes[state.tabs[i].position][j].is_floating
                    != state.tabs[i].are_floating_panes_visible,
{
    lemma_active_tab(state.tabs);
    let found = |i: int, k: int|
        {
            let list = state.panes[state.tabs[i].position];
            let shown = state.tabs[i].are_floating_panes_visible;
            0 <= i < state.tabs.len() && state.tabs[i].active && (forall|j: int|
                0 <= j < i ==> !(#[trigger] state.tabs[j]).active) && state.panes.contains_key(
                state.tabs[i].position,
            ) && 0 <= k < list.len() && list[k].id == id && list[k].is_focused
                && list[k].is_floating == shown && forall|j: int|
                0 <= j < k && (#[trigger] list[j]).is_focused ==> list[j].is_floating != shown
        };
    if state.focus() == Some(id) {
        let tab = shared::active_tab(state.tabs)->0;
        let i = choose|i: int|
            0 <= i < state.tabs.len() && #[trigger] state.tabs[i] == tab && tab.active && forall|
                j: int,
            |
                0 <= j < i ==> !(#[trigger] state.tabs[j]).active;
        let list = state.panes[state.tabs[i].position];
        let shown = state.tabs[i].are_floating_panes_visible;
        law_focus_is_in_the_shown_layer(list, shown, true, id);
        let k = choose|k: int|
            0 <= k < list.len() && (#[trigger] list[k]).id == id && list[k].is_focused
                && list[k].is_floating == shown && (true || !list[k].is_plugin) && forall|j: int|
                0 <= j < k && (#[trigger] list[j]).is_focused && list[j].is_floating == shown
                    ==> !true && list[j].is_plugin;
        assert(found(i, k));
        assert(state.panes[state.tabs[i].position][k].id == id);
    }
    if exists|i: int, k: int| #[trigger] found(i, k) {
        let (i, k) = choose|i: int, k: int| #[trigger] found(i, k);
        let list = state.panes[state.tabs[i].position];
        let shown = state.tabs[i].are_floating_panes_visible;
        assert(state.tabs[i].active);
        law_focus_is_in_the_shown_layer(list, shown, true, id);
        assert(list[k].id == id);
        assert(shared::active_tab(state.tabs) == Some(state.tabs[i]));
    }
    assert forall|i: int, k: int|
        0 <= i < state.tabs.len() && (#[trigger] state.tabs[i]).active && (forall|j: int|
            0 <= j < i ==> !(#[trigger] state.tabs[j]).active) && state.panes.contains_key(
            state.tabs[i].position,
        ) && 0 <= k < state.panes[state.tabs[i].position].len() && (
        #[trigger] state.panes[state.tabs[i].position][k]).id == id
            && state.panes[state.tabs[i].position][k].is_focused
            && state.panes[state.tabs[i].position][k].is_floating
            == state.tabs[i].are_floating_panes_visible && (forall|j: int|
            0 <= j < k && (#[trigger] state.panes[state.tabs[i].position][j]).is_focused
                ==> state.panes[state.tabs[i].position][j].is_floating
                != state.tabs[i].are_floating_panes_visible) implies found(i, k) by {}
}

/// The active tab is the first one that is active.
proof fn lemma_active_tab(tabs: Seq<TabView>)
    ensures
        match shared::active_tab(tabs) {
            Some(tab) => exists|i: int|
                0 <= i < tabs.len() && #[trigger] tabs[i] == tab && tab.active && forall|j: int|
                    0 <= j < i ==> !(#[trigger] tabs[j]).active,
            None => forall|i: int| 0 <= i < tabs.len() ==> !(#[trigger] tabs[i]).active,
        },
        forall|i: int|
            0 <= i < tabs.len() && (#[trigger] tabs[i]).active && (forall|j: int|
                0 <= j < i ==> !(#[trigger] tabs[j]).active) ==> shared::active_tab(tabs) == Some(
                tabs[i],
            ),
    decreases tabs.len(),
{
    if tabs.len() > 0 {
        let rest = tabs.skip(1);
        lemma_active_tab(rest);
        if tabs[0].active {
            assert(tabs[0] == tabs[0]);
            assert forall|i: int|
                0 <= i < tabs.len() && (#[trigger] tabs[i]).active && (forall|j: int|
                    0 <= j < i ==> !(#[trigger] tabs[j]).active) implies i == 0 by {
                if i > 0 {
                    assert(!tabs[0].active);
                }
            }
        } else {
            match shared::active_tab(rest) {
                Some(tab) => {
                    let i = choose|i: int|
                        0 <= i < rest.len() && #[trigger] rest[i] == tab && tab.active && forall|
                            j: int,
                        |
                            0 <= j < i ==> !(#[trigger] rest[j]).active;
                    assert(tabs[i + 1] == tab);
                    assert forall|j: int| 0 <= j < i + 1 implies !(#[trigger] tabs[j]).active by {
                        if j > 0 {
                            assert(rest[j - 1] == tabs[j]);
                        }
                    }
                },
                None => {
                    assert forall|i: int| 0 <= i < tabs.len() implies !(
                    #[trigger] tabs[i]).active by {
                        if i > 0 {
                            assert(rest[i - 1] == tabs[i]);
                        }
                    }
                },
            }
            assert forall|i: int|
                0 <= i < tabs.len() && (#[trigger] tabs[i]).active && (forall|j: int|
                    0 <= j < i ==> !(#[trigger] tabs[j]).active) implies shared::active_tab(tabs)
                == Some(tabs[i]) by {
                assert(rest[i - 1] == tabs[i]);
                assert forall|j: int| 0 <= j < i - 1 implies !(#[trigger] rest[j]).active by {
                    assert(rest[j] == tabs[j + 1]);
                }
            }
        }
    }
}

/// Clearing takes away the notifications of the terminals that clients look at, and nothing else:
/// in each active tab, of the first terminal that is focused in the shown layer.
pub proof fn law_what_clients_look_at_is_cleared(state: plugin::StateView, pane: u32)
    ensures
        ({
            let looked_at = exists|i: int, k: int|
                0 <= i < state.tabs.len() && (#[trigger] state.tabs[i]).active
                    && state.panes.contains_key(state.tabs[i].position) && 0 <= k
                    < state.panes[state.tabs[i].position].len() && (
                #[trigger] state.panes[state.tabs[i].position][k]).id == pane
                    && !state.panes[state.tabs[i].position][k].is_plugin
                    && state.panes[state.tabs[i].position][k].is_focused
                    && state.panes[state.tabs[i].position][k].is_floating
                    == state.tabs[i].are_floating_panes_visible && forall|j: int|
                    0 <= j < k && (#[trigger] state.panes[state.tabs[i].position][j]).is_focused
                        && state.panes[state.tabs[i].position][j].is_floating
                        == state.tabs[i].are_floating_panes_visible
                        ==> state.panes[state.tabs[i].position][j].is_plugin;
            state.focus_cleared().notification_state.get(pane) == if looked_at {
                None
            } else {
                state.notification_state.get(pane)
            }
        }),
        state.focus_cleared() == (plugin::StateView {
            notification_state: state.focus_cleared().notification_state,
            ..state
        }),
{
    let found = |i: int, k: int|
        {
            let list = state.panes[state.tabs[i].position];
            let shown = state.tabs[i].are_floating_panes_visible;
            0 <= i < state.tabs.len() && state.tabs[i].active && state.panes.contains_key(
                state.tabs[i].position,
            ) && 0 <= k < list.len() && list[k].id == pane && !list[k].is_plugin
                && list[k].is_focused && list[k].is_floating == shown && forall|j: int|
                0 <= j < k && (#[trigger] list[j]).is_focused && list[j].is_floating == shown
                    ==> list[j].is_plugin
        };
    if state.is_focused_in(state.tabs.len() as int, pane) {
        let i = choose|i: int|
            0 <= i < state.tabs.len() && state.focus_of(#[trigger] state.tabs[i]) == Some(pane);
        let list = state.panes[state.tabs[i].position];
        let shown = state.tabs[i].are_floating_panes_visible;
        law_focus_is_in_the_shown_layer(list, shown, false, pane);
        let k = choose|k: int|
            0 <= k < list.len() && (#[trigger] list[k]).id == pane && list[k].is_focused
                && list[k].is_floating == shown && (false || !list[k].is_plugin) && forall|j: int|
                0 <= j < k && (#[trigger] list[j]).is_focused && list[j].is_floating == shown
                    ==> !false && list[j].is_plugin;
        assert(found(i, k));
        assert(state.tabs[i].active);
        assert(state.panes[state.tabs[i].position][k].id == pane);
    }
    if exists|i: int, k: int| #[trigger] found(i, k) {
        let (i, k) = choose|i: int, k: int| #[trigger] found(i, k);
        let list = state.panes[state.tabs[i].position];
        law_focus_is_in_the_shown_layer(
            list,
            state.tabs[i].are_floating_panes_visible,
            false,
            pane,
        );
        assert(list[k].id == pane);
        assert(state.focus_of(state.tabs[i]) == Some(pane));
    }
    assert forall|i: int, k: int|
        0 <= i < state.tabs.len() && (#[trigger] state.tabs[i]).active
            && state.panes.contains_key(state.tabs[i].position) && 0 <= k
            < state.panes[state.tabs[i].position].len() && (
        #[trigger] state.panes[state.tabs[i].position][k]).id == pane
            && !state.panes[state.tabs[i].position][k].is_plugin
            && state.panes[state.tabs[i].position][k].is_focused
            && state.panes[state.tabs[i].position][k].is_floating
            == state.tabs[i].are_floating_panes_visible && (forall|j: int|
            0 <= j < k && (#[trigger] state.panes[state.tabs[i].position][j]).is_focused
                && state.panes[state.tabs[i].position][j].is_floating
                == state.tabs[i].are_floating_panes_visible
                ==> state.panes[state.tabs[i].position][j].is_plugin) implies found(i, k) by {}
    assert(state.focused().contains(pane) == state.is_focused_in(state.tabs.len() as int, pane));
}

/// With the state file, clearing takes away the notifications of the focused pane, if there is
/// one, and nothing else.
pub proof fn law_focused_pane_is_cleared(state: shared::StateView, pane: u32)
    ensures
        state.focus_cleared().notification_state.get(pane) == if state.focus() == Some(pane) {
            None
        } else {
            state.notification_state.get(pane)
        },
        state.focus_cleared() == (shared::StateView {
            notification_state: state.focus_cleared().notification_state,
            ..state
        }),
{
}

/// Cleaning takes away the notifications of ids that no terminal has, and nothing else; while no
/// panes are known, nothing.
pub proof fn law_terminals_that_exist_keep_theirs(state: plugin::StateView, pane: u32)
    ensures
        ({
            let exists_now = exists|position: usize, k: int|
                state.panes.contains_key(position) && 0 <= k < state.panes[position].len() && (
                #[trigger] state.panes[position][k]).id == pane
                    && !state.panes[position][k].is_plugin;
            let nothing_known = forall|position: usize| !state.panes.contains_key(position);
            state.stale_cleaned().notification_state.get(pane) == if exists_now || nothing_known {
                state.notification_state.get(pane)
            } else {
                None
            }
        }),
        state.stale_cleaned() == (plugin::StateView {
            notification_state: state.stale_cleaned().notification_state,
            ..state
        }),
{
    lemma_is_live(state.panes, false, pane);
    lemma_nothing_known(state.panes);
}

proof fn lemma_nothing_known(panes: Map<usize, Seq<PaneInfo>>)
    ensures
        panes.is_empty() <==> forall|position: usize| !panes.contains_key(position),
{
    if forall|position: usize| !panes.contains_key(position) {
        assert(panes.dom() =~= Set::empty());
        assert(panes =~= Map::empty());
    }
    if panes.is_empty() {
        assert(panes.dom() =~= Set::<usize>::empty());
    }
}

proof fn lemma_is_live(panes: Map<usize, Seq<PaneInfo>>, with_plugins: bool, pane: u32)
    ensures
        panes::is_live(panes, with_plugins, pane) <==> exists|position: usize, k: int|
            panes.contains_key(position) && 0 <= k < panes[position].len() && (
            #[trigger] panes[position][k]).id == pane && (with_plugins
                || !panes[position][k].is_plugin),
{
    if panes::is_live(panes, with_plugins, pane) {
        let (position, k) = choose|position: usize, k: int|
            panes.contains_key(position) && 0 <= k < panes[position].len() && panes::counts(
                #[trigger] panes[position][k],
                with_plugins,
            ) && panes[position][k].id == pane;
        assert(panes[position][k].id == pane);
    }
    if exists|position: usize, k: int|
        panes.contains_key(position) && 0 <= k < panes[position].len() && (
        #[trigger] panes[position][k]).id == pane && (with_plugins
            || !panes[position][k].is_plugin) {
        let (position, k) = choose|position: usize, k: int|
            panes.contains_key(position) && 0 <= k < panes[position].len() && (
            #[trigger] panes[position][k]).id == pane && (with_plugins
                || !panes[position][k].is_plugin);
        assert(panes::counts(panes[position][k], with_plugins));
    }
}

/// The ids that exist are those of the panes that count, in whatever tab; of the notifications
/// those of these ids are kept.
pub proof fn law_ids_that_exist(
    panes: Map<usize, Seq<PaneInfo>>,
    with_plugins: bool,
    sets: Map<u32, NotificationSet>,
    live: Set<u32>,
    id: u32,
)
    ensures
        panes::live_ids(panes, with_plugins).contains(id) <==> exists|position: usize, k: int|
            panes.contains_key(position) && 0 <= k < panes[position].len() && (
            #[trigger] panes[position][k]).id == id && (with_plugins
                || !panes[position][k].is_plugin),
        panes::kept(sets, live).get(id) == if live.contains(id) {
            sets.get(id)
        } else {
            None
        },
{
    lemma_is_live(panes, with_plugins, id);
}

/// With the state file, cleaning takes away the notifications of ids that no pane has, and nothing
/// else.
pub proof fn law_panes_that_exist_keep_theirs(state: shared::StateView, pane: u32)
    ensures
        ({
            let exists_now = exists|position: usize, k: int|
                state.panes.contains_key(position) && 0 <= k < state.panes[position].len() && (
                #[trigger] state.panes[position][k]).id == pane;
            state.stale_cleaned().notification_state.get(pane) == if exists_now {
                state.notification_state.get(pane)
            } else {
                None
            }
        }),
        state.stale_cleaned() == (shared::StateView {
            notification_state: state.stale_cleaned().notification_state,
            ..state
        }),
{
    lemma_is_live(state.panes, true, pane);
}

} // verus!
