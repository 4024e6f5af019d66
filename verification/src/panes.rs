//! Which panes have notifications, which have the focus, and which exist.

use std::collections::{HashMap, HashSet};
use vstd::prelude::*;

use crate::host::{PaneInfo, PaneManifest};
use crate::state::{NotificationSet, NotificationType};

verus! {

/// Whether a pane is looked at: every pane if `with_plugins`, else the terminals only, since the
/// ids of plugin panes overlap with theirs.
pub open spec fn counts(pane: PaneInfo, with_plugins: bool) -> bool {
    with_plugins || !pane.is_plugin
}

/// Whether a pane of the tab at `position` has a notification of this kind.
pub open spec fn tab_holds(
    panes: Map<usize, Seq<PaneInfo>>,
    notifications: Map<u32, NotificationSet>,
    position: usize,
    with_plugins: bool,
    kind: NotificationType,
) -> bool {
    panes.contains_key(position) && exists|i: int|
        0 <= i < panes[position].len() && pane_holds(
            #[trigger] panes[position][i],
            notifications,
            with_plugins,
            kind,
        )
}

/// Whether a pane has a notification of this kind.
pub open spec fn pane_holds(
    pane: PaneInfo,
    notifications: Map<u32, NotificationSet>,
    with_plugins: bool,
    kind: NotificationType,
) -> bool {
    counts(pane, with_plugins) && notifications.contains_key(pane.id)
        && notifications[pane.id].holds(kind)
}

/// The notification that the tab at `position` shows. Waiting seeks attention, so it comes before
/// Completed.
pub open spec fn tab_kind(
    panes: Map<usize, Seq<PaneInfo>>,
    notifications: Map<u32, NotificationSet>,
    position: usize,
    with_plugins: bool,
) -> Option<NotificationType> {
    if tab_holds(panes, notifications, position, with_plugins, NotificationType::Waiting) {
        Some(NotificationType::Waiting)
    } else if tab_holds(panes, notifications, position, with_plugins, NotificationType::Completed) {
        Some(NotificationType::Completed)
    } else {
        None
    }
}

/// Finds the notification that the tab at `position` shows.
pub fn find_tab_kind(
    panes: &PaneManifest,
    notifications: &HashMap<u32, NotificationSet>,
    position: usize,
    with_plugins: bool,
) -> (r: Option<NotificationType>)
    ensures
        r == tab_kind(panes@, notifications@, position, with_plugins),
{
    let list: &Vec<PaneInfo> = match panes.panes.get(&position) {
        Some(list) => list,
        None => {
            return None;
        },
    };
    assert(panes@.contains_key(position) && panes@[position] == list@);
    let mut has_completed = false;
    let mut i: usize = 0;
    while i < list.len()
        invariant
            i <= list.len(),
            panes@.contains_key(position),
            panes@[position] == list@,
            forall|j: int|
                0 <= j < i ==> !pane_holds(
                    #[trigger] list@[j],
                    notifications@,
                    with_plugins,
                    NotificationType::Waiting,
                ),
            has_completed == exists|j: int|
                0 <= j < i && pane_holds(
                    #[trigger] list@[j],
                    notifications@,
                    with_plugins,
                    NotificationType::Completed,
                ),
        decreases list.len() - i,
    {
        let pane: PaneInfo = list[i];
        assert(list@[i as int] == pane);
        if with_plugins || !pane.is_plugin {
            if let Some(set) = notifications.get(&pane.id) {
                if set.contains(NotificationType::Waiting) {
                    return Some(NotificationType::Waiting);
                }
                if set.contains(NotificationType::Completed) {
                    has_completed = true;
                }
            }
        }
        i = i + 1;
    }
    if has_completed {
        Some(NotificationType::Completed)
    } else {
        None
    }
}

/// Whether a pane has the focus of its tab, whose floating panes are shown or not: when they are
/// shown only a floating pane can have it, when they are hidden only a tiled one.
pub open spec fn has_focus(pane: PaneInfo, floating_visible: bool, with_plugins: bool) -> bool {
    counts(pane, with_plugins) && pane.is_focused && pane.is_floating == floating_visible
}

/// The id of the first pane that has the focus.
pub open spec fn focused_id(
    panes: Seq<PaneInfo>,
    floating_visible: bool,
    with_plugins: bool,
) -> Option<u32>
    decreases panes.len(),
{
    if panes.len() == 0 {
        None
    } else if has_focus(panes[0], floating_visible, with_plugins) {
        Some(panes[0].id)
    } else {
        focused_id(panes.skip(1), floating_visible, with_plugins)
    }
}

/// Finds the first pane that has the focus.
pub fn find_focused(
    panes: &Vec<PaneInfo>,
    floating_visible: bool,
    with_plugins: bool,
) -> (r: Option<u32>)
    ensures
        r == focused_id(panes@, floating_visible, with_plugins),
{
    let mut i: usize = 0;
    assert(panes@.skip(0) =~= panes@);
    while i < panes.len()
        invariant
            i <= panes.len(),
            focused_id(panes@, floating_visible, with_plugins) == focused_id(
                panes@.skip(i as int),
                floating_visible,
                with_plugins,
            ),
        decreases panes.len() - i,
    {
        let pane: PaneInfo = panes[i];
        assert(panes@.skip(i as int)[0] == pane);
        assert(panes@.skip(i as int).skip(1) =~= panes@.skip(i + 1));
        if (with_plugins || !pane.is_plugin) && pane.is_focused && pane.is_floating
            == floating_visible {
            return Some(pane.id);
        }
        i = i + 1;
    }
    None
}

/// The ids of the panes that exist.
pub open spec fn live_ids(panes: Map<usize, Seq<PaneInfo>>, with_plugins: bool) -> Set<u32> {
    Set::new(|id: u32| is_live(panes, with_plugins, id))
}

/// Whether a pane with this id exists.
pub open spec fn is_live(
    panes: Map<usize, Seq<PaneInfo>>,
    with_plugins: bool,
    id: u32,
) -> bool {
    exists|position: usize, i: int|
        panes.contains_key(position) && 0 <= i < panes[position].len() && counts(
            #[trigger] panes[position][i],
            with_plugins,
        ) && panes[position][i].id == id
}

/// Collects the ids of the panes that exist.
pub fn collect_live(panes: &PaneManifest, with_plugins: bool) -> (r: HashSet<u32>)
    ensures
        r@ == live_ids(panes@, with_plugins),
{
    let mut ids: HashSet<u32> = HashSet::new();
    let ghost lists = vstd::std_specs::iter::IteratorSpec::remaining(&panes.panes.values());
    for list in it: panes.panes.values()
        invariant
            it.seq() == lists,
            lists.unref().to_set() == panes.panes@.values(),
            forall|id: u32| #[trigger]
                ids@.contains(id) <==> exists|k: int, i: int|
                    0 <= k < it.index() && 0 <= i < lists[k]@.len() && counts(
                        #[trigger] lists[k]@[i],
                        with_plugins,
                    ) && lists[k]@[i].id == id,
    {
        let ghost before = ids@;
        let mut j: usize = 0;
        while j < list.len()
            invariant
                j <= list.len(),
                forall|id: u32| #[trigger]
                    ids@.contains(id) <==> before.contains(id) || exists|i: int|
                        0 <= i < j && counts(#[trigger] list@[i], with_plugins) && list@[i].id == id,
            decreases list.len() - j,
        {
            let pane: PaneInfo = list[j];
            assert(list@[j as int] == pane);
            if with_plugins || !pane.is_plugin {
                ids.insert(pane.id);
            }
            j = j + 1;
        }
    }
    proof {
        assert forall|id: u32| #[trigger] ids@.contains(id) <==> is_live(panes@, with_plugins, id) by {
            if ids@.contains(id) {
                let (k, i) = choose|k: int, i: int|
                    0 <= k < lists.len() && 0 <= i < lists[k]@.len() && counts(
                        #[trigger] lists[k]@[i],
                        with_plugins,
                    ) && lists[k]@[i].id == id;
                assert(lists.unref()[k] == *lists[k]);
                assert(lists.unref().to_set().contains(*lists[k]));
                let position = choose|position: usize|
                    panes.panes@.contains_key(position) && panes.panes@[position] == *lists[k];
                assert(panes@[position][i] == lists[k]@[i]);
            }
            if is_live(panes@, with_plugins, id) {
                let (position, i) = choose|position: usize, i: int|
                    panes@.contains_key(position) && 0 <= i < panes@[position].len() && counts(
                        #[trigger] panes@[position][i],
                        with_plugins,
                    ) && panes@[position][i].id == id;
                let list = panes.panes@[position];
                assert(panes.panes@.values().contains(list));
                assert(lists.unref().to_set().contains(list));
                let k = choose|k: int| 0 <= k < lists.unref().len() && lists.unref()[k] == list;
                assert(lists[k]@[i] == panes@[position][i]);
            }
        }
        assert(ids@ =~= live_ids(panes@, with_plugins));
    }
    ids
}

/// The notifications of the panes that exist.
pub open spec fn kept(
    notifications: Map<u32, NotificationSet>,
    live: Set<u32>,
) -> Map<u32, NotificationSet> {
    notifications.restrict(live)
}

/// Removes the notifications of panes that do not exist. Says whether there were any.
pub fn drop_stale(
    notifications: &mut HashMap<u32, NotificationSet>,
    live: &HashSet<u32>,
) -> (r: bool)
    ensures
        final(notifications)@ == kept(old(notifications)@, live@),
        r == (final(notifications)@ != old(notifications)@),
{
    let mut stale: Vec<u32> = Vec::new();
    let ghost before = notifications@;
    let ghost keys = vstd::std_specs::iter::IteratorSpec::remaining(&notifications.keys());
    for key in it: notifications.keys()
        invariant
            it.seq() == keys,
            keys.unref().to_set() == notifications@.dom(),
            notifications@ == before,
            forall|id: u32| #[trigger]
                stale@.contains(id) <==> !live@.contains(id) && exists|k: int|
                    0 <= k < it.index() && *(#[trigger] keys[k]) == id,
    {
        let ghost listed = stale@;
        assert(keys[it.index()] == key);
        if !live.contains(key) {
            stale.push(*key);
            assert forall|id: u32| #[trigger] stale@.contains(id) <==> listed.contains(id) || id
                == *key by {
                assert(stale@[listed.len() as int] == *key);
                if listed.contains(id) {
                    let j = choose|j: int| 0 <= j < listed.len() && listed[j] == id;
                    assert(stale@[j] == id);
                }
            }
        }
    }
    assert forall|id: u32| #[trigger] stale@.contains(id) <==> before.contains_key(id)
        && !live@.contains(id) by {
        if before.contains_key(id) {
            assert(keys.unref().to_set().contains(id));
            let k = choose|k: int| 0 <= k < keys.unref().len() && keys.unref()[k] == id;
            assert(*keys[k] == id);
        }
        if stale@.contains(id) {
            let k = choose|k: int| 0 <= k < keys.len() && *(#[trigger] keys[k]) == id;
            assert(keys.unref()[k] == id);
            assert(keys.unref().to_set().contains(id));
        }
    }
    if stale.len() == 0 {
        assert forall|id: u32| before.contains_key(id) implies live@.contains(id) by {
            assert(!stale@.contains(id));
        }
        assert(before =~= kept(before, live@));
        return false;
    }
    let mut i: usize = 0;
    while i < stale.len()
        invariant
            i <= stale.len(),
            notifications@ == before.remove_keys(stale@.take(i as int).to_set()),
        decreases stale.len() - i,
    {
        notifications.remove(&stale[i]);
        assert(stale@.take(i + 1) =~= stale@.take(i as int).push(stale@[i as int]));
        assert(forall|id: u32|
            stale@.take(i + 1).contains(id) <==> stale@.take(i as int).contains(id) || id
                == stale@[i as int]) by {
            assert(stale@.take(i + 1)[i as int] == stale@[i as int]);
            assert forall|id: u32| stale@.take(i as int).contains(id) implies stale@.take(
                i + 1,
            ).contains(id) by {
                let j = choose|j: int|
                    0 <= j < stale@.take(i as int).len() && stale@.take(i as int)[j] == id;
                assert(stale@.take(i + 1)[j] == id);
            }
        }
        assert(notifications@ =~= before.remove_keys(stale@.take(i + 1).to_set()));
        i = i + 1;
    }
    assert(stale@.take(i as int) =~= stale@);
    assert(notifications@ =~= kept(before, live@)) by {
        assert forall|id: u32| #[trigger] before.remove_keys(stale@.to_set()).contains_key(id)
            <==> kept(before, live@).contains_key(id) by {
            assert(stale@.to_set().contains(id) == stale@.contains(id));
        }
    }
    assert(stale@.contains(stale@[0]));
    assert(!notifications@.contains_key(stale@[0]));
    true
}

} // verus!
