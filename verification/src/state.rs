//! Notifications, and the state that survives a reload of the plugin.

use crate::codec;
use crate::codec::{decode_record, encode_record, Record};
use std::collections::HashMap;
use vstd::prelude::*;

verus! {

/// Types of notifications a pane can have.
#[derive(Debug, Clone, Copy, Hash, PartialEq, Eq, Structural)]
pub enum NotificationType {
    /// Command is still running
    Waiting,
    /// Command has completed
    Completed,
}

/// The notifications of one pane.
#[derive(Debug, Clone, Copy, PartialEq, Eq, Structural)]
pub struct NotificationSet {
    pub waiting: bool,
    pub completed: bool,
}

impl NotificationSet {
    /// Whether the set holds `kind`.
    pub open spec fn holds(self, kind: NotificationType) -> bool {
        match kind {
            NotificationType::Waiting => self.waiting,
            NotificationType::Completed => self.completed,
        }
    }

    /// The set that holds `kind` and nothing else.
    pub open spec fn just(kind: NotificationType) -> NotificationSet {
        NotificationSet {
            waiting: kind is Waiting,
            completed: kind is Completed,
        }
    }

    /// Whether the set holds `kind`.
    pub fn contains(&self, kind: NotificationType) -> (r: bool)
        ensures
            r == self.holds(kind),
    {
        match kind {
            NotificationType::Waiting => self.waiting,
            NotificationType::Completed => self.completed,
        }
    }

    /// Makes the set that holds `kind` and nothing else.
    pub fn only(kind: NotificationType) -> (r: NotificationSet)
        ensures
            r == NotificationSet::just(kind),
    {
        match kind {
            NotificationType::Waiting => NotificationSet { waiting: true, completed: false },
            NotificationType::Completed => NotificationSet { waiting: false, completed: true },
        }
    }
}

/// State that persists across plugin reloads.
#[derive(Debug, PartialEq, Eq)]
pub struct PersistedState {
    /// Notification state per pane ID
    pub notifications: HashMap<u32, NotificationSet>,
    /// Original tab names before icon was prepended, keyed by tab position
    pub original_tab_names: HashMap<usize, String>,
}

/// The content of a [`PersistedState`].
#[verifier::ext_equal]
pub struct PersistedStateView {
    pub notifications: Map<u32, NotificationSet>,
    pub original_tab_names: Map<usize, Seq<char>>,
}

/// What a map to strings holds.
pub open spec fn names_view(names: Map<usize, String>) -> Map<usize, Seq<char>> {
    names.map_values(|name: String| name@)
}

impl View for PersistedState {
    type V = PersistedStateView;

    open spec fn view(&self) -> PersistedStateView {
        PersistedStateView {
            notifications: self.notifications@,
            original_tab_names: names_view(self.original_tab_names@),
        }
    }
}

impl PersistedStateView {
    /// The state without notifications and names.
    pub open spec fn empty() -> PersistedStateView {
        PersistedStateView {
            notifications: Map::empty(),
            original_tab_names: Map::empty(),
        }
    }
}

impl Default for PersistedState {
    fn default() -> (r: PersistedState)
        ensures
            r@ == PersistedStateView::empty(),
    {
        let r = PersistedState {
            notifications: HashMap::new(),
            original_tab_names: HashMap::new(),
        };
        assert(r@ =~= PersistedStateView::empty());
        r
    }
}

/// The code of a notification type in the state file.
pub open spec fn code_of(kind: NotificationType) -> u32 {
    match kind {
        NotificationType::Waiting => 0,
        NotificationType::Completed => 1,
    }
}

/// The codes of a set of notifications.
pub open spec fn codes_of(set: NotificationSet) -> Seq<u32> {
    (if set.waiting { seq![code_of(NotificationType::Waiting)] } else { seq![] })
        + (if set.completed { seq![code_of(NotificationType::Completed)] } else { seq![] })
}

/// Whether every code stands for a notification type.
pub open spec fn known_codes(codes: Seq<u32>) -> bool {
    forall|i: int| 0 <= i < codes.len() ==> #[trigger] codes[i] <= 1
}

/// The set of notifications that the codes stand for.
pub open spec fn set_of(codes: Seq<u32>) -> NotificationSet {
    NotificationSet {
        waiting: codes.contains(code_of(NotificationType::Waiting)),
        completed: codes.contains(code_of(NotificationType::Completed)),
    }
}

fn write_codes(set: NotificationSet) -> (r: Vec<u32>)
    ensures
        r@ == codes_of(set),
{
    let mut codes: Vec<u32> = Vec::new();
    if set.waiting {
        codes.push(0);
    }
    if set.completed {
        codes.push(1);
    }
    assert(codes@ =~= codes_of(set));
    codes
}

fn read_codes(codes: &Vec<u32>) -> (r: Option<NotificationSet>)
    ensures
        r == (if known_codes(codes@) {
            Some(set_of(codes@))
        } else {
            None
        }),
{
    let mut set = NotificationSet { waiting: false, completed: false };
    let mut i: usize = 0;
    while i < codes.len()
        invariant
            i <= codes.len(),
            known_codes(codes@.take(i as int)),
            set == set_of(codes@.take(i as int)),
        decreases codes.len() - i,
    {
        assert(codes@.take(i + 1) =~= codes@.take(i as int).push(codes@[i as int]));
        let ghost seen = codes@.take(i as int);
        let code: u32 = codes[i];
        assert(seen.push(code)[i as int] == code);
        assert(forall|c: u32| seen.push(code).contains(c) <==> seen.contains(c) || c == code) by {
            assert(forall|c: u32| seen.contains(c) ==> seen.push(code).contains(c)) by {
                assert forall|c: u32| seen.contains(c) implies seen.push(code).contains(c) by {
                    let j = choose|j: int| 0 <= j < seen.len() && seen[j] == c;
                    assert(seen.push(code)[j] == c);
                }
            }
        }
        if code == 0 {
            set.waiting = true;
        } else if code == 1 {
            set.completed = true;
        } else {
            assert(codes@[i as int] > 1);
            return None;
        }
        i = i + 1;
    }
    assert(codes@.take(i as int) =~= codes@);
    Some(set)
}

/// Whether the list names each pane of the map once, with the codes of its notifications.
pub open spec fn lists_notifications(
    list: Seq<(u32, Seq<u32>)>,
    notifications: Map<u32, NotificationSet>,
) -> bool {
    &&& forall|i: int, j: int|
        #![trigger list[i], list[j]]
        0 <= i < j < list.len() ==> list[i].0 != list[j].0
    &&& forall|i: int|
        #![trigger list[i]]
        0 <= i < list.len() ==> notifications.contains_key(list[i].0) && list[i].1 == codes_of(
            notifications[list[i].0],
        )
    &&& forall|pane: u32| #[trigger]
        notifications.contains_key(pane) ==> exists|i: int|
            0 <= i < list.len() && (#[trigger] list[i]).0 == pane
}

/// Whether the list names each tab position of the map once, with its name.
pub open spec fn lists_names(list: Seq<(u64, Seq<char>)>, names: Map<usize, Seq<char>>) -> bool {
    &&& forall|i: int, j: int|
        #![trigger list[i], list[j]]
        0 <= i < j < list.len() ==> list[i].0 != list[j].0
    &&& forall|i: int|
        #![trigger list[i]]
        0 <= i < list.len() ==> list[i].0 <= usize::MAX && names.contains_key(list[i].0 as usize)
            && list[i].1 == names[list[i].0 as usize]
    &&& forall|position: usize| #[trigger]
        names.contains_key(position) ==> exists|i: int|
            0 <= i < list.len() && (#[trigger] list[i]).0 == position
}

/// Whether every entry of the list holds known codes only.
pub open spec fn readable_notifications(list: Seq<(u32, Seq<u32>)>) -> bool {
    forall|i: int| 0 <= i < list.len() ==> known_codes((#[trigger] list[i]).1)
}

/// Whether every entry of the list holds a tab position of this machine.
pub open spec fn readable_names(list: Seq<(u64, Seq<char>)>) -> bool {
    forall|i: int| 0 <= i < list.len() ==> (#[trigger] list[i]).0 <= usize::MAX
}

/// The map that the list describes; of two entries for one pane the later counts.
pub open spec fn notifications_from(list: Seq<(u32, Seq<u32>)>) -> Map<u32, NotificationSet>
    decreases list.len(),
{
    if list.len() == 0 {
        Map::empty()
    } else {
        notifications_from(list.drop_last()).insert(list.last().0, set_of(list.last().1))
    }
}

/// The map that the list describes; of two entries for one position the later counts.
pub open spec fn names_from(list: Seq<(u64, Seq<char>)>) -> Map<usize, Seq<char>>
    decreases list.len(),
{
    if list.len() == 0 {
        Map::empty()
    } else {
        names_from(list.drop_last()).insert(list.last().0 as usize, list.last().1)
    }
}

/// The state that two lists describe; lists with an entry that cannot be read describe the empty
/// state.
pub open spec fn described(
    notifications: Seq<(u32, Seq<u32>)>,
    names: Seq<(u64, Seq<char>)>,
) -> PersistedStateView {
    if readable_notifications(notifications) && readable_names(names) {
        PersistedStateView {
            notifications: notifications_from(notifications),
            original_tab_names: names_from(names),
        }
    } else {
        PersistedStateView::empty()
    }
}

/// The state that a state file with these bytes stands for. A file that is missing or not
/// readable stands for the empty state.
pub open spec fn restored(data: Option<Seq<u8>>) -> PersistedStateView {
    match data {
        Some(bytes) => match codec::decoded_record(bytes, usize::BITS as nat) {
            Some((notifications, names)) => described(notifications, names),
            None => PersistedStateView::empty(),
        },
        None => PersistedStateView::empty(),
    }
}

proof fn lemma_set_of_codes(set: NotificationSet)
    ensures
        known_codes(codes_of(set)),
        set_of(codes_of(set)) == set,
{
    let codes = codes_of(set);
    if set.waiting {
        assert(codes[0] == 0);
    }
    if set.completed {
        assert(codes[codes.len() - 1] == 1);
    }
}

proof fn lemma_notifications_from_prefix(
    list: Seq<(u32, Seq<u32>)>,
    notifications: Map<u32, NotificationSet>,
    k: int,
)
    requires
        lists_notifications(list, notifications),
        0 <= k <= list.len(),
    ensures
        forall|pane: u32| #[trigger]
            notifications_from(list.take(k)).contains_key(pane) <==> exists|i: int|
                0 <= i < k && (#[trigger] list[i]).0 == pane,
        forall|pane: u32| #[trigger]
            notifications_from(list.take(k)).contains_key(pane) ==> notifications_from(
                list.take(k),
            )[pane] == notifications[pane],
    decreases k,
{
    if k > 0 {
        lemma_notifications_from_prefix(list, notifications, k - 1);
        assert(list.take(k).drop_last() =~= list.take(k - 1));
        let last = list[k - 1];
        assert(list.take(k).last() == last);
        lemma_set_of_codes(notifications[last.0]);
        let shorter = notifications_from(list.take(k - 1));
        assert(notifications_from(list.take(k)) == shorter.insert(last.0, notifications_from(list.take(k))[last.0]));
        assert forall|pane: u32| #[trigger] notifications_from(list.take(k)).contains_key(pane) <==> exists|i: int|
            0 <= i < k && (#[trigger] list[i]).0 == pane by {
            if pane == last.0 {
                assert(list[k - 1].0 == pane);
            } else {
                assert(shorter.contains_key(pane) <==> notifications_from(list.take(k)).contains_key(pane));
            }
        }
        assert forall|pane: u32| #[trigger] notifications_from(list.take(k)).contains_key(pane) implies notifications_from(
            list.take(k),
        )[pane] == notifications[pane] by {
            if pane != last.0 {
                assert(shorter.contains_key(pane));
            }
        }
    }
}

/// A list of a map describes that map.
pub proof fn lemma_notifications_from_list(
    list: Seq<(u32, Seq<u32>)>,
    notifications: Map<u32, NotificationSet>,
)
    requires
        lists_notifications(list, notifications),
    ensures
        readable_notifications(list),
        notifications_from(list) == notifications,
{
    lemma_notifications_from_prefix(list, notifications, list.len() as int);
    assert(list.take(list.len() as int) =~= list);
    assert forall|i: int| 0 <= i < list.len() implies known_codes((#[trigger] list[i]).1) by {
        lemma_set_of_codes(notifications[list[i].0]);
    }
    assert(notifications_from(list) =~= notifications);
}

proof fn lemma_names_from_prefix(
    list: Seq<(u64, Seq<char>)>,
    names: Map<usize, Seq<char>>,
    k: int,
)
    requires
        lists_names(list, names),
        0 <= k <= list.len(),
    ensures
        forall|position: usize| #[trigger]
            names_from(list.take(k)).contains_key(position) <==> exists|i: int|
                0 <= i < k && (#[trigger] list[i]).0 == position,
        forall|position: usize| #[trigger]
            names_from(list.take(k)).contains_key(position) ==> names_from(list.take(k))[position]
                == names[position],
    decreases k,
{
    if k > 0 {
        lemma_names_from_prefix(list, names, k - 1);
        assert(list.take(k).drop_last() =~= list.take(k - 1));
        let last = list[k - 1];
        assert(list.take(k).last() == last);
        let shorter = names_from(list.take(k - 1));
        assert(names_from(list.take(k)) == shorter.insert(last.0 as usize, names_from(list.take(k))[last.0 as usize]));
        assert forall|position: usize| #[trigger] names_from(list.take(k)).contains_key(position) <==> exists|i: int|
            0 <= i < k && (#[trigger] list[i]).0 == position by {
            if position == last.0 as usize {
                assert(list[k - 1].0 == position);
            } else {
                assert(shorter.contains_key(position) <==> names_from(list.take(k)).contains_key(position));
            }
        }
        assert forall|position: usize| #[trigger] names_from(list.take(k)).contains_key(position) implies names_from(
            list.take(k),
        )[position] == names[position] by {
            if position != last.0 as usize {
                assert(shorter.contains_key(position));
            }
        }
    }
}

/// A list of a map describes that map.
pub proof fn lemma_names_from_list(list: Seq<(u64, Seq<char>)>, names: Map<usize, Seq<char>>)
    requires
        lists_names(list, names),
    ensures
        readable_names(list),
        names_from(list) == names,
{
    lemma_names_from_prefix(list, names, list.len() as int);
    assert(list.take(list.len() as int) =~= list);
    assert(names_from(list) =~= names);
}

fn list_notifications(notifications: &HashMap<u32, NotificationSet>) -> (r: Vec<(u32, Vec<u32>)>)
    ensures
        lists_notifications(r.deep_view(), notifications@),
{
    let mut list: Vec<(u32, Vec<u32>)> = Vec::new();
    let ghost entries = vstd::std_specs::iter::IteratorSpec::remaining(&notifications.iter());
    for entry in it: notifications.iter()
        invariant
            it.seq() == entries,
            entries.no_duplicates(),
            list@.len() == it.index(),
            forall|i: int|
                #![trigger list@[i]]
                0 <= i < list@.len() ==> list@[i].0 == *entries[i].0 && list@[i].1@ == codes_of(
                    *entries[i].1,
                ),
    {
        list.push((*entry.0, write_codes(*entry.1)));
    }
    proof {
        let view = list.deep_view();
        assert forall|i: int| 0 <= i < view.len() implies (#[trigger] view[i]).0 == *entries[i].0
            && view[i].1 == codes_of(*entries[i].1) && notifications@.contains_key(view[i].0)
            && notifications@[view[i].0] == *entries[i].1 by {
            assert(view[i].1 =~= list@[i].1@);
            assert(notifications@.contains_key(*entries[i].0));
        }
        assert forall|i: int, j: int|
            #![trigger view[i], view[j]]
            0 <= i < j < view.len() implies view[i].0 != view[j].0 by {
            if view[i].0 == view[j].0 {
                assert(entries[i] == entries[j]);
            }
        }
        assert forall|pane: u32| #[trigger] notifications@.contains_key(pane) implies exists|i: int|
            0 <= i < view.len() && (#[trigger] view[i]).0 == pane by {
            assert(entries.contains((&pane, &notifications@[pane])));
            let i = choose|i: int|
                0 <= i < entries.len() && entries[i] == (&pane, &notifications@[pane]);
            assert(view[i].0 == pane);
        }
    }
    list
}

fn list_names(names: &HashMap<usize, String>) -> (r: Vec<(u64, &str)>)
    ensures
        lists_names(r.deep_view(), names_view(names@)),
{
    let mut list: Vec<(u64, &str)> = Vec::new();
    let ghost entries = vstd::std_specs::iter::IteratorSpec::remaining(&names.iter());
    for entry in it: names.iter()
        invariant
            it.seq() == entries,
            entries.no_duplicates(),
            list@.len() == it.index(),
            forall|i: int|
                #![trigger list@[i]]
                0 <= i < list@.len() ==> list@[i].0 == *entries[i].0 && list@[i].1@
                    == (*entries[i].1)@,
    {
        list.push((*entry.0 as u64, entry.1.as_str()));
    }
    proof {
        let view = list.deep_view();
        let held = names_view(names@);
        assert forall|i: int| 0 <= i < view.len() implies (#[trigger] view[i]).0 == *entries[i].0
            && view[i].1 == (*entries[i].1)@ && held.contains_key(
            *entries[i].0,
        ) && held[*entries[i].0] == (*entries[i].1)@ && names@[*entries[i].0] == *entries[i].1 by {
            assert(view[i].1 =~= list@[i].1@);
            assert(names@.contains_key(*entries[i].0));
        }
        assert forall|i: int, j: int|
            #![trigger view[i], view[j]]
            0 <= i < j < view.len() implies view[i].0 != view[j].0 by {
            if view[i].0 == view[j].0 {
                assert(entries[i] == entries[j]);
            }
        }
        assert forall|position: usize| #[trigger] held.contains_key(position) implies exists|
            i: int,
        | 0 <= i < view.len() && (#[trigger] view[i]).0 == position by {
            assert(names@.contains_key(position));
            assert(entries.contains((&position, &names@[position])));
            let i = choose|i: int|
                0 <= i < entries.len() && entries[i] == (&position, &names@[position]);
            assert(view[i].0 == position);
        }
    }
    list
}

fn read_notifications(list: &Vec<(u32, Vec<u32>)>) -> (r: Option<HashMap<u32, NotificationSet>>)
    ensures
        match r {
            Some(notifications) => readable_notifications(list.deep_view()) && notifications@
                == notifications_from(list.deep_view()),
            None => !readable_notifications(list.deep_view()),
        },
{
    let ghost view = list.deep_view();
    let mut notifications: HashMap<u32, NotificationSet> = HashMap::new();
    let mut i: usize = 0;
    while i < list.len()
        invariant
            i <= list.len(),
            view == list.deep_view(),
            readable_notifications(view.take(i as int)),
            notifications@ == notifications_from(view.take(i as int)),
        decreases list.len() - i,
    {
        assert(view[i as int].0 == list@[i as int].0);
        assert(view[i as int].1 =~= list@[i as int].1@);
        assert(view.take(i + 1).drop_last() =~= view.take(i as int));
        match read_codes(&list[i].1) {
            Some(set) => {
                notifications.insert(list[i].0, set);
            },
            None => {
                assert(!known_codes(view[i as int].1));
                return None;
            },
        }
        i = i + 1;
    }
    assert(view.take(i as int) =~= view);
    Some(notifications)
}

fn read_names(list: &Vec<(u64, &str)>) -> (r: Option<HashMap<usize, String>>)
    ensures
        match r {
            Some(names) => readable_names(list.deep_view()) && names_view(names@) == names_from(
                list.deep_view(),
            ),
            None => !readable_names(list.deep_view()),
        },
{
    let ghost view = list.deep_view();
    let mut names: HashMap<usize, String> = HashMap::new();
    let mut i: usize = 0;
    assert(names_view(names@) =~= names_from(view.take(0)));
    while i < list.len()
        invariant
            i <= list.len(),
            view == list.deep_view(),
            readable_names(view.take(i as int)),
            names_view(names@) == names_from(view.take(i as int)),
        decreases list.len() - i,
    {
        assert(view[i as int].0 == list@[i as int].0);
        assert(view[i as int].1 =~= list@[i as int].1@);
        assert(view.take(i + 1).drop_last() =~= view.take(i as int));
        let position: u64 = list[i].0;
        if position > usize::MAX as u64 {
            assert(!(view[i as int].0 <= usize::MAX));
            return None;
        }
        let name: String = list[i].1.to_owned();
        let ghost before = names@;
        names.insert(position as usize, name);
        assert(names_view(names@) =~= names_view(before).insert(position as usize, name@));
        i = i + 1;
    }
    assert(view.take(i as int) =~= view);
    Some(names)
}

/// Lists the state for the encoder, each map in some order.
pub fn record_of_state(state: &PersistedState) -> (r: Record<'_>)
    ensures
        lists_notifications(r.0.deep_view(), state@.notifications),
        lists_names(r.1.deep_view(), state@.original_tab_names),
{
    (list_notifications(&state.notifications), list_names(&state.original_tab_names))
}

/// Rebuilds the state from what the decoder read.
pub fn state_of_record(record: &Record<'_>) -> (r: PersistedState)
    ensures
        r@ == described(record.0.deep_view(), record.1.deep_view()),
{
    match (read_notifications(&record.0), read_names(&record.1)) {
        (Some(notifications), Some(names)) => PersistedState {
            notifications,
            original_tab_names: names,
        },
        _ => PersistedState::default(),
    }
}

/// Why a state could not be turned into bytes.
#[derive(Debug, Clone, Copy, PartialEq, Eq)]
pub enum SaveError {
    /// The encoder refused the state.
    Encode,
}

/// Turns the state into the bytes of the state file.
///
/// The bytes are those of a list of the notifications and a list of the names, each in some
/// order. The file restores the state that was saved.
pub fn save_state(state: &PersistedState) -> (r: Result<Vec<u8>, SaveError>)
    ensures
        r is Ok,
        exists|notifications: Seq<(u32, Seq<u32>)>, names: Seq<(u64, Seq<char>)>| #[trigger]
            codec::encoded_record(notifications, names) == r->Ok_0@ && lists_notifications(
                notifications,
                state@.notifications,
            ) && lists_names(names, state@.original_tab_names),
        restored(Some(r->Ok_0@)) == state@,
{
    let record = record_of_state(state);
    proof {
        lemma_notifications_from_list(record.0.deep_view(), state@.notifications);
        lemma_names_from_list(record.1.deep_view(), state@.original_tab_names);
    }
    match encode_record(&record.0, &record.1) {
        Ok(bytes) => Ok(bytes),
        Err(_) => Err(SaveError::Encode),
    }
}

/// Turns the bytes of the state file into the state; `None` stands for a file that could not be
/// read.
///
/// Returns the empty state on any error (file missing, corruption, etc.).
pub fn load_state(data: Option<Vec<u8>>) -> (r: PersistedState)
    ensures
        r@ == restored(
            match data {
                Some(bytes) => Some(bytes@),
                None => None,
            },
        ),
{
    match data {
        Some(bytes) => match decode_record(&bytes) {
            Ok(read) => state_of_record(&read.0),
            Err(_) => PersistedState::default(),
        },
        None => PersistedState::default(),
    }
}

} // verus!
