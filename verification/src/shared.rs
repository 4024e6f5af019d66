//! The plugin that keeps an icon before the name of each tab that wants attention, with its state
//! in a file that all instances share.

use std::collections::{HashMap, HashSet};
use vstd::prelude::*;

use crate::config::{ConfigView, NotificationConfig};
use crate::host;
use crate::host::{
    Effect, EffectView, Event, EventView, PaneInfo, PaneManifest, PipeMessage, TabInfo, TabView,
};
use crate::host::number_name;
use crate::message;
use crate::message::{Message, MessageError, MessageView};
use crate::message::read_message;
use crate::panes;
use crate::panes::{collect_live, drop_stale, find_focused, find_tab_kind};
use crate::state;
use crate::state::{NotificationSet, NotificationType, PersistedState, PersistedStateView};
use crate::text;
use crate::text::join_spaced;

verus! {

/// What an instance of the plugin knows.
pub struct State {
    pub permissions_granted: bool,
    pub tabs: Vec<TabInfo>,
    pub panes: PaneManifest,
    pub notification_state: HashMap<u32, NotificationSet>,
    pub original_tab_names: HashMap<usize, String>,
    pub config: NotificationConfig,
}

/// The content of a [`State`].
#[verifier::ext_equal]
pub struct StateView {
    pub permissions_granted: bool,
    pub tabs: Seq<TabView>,
    pub panes: Map<usize, Seq<PaneInfo>>,
    pub notification_state: Map<u32, NotificationSet>,
    pub original_tab_names: Map<usize, Seq<char>>,
    pub config: ConfigView,
}

impl View for State {
    type V = StateView;

    open spec fn view(&self) -> StateView {
        StateView {
            permissions_granted: self.permissions_granted,
            tabs: host::tabs_view(self.tabs@),
            panes: self.panes@,
            notification_state: self.notification_state@,
            original_tab_names: state::names_view(self.original_tab_names@),
            config: self.config@,
        }
    }
}

/// One step of what an instance wants to be done, in order.
#[derive(Debug, PartialEq, Eq)]
pub enum Step {
    /// Ask the host for something
    Perform(Effect),
    /// Write the state file
    Save(PersistedState),
    /// Read the state file, hand what it holds to `update_tab_names`, and do the steps that
    /// come back
    Reload,
}

/// The content of a [`Step`].
pub enum StepView {
    Perform(EffectView),
    Save(PersistedStateView),
    Reload,
}

impl View for Step {
    type V = StepView;

    open spec fn view(&self) -> StepView {
        match self {
            Step::Perform(effect) => StepView::Perform(effect@),
            Step::Save(persisted) => StepView::Save(persisted@),
            Step::Reload => StepView::Reload,
        }
    }
}

/// What a list of steps wants to be done.
pub open spec fn steps_view(steps: Seq<Step>) -> Seq<StepView> {
    steps.map_values(|step: Step| step@)
}

/// What the plugin answers to the host: whether it wants to be drawn, and what is to be done.
#[derive(Debug, PartialEq, Eq)]
pub struct Response {
    pub render: bool,
    pub steps: Vec<Step>,
}

/// The content of a [`Response`].
#[verifier::ext_equal]
pub struct ResponseView {
    pub render: bool,
    pub steps: Seq<StepView>,
}

impl View for Response {
    type V = ResponseView;

    open spec fn view(&self) -> ResponseView {
        ResponseView { render: self.render, steps: steps_view(self.steps@) }
    }
}

/// The first tab that a client looks at.
pub open spec fn active_tab(tabs: Seq<TabView>) -> Option<TabView>
    decreases tabs.len(),
{
    if tabs.len() == 0 {
        None
    } else if tabs[0].active {
        Some(tabs[0])
    } else {
        active_tab(tabs.skip(1))
    }
}

/// Asks for a new name for the tab at `position`; tabs are numbered from zero here.
pub open spec fn rename(position: usize, name: Seq<char>) -> StepView {
    StepView::Perform(EffectView::RenameTab { tab: position as u32, name })
}

/// The name under which a tab is remembered.
pub open spec fn own_name(tab: TabView) -> Seq<char> {
    if tab.name.len() == 0 {
        host::numbered_name(tab.position)
    } else {
        tab.name
    }
}

/// Whether `order` names each position of the set once.
pub open spec fn orders(order: Seq<usize>, positions: Set<usize>) -> bool {
    order.no_duplicates() && order.to_set() == positions
}

/// The renames to the remembered names, in the given order.
pub open spec fn restores(order: Seq<usize>, names: Map<usize, Seq<char>>) -> Seq<StepView> {
    order.map_values(|position: usize| rename(position, names[position]))
}

impl StateView {
    /// What the state file holds of this state.
    pub open spec fn persisted(self) -> PersistedStateView {
        PersistedStateView {
            notifications: self.notification_state,
            original_tab_names: self.original_tab_names,
        }
    }

    /// The state with what the state file holds.
    pub open spec fn reloaded(self, persisted: PersistedStateView) -> StateView {
        StateView {
            notification_state: persisted.notifications,
            original_tab_names: persisted.original_tab_names,
            ..self
        }
    }

    /// The notification that a tab shows.
    pub open spec fn kind_at(self, position: usize) -> Option<NotificationType> {
        panes::tab_kind(self.panes, self.notification_state, position, true)
    }

    /// The pane that has the focus in the first active tab.
    pub open spec fn focus(self) -> Option<u32> {
        match active_tab(self.tabs) {
            Some(tab) => if self.panes.contains_key(tab.position) {
                panes::focused_id(self.panes[tab.position], tab.are_floating_panes_visible, true)
            } else {
                None
            },
            None => None,
        }
    }

    /// Whether the focused pane has notifications.
    pub open spec fn focus_is_notified(self) -> bool {
        self.focus() is Some && self.notification_state.contains_key(self.focus()->0)
    }

    /// The state with the notifications of the focused pane gone.
    pub open spec fn focus_cleared(self) -> StateView {
        if self.focus_is_notified() {
            StateView {
                notification_state: self.notification_state.remove(self.focus()->0),
                ..self
            }
        } else {
            self
        }
    }

    /// What is to be done when the notifications changed since `before`: save, then bring the
    /// tab names up to date.
    pub open spec fn published_since(self, before: StateView) -> Seq<StepView> {
        if self.notification_state != before.notification_state {
            seq![StepView::Save(self.persisted()), StepView::Reload]
        } else {
            seq![]
        }
    }

    /// The state with the notifications of panes gone that do not exist.
    pub open spec fn stale_cleaned(self) -> StateView {
        StateView {
            notification_state: panes::kept(
                self.notification_state,
                panes::live_ids(self.panes, true),
            ),
            ..self
        }
    }

    /// The remembered names and the renames after the icons were put on the first `n` tabs.
    pub open spec fn marked(self, n: int) -> (Map<usize, Seq<char>>, Seq<StepView>)
        decreases n,
    {
        if n <= 0 {
            (self.original_tab_names, seq![])
        } else {
            let before = self.marked(n - 1);
            let tab = self.tabs[n - 1];
            match self.kind_at(tab.position) {
                Some(kind) => {
                    let names = if before.0.contains_key(tab.position) {
                        before.0
                    } else {
                        before.0.insert(tab.position, own_name(tab))
                    };
                    (
                        names,
                        before.1.push(
                            rename(
                                tab.position,
                                text::spaced(self.config.icon(kind), names[tab.position]),
                            ),
                        ),
                    )
                },
                None => before,
            }
        }
    }

    /// Every name that is remembered once the icons were put on.
    pub open spec fn all_names(self) -> Map<usize, Seq<char>> {
        self.marked(self.tabs.len() as int).0
    }

    /// The positions of the tabs that show a notification.
    pub open spec fn notified_positions(self) -> Set<usize> {
        Set::new(
            |position: usize|
                host::is_position(self.tabs, position) && self.kind_at(position) is Some,
        )
    }

    /// The positions of the tabs that get their name back.
    pub open spec fn restored_positions(self) -> Set<usize> {
        Set::new(
            |position: usize|
                self.all_names().contains_key(position) && host::is_position(self.tabs, position)
                    && self.kind_at(position) is None,
        )
    }

    /// The state after the tab names were brought up to date with what the state file holds: of
    /// the names, those of the tabs that show a notification stay remembered.
    pub open spec fn names_updated(self, persisted: PersistedStateView) -> StateView {
        let loaded = self.reloaded(persisted);
        if self.config.enabled {
            StateView {
                original_tab_names: loaded.all_names().restrict(loaded.notified_positions()),
                ..loaded
            }
        } else {
            loaded
        }
    }

    /// Whether `steps` bring the tab names up to date with what the state file holds: icons on
    /// the tabs that show a notification, then the own names back on the others that had one, in
    /// whatever order, then the new state into the file.
    pub open spec fn updates_names(
        self,
        persisted: PersistedStateView,
        steps: Seq<StepView>,
    ) -> bool {
        let loaded = self.reloaded(persisted);
        if self.config.enabled {
            exists|order: Seq<usize>| #[trigger]
                orders(order, loaded.restored_positions()) && steps == loaded.marked(
                    loaded.tabs.len() as int,
                ).1 + restores(order, loaded.all_names()) + seq![
                    StepView::Save(self.names_updated(persisted).persisted()),
                ]
        } else {
            steps == Seq::<StepView>::empty()
        }
    }

    /// The state after an event, and the answer to it.
    pub open spec fn after_event(self, event: EventView) -> (StateView, ResponseView) {
        match event {
            EventView::PermissionRequestResult(granted) => (
                StateView { permissions_granted: granted, ..self },
                ResponseView {
                    render: true,
                    steps: seq![
                        StepView::Perform(EffectView::SetSelectable(false)),
                        StepView::Reload,
                    ],
                },
            ),
            EventView::TabUpdate(tabs) => StateView { tabs, ..self }.after_change(),
            EventView::PaneUpdate(panes) => StateView { panes, ..self }.after_change(),
            EventView::Other => (self, ResponseView { render: false, steps: seq![] }),
        }
    }

    /// The state after a change of the tabs or the panes was taken in, and the answer to it.
    pub open spec fn after_change(self) -> (StateView, ResponseView) {
        (
            self.focus_cleared(),
            ResponseView {
                render: false,
                steps: self.focus_cleared().published_since(self).push(StepView::Reload),
            },
        )
    }

    /// The state with one notification for a pane, which replaces those it had.
    pub open spec fn notified(self, pane: u32, kind: NotificationType) -> StateView {
        StateView {
            notification_state: self.notification_state.insert(pane, NotificationSet::just(kind)),
            ..self
        }
    }

    /// The state after a message with this meaning came through the pipe `name`, and the answer
    /// to it. The sender of an unknown event is not unblocked.
    pub open spec fn after_message(self, name: Seq<char>, meaning: MessageView) -> (
        StateView,
        ResponseView,
    ) {
        let unblock = StepView::Perform(EffectView::UnblockPipe { pipe: name });
        match meaning {
            MessageView::Ignored => (self, ResponseView { render: false, steps: seq![] }),
            MessageView::Rejected(error) => {
                let report = StepView::Perform(EffectView::Report(error));
                (
                    self,
                    ResponseView {
                        render: false,
                        steps: if error is UnknownEvent {
                            seq![report]
                        } else {
                            seq![report, unblock]
                        },
                    },
                )
            },
            MessageView::Notify { pane, kind } => {
                let next = self.notified(pane, kind);
                (
                    next,
                    ResponseView {
                        render: false,
                        steps: seq![StepView::Save(next.persisted()), StepView::Reload, unblock],
                    },
                )
            },
        }
    }
}

impl State {
    /// Whether every tab without a name can be numbered.
    pub open spec fn wf(&self) -> bool {
        forall|i: int|
            0 <= i < self@.tabs.len() && (#[trigger] self@.tabs[i]).name.len() == 0
                ==> self@.tabs[i].position < usize::MAX
    }

    /// An instance that has heard nothing from its host.
    pub fn new(config: NotificationConfig) -> (r: State)
        ensures
            r.wf(),
            r@ == (StateView {
                permissions_granted: false,
                tabs: seq![],
                panes: Map::empty(),
                notification_state: Map::empty(),
                original_tab_names: Map::empty(),
                config: config@,
            }),
    {
        let r = State {
            permissions_granted: false,
            tabs: Vec::new(),
            panes: PaneManifest { panes: HashMap::new() },
            notification_state: HashMap::new(),
            original_tab_names: HashMap::new(),
            config,
        };
        assert(r@.tabs =~= seq![]);
        assert(r@.panes =~= Map::empty());
        assert(r@.original_tab_names =~= Map::empty());
        r
    }

    /// Takes over a configuration and what the state file holds.
    pub fn load(&mut self, config: NotificationConfig, persisted: PersistedState)
        ensures
            final(self)@ == (StateView { config: config@, ..old(self)@.reloaded(persisted@) }),
    {
        self.notification_state = persisted.notifications;
        self.original_tab_names = persisted.original_tab_names;
        self.config = config;
    }

    fn snapshot(&self) -> (r: PersistedState)
        ensures
            r@ == self@.persisted(),
    {
        PersistedState {
            notifications: self.notification_state.clone(),
            original_tab_names: self.original_tab_names.clone(),
        }
    }

    /// Determines which pane is currently focused, accounting for floating pane visibility.
    /// Returns None if no pane is focused or active tab cannot be determined.
    pub fn determine_focused_pane(&self) -> (r: Option<u32>)
        ensures
            r == self@.focus(),
    {
        let ghost view = self@.tabs;
        let mut i: usize = 0;
        assert(view.skip(0) =~= view);
        while i < self.tabs.len()
            invariant
                i <= self.tabs.len(),
                view == self@.tabs,
                active_tab(view) == active_tab(view.skip(i as int)),
            decreases self.tabs.len() - i,
        {
            let tab = &self.tabs[i];
            assert(view.skip(i as int)[0] == tab@);
            assert(view.skip(i as int).skip(1) =~= view.skip(i + 1));
            if tab.active {
                return match self.panes.panes.get(&tab.position) {
                    Some(panes) => {
                        assert(self@.panes[tab.position] == panes@);
                        find_focused(panes, tab.are_floating_panes_visible, true)
                    },
                    None => None,
                };
            }
            i = i + 1;
        }
        None
    }

    /// Checks if focused pane has notifications and clears them.
    /// Has the state saved and the tab names updated if any notifications were cleared.
    pub fn check_and_clear_focus(&mut self) -> (r: Vec<Step>)
        ensures
            final(self)@ == old(self)@.focus_cleared(),
            steps_view(r@) == old(self)@.focus_cleared().published_since(old(self)@),
    {
        let mut steps: Vec<Step> = Vec::new();
        if let Some(pane) = self.determine_focused_pane() {
            let removed = self.notification_state.remove(&pane);
            if removed.is_some() {
                assert(self@ =~= old(self)@.focus_cleared());
                assert(!self@.notification_state.contains_key(pane));
                steps.push(Step::Save(self.snapshot()));
                steps.push(Step::Reload);
            } else {
                assert(self.notification_state@ =~= old(self).notification_state@);
            }
        }
        assert(steps_view(steps@) =~= old(self)@.focus_cleared().published_since(old(self)@));
        steps
    }

    /// Determines the notification state for a tab by checking all panes in that tab.
    /// Returns the highest priority notification: Waiting > Completed > None.
    /// Priority: Waiting is attention-seeking, so it takes precedence.
    pub fn get_tab_notification_state(&self, tab_position: usize) -> (r: Option<NotificationType>)
        ensures
            r == self@.kind_at(tab_position),
    {
        find_tab_kind(&self.panes, &self.notification_state, tab_position, true)
    }

    /// Removes notification entries for panes that no longer exist.
    /// Has the state saved and the tab names updated if any notifications were removed.
    ///
    /// No event leads here: during tab transitions the pane manifest may leave panes out for a
    /// while, and their notifications would get lost.
    pub fn cleanup_stale_panes(&mut self) -> (r: Vec<Step>)
        ensures
            final(self)@ == old(self)@.stale_cleaned(),
            steps_view(r@) == old(self)@.stale_cleaned().published_since(old(self)@),
    {
        let mut steps: Vec<Step> = Vec::new();
        let live = collect_live(&self.panes, true);
        let changed = drop_stale(&mut self.notification_state, &live);
        if changed {
            steps.push(Step::Save(self.snapshot()));
            steps.push(Step::Reload);
        }
        assert(steps_view(steps@) =~= old(self)@.stale_cleaned().published_since(old(self)@));
        steps
    }

    fn has_tab_at(&self, position: usize) -> (r: bool)
        ensures
            r == host::is_position(self@.tabs, position),
    {
        let mut i: usize = 0;
        while i < self.tabs.len()
            invariant
                i <= self.tabs.len(),
                forall|j: int| 0 <= j < i ==> (#[trigger] self@.tabs[j]).position != position,
            decreases self.tabs.len() - i,
        {
            assert(self@.tabs[i as int] == self.tabs@[i as int]@);
            if self.tabs[i].position == position {
                return true;
            }
            i = i + 1;
        }
        false
    }

    /// Puts the icons on the tabs that show a notification, and remembers the names of those that
    /// have none yet. Returns the positions of these tabs.
    fn mark_tabs(&mut self, steps: &mut Vec<Step>) -> (r: HashSet<usize>)
        requires
            old(self).wf(),
            old(steps)@.len() == 0,
        ensures
            final(self)@ == (StateView { original_tab_names: old(self)@.all_names(), ..old(self)@ }),
            steps_view(final(steps)@) == old(self)@.marked(old(self)@.tabs.len() as int).1,
            r@ == old(self)@.notified_positions(),
    {
        let ghost start = self@;
        let mut notified: HashSet<usize> = HashSet::new();
        let mut i: usize = 0;
        assert(steps_view(steps@) =~= seq![]);
        while i < self.tabs.len()
            invariant
                i <= self.tabs.len(),
                self.wf(),
                start.tabs.len() == self.tabs.len(),
                self@ == (StateView { original_tab_names: start.marked(i as int).0, ..start }),
                steps_view(steps@) == start.marked(i as int).1,
                forall|position: usize| #[trigger]
                    notified@.contains(position) <==> start.kind_at(position) is Some && exists|
                        j: int,
                    |
                        0 <= j < i && (#[trigger] start.tabs[j]).position == position,
            decreases self.tabs.len() - i,
        {
            let ghost tab = start.tabs[i as int];
            let ghost asked = steps@;
            assert(self@.tabs[i as int] == self.tabs@[i as int]@);
            let position: usize = self.tabs[i].position;
            assert(start.tabs[i as int].position == position);
            assert(self@.kind_at(position) == start.kind_at(position));
            if let Some(kind) = self.get_tab_notification_state(position) {
                notified.insert(position);
                let ghost names = self.original_tab_names@;
                if !self.original_tab_names.contains_key(&position) {
                    let original = if self.tabs[i].name.as_str().is_empty() {
                        number_name(position)
                    } else {
                        self.tabs[i].name.clone()
                    };
                    assert(original@ == own_name(tab));
                    self.original_tab_names.insert(position, original);
                    assert(state::names_view(self.original_tab_names@) =~= state::names_view(
                        names,
                    ).insert(position, original@));
                }
                if let Some(original) = self.original_tab_names.get(&position) {
                    let name = join_spaced(self.config.icon(kind), original.as_str());
                    assert(original@ == self@.original_tab_names[position]);
                    steps.push(
                        Step::Perform(Effect::RenameTab { tab: position as u32, name }),
                    );
                }
                assert(steps_view(steps@) =~= start.marked(i + 1).1);
            }
            i = i + 1;
        }
        assert(notified@ =~= start.notified_positions());
        notified
    }

    /// Gives the tabs at `forgotten` their own names back, where they still exist, and forgets
    /// these names.
    fn restore_tabs(&mut self, forgotten: Vec<usize>, steps: &mut Vec<Step>)
        requires
            forgotten@.no_duplicates(),
            forall|k: int|
                0 <= k < forgotten@.len() ==> old(self)@.original_tab_names.contains_key(
                    #[trigger] forgotten@[k],
                ),
        ensures
            final(self)@ == (StateView {
                original_tab_names: old(self)@.original_tab_names.remove_keys(forgotten@.to_set()),
                ..old(self)@
            }),
            exists|order: Seq<usize>| #[trigger]
                orders(
                    order,
                    forgotten@.to_set().intersect(host::positions_of(old(self)@.tabs)),
                ) && steps_view(final(steps)@) == steps_view(old(steps)@) + restores(
                    order,
                    old(self)@.original_tab_names,
                ),
    {
        let ghost start = self@;
        let ghost asked = steps@;
        let ghost names = start.original_tab_names;
        let ghost mut order: Seq<usize> = seq![];
        let mut k: usize = 0;
        assert(names =~= names.remove_keys(forgotten@.take(0).to_set()));
        assert(steps_view(asked) =~= steps_view(asked) + restores(order, names));
        while k < forgotten.len()
            invariant
                k <= forgotten.len(),
                forgotten@.no_duplicates(),
                forall|j: int|
                    0 <= j < forgotten@.len() ==> names.contains_key(#[trigger] forgotten@[j]),
                names == start.original_tab_names,
                self@ == (StateView {
                    original_tab_names: names.remove_keys(forgotten@.take(k as int).to_set()),
                    ..start
                }),
                order.no_duplicates(),
                forall|position: usize| #[trigger]
                    order.contains(position) <==> forgotten@.take(k as int).contains(position)
                        && host::is_position(start.tabs, position),
                steps_view(steps@) == steps_view(asked) + restores(order, names),
            decreases forgotten.len() - k,
        {
            let position: usize = forgotten[k];
            let ghost done = forgotten@.take(k as int);
            let ghost held = self.original_tab_names@;
            let ghost listed = steps@;
            let ghost placed = order;
            assert(forgotten@.take(k + 1) =~= done.push(position));
            assert(!done.contains(position)) by {
                if done.contains(position) {
                    let j = choose|j: int| 0 <= j < done.len() && done[j] == position;
                    assert(forgotten@[j] == forgotten@[k as int]);
                }
            }
            proof {
                lemma_push_contains(done, position);
            }
            assert(names.contains_key(forgotten@[k as int]));
            assert(state::names_view(held) == names.remove_keys(done.to_set()));
            assert(!done.to_set().contains(position));
            assert(state::names_view(held).contains_key(position));
            assert(state::names_view(held)[position] == names[position]);
            if let Some(original) = self.original_tab_names.remove(&position) {
                assert(original@ == names[position]);
                if self.has_tab_at(position) {
                    steps.push(
                        Step::Perform(Effect::RenameTab { tab: position as u32, name: original }),
                    );
                    proof {
                        assert(!placed.contains(position));
                        order = placed.push(position);
                        assert(order.no_duplicates());
                        lemma_push_contains(placed, position);
                        assert(steps_view(steps@) =~= steps_view(listed).push(
                            rename(position, names[position]),
                        ));
                        assert(restores(order, names) =~= restores(placed, names).push(
                            rename(position, names[position]),
                        ));
                    }
                }
            }
            assert(state::names_view(self.original_tab_names@) =~= state::names_view(held).remove(
                position,
            ));
            assert(names.remove_keys(done.to_set()).remove(position) =~= names.remove_keys(
                done.push(position).to_set(),
            )) by {
                assert forall|p: usize| #[trigger] done.push(position).to_set().contains(p)
                    <==> done.to_set().contains(p) || p == position by {
                    assert(done.push(position).contains(p) <==> done.contains(p) || p == position);
                }
            }
            k = k + 1;
        }
        assert(forgotten@.take(k as int) =~= forgotten@);
        assert(order.to_set() =~= forgotten@.to_set().intersect(host::positions_of(start.tabs)));
        assert(orders(order, forgotten@.to_set().intersect(host::positions_of(start.tabs))));
    }

    /// Updates tab names to show notification icons or restore original names.
    ///
    /// Note: Multiple plugin instances may exist. `persisted` is what the state file holds now:
    /// it is the latest truth, and it replaces what this instance knew.
    pub fn update_tab_names(&mut self, persisted: PersistedState) -> (r: Vec<Step>)
        requires
            old(self).wf(),
        ensures
            final(self)@ == old(self)@.names_updated(persisted@),
            old(self)@.updates_names(persisted@, steps_view(r@)),
    {
        let mut steps: Vec<Step> = Vec::new();
        self.notification_state = persisted.notifications;
        self.original_tab_names = persisted.original_tab_names;
        let ghost loaded = self@;
        assert(loaded == old(self)@.reloaded(persisted@));
        if !self.config.enabled {
            assert(steps_view(steps@) =~= Seq::<StepView>::empty());
            return steps;
        }
        let notified = self.mark_tabs(&mut steps);
        let forgotten = keys_outside(&self.original_tab_names, &notified);
        let ghost names = loaded.all_names();
        assert forall|k: int| 0 <= k < forgotten@.len() implies names.contains_key(
            #[trigger] forgotten@[k],
        ) by {
            assert(forgotten@.contains(forgotten@[k]));
        }
        let ghost asked = steps@;
        let ghost lost = forgotten@;
        self.restore_tabs(forgotten, &mut steps);
        assert(lost.to_set().intersect(host::positions_of(loaded.tabs))
            =~= loaded.restored_positions());
        assert(names.remove_keys(lost.to_set()) =~= names.restrict(loaded.notified_positions()));
        assert(self@ =~= old(self)@.names_updated(persisted@));
        let ghost order = choose|order: Seq<usize>| #[trigger]
            orders(order, loaded.restored_positions()) && steps_view(steps@) == steps_view(asked)
                + restores(order, names);
        let ghost listed = steps@;
        steps.push(Step::Save(self.snapshot()));
        assert(steps_view(steps@) =~= steps_view(listed) + seq![
            StepView::Save(old(self)@.names_updated(persisted@).persisted()),
        ]);
        steps
    }

    /// Takes in an event.
    pub fn update(&mut self, event: Event) -> (r: Response)
        ensures
            final(self)@ == old(self)@.after_event(event@).0,
            r@ == old(self)@.after_event(event@).1,
    {
        match event {
            Event::PermissionRequestResult(granted) => {
                self.permissions_granted = granted;
                let mut steps: Vec<Step> = Vec::new();
                steps.push(Step::Perform(Effect::SetSelectable(false)));
                steps.push(Step::Reload);
                let r = Response { render: true, steps };
                assert(r@.steps =~= old(self)@.after_event(event@).1.steps);
                r
            },
            Event::TabUpdate(tabs) => {
                self.tabs = tabs;
                self.take_change()
            },
            Event::PaneUpdate(panes) => {
                self.panes = panes;
                self.take_change()
            },
            Event::Other => {
                let r = Response { render: false, steps: Vec::new() };
                assert(r@.steps =~= seq![]);
                r
            },
        }
    }

    fn take_change(&mut self) -> (r: Response)
        ensures
            final(self)@ == old(self)@.after_change().0,
            r@ == old(self)@.after_change().1,
    {
        let mut steps = self.check_and_clear_focus();
        let ghost cleared = steps@;
        steps.push(Step::Reload);
        assert(steps_view(steps@) =~= steps_view(cleared).push(StepView::Reload));
        Response { render: false, steps }
    }

    /// Takes in a message from a pipe.
    pub fn pipe(&mut self, message: PipeMessage) -> (r: Response)
        ensures
            ({
                let name = message.name@;
                let payload = host::payload_view(message.payload);
                let next = old(self)@.after_message(
                    name,
                    message::meaning_of(name, payload, |s: Seq<char>| message::lowercase(s)),
                );
                final(self)@ == next.0 && r@ == next.1
            }),
            ({
                let name = message.name@;
                let payload = host::payload_view(message.payload);
                let next = old(self)@.after_message(
                    name,
                    message::meaning_of(name, payload, |s: Seq<char>| message::ascii_lowercase(s)),
                );
                message::ascii_event(name, payload) ==> final(self)@ == next.0 && r@ == next.1
            }),
    {
        let meaning = read_message(&message);
        self.receive(message.name, meaning)
    }

    /// Takes in the meaning of a message that came through the pipe `name`.
    pub fn receive(&mut self, name: String, meaning: Message) -> (r: Response)
        ensures
            final(self)@ == old(self)@.after_message(name@, meaning@).0,
            r@ == old(self)@.after_message(name@, meaning@).1,
    {
        let mut steps: Vec<Step> = Vec::new();
        match meaning {
            Message::Ignored => {},
            Message::Rejected(error) => {
                let unknown = matches!(error, MessageError::UnknownEvent(_));
                steps.push(Step::Perform(Effect::Report(error)));
                if !unknown {
                    steps.push(Step::Perform(Effect::UnblockPipe { pipe: name }));
                }
            },
            Message::Notify { pane, kind } => {
                // Latest wins: one entry, replacing any existing
                self.notification_state.insert(pane, NotificationSet::only(kind));
                assert(self@ =~= old(self)@.notified(pane, kind));
                steps.push(Step::Save(self.snapshot()));
                steps.push(Step::Reload);
                steps.push(Step::Perform(Effect::UnblockPipe { pipe: name }));
            },
        }
        let r = Response { render: false, steps };
        assert(r@.steps =~= old(self)@.after_message(name@, meaning@).1.steps);
        r
    }
}

proof fn lemma_push_contains(s: Seq<usize>, position: usize)
    ensures
        forall|p: usize| #[trigger]
            s.push(position).contains(p) <==> s.contains(p) || p == position,
{
    assert forall|p: usize| #[trigger] s.push(position).contains(p) <==> s.contains(p) || p
        == position by {
        assert(s.push(position)[s.len() as int] == position);
        if s.contains(p) {
            let j = choose|j: int| 0 <= j < s.len() && s[j] == p;
            assert(s.push(position)[j] == p);
        }
    }
}

/// Lists the positions that have a name and are not in `notified`.
fn keys_outside(names: &HashMap<usize, String>, notified: &HashSet<usize>) -> (r: Vec<usize>)
    ensures
        r@.no_duplicates(),
        forall|position: usize| #[trigger]
            r@.contains(position) <==> names@.contains_key(position) && !notified@.contains(position),
{
    let mut list: Vec<usize> = Vec::new();
    let ghost keys = vstd::std_specs::iter::IteratorSpec::remaining(&names.keys());
    for key in it: names.keys()
        invariant
            it.seq() == keys,
            keys.unref().to_set() == names@.dom(),
            keys.no_duplicates(),
            list@.no_duplicates(),
            forall|position: usize| #[trigger]
                list@.contains(position) <==> !notified@.contains(position) && exists|k: int|
                    0 <= k < it.index() && *(#[trigger] keys[k]) == position,
    {
        let ghost listed = list@;
        assert(keys[it.index()] == key);
        if !notified.contains(key) {
            assert(!listed.contains(*key));
            list.push(*key);
            proof {
                lemma_push_contains(listed, *key);
            }
        }
    }
    assert forall|position: usize| #[trigger] list@.contains(position) <==> names@.contains_key(
        position,
    ) && !notified@.contains(position) by {
        if names@.contains_key(position) {
            assert(keys.unref().to_set().contains(position));
            let k = choose|k: int| 0 <= k < keys.unref().len() && keys.unref()[k] == position;
            assert(*keys[k] == position);
        }
        if list@.contains(position) {
            let k = choose|k: int| 0 <= k < keys.len() && *(#[trigger] keys[k]) == position;
            assert(keys.unref()[k] == position);
            assert(keys.unref().to_set().contains(position));
        }
    }
    list
}

} // verus!
