//! The plugin that keeps an icon behind the name of each tab that wants attention.

use std::collections::{HashMap, HashSet};
use vstd::prelude::*;

use crate::config::{ConfigView, NotificationConfig};
use crate::host;
use crate::host::{
    Effect, EffectView, Event, EventView, PaneInfo, PaneManifest, PipeMessage, TabInfo, TabView,
};
use crate::host::number_name;
use crate::message;
use crate::message::{Message, MessageView};
use crate::message::read_message;
use crate::panes;
use crate::panes::{collect_live, drop_stale, find_focused, find_tab_kind};
use crate::state::{NotificationSet, NotificationType};
use crate::text;
use crate::text::{ends_with, join_spaced, same_text, trim_suffix};

verus! {

/// What the plugin knows.
pub struct State {
    pub permissions_granted: bool,
    pub tabs: Vec<TabInfo>,
    pub panes: PaneManifest,
    pub notification_state: HashMap<u32, NotificationSet>,
    pub config: NotificationConfig,
    pub updating_tabs: bool,
    /// Tab positions where we've issued a rename to strip stale icons.
    /// Prevents re-stripping on the bounced TabUpdate before Zellij catches up.
    pub pending_strips: HashSet<usize>,
}

/// The content of a [`State`].
#[verifier::ext_equal]
pub struct StateView {
    pub permissions_granted: bool,
    pub tabs: Seq<TabView>,
    pub panes: Map<usize, Seq<PaneInfo>>,
    pub notification_state: Map<u32, NotificationSet>,
    pub config: ConfigView,
    pub updating_tabs: bool,
    pub pending_strips: Set<usize>,
}

impl View for State {
    type V = StateView;

    open spec fn view(&self) -> StateView {
        StateView {
            permissions_granted: self.permissions_granted,
            tabs: host::tabs_view(self.tabs@),
            panes: self.panes@,
            notification_state: self.notification_state@,
            config: self.config@,
            updating_tabs: self.updating_tabs,
            pending_strips: self.pending_strips@,
        }
    }
}

/// What the plugin answers to the host: whether it wants to be drawn, and what the host is to do.
#[derive(Debug, PartialEq, Eq)]
pub struct Response {
    pub render: bool,
    pub effects: Vec<Effect>,
}

/// The content of a [`Response`].
#[verifier::ext_equal]
pub struct ResponseView {
    pub render: bool,
    pub effects: Seq<EffectView>,
}

impl View for Response {
    type V = ResponseView;

    open spec fn view(&self) -> ResponseView {
        ResponseView { render: self.render, effects: host::effects_view(self.effects@) }
    }
}

/// A rename that came from elsewhere: the name of the tab changed apart from its icons.
#[derive(Debug, PartialEq, Eq)]
pub struct ExternalRename {
    pub position: usize,
    pub old_name: String,
    pub new_name: String,
    pub old_base: String,
    pub new_base: String,
}

/// The content of an [`ExternalRename`].
#[verifier::ext_equal]
pub struct ExternalRenameView {
    pub position: usize,
    pub old_name: Seq<char>,
    pub new_name: Seq<char>,
    pub old_base: Seq<char>,
    pub new_base: Seq<char>,
}

impl View for ExternalRename {
    type V = ExternalRenameView;

    open spec fn view(&self) -> ExternalRenameView {
        ExternalRenameView {
            position: self.position,
            old_name: self.old_name@,
            new_name: self.new_name@,
            old_base: self.old_base@,
            new_base: self.new_base@,
        }
    }
}

/// The index of the first tab at a position.
pub open spec fn tab_at(tabs: Seq<TabView>, position: usize) -> Option<int>
    decreases tabs.len(),
{
    if tabs.len() == 0 {
        None
    } else if tab_at(tabs.drop_last(), position) is Some {
        tab_at(tabs.drop_last(), position)
    } else if tabs.last().position == position {
        Some(tabs.len() - 1)
    } else {
        None
    }
}

/// What stands behind the name of a tab that carries an icon.
pub open spec fn icon_suffix(icon: Seq<char>) -> Seq<char> {
    seq![' '] + icon
}

/// Whether a name ends with an icon.
pub open spec fn has_icon(config: ConfigView, name: Seq<char>) -> bool {
    icon_suffix(config.waiting_icon).is_suffix_of(name) || icon_suffix(
        config.completed_icon,
    ).is_suffix_of(name)
}

/// A name without the waiting icons at its end, and then without the completed icons at the end
/// of what is left.
pub open spec fn stripped_once(config: ConfigView, name: Seq<char>) -> Seq<char> {
    text::trimmed(
        text::trimmed(name, icon_suffix(config.waiting_icon)),
        icon_suffix(config.completed_icon),
    )
}

/// Stripping once makes a name shorter exactly where it ends with an icon.
pub proof fn lemma_stripped_once_len(config: ConfigView, name: Seq<char>)
    ensures
        stripped_once(config, name).len() <= name.len(),
        has_icon(config, name) <==> stripped_once(config, name).len() < name.len(),
{
    let waiting = icon_suffix(config.waiting_icon);
    text::lemma_trimmed_len(name, waiting);
    text::lemma_trimmed_len(text::trimmed(name, waiting), icon_suffix(config.completed_icon));
}

/// A name without the icons at its end: it is stripped until none is left.
pub open spec fn stripped(config: ConfigView, name: Seq<char>) -> Seq<char>
    decreases name.len(),
{
    if has_icon(config, name) {
        proof {
            lemma_stripped_once_len(config, name);
        }
        stripped(config, stripped_once(config, name))
    } else {
        name
    }
}

/// The name of a tab apart from icons.
pub open spec fn base_name(config: ConfigView, tab: TabView) -> Seq<char> {
    if tab.name.len() == 0 {
        host::numbered_name(tab.position)
    } else {
        stripped(config, tab.name)
    }
}

/// Asks for a new name for the tab at `position`; tabs are numbered from one there.
pub open spec fn rename(position: usize, name: Seq<char>) -> EffectView {
    EffectView::RenameTab { tab: (position + 1) as u32, name }
}

impl StateView {
    /// The notification that a tab shows.
    pub open spec fn kind_at(self, position: usize) -> Option<NotificationType> {
        panes::tab_kind(self.panes, self.notification_state, position, false)
    }

    /// The pane that a client looks at in this tab.
    pub open spec fn focus_of(self, tab: TabView) -> Option<u32> {
        if tab.active && self.panes.contains_key(tab.position) {
            panes::focused_id(self.panes[tab.position], tab.are_floating_panes_visible, false)
        } else {
            None
        }
    }

    /// The panes that clients look at in the first `n` tabs.
    pub open spec fn focused_in(self, n: int) -> Set<u32> {
        Set::new(|id: u32| self.is_focused_in(n, id))
    }

    /// Whether a client looks at this pane in one of the first `n` tabs.
    pub open spec fn is_focused_in(self, n: int, id: u32) -> bool {
        exists|i: int| 0 <= i < n && self.focus_of(#[trigger] self.tabs[i]) == Some(id)
    }

    /// The panes that clients look at.
    pub open spec fn focused(self) -> Set<u32> {
        self.focused_in(self.tabs.len() as int)
    }

    /// The state with the notifications of the focused panes gone.
    pub open spec fn focus_cleared(self) -> StateView {
        StateView {
            notification_state: self.notification_state.remove_keys(self.focused()),
            ..self
        }
    }

    /// The state with the notifications of panes gone that do not exist. While no panes are known
    /// nothing counts as gone.
    pub open spec fn stale_cleaned(self) -> StateView {
        if self.panes.is_empty() {
            self
        } else {
            StateView {
                notification_state: panes::kept(
                    self.notification_state,
                    panes::live_ids(self.panes, false),
                ),
                ..self
            }
        }
    }

    /// Whether a tab carries an icon without a notification, and no strip is under way.
    pub open spec fn is_stale(self, tab: TabView) -> bool {
        self.kind_at(tab.position) is None && !self.pending_strips.contains(tab.position)
            && has_icon(self.config, tab.name)
    }

    /// Whether some tab is stale.
    pub open spec fn any_stale(self) -> bool {
        exists|i: int| 0 <= i < self.tabs.len() && self.is_stale(#[trigger] self.tabs[i])
    }

    /// What is done about the name of one tab while strips are under way at `pending`: the new
    /// set of such positions, and the renames to ask for.
    pub open spec fn named(self, tab: TabView, pending: Set<usize>) -> (
        Set<usize>,
        Seq<EffectView>,
    ) {
        let base = base_name(self.config, tab);
        match self.kind_at(tab.position) {
            Some(kind) => {
                let desired = text::spaced(base, self.config.icon(kind));
                (
                    pending.remove(tab.position),
                    if tab.name != desired {
                        seq![rename(tab.position, desired)]
                    } else {
                        seq![]
                    },
                )
            },
            None => if tab.name != base && has_icon(self.config, tab.name) {
                if pending.contains(tab.position) {
                    (pending, seq![])
                } else {
                    (pending.insert(tab.position), seq![rename(tab.position, base)])
                }
            } else {
                (pending.remove(tab.position), seq![])
            },
        }
    }

    /// What is done about the names of the first `n` tabs, one after the other.
    pub open spec fn swept(self, n: int) -> (Set<usize>, Seq<EffectView>)
        decreases n,
    {
        if n <= 0 {
            (self.pending_strips, seq![])
        } else {
            let before = self.swept(n - 1);
            let step = self.named(self.tabs[n - 1], before.0);
            (step.0, before.1 + step.1)
        }
    }

    /// Whether tab names are left alone.
    pub open spec fn is_passive(self) -> bool {
        self.updating_tabs || !self.config.enabled
    }

    /// The state after the tab names were brought up to date.
    pub open spec fn names_updated(self) -> StateView {
        if self.is_passive() {
            self
        } else {
            let pending = self.swept(self.tabs.len() as int).0;
            StateView {
                pending_strips: if self.tabs.len() == 0 {
                    pending
                } else {
                    pending.intersect(host::positions_of(self.tabs))
                },
                ..self
            }
        }
    }

    /// The renames that bring the tab names up to date.
    pub open spec fn renames(self) -> Seq<EffectView> {
        if self.is_passive() {
            seq![]
        } else {
            self.swept(self.tabs.len() as int).1
        }
    }

    /// The rename from elsewhere, if there is one, that a new tab shows.
    pub open spec fn external_rename(self, tab: TabView) -> Seq<ExternalRenameView> {
        match tab_at(self.tabs, tab.position) {
            Some(i) => {
                let found = ExternalRenameView {
                    position: tab.position,
                    old_name: self.tabs[i].name,
                    new_name: tab.name,
                    old_base: stripped(self.config, self.tabs[i].name),
                    new_base: stripped(self.config, tab.name),
                };
                if found.old_name != found.new_name && found.old_base != found.new_base {
                    seq![found]
                } else {
                    seq![]
                }
            },
            None => seq![],
        }
    }

    /// The renames from elsewhere that new tabs show.
    pub open spec fn external_renames(self, tabs: Seq<TabView>) -> Seq<ExternalRenameView>
        decreases tabs.len(),
    {
        if tabs.len() == 0 {
            seq![]
        } else {
            self.external_renames(tabs.drop_last()) + self.external_rename(tabs.last())
        }
    }

    /// The state with what came to its end forgotten: the notifications of focused panes and of
    /// panes that do not exist.
    pub open spec fn settled(self) -> StateView {
        self.focus_cleared().stale_cleaned()
    }

    /// Whether settling gives a reason to look at the tab names.
    pub open spec fn needs_update(self) -> bool {
        ||| self.focus_cleared().notification_state != self.notification_state
        ||| self.settled().notification_state != self.focus_cleared().notification_state
        ||| self.settled().any_stale()
    }

    /// The state after a change of the tabs or the panes was taken in.
    pub open spec fn reacted(self) -> StateView {
        if self.needs_update() {
            self.settled().names_updated()
        } else {
            self.settled()
        }
    }

    /// The renames that follow from a change of the tabs or the panes.
    pub open spec fn reaction(self) -> Seq<EffectView> {
        if self.needs_update() {
            self.settled().renames()
        } else {
            seq![]
        }
    }

    /// The state after an event, and the answer to it.
    pub open spec fn after_event(self, event: EventView) -> (StateView, ResponseView) {
        match event {
            EventView::PermissionRequestResult(granted) => {
                let next = StateView { permissions_granted: granted, ..self };
                (
                    next.names_updated(),
                    ResponseView {
                        render: true,
                        effects: seq![EffectView::SetSelectable(false)] + next.renames(),
                    },
                )
            },
            EventView::TabUpdate(tabs) => {
                let next = StateView { tabs, ..self };
                (next.reacted(), ResponseView { render: false, effects: next.reaction() })
            },
            EventView::PaneUpdate(panes) => {
                let next = StateView { panes, ..self };
                (next.reacted(), ResponseView { render: false, effects: next.reaction() })
            },
            EventView::Other => (self, ResponseView { render: false, effects: seq![] }),
        }
    }

    /// The state with one notification for a pane, which replaces those it had.
    pub open spec fn notified(self, pane: u32, kind: NotificationType) -> StateView {
        StateView {
            notification_state: self.notification_state.insert(pane, NotificationSet::just(kind)),
            ..self
        }
    }

    /// The state after a message with this meaning came through the pipe `name`, and the answer
    /// to it.
    pub open spec fn after_message(self, name: Seq<char>, meaning: MessageView) -> (
        StateView,
        ResponseView,
    ) {
        match meaning {
            MessageView::Ignored => (self, ResponseView { render: false, effects: seq![] }),
            MessageView::Rejected(error) => (
                self,
                ResponseView {
                    render: false,
                    effects: seq![
                        EffectView::Report(error),
                        EffectView::UnblockPipe { pipe: name },
                    ],
                },
            ),
            MessageView::Notify { pane, kind } => {
                let next = self.notified(pane, kind);
                (
                    next.names_updated(),
                    ResponseView {
                        render: false,
                        effects: seq![EffectView::UnblockPipe { pipe: name }] + next.renames(),
                    },
                )
            },
        }
    }
}

impl State {
    /// Whether every tab can be numbered.
    pub open spec fn wf(&self) -> bool {
        host::numberable(self@.tabs)
    }

    /// A plugin that has heard nothing from its host.
    pub fn new(config: NotificationConfig) -> (r: State)
        ensures
            r.wf(),
            r@ == (StateView {
                permissions_granted: false,
                tabs: seq![],
                panes: Map::empty(),
                notification_state: Map::empty(),
                config: config@,
                updating_tabs: false,
                pending_strips: Set::empty(),
            }),
    {
        let r = State {
            permissions_granted: false,
            tabs: Vec::new(),
            panes: PaneManifest { panes: HashMap::new() },
            notification_state: HashMap::new(),
            config,
            updating_tabs: false,
            pending_strips: HashSet::new(),
        };
        assert(r@.tabs =~= seq![]);
        assert(r@.panes =~= Map::empty());
        r
    }

    /// Takes over a configuration.
    pub fn load(&mut self, config: NotificationConfig)
        ensures
            final(self)@ == (StateView { config: config@, ..old(self)@ }),
    {
        self.config = config;
    }

    /// Takes in an event. The plugin shows nothing: it wants to be drawn once the permissions are
    /// settled, and for no other event.
    pub fn update(&mut self, event: Event) -> (r: Response)
        requires
            old(self).wf(),
            event@ matches EventView::TabUpdate(tabs) ==> host::numberable(tabs),
        ensures
            final(self).wf(),
            final(self)@ == old(self)@.after_event(event@).0,
            r@ == old(self)@.after_event(event@).1,
    {
        match event {
            Event::PermissionRequestResult(granted) => {
                self.permissions_granted = granted;
                let mut effects: Vec<Effect> = Vec::new();
                effects.push(Effect::SetSelectable(false));
                // Strip any stale icons on startup
                let mut renames = self.update_tab_names();
                let ghost asked = renames@;
                effects.append(&mut renames);
                assert(host::effects_view(effects@) =~= seq![EffectView::SetSelectable(false)]
                    + host::effects_view(asked));
                Response { render: true, effects }
            },
            Event::TabUpdate(tabs) => {
                self.tabs = tabs;
                self.react()
            },
            Event::PaneUpdate(panes) => {
                self.panes = panes;
                self.react()
            },
            Event::Other => {
                let r = Response { render: false, effects: Vec::new() };
                assert(r@.effects =~= seq![]);
                r
            },
        }
    }

    /// Detects external renames (base name changed by something other than us) in the tabs that
    /// are about to replace the known ones.
    pub fn external_renames(&self, tabs: &Vec<TabInfo>) -> (r: Vec<ExternalRename>)
        ensures
            r@.map_values(|found: ExternalRename| found@) == self@.external_renames(
                host::tabs_view(tabs@),
            ),
    {
        let ghost view = host::tabs_view(tabs@);
        let ghost shown = |found: ExternalRename| found@;
        let mut renames: Vec<ExternalRename> = Vec::new();
        let mut i: usize = 0;
        assert(renames@.map_values(shown) =~= self@.external_renames(view.take(0)));
        while i < tabs.len()
            invariant
                i <= tabs.len(),
                view == host::tabs_view(tabs@),
                shown == (|found: ExternalRename| found@),
                renames@.map_values(shown) == self@.external_renames(view.take(i as int)),
            decreases tabs.len() - i,
        {
            let tab = &tabs[i];
            let ghost before = renames@;
            assert(view[i as int] == tab@);
            assert(view.take(i + 1).drop_last() =~= view.take(i as int));
            assert(view.take(i + 1).last() == tab@);
            if let Some(k) = self.find_tab(tab.position) {
                assert(self@.tabs[k as int] == self.tabs@[k as int]@);
                if !same_text(self.tabs[k].name.as_str(), tab.name.as_str()) {
                    let old_base = self.strip_icons(self.tabs[k].name.as_str());
                    let new_base = self.strip_icons(tab.name.as_str());
                    if !same_text(old_base.as_str(), new_base.as_str()) {
                        renames.push(
                            ExternalRename {
                                position: tab.position,
                                old_name: self.tabs[k].name.clone(),
                                new_name: tab.name.clone(),
                                old_base,
                                new_base,
                            },
                        );
                    }
                }
            }
            assert(renames@.map_values(shown) =~= before.map_values(shown)
                + self@.external_rename(tab@));
            i = i + 1;
        }
        assert(view.take(i as int) =~= view);
        renames
    }

    fn find_tab(&self, position: usize) -> (r: Option<usize>)
        ensures
            match r {
                Some(k) => k < self.tabs.len() && tab_at(self@.tabs, position) == Some(k as int),
                None => tab_at(self@.tabs, position) is None,
            },
    {
        let ghost view = self@.tabs;
        let mut i: usize = 0;
        while i < self.tabs.len()
            invariant
                i <= self.tabs.len(),
                view == self@.tabs,
                tab_at(view.take(i as int), position) is None,
            decreases self.tabs.len() - i,
        {
            assert(view[i as int] == self.tabs@[i as int]@);
            assert(view.take(i + 1).drop_last() =~= view.take(i as int));
            if self.tabs[i].position == position {
                proof {
                    lemma_tab_at_stays(view, position, i + 1);
                }
                return Some(i);
            }
            i = i + 1;
        }
        assert(view.take(i as int) =~= view);
        None
    }

    /// Takes in a change of the tabs or the panes.
    fn react(&mut self) -> (r: Response)
        requires
            old(self).wf(),
        ensures
            final(self).wf(),
            final(self)@ == old(self)@.reacted(),
            r@ == (ResponseView { render: false, effects: old(self)@.reaction() }),
    {
        let focus_cleared = self.check_and_clear_focus();
        let stale_cleaned = self.clean_stale_notifications();
        let effects = if focus_cleared || stale_cleaned || self.has_stale_icons() {
            self.update_tab_names()
        } else {
            Vec::new()
        };
        let r = Response { render: false, effects };
        assert(r@.effects =~= old(self)@.reaction());
        r
    }

    /// Takes in a message from a pipe.
    pub fn pipe(&mut self, message: PipeMessage) -> (r: Response)
        requires
            old(self).wf(),
        ensures
            final(self).wf(),
            ({
                let name = message.name@;
                let payload = host::payload_view(message.payload);
                let next = old(self)@.after_message(
                    name,
                    message::meaning_of(name, payload, |s: Seq<char>| message::lowercase(s)),
                );
                final(self)@ == next.0 && r@ == next.1
            }),
            ({
                let name = message.name@;
                let payload = host::payload_view(message.payload);
                let next = old(self)@.after_message(
                    name,
                    message::meaning_of(name, payload, |s: Seq<char>| message::ascii_lowercase(s)),
                );
                message::ascii_event(name, payload) ==> final(self)@ == next.0 && r@ == next.1
            }),
    {
        let meaning = read_message(&message);
        self.receive(message.name, meaning)
    }

    /// Takes in the meaning of a message that came through the pipe `name`.
    pub fn receive(&mut self, name: String, meaning: Message) -> (r: Response)
        requires
            old(self).wf(),
        ensures
            final(self).wf(),
            final(self)@ == old(self)@.after_message(name@, meaning@).0,
            r@ == old(self)@.after_message(name@, meaning@).1,
    {
        let ghost start = self@;
        let mut effects: Vec<Effect> = Vec::new();
        match meaning {
            Message::Ignored => {},
            Message::Rejected(error) => {
                effects.push(Effect::Report(error));
                effects.push(Effect::UnblockPipe { pipe: name });
            },
            Message::Notify { pane, kind } => {
                // Unblock the CLI pipe first so the caller never hangs, regardless of what the
                // renaming comes to.
                effects.push(Effect::UnblockPipe { pipe: name });
                self.notification_state.insert(pane, NotificationSet::only(kind));
                assert(self@ =~= start.notified(pane, kind));
                let mut renames = self.update_tab_names();
                let ghost asked = renames@;
                effects.append(&mut renames);
                assert(host::effects_view(effects@) =~= seq![
                    EffectView::UnblockPipe { pipe: name@ },
                ] + host::effects_view(asked));
            },
        }
        let r = Response { render: false, effects };
        assert(r@.effects =~= start.after_message(name@, meaning@).1.effects);
        r
    }

    /// Checks if any focused pane (across all clients) has notifications and clears them.
    /// With multiple clients attached, each has its own active tab, so we must
    /// iterate ALL active tabs — not just the first one found.
    /// Returns true if any notification was cleared.
    pub fn check_and_clear_focus(&mut self) -> (r: bool)
        ensures
            final(self)@ == old(self)@.focus_cleared(),
            r == (final(self)@.notification_state != old(self)@.notification_state),
    {
        let ghost start = self@;
        let mut cleared = false;
        let mut i: usize = 0;
        assert(start.notification_state =~= start.notification_state.remove_keys(
            start.focused_in(0),
        ));
        while i < self.tabs.len()
            invariant
                i <= self.tabs.len(),
                start == old(self)@,
                start.tabs.len() == self.tabs.len(),
                self@ == (StateView {
                    notification_state: start.notification_state.remove_keys(
                        start.focused_in(i as int),
                    ),
                    ..start
                }),
                cleared == (self@.notification_state != start.notification_state),
            decreases self.tabs.len() - i,
        {
            let ghost before = self@.notification_state;
            let ghost tab = start.tabs[i as int];
            assert(self@.tabs[i as int] == self.tabs@[i as int]@);
            assert(start.tabs[i as int] == tab);
            assert(forall|id: u32|
                start.is_focused_in(i + 1, id) <==> start.is_focused_in(i as int, id)
                    || start.focus_of(tab) == Some(id)) by {
                assert forall|id: u32| start.is_focused_in(i as int, id) implies start.is_focused_in(
                    i + 1,
                    id,
                ) by {
                    let j = choose|j: int|
                        0 <= j < i && start.focus_of(#[trigger] start.tabs[j]) == Some(id);
                    assert(start.focus_of(start.tabs[j]) == Some(id));
                }
            }
            let mut found: Option<u32> = None;
            if self.tabs[i].active {
                if let Some(panes) = self.panes.panes.get(&self.tabs[i].position) {
                    assert(self@.panes[tab.position] == panes@);
                    found = find_focused(panes, self.tabs[i].are_floating_panes_visible, false);
                }
            }
            assert(found == start.focus_of(tab));
            if let Some(id) = found {
                let removed = self.notification_state.remove(&id);
                if removed.is_some() {
                    cleared = true;
                    assert(before.contains_key(id) && !self.notification_state@.contains_key(id));
                }
                assert(self.notification_state@ =~= start.notification_state.remove_keys(
                    start.focused_in(i + 1),
                ));
                assert(removed is None ==> self.notification_state@ =~= before);
                assert(removed is Some ==> start.notification_state.contains_key(id));
            } else {
                assert(self.notification_state@ =~= start.notification_state.remove_keys(
                    start.focused_in(i + 1),
                ));
            }
            i = i + 1;
        }
        cleared
    }

    /// Removes notification entries for pane IDs that no longer exist.
    /// Returns true if any stale entries were removed.
    pub fn clean_stale_notifications(&mut self) -> (r: bool)
        ensures
            final(self)@ == old(self)@.stale_cleaned(),
            r == (final(self)@.notification_state != old(self)@.notification_state),
    {
        if self.notification_state.is_empty() || self.panes.panes.is_empty() {
            proof {
                if self.panes.panes@.is_empty() {
                    assert(self@.panes.dom() =~= self.panes.panes@.dom());
                } else {
                    assert(self@.stale_cleaned().notification_state
                        =~= self@.notification_state);
                }
            }
            return false;
        }
        assert(!self@.panes.is_empty()) by {
            assert(self@.panes.dom() =~= self.panes.panes@.dom());
        }
        let live = collect_live(&self.panes, false);
        drop_stale(&mut self.notification_state, &live)
    }

    /// Returns true if any tab has a stale icon suffix with no active notification, unless the
    /// strip was already issued and Zellij has still to catch up.
    pub fn has_stale_icons(&self) -> (r: bool)
        ensures
            r == self@.any_stale(),
    {
        let mut i: usize = 0;
        while i < self.tabs.len()
            invariant
                i <= self.tabs.len(),
                forall|j: int| 0 <= j < i ==> !self@.is_stale(#[trigger] self@.tabs[j]),
            decreases self.tabs.len() - i,
        {
            let tab = &self.tabs[i];
            assert(self@.tabs[i as int] == tab@);
            if self.get_tab_notification_state(tab.position).is_none()
                && !self.pending_strips.contains(&tab.position) && self.tab_name_has_icon(
                tab.name.as_str(),
            ) {
                assert(self@.is_stale(self@.tabs[i as int]));
                return true;
            }
            i = i + 1;
        }
        false
    }

    /// Checks if a tab name ends with one of our notification icon suffixes.
    pub fn tab_name_has_icon(&self, name: &str) -> (r: bool)
        ensures
            r == has_icon(self@.config, name@),
    {
        let waiting = suffix_for(self.config.waiting_icon.as_str());
        let completed = suffix_for(self.config.completed_icon.as_str());
        ends_with(name, waiting.as_str()) || ends_with(name, completed.as_str())
    }

    /// Strips notification icon suffixes from a tab name.
    pub fn strip_icons(&self, name: &str) -> (r: String)
        ensures
            r@ == stripped(self@.config, name@),
            !has_icon(self@.config, r@),
    {
        let waiting = suffix_for(self.config.waiting_icon.as_str());
        let completed = suffix_for(self.config.completed_icon.as_str());
        let mut result: String = name.to_owned();
        while self.tab_name_has_icon(result.as_str())
            invariant
                waiting@ == icon_suffix(self@.config.waiting_icon),
                completed@ == icon_suffix(self@.config.completed_icon),
                stripped(self@.config, result@) == stripped(self@.config, name@),
            decreases result@.len(),
        {
            proof {
                lemma_stripped_once_len(self@.config, result@);
            }
            let half = trim_suffix(result.as_str(), waiting.as_str());
            result = trim_suffix(half.as_str(), completed.as_str());
        }
        result
    }

    /// Finds the notification that the tab at this position shows: Waiting before Completed.
    /// Plugin panes do not count, as their IDs overlap with terminal pane IDs.
    pub fn get_tab_notification_state(&self, tab_position: usize) -> (r: Option<NotificationType>)
        ensures
            r == self@.kind_at(tab_position),
    {
        find_tab_kind(&self.panes, &self.notification_state, tab_position, false)
    }

    fn find_base_name(&self, tab: &TabInfo) -> (r: String)
        requires
            tab.position < usize::MAX,
        ensures
            r@ == base_name(self@.config, tab@),
    {
        if tab.name.as_str().is_empty() {
            number_name(tab.position)
        } else {
            self.strip_icons(tab.name.as_str())
        }
    }

    /// Updates tab names to reflect notification state: returns the renames to ask for.
    /// Stateless: derives the desired name from the current tab name on every cycle.
    /// No cached names — immune to tab reordering and position shifts.
    pub fn update_tab_names(&mut self) -> (r: Vec<Effect>)
        requires
            old(self).wf(),
        ensures
            final(self)@ == old(self)@.names_updated(),
            host::effects_view(r@) == old(self)@.renames(),
    {
        let mut effects: Vec<Effect> = Vec::new();
        let ghost start = self@;
        assert(host::effects_view(effects@) =~= seq![]);
        if self.updating_tabs || !self.config.enabled {
            return effects;
        }
        self.updating_tabs = true;
        let mut i: usize = 0;
        while i < self.tabs.len()
            invariant
                i <= self.tabs.len(),
                host::numberable(start.tabs),
                start.tabs.len() == self.tabs.len(),
                self@ == (StateView {
                    updating_tabs: true,
                    pending_strips: start.swept(i as int).0,
                    ..start
                }),
                host::effects_view(effects@) == start.swept(i as int).1,
            decreases self.tabs.len() - i,
        {
            let ghost view = start.tabs[i as int];
            let ghost asked = effects@;
            assert(self@.tabs[i as int] == self.tabs@[i as int]@);
            let position: usize = self.tabs[i].position;
            assert(self@.kind_at(position) == start.kind_at(position));
            let base = self.find_base_name(&self.tabs[i]);
            match self.get_tab_notification_state(position) {
                Some(kind) => {
                    let desired = join_spaced(base.as_str(), self.config.icon(kind));
                    if !same_text(self.tabs[i].name.as_str(), desired.as_str()) {
                        effects.push(Effect::RenameTab { tab: (position + 1) as u32, name: desired });
                    }
                    self.pending_strips.remove(&position);
                },
                None => {
                    if !same_text(self.tabs[i].name.as_str(), base.as_str())
                        && self.tab_name_has_icon(self.tabs[i].name.as_str()) {
                        if !self.pending_strips.contains(&position) {
                            self.pending_strips.insert(position);
                            effects.push(
                                Effect::RenameTab { tab: (position + 1) as u32, name: base },
                            );
                        }
                    } else {
                        self.pending_strips.remove(&position);
                    }
                },
            }
            let ghost step = start.named(view, start.swept(i as int).0);
            assert(host::effects_view(effects@) =~= host::effects_view(asked) + step.1);
            assert(self.pending_strips@ =~= step.0);
            i = i + 1;
        }
        if self.tabs.len() > 0 {
            self.keep_valid_strips();
        }
        self.updating_tabs = false;
        assert(self@ =~= start.names_updated());
        effects
    }

    /// Forgets the strips at positions where no tab is.
    fn keep_valid_strips(&mut self)
        ensures
            final(self)@ == (StateView {
                pending_strips: old(self)@.pending_strips.intersect(
                    host::positions_of(old(self)@.tabs),
                ),
                ..old(self)@
            }),
    {
        let ghost start = self@;
        let mut valid: HashSet<usize> = HashSet::new();
        let mut i: usize = 0;
        while i < self.tabs.len()
            invariant
                i <= self.tabs.len(),
                start == self@,
                forall|position: usize| #[trigger]
                    valid@.contains(position) <==> self.pending_strips@.contains(position)
                        && exists|j: int| 0 <= j < i && (#[trigger] start.tabs[j]).position == position,
            decreases self.tabs.len() - i,
        {
            let position: usize = self.tabs[i].position;
            assert(start.tabs[i as int].position == position);
            if self.pending_strips.contains(&position) {
                valid.insert(position);
            }
            i = i + 1;
        }
        assert(valid@ =~= start.pending_strips.intersect(host::positions_of(start.tabs)));
        self.pending_strips = valid;
    }
}

/// The first tab at a position stays the first when tabs are added behind.
proof fn lemma_tab_at_stays(tabs: Seq<TabView>, position: usize, k: int)
    requires
        0 <= k <= tabs.len(),
        tab_at(tabs.take(k), position) is Some,
    ensures
        tab_at(tabs, position) == tab_at(tabs.take(k), position),
    decreases tabs.len(),
{
    if k == tabs.len() {
        assert(tabs.take(k) =~= tabs);
    } else {
        assert(tabs.drop_last().take(k) =~= tabs.take(k));
        lemma_tab_at_stays(tabs.drop_last(), position, k);
    }
}

/// Makes what stands behind the name of a tab that carries an icon.
fn suffix_for(icon: &str) -> (r: String)
    ensures
        r@ == icon_suffix(icon@),
{
    proof {
        reveal_strlit("");
    }
    let r = join_spaced("", icon);
    assert(r@ =~= icon_suffix(icon@));
    r
}

} // verus!
