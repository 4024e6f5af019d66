//! What the plugin hears from its host, and what it asks of it.

use std::collections::HashMap;
use vstd::prelude::*;

use crate::message::{MessageError, MessageErrorView};
use crate::text;
use crate::text::decimal_text;

verus! {

/// A tab, as far as the plugin looks at it.
#[derive(Debug, PartialEq, Eq)]
pub struct TabInfo {
    /// The tab's position, counted from zero
    pub position: usize,
    /// The name that the tab shows
    pub name: String,
    /// Whether some client looks at the tab
    pub active: bool,
    /// Whether the floating panes of the tab are shown
    pub are_floating_panes_visible: bool,
}

/// The content of a [`TabInfo`].
#[verifier::ext_equal]
pub struct TabView {
    pub position: usize,
    pub name: Seq<char>,
    pub active: bool,
    pub are_floating_panes_visible: bool,
}

impl View for TabInfo {
    type V = TabView;

    open spec fn view(&self) -> TabView {
        TabView {
            position: self.position,
            name: self.name@,
            active: self.active,
            are_floating_panes_visible: self.are_floating_panes_visible,
        }
    }
}

/// What a list of tabs holds.
pub open spec fn tabs_view(tabs: Seq<TabInfo>) -> Seq<TabView> {
    tabs.map_values(|tab: TabInfo| tab@)
}

/// A pane, as far as the plugin looks at it.
#[derive(Debug, Clone, Copy, PartialEq, Eq)]
pub struct PaneInfo {
    /// Unique among the panes of the same kind
    pub id: u32,
    /// Whether the pane shows a plugin and not a terminal
    pub is_plugin: bool,
    /// Whether the pane is focused in its layer
    pub is_focused: bool,
    /// Whether the pane floats above the tiled ones
    pub is_floating: bool,
}

/// The panes of each tab, by the tab's position.
#[derive(Debug, PartialEq, Eq)]
pub struct PaneManifest {
    pub panes: HashMap<usize, Vec<PaneInfo>>,
}

impl View for PaneManifest {
    type V = Map<usize, Seq<PaneInfo>>;

    open spec fn view(&self) -> Map<usize, Seq<PaneInfo>> {
        self.panes@.map_values(|panes: Vec<PaneInfo>| panes@)
    }
}

/// Something that happened in the host.
#[derive(Debug, PartialEq, Eq)]
pub enum Event {
    /// The user was asked for the permissions; whether they were granted
    PermissionRequestResult(bool),
    /// The tabs changed
    TabUpdate(Vec<TabInfo>),
    /// The panes changed
    PaneUpdate(PaneManifest),
    /// Anything else
    Other,
}

/// The content of an [`Event`].
pub enum EventView {
    PermissionRequestResult(bool),
    TabUpdate(Seq<TabView>),
    PaneUpdate(Map<usize, Seq<PaneInfo>>),
    Other,
}

impl View for Event {
    type V = EventView;

    open spec fn view(&self) -> EventView {
        match self {
            Event::PermissionRequestResult(granted) => EventView::PermissionRequestResult(*granted),
            Event::TabUpdate(tabs) => EventView::TabUpdate(tabs_view(tabs@)),
            Event::PaneUpdate(panes) => EventView::PaneUpdate(panes@),
            Event::Other => EventView::Other,
        }
    }
}

/// Whether every position can be counted from one.
pub open spec fn numberable(tabs: Seq<TabView>) -> bool {
    forall|i: int| 0 <= i < tabs.len() ==> (#[trigger] tabs[i]).position < usize::MAX
}

/// The positions of the tabs.
pub open spec fn positions_of(tabs: Seq<TabView>) -> Set<usize> {
    Set::new(|position: usize| is_position(tabs, position))
}

/// Whether a tab stands at this position.
pub open spec fn is_position(tabs: Seq<TabView>, position: usize) -> bool {
    exists|i: int| 0 <= i < tabs.len() && (#[trigger] tabs[i]).position == position
}

/// The name of a tab that has none: its position, counted from one.
pub open spec fn numbered_name(position: usize) -> Seq<char> {
    "Tab #"@ + text::decimal((position + 1) as nat)
}

/// Makes the name of a tab that has none.
pub fn number_name(position: usize) -> (r: String)
    requires
        position < usize::MAX,
    ensures
        r@ == numbered_name(position),
{
    let mut name: String = "Tab #".to_owned();
    name.append(decimal_text((position + 1) as u64).as_str());
    name
}

/// A message that came through a pipe.
#[derive(Debug, PartialEq, Eq)]
pub struct PipeMessage {
    /// The name of the pipe
    pub name: String,
    /// The text that was sent, unless the pipe has ended
    pub payload: Option<String>,
}

/// What an optional string holds.
pub open spec fn payload_view(payload: Option<String>) -> Option<Seq<char>> {
    match payload {
        Some(text) => Some(text@),
        None => None,
    }
}

/// Something that the host is asked to do.
#[derive(Debug, PartialEq, Eq)]
pub enum Effect {
    /// Give a tab a name
    RenameTab { tab: u32, name: String },
    /// Let the sender of a pipe message go on
    UnblockPipe { pipe: String },
    /// Say whether the user can select the plugin's pane
    SetSelectable(bool),
    /// Tell the user why a message was refused
    Report(MessageError),
}

/// The content of an [`Effect`].
pub enum EffectView {
    RenameTab { tab: u32, name: Seq<char> },
    UnblockPipe { pipe: Seq<char> },
    SetSelectable(bool),
    Report(MessageErrorView),
}

impl View for Effect {
    type V = EffectView;

    open spec fn view(&self) -> EffectView {
        match self {
            Effect::RenameTab { tab, name } => EffectView::RenameTab { tab: *tab, name: name@ },
            Effect::UnblockPipe { pipe } => EffectView::UnblockPipe { pipe: pipe@ },
            Effect::SetSelectable(selectable) => EffectView::SetSelectable(*selectable),
            Effect::Report(error) => EffectView::Report(error@),
        }
    }
}

/// What a list of effects asks for.
pub open spec fn effects_view(effects: Seq<Effect>) -> Seq<EffectView> {
    effects.map_values(|effect: Effect| effect@)
}

} // verus!
