//! What the user can configure.

use vstd::prelude::*;

use crate::state::NotificationType;

verus! {

/// The configuration of the plugin.
#[derive(Debug, PartialEq, Eq)]
pub struct NotificationConfig {
    /// Whether tabs are renamed at all
    pub enabled: bool,
    /// Marks a tab with a pane that waits
    pub waiting_icon: String,
    /// Marks a tab with a pane that has completed
    pub completed_icon: String,
}

/// The content of a [`NotificationConfig`].
#[verifier::ext_equal]
pub struct ConfigView {
    pub enabled: bool,
    pub waiting_icon: Seq<char>,
    pub completed_icon: Seq<char>,
}

impl View for NotificationConfig {
    type V = ConfigView;

    open spec fn view(&self) -> ConfigView {
        ConfigView {
            enabled: self.enabled,
            waiting_icon: self.waiting_icon@,
            completed_icon: self.completed_icon@,
        }
    }
}

impl ConfigView {
    /// The icon of a notification type.
    pub open spec fn icon(self, kind: NotificationType) -> Seq<char> {
        match kind {
            NotificationType::Waiting => self.waiting_icon,
            NotificationType::Completed => self.completed_icon,
        }
    }
}

impl NotificationConfig {
    /// The icon of a notification type.
    pub fn icon(&self, kind: NotificationType) -> (r: &str)
        ensures
            r@ == self@.icon(kind),
    {
        match kind {
            NotificationType::Waiting => self.waiting_icon.as_str(),
            NotificationType::Completed => self.completed_icon.as_str(),
        }
    }
}

} // verus!
