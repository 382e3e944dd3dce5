//! The singleton Settings window's launch category hand-off.

use vstd::prelude::*;

verus! {

pub const SETTINGS_WINDOW_LABEL: &'static str = "settings";

pub const SETTINGS_NAVIGATE_EVENT: &'static str = "settings-navigate";

pub const CONNECTION_STATUS_CHANGED_EVENT: &'static str = "connection-status-changed";

#[derive(Debug, Clone, Copy, PartialEq, Eq, Structural)]
pub enum SettingsCategory {
    Connections,
    Appearance,
}

/// The category a newly opened Settings window shows first.
#[derive(Debug)]
pub struct SettingsLaunchState {
    pending_category: Option<SettingsCategory>,
}

impl SettingsLaunchState {
    pub closed spec fn pending(&self) -> Option<SettingsCategory> {
        self.pending_category
    }

    pub fn new() -> (s: Self)
        ensures
            s.pending() is None,
    {
        SettingsLaunchState { pending_category: None }
    }

    pub fn set_pending(&mut self, category: Option<SettingsCategory>)
        ensures
            final(self).pending() == category,
    {
        self.pending_category = category;
    }

    /// Hands the pending category out once.
    pub fn take_pending(&mut self) -> (r: Option<SettingsCategory>)
        ensures
            r == old(self).pending(),
            final(self).pending() is None,
    {
        self.pending_category.take()
    }
}

/// Whether an open request should tell an already open window to navigate.
pub fn should_emit_navigation(created: bool, category: Option<SettingsCategory>) -> (r: Option<
    SettingsCategory,
>)
    ensures
        r == (if created {
            None
        } else {
            category
        }),
{
    if created {
        None
    } else {
        category
    }
}

} // verus!
