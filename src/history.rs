//! Notification settings kept beside the usage history.

use vstd::prelude::*;

verus! {

/// When to notify about an account's coming quota reset.
pub struct NotificationConfig {
    pub id: Option<i64>,
    pub account_name: String,
    pub notify_before_reset_hours: i32,
    pub enabled: bool,
    pub last_notified: Option<i64>,
}

} // verus!
