//! What the tracker asks of the platform: the application in the foreground
//! and the time since the last input.

use crate::models::{opt_text, AppInfo, AppInfoView};
use vstd::prelude::*;

verus! {

/// A source of activity samples. Each platform brings its own.
pub trait ForegroundCollector: Send + Sync {
    /// The application in the foreground, if one can be determined.
    fn get_foreground_app(&self) -> Option<AppInfo>;

    /// Seconds since the user's last input.
    fn get_idle_seconds(&self) -> u64;
}

/// The collector for macOS. It observes nothing yet: no application, and a
/// user who is never idle.
pub struct MacOSCollector;

impl MacOSCollector {
    pub fn new() -> (collector: MacOSCollector) {
        MacOSCollector
    }
}

impl ForegroundCollector for MacOSCollector {
    fn get_foreground_app(&self) -> (app: Option<AppInfo>)
        ensures
            app.is_none(),
    {
        None
    }

    fn get_idle_seconds(&self) -> (idle: u64)
        ensures
            idle == 0,
    {
        0
    }
}

/// The name under which a window is recorded when its process has none.
pub open spec fn unknown_process() -> Seq<char> {
    seq!['U', 'n', 'k', 'n', 'o', 'w', 'n']
}

/// Whole seconds between the last input and now, both given in milliseconds
/// on a counter that starts with the system. A last input that lies after
/// now counts as no idle time.
pub open spec fn idle_seconds_between(tick_count: u32, last_input: u32) -> u64 {
    if tick_count >= last_input {
        ((tick_count - last_input) / 1000) as u64
    } else {
        0
    }
}

/// Whole seconds between the last input and now, both given in milliseconds
/// on a counter that starts with the system.
pub fn idle_seconds_from_ticks(tick_count: u32, last_input: u32) -> (idle: u64)
    ensures
        idle == idle_seconds_between(tick_count, last_input),
{
    if tick_count >= last_input {
        let idle_ms: u32 = tick_count - last_input;
        (idle_ms / 1000) as u64
    } else {
        0
    }
}

/// The identity of a window's application from what the platform could tell:
/// a process without a readable name is recorded as `Unknown`.
pub fn app_info_from_window(process_name: Option<String>, title: Option<String>) -> (info: AppInfo)
    ensures
        info@ == (AppInfoView {
            process_name: match process_name {
                Some(name) => name@,
                None => unknown_process(),
            },
            app_title: opt_text(title),
            bundle_id: None,
        }),
{
    let process_name = match process_name {
        Some(name) => name,
        None => {
            proof {
                reveal_strlit("Unknown");
                assert("Unknown"@ =~= unknown_process());
            }
            "Unknown".to_string()
        },
    };
    AppInfo { process_name, app_title: title, bundle_id: None }
}

} // verus!
