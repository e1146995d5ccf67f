//! The decisions of the configuration file watcher: which file system events
//! concern the file, when a change is reported, and what waiting for one
//! gives.
use vstd::prelude::*;
use crate::text::{push_text, text_eq, text_of};

verus! {

/// Watcher errors.
#[derive(Debug)]
pub enum WatcherError {
    /// The watched file does not exist; its path.
    FileNotFound(String),
    /// A file system fault; its description.
    FileSystemError(String),
    /// A fault of the file system notifier; its description.
    NotifyError(String),
    /// No change came in time.
    Timeout,
    /// The watcher has stopped.
    Stopped,
}

/// The text of a watcher error, as it is displayed.
pub open spec fn watcher_error_text(e: WatcherError) -> Seq<char> {
    match e {
        WatcherError::FileNotFound(p) => "File not found: "@ + p@,
        WatcherError::FileSystemError(s) => "File system error: "@ + s@,
        WatcherError::NotifyError(s) => "File watcher error: "@ + s@,
        WatcherError::Timeout => "Timeout waiting for file change"@,
        WatcherError::Stopped => "Watcher has been stopped"@,
    }
}

impl WatcherError {
    /// The text of this error, as it is displayed.
    pub fn message(&self) -> (r: String)
        ensures
            r@ == watcher_error_text(*self),
    {
        match self {
            WatcherError::FileNotFound(p) => {
                let mut r = text_of("File not found: ");
                push_text(&mut r, p.as_str());
                r
            },
            WatcherError::FileSystemError(s) => {
                let mut r = text_of("File system error: ");
                push_text(&mut r, s.as_str());
                r
            },
            WatcherError::NotifyError(s) => {
                let mut r = text_of("File watcher error: ");
                push_text(&mut r, s.as_str());
                r
            },
            WatcherError::Timeout => text_of("Timeout waiting for file change"),
            WatcherError::Stopped => text_of("Watcher has been stopped"),
        }
    }
}

/// The kinds of file system event that the watcher tells apart.
#[derive(Debug, Clone, Copy, PartialEq, Eq, Structural)]
pub enum ChangeKind {
    /// A file was renamed away from a path.
    RenameFrom,
    /// A file was renamed to a path.
    RenameTo,
    /// Any other event.
    Other,
}

/// A path of a file system event: its text, and its final component when it
/// has one.
pub struct EventPath {
    /// The path.
    pub path: String,
    /// The final component of the path.
    pub file_name: Option<String>,
}

/// Whether path `p` of an event of kind `kind` concerns the watched file
/// `file`: the same path, or, for a rename to `p`, the same final component.
pub open spec fn path_concerns(file: EventPath, kind: ChangeKind, p: EventPath) -> bool {
    ||| p.path@ == file.path@
    ||| kind == ChangeKind::RenameTo && match (p.file_name, file.file_name) {
        (Some(a), Some(b)) => a@ == b@,
        (None, None) => true,
        _ => false,
    }
}

/// Whether two optional names are equal.
fn same_name(a: &Option<String>, b: &Option<String>) -> (r: bool)
    ensures
        r == match (*a, *b) {
            (Some(x), Some(y)) => x@ == y@,
            (None, None) => true,
            _ => false,
        },
{
    match (a, b) {
        (Some(x), Some(y)) => text_eq(x.as_str(), y.as_str()),
        (None, None) => true,
        _ => false,
    }
}

/// Whether an event of kind `kind` on `paths` concerns the watched file.
pub fn is_relevant_event(file: &EventPath, kind: ChangeKind, paths: &Vec<EventPath>) -> (r: bool)
    ensures
        r == exists|i: int| 0 <= i < paths@.len() && #[trigger] path_concerns(*file, kind, paths@[i]),
{
    let mut i: usize = 0;
    while i < paths.len()
        invariant
            0 <= i <= paths@.len(),
            forall|j: int| 0 <= j < i ==> !#[trigger] path_concerns(*file, kind, paths@[j]),
        decreases paths@.len() - i,
    {
        let p = &paths[i];
        if text_eq(p.path.as_str(), file.path.as_str()) {
            assert(path_concerns(*file, kind, paths@[i as int]));
            return true;
        }
        if kind == ChangeKind::RenameTo && same_name(&p.file_name, &file.file_name) {
            assert(path_concerns(*file, kind, paths@[i as int]));
            return true;
        }
        i = i + 1;
    }
    false
}

/// Whether a relevant event at `now_ms` is reported, after the last report
/// at `last_ms` (none yet when absent): when at least `debounce_ms` has
/// passed since it (no time has passed when the clock went back).
pub open spec fn notify_due(last_ms: Option<u64>, now_ms: u64, debounce_ms: u64) -> bool {
    match last_ms {
        Some(last) => (if now_ms >= last { now_ms - last } else { 0 }) >= debounce_ms,
        None => true,
    }
}

/// Whether a relevant event at `now_ms` is reported.
pub fn should_notify(last_ms: Option<u64>, now_ms: u64, debounce_ms: u64) -> (r: bool)
    ensures
        r == notify_due(last_ms, now_ms, debounce_ms),
{
    match last_ms {
        Some(last) => {
            let elapsed = if now_ms >= last { now_ms - last } else { 0 };
            elapsed >= debounce_ms
        },
        None => true,
    }
}

/// What waiting for a change came to.
#[derive(Debug, Clone, Copy, PartialEq, Eq, Structural)]
pub enum WaitOutcome {
    /// A change was reported.
    Changed,
    /// The channel of changes closed.
    Closed,
    /// The time ran out.
    TimedOut,
}

/// The result of waiting for a change: a change, or why there was none.
pub fn change_result(outcome: WaitOutcome) -> (r: Result<(), WatcherError>)
    ensures
        outcome == WaitOutcome::Changed <==> r is Ok,
        outcome == WaitOutcome::Closed ==> r matches Err(WatcherError::Stopped),
        outcome == WaitOutcome::TimedOut ==> r matches Err(WatcherError::Timeout),
{
    match outcome {
        WaitOutcome::Changed => Ok(()),
        WaitOutcome::Closed => Err(WatcherError::Stopped),
        WaitOutcome::TimedOut => Err(WatcherError::Timeout),
    }
}

}
