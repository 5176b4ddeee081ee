//! The watched directory: which events bring an item.

use vstd::prelude::*;

verus! {

/// How a file was open when it was closed.
#[derive(Clone, Copy, Debug, PartialEq, Eq)]
pub enum CloseMode {
    /// It was open for writing.
    Write,
    /// It was open for reading only.
    Read,
    /// The watcher does not say.
    Other,
}

/// What the watcher saw happen to a file of the directory.
#[derive(Clone, Copy, Debug, PartialEq, Eq)]
pub enum FileEvent {
    /// The file was closed.
    Closed(CloseMode),
    /// Anything else.
    Other,
}

/// Whether the event brings an item: only a file that was closed after
/// writing does.
pub open spec fn brings_item(event: FileEvent) -> bool {
    event == FileEvent::Closed(CloseMode::Write)
}

/// Decides whether the event brings an item.
pub fn qualifies(event: FileEvent) -> (queued: bool)
    ensures
        queued == brings_item(event),
{
    match event {
        FileEvent::Closed(CloseMode::Write) => true,
        _ => false,
    }
}

/// The paths that go into the queue for an event on `paths`: all of them
/// if the event brings an item, none otherwise.
pub fn queued_paths(event: FileEvent, paths: Vec<String>) -> (queued: Vec<String>)
    ensures
        queued@ == if brings_item(event) {
            paths@
        } else {
            Seq::<String>::empty()
        },
{
    if qualifies(event) {
        paths
    } else {
        Vec::new()
    }
}

} // verus!
