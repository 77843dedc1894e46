//! What the file watcher reports. The watcher's debouncer collapses all
//! kinds of change into one notification per path, so every event the
//! editor sees is a modification.
use vstd::prelude::*;

verus! {

/// A change under the watched directory, as sent to the editor.
pub struct FileChangeEvent {
    pub event_type: String,
    pub path: String,
}

impl FileChangeEvent {
    /// The event for one debounced change: always a modification, since the
    /// debouncer does not say which kind of change it saw.
    pub fn modification(path: String) -> (r: FileChangeEvent)
        ensures
            r.event_type@ == ("modify")@,
            r.path@ == path@,
    {
        FileChangeEvent { event_type: String::from_str("modify"), path }
    }
}

} // verus!
