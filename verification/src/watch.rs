//! Events of a watcher of the file system, as plain values.

use vstd::prelude::*;

verus! {

/// What was created.
#[derive(Clone, Copy, Debug, PartialEq, Eq, Hash, Structural)]
pub enum CreateKind {
    Any,
    File,
    Folder,
    Other,
}

/// What was removed.
#[derive(Clone, Copy, Debug, PartialEq, Eq, Hash, Structural)]
pub enum RemoveKind {
    Any,
    File,
    Folder,
    Other,
}

/// What happened to the paths of an event.
#[derive(Clone, Copy, Debug, PartialEq, Eq, Hash, Structural)]
pub enum WatchEventKind {
    Any,
    Access,
    Create(CreateKind),
    Modify,
    Remove(RemoveKind),
    Other,
}

/// One event of a watcher: something happened to some paths.
#[derive(Debug)]
pub struct WatchEvent {
    pub kind: WatchEventKind,
    pub paths: Vec<String>,
}

impl WatchEvent {
    /// The paths of the event, each as the sequence of its characters.
    pub open spec fn spec_paths(&self) -> Seq<Seq<char>> {
        self.paths@.map_values(|p: String| p@)
    }

    /// Whether the event says that a folder was created.
    pub fn creates_folder(&self) -> (r: bool)
        ensures
            r == (self.kind == WatchEventKind::Create(CreateKind::Folder)),
    {
        match self.kind {
            WatchEventKind::Create(CreateKind::Folder) => true,
            _ => false,
        }
    }

    /// Whether the event says that something was created.
    pub fn creates(&self) -> (r: bool)
        ensures
            r == (self.kind is Create),
    {
        match self.kind {
            WatchEventKind::Create(_) => true,
            _ => false,
        }
    }

    /// Whether the event says that a folder was removed.
    pub fn removes_folder(&self) -> (r: bool)
        ensures
            r == (self.kind == WatchEventKind::Remove(RemoveKind::Folder)),
    {
        match self.kind {
            WatchEventKind::Remove(RemoveKind::Folder) => true,
            _ => false,
        }
    }
}

} // verus!
