use vstd::prelude::*;

verus! {

/// The kinds of host occurrences that a plugin can subscribe to.
#[derive(Clone, Copy, Debug, PartialEq, Eq, Structural)]
pub enum EventKind {
    InputReceived,
    SystemClipboardFailure,
    FileSystemCreate,
    FileSystemUpdate,
    FileSystemDelete,
    CustomMessage,
}

/// A host occurrence routed into plugin instances.
#[derive(Debug)]
pub enum Event {
    InputReceived,
    SystemClipboardFailure,
    /// A file was created at the given path.
    FileSystemCreate(String),
    /// A file at the given path changed.
    FileSystemUpdate(String),
    /// A file at the given path was removed.
    FileSystemDelete(String),
    /// A message from a worker to its plugin: name and payload.
    CustomMessage(String, String),
}

impl Event {
    pub open spec fn spec_kind(&self) -> EventKind {
        match self {
            Event::InputReceived => EventKind::InputReceived,
            Event::SystemClipboardFailure => EventKind::SystemClipboardFailure,
            Event::FileSystemCreate(_) => EventKind::FileSystemCreate,
            Event::FileSystemUpdate(_) => EventKind::FileSystemUpdate,
            Event::FileSystemDelete(_) => EventKind::FileSystemDelete,
            Event::CustomMessage(_, _) => EventKind::CustomMessage,
        }
    }

    /// The kind of this event, which decides who receives it when broadcast.
    pub fn kind(&self) -> (k: EventKind)
        ensures
            k == self.spec_kind(),
    {
        match self {
            Event::InputReceived => EventKind::InputReceived,
            Event::SystemClipboardFailure => EventKind::SystemClipboardFailure,
            Event::FileSystemCreate(_) => EventKind::FileSystemCreate,
            Event::FileSystemUpdate(_) => EventKind::FileSystemUpdate,
            Event::FileSystemDelete(_) => EventKind::FileSystemDelete,
            Event::CustomMessage(_, _) => EventKind::CustomMessage,
        }
    }

    /// An identical copy of this event.
    pub fn duplicate(&self) -> (r: Event)
        ensures
            r == *self,
    {
        match self {
            Event::InputReceived => Event::InputReceived,
            Event::SystemClipboardFailure => Event::SystemClipboardFailure,
            Event::FileSystemCreate(p) => Event::FileSystemCreate(p.clone()),
            Event::FileSystemUpdate(p) => Event::FileSystemUpdate(p.clone()),
            Event::FileSystemDelete(p) => Event::FileSystemDelete(p.clone()),
            Event::CustomMessage(n, p) => Event::CustomMessage(n.clone(), p.clone()),
        }
    }
}

} // verus!
