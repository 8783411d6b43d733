//! Filesystem change events and how raw notifications turn into them.
use vstd::prelude::*;

verus! {

/// Event emitted by the filesystem watcher.
#[derive(Debug, Clone, PartialEq, Eq)]
pub enum FileWatchEvent {
    /// A file or directory was created.
    Created(String),
    /// A file or directory was modified.
    Modified(String),
    /// A file or directory was deleted.
    Deleted(String),
    /// A file or directory was renamed.
    Renamed { from: String, to: String },
    /// Other filesystem event (access, metadata change, etc.).
    Other(String),
}

/// The primary path of an event: the new name of a rename.
pub open spec fn event_path(e: FileWatchEvent) -> Seq<char> {
    match e {
        FileWatchEvent::Created(p) => p@,
        FileWatchEvent::Modified(p) => p@,
        FileWatchEvent::Deleted(p) => p@,
        FileWatchEvent::Renamed { to, .. } => to@,
        FileWatchEvent::Other(p) => p@,
    }
}

impl FileWatchEvent {
    /// Returns the primary path associated with this event.
    pub fn path(&self) -> (r: &str)
        ensures
            r@ == event_path(*self),
    {
        match self {
            FileWatchEvent::Created(p) => p.as_str(),
            FileWatchEvent::Modified(p) => p.as_str(),
            FileWatchEvent::Deleted(p) => p.as_str(),
            FileWatchEvent::Renamed { to, .. } => to.as_str(),
            FileWatchEvent::Other(p) => p.as_str(),
        }
    }
}

/// Configuration options for the watcher.
#[derive(Debug, Clone, Copy, PartialEq, Eq, Structural)]
pub struct WatcherConfig {
    /// Whether to watch directories recursively by default.
    pub recursive: bool,
    /// Optional poll interval in milliseconds (if polling backend is used).
    pub poll_interval_ms: Option<u64>,
}

impl Default for WatcherConfig {
    fn default() -> (r: Self)
        ensures
            r == (WatcherConfig { recursive: true, poll_interval_ms: None }),
    {
        WatcherConfig { recursive: true, poll_interval_ms: None }
    }
}

/// The kind of a raw notification, as far as the translation tells kinds apart.
#[derive(Debug, Clone, Copy, PartialEq, Eq, Structural)]
pub enum NotifyKind {
    Create,
    Remove,
    ModifyName,
    ModifyOther,
    Other,
}

/// The events that a raw notification of kind `k` on `paths` stands for.
pub open spec fn translate_event(k: NotifyKind, paths: Seq<Seq<char>>) -> Seq<(nat, Seq<char>, Seq<char>)> {
    match k {
        NotifyKind::Create => paths.map_values(|p: Seq<char>| (0nat, p, p)),
        NotifyKind::Remove => paths.map_values(|p: Seq<char>| (2nat, p, p)),
        NotifyKind::ModifyName => if paths.len() >= 2 {
            seq![(3nat, paths[0], paths[1])]
        } else {
            paths.map_values(|p: Seq<char>| (1nat, p, p))
        },
        NotifyKind::ModifyOther => paths.map_values(|p: Seq<char>| (1nat, p, p)),
        NotifyKind::Other => paths.map_values(|p: Seq<char>| (4nat, p, p)),
    }
}

/// An event as its variant number and its two paths (the same path twice
/// but for a rename).
pub open spec fn event_shape(e: FileWatchEvent) -> (nat, Seq<char>, Seq<char>) {
    match e {
        FileWatchEvent::Created(p) => (0nat, p@, p@),
        FileWatchEvent::Modified(p) => (1nat, p@, p@),
        FileWatchEvent::Deleted(p) => (2nat, p@, p@),
        FileWatchEvent::Renamed { from, to } => (3nat, from@, to@),
        FileWatchEvent::Other(p) => (4nat, p@, p@),
    }
}

fn make_event(tag: u8, p: String) -> (r: FileWatchEvent)
    requires
        tag == 0 || tag == 1 || tag == 2 || tag == 4,
    ensures
        event_shape(r) == (tag as nat, p@, p@),
{
    if tag == 0 {
        FileWatchEvent::Created(p)
    } else if tag == 1 {
        FileWatchEvent::Modified(p)
    } else if tag == 2 {
        FileWatchEvent::Deleted(p)
    } else {
        FileWatchEvent::Other(p)
    }
}

/// Translates a raw notification into zero or more watcher events.
pub fn parse_notify_event(kind: NotifyKind, paths: Vec<String>) -> (r: Vec<FileWatchEvent>)
    ensures
        r@.map_values(|e: FileWatchEvent| event_shape(e)) == translate_event(
            kind,
            paths@.map_values(|p: String| p@),
        ),
{
    let ghost pv = paths@.map_values(|p: String| p@);
    let mut events: Vec<FileWatchEvent> = Vec::new();
    if kind == NotifyKind::ModifyName && paths.len() >= 2 {
        events.push(FileWatchEvent::Renamed { from: paths[0].clone(), to: paths[1].clone() });
        assert(events@.map_values(|e: FileWatchEvent| event_shape(e)) =~= translate_event(kind, pv));
        return events;
    }
    let tag: u8 = match kind {
        NotifyKind::Create => 0,
        NotifyKind::Remove => 2,
        NotifyKind::ModifyName => 1,
        NotifyKind::ModifyOther => 1,
        NotifyKind::Other => 4,
    };
    let mut i: usize = 0;
    while i < paths.len()
        invariant
            i <= paths.len(),
            tag == 0 || tag == 1 || tag == 2 || tag == 4,
            pv == paths@.map_values(|p: String| p@),
            events@.map_values(|e: FileWatchEvent| event_shape(e)) == pv.take(i as int).map_values(
                |p: Seq<char>| (tag as nat, p, p),
            ),
        decreases paths.len() - i,
    {
        let ghost before = events@;
        let e = make_event(tag, paths[i].clone());
        events.push(e);
        assert(pv[i as int] == paths@[i as int]@);
        assert(events@ =~= before.push(e));
        assert(pv.take(i + 1) =~= pv.take(i as int).push(pv[i as int]));
        assert(events@.map_values(|e: FileWatchEvent| event_shape(e)) =~= before.map_values(
            |e: FileWatchEvent| event_shape(e),
        ).push(event_shape(e)));
        assert(events@.map_values(|e: FileWatchEvent| event_shape(e)) =~= pv.take(i + 1).map_values(
            |p: Seq<char>| (tag as nat, p, p),
        ));
        i += 1;
    }
    assert(pv.take(paths.len() as int) =~= pv);
    events
}

} // verus!
