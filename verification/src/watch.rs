//! Classification of file-change notifications for watchers of a mapped
//! file, and the dispatcher's decision for each notification.

use vstd::prelude::*;

verus! {

/// Type of change detected in a watched file.
#[derive(Debug, Clone, Copy, PartialEq, Eq, Structural)]
pub enum ChangeKind {
    /// File content was modified (write, truncate, extend).
    Modified,
    /// File metadata changed (permissions, ownership, timestamps).
    Metadata,
    /// File was removed or renamed away from the watched path.
    Removed,
}

/// Event describing a change to a watched memory-mapped file.
///
/// `offset` and `len` are filled when a backend reports a sub-region
/// change; the native backends do not, so both are `None`.
#[derive(Debug, Clone, Copy, PartialEq, Eq, Structural)]
pub struct ChangeEvent {
    /// Offset where the change occurred, if the backend can report it.
    pub offset: Option<u64>,
    /// Length of the changed region, if the backend can report it.
    pub len: Option<u64>,
    /// Type of change.
    pub kind: ChangeKind,
}

/// The families of notifications a file-system event source delivers.
#[derive(Debug, Clone, Copy, PartialEq, Eq, Structural)]
pub enum NotifyKind {
    /// The path was (re)created.
    Create,
    /// Data of the file changed.
    ModifyData,
    /// Metadata of the file changed.
    ModifyMetadata,
    /// The file was renamed.
    ModifyName,
    /// Some other or unspecified modification.
    ModifyOther,
    /// The file was removed.
    Remove,
    /// The file was accessed (opened, read, closed).
    Access,
    /// An event of unknown kind.
    Any,
    /// An event the source cannot classify.
    Other,
}

/// What a notification means to a watcher: content modifications, renames
/// and removals as such; creation and unclassified events are reported as
/// modifications so that callers re-read; plain accesses are suppressed.
pub open spec fn change_of(kind: NotifyKind) -> Option<ChangeKind> {
    match kind {
        NotifyKind::Create => Some(ChangeKind::Modified),
        NotifyKind::ModifyData => Some(ChangeKind::Modified),
        NotifyKind::ModifyMetadata => Some(ChangeKind::Metadata),
        NotifyKind::ModifyName => Some(ChangeKind::Removed),
        NotifyKind::ModifyOther => Some(ChangeKind::Modified),
        NotifyKind::Remove => Some(ChangeKind::Removed),
        NotifyKind::Access => None,
        NotifyKind::Any => Some(ChangeKind::Modified),
        NotifyKind::Other => Some(ChangeKind::Modified),
    }
}

/// Map a notification into a [`ChangeKind`] (see [`change_of`]).
pub fn map_notify_kind(kind: &NotifyKind) -> (r: Option<ChangeKind>)
    ensures
        r == change_of(*kind),
{
    match kind {
        NotifyKind::Create => Some(ChangeKind::Modified),
        NotifyKind::ModifyData => Some(ChangeKind::Modified),
        NotifyKind::ModifyMetadata => Some(ChangeKind::Metadata),
        NotifyKind::ModifyName => Some(ChangeKind::Removed),
        NotifyKind::ModifyOther => Some(ChangeKind::Modified),
        NotifyKind::Remove => Some(ChangeKind::Removed),
        NotifyKind::Access => None,
        NotifyKind::Any => Some(ChangeKind::Modified),
        NotifyKind::Other => Some(ChangeKind::Modified),
    }
}

/// What the watch dispatcher does with one delivery from the event source.
#[derive(Debug, Clone, Copy, PartialEq, Eq, Structural)]
pub struct WatchStep {
    /// The event to hand to the user's callback, if any.
    pub event: Option<ChangeEvent>,
    /// Whether the dispatcher stops watching after this delivery.
    pub stop: bool,
}

/// The dispatcher's decision on one delivery: `Some(kind)` for a
/// notification, `None` when the event source reported an error (surfaced
/// as a modification so that the caller refreshes). A removal ends the
/// watch; plain accesses are not forwarded.
pub open spec fn dispatch_spec(delivery: Option<NotifyKind>) -> WatchStep {
    match delivery {
        None => WatchStep {
            event: Some(ChangeEvent { offset: None, len: None, kind: ChangeKind::Modified }),
            stop: false,
        },
        Some(k) => WatchStep {
            event: match change_of(k) {
                Some(c) => Some(ChangeEvent { offset: None, len: None, kind: c }),
                None => None,
            },
            stop: change_of(k) == Some(ChangeKind::Removed),
        },
    }
}

/// Decide on one delivery (see [`dispatch_spec`]).
pub fn dispatch(delivery: Option<NotifyKind>) -> (r: WatchStep)
    ensures
        r == dispatch_spec(delivery),
{
    match delivery {
        None => WatchStep {
            event: Some(ChangeEvent { offset: None, len: None, kind: ChangeKind::Modified }),
            stop: false,
        },
        Some(k) => match map_notify_kind(&k) {
            Some(kind) => WatchStep {
                event: Some(ChangeEvent { offset: None, len: None, kind }),
                stop: kind == ChangeKind::Removed,
            },
            None => WatchStep { event: None, stop: false },
        },
    }
}

/// Law: the dispatcher forwards every delivery except plain accesses, no
/// forwarded event carries a sub-range, and it stops exactly after
/// forwarding a removal.
pub proof fn lemma_dispatch_stops_only_on_removal(delivery: Option<NotifyKind>)
    ensures
        dispatch_spec(delivery).stop <==> (dispatch_spec(delivery).event matches Some(ev)
            && ev.kind == ChangeKind::Removed),
        dispatch_spec(delivery).event is None <==> delivery == Some(NotifyKind::Access),
        dispatch_spec(delivery).event matches Some(ev) ==> ev.offset is None && ev.len is None,
{
}

/// Law: how notifications are classified. Only a metadata notification
/// reports `Metadata`; only a rename or a removal reports `Removed`; only a
/// plain access is suppressed; every other notification (a data change,
/// a creation, an unspecified or other modification, an unknown event) is
/// reported as a content modification, so that the caller re-reads.
pub proof fn lemma_notification_classes(kind: NotifyKind)
    ensures
        change_of(kind) == Some(ChangeKind::Metadata) <==> kind == NotifyKind::ModifyMetadata,
        change_of(kind) == Some(ChangeKind::Removed) <==> (kind == NotifyKind::ModifyName || kind
            == NotifyKind::Remove),
        change_of(kind) is None <==> kind == NotifyKind::Access,
        change_of(kind) == Some(ChangeKind::Modified) <==> !(kind == NotifyKind::ModifyMetadata
            || kind == NotifyKind::ModifyName || kind == NotifyKind::Remove || kind
            == NotifyKind::Access),
        dispatch_spec(Some(kind)).event matches Some(ev) ==> Some(ev.kind) == change_of(kind),
{
}

} // verus!
