//! Single-instance enforcement.
//!
//! Two trays would mean two icons, two event streams and two sets of dialogs for
//! the same failure. Ownership of a well-known bus name is used as the lock: the
//! bus grants it to exactly one connection, and releases it automatically when
//! that connection drops.

use vstd::prelude::*;

verus! {

/// The well-known name whose ownership marks the running instance.
pub const BUS_NAME: &'static str = "dev.growse.SyncertingTray";

/// Outcome of trying to become the one running tray.
#[derive(Debug, PartialEq, Eq, Structural, Clone, Copy)]
pub enum Acquired {
    /// We hold the name; this is the only instance.
    Yes,
    /// Another instance already holds it.
    AlreadyRunning,
}

/// What the bus answered to a request for the name, asked without queueing
/// and without replacing an existing owner.
#[derive(Debug, PartialEq, Eq, Structural, Clone, Copy)]
pub enum NameReply {
    PrimaryOwner,
    AlreadyOwner,
    Exists,
    InQueue,
    /// The request failed because another connection owns the name; a
    /// refusal without queueing arrives this way rather than as `Exists`.
    NameTaken,
    /// Any other failure.
    Failed,
}

/// Whether we are the one instance, from the bus's answer; `None` for a
/// failure that says nothing about other instances.
pub open spec fn spec_acquired(reply: NameReply) -> Option<Acquired> {
    match reply {
        NameReply::PrimaryOwner | NameReply::AlreadyOwner => Some(Acquired::Yes),
        NameReply::Exists | NameReply::InQueue | NameReply::NameTaken => Some(Acquired::AlreadyRunning),
        NameReply::Failed => None,
    }
}

/// Whether we are the one instance, from the bus's answer.
pub fn acquired(reply: NameReply) -> (r: Option<Acquired>)
    ensures
        r == spec_acquired(reply),
{
    match reply {
        NameReply::PrimaryOwner | NameReply::AlreadyOwner => Some(Acquired::Yes),
        NameReply::Exists | NameReply::InQueue | NameReply::NameTaken => Some(Acquired::AlreadyRunning),
        NameReply::Failed => None,
    }
}

} // verus!
