//! The kinds of event this crate writes to a stream, how each is spelled on the
//! wire, and which phase of a change's life each belongs to.

use vstd::prelude::*;

use crate::text;

verus! {

/// Every kind of event this crate writes, grouped by the phase it belongs to.
#[derive(Debug, Clone, Copy, PartialEq, Eq, Structural)]
pub enum EventKind {
    // Kinds of the development phase.
    /// Spelled `branch-preserved` on the wire.
    BranchPreserved,
    /// Spelled `commit-preserved` on the wire.
    CommitPreserved,
    /// Spelled `fetch` on the wire.
    Fetch,
    /// Spelled `lock-acquired` on the wire.
    LockAcquired,
    /// Spelled `lock-wait` on the wire.
    LockWait,
    /// Spelled `recovery-attested` on the wire.
    RecoveryAttested,
    /// Spelled `session-closed` on the wire.
    SessionClosed,
    /// Spelled `session-opened` on the wire.
    SessionOpened,
    // Kinds of the review phase.
    /// Spelled `change-check` on the wire.
    ChangeCheck,
    /// Spelled `change-described` on the wire.
    ChangeDescribed,
    /// Spelled `change-drafted` on the wire.
    ChangeDrafted,
    /// Spelled `change-merged` on the wire.
    ChangeMerged,
    /// Spelled `change-opened` on the wire.
    ChangeOpened,
    /// Spelled `draft-lifted` on the wire.
    DraftLifted,
    // Kinds of the integration phase.
    /// Spelled `branch-retired` on the wire.
    BranchRetired,
    /// Spelled `branch-superseded` on the wire.
    BranchSuperseded,
    /// Spelled `merge-completed` on the wire.
    MergeCompleted,
    /// Spelled `merge-queued` on the wire.
    MergeQueued,
    /// Spelled `sync-conflict` on the wire.
    SyncConflict,
    // Kinds of the release phase.
    /// Spelled `release-acknowledged` on the wire.
    ReleaseAcknowledged,
    /// Spelled `release-observed` on the wire.
    ReleaseObserved,
    /// Spelled `release-probed` on the wire.
    ReleaseProbed,
    // A kind with no phase of its own.
    /// Spelled `push` on the wire.
    Push,
}

/// How a kind is spelled on the wire: its name in kebab-case.
pub open spec fn spec_wire(kind: EventKind) -> Seq<char> {
    match kind {
        EventKind::BranchPreserved => "branch-preserved"@,
        EventKind::CommitPreserved => "commit-preserved"@,
        EventKind::Fetch => "fetch"@,
        EventKind::LockAcquired => "lock-acquired"@,
        EventKind::LockWait => "lock-wait"@,
        EventKind::RecoveryAttested => "recovery-attested"@,
        EventKind::SessionClosed => "session-closed"@,
        EventKind::SessionOpened => "session-opened"@,
        EventKind::ChangeCheck => "change-check"@,
        EventKind::ChangeDescribed => "change-described"@,
        EventKind::ChangeDrafted => "change-drafted"@,
        EventKind::ChangeMerged => "change-merged"@,
        EventKind::ChangeOpened => "change-opened"@,
        EventKind::DraftLifted => "draft-lifted"@,
        EventKind::BranchRetired => "branch-retired"@,
        EventKind::BranchSuperseded => "branch-superseded"@,
        EventKind::MergeCompleted => "merge-completed"@,
        EventKind::MergeQueued => "merge-queued"@,
        EventKind::SyncConflict => "sync-conflict"@,
        EventKind::ReleaseAcknowledged => "release-acknowledged"@,
        EventKind::ReleaseObserved => "release-observed"@,
        EventKind::ReleaseProbed => "release-probed"@,
        EventKind::Push => "push"@,
    }
}

/// The kind a wire spelling names, if it names one.
pub open spec fn spec_named(wire: Seq<char>) -> Option<EventKind> {
    if wire == "branch-preserved"@ {
        Some(EventKind::BranchPreserved)
    } else if wire == "commit-preserved"@ {
        Some(EventKind::CommitPreserved)
    } else if wire == "fetch"@ {
        Some(EventKind::Fetch)
    } else if wire == "lock-acquired"@ {
        Some(EventKind::LockAcquired)
    } else if wire == "lock-wait"@ {
        Some(EventKind::LockWait)
    } else if wire == "recovery-attested"@ {
        Some(EventKind::RecoveryAttested)
    } else if wire == "session-closed"@ {
        Some(EventKind::SessionClosed)
    } else if wire == "session-opened"@ {
        Some(EventKind::SessionOpened)
    } else if wire == "change-check"@ {
        Some(EventKind::ChangeCheck)
    } else if wire == "change-described"@ {
        Some(EventKind::ChangeDescribed)
    } else if wire == "change-drafted"@ {
        Some(EventKind::ChangeDrafted)
    } else if wire == "change-merged"@ {
        Some(EventKind::ChangeMerged)
    } else if wire == "change-opened"@ {
        Some(EventKind::ChangeOpened)
    } else if wire == "draft-lifted"@ {
        Some(EventKind::DraftLifted)
    } else if wire == "branch-retired"@ {
        Some(EventKind::BranchRetired)
    } else if wire == "branch-superseded"@ {
        Some(EventKind::BranchSuperseded)
    } else if wire == "merge-completed"@ {
        Some(EventKind::MergeCompleted)
    } else if wire == "merge-queued"@ {
        Some(EventKind::MergeQueued)
    } else if wire == "sync-conflict"@ {
        Some(EventKind::SyncConflict)
    } else if wire == "release-acknowledged"@ {
        Some(EventKind::ReleaseAcknowledged)
    } else if wire == "release-observed"@ {
        Some(EventKind::ReleaseObserved)
    } else if wire == "release-probed"@ {
        Some(EventKind::ReleaseProbed)
    } else if wire == "push"@ {
        Some(EventKind::Push)
    } else {
        None
    }
}

impl EventKind {
    /// How this kind is spelled on the wire.
    pub fn wire(self) -> (out: &'static str)
        ensures
            out@ == spec_wire(self),
    {
        match self {
            EventKind::BranchPreserved => "branch-preserved",
            EventKind::CommitPreserved => "commit-preserved",
            EventKind::Fetch => "fetch",
            EventKind::LockAcquired => "lock-acquired",
            EventKind::LockWait => "lock-wait",
            EventKind::RecoveryAttested => "recovery-attested",
            EventKind::SessionClosed => "session-closed",
            EventKind::SessionOpened => "session-opened",
            EventKind::ChangeCheck => "change-check",
            EventKind::ChangeDescribed => "change-described",
            EventKind::ChangeDrafted => "change-drafted",
            EventKind::ChangeMerged => "change-merged",
            EventKind::ChangeOpened => "change-opened",
            EventKind::DraftLifted => "draft-lifted",
            EventKind::BranchRetired => "branch-retired",
            EventKind::BranchSuperseded => "branch-superseded",
            EventKind::MergeCompleted => "merge-completed",
            EventKind::MergeQueued => "merge-queued",
            EventKind::SyncConflict => "sync-conflict",
            EventKind::ReleaseAcknowledged => "release-acknowledged",
            EventKind::ReleaseObserved => "release-observed",
            EventKind::ReleaseProbed => "release-probed",
            EventKind::Push => "push",
        }
    }

    /// The kind a wire spelling names, or `None` for a kind this build does not know,
    /// which a reader carries as unknown rather than refusing.
    pub fn named(wire: &str) -> (r: Option<EventKind>)
        ensures
            r == spec_named(wire@),
    {
        if text::str_eq(wire, "branch-preserved") {
            Some(EventKind::BranchPreserved)
        } else if text::str_eq(wire, "commit-preserved") {
            Some(EventKind::CommitPreserved)
        } else if text::str_eq(wire, "fetch") {
            Some(EventKind::Fetch)
        } else if text::str_eq(wire, "lock-acquired") {
            Some(EventKind::LockAcquired)
        } else if text::str_eq(wire, "lock-wait") {
            Some(EventKind::LockWait)
        } else if text::str_eq(wire, "recovery-attested") {
            Some(EventKind::RecoveryAttested)
        } else if text::str_eq(wire, "session-closed") {
            Some(EventKind::SessionClosed)
        } else if text::str_eq(wire, "session-opened") {
            Some(EventKind::SessionOpened)
        } else if text::str_eq(wire, "change-check") {
            Some(EventKind::ChangeCheck)
        } else if text::str_eq(wire, "change-described") {
            Some(EventKind::ChangeDescribed)
        } else if text::str_eq(wire, "change-drafted") {
            Some(EventKind::ChangeDrafted)
        } else if text::str_eq(wire, "change-merged") {
            Some(EventKind::ChangeMerged)
        } else if text::str_eq(wire, "change-opened") {
            Some(EventKind::ChangeOpened)
        } else if text::str_eq(wire, "draft-lifted") {
            Some(EventKind::DraftLifted)
        } else if text::str_eq(wire, "branch-retired") {
            Some(EventKind::BranchRetired)
        } else if text::str_eq(wire, "branch-superseded") {
            Some(EventKind::BranchSuperseded)
        } else if text::str_eq(wire, "merge-completed") {
            Some(EventKind::MergeCompleted)
        } else if text::str_eq(wire, "merge-queued") {
            Some(EventKind::MergeQueued)
        } else if text::str_eq(wire, "sync-conflict") {
            Some(EventKind::SyncConflict)
        } else if text::str_eq(wire, "release-acknowledged") {
            Some(EventKind::ReleaseAcknowledged)
        } else if text::str_eq(wire, "release-observed") {
            Some(EventKind::ReleaseObserved)
        } else if text::str_eq(wire, "release-probed") {
            Some(EventKind::ReleaseProbed)
        } else if text::str_eq(wire, "push") {
            Some(EventKind::Push)
        } else {
            None
        }
    }
}

/// What tells the wire spellings apart: the length, the first character, and the
/// third from the end.
pub open spec fn spec_signature(s: Seq<char>) -> (int, char, char) {
    (s.len() as int, s[0], s[s.len() - 3])
}

/// Every kind reads back from its own wire spelling: no two kinds share one.
pub proof fn lemma_wire_reads_back(kind: EventKind)
    ensures
        spec_named(spec_wire(kind)) == Some(kind),
{
    reveal_strlit("branch-preserved");
    reveal_strlit("commit-preserved");
    reveal_strlit("fetch");
    reveal_strlit("lock-acquired");
    reveal_strlit("lock-wait");
    reveal_strlit("recovery-attested");
    reveal_strlit("session-closed");
    reveal_strlit("session-opened");
    reveal_strlit("change-check");
    reveal_strlit("change-described");
    reveal_strlit("change-drafted");
    reveal_strlit("change-merged");
    reveal_strlit("change-opened");
    reveal_strlit("draft-lifted");
    reveal_strlit("branch-retired");
    reveal_strlit("branch-superseded");
    reveal_strlit("merge-completed");
    reveal_strlit("merge-queued");
    reveal_strlit("sync-conflict");
    reveal_strlit("release-acknowledged");
    reveal_strlit("release-observed");
    reveal_strlit("release-probed");
    reveal_strlit("push");
    assert(spec_signature("branch-preserved"@) == (16int, 'b', 'v'));
    assert(spec_signature("commit-preserved"@) == (16int, 'c', 'v'));
    assert(spec_signature("fetch"@) == (5int, 'f', 't'));
    assert(spec_signature("lock-acquired"@) == (13int, 'l', 'r'));
    assert(spec_signature("lock-wait"@) == (9int, 'l', 'a'));
    assert(spec_signature("recovery-attested"@) == (17int, 'r', 't'));
    assert(spec_signature("session-closed"@) == (14int, 's', 's'));
    assert(spec_signature("session-opened"@) == (14int, 's', 'n'));
    assert(spec_signature("change-check"@) == (12int, 'c', 'e'));
    assert(spec_signature("change-described"@) == (16int, 'c', 'b'));
    assert(spec_signature("change-drafted"@) == (14int, 'c', 't'));
    assert(spec_signature("change-merged"@) == (13int, 'c', 'g'));
    assert(spec_signature("change-opened"@) == (13int, 'c', 'n'));
    assert(spec_signature("draft-lifted"@) == (12int, 'd', 't'));
    assert(spec_signature("branch-retired"@) == (14int, 'b', 'r'));
    assert(spec_signature("branch-superseded"@) == (17int, 'b', 'd'));
    assert(spec_signature("merge-completed"@) == (15int, 'm', 't'));
    assert(spec_signature("merge-queued"@) == (12int, 'm', 'u'));
    assert(spec_signature("sync-conflict"@) == (13int, 's', 'i'));
    assert(spec_signature("release-acknowledged"@) == (20int, 'r', 'g'));
    assert(spec_signature("release-observed"@) == (16int, 'r', 'v'));
    assert(spec_signature("release-probed"@) == (14int, 'r', 'b'));
    assert(spec_signature("push"@) == (4int, 'p', 'u'));
}

/// The phase of a change's life an event belongs to.
#[derive(Debug, Clone, Copy, PartialEq, Eq, Structural)]
pub enum Phase {
    /// Work being done in a session.
    Development,
    /// A change under review on the host.
    Review,
    /// A change being brought into its base.
    Integrate,
    /// A release being made and observed.
    Release,
}

/// The phase each kind belongs to; a push belongs to none on its own.
pub open spec fn spec_phase(kind: EventKind) -> Option<Phase> {
    match kind {
        EventKind::BranchPreserved => Some(Phase::Development),
        EventKind::CommitPreserved => Some(Phase::Development),
        EventKind::Fetch => Some(Phase::Development),
        EventKind::LockAcquired => Some(Phase::Development),
        EventKind::LockWait => Some(Phase::Development),
        EventKind::RecoveryAttested => Some(Phase::Development),
        EventKind::SessionClosed => Some(Phase::Development),
        EventKind::SessionOpened => Some(Phase::Development),
        EventKind::ChangeCheck => Some(Phase::Review),
        EventKind::ChangeDescribed => Some(Phase::Review),
        EventKind::ChangeDrafted => Some(Phase::Review),
        EventKind::ChangeMerged => Some(Phase::Review),
        EventKind::ChangeOpened => Some(Phase::Review),
        EventKind::DraftLifted => Some(Phase::Review),
        EventKind::BranchRetired => Some(Phase::Integrate),
        EventKind::BranchSuperseded => Some(Phase::Integrate),
        EventKind::MergeCompleted => Some(Phase::Integrate),
        EventKind::MergeQueued => Some(Phase::Integrate),
        EventKind::SyncConflict => Some(Phase::Integrate),
        EventKind::ReleaseAcknowledged => Some(Phase::Release),
        EventKind::ReleaseObserved => Some(Phase::Release),
        EventKind::ReleaseProbed => Some(Phase::Release),
        EventKind::Push => None,
    }
}

/// The phase a kind belongs to, for a reader that fills a missing one in.
pub trait PhaseOf {
    /// The phase `kind` belongs to, where it belongs to one.
    fn of(kind: EventKind) -> Option<Phase>;
}

impl PhaseOf for Phase {
    fn of(kind: EventKind) -> (r: Option<Phase>)
        ensures
            r == spec_phase(kind),
    {
        match kind {
            EventKind::BranchPreserved | EventKind::CommitPreserved | EventKind::Fetch | EventKind::LockAcquired | EventKind::LockWait | EventKind::RecoveryAttested | EventKind::SessionClosed | EventKind::SessionOpened => Some(Phase::Development),
            EventKind::ChangeCheck | EventKind::ChangeDescribed | EventKind::ChangeDrafted | EventKind::ChangeMerged | EventKind::ChangeOpened | EventKind::DraftLifted => Some(Phase::Review),
            EventKind::BranchRetired | EventKind::BranchSuperseded | EventKind::MergeCompleted | EventKind::MergeQueued | EventKind::SyncConflict => Some(Phase::Integrate),
            EventKind::ReleaseAcknowledged | EventKind::ReleaseObserved | EventKind::ReleaseProbed => Some(Phase::Release),
            EventKind::Push => None,
        }
    }
}

/// The phase a kind is recorded under: its own, and development for a push.
pub fn phase_of(kind: EventKind) -> (p: Phase)
    ensures
        p == match spec_phase(kind) {
            Some(phase) => phase,
            None => Phase::Development,
        },
{
    match <Phase as PhaseOf>::of(kind) {
        Some(phase) => phase,
        None => Phase::Development,
    }
}

/// An artifact's identifier, as a stream carries it.
#[derive(Debug, Clone, PartialEq, Eq, PartialOrd, Ord, Hash)]
pub struct ArtifactId(pub String);

/// One event a decision asks to be written to the stream before it answers: its
/// kind, and its payload's fields, each a name and a string value, in order.
#[derive(Debug, Clone)]
pub struct Emitted {
    /// What kind of event it is.
    pub kind: EventKind,
    /// The payload's fields.
    pub fields: Vec<(String, String)>,
}

/// An event's payload, as contracts speak of it.
pub open spec fn fields_view(fields: Seq<(String, String)>) -> Seq<(Seq<char>, Seq<char>)> {
    fields.map_values(|f: (String, String)| (f.0@, f.1@))
}

} // verus!
