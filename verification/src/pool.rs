//! The pool: warm worktree slots an identity keeps between sessions.
//!
//! A slot is a run root that survives a session's close, with its own shared
//! clone and worktree and a record naming the checkout it borrows from (its
//! lender). A slot is idle iff no open session names it and no live maintenance
//! run claims it. Sizing is per identity: a pool of slots cut lazily, and past it
//! an overflow of disposable run roots, after which an open is refused rather
//! than made to wait.
//!
//! What stands here is every decision the pool makes over what a survey read:
//! the state of each slot, whether its record may be trusted, how many sessions
//! the identity admits, which slot a placement tries and in what order, what a
//! prune keeps, and what an exhausted pool is refused as. Reading directories,
//! taking locks and running git stay with the caller, which hands the answers in.

use vstd::prelude::*;
use crate::error::Error;
use crate::guidance;
use crate::text::{self, views};

verus! {

/// The version of the slot record this build writes and reads.
pub const SLOT_VERSION: u32 = 1;

// ---------------------------------------------------------------------------
// Bounds
// ---------------------------------------------------------------------------

/// A limit that may be absent: how many overflow sessions an identity allows, or
/// how many more it admits.
#[derive(Debug, Clone, Copy, PartialEq, Eq, Structural)]
pub enum Bound {
    /// No limit.
    Unlimited,
    /// At most this many.
    Bounded(u32),
}

/// Whether one more may be admitted with `in_use` already counted.
pub open spec fn spec_admits(bound: Bound, in_use: int) -> bool {
    match bound {
        Bound::Unlimited => true,
        Bound::Bounded(limit) => in_use < limit,
    }
}

/// How many more a bound admits with `in_use` already counted.
pub open spec fn spec_headroom(bound: Bound, in_use: int) -> Bound {
    match bound {
        Bound::Unlimited => Bound::Unlimited,
        Bound::Bounded(limit) => Bound::Bounded(spec_sat_sub(limit as int, in_use) as u32),
    }
}

/// `a - b`, or zero where that would go below it.
pub open spec fn spec_sat_sub(a: int, b: int) -> int {
    if a > b {
        a - b
    } else {
        0
    }
}

/// `a + b`, or `u32::MAX` where that would go past it.
pub open spec fn spec_sat_add(a: int, b: int) -> int {
    if a + b > u32::MAX {
        u32::MAX as int
    } else {
        a + b
    }
}

/// A count, or `u32::MAX` where it does not fit.
pub open spec fn spec_sat32(n: int) -> int {
    if n > u32::MAX {
        u32::MAX as int
    } else {
        n
    }
}

fn sat_sub(a: u32, b: u32) -> (out: u32)
    ensures
        out == spec_sat_sub(a as int, b as int),
{
    if a > b {
        a - b
    } else {
        0
    }
}

fn sat_add(a: u32, b: u32) -> (out: u32)
    ensures
        out == spec_sat_add(a as int, b as int),
{
    if a > u32::MAX - b {
        u32::MAX
    } else {
        a + b
    }
}

fn sat32(n: usize) -> (out: u32)
    ensures
        out == spec_sat32(n as int),
{
    if n > 4294967295usize {
        u32::MAX
    } else {
        n as u32
    }
}

impl Bound {
    /// Whether one more may be admitted with `in_use` already counted.
    pub fn admits(self, in_use: u32) -> (b: bool)
        ensures
            b == spec_admits(self, in_use as int),
    {
        match self {
            Bound::Unlimited => true,
            Bound::Bounded(limit) => in_use < limit,
        }
    }

    /// How many more this admits with `in_use` already counted.
    pub fn headroom(self, in_use: u32) -> (out: Bound)
        ensures
            out == spec_headroom(self, in_use as int),
    {
        match self {
            Bound::Unlimited => Bound::Unlimited,
            Bound::Bounded(limit) => Bound::Bounded(sat_sub(limit, in_use)),
        }
    }

    /// How a bound is written: `unlimited`, or its number.
    pub fn describe(self) -> (out: String)
        ensures
            out@ == spec_describe_bound(self),
    {
        match self {
            Bound::Unlimited => text::owned("unlimited"),
            Bound::Bounded(limit) => text::decimal(limit as u64),
        }
    }
}

/// How a bound is written.
pub open spec fn spec_describe_bound(bound: Bound) -> Seq<char> {
    match bound {
        Bound::Unlimited => "unlimited"@,
        Bound::Bounded(limit) => text::spec_decimal(limit as nat),
    }
}

// ---------------------------------------------------------------------------
// Slots and what a survey read about them
// ---------------------------------------------------------------------------

/// How a maintenance run ended.
#[derive(Debug, Clone, Copy, PartialEq, Eq, Structural)]
pub enum MaintenanceOutcome {
    /// The command exited zero inside its bound.
    Succeeded,
    /// The command exited non-zero, or was ended by a signal, inside its bound.
    Failed {
        /// The exit status, or `None` where a signal ended it.
        exit: Option<i32>,
    },
    /// The bound elapsed first and the command was stopped.
    TimedOut,
}

/// Where one slot is in its life, as `pool status` reports it.
#[derive(Debug, Clone, PartialEq, Eq)]
pub enum SlotState {
    /// No open session names it and no live maintenance claims it: the next session
    /// may take it.
    Idle,
    /// An open session record names it as its run root.
    InUse {
        /// The session working in it.
        session: String,
    },
    /// A maintenance run whose process is still running claims it.
    Maintaining {
        /// The process running the maintenance command.
        pid: u32,
        /// When it claimed the slot, RFC3339.
        since: String,
    },
    /// Its clone or worktree is missing or not a repository, or its record is
    /// unreadable. The next session that would take it recreates it in place.
    Broken {
        /// What is wrong with it.
        reason: String,
    },
}

/// One slot, as `pool status` reports it.
#[derive(Debug, Clone, PartialEq, Eq)]
pub struct SlotStatus {
    /// The slot's number.
    pub number: u32,
    /// The slot directory: the run root of every session placed on it.
    pub path: String,
    /// The execution checkout the slot is bound to. Empty where its record could not
    /// be read.
    pub execution_checkout: String,
    /// Where it is in its life.
    pub state: SlotState,
    /// When maintenance last finished, RFC3339.
    pub last_maintained: Option<String>,
    /// How the last maintenance ended.
    pub last_outcome: Option<MaintenanceOutcome>,
}

/// A kind of slot state a count is taken of.
#[derive(Debug, Clone, Copy, PartialEq, Eq, Structural)]
pub enum Kind {
    /// Idle slots.
    Idle,
    /// Slots an open session names.
    InUse,
    /// Slots a live maintenance run claims.
    Maintaining,
    /// Broken slots.
    Broken,
    /// Slots a session may take: idle ones, and broken ones it recreates in place.
    Takeable,
}

/// Whether a state is of a kind.
pub open spec fn spec_is(kind: Kind, state: SlotState) -> bool {
    match kind {
        Kind::Idle => state is Idle,
        Kind::InUse => state is InUse,
        Kind::Maintaining => state is Maintaining,
        Kind::Broken => state is Broken,
        Kind::Takeable => state is Idle || state is Broken,
    }
}

/// Whether a state is of a kind.
pub fn is(kind: Kind, state: &SlotState) -> (b: bool)
    ensures
        b == spec_is(kind, *state),
{
    match kind {
        Kind::Idle => matches!(state, SlotState::Idle),
        Kind::InUse => matches!(state, SlotState::InUse { .. }),
        Kind::Maintaining => matches!(state, SlotState::Maintaining { .. }),
        Kind::Broken => matches!(state, SlotState::Broken { .. }),
        Kind::Takeable => matches!(state, SlotState::Idle | SlotState::Broken { .. }),
    }
}

/// One slot as a survey found it.
#[derive(Debug, Clone)]
pub struct Surveyed {
    /// Its number, which is its directory's name.
    pub number: u32,
    /// Its directory.
    pub dir: String,
    /// The checkout its record says it borrows from, where the record read.
    pub lender: Option<String>,
    /// When maintenance last finished, where the record read and says.
    pub last_maintained: Option<String>,
    /// How the last maintenance ended, where the record read and says.
    pub last_outcome: Option<MaintenanceOutcome>,
    /// Its state.
    pub state: SlotState,
}

impl Surveyed {
    /// Whether a session may take it: idle, or broken and recreated in place.
    pub fn takeable(&self) -> (b: bool)
        ensures
            b == spec_is(Kind::Takeable, self.state),
    {
        is(Kind::Takeable, &self.state)
    }

    /// The slot as `pool status` reports it.
    pub fn status(&self) -> (out: SlotStatus)
        ensures
            out.number == self.number,
            out.path@ == self.dir@,
            out.execution_checkout@ == match self.lender {
                Some(l) => l@,
                None => seq![],
            },
            out.state == self.state,
            text::opt_view(out.last_maintained) == text::opt_view(self.last_maintained),
            out.last_outcome == self.last_outcome,
    {
        SlotStatus {
            number: self.number,
            path: self.dir.clone(),
            execution_checkout: match &self.lender {
                Some(l) => l.clone(),
                None => String::new(),
            },
            state: copy_state(&self.state),
            last_maintained: match &self.last_maintained {
                Some(m) => Some(m.clone()),
                None => None,
            },
            last_outcome: self.last_outcome,
        }
    }
}

/// A copy of a slot state.
pub fn copy_state(state: &SlotState) -> (out: SlotState)
    ensures
        out == *state,
{
    match state {
        SlotState::Idle => SlotState::Idle,
        SlotState::InUse { session } => SlotState::InUse { session: session.clone() },
        SlotState::Maintaining { pid, since } => SlotState::Maintaining {
            pid: *pid,
            since: since.clone(),
        },
        SlotState::Broken { reason } => SlotState::Broken { reason: reason.clone() },
    }
}

/// One open session of the identity, as the pool reads its record.
#[derive(Debug, Clone)]
pub struct OpenSession {
    /// Its token.
    pub token: String,
    /// The branch it works on.
    pub branch: String,
    /// Its worktree.
    pub worktree: String,
    /// The run root it was placed in: a slot directory, or one under `runs/`.
    pub run_root: String,
    /// The execution checkout it cloned from.
    pub execution_checkout: String,
    /// The slot it was placed on, or none for a run root under `runs/`.
    pub slot: Option<u32>,
    /// The process that opened it.
    pub owner_pid: u32,
    /// Whether that process is still running, as the record's liveness words it.
    pub liveness: String,
    /// Whether its run root and its clone are both still directories.
    pub placed: bool,
}

/// How many of `slots` are of `kind`.
pub open spec fn spec_count(slots: Seq<Surveyed>, kind: Kind) -> nat
    decreases slots.len(),
{
    if slots.len() == 0 {
        0
    } else {
        spec_count(slots.drop_last(), kind) + if spec_is(kind, slots.last().state) {
            1nat
        } else {
            0nat
        }
    }
}

/// How many of `slots` are of `kind`, or `u32::MAX` where that many do not fit.
pub fn count(slots: &[Surveyed], kind: Kind) -> (n: u32)
    ensures
        n == spec_sat32(spec_count(slots@, kind) as int),
{
    let mut c: usize = 0;
    let mut i: usize = 0;
    while i < slots.len()
        invariant
            i <= slots@.len(),
            c == spec_count(slots@.take(i as int), kind),
            c <= i,
        decreases slots.len() - i,
    {
        proof {
            assert(slots@.take(i + 1).drop_last() =~= slots@.take(i as int));
        }
        if is(kind, &slots[i].state) {
            c = c + 1;
        }
        i = i + 1;
    }
    proof {
        assert(slots@.take(slots@.len() as int) =~= slots@);
    }
    sat32(c)
}

/// How many open sessions were placed under `runs/` rather than on a slot: what
/// the overflow bound counts.
pub open spec fn spec_overflow_count(open: Seq<OpenSession>) -> nat
    decreases open.len(),
{
    if open.len() == 0 {
        0
    } else {
        spec_overflow_count(open.drop_last()) + if open.last().slot is None {
            1nat
        } else {
            0nat
        }
    }
}

/// The open sessions placed under `runs/`, in order.
pub open spec fn spec_overflow(open: Seq<OpenSession>) -> Seq<OpenSession> {
    open.filter(|s: OpenSession| s.slot is None)
}

/// How many open sessions were placed under `runs/`, or `u32::MAX`.
pub fn overflow_in_use(open: &[OpenSession]) -> (n: u32)
    ensures
        n == spec_sat32(spec_overflow_count(open@) as int),
{
    let mut c: usize = 0;
    let mut i: usize = 0;
    while i < open.len()
        invariant
            i <= open@.len(),
            c == spec_overflow_count(open@.take(i as int)),
            c <= i,
        decreases open.len() - i,
    {
        proof {
            assert(open@.take(i + 1).drop_last() =~= open@.take(i as int));
        }
        if open[i].slot.is_none() {
            c = c + 1;
        }
        i = i + 1;
    }
    proof {
        assert(open@.take(open@.len() as int) =~= open@);
    }
    sat32(c)
}

// ---------------------------------------------------------------------------
// Capacity
// ---------------------------------------------------------------------------

/// The limits one request resolves to, with where each came from.
#[derive(Debug, Clone)]
pub struct Resolved {
    /// The pool size this request resolves to.
    pub pool: u32,
    /// What decided it.
    pub pool_from: String,
    /// The overflow bound this request resolves to.
    pub overflow: Bound,
    /// What decided it.
    pub overflow_from: String,
    /// The pool size the file gives, which is what shedding is held to: a
    /// per-process override places one session and never takes slots down.
    pub file_pool: u32,
}

/// How many sessions one identity can admit right now, and whether one request would
/// be placed. Advisory: it reads what an open reads, and the open decides.
#[derive(Debug, Clone, PartialEq, Eq)]
pub struct WorkspaceCapacity {
    /// The identity key.
    pub identity: String,
    /// The pool size the request resolves to.
    pub pool: u32,
    /// How many slots exist, whatever their state.
    pub slots: u32,
    /// How many of them are idle. A broken slot is neither this nor in use, and a
    /// session still takes it, recreating it in place.
    pub idle: u32,
    /// How many an open session names.
    pub in_use: u32,
    /// How many a live maintenance run claims.
    pub maintaining: u32,
    /// The overflow bound the request resolves to.
    pub overflow: Bound,
    /// How many sessions of the identity are open under `runs/`.
    pub overflow_in_use: u32,
    /// How many more opens the identity admits now, across its slots and its
    /// overflow.
    pub admits: Bound,
    /// Whether *this* request would be placed now.
    pub admitted: bool,
}

/// What the pool status of one repository reports: the capacity, and every slot.
#[derive(Debug, Clone, PartialEq, Eq)]
pub struct PoolStatus {
    /// The identity's capacity, resolved with no per-open override.
    pub capacity: WorkspaceCapacity,
    /// Every slot, by number.
    pub slots: Vec<SlotStatus>,
}

/// What a prune did: which idle slots it removed, and which it kept and why.
#[derive(Debug, Clone, PartialEq, Eq)]
pub struct PruneReport {
    /// The slots removed, by number.
    pub removed: Vec<u32>,
    /// The slots kept, each with the reason.
    pub kept: Vec<(u32, String)>,
}

/// How many takeable slots the next open sheds before it places anything: those
/// above the file's pool, as far as there are takeable ones.
pub open spec fn spec_shed(slots: int, takeable: int, file_pool: int) -> int {
    let over = spec_sat_sub(slots, file_pool);
    if over < takeable {
        over
    } else {
        takeable
    }
}

/// How many more opens an identity admits: the overflow's headroom alone for a
/// request that takes no slot, and otherwise the takeable slots that survive the
/// shed, the slots that may still be cut, and the overflow's headroom together.
pub open spec fn spec_capacity_admits(
    pool: int,
    slots: int,
    takeable: int,
    file_pool: int,
    overflow: Bound,
    overflow_in_use: int,
) -> Bound {
    let shed = spec_shed(slots, takeable, file_pool);
    let takeable_after = takeable - shed;
    let can_create = spec_sat_sub(pool, slots - shed);
    if pool == 0 {
        spec_headroom(overflow, overflow_in_use)
    } else {
        match spec_headroom(overflow, overflow_in_use) {
            Bound::Unlimited => Bound::Unlimited,
            Bound::Bounded(room) => Bound::Bounded(
                spec_sat_add(spec_sat_add(takeable_after, can_create), room as int) as u32,
            ),
        }
    }
}

/// Whether an open of the pinned branch resumes in place: an open session of the
/// identity already holds that branch, so the open places nothing.
pub open spec fn spec_resumes(open: Seq<OpenSession>, pinned: Option<Seq<char>>) -> bool {
    match pinned {
        None => false,
        Some(p) => exists|i: int| 0 <= i < open.len() && #[trigger] open[i].branch@ == p,
    }
}

/// Whether a slot a session may take is bound to this lender, or to no readable
/// one.
pub open spec fn spec_mine(slot: Surveyed, execution: Seq<char>) -> bool {
    spec_is(Kind::Takeable, slot.state) && match slot.lender {
        None => true,
        Some(l) => l@ == execution,
    }
}

/// Whether the request would be placed now: it resumes in place; or it takes slots
/// and one of its lender's is takeable or one may be cut; or the overflow admits it.
pub open spec fn spec_admitted(
    resolved: Resolved,
    slots: Seq<Surveyed>,
    open: Seq<OpenSession>,
    pinned: Option<Seq<char>>,
    execution: Seq<char>,
) -> bool {
    let n = spec_sat32(slots.len() as int);
    let takeable = spec_sat32(spec_count(slots, Kind::Takeable) as int);
    let shed = spec_shed(n, takeable, resolved.file_pool as int);
    let can_create = spec_sat_sub(resolved.pool as int, n - shed);
    spec_resumes(open, pinned) || (resolved.pool > 0 && ((exists|i: int|
        0 <= i < slots.len() && #[trigger] spec_mine(slots[i], execution)) || can_create > 0))
        || spec_admits(resolved.overflow, spec_sat32(spec_overflow_count(open) as int))
}

fn resumes(open: &[OpenSession], pinned: Option<&str>) -> (b: bool)
    ensures
        b == spec_resumes(open@, text::opt_str_view(pinned)),
{
    match pinned {
        None => false,
        Some(p) => {
            let mut i: usize = 0;
            while i < open.len()
                invariant
                    i <= open@.len(),
                    text::opt_str_view(pinned) == Some(p@),
                    forall|j: int| 0 <= j < i ==> !(#[trigger] open@[j].branch@ == p@),
                decreases open.len() - i,
            {
                if text::str_eq(&open[i].branch, p) {
                    proof {
                        assert(open@[i as int].branch@ == p@);
                    }
                    return true;
                }
                i = i + 1;
            }
            false
        },
    }
}

fn mine(slot: &Surveyed, execution: &str) -> (b: bool)
    ensures
        b == spec_mine(*slot, execution@),
{
    slot.takeable() && match &slot.lender {
        None => true,
        Some(l) => text::str_eq(l, execution),
    }
}

fn any_mine(slots: &[Surveyed], execution: &str) -> (b: bool)
    ensures
        b == exists|i: int| 0 <= i < slots@.len() && #[trigger] spec_mine(slots@[i], execution@),
{
    let mut i: usize = 0;
    while i < slots.len()
        invariant
            i <= slots@.len(),
            forall|j: int| 0 <= j < i ==> !#[trigger] spec_mine(slots@[j], execution@),
        decreases slots.len() - i,
    {
        if mine(&slots[i], execution) {
            return true;
        }
        i = i + 1;
    }
    false
}

/// The capacity one request meets, read the way an open reads it: the identity's
/// slots counted by state, the overflow counted by open sessions under `runs/`,
/// how many more opens it admits once the open's own shed is done, and whether
/// this request — pinned to `pinned`, cloning from `execution` — would be placed.
pub fn workspace_capacity(
    identity: &str,
    execution: &str,
    resolved: &Resolved,
    slots: &[Surveyed],
    open: &[OpenSession],
    pinned: Option<&str>,
) -> (c: WorkspaceCapacity)
    ensures
        c.identity@ == identity@,
        c.pool == resolved.pool,
        c.slots == spec_sat32(slots@.len() as int),
        c.idle == spec_sat32(spec_count(slots@, Kind::Idle) as int),
        c.in_use == spec_sat32(spec_count(slots@, Kind::InUse) as int),
        c.maintaining == spec_sat32(spec_count(slots@, Kind::Maintaining) as int),
        c.overflow == resolved.overflow,
        c.overflow_in_use == spec_sat32(spec_overflow_count(open@) as int),
        c.admits == spec_capacity_admits(
            resolved.pool as int,
            c.slots as int,
            spec_sat32(spec_count(slots@, Kind::Takeable) as int),
            resolved.file_pool as int,
            resolved.overflow,
            c.overflow_in_use as int,
        ),
        c.admitted == spec_admitted(*resolved, slots@, open@, text::opt_str_view(pinned), execution@),
{
    let n = sat32(slots.len());
    let idle = count(slots, Kind::Idle);
    let takeable = count(slots, Kind::Takeable);
    let in_use = count(slots, Kind::InUse);
    let maintaining = count(slots, Kind::Maintaining);
    let overflow_in_use = overflow_in_use(open);
    proof {
        lemma_count_bounded(slots@, Kind::Takeable);
    }
    let over = sat_sub(n, resolved.file_pool);
    let shed = if over < takeable {
        over
    } else {
        takeable
    };
    let takeable_after = takeable - shed;
    let slots_after = n - shed;
    let can_create = sat_sub(resolved.pool, slots_after);
    let room = resolved.overflow.headroom(overflow_in_use);
    let admits = if resolved.pool == 0 {
        room
    } else {
        match room {
            Bound::Unlimited => Bound::Unlimited,
            Bound::Bounded(r) => Bound::Bounded(sat_add(sat_add(takeable_after, can_create), r)),
        }
    };
    let admitted = resumes(open, pinned) || (resolved.pool > 0 && (any_mine(
        slots,
        execution,
    ) || can_create > 0)) || resolved.overflow.admits(overflow_in_use);
    WorkspaceCapacity {
        identity: text::owned(identity),
        pool: resolved.pool,
        slots: n,
        idle,
        in_use,
        maintaining,
        overflow: resolved.overflow,
        overflow_in_use,
        admits,
        admitted,
    }
}

/// No kind counts more slots than there are.
pub proof fn lemma_count_bounded(slots: Seq<Surveyed>, kind: Kind)
    ensures
        spec_count(slots, kind) <= slots.len(),
    decreases slots.len(),
{
    if slots.len() > 0 {
        lemma_count_bounded(slots.drop_last(), kind);
    }
}

/// Every slot is exactly one of idle, in use, maintaining or broken, so the slots a
/// status reports exceed its idle, in-use and maintaining counts by the broken ones.
pub proof fn lemma_states_partition(slots: Seq<Surveyed>)
    ensures
        slots.len() == spec_count(slots, Kind::Idle) + spec_count(slots, Kind::InUse) + spec_count(
            slots,
            Kind::Maintaining,
        ) + spec_count(slots, Kind::Broken),
        spec_count(slots, Kind::Takeable) == spec_count(slots, Kind::Idle) + spec_count(
            slots,
            Kind::Broken,
        ),
    decreases slots.len(),
{
    if slots.len() > 0 {
        lemma_states_partition(slots.drop_last());
    }
}

// ---------------------------------------------------------------------------
// One slot's state
// ---------------------------------------------------------------------------

/// The claim a maintenance run writes onto the slot it is working in.
#[derive(Debug, Clone)]
pub struct Claim {
    /// The process running the maintenance command.
    pub pid: u32,
    /// When the claim was written, RFC3339.
    pub since: String,
}

/// What one slot records about itself.
#[derive(Debug, Clone)]
pub struct SlotRecord {
    /// The schema version this record was written at.
    pub version: u32,
    /// The slot's number, which is its directory's name.
    pub number: u32,
    /// The identity key the slot belongs to.
    pub identity: String,
    /// The execution checkout the slot's clone borrows from: its lender.
    pub execution_checkout: String,
    /// The claim a maintenance run holds while it runs in the slot, if any.
    pub maintaining: Option<Claim>,
    /// When maintenance last finished, RFC3339, where any has run.
    pub last_maintained: Option<String>,
    /// How the last maintenance ended, where any has run.
    pub last_outcome: Option<MaintenanceOutcome>,
}

/// Everything read about one slot directory before its state is decided.
#[derive(Debug)]
pub struct SlotFacts {
    /// Its number, which is its directory's name.
    pub number: u32,
    /// Its directory.
    pub dir: String,
    /// Where its record is written.
    pub record_path: String,
    /// Its record as read and parsed, or why it could not be.
    pub record: Result<SlotRecord, String>,
    /// Whether the lender the record names is an absolute path.
    pub lender_absolute: bool,
    /// Its clone directory, and whether git calls it a repository.
    pub clone: String,
    /// Whether git calls the clone a repository.
    pub clone_is_repo: bool,
    /// Its worktree directory.
    pub worktree: String,
    /// Whether git calls the worktree a repository.
    pub worktree_is_repo: bool,
    /// Whether the process a maintenance claim names is that same process, still
    /// running. Read only where the record holds a claim.
    pub claim_live: bool,
}

/// A slot state as contracts speak of it.
pub enum StateView {
    /// Idle.
    Idle,
    /// In use by this session.
    InUse(Seq<char>),
    /// Claimed by this maintenance process since this time.
    Maintaining(u32, Seq<char>),
    /// Broken for this reason.
    Broken(Seq<char>),
}

/// A slot state as contracts speak of it.
pub open spec fn state_view(state: SlotState) -> StateView {
    match state {
        SlotState::Idle => StateView::Idle,
        SlotState::InUse { session } => StateView::InUse(session@),
        SlotState::Maintaining { pid, since } => StateView::Maintaining(pid, since@),
        SlotState::Broken { reason } => StateView::Broken(reason@),
    }
}

/// Why a record that parsed cannot be acted on, or none where it can: it declares
/// another version, is numbered for another slot, belongs to another identity, or
/// lends from a path that is not absolute — checked in that order.
pub open spec fn spec_record_problem(
    path: Seq<char>,
    record: SlotRecord,
    number: u32,
    identity: Seq<char>,
    lender_absolute: bool,
) -> Option<Seq<char>> {
    let at = "its record at "@ + path;
    if record.version != SLOT_VERSION {
        Some(at + " declares version "@ + text::spec_decimal(record.version as nat)
            + "; this build reads version 1"@)
    } else if record.number != number {
        Some(at + " is for slot "@ + text::spec_decimal(record.number as nat) + ", not for slot "@
            + text::spec_decimal(number as nat))
    } else if record.identity@ != identity {
        Some(at + " belongs to "@ + text::spec_debug_quoted(record.identity@) + ", not to "@
            + text::spec_debug_quoted(identity))
    } else if !lender_absolute {
        Some(at + " names an execution checkout at "@ + record.execution_checkout@
            + ", which is not an absolute path"@)
    } else {
        None
    }
}

/// The record a slot's state may be read from, or why it is broken.
pub fn check_record(
    path: &str,
    record: SlotRecord,
    number: u32,
    identity: &str,
    lender_absolute: bool,
) -> (r: Result<SlotRecord, String>)
    ensures
        match spec_record_problem(path@, record, number, identity@, lender_absolute) {
            Some(why) => r is Err && r->Err_0@ == why,
            None => r is Ok && r->Ok_0 == record,
        },
{
    let at = text::concat("its record at ", path);
    if record.version != SLOT_VERSION {
        let v = text::decimal(record.version as u64);
        let mut why = at;
        why.append(" declares version ");
        why.append(&v);
        why.append("; this build reads version 1");
        return Err(why);
    }
    if record.number != number {
        let theirs = text::decimal(record.number as u64);
        let ours = text::decimal(number as u64);
        let mut why = at;
        why.append(" is for slot ");
        why.append(&theirs);
        why.append(", not for slot ");
        why.append(&ours);
        return Err(why);
    }
    if !text::str_eq(&record.identity, identity) {
        let theirs = text::debug_quoted(&record.identity);
        let ours = text::debug_quoted(identity);
        let mut why = at;
        why.append(" belongs to ");
        why.append(&theirs);
        why.append(", not to ");
        why.append(&ours);
        return Err(why);
    }
    if !lender_absolute {
        let mut why = at;
        why.append(" names an execution checkout at ");
        why.append(&record.execution_checkout);
        why.append(", which is not an absolute path");
        return Err(why);
    }
    Ok(record)
}

/// The first open session whose run root is `dir`.
pub open spec fn spec_holder(open: Seq<OpenSession>, dir: Seq<char>) -> Option<OpenSession>
    decreases open.len(),
{
    if open.len() == 0 {
        None
    } else if open[0].run_root@ == dir {
        Some(open[0])
    } else {
        spec_holder(open.skip(1), dir)
    }
}

/// The first open session with token `token`.
pub open spec fn spec_with_token(open: Seq<OpenSession>, token: Seq<char>) -> Option<OpenSession>
    decreases open.len(),
{
    if open.len() == 0 {
        None
    } else if open[0].token@ == token {
        Some(open[0])
    } else {
        spec_with_token(open.skip(1), token)
    }
}

fn holder(open: &[OpenSession], dir: &str) -> (r: Option<usize>)
    ensures
        match r {
            Some(i) => i < open@.len() && spec_holder(open@, dir@) == Some(open@[i as int]),
            None => spec_holder(open@, dir@) is None,
        },
{
    let mut i: usize = 0;
    proof {
        assert(open@.skip(0) =~= open@);
    }
    while i < open.len()
        invariant
            i <= open@.len(),
            spec_holder(open@, dir@) == spec_holder(open@.skip(i as int), dir@),
        decreases open.len() - i,
    {
        proof {
            assert(open@.skip(i as int).skip(1) =~= open@.skip(i + 1));
            assert(open@.skip(i as int)[0] == open@[i as int]);
        }
        if text::str_eq(&open[i].run_root, dir) {
            return Some(i);
        }
        i = i + 1;
    }
    None
}

fn with_token(open: &[OpenSession], token: &str) -> (r: Option<usize>)
    ensures
        match r {
            Some(i) => i < open@.len() && spec_with_token(open@, token@) == Some(open@[i as int]),
            None => spec_with_token(open@, token@) is None,
        },
{
    let mut i: usize = 0;
    proof {
        assert(open@.skip(0) =~= open@);
    }
    while i < open.len()
        invariant
            i <= open@.len(),
            spec_with_token(open@, token@) == spec_with_token(open@.skip(i as int), token@),
        decreases open.len() - i,
    {
        proof {
            assert(open@.skip(i as int).skip(1) =~= open@.skip(i + 1));
            assert(open@.skip(i as int)[0] == open@[i as int]);
        }
        if text::str_eq(&open[i].token, token) {
            return Some(i);
        }
        i = i + 1;
    }
    None
}

/// The state of one slot, decided in an order where each answer rests on what the
/// one before it established: a record that cannot be read or trusted, a clone or
/// worktree git does not call a repository, an open session working in it, a live
/// maintenance claim, and otherwise idle — with a claim whose process is gone
/// counted void.
pub open spec fn spec_state_of(facts: SlotFacts, identity: Seq<char>, open: Seq<OpenSession>) -> StateView {
    match facts.record {
        Err(why) => StateView::Broken(why@),
        Ok(record) => match spec_record_problem(
            facts.record_path@,
            record,
            facts.number,
            identity,
            facts.lender_absolute,
        ) {
            Some(why) => StateView::Broken(why),
            None => if !facts.clone_is_repo {
                StateView::Broken(
                    "its clone at "@ + facts.clone@ + " is missing or not a repository"@,
                )
            } else if !facts.worktree_is_repo {
                StateView::Broken(
                    "its worktree at "@ + facts.worktree@ + " is missing or not a repository"@,
                )
            } else {
                match spec_holder(open, facts.dir@) {
                    Some(held) => StateView::InUse(held.token@),
                    None => match record.maintaining {
                        Some(claim) => if facts.claim_live {
                            StateView::Maintaining(claim.pid, claim.since@)
                        } else {
                            StateView::Idle
                        },
                        None => StateView::Idle,
                    },
                }
            },
        },
    }
}

/// The value of a run of decimal digits.
pub open spec fn spec_digits_value(digits: Seq<char>) -> nat
    decreases digits.len(),
{
    if digits.len() == 0 {
        0
    } else {
        10 * spec_digits_value(digits.drop_last()) + ((digits.last() as int - '0' as int) as nat)
    }
}

/// Whether every character is an ASCII digit.
pub open spec fn spec_all_digits(s: Seq<char>) -> bool {
    forall|i: int| 0 <= i < s.len() ==> text::spec_is_ascii_digit(#[trigger] s[i])
}

/// A pool entry's name without the one `+` a number may open with.
pub open spec fn spec_slot_digits(name: Seq<char>) -> Seq<char> {
    if name.len() > 0 && name[0] == '+' {
        name.drop_first()
    } else {
        name
    }
}

/// The positive number a name reads as under `str::parse::<u32>` (an optional `+`,
/// then one or more ASCII digits, no more than `u32::MAX`); nothing for any other
/// name, and nothing for `0`.
pub open spec fn spec_parsed_number(name: Seq<char>) -> Option<u32> {
    let digits = spec_slot_digits(name);
    if digits.len() > 0 && spec_all_digits(digits) && spec_digits_value(digits) <= u32::MAX && spec_digits_value(digits) > 0 {
        Some(spec_digits_value(digits) as u32)
    } else {
        None
    }
}

proof fn lemma_digits_value_grows(digits: Seq<char>, j: int, k: int)
    requires
        0 <= j <= k <= digits.len(),
        forall|i: int| 0 <= i < digits.len() ==> text::spec_is_ascii_digit(#[trigger] digits[i]),
    ensures
        spec_digits_value(digits.take(j)) <= spec_digits_value(digits.take(k)),
    decreases k - j,
{
    if j < k {
        lemma_digits_value_grows(digits, j, k - 1);
        assert(digits.take(k).drop_last() =~= digits.take(k - 1));
        assert(digits.take(k).last() == digits[k - 1]);
    }
}

fn parsed_number(name: &str) -> (r: Option<u32>)
    ensures
        r == spec_parsed_number(name@),
{
    let chars = text::chars_of(name);
    let start: usize = if chars.len() > 0 && chars[0] == '+' { 1 } else { 0 };
    let ghost digits = spec_slot_digits(name@);
    proof {
        assert(digits =~= chars@.skip(start as int));
    }
    if start >= chars.len() {
        return None;
    }
    let mut value: u64 = 0;
    let mut i: usize = start;
    while i < chars.len()
        invariant
            chars@ == name@,
            digits == spec_slot_digits(name@),
            digits == chars@.skip(start as int),
            start <= i <= chars@.len(),
            forall|j: int| 0 <= j < i - start ==> text::spec_is_ascii_digit(#[trigger] digits[j]),
            value == spec_digits_value(digits.take(i - start)),
            value <= u32::MAX,
        decreases chars.len() - i,
    {
        let c = chars[i];
        if !text::is_ascii_digit(c) {
            proof {
                let at = i - start;
                assert(digits[at] == c);
                assert(!text::spec_is_ascii_digit(digits[at]));
                assert(!spec_all_digits(digits));
                assert(spec_parsed_number(name@) is None);
            }
            return None;
        }
        let d = (c as u32 - '0' as u32) as u64;
        let ghost before = digits.take(i - start);
        proof {
            assert(digits.take(i - start + 1).drop_last() =~= before);
            assert(digits.take(i - start + 1).last() == c);
            assert(d == c as int - '0' as int);
            assert(spec_digits_value(digits.take(i - start + 1)) == 10 * value + d);
        }
        let next = value * 10 + d;
        if next > 4294967295u64 {
            proof {
                assert forall|j: int| 0 <= j < i - start + 1 implies text::spec_is_ascii_digit(
                    #[trigger] digits[j],
                ) by {
                    if j == i - start {
                        assert(digits[j] == c);
                    }
                }
                if spec_all_digits(digits) {
                    lemma_digits_value_grows(digits, i - start + 1, digits.len() as int);
                    assert(digits.take(digits.len() as int) =~= digits);
                    assert(spec_digits_value(digits) > u32::MAX);
                }
                assert(spec_parsed_number(name@) is None);
            }
            return None;
        }
        value = next;
        i = i + 1;
        proof {
            assert forall|j: int| 0 <= j < i - start implies text::spec_is_ascii_digit(
                #[trigger] digits[j],
            ) by {
                if j == i - start - 1 {
                    assert(digits[j] == c);
                }
            }
        }
    }
    proof {
        assert(digits.take(digits.len() as int) =~= digits);
    }
    if value == 0 {
        return None;
    }
    Some(value as u32)
}

/// The slot a pool entry's name numbers: a positive `u32` spelled the way a slot's
/// directory is named, in plain decimal. Anything else — a stray file, `0`, `01`,
/// `+1` — is not a slot, and is neither counted nor removed.
pub open spec fn spec_slot_number(name: Seq<char>) -> Option<u32> {
    match spec_parsed_number(name) {
        Some(n) => if text::spec_decimal(n as nat) == name {
            Some(n)
        } else {
            None
        },
        None => None,
    }
}

/// The slot a pool entry's name numbers, if it names one.
pub fn slot_number(name: &str) -> (r: Option<u32>)
    ensures
        r == spec_slot_number(name@),
        r matches Some(n) ==> n > 0,
{
    match parsed_number(name) {
        Some(n) => {
            let spelled = text::decimal(n as u64);
            if text::str_eq(&spelled, name) {
                Some(n)
            } else {
                None
            }
        },
        None => None,
    }
}

/// Two entries of one pool directory never number the same slot: a slot's name is
/// its number spelled one way, so one number has one name.
pub proof fn lemma_one_name_per_slot(a: Seq<char>, b: Seq<char>)
    requires
        spec_slot_number(a) is Some,
        spec_slot_number(a) == spec_slot_number(b),
    ensures
        a == b,
{
}

/// Whether slots stand in strictly increasing number order, every number positive.
pub open spec fn spec_in_number_order(slots: Seq<Surveyed>) -> bool {
    &&& forall|i: int| 0 <= i < slots.len() ==> (#[trigger] slots[i]).number > 0
    &&& forall|i: int, j: int| 0 <= i < j < slots.len() ==> (#[trigger] slots[i]).number < (
    #[trigger] slots[j]).number
}

/// Whether no two slots share a number, every number positive: what a survey of one
/// pool directory holds, each entry read through [`slot_number`].
pub open spec fn spec_distinctly_numbered(slots: Seq<Surveyed>) -> bool {
    &&& forall|i: int| 0 <= i < slots.len() ==> (#[trigger] slots[i]).number > 0
    &&& forall|i: int, j: int| 0 <= i < slots.len() && 0 <= j < slots.len() && i != j ==> (
    #[trigger] slots[i]).number != (#[trigger] slots[j]).number
}

/// The surveyed slots in number order, each one kept: a pool is listed, counted and
/// pruned lowest number first, whatever order its directory was read in.
pub fn in_number_order(slots: Vec<Surveyed>) -> (out: Vec<Surveyed>)
    requires
        spec_distinctly_numbered(slots@),
    ensures
        spec_in_number_order(out@),
        out@.to_multiset() == slots@.to_multiset(),
{
    let ghost all = slots@;
    let total = slots.len();
    let mut rest = slots;
    let mut out: Vec<Surveyed> = Vec::new();
    let mut k: usize = 0;
    proof {
        assert(all.skip(0) =~= all);
        assert(all.take(0) =~= Seq::<Surveyed>::empty());
    }
    while rest.len() > 0
        invariant
            k <= all.len(),
            all.len() == total,
            spec_distinctly_numbered(all),
            rest@ == all.skip(k as int),
            spec_in_number_order(out@),
            forall|j: int| 0 <= j < out@.len() ==> exists|m: int| 0 <= m < k && #[trigger] out@[j] == all[m],
            out@.to_multiset() == all.take(k as int).to_multiset(),
        decreases rest.len(),
    {
        let item = rest.remove(0);
        proof {
            assert(item == all[k as int]);
            assert(rest@ =~= all.skip(k + 1));
            assert(all.take(k + 1) =~= all.take(k as int).push(item));
        }
        // After every slot numbered lower.
        let mut p: usize = 0;
        while p < out.len() && out[p].number < item.number
            invariant
                p <= out@.len(),
                forall|j: int| 0 <= j < p ==> (#[trigger] out@[j]).number < item.number,
            decreases out.len() - p,
        {
            p = p + 1;
        }
        let ghost s = out@;
        let ghost number = item.number;
        proof {
            if p < s.len() {
                let m = choose|m: int| 0 <= m < k && #[trigger] s[p as int] == all[m];
                assert(all[m].number != all[k as int].number);
                assert(s[p as int].number > number);
            }
        }
        out.insert(p, item);
        proof {
            assert(out@ =~= s.insert(p as int, all[k as int]));
            vstd::seq_lib::to_multiset_insert(s, p as int, all[k as int]);
            vstd::seq_lib::to_multiset_build(all.take(k as int), all[k as int]);
            assert(out@.to_multiset() == s.to_multiset().insert(all[k as int]));
            assert(all.take(k + 1).to_multiset() == all.take(k as int).to_multiset().insert(all[k as int]));
            assert forall|i: int, j: int| 0 <= i < j < out@.len() implies (#[trigger] out@[i]).number
                < (#[trigger] out@[j]).number by {
                if j < p {
                    assert(out@[i] == s[i] && out@[j] == s[j]);
                } else if j == p {
                    assert(out@[i] == s[i]);
                } else if i == p {
                    assert(out@[j] == s[j - 1]);
                    if j - 1 > p {
                        assert(s[p as int].number < s[j - 1].number);
                    }
                } else if i < p {
                    assert(out@[i] == s[i] && out@[j] == s[j - 1]);
                    assert(s[i].number < number);
                } else {
                    assert(out@[i] == s[i - 1] && out@[j] == s[j - 1]);
                }
            }
            assert forall|i: int| 0 <= i < out@.len() implies (#[trigger] out@[i]).number > 0 by {
                if i < p {
                    assert(out@[i] == s[i]);
                } else if i > p {
                    assert(out@[i] == s[i - 1]);
                }
            }
            assert forall|j: int| 0 <= j < out@.len() implies exists|m: int| 0 <= m < k + 1 && #[trigger] out@[j] == all[m] by {
                if j < p {
                    assert(out@[j] == s[j]);
                    let m = choose|m: int| 0 <= m < k && #[trigger] s[j] == all[m];
                    assert(out@[j] == all[m]);
                } else if j > p {
                    assert(out@[j] == s[j - 1]);
                    let m = choose|m: int| 0 <= m < k && #[trigger] s[j - 1] == all[m];
                    assert(out@[j] == all[m]);
                } else {
                    assert(out@[j] == all[k as int]);
                }
            }
        }
        k = k + 1;
    }
    proof {
        assert(all.take(all.len() as int) =~= all);
    }
    out
}

/// The record a surveyed slot keeps, where it read and could be trusted.
pub open spec fn spec_trusted(facts: SlotFacts, identity: Seq<char>) -> Option<SlotRecord> {
    match facts.record {
        Err(_) => None,
        Ok(record) => match spec_record_problem(
            facts.record_path@,
            record,
            facts.number,
            identity,
            facts.lender_absolute,
        ) {
            Some(_) => None,
            None => Some(record),
        },
    }
}

/// One slot, surveyed: its state, and whether a void maintenance claim was found on
/// its record (which the caller clears, best effort, since the answer is the same
/// whether or not that write lands).
pub fn survey_slot(facts: SlotFacts, identity: &str, open: &[OpenSession]) -> (r: (Surveyed, bool))
    ensures
        state_view(r.0.state) == spec_state_of(facts, identity@, open@),
        r.0.number == facts.number,
        r.0.dir@ == facts.dir@,
        match spec_trusted(facts, identity@) {
            None => r.0.lender is None && r.0.last_maintained is None && r.0.last_outcome is None,
            Some(record) => text::opt_view(r.0.lender) == Some(record.execution_checkout@)
                && text::opt_view(r.0.last_maintained) == text::opt_view(record.last_maintained)
                && r.0.last_outcome == record.last_outcome,
        },
        r.1 <==> (spec_state_of(facts, identity@, open@) is Idle && spec_trusted(facts, identity@) is Some && spec_trusted(facts, identity@)->Some_0.maintaining is Some),
{
    let SlotFacts {
        number,
        dir,
        record_path,
        record,
        lender_absolute,
        clone,
        clone_is_repo,
        worktree,
        worktree_is_repo,
        claim_live,
    } = facts;
    let read = match record {
        Err(why) => Err(why),
        Ok(record) => check_record(&record_path, record, number, identity, lender_absolute),
    };
    let record = match read {
        Err(why) => {
            return (
                Surveyed {
                    number,
                    dir,
                    lender: None,
                    last_maintained: None,
                    last_outcome: None,
                    state: SlotState::Broken { reason: why },
                },
                false,
            );
        },
        Ok(record) => record,
    };
    let SlotRecord {
        version: _,
        number: _,
        identity: _,
        execution_checkout,
        maintaining,
        last_maintained,
        last_outcome,
    } = record;
    let state = if !clone_is_repo {
        SlotState::Broken { reason: text::concat3("its clone at ", &clone, " is missing or not a repository") }
    } else if !worktree_is_repo {
        SlotState::Broken {
            reason: text::concat3("its worktree at ", &worktree, " is missing or not a repository"),
        }
    } else {
        match holder(open, &dir) {
            Some(i) => SlotState::InUse { session: open[i].token.clone() },
            None => match maintaining {
                Some(claim) => {
                    if claim_live {
                        SlotState::Maintaining { pid: claim.pid, since: claim.since }
                    } else {
                        let surveyed = Surveyed {
                            number,
                            dir,
                            lender: Some(execution_checkout),
                            last_maintained,
                            last_outcome,
                            state: SlotState::Idle,
                        };
                        return (surveyed, true);
                    }
                },
                None => SlotState::Idle,
            },
        }
    };
    (
        Surveyed {
            number,
            dir,
            lender: Some(execution_checkout),
            last_maintained,
            last_outcome,
            state,
        },
        false,
    )
}

// ---------------------------------------------------------------------------
// What a prune keeps
// ---------------------------------------------------------------------------

/// The branches of a slot's clone its lender does not reach: the ones a hand-back
/// could not copy. `reached` says, branch by branch, whether the lender's refs
/// reach that branch's tip.
pub open spec fn spec_retained(branches: Seq<Seq<char>>, reached: Seq<bool>) -> Seq<Seq<char>>
    decreases branches.len(),
{
    if branches.len() == 0 {
        seq![]
    } else {
        let rest = spec_retained(branches.drop_last(), reached.take(branches.len() - 1));
        if reached[branches.len() - 1] {
            rest
        } else {
            rest.push(branches.last())
        }
    }
}

/// The branches of a slot's clone its lender does not reach.
pub fn retained(branches: &[String], reached: &[bool]) -> (out: Vec<String>)
    requires
        branches@.len() == reached@.len(),
    ensures
        views(out@) == spec_retained(views(branches@), reached@),
{
    let mut out: Vec<String> = Vec::new();
    let mut i: usize = 0;
    while i < branches.len()
        invariant
            i <= branches@.len(),
            branches@.len() == reached@.len(),
            views(out@) == spec_retained(views(branches@).take(i as int), reached@.take(i as int)),
        decreases branches.len() - i,
    {
        proof {
            assert(views(branches@).take(i + 1).drop_last() =~= views(branches@).take(i as int));
            assert(reached@.take(i + 1).take(i as int) =~= reached@.take(i as int));
        }
        if !reached[i] {
            let ghost before = views(out@);
            out.push(branches[i].clone());
            proof {
                assert(views(out@) =~= before.push(branches@[i as int]@));
            }
        }
        i = i + 1;
    }
    proof {
        assert(views(branches@).take(branches@.len() as int) =~= views(branches@));
        assert(reached@.take(reached@.len() as int) =~= reached@);
    }
    out
}

/// Why a slot is kept rather than removed, or none where it may go: a session
/// working in it, a live maintenance run, a slot that is not idle because it is
/// broken — prune removes only idle slots, and the next session that would take a
/// broken one recreates it in place — or branches its clone retains that its lender
/// would not take.
pub open spec fn spec_keeps(state: SlotState, retained: Seq<Seq<char>>, lender: Option<Seq<char>>) -> Option<
    Seq<char>,
> {
    match state {
        SlotState::InUse { session } => Some("session "@ + session@ + " is working in it"@),
        SlotState::Maintaining { pid, since } => Some(
            "a maintenance run (pid "@ + text::spec_decimal(pid as nat) + ") has claimed it since "@
                + since@,
        ),
        SlotState::Broken { reason } => Some(
            "it is broken ("@ + reason@ + "), and only an idle slot is removed; "@
                + "the next session that would take it recreates it in place"@,
        ),
        SlotState::Idle => if retained.len() == 0 {
            None
        } else {
            Some(
                "its clone retains "@ + guidance::spec_listed(retained) + " — "@ + (if retained.len()
                    == 1 {
                    "a branch"@
                } else {
                    "branches"@
                }) + " its lender "@ + (match lender {
                    Some(l) => l,
                    None => "(unknown)"@,
                }) + " would not take, and removing the slot is what would make "@ + (
                if retained.len() == 1 {
                    "it"@
                } else {
                    "them"@
                }) + " unreachable"@,
            )
        },
    }
}

/// Why a slot is kept rather than removed, or none where it may go. `retained` is
/// read only for an idle slot, and may be empty for any other.
pub fn keeps(state: &SlotState, retained: &[String], lender: Option<&str>) -> (r: Option<String>)
    ensures
        text::opt_view(r) == spec_keeps(*state, views(retained@), text::opt_str_view(lender)),
{
    match state {
        SlotState::InUse { session } => {
            return Some(text::concat3("session ", session, " is working in it"));
        },
        SlotState::Maintaining { pid, since } => {
            let p = text::decimal(*pid as u64);
            let mut why = text::concat3("a maintenance run (pid ", &p, ") has claimed it since ");
            why.append(since);
            return Some(why);
        },
        SlotState::Broken { reason } => {
            let mut why = text::concat3("it is broken (", reason, "), and only an idle slot is removed; ");
            why.append("the next session that would take it recreates it in place");
            return Some(why);
        },
        SlotState::Idle => {},
    }
    if retained.len() == 0 {
        return None;
    }
    let listed = guidance::listed(retained);
    let mut why = text::concat3("its clone retains ", &listed, " — ");
    why.append(if retained.len() == 1 { "a branch" } else { "branches" });
    why.append(" its lender ");
    match lender {
        Some(l) => why.append(l),
        None => why.append("(unknown)"),
    }
    why.append(" would not take, and removing the slot is what would make ");
    why.append(if retained.len() == 1 { "it" } else { "them" });
    why.append(" unreachable");
    Some(why)
}

// ---------------------------------------------------------------------------
// Placement
// ---------------------------------------------------------------------------

/// How many slots stand above the file's pool: what shedding takes down, as far as
/// idle slots that retain nothing allow.
pub fn surplus(slots: &[Surveyed], file_pool: u32) -> (n: u32)
    ensures
        n == spec_sat_sub(spec_sat32(slots@.len() as int), file_pool as int),
{
    sat_sub(sat32(slots.len()), file_pool)
}

/// The slots a shed tries to remove, highest number first: those a session may take
/// and nothing keeps (`kept` says, slot by slot, whether [`keeps`] named a reason).
pub open spec fn spec_shed_order(slots: Seq<Surveyed>, kept: Seq<bool>) -> Seq<u32>
    decreases slots.len(),
{
    if slots.len() == 0 {
        seq![]
    } else {
        let rest = spec_shed_order(slots.drop_last(), kept.take(slots.len() - 1));
        if spec_is(Kind::Takeable, slots.last().state) && !kept[slots.len() - 1] {
            seq![slots.last().number] + rest
        } else {
            rest
        }
    }
}

/// The slots a shed tries to remove, highest number first.
pub fn shed_order(slots: &[Surveyed], kept: &[bool]) -> (out: Vec<u32>)
    requires
        slots@.len() == kept@.len(),
    ensures
        out@ == spec_shed_order(slots@, kept@),
{
    let mut out: Vec<u32> = Vec::new();
    let mut i: usize = slots.len();
    proof {
        assert(slots@.take(slots@.len() as int) =~= slots@);
        assert(kept@.take(kept@.len() as int) =~= kept@);
    }
    while i > 0
        invariant
            i <= slots@.len(),
            slots@.len() == kept@.len(),
            spec_shed_order(slots@, kept@) == out@ + spec_shed_order(
                slots@.take(i as int),
                kept@.take(i as int),
            ),
        decreases i,
    {
        let j = i - 1;
        proof {
            assert(slots@.take(i as int).drop_last() =~= slots@.take(j as int));
            assert(kept@.take(i as int).take(j as int) =~= kept@.take(j as int));
        }
        if slots[j].takeable() && !kept[j] {
            let ghost before = out@;
            out.push(slots[j].number);
            proof {
                assert(out@ =~= before.push(slots@[j as int].number));
                assert(before + (seq![slots@[j as int].number] + spec_shed_order(
                    slots@.take(j as int),
                    kept@.take(j as int),
                )) =~= out@ + spec_shed_order(slots@.take(j as int), kept@.take(j as int)));
            }
        }
        i = j;
    }
    proof {
        assert(out@ + seq![] =~= out@);
    }
    out
}

/// Whether a slot is an idle one of this lender.
pub open spec fn spec_warm(slot: Surveyed, execution: Seq<char>) -> bool {
    slot.state is Idle && match slot.lender {
        Some(l) => l@ == execution,
        None => false,
    }
}

/// The numbers of the slots satisfying `keep`, in survey order.
pub open spec fn spec_numbers_where(slots: Seq<Surveyed>, keep: spec_fn(Surveyed) -> bool) -> Seq<u32> {
    slots.filter(keep).map_values(|s: Surveyed| s.number)
}

/// The idle slots of this lender a placement tries, in order: the one the pinned
/// branch's most recent closed session used (`preferred`) first, and then the rest
/// in survey order.
pub open spec fn spec_idle_candidates(
    slots: Seq<Surveyed>,
    execution: Seq<char>,
    preferred: Option<u32>,
) -> Seq<u32> {
    let warm = spec_numbers_where(slots, |s: Surveyed| spec_warm(s, execution));
    warm.filter(|n: u32| Some(n) == preferred) + warm.filter(|n: u32| Some(n) != preferred)
}

fn warm(slot: &Surveyed, execution: &str) -> (b: bool)
    ensures
        b == spec_warm(*slot, execution@),
{
    matches!(slot.state, SlotState::Idle) && match &slot.lender {
        Some(l) => text::str_eq(l, execution),
        None => false,
    }
}

/// The idle slots of this lender a placement tries, in order.
pub fn idle_candidates(slots: &[Surveyed], execution: &str, preferred: Option<u32>) -> (out: Vec<u32>)
    ensures
        out@ == spec_idle_candidates(slots@, execution@, preferred),
{
    let ghost keep = |s: Surveyed| spec_warm(s, execution@);
    let mut first: Vec<u32> = Vec::new();
    let mut rest: Vec<u32> = Vec::new();
    let mut i: usize = 0;
    while i < slots.len()
        invariant
            i <= slots@.len(),
            keep == (|s: Surveyed| spec_warm(s, execution@)),
            first@ == spec_numbers_where(slots@.take(i as int), keep).filter(
                |n: u32| Some(n) == preferred,
            ),
            rest@ == spec_numbers_where(slots@.take(i as int), keep).filter(
                |n: u32| Some(n) != preferred,
            ),
        decreases slots.len() - i,
    {
        let ghost prefix = slots@.take(i as int);
        let ghost next = slots@.take(i + 1);
        proof {
            assert(next.drop_last() =~= prefix);
            prefix.lemma_filter_push(slots@[i as int], keep);
            assert(next =~= prefix.push(slots@[i as int]));
        }
        if warm(&slots[i], execution) {
            let n = slots[i].number;
            proof {
                assert(next.filter(keep) =~= prefix.filter(keep).push(slots@[i as int]));
                assert(spec_numbers_where(next, keep) =~= spec_numbers_where(prefix, keep).push(n));
                spec_numbers_where(prefix, keep).lemma_filter_push(n, |m: u32| Some(m) == preferred);
                spec_numbers_where(prefix, keep).lemma_filter_push(n, |m: u32| Some(m) != preferred);
            }
            if preferred == Some(n) {
                first.push(n);
            } else {
                rest.push(n);
            }
        } else {
            proof {
                assert(next.filter(keep) =~= prefix.filter(keep));
            }
        }
        i = i + 1;
    }
    proof {
        assert(slots@.take(slots@.len() as int) =~= slots@);
    }
    let mut out = first;
    let mut k: usize = 0;
    let ghost start = out@;
    while k < rest.len()
        invariant
            k <= rest@.len(),
            out@ == start + rest@.take(k as int),
        decreases rest.len() - k,
    {
        out.push(rest[k]);
        k = k + 1;
        proof {
            assert(rest@.take(k as int) =~= rest@.take(k - 1).push(rest@[k - 1]));
        }
    }
    proof {
        assert(rest@.take(rest@.len() as int) =~= rest@);
    }
    out
}

/// Whether a broken slot may be recreated for this lender: its record names this
/// lender, or no readable one.
pub open spec fn spec_recreatable(slot: Surveyed, execution: Seq<char>) -> bool {
    slot.state is Broken && match slot.lender {
        Some(l) => l@ == execution,
        None => true,
    }
}

/// The broken slots a placement recreates in place for this lender, in survey order.
pub fn broken_candidates(slots: &[Surveyed], execution: &str) -> (out: Vec<u32>)
    ensures
        out@ == spec_numbers_where(slots@, |s: Surveyed| spec_recreatable(s, execution@)),
{
    let ghost keep = |s: Surveyed| spec_recreatable(s, execution@);
    let mut out: Vec<u32> = Vec::new();
    let mut i: usize = 0;
    while i < slots.len()
        invariant
            i <= slots@.len(),
            keep == (|s: Surveyed| spec_recreatable(s, execution@)),
            out@ == spec_numbers_where(slots@.take(i as int), keep),
        decreases slots.len() - i,
    {
        let ghost prefix = slots@.take(i as int);
        proof {
            assert(slots@.take(i + 1) =~= prefix.push(slots@[i as int]));
            prefix.lemma_filter_push(slots@[i as int], keep);
        }
        let recreatable = matches!(slots[i].state, SlotState::Broken { .. }) && match &slots[i].lender {
            Some(l) => text::str_eq(l, execution),
            None => true,
        };
        if recreatable {
            out.push(slots[i].number);
            proof {
                assert(spec_numbers_where(slots@.take(i + 1), keep) =~= spec_numbers_where(prefix, keep).push(slots@[i as int].number));
            }
        } else {
            proof {
                assert(spec_numbers_where(slots@.take(i + 1), keep) =~= spec_numbers_where(prefix, keep));
            }
        }
        i = i + 1;
    }
    proof {
        assert(slots@.take(slots@.len() as int) =~= slots@);
    }
    out
}

/// Whether some slot carries the number `n`.
pub open spec fn spec_numbered(slots: Seq<Surveyed>, n: u32) -> bool {
    exists|i: int| 0 <= i < slots.len() && #[trigger] slots[i].number == n
}

fn numbered(slots: &[Surveyed], n: u32) -> (b: bool)
    ensures
        b == spec_numbered(slots@, n),
{
    let mut i: usize = 0;
    while i < slots.len()
        invariant
            i <= slots@.len(),
            forall|j: int| 0 <= j < i ==> #[trigger] slots@[j].number != n,
        decreases slots.len() - i,
    {
        if slots[i].number == n {
            return true;
        }
        i = i + 1;
    }
    false
}

/// The lowest number from `from` up that no slot carries: where a new slot is cut.
/// None only where every number from `from` to `u32::MAX` is taken.
pub fn next_free(slots: &[Surveyed], from: u32) -> (r: Option<u32>)
    ensures
        match r {
            Some(n) => from <= n && !spec_numbered(slots@, n) && forall|k: u32|
                from <= k < n ==> spec_numbered(slots@, k),
            None => forall|k: u32| from <= k ==> spec_numbered(slots@, k),
        },
{
    let mut n = from;
    loop
        invariant
            from <= n,
            forall|k: u32| from <= k < n ==> spec_numbered(slots@, k),
        decreases u32::MAX - n,
    {
        if !numbered(slots, n) {
            return Some(n);
        }
        if n == u32::MAX {
            return None;
        }
        n = n + 1;
    }
}

/// One holder, as an exhausted pool's refusal names it: token, branch, worktree,
/// owner pid and liveness.
pub open spec fn spec_describe_session(s: OpenSession) -> Seq<char> {
    "session "@ + s.token@ + " on "@ + text::spec_debug_quoted(s.branch@) + " in "@ + s.worktree@
        + ", opened by pid "@ + text::spec_decimal(s.owner_pid as nat) + " ("@ + s.liveness@ + ")"@
}

/// One holder, as an exhausted pool's refusal names it.
pub fn describe_session(s: &OpenSession) -> (out: String)
    ensures
        out@ == spec_describe_session(*s),
{
    let mut out = text::concat3("session ", &s.token, " on ");
    let branch = text::debug_quoted(&s.branch);
    out.append(&branch);
    out.append(" in ");
    out.append(&s.worktree);
    out.append(", opened by pid ");
    let pid = text::decimal(s.owner_pid as u64);
    out.append(&pid);
    out.append(" (");
    out.append(&s.liveness);
    out.append(")");
    out
}

/// What holds one slot, as an exhausted pool's refusal lists it.
pub open spec fn spec_slot_holder(slot: Surveyed, open: Seq<OpenSession>) -> Seq<char> {
    let prefix = "slot "@ + text::spec_decimal(slot.number as nat) + ": "@;
    match slot.state {
        SlotState::InUse { session } => match spec_with_token(open, session@) {
            Some(held) => prefix + spec_describe_session(held),
            None => prefix + "session "@ + session@,
        },
        SlotState::Maintaining { pid, since } => prefix + "a maintenance run, pid "@
            + text::spec_decimal(pid as nat) + ", since "@ + since@,
        SlotState::Idle => prefix + "idle, bound to "@ + match slot.lender {
            Some(l) => l@,
            None => "(unknown)"@,
        },
        SlotState::Broken { reason } => prefix + "broken — "@ + reason@,
    }
}

fn slot_holder(slot: &Surveyed, open: &[OpenSession]) -> (out: String)
    ensures
        out@ == spec_slot_holder(*slot, open@),
{
    let number = text::decimal(slot.number as u64);
    let mut out = text::concat3("slot ", &number, ": ");
    match &slot.state {
        SlotState::InUse { session } => match with_token(open, session) {
            Some(i) => {
                let d = describe_session(&open[i]);
                out.append(&d);
            },
            None => {
                out.append("session ");
                out.append(session);
            },
        },
        SlotState::Maintaining { pid, since } => {
            out.append("a maintenance run, pid ");
            let p = text::decimal(*pid as u64);
            out.append(&p);
            out.append(", since ");
            out.append(since);
        },
        SlotState::Idle => {
            out.append("idle, bound to ");
            match &slot.lender {
                Some(l) => out.append(l),
                None => out.append("(unknown)"),
            }
        },
        SlotState::Broken { reason } => {
            out.append("broken — ");
            out.append(reason);
        },
    }
    out
}

/// Everything that holds an identity's pool: each slot by number, then each open
/// session placed under `runs/`.
pub open spec fn spec_holders(slots: Seq<Surveyed>, open: Seq<OpenSession>) -> Seq<Seq<char>> {
    slots.map_values(|s: Surveyed| spec_slot_holder(s, open)) + spec_overflow(open).map_values(
        |s: OpenSession| "under runs/: "@ + spec_describe_session(s),
    )
}

/// What no session of an identity being placable is refused as: the identity, the
/// resolved limits with their sources, the slots by state, and every holder.
pub open spec fn spec_exhausted(
    identity: Seq<char>,
    resolved: Resolved,
    slots: Seq<Surveyed>,
    open: Seq<OpenSession>,
    file: Seq<char>,
) -> Seq<char> {
    let holders = spec_holders(slots, open);
    "no session of "@ + identity + " can be placed now: its pool is "@ + text::spec_decimal(
        resolved.pool as nat,
    ) + " (from "@ + resolved.pool_from@ + ") — "@ + text::spec_decimal(slots.len()) + " created, "@
        + text::spec_decimal(spec_sat32(spec_count(slots, Kind::Idle) as int) as nat) + " idle, "@
        + text::spec_decimal(spec_sat32(spec_count(slots, Kind::InUse) as int) as nat)
        + " in use, "@ + text::spec_decimal(
        spec_sat32(spec_count(slots, Kind::Maintaining) as int) as nat,
    ) + " maintaining — and its overflow is "@ + spec_describe_bound(resolved.overflow)
        + " (from "@ + resolved.overflow_from@ + ") with "@ + text::spec_decimal(
        spec_overflow(open).len(),
    ) + " in use. "@ + (if holders.len() == 0 {
        "Nothing holds it"@
    } else {
        "Held by: "@ + text::spec_join(holders, "; "@)
    }) + ". Close a session, raise pool or overflow for this identity in "@ + file
        + ", or open this one with `--overflow unlimited`"@
}

/// An error that is the exhausted-pool refusal `reason`.
pub open spec fn spec_refused_as_exhausted(e: Error, reason: Seq<char>) -> bool {
    e matches Error::PoolExhausted { reason: r } && r@ == reason
}

/// Where a session goes once no slot could be taken warm or recreated.
#[derive(Debug)]
pub enum Fallback {
    /// A new slot is cut, at [`next_free`].
    Cut,
    /// A run root under `runs/`, which the overflow still admits.
    RunRoot,
    /// Nothing admits it.
    Refused(Error),
}

fn holders(slots: &[Surveyed], open: &[OpenSession]) -> (out: Vec<String>)
    ensures
        views(out@) == spec_holders(slots@, open@),
{
    let mut out: Vec<String> = Vec::new();
    let mut i: usize = 0;
    while i < slots.len()
        invariant
            i <= slots@.len(),
            views(out@) == slots@.take(i as int).map_values(|s: Surveyed| spec_slot_holder(s, open@)),
        decreases slots.len() - i,
    {
        let one = slot_holder(&slots[i], open);
        let ghost before = views(out@);
        let ghost said = one@;
        out.push(one);
        proof {
            assert(views(out@) =~= before.push(said));
            assert(slots@.take(i + 1) =~= slots@.take(i as int).push(slots@[i as int]));
            assert(views(out@) =~= slots@.take(i + 1).map_values(|s: Surveyed| spec_slot_holder(s, open@)));
        }
        i = i + 1;
    }
    proof {
        assert(slots@.take(slots@.len() as int) =~= slots@);
    }
    let ghost keep = |s: OpenSession| s.slot is None;
    let ghost head = views(out@);
    let mut j: usize = 0;
    while j < open.len()
        invariant
            j <= open@.len(),
            keep == (|s: OpenSession| s.slot is None),
            views(out@) == head + open@.take(j as int).filter(keep).map_values(
                |s: OpenSession| "under runs/: "@ + spec_describe_session(s),
            ),
        decreases open.len() - j,
    {
        let ghost prefix = open@.take(j as int);
        proof {
            assert(open@.take(j + 1) =~= prefix.push(open@[j as int]));
            prefix.lemma_filter_push(open@[j as int], keep);
        }
        if open[j].slot.is_none() {
            let d = describe_session(&open[j]);
            let one = text::concat("under runs/: ", &d);
            let ghost before = views(out@);
            let ghost said = one@;
            out.push(one);
            proof {
                assert(views(out@) =~= before.push(said));
                assert(open@.take(j + 1).filter(keep) =~= prefix.filter(keep).push(open@[j as int]));
                assert(views(out@) =~= head + open@.take(j + 1).filter(keep).map_values(
                    |s: OpenSession| "under runs/: "@ + spec_describe_session(s),
                ));
            }
        } else {
            proof {
                assert(open@.take(j + 1).filter(keep) =~= prefix.filter(keep));
            }
        }
        j = j + 1;
    }
    proof {
        assert(open@.take(open@.len() as int) =~= open@);
    }
    out
}

/// Where a session goes once no slot of its lender could be taken warm or
/// recreated: a new slot while fewer than its pool exist, else a run root while the
/// overflow admits one, else the refusal naming every holder. `file` is where the
/// pool and overflow are configured.
pub fn fallback(
    identity: &str,
    resolved: &Resolved,
    slots: &[Surveyed],
    open: &[OpenSession],
    file: &str,
) -> (r: Fallback)
    ensures
        resolved.pool > 0 && slots@.len() < resolved.pool ==> r is Cut,
        !(resolved.pool > 0 && slots@.len() < resolved.pool) ==> if spec_admits(
            resolved.overflow,
            spec_sat32(spec_overflow_count(open@) as int),
        ) {
            r is RunRoot
        } else {
            r is Refused && spec_refused_as_exhausted(
                r->Refused_0,
                spec_exhausted(identity@, *resolved, slots@, open@, file@),
            )
        },
{
    if resolved.pool > 0 && sat32(slots.len()) < resolved.pool {
        return Fallback::Cut;
    }
    let in_use = overflow_in_use(open);
    if resolved.overflow.admits(in_use) {
        return Fallback::RunRoot;
    }
    Fallback::Refused(exhausted(identity, resolved, slots, open, file))
}

/// What no session of an identity being placable is refused as.
pub fn exhausted(
    identity: &str,
    resolved: &Resolved,
    slots: &[Surveyed],
    open: &[OpenSession],
    file: &str,
) -> (e: Error)
    ensures
        spec_refused_as_exhausted(e, spec_exhausted(identity@, *resolved, slots@, open@, file@)),
{
    let held = holders(slots, open);
    let idle = count(slots, Kind::Idle);
    let in_use = count(slots, Kind::InUse);
    let maintaining = count(slots, Kind::Maintaining);
    let overflowing = overflow_count(open);
    let mut reason = text::concat3("no session of ", identity, " can be placed now: its pool is ");
    let pool = text::decimal(resolved.pool as u64);
    reason.append(&pool);
    reason.append(" (from ");
    reason.append(&resolved.pool_from);
    reason.append(") — ");
    let created = text::decimal(slots.len() as u64);
    reason.append(&created);
    reason.append(" created, ");
    let i = text::decimal(idle as u64);
    reason.append(&i);
    reason.append(" idle, ");
    let u = text::decimal(in_use as u64);
    reason.append(&u);
    reason.append(" in use, ");
    let m = text::decimal(maintaining as u64);
    reason.append(&m);
    reason.append(" maintaining — and its overflow is ");
    let bound = resolved.overflow.describe();
    reason.append(&bound);
    reason.append(" (from ");
    reason.append(&resolved.overflow_from);
    reason.append(") with ");
    let o = text::decimal(overflowing as u64);
    reason.append(&o);
    reason.append(" in use. ");
    if held.len() == 0 {
        reason.append("Nothing holds it");
    } else {
        let joined = text::join(&held, "; ");
        reason.append("Held by: ");
        reason.append(&joined);
    }
    reason.append(". Close a session, raise pool or overflow for this identity in ",
    );
    reason.append(file);
    reason.append(", or open this one with `--overflow unlimited`");
    proof {
        assert(views(held@).len() == held@.len());
        assert(reason@ =~= spec_exhausted(identity@, *resolved, slots@, open@, file@));
    }
    Error::PoolExhausted { reason }
}

fn overflow_count(open: &[OpenSession]) -> (n: usize)
    ensures
        n == spec_overflow(open@).len(),
{
    let ghost keep = |s: OpenSession| s.slot is None;
    let mut c: usize = 0;
    let mut j: usize = 0;
    while j < open.len()
        invariant
            j <= open@.len(),
            keep == (|s: OpenSession| s.slot is None),
            c == open@.take(j as int).filter(keep).len(),
            c <= j,
        decreases open.len() - j,
    {
        let ghost prefix = open@.take(j as int);
        proof {
            assert(open@.take(j + 1) =~= prefix.push(open@[j as int]));
            prefix.lemma_filter_push(open@[j as int], keep);
        }
        if open[j].slot.is_none() {
            c = c + 1;
        }
        j = j + 1;
    }
    proof {
        assert(open@.take(open@.len() as int) =~= open@);
    }
    c
}

// ---------------------------------------------------------------------------
// Reports
// ---------------------------------------------------------------------------

/// The pool of one repository as `pool status` reports it: its capacity — counted
/// from the very slots it lists, resolved with no per-open override and for no
/// pinned branch — and every slot, lowest number first, as [`in_number_order`]
/// leaves a survey.
pub fn pool_status(
    identity: &str,
    execution: &str,
    resolved: &Resolved,
    slots: &[Surveyed],
    open: &[OpenSession],
) -> (out: PoolStatus)
    requires
        spec_in_number_order(slots@),
        slots@.len() <= u32::MAX,
    ensures
        out.capacity.identity@ == identity@,
        out.capacity.pool == resolved.pool,
        out.capacity.slots == spec_sat32(slots@.len() as int),
        out.capacity.idle == spec_sat32(spec_count(slots@, Kind::Idle) as int),
        out.capacity.in_use == spec_sat32(spec_count(slots@, Kind::InUse) as int),
        out.capacity.maintaining == spec_sat32(spec_count(slots@, Kind::Maintaining) as int),
        out.capacity.overflow == resolved.overflow,
        out.capacity.overflow_in_use == spec_sat32(spec_overflow_count(open@) as int),
        out.capacity.admits == spec_capacity_admits(
            resolved.pool as int,
            out.capacity.slots as int,
            spec_sat32(spec_count(slots@, Kind::Takeable) as int),
            resolved.file_pool as int,
            resolved.overflow,
            out.capacity.overflow_in_use as int,
        ),
        out.capacity.admitted == spec_admitted(*resolved, slots@, open@, None, execution@),
        out.capacity.slots == out.slots@.len(),
        out.capacity.slots == out.capacity.idle + out.capacity.in_use + out.capacity.maintaining
            + spec_count(slots@, Kind::Broken),
        out.slots@.len() == slots@.len(),
        forall|i: int| 0 <= i < out.slots@.len() ==> (#[trigger] out.slots@[i]).number > 0,
        forall|i: int, j: int|
            0 <= i < j < out.slots@.len() ==> (#[trigger] out.slots@[i]).number < (
            #[trigger] out.slots@[j]).number,
        forall|i: int|
            0 <= i < slots@.len() ==> {
                let st = #[trigger] out.slots@[i];
                let sv = slots@[i];
                &&& st.number == sv.number
                &&& st.path@ == sv.dir@
                &&& st.execution_checkout@ == match sv.lender {
                    Some(l) => l@,
                    None => seq![],
                }
                &&& st.state == sv.state
                &&& text::opt_view(st.last_maintained) == text::opt_view(sv.last_maintained)
                &&& st.last_outcome == sv.last_outcome
            },
{
    let mut out: Vec<SlotStatus> = Vec::new();
    let mut i: usize = 0;
    while i < slots.len()
        invariant
            i <= slots@.len(),
            out@.len() == i,
            forall|k: int|
                0 <= k < i ==> {
                    let st = #[trigger] out@[k];
                    let sv = slots@[k];
                    &&& st.number == sv.number
                    &&& st.path@ == sv.dir@
                    &&& st.execution_checkout@ == match sv.lender {
                        Some(l) => l@,
                        None => seq![],
                    }
                    &&& st.state == sv.state
                    &&& text::opt_view(st.last_maintained) == text::opt_view(sv.last_maintained)
                    &&& st.last_outcome == sv.last_outcome
                },
        decreases slots.len() - i,
    {
        out.push(slots[i].status());
        i = i + 1;
    }
    let capacity = workspace_capacity(identity, execution, resolved, slots, open, None);
    proof {
        lemma_states_partition(slots@);
    }
    PoolStatus { capacity, slots: out }
}

/// Why each slot is kept, as [`keeps`] says of it: `retained[i]` is what the `i`th
/// slot's clone retains that its lender does not reach.
pub open spec fn spec_keep_reasons(slots: Seq<Surveyed>, retained: Seq<Seq<Seq<char>>>) -> Seq<
    Option<Seq<char>>,
> {
    Seq::new(
        slots.len(),
        |i: int| spec_keeps(slots[i].state, retained[i], text::opt_view(slots[i].lender)),
    )
}

/// What a prune reports, slot by slot in survey order: a slot something keeps is
/// kept with that reason; any other was removed, or kept with the reason its removal
/// failed (`removal`, consulted only for slots nothing keeps).
pub open spec fn spec_prune(
    numbers: Seq<u32>,
    kept: Seq<Option<Seq<char>>>,
    removal: Seq<Result<(), String>>,
) -> (Seq<u32>, Seq<(u32, Seq<char>)>)
    decreases numbers.len(),
{
    if numbers.len() == 0 {
        (seq![], seq![])
    } else {
        let k = (numbers.len() - 1) as int;
        let (removed, held) = spec_prune(numbers.drop_last(), kept.take(k), removal.take(k));
        match kept[k] {
            Some(why) => (removed, held.push((numbers[k], why))),
            None => match removal[k] {
                Ok(_) => (removed.push(numbers[k]), held),
                Err(why) => (removed, held.push((numbers[k], why@))),
            },
        }
    }
}

/// The reasons a prune kept slots, as contracts speak of them.
pub open spec fn kept_views(kept: Seq<(u32, String)>) -> Seq<(u32, Seq<char>)> {
    kept.map_values(|k: (u32, String)| (k.0, k.1@))
}

/// What a prune reports: each slot, in number order, either removed or kept with
/// its reason. Only an idle slot whose clone retains nothing its lender does not
/// reach is removed; a slot in use, under maintenance or broken is kept with what
/// [`keeps`] says of it. `retained` is what each slot's clone retains, and
/// `removal` how each removal went, consulted only for slots nothing keeps.
pub fn pool_prune(slots: &[Surveyed], retained: &[Vec<String>], removal: Vec<Result<(), String>>) -> (r:
    PruneReport)
    requires
        spec_in_number_order(slots@),
        retained@.len() == slots@.len(),
        removal@.len() == slots@.len(),
    ensures
        (r.removed@, kept_views(r.kept@)) == spec_prune(
            slots@.map_values(|s: Surveyed| s.number),
            spec_keep_reasons(slots@, retained@.map_values(|v: Vec<String>| views(v@))),
            removal@,
        ),
        r.removed@.len() + r.kept@.len() == slots@.len(),
        forall|j: int|
            #![trigger r.removed@[j]]
            0 <= j < r.removed@.len() ==> exists|i: int|
                0 <= i < slots@.len() && #[trigger] slots@[i].number == r.removed@[j] && slots@[i].state
                    is Idle && retained@[i]@.len() == 0,
        forall|a: int, b: int| 0 <= a < b < r.removed@.len() ==> r.removed@[a] < r.removed@[b],
        forall|a: int, b: int| 0 <= a < b < r.kept@.len() ==> r.kept@[a].0 < r.kept@[b].0,
        forall|a: int, b: int|
            0 <= a < r.removed@.len() && 0 <= b < r.kept@.len() ==> r.removed@[a] != r.kept@[b].0,
{
    let ghost numbers = slots@.map_values(|s: Surveyed| s.number);
    let ghost reasons = spec_keep_reasons(slots@, retained@.map_values(|v: Vec<String>| views(v@)));
    let mut report = PruneReport { removed: Vec::new(), kept: Vec::new() };
    let mut i: usize = 0;
    while i < slots.len()
        invariant
            i <= slots@.len(),
            spec_in_number_order(slots@),
            retained@.len() == slots@.len(),
            removal@.len() == slots@.len(),
            numbers == slots@.map_values(|s: Surveyed| s.number),
            reasons == spec_keep_reasons(slots@, retained@.map_values(|v: Vec<String>| views(v@))),
            (report.removed@, kept_views(report.kept@)) == spec_prune(
                numbers.take(i as int),
                reasons.take(i as int),
                removal@.take(i as int),
            ),
            report.removed@.len() + report.kept@.len() == i,
            forall|j: int|
                #![trigger report.removed@[j]]
                0 <= j < report.removed@.len() ==> exists|m: int|
                    0 <= m < i && #[trigger] slots@[m].number == report.removed@[j] && slots@[m].state
                        is Idle && retained@[m]@.len() == 0,
            forall|j: int|
                #![trigger report.kept@[j]]
                0 <= j < report.kept@.len() ==> exists|m: int|
                    0 <= m < i && #[trigger] slots@[m].number == report.kept@[j].0,
            forall|a: int, b: int| 0 <= a < b < report.removed@.len() ==> report.removed@[a] < report.removed@[b],
            forall|a: int, b: int| 0 <= a < b < report.kept@.len() ==> report.kept@[a].0 < report.kept@[b].0,
            forall|a: int, b: int|
                0 <= a < report.removed@.len() && 0 <= b < report.kept@.len() ==> report.removed@[a]
                    != report.kept@[b].0,
        decreases slots.len() - i,
    {
        proof {
            assert(numbers.take(i + 1).drop_last() =~= numbers.take(i as int));
            assert(reasons.take(i + 1).take(i as int) =~= reasons.take(i as int));
            assert(removal@.take(i + 1).take(i as int) =~= removal@.take(i as int));
        }
        let number = slots[i].number;
        let lender = match &slots[i].lender {
            Some(l) => Some(l.as_str()),
            None => None,
        };
        let why = keeps(&slots[i].state, &retained[i], lender);
        proof {
            assert(text::opt_str_view(lender) == text::opt_view(slots@[i as int].lender));
            assert(retained@.map_values(|v: Vec<String>| views(v@))[i as int] == views(retained@[i as int]@));
            assert(text::opt_view(why) == reasons[i as int]);
            // Every number already reported belongs to an earlier slot, so it is lower.
            assert forall|j: int| 0 <= j < report.removed@.len() implies report.removed@[j] < number by {
                let m = choose|m: int| 0 <= m < i && #[trigger] slots@[m].number == report.removed@[j];
            }
            assert forall|j: int| 0 <= j < report.kept@.len() implies report.kept@[j].0 < number by {
                let m = choose|m: int| 0 <= m < i && #[trigger] slots@[m].number == report.kept@[j].0;
            }
        }
        let ghost removed_before = report.removed@;
        let ghost held_before = report.kept@;
        let mut removed_now = false;
        match why {
            Some(why) => {
                let ghost w = why@;
                report.kept.push((number, why));
                proof {
                    assert(kept_views(report.kept@) =~= kept_views(held_before).push((number, w)));
                }
            },
            None => match &removal[i] {
                Ok(_) => {
                    report.removed.push(number);
                    removed_now = true;
                },
                Err(why) => {
                    report.kept.push((number, why.clone()));
                    proof {
                        assert(kept_views(report.kept@) =~= kept_views(held_before).push((number, why@)));
                    }
                },
            },
        }
        proof {
            if removed_now {
                assert(spec_keeps(slots@[i as int].state, views(retained@[i as int]@), text::opt_view(slots@[i as int].lender)) is None);
                assert(slots@[i as int].state is Idle);
                assert(views(retained@[i as int]@).len() == 0);
                assert(report.removed@[removed_before.len() as int] == number);
                assert(report.kept@ == held_before);
            } else {
                assert(report.removed@ == removed_before);
                assert(report.kept@[held_before.len() as int].0 == number);
            }
            assert forall|j: int| #![trigger report.removed@[j]] 0 <= j < report.removed@.len() implies exists|m: int|
                0 <= m < i + 1 && #[trigger] slots@[m].number == report.removed@[j] && slots@[m].state
                    is Idle && retained@[m]@.len() == 0 by {
                if j < removed_before.len() {
                    assert(report.removed@[j] == removed_before[j]);
                    let m = choose|m: int| 0 <= m < i && #[trigger] slots@[m].number == removed_before[j]
                        && slots@[m].state is Idle && retained@[m]@.len() == 0;
                    assert(slots@[m].number == report.removed@[j]);
                } else {
                    assert(slots@[i as int].number == report.removed@[j]);
                }
            }
            assert forall|j: int| #![trigger report.kept@[j]] 0 <= j < report.kept@.len() implies exists|m: int|
                0 <= m < i + 1 && #[trigger] slots@[m].number == report.kept@[j].0 by {
                if j < held_before.len() {
                    assert(report.kept@[j] == held_before[j]);
                    let m = choose|m: int| 0 <= m < i && #[trigger] slots@[m].number == held_before[j].0;
                    assert(slots@[m].number == report.kept@[j].0);
                } else {
                    assert(slots@[i as int].number == report.kept@[j].0);
                }
            }
        }
        i = i + 1;
    }
    proof {
        assert(numbers.take(slots@.len() as int) =~= numbers);
        assert(reasons.take(slots@.len() as int) =~= reasons);
        assert(removal@.take(slots@.len() as int) =~= removal@);
    }
    report
}

// ---------------------------------------------------------------------------
// What the reports print
// ---------------------------------------------------------------------------

/// How a slot's state is worded in a status report.
pub open spec fn spec_state_words(state: SlotState) -> Seq<char> {
    match state {
        SlotState::Idle => "idle"@,
        SlotState::InUse { session } => "in use by "@ + session@,
        SlotState::Maintaining { pid, since } => "maintaining (pid "@ + text::spec_decimal(pid as nat)
            + ", since "@ + since@ + ")"@,
        SlotState::Broken { reason } => "broken: "@ + reason@,
    }
}

fn state_words(state: &SlotState) -> (out: String)
    ensures
        out@ == spec_state_words(*state),
{
    match state {
        SlotState::Idle => text::owned("idle"),
        SlotState::InUse { session } => text::concat("in use by ", session),
        SlotState::Maintaining { pid, since } => {
            let p = text::decimal(*pid as u64);
            let mut out = text::concat3("maintaining (pid ", &p, ", since ");
            out.append(since);
            out.append(")");
            out
        },
        SlotState::Broken { reason } => text::concat("broken: ", reason),
    }
}

/// How a maintenance outcome is worded where a signal is the only other ending.
pub open spec fn spec_outcome_words(outcome: MaintenanceOutcome, unsignalled: Seq<char>) -> Seq<char> {
    match outcome {
        MaintenanceOutcome::Succeeded => "succeeded"@,
        MaintenanceOutcome::Failed { exit: Some(code) } => "failed (exit "@ + text::spec_signed_decimal(
            code as int,
        ) + ")"@,
        MaintenanceOutcome::Failed { exit: None } => unsignalled,
        MaintenanceOutcome::TimedOut => "timed out"@,
    }
}

fn outcome_words(outcome: MaintenanceOutcome, unsignalled: &str) -> (out: String)
    ensures
        out@ == spec_outcome_words(outcome, unsignalled@),
{
    match outcome {
        MaintenanceOutcome::Succeeded => text::owned("succeeded"),
        MaintenanceOutcome::Failed { exit: Some(code) } => {
            let c = text::signed_decimal(code);
            text::concat3("failed (exit ", &c, ")")
        },
        MaintenanceOutcome::Failed { exit: None } => text::owned(unsignalled),
        MaintenanceOutcome::TimedOut => text::owned("timed out"),
    }
}

/// The lines one slot contributes to a status report.
pub open spec fn spec_slot_lines(slot: SlotStatus) -> Seq<Seq<char>> {
    seq![
        "slot "@ + text::spec_decimal(slot.number as nat) + ": "@ + spec_state_words(slot.state),
        "  path: "@ + slot.path@,
        "  execution checkout: "@ + slot.execution_checkout@,
        "  last maintained: "@ + match slot.last_maintained {
            Some(when) => when@,
            None => "never"@,
        },
        "  last outcome: "@ + match slot.last_outcome {
            None => "none"@,
            Some(o) => spec_outcome_words(o, "failed (ended by a signal)"@),
        },
    ]
}

/// Every slot's lines, in order.
pub open spec fn spec_slots_lines(slots: Seq<SlotStatus>) -> Seq<Seq<char>>
    decreases slots.len(),
{
    if slots.len() == 0 {
        seq![]
    } else {
        spec_slots_lines(slots.drop_last()) + spec_slot_lines(slots.last())
    }
}

/// The report `pool status` prints: the capacity, then every slot.
pub open spec fn spec_status_lines(status: PoolStatus) -> Seq<Seq<char>> {
    let c = status.capacity;
    seq![
        "identity: "@ + c.identity@,
        "pool: "@ + text::spec_decimal(c.pool as nat) + " (slots: "@ + text::spec_decimal(c.slots as nat)
            + " created, "@ + text::spec_decimal(c.idle as nat) + " idle, "@ + text::spec_decimal(
            c.in_use as nat,
        ) + " in use, "@ + text::spec_decimal(c.maintaining as nat) + " maintaining)"@,
        "overflow: "@ + spec_describe_bound(c.overflow) + " ("@ + text::spec_decimal(
            c.overflow_in_use as nat,
        ) + " in use)"@,
        "admits: "@ + spec_describe_bound(c.admits),
    ] + spec_slots_lines(status.slots@)
}

fn push_line(lines: &mut Vec<String>, line: String)
    ensures
        views(final(lines)@) == views(old(lines)@).push(line@),
{
    let ghost before = views(lines@);
    let ghost said = line@;
    lines.push(line);
    proof {
        assert(views(lines@) =~= before.push(said));
    }
}

impl PoolStatus {
    /// The report `pool status` prints, line by line.
    pub fn render(&self) -> (out: Vec<String>)
        ensures
            views(out@) == spec_status_lines(*self),
    {
        let c = &self.capacity;
        let mut lines: Vec<String> = Vec::new();
        push_line(&mut lines, text::concat("identity: ", &c.identity));
        let mut pool = text::concat3("pool: ", &text::decimal(c.pool as u64), " (slots: ");
        pool.append(&text::decimal(c.slots as u64));
        pool.append(" created, ");
        pool.append(&text::decimal(c.idle as u64));
        pool.append(" idle, ");
        pool.append(&text::decimal(c.in_use as u64));
        pool.append(" in use, ");
        pool.append(&text::decimal(c.maintaining as u64));
        pool.append(" maintaining)");
        push_line(&mut lines, pool);
        let mut overflow = text::concat3("overflow: ", &c.overflow.describe(), " (");
        overflow.append(&text::decimal(c.overflow_in_use as u64));
        overflow.append(" in use)");
        push_line(&mut lines, overflow);
        push_line(&mut lines, text::concat("admits: ", &c.admits.describe()));
        let ghost head = views(lines@);
        let mut i: usize = 0;
        while i < self.slots.len()
            invariant
                i <= self.slots@.len(),
                views(lines@) == head + spec_slots_lines(self.slots@.take(i as int)),
            decreases self.slots.len() - i,
        {
            let slot = &self.slots[i];
            let number = text::decimal(slot.number as u64);
            let words = state_words(&slot.state);
            let mut first = text::concat3("slot ", &number, ": ");
            first.append(&words);
            push_line(&mut lines, first);
            push_line(&mut lines, text::concat("  path: ", &slot.path));
            push_line(&mut lines, text::concat("  execution checkout: ", &slot.execution_checkout));
            let when = match &slot.last_maintained {
                Some(when) => text::concat("  last maintained: ", when),
                None => text::owned("  last maintained: never"),
            };
            proof {
                reveal_strlit("  last maintained: never");
                reveal_strlit("  last maintained: ");
                reveal_strlit("never");
                assert("  last maintained: never"@ =~= "  last maintained: "@ + "never"@);
            }
            push_line(&mut lines, when);
            let last = match slot.last_outcome {
                None => text::owned("  last outcome: none"),
                Some(o) => {
                    let words = outcome_words(o, "failed (ended by a signal)");
                    text::concat("  last outcome: ", &words)
                },
            };
            proof {
                reveal_strlit("  last outcome: none");
                reveal_strlit("  last outcome: ");
                reveal_strlit("none");
                assert("  last outcome: none"@ =~= "  last outcome: "@ + "none"@);
            }
            push_line(&mut lines, last);
            proof {
                assert(self.slots@.take(i + 1).drop_last() =~= self.slots@.take(i as int));
                assert(views(lines@) =~= head + spec_slots_lines(self.slots@.take(i + 1)));
            }
            i = i + 1;
        }
        proof {
            assert(self.slots@.take(self.slots@.len() as int) =~= self.slots@);
        }
        lines
    }
}

impl PruneReport {
    /// The report `pool prune` prints: each removed slot, each kept one with why, or
    /// that there were no slots.
    pub fn render(&self) -> (out: Vec<String>)
        ensures
            views(out@) == self.removed@.map_values(
                |n: u32| "removed slot "@ + text::spec_decimal(n as nat),
            ) + kept_views(self.kept@).map_values(
                |k: (u32, Seq<char>)| "kept slot "@ + text::spec_decimal(k.0 as nat) + ": "@ + k.1,
            ) + if self.removed@.len() == 0 && self.kept@.len() == 0 {
                seq!["no slots"@]
            } else {
                seq![]
            },
    {
        let mut lines: Vec<String> = Vec::new();
        let mut i: usize = 0;
        while i < self.removed.len()
            invariant
                i <= self.removed@.len(),
                views(lines@) == self.removed@.take(i as int).map_values(
                    |n: u32| "removed slot "@ + text::spec_decimal(n as nat),
                ),
            decreases self.removed.len() - i,
        {
            push_line(&mut lines, text::concat("removed slot ", &text::decimal(self.removed[i] as u64)));
            proof {
                assert(self.removed@.take(i + 1) =~= self.removed@.take(i as int).push(self.removed@[i as int]));
                assert(views(lines@) =~= self.removed@.take(i + 1).map_values(
                    |n: u32| "removed slot "@ + text::spec_decimal(n as nat),
                ));
            }
            i = i + 1;
        }
        proof {
            assert(self.removed@.take(self.removed@.len() as int) =~= self.removed@);
        }
        let ghost head = views(lines@);
        let mut k: usize = 0;
        while k < self.kept.len()
            invariant
                k <= self.kept@.len(),
                views(lines@) == head + kept_views(self.kept@.take(k as int)).map_values(
                    |k: (u32, Seq<char>)| "kept slot "@ + text::spec_decimal(k.0 as nat) + ": "@ + k.1,
                ),
            decreases self.kept.len() - k,
        {
            let (number, why) = &self.kept[k];
            let mut line = text::concat3("kept slot ", &text::decimal(*number as u64), ": ");
            line.append(why);
            push_line(&mut lines, line);
            proof {
                assert(self.kept@.take(k + 1) =~= self.kept@.take(k as int).push(self.kept@[k as int]));
                assert(kept_views(self.kept@.take(k + 1)) =~= kept_views(self.kept@.take(k as int)).push(
                    (self.kept@[k as int].0, self.kept@[k as int].1@),
                ));
                assert(views(lines@) =~= head + kept_views(self.kept@.take(k + 1)).map_values(
                    |k: (u32, Seq<char>)| "kept slot "@ + text::spec_decimal(k.0 as nat) + ": "@ + k.1,
                ));
            }
            k = k + 1;
        }
        proof {
            assert(self.kept@.take(self.kept@.len() as int) =~= self.kept@);
        }
        if self.removed.len() == 0 && self.kept.len() == 0 {
            push_line(&mut lines, text::owned("no slots"));
        }
        proof {
            assert(views(lines@) =~= self.removed@.map_values(
                |n: u32| "removed slot "@ + text::spec_decimal(n as nat),
            ) + kept_views(self.kept@).map_values(
                |k: (u32, Seq<char>)| "kept slot "@ + text::spec_decimal(k.0 as nat) + ": "@ + k.1,
            ) + if self.removed@.len() == 0 && self.kept@.len() == 0 {
                seq!["no slots"@]
            } else {
                seq![]
            });
        }
        lines
    }
}

// ---------------------------------------------------------------------------
// What a maintenance pass reports
// ---------------------------------------------------------------------------

/// What a maintenance pass did in one slot, or why it kept out of it.
#[derive(Debug, Clone, PartialEq, Eq)]
pub enum SlotOutcome {
    /// Maintained too recently to be due.
    NotDue {
        /// When it was last maintained, RFC3339.
        last_maintained: String,
    },
    /// A session is working in it.
    InUse {
        /// The session.
        session: String,
    },
    /// Something else holds it right now.
    Unavailable {
        /// What holds it, as the report names it.
        holder: String,
    },
    /// It is broken.
    Broken {
        /// What is wrong with it.
        reason: String,
    },
    /// The maintain command ran in it.
    Ran {
        /// How the command ended.
        outcome: MaintenanceOutcome,
        /// How long it ran, in milliseconds.
        duration_ms: u64,
        /// The artifact its log was stored as, where it was stored.
        log: Option<String>,
    },
}

/// One slot of a maintenance pass.
#[derive(Debug, Clone, PartialEq, Eq)]
pub struct SlotMaintained {
    /// The slot's number.
    pub number: u32,
    /// What the pass did there.
    pub outcome: SlotOutcome,
}

/// What a maintenance pass did for one identity.
#[derive(Debug, Clone, PartialEq, Eq)]
pub enum IdentityOutcome {
    /// The identity states no maintain command.
    NoMaintainCommand,
    /// The identity has no slots.
    NoSlots,
    /// Another pass is maintaining it right now.
    Claimed {
        /// The process running that pass.
        by_pid: u32,
    },
    /// Its slots, each with what the pass did.
    Slots(Vec<SlotMaintained>),
}

/// One identity of a maintenance pass.
#[derive(Debug, Clone, PartialEq, Eq)]
pub struct IdentityMaintained {
    /// The identity key.
    pub identity: String,
    /// What the pass did for it.
    pub outcome: IdentityOutcome,
}

/// What a maintenance pass did, identity by identity.
#[derive(Debug, Clone, PartialEq, Eq)]
pub struct MaintainReport {
    /// Every identity the pass covered.
    pub identities: Vec<IdentityMaintained>,
}

/// One slot's line of the maintain report: what was done, or what was kept and why.
pub open spec fn spec_slot_outcome(outcome: SlotOutcome) -> Seq<char> {
    match outcome {
        SlotOutcome::NotDue { last_maintained } => "kept: not due, last maintained "@
            + last_maintained@,
        SlotOutcome::InUse { session } => "kept: session "@ + session@ + " is working in it"@,
        SlotOutcome::Unavailable { holder } => "kept: "@ + holder@,
        SlotOutcome::Broken { reason } => "kept: "@ + reason@,
        SlotOutcome::Ran { outcome, duration_ms, log } => "ran: "@ + spec_outcome_words(
            outcome,
            "failed (ended by a signal, or never started)"@,
        ) + " in "@ + text::spec_decimal(duration_ms as nat) + " ms"@ + match log {
            Some(id) => ", log: onevcs artifact cat "@ + id@,
            None => seq![],
        },
    }
}

/// One slot's line of the maintain report.
pub fn describe_slot_outcome(outcome: &SlotOutcome) -> (out: String)
    ensures
        out@ == spec_slot_outcome(*outcome),
{
    match outcome {
        SlotOutcome::NotDue { last_maintained } => text::concat(
            "kept: not due, last maintained ",
            last_maintained,
        ),
        SlotOutcome::InUse { session } => text::concat3("kept: session ", session, " is working in it"),
        SlotOutcome::Unavailable { holder } => text::concat("kept: ", holder),
        SlotOutcome::Broken { reason } => text::concat("kept: ", reason),
        SlotOutcome::Ran { outcome, duration_ms, log } => {
            let words = outcome_words(*outcome, "failed (ended by a signal, or never started)");
            let mut out = text::concat3("ran: ", &words, " in ");
            out.append(&text::decimal(*duration_ms));
            out.append(" ms");
            match log {
                Some(id) => {
                    out.append(", log: onevcs artifact cat ");
                    out.append(id);
                },
                None => {},
            }
            out
        },
    }
}

/// How many commands a pass ran, and how each ended: ran, succeeded, failed, timed out.
pub open spec fn spec_slot_tally(outcome: SlotOutcome) -> (nat, nat, nat, nat) {
    match outcome {
        SlotOutcome::Ran { outcome, .. } => match outcome {
            MaintenanceOutcome::Succeeded => (1, 1, 0, 0),
            MaintenanceOutcome::Failed { .. } => (1, 0, 1, 0),
            MaintenanceOutcome::TimedOut => (1, 0, 0, 1),
        },
        _ => (0, 0, 0, 0),
    }
}

/// The tally of two parts together.
pub open spec fn spec_add4(a: (nat, nat, nat, nat), b: (nat, nat, nat, nat)) -> (nat, nat, nat, nat) {
    (a.0 + b.0, a.1 + b.1, a.2 + b.2, a.3 + b.3)
}

/// The tally over one identity's slots.
pub open spec fn spec_slots_tally(slots: Seq<SlotMaintained>) -> (nat, nat, nat, nat)
    decreases slots.len(),
{
    if slots.len() == 0 {
        (0, 0, 0, 0)
    } else {
        spec_add4(spec_slots_tally(slots.drop_last()), spec_slot_tally(slots.last().outcome))
    }
}

/// The tally over one identity.
pub open spec fn spec_identity_tally(outcome: IdentityOutcome) -> (nat, nat, nat, nat) {
    match outcome {
        IdentityOutcome::Slots(slots) => spec_slots_tally(slots@),
        _ => (0, 0, 0, 0),
    }
}

/// The tally over a whole pass.
pub open spec fn spec_tally(identities: Seq<IdentityMaintained>) -> (nat, nat, nat, nat)
    decreases identities.len(),
{
    if identities.len() == 0 {
        (0, 0, 0, 0)
    } else {
        spec_add4(spec_tally(identities.drop_last()), spec_identity_tally(identities.last().outcome))
    }
}

/// How many slots a pass covered, whatever it did in them.
pub open spec fn spec_slot_count(identities: Seq<IdentityMaintained>) -> nat
    decreases identities.len(),
{
    if identities.len() == 0 {
        0
    } else {
        spec_slot_count(identities.drop_last()) + match identities.last().outcome {
            IdentityOutcome::Slots(slots) => slots@.len(),
            _ => 0,
        }
    }
}

proof fn lemma_slots_tally_bounded(slots: Seq<SlotMaintained>)
    ensures
        spec_slots_tally(slots).0 <= slots.len(),
        spec_slots_tally(slots).0 == spec_slots_tally(slots).1 + spec_slots_tally(slots).2
            + spec_slots_tally(slots).3,
    decreases slots.len(),
{
    if slots.len() > 0 {
        lemma_slots_tally_bounded(slots.drop_last());
    }
}

proof fn lemma_tally_bounded(identities: Seq<IdentityMaintained>)
    ensures
        spec_tally(identities).0 <= spec_slot_count(identities),
        spec_tally(identities).0 == spec_tally(identities).1 + spec_tally(identities).2 + spec_tally(
            identities,
        ).3,
    decreases identities.len(),
{
    if identities.len() > 0 {
        lemma_tally_bounded(identities.drop_last());
        match identities.last().outcome {
            IdentityOutcome::Slots(slots) => lemma_slots_tally_bounded(slots@),
            _ => {},
        }
    }
}

proof fn lemma_slot_count_grows(identities: Seq<IdentityMaintained>, i: int)
    requires
        0 <= i <= identities.len(),
    ensures
        spec_slot_count(identities.take(i)) <= spec_slot_count(identities),
    decreases identities.len() - i,
{
    if i < identities.len() {
        lemma_slot_count_grows(identities, i + 1);
        assert(identities.take(i + 1).drop_last() =~= identities.take(i));
    } else {
        assert(identities.take(i) =~= identities);
    }
}

/// What a pass ran, counted: ran, succeeded, failed, timed out.
#[derive(Debug, Clone, Copy, PartialEq, Eq)]
pub struct Tally {
    /// Commands run.
    pub ran: u64,
    /// Commands that succeeded.
    pub succeeded: u64,
    /// Commands that failed.
    pub failed: u64,
    /// Commands stopped at their bound.
    pub timed_out: u64,
}

fn slot_tally(slots: &Vec<SlotMaintained>, into: Tally, room: Ghost<nat>) -> (out: Tally)
    requires
        into.ran + slots@.len() <= room@,
        room@ <= u64::MAX,
        into.ran == into.succeeded + into.failed + into.timed_out,
    ensures
        (out.ran as nat, out.succeeded as nat, out.failed as nat, out.timed_out as nat) == spec_add4(
            (into.ran as nat, into.succeeded as nat, into.failed as nat, into.timed_out as nat),
            spec_slots_tally(slots@),
        ),
{
    let mut t = into;
    let mut i: usize = 0;
    while i < slots.len()
        invariant
            i <= slots@.len(),
            into.ran + slots@.len() <= room@,
            room@ <= u64::MAX,
            into.ran == into.succeeded + into.failed + into.timed_out,
            (t.ran as nat, t.succeeded as nat, t.failed as nat, t.timed_out as nat) == spec_add4(
                (into.ran as nat, into.succeeded as nat, into.failed as nat, into.timed_out as nat),
                spec_slots_tally(slots@.take(i as int)),
            ),
        decreases slots.len() - i,
    {
        proof {
            assert(slots@.take(i + 1).drop_last() =~= slots@.take(i as int));
            lemma_slots_tally_bounded(slots@.take(i as int));
        }
        match &slots[i].outcome {
            SlotOutcome::Ran { outcome, .. } => {
                t.ran = t.ran + 1;
                match outcome {
                    MaintenanceOutcome::Succeeded => t.succeeded = t.succeeded + 1,
                    MaintenanceOutcome::Failed { .. } => t.failed = t.failed + 1,
                    MaintenanceOutcome::TimedOut => t.timed_out = t.timed_out + 1,
                }
            },
            _ => {},
        }
        i = i + 1;
    }
    proof {
        assert(slots@.take(slots@.len() as int) =~= slots@);
    }
    t
}

impl MaintainReport {
    /// What the pass ran, counted.
    pub fn tally(&self) -> (t: Tally)
        requires
            spec_slot_count(self.identities@) <= u64::MAX,
        ensures
            (t.ran as nat, t.succeeded as nat, t.failed as nat, t.timed_out as nat) == spec_tally(
                self.identities@,
            ),
    {
        let mut t = Tally { ran: 0, succeeded: 0, failed: 0, timed_out: 0 };
        let ghost all = self.identities@;
        let mut i: usize = 0;
        while i < self.identities.len()
            invariant
                i <= all.len(),
                all == self.identities@,
                spec_slot_count(all) <= u64::MAX,
                (t.ran as nat, t.succeeded as nat, t.failed as nat, t.timed_out as nat) == spec_tally(
                    all.take(i as int),
                ),
            decreases self.identities.len() - i,
        {
            proof {
                assert(all.take(i + 1).drop_last() =~= all.take(i as int));
                lemma_tally_bounded(all.take(i as int));
                lemma_slot_count_grows(all, i + 1);
            }
            match &self.identities[i].outcome {
                IdentityOutcome::Slots(slots) => {
                    t = slot_tally(slots, t, Ghost(spec_slot_count(all)));
                },
                _ => {},
            }
            i = i + 1;
        }
        proof {
            assert(all.take(all.len() as int) =~= all);
        }
        t
    }

    /// Whether every command the pass ran succeeded, which nothing having run
    /// counts as.
    pub fn every_command_succeeded(&self) -> (b: bool)
        requires
            spec_slot_count(self.identities@) <= u64::MAX,
        ensures
            b == (spec_tally(self.identities@).2 == 0 && spec_tally(self.identities@).3 == 0),
    {
        let t = self.tally();
        t.failed == 0 && t.timed_out == 0
    }
}

/// The exit code a maintenance pass reports: `0` when nothing ran or every command
/// succeeded, `1` when any failed or timed out.
pub fn maintain_exit_code(report: &MaintainReport) -> (code: u8)
    requires
        spec_slot_count(report.identities@) <= u64::MAX,
    ensures
        code == (if spec_tally(report.identities@).2 == 0 && spec_tally(report.identities@).3 == 0 {
            0u8
        } else {
            1u8
        }),
{
    if report.every_command_succeeded() {
        0
    } else {
        1
    }
}

/// The lines one identity contributes to the maintain report.
pub open spec fn spec_identity_lines(i: IdentityMaintained) -> Seq<Seq<char>> {
    match i.outcome {
        IdentityOutcome::NoMaintainCommand => seq![i.identity@ + " — no maintain command"@],
        IdentityOutcome::NoSlots => seq![i.identity@ + " — no slots"@],
        IdentityOutcome::Claimed { by_pid } => seq![
            i.identity@ + " — claimed: another pool maintain (pid "@ + text::spec_decimal(by_pid as nat)
                + ") is maintaining it right now"@,
        ],
        IdentityOutcome::Slots(slots) => seq![i.identity@ + ":"@] + slots@.map_values(
            |s: SlotMaintained| "  slot "@ + text::spec_decimal(s.number as nat) + " — "@
                + spec_slot_outcome(s.outcome),
        ),
    }
}

/// Every identity's lines, in order.
pub open spec fn spec_identities_lines(identities: Seq<IdentityMaintained>) -> Seq<Seq<char>>
    decreases identities.len(),
{
    if identities.len() == 0 {
        seq![]
    } else {
        spec_identities_lines(identities.drop_last()) + spec_identity_lines(identities.last())
    }
}

/// The maintain report's opening line: what ran, how each ended, over how many
/// identities, and which slots were passed over as recently maintained.
pub open spec fn spec_maintain_summary(
    identities: Seq<IdentityMaintained>,
    older_than: Option<Seq<char>>,
) -> Seq<char> {
    let t = spec_tally(identities);
    "onevcs pool maintain: ran "@ + text::spec_decimal(t.0) + " command(s) — "@ + text::spec_decimal(
        t.1,
    ) + " succeeded, "@ + text::spec_decimal(t.2) + " failed, "@ + text::spec_decimal(t.3)
        + " timed out — over "@ + text::spec_decimal(identities.len()) + " identity(ies)"@
        + match older_than {
        Some(span) => ", skipping slots maintained within "@ + span,
        None => seq![],
    } + "."@
}

fn identity_lines(lines: &mut Vec<String>, i: &IdentityMaintained)
    ensures
        views(final(lines)@) == views(old(lines)@) + spec_identity_lines(*i),
{
    match &i.outcome {
        IdentityOutcome::NoMaintainCommand => {
            push_line(lines, text::concat(&i.identity, " — no maintain command"));
        },
        IdentityOutcome::NoSlots => {
            push_line(lines, text::concat(&i.identity, " — no slots"));
        },
        IdentityOutcome::Claimed { by_pid } => {
            let mut line = text::concat3(
                &i.identity,
                " — claimed: another pool maintain (pid ",
                &text::decimal(*by_pid as u64),
            );
            line.append(") is maintaining it right now");
            push_line(lines, line);
        },
        IdentityOutcome::Slots(slots) => {
            let ghost start = views(lines@);
            push_line(lines, text::concat(&i.identity, ":"));
            let mut k: usize = 0;
            while k < slots.len()
                invariant
                    k <= slots@.len(),
                    views(lines@) == start + seq![i.identity@ + ":"@] + slots@.take(k as int).map_values(
                        |s: SlotMaintained| "  slot "@ + text::spec_decimal(s.number as nat) + " — "@
                            + spec_slot_outcome(s.outcome),
                    ),
                decreases slots.len() - k,
            {
                let mut line = text::concat3("  slot ", &text::decimal(slots[k].number as u64), " — ");
                line.append(&describe_slot_outcome(&slots[k].outcome));
                push_line(lines, line);
                proof {
                    assert(slots@.take(k + 1) =~= slots@.take(k as int).push(slots@[k as int]));
                    assert(views(lines@) =~= start + seq![i.identity@ + ":"@] + slots@.take(k + 1).map_values(
                        |s: SlotMaintained| "  slot "@ + text::spec_decimal(s.number as nat) + " — "@
                            + spec_slot_outcome(s.outcome),
                    ));
                }
                k = k + 1;
            }
            proof {
                assert(slots@.take(slots@.len() as int) =~= slots@);
            }
        },
    }
}

impl MaintainReport {
    /// The report `pool maintain` prints: the summary, then each identity with what
    /// the pass did in each of its slots. `older_than` is the span recently
    /// maintained slots were passed over within, as the command was given it.
    pub fn render(&self, older_than: Option<&str>) -> (out: Vec<String>)
        requires
            spec_slot_count(self.identities@) <= u64::MAX,
        ensures
            views(out@) == seq![spec_maintain_summary(self.identities@, text::opt_str_view(older_than))]
                + spec_identities_lines(self.identities@),
    {
        let t = self.tally();
        let mut summary = text::concat3("onevcs pool maintain: ran ", &text::decimal(t.ran), " command(s) — ");
        summary.append(&text::decimal(t.succeeded));
        summary.append(" succeeded, ");
        summary.append(&text::decimal(t.failed));
        summary.append(" failed, ");
        summary.append(&text::decimal(t.timed_out));
        summary.append(" timed out — over ");
        summary.append(&text::decimal(self.identities.len() as u64));
        summary.append(" identity(ies)");
        match older_than {
            Some(span) => {
                summary.append(", skipping slots maintained within ");
                summary.append(span);
            },
            None => {},
        }
        summary.append(".");
        proof {
            assert(summary@ =~= spec_maintain_summary(self.identities@, text::opt_str_view(older_than)));
        }
        let mut lines: Vec<String> = Vec::new();
        push_line(&mut lines, summary);
        proof {
            assert(views(lines@) =~= seq![spec_maintain_summary(self.identities@, text::opt_str_view(older_than))]);
        }
        let ghost head = views(lines@);
        let mut i: usize = 0;
        while i < self.identities.len()
            invariant
                i <= self.identities@.len(),
                views(lines@) == head + spec_identities_lines(self.identities@.take(i as int)),
            decreases self.identities.len() - i,
        {
            identity_lines(&mut lines, &self.identities[i]);
            proof {
                assert(self.identities@.take(i + 1).drop_last() =~= self.identities@.take(i as int));
                assert(views(lines@) =~= head + spec_identities_lines(self.identities@.take(i + 1)));
            }
            i = i + 1;
        }
        proof {
            assert(self.identities@.take(self.identities@.len() as int) =~= self.identities@);
            assert(spec_identities_lines(self.identities@.take(self.identities@.len() as int))
                == spec_identities_lines(self.identities@));
        }
        lines
    }
}

} // verus!
