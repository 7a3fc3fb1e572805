//! The Connection Pool Acquisition state machine: per model type and per
//! role, a lazily resolved pool handle gated by table creation, schema
//! synchronization and index creation, published exactly once.
//!
//! A pool handle is modelled by its registry identifier; all callers that
//! read the same identifier out of the cell share one live pool, so
//! identifier equality models reference equality of the handle. The
//! asynchronous DDL itself is an outside effect; its outcome is handed in
//! as a value, and the machine is verified for every outcome. Both roles
//! follow one policy: any failed step marks the pool unavailable and
//! caches nothing.

use vstd::prelude::*;

verus! {

/// The role a pool is resolved for: models read/write splitting.
#[derive(Clone, Copy, Debug, PartialEq, Eq, Structural)]
pub enum PoolRole {
    Reader,
    Writer,
}

/// A connection pool as the registry hands it out: its identifier and
/// its availability flag. The flag only ever transitions from `true` to
/// `false`, or is read.
pub struct ConnectionPool {
    pub id: u64,
    pub available: bool,
}

impl ConnectionPool {
    /// Stores the availability flag.
    pub fn store_availability(&mut self, available: bool)
        ensures
            final(self).id == old(self).id,
            final(self).available == available,
    {
        self.available = available;
    }
}

/// The publish-once cell of one (model type, role) pair: accepts the
/// first successful write and makes all later writes no-ops, returning
/// the originally published handle to every reader.
pub struct PoolCell {
    pub slot: Option<u64>,
}

/// The cell after a publish attempt: the first write fills the empty
/// cell; any later write leaves it unchanged.
pub open spec fn spec_publish(slot: Option<u64>, id: u64) -> Option<u64> {
    match slot {
        None => Some(id),
        Some(h) => Some(h),
    }
}

/// The handle a publish attempt hands back: the published one when the
/// cell was empty, the already-published one otherwise.
pub open spec fn spec_publish_result(slot: Option<u64>, id: u64) -> u64 {
    match slot {
        None => id,
        Some(h) => h,
    }
}

impl PoolCell {
    /// A fresh, unresolved cell.
    pub fn new() -> (r: PoolCell)
        ensures
            r.slot is None,
    {
        PoolCell { slot: None }
    }

    /// The cached handle, if one has been published.
    pub fn get(&self) -> (r: Option<u64>)
        ensures
            r == self.slot,
    {
        self.slot
    }

    /// Publishes a handle: the first successful write wins; a later
    /// write discards its own handle and hands back the published one.
    pub fn set_once(&mut self, id: u64) -> (r: u64)
        ensures
            final(self).slot == spec_publish(old(self).slot, id),
            r == spec_publish_result(old(self).slot, id),
    {
        match self.slot {
            Some(h) => h,
            None => {
                self.slot = Some(id);
                id
            },
        }
    }
}

/// The preparation steps run, in order, before a pool is first used.
#[derive(Clone, Copy, Debug, PartialEq, Eq, Structural)]
pub enum DdlStep {
    CreateTable,
    SynchronizeSchema,
    CreateIndexes,
}

/// What the create/sync/index sequence reported.
pub enum DdlOutcome {
    Success,
    Failed(DdlStep, String),
}

/// The service-unavailable condition a failed acquisition surfaces:
/// the model, the role, and the underlying cause.
#[derive(Debug)]
pub struct AcquireError {
    pub model_name: String,
    pub role: PoolRole,
    pub cause: String,
}

impl AcquireError {
    /// The rendered error message, naming the role, the model and the
    /// underlying cause.
    pub fn message(&self) -> (r: String)
        ensures
            r@ == "503 Service Unavailable: fail to acquire "@ + (if self.role
                == PoolRole::Reader {
                "reader"@
            } else {
                "writer"@
            }) + " for the model `"@ + self.model_name@ + "`: "@ + self.cause@,
    {
        let mut message = String::from_str("503 Service Unavailable: fail to acquire ");
        match self.role {
            PoolRole::Reader => message.append("reader"),
            PoolRole::Writer => message.append("writer"),
        }
        message.append(" for the model `");
        message.append(self.model_name.as_str());
        message.append("`: ");
        message.append(self.cause.as_str());
        message
    }
}

/// What `acquire` decides before any I/O: hand out the cached handle,
/// or run the full create/sync/index sequence.
pub enum AcquireDecision {
    Cached(u64),
    Initialize,
}

/// The first step of `acquire`: a resolved cell answers from the cache
/// with no I/O; otherwise the caller must run the preparation sequence.
pub fn acquire_decision(cell: &PoolCell) -> (r: AcquireDecision)
    ensures
        match r {
            AcquireDecision::Cached(h) => cell.slot == Some(h),
            AcquireDecision::Initialize => cell.slot is None,
        },
{
    match cell.get() {
        Some(h) => AcquireDecision::Cached(h),
        None => AcquireDecision::Initialize,
    }
}

/// Completes an acquisition attempt once the preparation sequence has reported
/// its outcome. On any failure the pool is marked unavailable, nothing
/// is cached — so the next caller retries the full sequence — and the
/// attempt fails with the service-unavailable error naming the model,
/// the role and the cause. On success the handle is published once: a
/// concurrent attempt that finds the cell already filled discards its
/// own handle and returns the published one.
pub fn complete_acquisition(
    cell: &mut PoolCell,
    pool: &mut ConnectionPool,
    model_name: &str,
    role: PoolRole,
    outcome: &DdlOutcome,
) -> (r: Result<u64, AcquireError>)
    ensures
        match outcome {
            DdlOutcome::Success => {
                &&& final(cell).slot == spec_publish(old(cell).slot, old(pool).id)
                &&& *final(pool) == *old(pool)
                &&& r == Ok::<u64, AcquireError>(
                    spec_publish_result(old(cell).slot, old(pool).id),
                )
            },
            DdlOutcome::Failed(_, cause) => {
                &&& *final(cell) == *old(cell)
                &&& final(pool).id == old(pool).id
                &&& final(pool).available == false
                &&& r matches Err(e) && e.model_name@ == model_name@ && e.role == role
                    && e.cause@ == cause@
            },
        },
{
    match outcome {
        DdlOutcome::Success => {
            let h = cell.set_once(pool.id);
            Ok(h)
        },
        DdlOutcome::Failed(_, cause) => {
            pool.store_availability(false);
            Err(
                AcquireError { model_name: model_name.to_owned(), role, cause: cause.clone() },
            )
        },
    }
}

/// The cell after a sequence of successful publishes, starting empty.
pub open spec fn spec_publish_all(ids: Seq<u64>) -> Option<u64>
    decreases ids.len(),
{
    if ids.len() == 0 {
        None
    } else {
        spec_publish(spec_publish_all(ids.drop_last()), ids.last())
    }
}

/// Publish-once: whatever handles a crowd of concurrent attempts carry,
/// the cell ends up holding the first one published, and every attempt
/// — however late in the race — is handed that same first handle, so
/// all callers converge on one shared pool.
pub proof fn lemma_publish_once(ids: Seq<u64>)
    requires
        ids.len() > 0,
    ensures
        spec_publish_all(ids) == Some(ids[0]),
        forall|i: int|
            0 <= i < ids.len() ==> spec_publish_result(
                spec_publish_all(#[trigger] ids.take(i)),
                ids[i],
            ) == ids[0],
    decreases ids.len(),
{
    if ids.len() == 1 {
        assert(ids.take(0) =~= Seq::<u64>::empty());
    } else {
        lemma_publish_once(ids.drop_last());
        assert(ids.drop_last()[0] == ids[0]);
        assert forall|i: int|
            0 <= i < ids.len() implies spec_publish_result(
            spec_publish_all(#[trigger] ids.take(i)),
            ids[i],
        ) == ids[0] by {
            if i < ids.len() - 1 {
                assert(ids.take(i) =~= ids.drop_last().take(i));
                assert(ids.drop_last()[i] == ids[i]);
            } else {
                assert(ids.take(i) =~= ids.drop_last());
            }
        }
    }
}

} // verus!
