//! Leadership leases and the decisions of leader election: when a node may
//! take the lease, when a compare-and-swap on the stored lease version fails,
//! and how a held lease is renewed. Reading and writing the stored metadata
//! is left to the caller.

use vstd::prelude::*;
use crate::clock::{now_unix_secs, CLOCK_BOUND};
use crate::text::string_of;

verus! {

/// Timing and batching settings of failover.
pub struct FailoverConfig {
    pub heartbeat_interval_secs: u64,
    pub lease_duration_secs: u64,
    pub election_timeout_secs: u64,
    pub migration_batch_size: usize,
    pub max_migration_retries: u32,
}

impl Default for FailoverConfig {
    fn default() -> (c: Self)
        ensures
            c.heartbeat_interval_secs == 5,
            c.lease_duration_secs == 15,
            c.election_timeout_secs == 10,
            c.migration_batch_size == 1000,
            c.max_migration_retries == 3,
    {
        FailoverConfig {
            heartbeat_interval_secs: 5,
            lease_duration_secs: 15,
            election_timeout_secs: 10,
            migration_batch_size: 1000,
            max_migration_retries: 3,
        }
    }
}

/// A leadership lease: who holds it, until when (Unix seconds), and the
/// version under which it was written.
pub struct Lease {
    pub holder: String,
    pub expires_at: i64,
    pub version: u64,
}

impl Clone for Lease {
    fn clone(&self) -> (r: Self)
        ensures
            r == *self,
    {
        Lease { holder: self.holder.clone(), expires_at: self.expires_at, version: self.version }
    }
}

/// A lease has expired once the time is past its end.
pub open spec fn expired_at(lease: Lease, now: i64) -> bool {
    now > lease.expires_at
}

/// A node leads at `now` when it holds the lease and the lease has not
/// expired.
pub open spec fn leads(lease: Option<Lease>, node_id: Seq<char>, now: i64) -> bool {
    match lease {
        Some(l) => !expired_at(l, now) && l.holder@ == node_id,
        None => false,
    }
}

impl Lease {
    /// A fresh lease of version 0 for `holder`, ending `duration_secs` after
    /// `now`.
    pub fn new_at(holder: &str, duration_secs: u64, now: i64) -> (l: Lease)
        requires
            -CLOCK_BOUND < now,
            now + duration_secs < CLOCK_BOUND,
        ensures
            l.holder@ == holder@,
            l.expires_at == now + duration_secs,
            l.version == 0,
    {
        Lease { holder: string_of(holder), expires_at: now + duration_secs as i64, version: 0 }
    }

    /// A fresh lease of version 0 for `holder`, ending `duration_secs` after
    /// the current time.
    pub fn new(holder: &str, duration_secs: u64) -> (l: Lease)
        requires
            duration_secs < CLOCK_BOUND,
        ensures
            l.holder@ == holder@,
            l.version == 0,
            -CLOCK_BOUND + duration_secs < l.expires_at < CLOCK_BOUND + duration_secs,
    {
        let now = now_unix_secs();
        Lease { holder: string_of(holder), expires_at: now + duration_secs as i64, version: 0 }
    }

    /// Whether the lease has expired at `now`.
    pub fn is_expired_at(&self, now: i64) -> (r: bool)
        ensures
            r == expired_at(*self, now),
    {
        now > self.expires_at
    }

    /// Whether the lease has expired at the current time.
    pub fn is_expired(&self) -> (r: bool)
        ensures
            self.expires_at >= CLOCK_BOUND ==> !r,
            self.expires_at < -CLOCK_BOUND ==> r,
    {
        let now = now_unix_secs();
        self.is_expired_at(now)
    }

    /// Extends the lease to end `duration_secs` after `now` and bumps its
    /// version.
    pub fn renew_at(&mut self, duration_secs: u64, now: i64)
        requires
            -CLOCK_BOUND < now,
            now + duration_secs < CLOCK_BOUND,
            old(self).version < u64::MAX,
        ensures
            final(self).holder == old(self).holder,
            final(self).expires_at == now + duration_secs,
            final(self).version == old(self).version + 1,
    {
        self.expires_at = now + duration_secs as i64;
        self.version = self.version + 1;
    }

    /// Extends the lease to end `duration_secs` after the current time and
    /// bumps its version.
    pub fn renew(&mut self, duration_secs: u64)
        requires
            duration_secs < CLOCK_BOUND,
            old(self).version < u64::MAX,
        ensures
            final(self).holder == old(self).holder,
            final(self).version == old(self).version + 1,
            -CLOCK_BOUND + duration_secs < final(self).expires_at < CLOCK_BOUND + duration_secs,
    {
        let now = now_unix_secs();
        self.expires_at = now + duration_secs as i64;
        self.version = self.version + 1;
    }
}

/// What a node does after reading the stored lease in an attempt to lead.
pub enum AcquireDecision {
    /// Another node holds a lease that has not expired: leadership is not taken.
    Held,
    /// The stored version moved since the lease was read: the compare-and-swap
    /// fails and leadership is not taken.
    VersionConflict,
    /// The node writes this lease (and its version) and leads.
    Acquire(Lease),
}

/// Whether a node may try to take the lease it read at `now`: none is
/// stored, or the stored one has expired.
pub open spec fn may_take_lease(current: Option<Lease>, now: i64) -> bool {
    match current {
        Some(l) => expired_at(l, now),
        None => true,
    }
}

/// The version a new lease gets: one past the lease that was read, or 1.
pub open spec fn next_version(current: Option<Lease>) -> u64 {
    match current {
        Some(l) => (l.version + 1) as u64,
        None => 1,
    }
}

/// The decision of one attempt to take leadership. `current` is the lease
/// read from the stored metadata and `stored_version` the lease version read
/// back just before writing (0 when absent); `now_check` is the time at
/// which expiry is judged and `now_issue` the time from which a new lease
/// runs.
pub open spec fn acquire_spec(
    node_id: Seq<char>,
    current: Option<Lease>,
    stored_version: u64,
    now_check: i64,
    now_issue: i64,
    duration_secs: u64,
) -> Option<(Seq<char>, int, u64)> {
    let may_take = match current {
        Some(l) => expired_at(l, now_check),
        None => true,
    };
    let read_version: u64 = match current {
        Some(l) => l.version,
        None => 0,
    };
    if !may_take || stored_version != read_version {
        None
    } else {
        Some((node_id, now_issue + duration_secs, next_version(current)))
    }
}

/// Decides one attempt to take leadership; see `acquire_spec`.
pub fn decide_acquire(
    node_id: &str,
    current: Option<&Lease>,
    stored_version: u64,
    now_check: i64,
    now_issue: i64,
    duration_secs: u64,
) -> (d: AcquireDecision)
    requires
        may_take_lease(
            match current {
                Some(l) => Some(*l),
                None => None,
            },
            now_check,
        ) ==> {
            &&& -CLOCK_BOUND < now_issue
            &&& now_issue + duration_secs < CLOCK_BOUND
            &&& current matches Some(l) ==> l.version < u64::MAX
        },
    ensures
        ({
            let cur = match current {
                Some(l) => Some(*l),
                None => None,
            };
            let may_take = match cur {
                Some(l) => expired_at(l, now_check),
                None => true,
            };
            match d {
                AcquireDecision::Held => !may_take,
                AcquireDecision::VersionConflict => may_take && acquire_spec(
                    node_id@,
                    cur,
                    stored_version,
                    now_check,
                    now_issue,
                    duration_secs,
                ) is None,
                AcquireDecision::Acquire(l) => acquire_spec(
                    node_id@,
                    cur,
                    stored_version,
                    now_check,
                    now_issue,
                    duration_secs,
                ) == Some((l.holder@, l.expires_at as int, l.version)),
            }
        }),
{
    let may_take = match current {
        Some(l) => l.is_expired_at(now_check),
        None => true,
    };
    if !may_take {
        return AcquireDecision::Held;
    }
    let new_version = match current {
        Some(l) => l.version + 1,
        None => 1,
    };
    let read_version = match current {
        Some(l) => l.version,
        None => 0,
    };
    if stored_version != read_version {
        return AcquireDecision::VersionConflict;
    }
    AcquireDecision::Acquire(Lease {
        holder: string_of(node_id),
        expires_at: now_issue + duration_secs as i64,
        version: new_version,
    })
}

/// Whether `node_id` leads at `now` with its locally held lease.
pub fn is_leader_at(lease: Option<&Lease>, node_id: &str, now: i64) -> (r: bool)
    ensures
        r == leads(
            match lease {
                Some(l) => Some(*l),
                None => None,
            },
            node_id@,
            now,
        ),
{
    match lease {
        Some(l) => {
            let holder = string_of(node_id);
            !l.is_expired_at(now) && l.holder == holder
        },
        None => false,
    }
}

/// The renewal of a held lease during the heartbeat: if the stored version
/// still equals the lease's version, the lease is rewritten one version up,
/// running `duration_secs` from `now`; otherwise the compare-and-swap fails
/// and the lease is given up (`None`).
pub fn renewal(lease: &Lease, stored_version: u64, now: i64, duration_secs: u64) -> (r: Option<Lease>)
    requires
        stored_version == lease.version ==> {
            &&& lease.version < u64::MAX
            &&& -CLOCK_BOUND < now
            &&& now + duration_secs < CLOCK_BOUND
        },
    ensures
        stored_version != lease.version ==> r is None,
        stored_version == lease.version ==> (r matches Some(n) && n.holder == lease.holder
            && n.version == lease.version + 1 && n.expires_at == now + duration_secs),
{
    if stored_version != lease.version {
        return None;
    }
    Some(Lease {
        version: lease.version + 1,
        holder: lease.holder.clone(),
        expires_at: now + duration_secs as i64,
    })
}

/// A stale read cannot win: once some node has written a lease one version
/// past the lease another node read, that other node's attempt based on its
/// read fails.
pub proof fn lemma_stale_read_loses(
    node_id: Seq<char>,
    read: Lease,
    now_check: i64,
    now_issue: i64,
    duration_secs: u64,
)
    requires
        read.version < u64::MAX,
    ensures
        acquire_spec(node_id, Some(read), (read.version + 1) as u64, now_check, now_issue, duration_secs)
            is None,
{
}

/// A lease that has not expired keeps every other node out, whatever version
/// is stored.
pub proof fn lemma_live_lease_is_exclusive(
    node_id: Seq<char>,
    read: Lease,
    stored_version: u64,
    now_check: i64,
    now_issue: i64,
    duration_secs: u64,
)
    requires
        !expired_at(read, now_check),
    ensures
        acquire_spec(node_id, Some(read), stored_version, now_check, now_issue, duration_secs) is None,
{
}

/// A lease that a node has just taken makes it the leader for the whole
/// duration of the lease.
pub proof fn lemma_acquired_lease_leads(
    node_id: Seq<char>,
    current: Option<Lease>,
    stored_version: u64,
    now_check: i64,
    now_issue: i64,
    duration_secs: u64,
    holder: String,
    expires_at: i64,
    version: u64,
    t: i64,
)
    requires
        acquire_spec(node_id, current, stored_version, now_check, now_issue, duration_secs) == Some(
            (holder@, expires_at as int, version),
        ),
        now_issue <= t <= now_issue + duration_secs,
    ensures
        leads(Some(Lease { holder, expires_at, version }), node_id, t),
{
}

/// Every successful write of a lease, taking or renewing, raises the stored
/// version by one.
pub proof fn lemma_versions_rise(
    node_id: Seq<char>,
    read: Lease,
    now_check: i64,
    now_issue: i64,
    duration_secs: u64,
)
    requires
        read.version < u64::MAX,
        acquire_spec(node_id, Some(read), read.version, now_check, now_issue, duration_secs) is Some,
    ensures
        acquire_spec(node_id, Some(read), read.version, now_check, now_issue, duration_secs) == Some(
            (node_id, now_issue + duration_secs, (read.version + 1) as u64),
        ),
{
}

// ------------------------------------------------------------------
// Migrating a shard's data to another store
// ------------------------------------------------------------------

/// What a migration asks its driver to do next.
#[derive(PartialEq, Eq, Structural, Clone, Copy, Debug)]
pub enum MigrationStep {
    /// Read up to `limit` events of the shard from the source, from `offset`.
    ReadEvents { offset: u64, limit: u64 },
    /// Wait `delay_secs`, then append the batch just read to the target.
    AppendBatch { delay_secs: u64 },
    /// Copy the source's metadata of the shard to the target.
    CopyMetadata,
    /// The migration is complete: `migrated` events were copied.
    Finished { migrated: u64 },
    /// Appending one batch failed `attempts` times in a row; the migration
    /// stops with an error.
    Failed { attempts: u32 },
}

/// The state of a shard's migration: how many events the source holds, how
/// far the copy has come, and the batch being appended with its failed
/// attempts.
pub struct Migration {
    pub shard_id: u64,
    pub total_events: u64,
    pub batch_size: u64,
    pub max_retries: u32,
    pub offset: u64,
    pub migrated: u64,
    pub batch_len: u64,
    pub retries: u32,
}

impl Migration {
    /// Every event below `offset` has been copied, and no more: the next
    /// read starts right after the last event appended.
    pub open spec fn wf(&self) -> bool {
        self.migrated == self.offset
    }

    /// What follows once `n` more events are in the target: the next batch
    /// from the new offset while the source holds more, else the metadata.
    pub open spec fn after_batch(&self, n: u64) -> MigrationStep {
        if self.offset + n < self.total_events {
            MigrationStep::ReadEvents { offset: (self.offset + n) as u64, limit: self.batch_size }
        } else {
            MigrationStep::CopyMetadata
        }
    }

    /// Starts migrating a shard whose source metadata counts
    /// `source_event_count` events (`None` without metadata). An empty or
    /// absent shard is finished at once; otherwise the first batch is read.
    pub fn start(shard_id: u64, source_event_count: Option<u64>, config: &FailoverConfig) -> (r: (Migration, MigrationStep))
        ensures
            r.0.wf(),
            r.0.shard_id == shard_id,
            r.0.total_events == (match source_event_count { Some(c) => c, None => 0 }),
            r.0.batch_size == config.migration_batch_size,
            r.0.max_retries == config.max_migration_retries,
            r.0.offset == 0,
            r.1 == (if r.0.total_events == 0 {
                MigrationStep::Finished { migrated: 0 }
            } else {
                MigrationStep::ReadEvents { offset: 0, limit: r.0.batch_size }
            }),
    {
        let total_events = match source_event_count {
            Some(c) => c,
            None => 0,
        };
        let m = Migration {
            shard_id,
            total_events,
            batch_size: config.migration_batch_size as u64,
            max_retries: config.max_migration_retries,
            offset: 0,
            migrated: 0,
            batch_len: 0,
            retries: 0,
        };
        let step = if total_events == 0 {
            MigrationStep::Finished { migrated: 0 }
        } else {
            MigrationStep::ReadEvents { offset: 0, limit: m.batch_size }
        };
        (m, step)
    }

    fn advance(&mut self, n: u64) -> (step: MigrationStep)
        requires
            old(self).wf(),
            old(self).offset + n <= u64::MAX,
        ensures
            final(self).wf(),
            final(self).offset == old(self).offset + n,
            step == old(self).after_batch(n),
            final(self).shard_id == old(self).shard_id,
            final(self).total_events == old(self).total_events,
            final(self).batch_size == old(self).batch_size,
            final(self).max_retries == old(self).max_retries,
            final(self).batch_len == old(self).batch_len,
            final(self).retries == old(self).retries,
    {
        self.offset = self.offset + n;
        self.migrated = self.migrated + n;
        if self.offset < self.total_events {
            MigrationStep::ReadEvents { offset: self.offset, limit: self.batch_size }
        } else {
            MigrationStep::CopyMetadata
        }
    }

    /// The source answered a read with `count` events. None left means the
    /// copy is over and the metadata follows. Otherwise the batch is appended
    /// at once; with no attempts allowed it is passed over unwritten.
    pub fn on_events_read(&mut self, count: u64) -> (step: MigrationStep)
        requires
            old(self).wf(),
            old(self).offset + count <= u64::MAX,
        ensures
            final(self).wf(),
            count == 0 ==> step == MigrationStep::CopyMetadata && *final(self) == *old(self),
            count > 0 ==> final(self).batch_len == count && final(self).retries == 0,
            count > 0 && old(self).max_retries == 0 ==> step == old(self).after_batch(count)
                && final(self).offset == old(self).offset + count,
            count > 0 && old(self).max_retries > 0 ==> step == (MigrationStep::AppendBatch { delay_secs: 0 })
                && final(self).offset == old(self).offset,
            final(self).shard_id == old(self).shard_id,
            final(self).total_events == old(self).total_events,
            final(self).batch_size == old(self).batch_size,
            final(self).max_retries == old(self).max_retries,
    {
        if count == 0 {
            return MigrationStep::CopyMetadata;
        }
        self.batch_len = count;
        self.retries = 0;
        if self.max_retries == 0 {
            self.advance(count)
        } else {
            MigrationStep::AppendBatch { delay_secs: 0 }
        }
    }

    /// The target answered an append of the current batch. On success the
    /// copy moves past the batch. On failure the attempt is counted: after
    /// `max_retries` failures in a row the migration fails, else the batch
    /// is appended again after twice as many seconds as failures so far.
    pub fn on_append(&mut self, ok: bool) -> (step: MigrationStep)
        requires
            old(self).wf(),
            old(self).retries < old(self).max_retries,
            old(self).offset + old(self).batch_len <= u64::MAX,
        ensures
            final(self).wf(),
            ok ==> step == old(self).after_batch(old(self).batch_len)
                && final(self).offset == old(self).offset + old(self).batch_len
                && final(self).retries == old(self).retries,
            !ok ==> final(self).retries == old(self).retries + 1 && final(self).offset == old(self).offset,
            !ok && final(self).retries >= old(self).max_retries ==> step == (MigrationStep::Failed { attempts: final(self).retries }),
            !ok && final(self).retries < old(self).max_retries ==> step == (MigrationStep::AppendBatch {
                delay_secs: (2 * final(self).retries) as u64,
            }),
            step is Failed ==> step == (MigrationStep::Failed { attempts: old(self).max_retries }),
            final(self).shard_id == old(self).shard_id,
            final(self).total_events == old(self).total_events,
            final(self).batch_size == old(self).batch_size,
            final(self).max_retries == old(self).max_retries,
            final(self).batch_len == old(self).batch_len,
    {
        if ok {
            let n = self.batch_len;
            self.advance(n)
        } else {
            self.retries = self.retries + 1;
            if self.retries >= self.max_retries {
                MigrationStep::Failed { attempts: self.retries }
            } else {
                MigrationStep::AppendBatch { delay_secs: 2 * (self.retries as u64) }
            }
        }
    }

    /// The metadata reached the target: the migration is finished, with the
    /// number of events copied.
    pub fn on_metadata_copied(&self) -> (step: MigrationStep)
        ensures
            step == (MigrationStep::Finished { migrated: self.migrated }),
    {
        MigrationStep::Finished { migrated: self.migrated }
    }
}

} // verus!
