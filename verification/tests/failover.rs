use cathedral::failover::{
    decide_acquire, is_leader_at, renewal, AcquireDecision, FailoverConfig, Lease, Migration, MigrationStep,
};

fn lease(holder: &str, expires_at: i64, version: u64) -> Lease {
    Lease { holder: holder.to_string(), expires_at, version }
}

#[test]
fn failover_defaults() {
    let c = FailoverConfig::default();
    assert_eq!(c.heartbeat_interval_secs, 5);
    assert_eq!(c.lease_duration_secs, 15);
    assert_eq!(c.election_timeout_secs, 10);
    assert_eq!(c.migration_batch_size, 1000);
    assert_eq!(c.max_migration_retries, 3);
}

#[test]
fn lease_expiry_and_renewal() {
    let mut l = Lease::new_at("n1", 15, 100);
    assert_eq!((l.expires_at, l.version), (115, 0));
    assert!(!l.is_expired_at(115));
    assert!(l.is_expired_at(116));
    l.renew_at(15, 200);
    assert_eq!((l.expires_at, l.version), (215, 1));
    let fresh = Lease::new("n2", 15);
    assert!(!fresh.is_expired());
}

#[test]
fn acquiring_free_or_expired_lease() {
    match decide_acquire("n1", None, 0, 100, 100, 15) {
        AcquireDecision::Acquire(l) => assert_eq!((l.holder.as_str(), l.expires_at, l.version), ("n1", 115, 1)),
        _ => panic!("a free lease is taken"),
    }
    let old = lease("n2", 50, 4);
    match decide_acquire("n1", Some(&old), 4, 100, 100, 15) {
        AcquireDecision::Acquire(l) => assert_eq!(l.version, 5),
        _ => panic!("an expired lease is taken"),
    }
}

#[test]
fn held_lease_and_stale_read_refused() {
    let live = lease("n2", 500, 4);
    assert!(matches!(decide_acquire("n1", Some(&live), 4, 100, 100, 15), AcquireDecision::Held));
    let old = lease("n2", 50, 4);
    assert!(matches!(decide_acquire("n1", Some(&old), 5, 100, 100, 15), AcquireDecision::VersionConflict));
    assert!(matches!(decide_acquire("n1", None, 1, 100, 100, 15), AcquireDecision::VersionConflict));
}

#[test]
fn leadership_needs_own_live_lease() {
    let l = lease("n1", 200, 3);
    assert!(is_leader_at(Some(&l), "n1", 150));
    assert!(!is_leader_at(Some(&l), "n2", 150));
    assert!(!is_leader_at(Some(&l), "n1", 201));
    assert!(!is_leader_at(None, "n1", 0));
}

#[test]
fn renewal_needs_unchanged_version() {
    let l = lease("n1", 200, 3);
    let r = renewal(&l, 3, 190, 15).unwrap();
    assert_eq!((r.holder.as_str(), r.version, r.expires_at), ("n1", 4, 205));
    assert!(renewal(&l, 4, 190, 15).is_none());
}

#[test]
fn migration_of_empty_or_absent_shard_finishes() {
    let config = FailoverConfig::default();
    let (_, step) = Migration::start(1, None, &config);
    assert_eq!(step, MigrationStep::Finished { migrated: 0 });
    let (_, step) = Migration::start(1, Some(0), &config);
    assert_eq!(step, MigrationStep::Finished { migrated: 0 });
}

#[test]
fn migration_copies_in_batches() {
    let mut config = FailoverConfig::default();
    config.migration_batch_size = 2;
    let (mut m, step) = Migration::start(7, Some(3), &config);
    assert_eq!(step, MigrationStep::ReadEvents { offset: 0, limit: 2 });
    assert_eq!(m.on_events_read(2), MigrationStep::AppendBatch { delay_secs: 0 });
    assert_eq!(m.on_append(true), MigrationStep::ReadEvents { offset: 2, limit: 2 });
    assert_eq!(m.on_events_read(1), MigrationStep::AppendBatch { delay_secs: 0 });
    assert_eq!(m.on_append(true), MigrationStep::CopyMetadata);
    assert_eq!(m.on_metadata_copied(), MigrationStep::Finished { migrated: 3 });
}

#[test]
fn migration_stops_early_on_empty_read() {
    let config = FailoverConfig::default();
    let (mut m, _) = Migration::start(7, Some(5000), &config);
    assert_eq!(m.on_events_read(0), MigrationStep::CopyMetadata);
    assert_eq!(m.on_metadata_copied(), MigrationStep::Finished { migrated: 0 });
}

#[test]
fn migration_retries_then_fails() {
    let config = FailoverConfig::default();
    let (mut m, _) = Migration::start(7, Some(10), &config);
    m.on_events_read(10);
    assert_eq!(m.on_append(false), MigrationStep::AppendBatch { delay_secs: 2 });
    assert_eq!(m.on_append(false), MigrationStep::AppendBatch { delay_secs: 4 });
    assert_eq!(m.on_append(false), MigrationStep::Failed { attempts: 3 });
}

#[test]
fn migration_recovers_after_a_failed_append() {
    let config = FailoverConfig::default();
    let (mut m, _) = Migration::start(7, Some(10), &config);
    m.on_events_read(10);
    assert_eq!(m.on_append(false), MigrationStep::AppendBatch { delay_secs: 2 });
    assert_eq!(m.on_append(true), MigrationStep::CopyMetadata);
    assert_eq!(m.migrated, 10);
}

#[test]
fn migration_without_attempts_skips_writing() {
    let mut config = FailoverConfig::default();
    config.max_migration_retries = 0;
    let (mut m, _) = Migration::start(7, Some(4), &config);
    assert_eq!(m.on_events_read(4), MigrationStep::CopyMetadata);
    assert_eq!(m.offset, 4);
}

#[test]
fn held_lease_and_mismatch_refused_for_any_duration() {
    let held = lease("n2", 500, u64::MAX);
    assert!(matches!(decide_acquire("n1", Some(&held), 7, 100, i64::MAX, u64::MAX), AcquireDecision::Held));
    assert!(renewal(&held, 7, i64::MAX, u64::MAX).is_none());
    match decide_acquire("n1", None, 0, 100, 100, 8_000_000_000_000) {
        AcquireDecision::Acquire(l) => assert_eq!(l.expires_at, 8_000_000_000_100),
        _ => panic!("a free lease is taken"),
    }
}
