use ecp5::device::Ecp5;
use ecp5::errors::FpgaError;
use ecp5::server::FpgaServer;
use ecp5::server::SessionLock;
use ecp5::server::TaskId;
use ecp5::sim::SimDevice;

const A: TaskId = TaskId { index: 4, generation: 0 };
const B: TaskId = TaskId { index: 9, generation: 2 };

#[test]
fn release_with_no_holder_fails_not_locked() {
    let mut lock = SessionLock::new();
    assert_eq!(lock.release(A), Err(FpgaError::NotLocked));
    assert_eq!(lock.holder(), None);
}

#[test]
fn lock_records_the_caller_and_is_idempotent() {
    let mut lock = SessionLock::new();
    assert_eq!(lock.lock(A), Ok(()));
    assert_eq!(lock.holder(), Some(A));
    assert_eq!(lock.lock(A), Ok(()));
    assert_eq!(lock.holder(), Some(A));
    assert_eq!(lock.release(A), Ok(()));
    assert_eq!(lock.holder(), None);
}

#[test]
fn forced_clear_on_holder_death_lets_another_caller_in() {
    let mut lock = SessionLock::new();
    assert_eq!(lock.lock(A), Ok(()));
    // The transport reports that A terminated; no release ever arrives.
    lock.force_clear();
    assert_eq!(lock.holder(), None);
    assert_eq!(lock.lock(B), Ok(()));
    assert_eq!(lock.holder(), Some(B));
}

#[test]
fn server_session_follows_the_same_rules() {
    let mut server = FpgaServer::new(Ecp5::new(SimDevice::new(0)));
    assert_eq!(server.release(A), Err(FpgaError::NotLocked));
    assert_eq!(server.lock(A), Ok(()));
    server.closed_recv_fail();
    assert_eq!(server.lock(B), Ok(()));
    assert_eq!(server.release(B), Ok(()));
    assert_eq!(server.release(B), Err(FpgaError::NotLocked));
}

#[test]
fn a_restarted_caller_is_a_different_identity() {
    let first = TaskId { index: 4, generation: 0 };
    let restarted = TaskId { index: 4, generation: 1 };
    assert_ne!(first, restarted);
}
