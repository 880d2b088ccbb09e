use graph_core::pump::{BlockOutcome, DeploymentStore, PumpError};
use graph_core::store::BlockPtr;

fn ptr(n: i32) -> BlockPtr {
    BlockPtr { hash: vec![n as u8; 32], number: n }
}

#[test]
fn successful_block_advances_head() {
    let mut s = DeploymentStore::new();
    assert_eq!(s.commit_block(ptr(1), &vec![1, 2], BlockOutcome::Processed), Ok(()));
    assert_eq!(s.head, Some(ptr(1)));
    assert_eq!(s.visible_vids(), vec![1, 2]);
}

#[test]
fn failed_block_keeps_head() {
    let mut s = DeploymentStore::new();
    s.commit_block(ptr(1), &vec![1], BlockOutcome::Processed).unwrap();
    assert_eq!(
        s.commit_block(ptr(2), &vec![2], BlockOutcome::DeterministicFailure),
        Err(PumpError::DeterministicFailure)
    );
    assert_eq!(
        s.commit_block(ptr(2), &vec![2], BlockOutcome::NonDeterministicFailure),
        Err(PumpError::NonDeterministicFailure)
    );
    assert_eq!(s.head, Some(ptr(1)));
    assert_eq!(s.visible_vids(), vec![1]);
    assert_eq!(
        s.commit_block(ptr(1), &vec![3], BlockOutcome::Processed),
        Err(PumpError::OutOfOrder)
    );
    assert_eq!(s.head, Some(ptr(1)));
}

#[test]
fn reorg_rewinds_to_common_ancestor() {
    let mut s = DeploymentStore::new();
    for b in 1..=10 {
        s.commit_block(ptr(b), &vec![b as i64 * 10], BlockOutcome::Processed).unwrap();
    }
    assert_eq!(s.head, Some(ptr(10)));
    s.revert_to(ptr(7));
    assert_eq!(s.head, Some(ptr(7)));
    assert_eq!(s.visible_vids(), vec![10, 20, 30, 40, 50, 60, 70]);
    assert_eq!(s.commit_block(ptr(8), &vec![81], BlockOutcome::Processed), Ok(()));
    assert_eq!(s.visible_vids(), vec![10, 20, 30, 40, 50, 60, 70, 81]);
}
