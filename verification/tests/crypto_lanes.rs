use smb::runtime::cmac_batcher::{batch_results, should_batch, BatchError, CmacBatcher, CMAC_LANES};
use smb::runtime::crypto_executor::{recommended_parallelism, BoundedCryptoExecutor};

#[test]
fn ready_jobs_with_one_key_are_signed_together() {
    let mut batcher = CmacBatcher::new();
    let leads: Vec<bool> = (0..CMAC_LANES as u64)
        .map(|job| batcher.enter(job, Some(5)).unwrap())
        .collect();
    assert_eq!(leads, vec![true, false, false, false]);
    let batch = batcher.next_batch();
    assert_eq!(
        batch.iter().map(|job| job.job_id).collect::<Vec<_>>(),
        vec![0, 1, 2, 3]
    );
    assert!(batcher.next_batch().is_empty());
    assert_eq!(batcher.enter(9, Some(5)), Ok(true));
}

#[test]
fn different_session_groups_use_their_own_keys() {
    let mut batcher = CmacBatcher::new();
    let _ = batcher.enter(1, Some(11));
    let _ = batcher.enter(2, Some(22));
    let _ = batcher.enter(3, Some(11));
    let first = batcher.next_batch();
    assert!(first.iter().all(|job| job.key_id == 11));
    let second = batcher.next_batch();
    assert!(second.iter().all(|job| job.key_id == 22));
    assert_eq!(first.len() + second.len(), 3);
}

#[test]
fn cancelled_leader_releases_the_queue_for_the_next_job() {
    let mut batcher = CmacBatcher::new();
    assert_eq!(batcher.enter(1, Some(4)), Ok(true));
    let abandoned = batcher.abandon();
    assert_eq!(abandoned.len(), 1);
    assert_eq!(batcher.enter(2, Some(4)), Ok(true));
    assert_eq!(batcher.next_batch().len(), 1);
}

#[test]
fn only_middling_messages_are_batched() {
    assert!(!should_batch(1023));
    assert!(should_batch(1024));
    assert!(should_batch(65_535));
    assert!(!should_batch(65_536));
    assert_eq!(
        CmacBatcher::new().enter(1, None),
        Err(BatchError::NotBatchable)
    );
}

#[test]
fn batches_need_one_signature_each() {
    assert_eq!(batch_results(2, Some(vec![7, 8])), Ok(vec![7, 8]));
    assert_eq!(batch_results(2, None), Err(BatchError::CalculationFailed));
}

#[test]
fn executor_never_starts_more_jobs_than_its_parallelism() {
    let mut executor = BoundedCryptoExecutor::new(2);
    assert!(executor.acquire());
    assert!(executor.acquire());
    assert!(!executor.acquire());
    executor.release();
    assert!(executor.acquire());
}

#[test]
fn small_jobs_stay_inline_when_large_job_permits_are_busy() {
    let mut executor = BoundedCryptoExecutor::new(1);
    assert!(executor.should_offload(usize::MAX));
    assert!(executor.acquire());
    assert!(!executor.should_offload(1));
    assert!(!executor.acquire());
}

#[test]
fn parallelism_is_bounded() {
    let recommended: Vec<usize> = [None, Some(1), Some(2), Some(3), Some(64)]
        .into_iter()
        .map(recommended_parallelism)
        .collect();
    assert!(recommended.iter().all(|lanes| (1..5).contains(lanes)));
    assert_eq!(recommended[4], 4);
}
