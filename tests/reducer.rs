use dubhe_indexer::args::{DubheIndexerArgs, InvalidNetwork};
use dubhe_indexer::reducer::CheckpointReducer;

/// Drives a batching reducer over the given chunks with a closing policy,
/// returning the commits (batch, watermark) in order.
fn run(
    start: u64,
    chunks: Vec<Vec<(u64, u64)>>,
    policy: impl Fn(&[u64], Option<&u64>) -> bool,
) -> (Vec<(Vec<u64>, u64)>, Vec<u64>) {
    let mut r: CheckpointReducer<u64> = CheckpointReducer::new(start, true);
    let mut commits = Vec::new();
    let mut order = Vec::new();
    for chunk in chunks {
        r.absorb(chunk);
        while r.take_ready() {
            let item = *r.pending().unwrap();
            order.push(item);
            let close = policy(r.batch(), Some(&item));
            if let Some(c) = r.place(close) {
                commits.push(c);
            }
        }
        let close = policy(r.batch(), None);
        if let Some(c) = r.close_batch(close) {
            commits.push(c);
        }
    }
    (commits, order)
}

#[test]
fn out_of_order_arrival_is_taken_in_order() {
    let chunks = vec![vec![(12, 112), (10, 110)], vec![(13, 113)], vec![(11, 111), (14, 114)]];
    let (commits, order) = run(10, chunks, |_, _| false);
    assert_eq!(order, vec![110, 111, 112, 113, 114]);
    assert!(commits.is_empty());
}

#[test]
fn single_item_policy_commits_each_checkpoint() {
    let chunks = vec![vec![(3, 30), (1, 10), (0, 0), (4, 40), (2, 20)]];
    let (commits, _) = run(0, chunks, |batch, _| batch.len() >= 1);
    assert_eq!(
        commits,
        vec![(vec![0], 1), (vec![10], 2), (vec![20], 3), (vec![30], 4), (vec![40], 5)]
    );
}

#[test]
fn closing_with_no_next_item_commits_up_to_current() {
    let chunks = vec![vec![(5, 50), (6, 60)], vec![(8, 80)], vec![(7, 70)]];
    let (commits, _) = run(5, chunks, |batch, next| next.is_none() && batch.len() >= 2);
    assert_eq!(commits, vec![(vec![50, 60], 7), (vec![70, 80], 9)]);
}

#[test]
fn open_batch_is_not_flushed_at_end() {
    let (commits, order) = run(0, vec![vec![(0, 1), (1, 2)]], |_, _| false);
    assert_eq!(order, vec![1, 2]);
    assert!(commits.is_empty());
}

#[test]
fn gap_holds_later_checkpoints_back() {
    let mut r: CheckpointReducer<u64> = CheckpointReducer::new(0, true);
    r.absorb(vec![(1, 1), (2, 2)]);
    assert!(!r.take_ready());
    assert_eq!(r.current_checkpoint_number(), 0);
    r.absorb(vec![(0, 0)]);
    assert!(r.take_ready());
    assert_eq!(r.current_checkpoint_number(), 1);
}

#[test]
fn without_batching_each_checkpoint_advances_the_watermark() {
    let mut r: CheckpointReducer<&str> = CheckpointReducer::new(3, false);
    r.absorb(vec![(4, "b"), (3, "a")]);
    let mut marks = Vec::new();
    while r.take_ready() {
        assert!(r.pending().is_none());
        marks.push(r.current_checkpoint_number());
    }
    assert_eq!(marks, vec![4, 5]);
    assert!(r.batch().is_empty());
    assert_eq!(r.close_batch(true), None);
}

#[test]
fn later_duplicate_replaces_earlier() {
    let mut r: CheckpointReducer<u64> = CheckpointReducer::new(0, true);
    r.absorb(vec![(0, 1), (0, 2)]);
    assert!(r.take_ready());
    assert_eq!(r.pending(), Some(&2));
}

fn args(start: u64, network: &str) -> DubheIndexerArgs {
    DubheIndexerArgs {
        config_json: "dubhe.config.json".to_string(),
        worker_pool_number: 1,
        start_checkpoint: start,
        force: false,
        network: network.to_string(),
        with_graphql: false,
    }
}

#[test]
fn start_checkpoint_choice() {
    assert_eq!(args(0, "localnet").get_start_checkpoint(900), 900);
    assert_eq!(args(42, "localnet").get_start_checkpoint(900), 42);
}

#[test]
fn checkpoint_store_per_network() {
    assert_eq!(args(0, "localnet").checkpoint_store_url(), Ok(None));
    assert_eq!(
        args(0, "testnet").checkpoint_store_url(),
        Ok(Some("https://checkpoints.testnet.sui.io".to_string()))
    );
    assert_eq!(
        args(0, "mainnet").checkpoint_store_url(),
        Ok(Some("https://checkpoints.mainnet.sui.io".to_string()))
    );
    assert_eq!(
        args(0, "devnet").checkpoint_store_url(),
        Err(InvalidNetwork { network: "devnet".to_string() })
    );
}
