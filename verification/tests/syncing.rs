use nockchain_wallet::balance::{
    BalanceUpdate, NormalizeSnapshotError, NormalizedSnapshot, Note, SnapshotMetadata,
    SnapshotProblem,
};
use nockchain_wallet::digest::{Digest, Name};
use nockchain_wallet::error::WalletError;
use nockchain_wallet::noun::Noun;
use nockchain_wallet::sync::{
    BalanceRequest, FetchFailure, PeekFailure, PrivateBalanceSync, PublicBalanceSync, SyncStage,
};
use nockchain_wallet::wallet::Wallet;

fn digest(n: u64) -> Digest {
    Digest {
        limbs: [n, 0, 0, 0, 0],
        base58: format!("d{}", n),
    }
}

fn texts(items: &[&str]) -> Vec<String> {
    items.iter().map(|s| s.to_string()).collect()
}

fn page(first: u64) -> BalanceUpdate {
    BalanceUpdate {
        height: 5,
        block_id: digest(500),
        notes: vec![(
            Name::new(digest(first), digest(0)),
            Note::V1(Noun::number(first)),
        )],
    }
}

fn snapshot() -> NormalizedSnapshot<u8> {
    NormalizedSnapshot {
        metadata: SnapshotMetadata {
            height: 5,
            block_id: digest(500),
        },
        candidates: vec![1],
    }
}

fn problem(problem: SnapshotProblem) -> NormalizeSnapshotError {
    NormalizeSnapshotError {
        problem,
        text: "pages differ".to_string(),
    }
}

fn public(pubkeys: &[&str], first_names: &[&str]) -> PublicBalanceSync<u8> {
    Wallet::update_balance_grpc_public(texts(pubkeys), texts(first_names))
}

fn failure(sync: PublicBalanceSync<u8>) -> WalletError {
    match sync.into_stage() {
        SyncStage::Finished { result: Err(err) } => err,
        stage => panic!("not failed: {:?}", stage),
    }
}

#[test]
fn public_sync_of_nothing_is_done() {
    match public(&[], &[]).into_stage() {
        SyncStage::Finished { result: Ok(result) } => {
            assert!(result.pokes.is_empty());
            assert!(result.normalized_snapshot.is_none());
        }
        stage => panic!("not done: {:?}", stage),
    }
}

#[test]
fn public_sync_asks_once_in_order() {
    let mut sync = public(&["k2", "k1", "k2"], &["n10", "n1", "N1"]);
    let mut asked = vec![];
    while matches!(sync.stage(), SyncStage::FetchPage { .. }) {
        asked.push(sync.next_request());
        let first = asked.len() as u64;
        sync = sync.on_page(Ok(page(10 - first)));
    }
    assert_eq!(
        asked,
        vec![
            BalanceRequest::FirstName("N1".to_string()),
            BalanceRequest::FirstName("n1".to_string()),
            BalanceRequest::FirstName("n10".to_string()),
            BalanceRequest::Address("k1".to_string()),
            BalanceRequest::Address("k2".to_string()),
        ]
    );
    let sync = sync.on_normalized(Ok(snapshot()));
    match sync.stage() {
        SyncStage::EncodeBalance { merged, .. } => {
            let firsts: Vec<u64> = merged.notes.iter().map(|(n, _)| n.first.limbs[0]).collect();
            assert_eq!(firsts, vec![5, 6, 7, 8, 9]);
        }
        stage => panic!("not merged: {:?}", stage),
    }
    let result = sync.on_encoded(Noun::number(4));
    assert_eq!(
        result.pokes,
        vec![Wallet::update_balance_grpc_poke(Noun::number(4))]
    );
    assert_eq!(result.normalized_snapshot, Some(snapshot()));
}

#[test]
fn public_sync_reports_failed_pages() {
    let request = |words: &str| Err(FetchFailure::Request(words.to_string()));
    let parse = |words: &str| Err(FetchFailure::Parse(words.to_string()));
    assert_eq!(
        failure(public(&[], &["n"]).on_page(request("timeout"))),
        WalletError::OtherError(
            "Failed to request current balance for first name n: timeout".to_string()
        )
    );
    assert_eq!(
        failure(public(&[], &["n"]).on_page(parse("bad page"))),
        WalletError::OtherError(
            "Failed to parse balance update for first name n: bad page".to_string()
        )
    );
    assert_eq!(
        failure(public(&["k"], &[]).on_page(request("timeout"))),
        WalletError::OtherError(
            "Failed to request current balance for pubkey k: timeout".to_string()
        )
    );
    assert_eq!(
        failure(public(&["k"], &[]).on_page(parse("bad page"))),
        WalletError::OtherError(
            "Failed to parse balance update for pubkey k: bad page".to_string()
        )
    );
}

#[test]
fn drift_is_retried_twice() {
    let mut sync = public(&["k"], &[]);
    for kind in [
        SnapshotProblem::HeightDrift,
        SnapshotProblem::BlockIdDrift,
    ] {
        sync = sync.on_page(Ok(page(1))).on_normalized(Err(problem(kind)));
        assert!(matches!(sync.stage(), SyncStage::FetchPage { pages } if pages.is_empty()));
    }
    let sync = sync
        .on_page(Ok(page(1)))
        .on_normalized(Err(problem(SnapshotProblem::HeightDrift)));
    assert_eq!(
        failure(sync),
        WalletError::OtherError(
            "Failed to normalize fetched wallet balance pages into one snapshot: pages differ".to_string()
        )
    );
}

#[test]
fn other_problems_are_not_retried() {
    let sync = public(&["k"], &[])
        .on_page(Ok(page(1)))
        .on_normalized(Err(problem(SnapshotProblem::Other)));
    assert_eq!(
        failure(sync),
        WalletError::OtherError(
            "Failed to normalize fetched wallet balance pages into one snapshot: pages differ".to_string()
        )
    );
}

#[test]
fn private_sync_pokes_every_answer() {
    let path = |tag: &str, name: &str| Noun::list(vec![Noun::cord(tag), Noun::cord(name)]);
    let mut sync = Wallet::update_balance_grpc_private(texts(&["k", "k"]), texts(&["b", "a"]));
    let mut peeks = vec![];
    let answers = [Some(Some(Noun::number(1))), Some(None), None];
    for answer in answers {
        assert!(!sync.is_complete());
        peeks.push(sync.next_peek());
        sync = sync.on_payload(Ok(answer)).unwrap();
    }
    assert!(sync.is_complete());
    assert_eq!(
        peeks.iter().map(|p| p.index).collect::<Vec<_>>(),
        vec![0, 1, 2]
    );
    assert_eq!(
        peeks.into_iter().map(|p| p.path).collect::<Vec<_>>(),
        vec![
            path("balance-by-first-name", "a"),
            path("balance-by-first-name", "b"),
            path("balance-by-pubkey", "k"),
        ]
    );
    let result = sync.finish::<u8>();
    assert_eq!(
        result.pokes,
        vec![
            Wallet::update_balance_grpc_poke(Noun::number(1)),
            Wallet::update_balance_grpc_poke_from_payload(Some(None)),
            Wallet::update_balance_grpc_poke_from_payload(None),
        ]
    );
    assert!(result.normalized_snapshot.is_none());
}

#[test]
fn private_sync_reports_failures() {
    let start = |keys: &[&str], names: &[&str]| -> PrivateBalanceSync {
        Wallet::update_balance_grpc_private(texts(keys), texts(names))
    };
    let gone = || Err(PeekFailure::Peek("gone".to_string()));
    assert_eq!(
        start(&[], &["n"]).on_payload(gone()).unwrap_err(),
        WalletError::OtherError("Failed to peek balance for first name n: gone".to_string())
    );
    assert_eq!(
        start(&["k"], &[]).on_payload(gone()).unwrap_err(),
        WalletError::OtherError("Failed to peek balance for pubkey k: gone".to_string())
    );
    let garbled = PeekFailure::Answer(WalletError::External("not a jam".to_string()));
    assert_eq!(
        start(&["k"], &[]).on_payload(Err(garbled)).unwrap_err(),
        WalletError::External("not a jam".to_string())
    );
}

#[test]
fn private_sync_of_nothing_is_done() {
    let sync = Wallet::update_balance_grpc_private(vec![], vec![]);
    assert!(sync.is_complete());
    assert!(sync.finish::<u8>().pokes.is_empty());
}

#[test]
fn public_sync_takes_a_bounded_number_of_answers() {
    let mut sync = public(&["k1", "k2"], &["n"]);
    let mut answers = 0;
    loop {
        sync = match sync.stage() {
            SyncStage::FetchPage { .. } => sync.on_page(Ok(page(1))),
            SyncStage::NormalizePages { .. } if answers < 11 => {
                sync.on_normalized(Err(problem(SnapshotProblem::BlockIdDrift)))
            }
            SyncStage::NormalizePages { .. } => sync.on_normalized(Ok(snapshot())),
            SyncStage::EncodeBalance { .. } => break,
            SyncStage::Finished { .. } => panic!("failed"),
        };
        answers += 1;
    }
    sync.on_encoded(Noun::number(4));
    answers += 1;
    assert_eq!(answers, 3 * 3 + 4);
}
