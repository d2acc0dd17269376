use nockchain_wallet::balance::{
    BalanceUpdate, NormalizeSnapshotError, NormalizedSnapshot, Note, SnapshotMetadata,
    SnapshotProblem,
};
use nockchain_wallet::digest::{Digest, Name};
use nockchain_wallet::error::WalletError;
use nockchain_wallet::noun::Noun;
use nockchain_wallet::signers::DigestSet;
use nockchain_wallet::wallet::Wallet;

fn digest(n: u64) -> Digest {
    Digest {
        limbs: [n, 0, 0, 0, 0],
        base58: format!("d{}", n),
    }
}

fn v1(first: u64, last: u64, content: u64) -> (Name, Note) {
    (
        Name::new(digest(first), digest(last)),
        Note::V1(Noun::number(content)),
    )
}

fn v0(first: u64, last: u64, content: u64) -> (Name, Note) {
    (
        Name::new(digest(first), digest(last)),
        Note::V0(Noun::number(content)),
    )
}

fn page(notes: Vec<(Name, Note)>) -> BalanceUpdate {
    BalanceUpdate {
        height: 9,
        block_id: digest(900),
        notes,
    }
}

fn snapshot() -> NormalizedSnapshot<u8> {
    NormalizedSnapshot {
        metadata: SnapshotMetadata {
            height: 10,
            block_id: digest(901),
        },
        candidates: vec![1, 2],
    }
}

#[test]
fn no_pages_make_no_balance() {
    assert_eq!(Wallet::union_balance_pages(vec![], Ok(snapshot())), Ok(None));
}

#[test]
fn pages_are_merged_by_name() {
    let pages = vec![
        page(vec![v1(3, 1, 30), v1(1, 2, 12), v1(1, 1, 11)]),
        page(vec![v1(1, 2, 99), v0(2, 0, 20)]),
    ];
    let (merged, same) = Wallet::union_balance_pages(pages, Ok(snapshot()))
        .unwrap()
        .unwrap();
    assert_eq!(same, snapshot());
    assert_eq!(merged.height, 10);
    assert_eq!(merged.block_id, digest(901));
    assert_eq!(
        merged.notes,
        vec![v1(1, 1, 11), v1(1, 2, 12), v0(2, 0, 20), v1(3, 1, 30)]
    );
}

#[test]
fn merging_again_changes_nothing() {
    let pages = vec![page(vec![v1(3, 1, 30), v1(1, 2, 12), v1(3, 1, 31)])];
    let (merged, _) = Wallet::union_balance_pages(pages, Ok(snapshot()))
        .unwrap()
        .unwrap();
    let expected = vec![v1(1, 2, 12), v1(3, 1, 30)];
    assert_eq!(merged.notes, expected);
    let (again, _) = Wallet::union_balance_pages(vec![merged], Ok(snapshot()))
        .unwrap()
        .unwrap();
    assert_eq!(again.notes, expected);
}

#[test]
fn page_order_only_decides_between_repetitions() {
    let a = || page(vec![v1(1, 1, 5), v1(2, 2, 6)]);
    let b = || page(vec![v1(1, 1, 7), v1(0, 0, 8)]);
    let union = |pages| {
        Wallet::union_balance_pages(pages, Ok(snapshot()))
            .unwrap()
            .unwrap()
            .0
            .notes
    };
    assert_eq!(
        union(vec![a(), b()]),
        vec![v1(0, 0, 8), v1(1, 1, 5), v1(2, 2, 6)]
    );
    assert_eq!(
        union(vec![b(), a()]),
        vec![v1(0, 0, 8), v1(1, 1, 7), v1(2, 2, 6)]
    );
}

#[test]
fn agreeing_pages_merge_alike() {
    let a = || page(vec![v1(1, 1, 5), v0(2, 2, 6)]);
    let b = || page(vec![v0(2, 2, 6), v1(0, 0, 8)]);
    let union = |pages| {
        Wallet::union_balance_pages(pages, Ok(snapshot()))
            .unwrap()
            .unwrap()
            .0
    };
    assert_eq!(union(vec![a(), b()]), union(vec![b(), a()]));
    // A page that repeats a name gives the first of its notes, in whatever order pages come.
    let c = || page(vec![v1(4, 4, 1), v1(4, 4, 2)]);
    let expected = vec![v1(1, 1, 5), v0(2, 2, 6), v1(4, 4, 1)];
    assert_eq!(union(vec![a(), c()]).notes, expected);
    assert_eq!(union(vec![c(), a()]).notes, expected);
}

#[test]
fn untracked_notes_are_dropped_in_either_order() {
    let filter = |balance, names: &[u64]| {
        Wallet::filter_untracked_v1_notes_for_tests(
            balance,
            names.iter().map(|n| digest(*n)).collect(),
        )
    };
    let all = || page(vec![v1(1, 1, 5), v0(2, 2, 6), v1(3, 3, 7), v1(4, 4, 8)]);
    let once = filter(filter(all(), &[1, 3]), &[3, 4]);
    assert_eq!(once.notes, vec![v0(2, 2, 6), v1(3, 3, 7)]);
    assert_eq!(filter(filter(all(), &[3, 4]), &[1, 3]), once);
}

#[test]
fn snapshot_problems_are_handed_on() {
    let problem = || NormalizeSnapshotError {
        problem: SnapshotProblem::HeightDrift,
        text: "heights differ".to_string(),
    };
    let r = Wallet::union_balance_pages::<u8>(vec![page(vec![])], Err(problem()));
    assert_eq!(r, Err(problem()));
}

#[test]
fn untracked_notes_are_dropped() {
    let kept = Wallet::filter_untracked_v1_notes_for_tests(
        page(vec![v1(1, 1, 5), v0(2, 2, 6), v1(3, 3, 7), v1(1, 4, 8)]),
        vec![digest(1), digest(9)],
    );
    assert_eq!(
        kept,
        page(vec![v1(1, 1, 5), v0(2, 2, 6), v1(1, 4, 8)])
    );
    let again = Wallet::filter_untracked_v1_notes_from_balance_update(
        kept,
        &DigestSet::from_digests(&[digest(1), digest(9)]),
    );
    assert_eq!(
        again,
        page(vec![v1(1, 1, 5), v0(2, 2, 6), v1(1, 4, 8)])
    );
}

#[test]
fn nothing_is_dropped_where_nothing_is_tracked() {
    let notes = || page(vec![v1(1, 1, 5), v0(2, 2, 6)]);
    assert_eq!(
        Wallet::filter_untracked_v1_notes_for_tests(notes(), vec![]),
        notes()
    );
}

#[test]
fn balance_pokes() {
    let cell = |head: Noun, tail: Noun| Noun::Cell(Box::new(head), Box::new(tail));
    let head = || Noun::cord("update-balance-grpc");
    let whole = cell(
        head(),
        cell(Noun::number(0), cell(Noun::number(0), Noun::number(5))),
    );
    assert_eq!(Wallet::update_balance_grpc_poke(Noun::number(5)), whole);
    assert_eq!(
        Wallet::update_balance_grpc_poke_for_tests(Noun::number(5)),
        whole
    );
    assert_eq!(
        Wallet::update_balance_grpc_poke_from_payload(Some(Some(Noun::number(5)))),
        whole
    );
    assert_eq!(
        Wallet::update_balance_grpc_poke_from_payload(None),
        cell(head(), Noun::number(0))
    );
    assert_eq!(
        Wallet::update_balance_grpc_poke_from_payload(Some(None)),
        cell(head(), cell(Noun::number(0), Noun::number(0)))
    );
}

#[test]
fn shown_balance() {
    let balance = || page(vec![v1(1, 1, 5)]);
    assert_eq!(
        Wallet::balance_state_from_peek(Ok(Some(Some(balance())))),
        Ok(balance())
    );
    let absent = WalletError::OtherError(
        "wallet balance peek returned no balance payload".to_string(),
    );
    assert_eq!(
        Wallet::balance_state_from_peek(Ok(Some(None))).unwrap_err(),
        absent
    );
    assert_eq!(
        Wallet::balance_state_from_peek(Ok(None)).unwrap_err(),
        absent
    );
    let failure = Wallet::balance_state_from_peek(Err(WalletError::External("x".to_string())));
    assert_eq!(failure, Err(WalletError::External("x".to_string())));
}
