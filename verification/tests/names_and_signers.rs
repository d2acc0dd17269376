use nockchain_wallet::digest::{Digest, Name};
use nockchain_wallet::error::WalletError;
use nockchain_wallet::names::{ensure_manual_planner_parity, DigestText, NoteNameText};
use nockchain_wallet::signers::{LockPrimitive, Pkh, SigningKeyLockMatcher, SpendCondition};
use nockchain_wallet::wallet::Wallet;

fn digest(n: u64) -> Digest {
    Digest {
        limbs: [n, 0, 0, 0, 0],
        base58: format!("d{}", n),
    }
}

fn name(first: u64, last: u64) -> Name {
    Name::new(digest(first), digest(last))
}

fn good(n: u64) -> DigestText {
    DigestText {
        text: format!("d{}", n),
        decoded: Ok(digest(n)),
    }
}

fn bad(text: &str) -> DigestText {
    DigestText {
        text: text.to_string(),
        decoded: Err("bad alphabet".to_string()),
    }
}

fn pkh(m: u64, signers: &[u64]) -> LockPrimitive {
    LockPrimitive::Pkh(Pkh {
        m,
        hashes: signers.iter().map(|n| digest(*n)).collect(),
    })
}

fn condition(primitives: Vec<LockPrimitive>) -> SpendCondition {
    SpendCondition {
        primitives,
        first_name: Some(digest(77)),
    }
}

#[test]
fn note_names_are_written_in_brackets() {
    assert_eq!(Wallet::format_note_names_for_create_tx(&[]), "");
    assert_eq!(
        Wallet::format_note_names_for_create_tx(&[name(1, 2)]),
        "[d1 d2]"
    );
    assert_eq!(
        Wallet::format_note_names_for_create_tx(&[name(1, 2), name(3, 4), name(5, 6)]),
        "[d1 d2],[d3 d4],[d5 d6]"
    );
}

#[test]
fn arguments_are_joined_by_comma() {
    let write = |names: &[Name]| Wallet::format_note_names_for_create_tx(names);
    assert_eq!(
        write(&[name(1, 2), name(3, 4), name(5, 6)]),
        write(&[name(1, 2)]) + "," + &write(&[name(3, 4), name(5, 6)])
    );
}

#[test]
fn different_names_are_written_differently() {
    let written = [
        Wallet::format_note_names_for_create_tx(&[name(1, 2)]),
        Wallet::format_note_names_for_create_tx(&[name(2, 1)]),
        Wallet::format_note_names_for_create_tx(&[name(1, 2), name(1, 2)]),
        Wallet::format_note_names_for_create_tx(&[name(12, 1)]),
    ];
    for i in 0..written.len() {
        for j in 0..i {
            assert_ne!(written[i], written[j]);
        }
    }
}

#[test]
fn reading_undoes_writing() {
    let names = || vec![name(3, 4), name(1, 2), name(3, 4)];
    let argument = Wallet::format_note_names_for_create_tx(&names());
    let found = |text: &str| DigestText {
        text: text.to_string(),
        decoded: Ok(digest(text[1..].parse().unwrap())),
    };
    let written = argument
        .split(',')
        .map(|entry| {
            let inner = &entry[1..entry.len() - 1];
            let (first, last) = inner.split_once(' ').unwrap();
            NoteNameText {
                first: found(first),
                last: found(last),
            }
        })
        .collect();
    assert_eq!(Wallet::parse_note_names_as_hashes(Ok(written)), Ok(names()));
}

#[test]
fn written_names_are_read_in_order() {
    let written = vec![
        NoteNameText {
            first: good(3),
            last: good(4),
        },
        NoteNameText {
            first: good(1),
            last: good(2),
        },
    ];
    assert_eq!(
        Wallet::parse_note_names_as_hashes(Ok(written)),
        Ok(vec![name(3, 4), name(1, 2)])
    );
    assert_eq!(Wallet::parse_note_names_as_hashes(Ok(vec![])), Ok(vec![]));
}

#[test]
fn first_unreadable_name_is_reported() {
    let written = vec![
        NoteNameText {
            first: good(3),
            last: good(4),
        },
        NoteNameText {
            first: good(1),
            last: bad("0OIl"),
        },
        NoteNameText {
            first: bad("zzz"),
            last: good(1),
        },
    ];
    assert_eq!(
        Wallet::parse_note_names_as_hashes(Ok(written)),
        Err(WalletError::Unknown(
            "Invalid note last-name hash '0OIl': bad alphabet".to_string()
        ))
    );
    let written = vec![NoteNameText {
        first: bad("x"),
        last: bad("y"),
    }];
    assert_eq!(
        Wallet::parse_note_names_as_hashes(Ok(written)),
        Err(WalletError::Unknown(
            "Invalid note first-name hash 'x': bad alphabet".to_string()
        ))
    );
    let refused = WalletError::External("no brackets".to_string());
    assert_eq!(
        Wallet::parse_note_names_as_hashes(Err(refused)),
        Err(WalletError::External("no brackets".to_string()))
    );
}

#[test]
fn parity_ignores_order() {
    let requested = [name(1, 2), name(3, 4), name(3, 4)];
    let planned = [name(3, 4), name(1, 2), name(3, 4)];
    assert_eq!(ensure_manual_planner_parity(&requested, &planned), Ok(()));
    assert_eq!(ensure_manual_planner_parity(&[], &[]), Ok(()));
}

#[test]
fn parity_goes_by_limbs() {
    let other_text = Name::new(
        Digest {
            limbs: [1, 0, 0, 0, 0],
            base58: "other".to_string(),
        },
        digest(2),
    );
    assert_eq!(
        ensure_manual_planner_parity(&[name(1, 2)], &[other_text]),
        Ok(())
    );
}

#[test]
fn parity_mismatch_names_both_lists() {
    let requested = [name(1, 2), name(3, 4)];
    let planned = [name(1, 2)];
    assert_eq!(
        ensure_manual_planner_parity(&requested, &planned),
        Err(
            "planner parity mismatch: selected names differ from user-provided manual names \
             (planned='[d1 d2]', requested='[d1 d2],[d3 d4]')"
                .to_string()
        )
    );
    let twice = [name(1, 2), name(1, 2)];
    assert!(ensure_manual_planner_parity(&twice, &requested).is_err());
    assert!(ensure_manual_planner_parity(&[name(2, 1)], &planned).is_err());
}

#[test]
fn signer_keys_are_sorted_and_distinct() {
    let keys = vec![digest(3), digest(1), digest(3), digest(2), digest(1)];
    let sorted = Wallet::planner_signer_keys(keys);
    assert_eq!(sorted, vec![digest(1), digest(2), digest(3)]);
    assert_eq!(
        Wallet::planner_signer_keys(sorted),
        vec![digest(1), digest(2), digest(3)]
    );
    let backwards = vec![digest(1), digest(2), digest(3)];
    assert_eq!(
        Wallet::planner_signer_keys(backwards),
        vec![digest(1), digest(2), digest(3)]
    );
}

#[test]
fn signer_keys_compare_limb_by_limb() {
    let with = |limbs: [u64; 5]| Digest {
        limbs,
        base58: String::new(),
    };
    let keys = vec![
        with([1, 9, 0, 0, 0]),
        with([2, 0, 0, 0, 0]),
        with([1, 2, 0, 0, 8]),
        with([1, 2, 0, 0, 7]),
    ];
    assert_eq!(
        Wallet::planner_signer_keys(keys)
            .iter()
            .map(Digest::to_array)
            .collect::<Vec<_>>(),
        vec![
            [1, 2, 0, 0, 7],
            [1, 2, 0, 0, 8],
            [1, 9, 0, 0, 0],
            [2, 0, 0, 0, 0]
        ]
    );
}

#[test]
fn signer_candidates_begin_with_none() {
    assert_eq!(
        Wallet::planner_signer_candidates(vec![digest(2), digest(1), digest(2)]),
        vec![None, Some(digest(1)), Some(digest(2))]
    );
    assert_eq!(Wallet::planner_signer_candidates(vec![]), vec![None]);
}

#[test]
fn signing_keys_are_shown_as_they_are() {
    assert_eq!(
        Wallet::signing_keys_at_path_from_peek(Ok(Some(Some(vec![
            digest(5),
            digest(4),
            digest(5)
        ])))),
        Ok(vec![digest(5), digest(4), digest(5)])
    );
    assert_eq!(Wallet::signing_keys_at_path_from_peek(Ok(None)), Ok(vec![]));
    let gone = || WalletError::External("gone".to_string());
    assert_eq!(
        Wallet::signing_keys_at_path_from_peek(Err(gone())),
        Err(gone())
    );
}

#[test]
fn shown_signing_keys() {
    assert_eq!(Wallet::signing_keys_from_peek(Ok(None)), Ok(vec![]));
    assert_eq!(Wallet::signing_keys_from_peek(Ok(Some(None))), Ok(vec![]));
    assert_eq!(
        Wallet::signing_keys_from_peek(Ok(Some(Some(vec![digest(5), digest(4)])))),
        Ok(vec![digest(4), digest(5)])
    );
    let failure = WalletError::External("gone".to_string());
    assert!(Wallet::signing_keys_from_peek(Err(failure)).is_err());
}

#[test]
fn single_signer_locks_match() {
    let matcher = SigningKeyLockMatcher::from_signer_keys(&[digest(5), digest(6)]);
    let note = digest(77);
    assert!(matcher.matches(&note, &condition(vec![pkh(1, &[5])])));
    assert!(matcher.matches(&note, &condition(vec![pkh(1, &[6]), LockPrimitive::Tim])));
    assert!(matcher.matches(&note, &condition(vec![LockPrimitive::Tim, pkh(1, &[6])])));
}

#[test]
fn other_locks_do_not_match() {
    let matcher = SigningKeyLockMatcher::from_signer_keys(&[digest(5), digest(6)]);
    let note = digest(77);
    let tim = || LockPrimitive::Tim;
    for primitives in vec![
        vec![],
        vec![tim()],
        vec![pkh(1, &[7])],
        vec![pkh(2, &[5, 6])],
        vec![pkh(1, &[5, 6])],
        vec![pkh(2, &[5])],
        vec![pkh(1, &[])],
        vec![pkh(1, &[5]), pkh(1, &[6])],
        vec![pkh(1, &[5]), tim(), tim()],
        vec![pkh(1, &[5]), LockPrimitive::Other],
        vec![LockPrimitive::Other],
    ] {
        assert!(!matcher.matches(&note, &condition(primitives)));
    }
}

#[test]
fn no_lock_matches_without_signers() {
    let matcher = SigningKeyLockMatcher::default();
    assert!(!matcher.matches(&digest(77), &condition(vec![pkh(1, &[5])])));
    assert!(!matcher.matches(&digest(77), &condition(vec![])));
}

#[test]
fn first_name_must_match() {
    let matcher = SigningKeyLockMatcher::from_signer_keys(&[digest(5)]);
    assert!(!matcher.matches(&digest(78), &condition(vec![pkh(1, &[5])])));
    let unnamed = SpendCondition {
        primitives: vec![pkh(1, &[5])],
        first_name: None,
    };
    assert!(!matcher.matches(&digest(77), &unnamed));
    let more = SigningKeyLockMatcher::from_signer_keys(&[digest(4), digest(5)]);
    assert!(more.matches(&digest(77), &condition(vec![pkh(1, &[5])])));
    let none = SigningKeyLockMatcher::from_signer_keys(&[]);
    assert!(!none.matches(&digest(77), &condition(vec![pkh(1, &[5])])));
}
