use nockchain_wallet::balance::{BalanceUpdate, NormalizedSnapshot, SnapshotMetadata};
use nockchain_wallet::command::{NoteSelectionStrategyCli, SelectionOrder};
use nockchain_wallet::digest::{Digest, Name};
use nockchain_wallet::error::WalletError;
use nockchain_wallet::names::{DigestText, NoteNameText};
use nockchain_wallet::noun::Noun;
use nockchain_wallet::planner::{
    CandidateVersionPolicy, ChainContext, CreateTxPlanner, CreateTxRequest, Plan, PlanError,
    PlannerAction, PlannerStage, SelectionMode,
};
use nockchain_wallet::signers::{LockPrimitive, Pkh, SpendCondition};
use nockchain_wallet::wallet::Wallet;

type Planner = CreateTxPlanner<u8, u16>;

fn digest(n: u64) -> Digest {
    Digest {
        limbs: [n, 0, 0, 0, 0],
        base58: format!("d{}", n),
    }
}

fn name(first: u64, last: u64) -> Name {
    Name::new(digest(first), digest(last))
}

fn cell(head: Noun, tail: Noun) -> Noun {
    Noun::Cell(Box::new(head), Box::new(tail))
}

fn tuple(mut items: Vec<Noun>) -> Noun {
    let mut noun = items.pop().unwrap();
    while let Some(item) = items.pop() {
        noun = cell(item, noun);
    }
    noun
}

fn snapshot() -> NormalizedSnapshot<u8> {
    NormalizedSnapshot {
        metadata: SnapshotMetadata {
            height: 50,
            block_id: digest(500),
        },
        candidates: vec![1, 2, 3],
    }
}

fn request() -> CreateTxRequest {
    CreateTxRequest {
        names: None,
        fee: None,
        recipients: vec![Noun::number(7)],
        allow_low_fee: false,
        refund_pkh: None,
        sign_keys: vec![],
        include_data: true,
        save_raw_tx: false,
        note_selection: NoteSelectionStrategyCli::Descending,
    }
}

fn constants(coinbase_min: Noun) -> Noun {
    let mut legacy: Vec<Noun> = (1..=8).map(Noun::number).collect();
    legacy.push(Noun::number(0));
    legacy.push(coinbase_min);
    legacy.push(Noun::number(11));
    legacy.push(Noun::number(12));
    legacy.push(Noun::number(13));
    let payload = tuple(vec![
        Noun::number(10),
        Noun::number(20),
        cell(Noun::number(2048), Noun::number(256)),
        Noun::number(128),
        Noun::number(4),
        tuple(legacy),
    ]);
    cell(Noun::number(0), cell(Noun::number(0), payload))
}

fn start(request: CreateTxRequest) -> Planner {
    Wallet::create_tx_with_planner(Some(snapshot()), request)
}

fn words(err: &WalletError) -> String {
    match err {
        WalletError::OtherError(text) => format!("other: {}", text),
        WalletError::OtherErrorFrom { text, cause } => format!("other: {}{:?}", text, cause),
        WalletError::Unknown(text) => format!("unknown: {}", text),
        WalletError::Decode(err) => format!("decode: {:?}", err),
        WalletError::External(text) => text.clone(),
    }
}

fn failure(planner: Planner) -> String {
    let planner = match planner.action() {
        PlannerAction::Describe { err } => {
            let words = words(err);
            planner.on_words(words)
        }
        _ => planner,
    };
    match planner.into_stage() {
        PlannerStage::Failed {
            err: WalletError::Unknown(text),
        } => text,
        stage => panic!("not failed: {:?}", stage),
    }
}

fn at_constants(planner: Planner) -> Planner {
    planner
        .on_signing_keys(Ok(Some(Some(vec![digest(6), digest(5)]))))
        .on_recipient_outputs(Ok(vec![100, 101]))
        .on_refund_output(Ok(102))
}

fn at_plan(planner: Planner) -> Planner {
    at_constants(planner).on_constants(Ok(constants(Noun::number(99))))
}

fn manual(request: CreateTxRequest, names: &[(u64, u64)]) -> Planner {
    let arg = |n: u64| DigestText {
        text: format!("d{}", n),
        decoded: Ok(digest(n)),
    };
    let written = names
        .iter()
        .map(|(first, last)| NoteNameText {
            first: arg(*first),
            last: arg(*last),
        })
        .collect();
    start(CreateTxRequest {
        names: Some("as written".to_string()),
        ..request
    })
    .on_note_names(Ok(written))
}

#[test]
fn automatic_plan_becomes_a_command() {
    let planner = at_plan(start(request()));
    match planner.stage() {
        PlannerStage::Plan {
            plan_request,
            matcher,
        } => {
            assert_eq!(plan_request.selection_mode, SelectionMode::Auto);
            assert_eq!(plan_request.order_direction, SelectionOrder::Descending);
            assert!(plan_request.include_data);
            assert_eq!(
                plan_request.chain_context,
                ChainContext {
                    height: 50,
                    bythos_phase: 20,
                    base_fee: 128,
                    input_fee_divisor: 4,
                    min_fee: 256,
                }
            );
            assert_eq!(plan_request.signer_pkh, Some(digest(5)));
            assert_eq!(
                plan_request.candidate_version_policy,
                CandidateVersionPolicy::V1Only
            );
            assert_eq!(plan_request.candidates, vec![1, 2, 3]);
            assert_eq!(plan_request.recipient_outputs, vec![100, 101]);
            assert_eq!(plan_request.refund_output, 102);
            assert_eq!(plan_request.coinbase_relative_min, Some(99));
            let lock = |signer: u64| SpendCondition {
                primitives: vec![LockPrimitive::Pkh(Pkh {
                    m: 1,
                    hashes: vec![digest(signer)],
                })],
                first_name: Some(digest(77)),
            };
            assert!(matcher.matches(&digest(77), &lock(5)));
            assert!(!matcher.matches(&digest(77), &lock(6)));
        }
        stage => panic!("no plan asked for: {:?}", stage),
    }
    let planner = planner.on_plan(Ok(Plan {
        selected: vec![name(3, 4), name(1, 2)],
        final_fee: 640,
    }));
    match planner.stage() {
        PlannerStage::EncodeCommand { names, fee } => {
            assert_eq!(names, "[d3 d4],[d1 d2]");
            assert_eq!(*fee, 640);
        }
        stage => panic!("no command: {:?}", stage),
    }
    let command = planner
        .on_command_inputs(
            Ok(vec![("d3".to_string(), "d4".to_string())]),
            None,
            "desc",
        )
        .unwrap();
    assert_eq!(command.name, "create-tx");
    assert_eq!(command.args[1], cell(Noun::number(7), Noun::number(0)));
    assert_eq!(command.args[2], Noun::number(640));
    assert_eq!(command.args[8], Noun::cord("desc"));
}

#[test]
fn without_a_snapshot_the_balance_is_read() {
    let peek = || -> Planner { Wallet::create_tx_with_planner(None, request()) };
    assert!(matches!(peek().stage(), PlannerStage::PeekBalance));
    let balance = BalanceUpdate {
        height: 50,
        block_id: digest(500),
        notes: vec![],
    };
    let planner = peek().on_balance(Ok(Some(Some(balance))));
    assert!(matches!(
        planner.stage(),
        PlannerStage::NormalizeBalance { .. }
    ));
    let planner = planner.on_normalized(Ok(snapshot()));
    assert!(matches!(planner.stage(), PlannerStage::PeekSigningKeys { .. }));

    assert_eq!(
        failure(peek().on_balance(Ok(None))),
        "create-tx planner failed: unable to read synced balance from wallet state: \
         other: wallet balance peek returned no balance payload"
    );
    assert_eq!(
        failure(peek().on_balance(Err(WalletError::External("gone".to_string())))),
        "create-tx planner failed: unable to read synced balance from wallet state: gone"
    );
}

#[test]
fn unusable_balance_ends_planning() {
    let balance = BalanceUpdate {
        height: 50,
        block_id: digest(500),
        notes: vec![],
    };
    let planner: Planner = Wallet::create_tx_with_planner(None, request());
    let planner = planner
        .on_balance(Ok(Some(Some(balance))))
        .on_normalized(Err("duplicate".to_string()));
    assert_eq!(
        failure(planner),
        "create-tx planner failed: candidate normalization failed for wallet balance snapshot: \
         duplicate"
    );
}

#[test]
fn manual_plan_must_spend_the_requested_notes() {
    let planner = at_plan(manual(request(), &[(1, 2), (3, 4)]));
    let planner = planner.on_plan(Ok(Plan {
        selected: vec![name(3, 4), name(1, 2)],
        final_fee: 1,
    }));
    assert!(matches!(planner.stage(), PlannerStage::EncodeCommand { .. }));

    let planner = at_plan(manual(request(), &[(1, 2), (3, 4)]));
    let planner = planner.on_plan(Ok(Plan {
        selected: vec![name(3, 4)],
        final_fee: 1,
    }));
    assert_eq!(
        failure(planner),
        "create-tx planner failed: planner parity mismatch: selected names differ from \
         user-provided manual names (planned='[d3 d4]', requested='[d1 d2],[d3 d4]')"
    );
}

#[test]
fn unreadable_manual_names_end_planning() {
    let with_names = || {
        start(CreateTxRequest {
            names: Some("[x y]".to_string()),
            ..request()
        })
    };
    assert!(matches!(
        with_names().stage(),
        PlannerStage::ParseNoteNames { .. }
    ));
    let bad = DigestText {
        text: "x".to_string(),
        decoded: Err("no base58".to_string()),
    };
    let good = DigestText {
        text: "d1".to_string(),
        decoded: Ok(digest(1)),
    };
    let planner = with_names().on_note_names(Ok(vec![NoteNameText {
        first: bad,
        last: good,
    }]));
    assert_eq!(
        failure(planner),
        "create-tx planner failed: unable to parse manual note names: \
         unknown: Invalid note first-name hash 'x': no base58"
    );
    let planner = with_names().on_note_names(Err(WalletError::External("[?".to_string())));
    assert_eq!(
        failure(planner),
        "create-tx planner failed: unable to parse manual note names: [?"
    );
}

#[test]
fn refund_is_decoded_and_encoded() {
    let with_refund = || {
        start(CreateTxRequest {
            refund_pkh: Some("d8".to_string()),
            ..request()
        })
    };
    assert!(matches!(
        with_refund().stage(),
        PlannerStage::DecodeRefund { .. }
    ));
    assert_eq!(
        failure(with_refund().on_refund(Err("short".to_string()))),
        "create-tx planner failed: invalid refund pubkey hash 'd8': short"
    );
    let planner = with_refund().on_refund(Ok(digest(8)));
    let planner = planner.on_signing_keys(Ok(Some(Some(vec![digest(5)]))));
    match planner.stage() {
        PlannerStage::DeriveRecipientOutputs { context } => {
            assert_eq!(context.refund, Some(digest(8)));
            assert_eq!(context.master_signer, digest(5));
        }
        stage => panic!("no outputs asked for: {:?}", stage),
    }
    let planner = planner
        .on_recipient_outputs(Ok(vec![]))
        .on_refund_output(Ok(1))
        .on_constants(Ok(constants(Noun::number(1))))
        .on_plan(Ok(Plan {
            selected: vec![],
            final_fee: 2,
        }));
    let command = planner
        .on_command_inputs(Ok(vec![]), Some(Ok(Noun::number(88))), "desc")
        .unwrap();
    assert_eq!(command.args[5], cell(Noun::number(0), Noun::number(88)));
}

#[test]
fn signer_is_needed() {
    let none = "create-tx planner failed: wallet has no signer keys for create-tx planner";
    assert_eq!(failure(start(request()).on_signing_keys(Ok(None))), none);
    assert_eq!(
        failure(start(request()).on_signing_keys(Ok(Some(Some(vec![]))))),
        none
    );
    let gone = Err(WalletError::External("gone".to_string()));
    assert_eq!(failure(start(request()).on_signing_keys(gone)), none);
}

#[test]
fn underivable_outputs_end_planning() {
    let signed = || start(request()).on_signing_keys(Ok(Some(Some(vec![digest(5)]))));
    assert_eq!(
        failure(signed().on_recipient_outputs(Err("no lock".to_string()))),
        "create-tx planner failed: unable to derive planner recipient lock roots from \
         recipients: no lock"
    );
    assert_eq!(
        failure(
            signed()
                .on_recipient_outputs(Ok(vec![]))
                .on_refund_output(Err("no root".to_string()))
        ),
        "create-tx planner failed: unable to derive planner refund output template from \
         signer/refund context: no root"
    );
}

#[test]
fn unreadable_constants_end_planning() {
    let waiting = || at_constants(start(request()));
    assert_eq!(
        failure(waiting().on_constants(Err(WalletError::External("gone".to_string())))),
        "create-tx planner failed: unable to read blockchain constants from wallet state: gone"
    );
    assert_eq!(
        failure(waiting().on_constants(Ok(Noun::number(0)))),
        "create-tx planner failed: unable to read blockchain constants from wallet state: \
         other: wallet blockchain-constants peek returned no payload"
    );
    assert_eq!(
        failure(waiting().on_constants(Ok(Noun::number(3)))),
        "create-tx planner failed: unable to read blockchain constants from wallet state: \
         decode: InvalidUnit"
    );
    let no_min = cell(Noun::number(0), Noun::number(0));
    assert_eq!(
        failure(waiting().on_constants(Ok(constants(no_min)))),
        "create-tx planner failed: unable to resolve coinbase timelock min from blockchain \
         constants: other: wallet blockchain-constants payload missing coinbase timelock min: \
         ExpectedAtom"
    );
}

#[test]
fn planner_errors_are_reported() {
    let disabled = PlanError::CandidateVersionDisabled("v0 note".to_string());
    assert_eq!(
        failure(at_plan(start(request())).on_plan(Err(disabled))),
        "create-tx planner only selects v1 notes; use the dedicated v0 fan-in command for \
         legacy notes (v0 note)"
    );
    let poor = PlanError::Other("insufficient funds".to_string());
    assert_eq!(
        failure(at_plan(start(request())).on_plan(Err(poor))),
        "create-tx planner failed: planner returned an error: insufficient funds"
    );
}

#[test]
fn low_fee_is_refused_unless_allowed() {
    let plan = || {
        Ok(Plan {
            selected: vec![name(1, 2)],
            final_fee: 640,
        })
    };
    let low = |allow_low_fee: bool| CreateTxRequest {
        fee: Some(639),
        allow_low_fee,
        ..request()
    };
    assert_eq!(
        failure(at_plan(start(low(false))).on_plan(plan())),
        "requested --fee 639 is below planner minimum 640 (pass --allow-low-fee to override)"
    );
    let planner = at_plan(start(low(true))).on_plan(plan());
    assert!(matches!(
        planner.stage(),
        PlannerStage::EncodeCommand { fee: 639, .. }
    ));
}

#[test]
fn each_action_says_what_goes_into_it() {
    let path = |tag: &str| cell(Noun::cord(tag), Noun::number(0));
    let planner: Planner = Wallet::create_tx_with_planner(
        None,
        CreateTxRequest {
            names: Some("[d1 d2]".to_string()),
            refund_pkh: Some("d8".to_string()),
            ..request()
        },
    );
    match planner.action() {
        PlannerAction::PeekBalance { path: at } => assert_eq!(at, path("balance")),
        action => panic!("{:?}", action),
    }
    let planner = planner.on_balance(Ok(Some(Some(BalanceUpdate {
        height: 51,
        block_id: digest(500),
        notes: vec![],
    }))));
    match planner.action() {
        PlannerAction::NormalizeBalance { balance } => assert_eq!(balance.height, 51),
        action => panic!("{:?}", action),
    }
    let planner = planner.on_normalized(Ok(snapshot()));
    match planner.action() {
        PlannerAction::ParseNoteNames { raw } => assert_eq!(raw, "[d1 d2]"),
        action => panic!("{:?}", action),
    }
    let text = |n: u64| DigestText {
        text: format!("d{}", n),
        decoded: Ok(digest(n)),
    };
    let planner = planner.on_note_names(Ok(vec![NoteNameText {
        first: text(1),
        last: text(2),
    }]));
    match planner.action() {
        PlannerAction::DecodeRefund { text } => assert_eq!(text, "d8"),
        action => panic!("{:?}", action),
    }
    let planner = planner.on_refund(Ok(digest(8)));
    match planner.action() {
        PlannerAction::PeekSigningKeys { path: at } => assert_eq!(at, path("signing-keys")),
        action => panic!("{:?}", action),
    }
    let planner = planner.on_signing_keys(Ok(Some(Some(vec![digest(6), digest(5)]))));
    match planner.action() {
        PlannerAction::DeriveRecipientOutputs {
            recipients,
            include_data,
        } => {
            assert_eq!(recipients, &[Noun::number(7)]);
            assert!(include_data);
        }
        action => panic!("{:?}", action),
    }
    let planner = planner.on_recipient_outputs(Ok(vec![100]));
    match planner.action() {
        PlannerAction::DeriveRefundOutput {
            refund,
            master_signer,
            include_data,
        } => {
            assert_eq!(refund, Some(&digest(8)));
            assert_eq!(master_signer, &digest(5));
            assert!(include_data);
        }
        action => panic!("{:?}", action),
    }
    let planner = planner.on_refund_output(Ok(102));
    match planner.action() {
        PlannerAction::PeekConstants { path: at } => {
            assert_eq!(at, path("blockchain-constants"));
        }
        action => panic!("{:?}", action),
    }
    let planner = planner.on_constants(Ok(constants(Noun::number(99))));
    match planner.action() {
        PlannerAction::Plan { plan_request, .. } => assert_eq!(
            plan_request.selection_mode,
            SelectionMode::Manual {
                note_names: vec![name(1, 2)]
            }
        ),
        action => panic!("{:?}", action),
    }
    let planner = planner.on_plan(Ok(Plan {
        selected: vec![name(1, 2)],
        final_fee: 640,
    }));
    match planner.action() {
        PlannerAction::EncodeCommand {
            names,
            refund_pkh,
            note_selection,
        } => {
            assert_eq!(note_selection, NoteSelectionStrategyCli::Descending);
            assert_eq!(names, "[d1 d2]");
            assert_eq!(refund_pkh, Some("d8"));
        }
        action => panic!("{:?}", action),
    }
    let command = planner
        .on_command_inputs(
            Ok(vec![("d1".to_string(), "d2".to_string())]),
            Some(Ok(Noun::number(88))),
            "desc",
        )
        .unwrap();
    assert_eq!(
        command.args[0],
        cell(cell(Noun::cord("d1"), Noun::cord("d2")), Noun::number(0))
    );
    assert_eq!(command.args[2], Noun::number(640));
}

#[test]
fn failed_planner_stops() {
    let planner = start(request()).on_signing_keys(Ok(None));
    match planner.action() {
        PlannerAction::Stop { err } => assert_eq!(
            err,
            &WalletError::Unknown(
                "create-tx planner failed: wallet has no signer keys for create-tx planner"
                    .to_string()
            )
        ),
        action => panic!("{:?}", action),
    }
}

#[test]
fn change_goes_to_the_signer_where_no_refund_is_given() {
    let planner = start(request())
        .on_signing_keys(Ok(Some(Some(vec![digest(5)]))))
        .on_recipient_outputs(Ok(vec![]));
    match planner.action() {
        PlannerAction::DeriveRefundOutput {
            refund,
            master_signer,
            ..
        } => {
            assert_eq!(refund, None);
            assert_eq!(master_signer, &digest(5));
        }
        action => panic!("{:?}", action),
    }
}

#[test]
fn errors_are_put_into_words_outside() {
    let planner: Planner = Wallet::create_tx_with_planner(None, request());
    let planner = planner.on_balance(Ok(None));
    match planner.action() {
        PlannerAction::Describe { err } => assert_eq!(
            err,
            &WalletError::OtherError("wallet balance peek returned no balance payload".to_string())
        ),
        action => panic!("{:?}", action),
    }
    assert_eq!(
        failure(planner.on_words("nothing there".to_string())),
        "create-tx planner failed: unable to read synced balance from wallet state: nothing there"
    );
}

#[test]
fn command_says_all_that_was_asked_for() {
    let planner = at_plan(start(CreateTxRequest {
        fee: Some(700),
        sign_keys: vec![(3, true)],
        save_raw_tx: true,
        ..request()
    }))
    .on_plan(Ok(Plan {
        selected: vec![name(3, 4)],
        final_fee: 640,
    }));
    assert_eq!(planner.request().fee, Some(700));
    let listed = vec![("d3".to_string(), "d4".to_string())];
    let command = planner.on_command_inputs(Ok(listed), None, "desc").unwrap();
    let yes = || Noun::number(0);
    let no = || Noun::number(1);
    let nil = || Noun::number(0);
    assert_eq!(
        command.args,
        vec![
            cell(cell(Noun::cord("d3"), Noun::cord("d4")), nil()),
            cell(Noun::number(7), nil()),
            Noun::number(700),
            no(),
            cell(nil(), cell(cell(Noun::number(3), yes()), nil())),
            nil(),
            yes(),
            yes(),
            Noun::cord("desc"),
        ]
    );
}

#[test]
fn plan_request_ignores_fee_and_keys() {
    let shown = |request: CreateTxRequest| format!("{:?}", at_plan(start(request)).into_stage());
    assert_eq!(
        shown(request()),
        shown(CreateTxRequest {
            fee: Some(1),
            allow_low_fee: true,
            sign_keys: vec![(3, true)],
            save_raw_tx: true,
            ..request()
        })
    );
}
