use nockchain_wallet::command::{
    select_fee, NoteSelectionStrategyCli, Operation, RefundPkh, SelectionOrder,
};
use nockchain_wallet::error::WalletError;
use nockchain_wallet::noun::Noun;
use nockchain_wallet::wallet::Wallet;

fn cell(head: Noun, tail: Noun) -> Noun {
    Noun::Cell(Box::new(head), Box::new(tail))
}

fn pair(first: &str, last: &str) -> (String, String) {
    (first.to_string(), last.to_string())
}

fn nil() -> Noun {
    Noun::number(0)
}

#[test]
fn order_directions() {
    assert_eq!(
        Wallet::planner_order_direction(NoteSelectionStrategyCli::Ascending),
        SelectionOrder::Ascending
    );
    assert_eq!(
        Wallet::planner_order_direction(NoteSelectionStrategyCli::Descending),
        SelectionOrder::Descending
    );
}

#[test]
fn sign_keys_are_an_optional_list() {
    assert_eq!(Wallet::encode_sign_keys(vec![]), nil());
    assert_eq!(
        Wallet::encode_sign_keys(vec![(3, true), (1, false)]),
        cell(
            nil(),
            cell(
                cell(Noun::number(3), Noun::number(0)),
                cell(cell(Noun::number(1), Noun::number(1)), nil())
            )
        )
    );
}

#[test]
fn command_lists_its_arguments() {
    let command = Wallet::create_tx(
        Ok(vec![pair("a", "b"), pair("c", "d")]),
        vec![Noun::number(7), Noun::number(8)],
        300,
        true,
        Some(RefundPkh {
            text: "refund".to_string(),
            decoded: Ok(Noun::number(99)),
        }),
        vec![(2, true)],
        false,
        true,
        "asc",
    )
    .unwrap();
    assert_eq!(command.name, "create-tx");
    assert_eq!(command.operation, Operation::Poke);
    assert_eq!(
        command.args,
        vec![
            cell(
                cell(Noun::cord("a"), Noun::cord("b")),
                cell(cell(Noun::cord("c"), Noun::cord("d")), nil())
            ),
            cell(Noun::number(7), cell(Noun::number(8), nil())),
            Noun::number(300),
            Noun::number(0),
            cell(nil(), cell(cell(Noun::number(2), Noun::number(0)), nil())),
            cell(nil(), Noun::number(99)),
            Noun::number(1),
            Noun::number(0),
            Noun::cord("asc"),
        ]
    );
}

#[test]
fn command_without_refund_and_keys() {
    let command = Wallet::create_tx_command_for_tests(
        Ok(vec![]),
        vec![],
        0,
        false,
        None,
        vec![],
        true,
        false,
        "desc",
    )
    .unwrap();
    assert_eq!(
        command.args,
        vec![
            nil(),
            nil(),
            nil(),
            Noun::number(1),
            nil(),
            nil(),
            Noun::number(0),
            Noun::number(1),
            Noun::cord("desc"),
        ]
    );
}

#[test]
fn unreadable_names_come_before_an_invalid_refund() {
    let refund = || {
        Some(RefundPkh {
            text: "nope".to_string(),
            decoded: Err("bad checksum".to_string()),
        })
    };
    let unreadable = Wallet::create_tx(
        Err(WalletError::External("no names".to_string())),
        vec![],
        1,
        false,
        refund(),
        vec![],
        true,
        false,
        "asc",
    );
    assert_eq!(
        unreadable,
        Err(WalletError::External("no names".to_string()))
    );
    let invalid = Wallet::create_tx(
        Ok(vec![pair("a", "b")]),
        vec![],
        1,
        false,
        refund(),
        vec![],
        true,
        false,
        "asc",
    );
    assert_eq!(
        invalid,
        Err(WalletError::Unknown(
            "Invalid refund pubkey hash 'nope': bad checksum".to_string()
        ))
    );
}

#[test]
fn different_commands_have_different_arguments() {
    let args = |names: Vec<(String, String)>, fee: u64, low: bool| {
        Wallet::create_tx(Ok(names), vec![], fee, low, None, vec![], true, false, "asc")
            .unwrap()
            .args
    };
    let first = args(vec![pair("a", "b")], 1, false);
    assert_ne!(first, args(vec![pair("b", "a")], 1, false));
    assert_ne!(first, args(vec![pair("a", "b"), pair("a", "b")], 1, false));
    assert_ne!(first, args(vec![pair("a", "b")], 2, false));
    assert_ne!(first, args(vec![pair("a", "b")], 1, true));
}

#[test]
fn planned_fee_is_the_default() {
    assert_eq!(select_fee(None, 42, false), Ok(42));
    assert_eq!(select_fee(None, 42, true), Ok(42));
}

#[test]
fn requested_fee_must_not_be_too_low() {
    assert_eq!(select_fee(Some(42), 42, false), Ok(42));
    assert_eq!(select_fee(Some(100), 42, false), Ok(100));
    assert_eq!(select_fee(Some(41), 42, true), Ok(41));
    assert_eq!(
        select_fee(Some(41), 42, false),
        Err(WalletError::Unknown(
            "requested --fee 41 is below planner minimum 42 (pass --allow-low-fee to override)"
                .to_string()
        ))
    );
}
