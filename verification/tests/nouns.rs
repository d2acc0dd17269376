use nockchain_wallet::constants::{PlannerBlockchainConstantsNoun, PlannerNoteDataConstantsNoun};
use nockchain_wallet::error::WalletError;
use nockchain_wallet::noun::{Noun, NounDecodeError};
use nockchain_wallet::text::decimal_text;
use nockchain_wallet::wallet::Wallet;

fn atom(bytes: &[u8]) -> Noun {
    Noun::Atom(bytes.to_vec())
}

fn cell(head: Noun, tail: Noun) -> Noun {
    Noun::Cell(Box::new(head), Box::new(tail))
}

fn tuple(mut items: Vec<Noun>) -> Noun {
    let mut noun = items.pop().unwrap();
    while let Some(item) = items.pop() {
        noun = cell(item, noun);
    }
    noun
}

fn legacy(flag: Noun, min: Noun) -> Noun {
    let mut fields: Vec<Noun> = (1..=8).map(Noun::number).collect();
    fields.push(flag);
    fields.push(min);
    fields.push(Noun::number(11));
    fields.push(cell(Noun::number(1), Noun::number(2)));
    fields.push(Noun::number(13));
    tuple(fields)
}

fn constants_noun(legacy_constants: Noun) -> Noun {
    tuple(vec![
        Noun::number(10),
        Noun::number(20),
        tuple(vec![Noun::number(2048), Noun::number(256)]),
        Noun::number(128),
        Noun::number(4),
        legacy_constants,
    ])
}

fn shown(payload: Noun) -> Noun {
    cell(Noun::number(0), cell(Noun::number(0), payload))
}

#[test]
fn numbers_are_little_endian_without_zeros() {
    assert_eq!(Noun::number(0), atom(&[]));
    assert_eq!(Noun::number(1), atom(&[1]));
    assert_eq!(Noun::number(256), atom(&[0, 1]));
    assert_eq!(Noun::number(0x0102_0304), atom(&[4, 3, 2, 1]));
    assert_eq!(Noun::number(u64::MAX), atom(&[255; 8]));
}

#[test]
fn numbers_read_back() {
    for n in [0, 1, 255, 256, 65_535, 1 << 63, u64::MAX] {
        assert_eq!(Noun::number(n).as_u64(), Ok(n));
    }
    assert_eq!(atom(&[7, 0, 0, 0, 0, 0, 0, 0, 0, 0]).as_u64(), Ok(7));
    assert_eq!(
        atom(&[0, 0, 0, 0, 0, 0, 0, 0, 1]).as_u64(),
        Err(NounDecodeError::AtomTooLarge)
    );
    assert_eq!(
        cell(atom(&[]), atom(&[])).as_u64(),
        Err(NounDecodeError::ExpectedAtom)
    );
}

#[test]
fn texts_are_their_bytes() {
    assert_eq!(Noun::cord(""), atom(&[]));
    assert_eq!(Noun::cord("create-tx"), atom(b"create-tx"));
    assert_eq!(Noun::cord("\u{e9}"), atom(&[0xc3, 0xa9]));
}

#[test]
fn lists_end_in_zero() {
    assert_eq!(Noun::list(vec![]), Noun::number(0));
    assert_eq!(
        Noun::list(vec![Noun::number(1), Noun::number(2)]),
        cell(Noun::number(1), cell(Noun::number(2), Noun::number(0)))
    );
}

#[test]
fn optional_values_and_truth_values_read_back() {
    assert_eq!(Noun::unit(None).as_unit(), Ok(None));
    let some = Noun::unit(Some(Noun::number(9)));
    assert_eq!(some, cell(Noun::number(0), Noun::number(9)));
    assert_eq!(some.as_unit(), Ok(Some(&Noun::number(9))));
    assert_eq!(Noun::number(1).as_unit(), Err(NounDecodeError::InvalidUnit));
    assert_eq!(
        cell(Noun::number(1), Noun::number(9)).as_unit(),
        Err(NounDecodeError::InvalidUnit)
    );
    assert_eq!(Noun::loobean(true), Noun::number(0));
    assert_eq!(Noun::loobean(false), Noun::number(1));
    assert_eq!(Noun::loobean(true).as_loobean(), Ok(true));
    assert_eq!(Noun::loobean(false).as_loobean(), Ok(false));
    assert_eq!(
        Noun::number(2).as_loobean(),
        Err(NounDecodeError::InvalidLoobean)
    );
}

#[test]
fn tuples_read_back() {
    let items: Vec<Noun> = (1..=4).map(Noun::number).collect();
    let noun = tuple(items.clone());
    let fields = noun.as_fields(4).unwrap();
    assert_eq!(fields, items.iter().collect::<Vec<_>>());
    assert_eq!(noun.as_fields(5), Err(NounDecodeError::ExpectedCell));
    assert_eq!(noun.as_fields(1), Ok(vec![&noun]));
}

#[test]
fn numbers_in_decimal() {
    assert_eq!(decimal_text(0), "0");
    assert_eq!(decimal_text(9), "9");
    assert_eq!(decimal_text(10), "10");
    assert_eq!(decimal_text(1_234_567_890), "1234567890");
    assert_eq!(decimal_text(u64::MAX), "18446744073709551615");
}

#[test]
fn constants_read_back() {
    let noun = shown(constants_noun(legacy(Noun::number(0), Noun::number(100))));
    let constants = Wallet::blockchain_constants_from_peek(Ok(noun)).unwrap();
    assert_eq!(constants.v1_phase, 10);
    assert_eq!(constants.bythos_phase, 20);
    assert_eq!(
        constants.data,
        PlannerNoteDataConstantsNoun {
            max_size: 2048,
            min_fee: 256
        }
    );
    assert_eq!(constants.base_fee, 128);
    assert_eq!(constants.input_fee_divisor, 4);
    assert_eq!(constants.coinbase_timelock_min(), Ok(100));
}

#[test]
fn absent_constants_are_an_error() {
    let absent = WalletError::OtherError(
        "wallet blockchain-constants peek returned no payload".to_string(),
    );
    let none = Wallet::blockchain_constants_from_peek(Ok(Noun::number(0)));
    assert_eq!(none.unwrap_err(), absent);
    let some_none = cell(Noun::number(0), Noun::number(0));
    let none = Wallet::blockchain_constants_from_peek(Ok(some_none));
    assert_eq!(none.unwrap_err(), absent);
}

#[test]
fn malformed_constants_are_an_error() {
    let failure = WalletError::External("kernel is gone".to_string());
    let r = Wallet::blockchain_constants_from_peek(Err(failure));
    assert_eq!(
        r.unwrap_err(),
        WalletError::External("kernel is gone".to_string())
    );
    let r = Wallet::blockchain_constants_from_peek(Ok(Noun::number(5)));
    assert_eq!(
        r.unwrap_err(),
        WalletError::Decode(NounDecodeError::InvalidUnit)
    );
    let r = Wallet::blockchain_constants_from_peek(Ok(shown(Noun::number(5))));
    assert_eq!(
        r.unwrap_err(),
        WalletError::Decode(NounDecodeError::ExpectedCell)
    );
    let wide = tuple(vec![
        Noun::number(10),
        atom(&[1; 9]),
        Noun::number(0),
        Noun::number(0),
        Noun::number(0),
        Noun::number(0),
    ]);
    assert_eq!(
        PlannerBlockchainConstantsNoun::from_noun(&wide).unwrap_err(),
        NounDecodeError::AtomTooLarge
    );
}

#[test]
fn coinbase_timelock_needs_all_legacy_fields() {
    let read = |legacy_constants: Noun| {
        PlannerBlockchainConstantsNoun::from_noun(&constants_noun(legacy_constants))
            .unwrap()
            .coinbase_timelock_min()
    };
    assert_eq!(read(legacy(Noun::number(1), Noun::number(7))), Ok(7));
    let missing = |cause: NounDecodeError| {
        Err(WalletError::OtherErrorFrom {
            text: "wallet blockchain-constants payload missing coinbase timelock min: ".to_string(),
            cause,
        })
    };
    assert_eq!(
        read(legacy(Noun::number(2), Noun::number(7))),
        missing(NounDecodeError::InvalidLoobean)
    );
    assert_eq!(
        read(legacy(Noun::number(0), cell(atom(&[]), atom(&[])))),
        missing(NounDecodeError::ExpectedAtom)
    );
    assert_eq!(
        read(Noun::number(7)),
        missing(NounDecodeError::ExpectedCell)
    );
}

#[test]
fn peek_paths() {
    assert_eq!(
        Wallet::peek_path("balance"),
        cell(atom(b"balance"), Noun::number(0))
    );
}
