//! The blockchain constants that planning needs, read out of the wallet's state.

use crate::error::{WalletError, WalletErrorView};
use crate::noun;
use crate::noun::{Noun, NounDecodeError, NounView};
use crate::wallet::Wallet;
use vstd::prelude::*;

verus! {

/// The constants for the data of a note.
#[derive(Clone, Copy, Debug, PartialEq, Eq, Structural)]
pub struct PlannerNoteDataConstantsNoun {
    pub max_size: u64,
    pub min_fee: u64,
}

/// The blockchain constants in the wallet's state.
#[derive(Debug)]
pub struct PlannerBlockchainConstantsNoun {
    pub v1_phase: u64,
    pub bythos_phase: u64,
    pub data: PlannerNoteDataConstantsNoun,
    pub base_fee: u64,
    pub input_fee_divisor: u64,
    /// The constants of the first version of the chain.
    pub legacy_constants: Noun,
}

pub struct PlannerBlockchainConstantsView {
    pub v1_phase: u64,
    pub bythos_phase: u64,
    pub data: PlannerNoteDataConstantsNoun,
    pub base_fee: u64,
    pub input_fee_divisor: u64,
    pub legacy_constants: NounView,
}

impl View for PlannerBlockchainConstantsNoun {
    type V = PlannerBlockchainConstantsView;

    open spec fn view(&self) -> PlannerBlockchainConstantsView {
        PlannerBlockchainConstantsView {
            v1_phase: self.v1_phase,
            bythos_phase: self.bythos_phase,
            data: self.data,
            base_fee: self.base_fee,
            input_fee_divisor: self.input_fee_divisor,
            legacy_constants: self.legacy_constants@,
        }
    }
}

/// A noun read as note-data constants: `[max-size min-fee]`.
pub open spec fn note_data_constants_of(noun: NounView) -> Result<
    PlannerNoteDataConstantsNoun,
    NounDecodeError,
> {
    match noun::fields_of(noun, 2) {
        Err(err) => Err(err),
        Ok(fields) => match (noun::u64_of(fields[0]), noun::u64_of(fields[1])) {
            (Err(err), _) => Err(err),
            (_, Err(err)) => Err(err),
            (Ok(max_size), Ok(min_fee)) => Ok(PlannerNoteDataConstantsNoun { max_size, min_fee }),
        },
    }
}

/// A noun read as blockchain constants:
/// `[v1-phase bythos-phase data base-fee input-fee-divisor legacy-constants]`.
/// Where several fields are wrong, the first of them is reported.
pub open spec fn blockchain_constants_of(noun: NounView) -> Result<
    PlannerBlockchainConstantsView,
    NounDecodeError,
> {
    match noun::fields_of(noun, 6) {
        Err(err) => Err(err),
        Ok(fields) => match (
            noun::u64_of(fields[0]),
            noun::u64_of(fields[1]),
            note_data_constants_of(fields[2]),
            noun::u64_of(fields[3]),
            noun::u64_of(fields[4]),
        ) {
            (Err(err), _, _, _, _) => Err(err),
            (_, Err(err), _, _, _) => Err(err),
            (_, _, Err(err), _, _) => Err(err),
            (_, _, _, Err(err), _) => Err(err),
            (_, _, _, _, Err(err)) => Err(err),
            (
                Ok(v1_phase),
                Ok(bythos_phase),
                Ok(data),
                Ok(base_fee),
                Ok(input_fee_divisor),
            ) => Ok(
                PlannerBlockchainConstantsView {
                    v1_phase,
                    bythos_phase,
                    data,
                    base_fee,
                    input_fee_divisor,
                    legacy_constants: fields[5],
                },
            ),
        },
    }
}

/// How long a coinbase is locked, read out of the legacy constants. These have thirteen
/// fields; the ninth is a truth value, the tenth is the number wanted, and the others may be
/// anything.
pub open spec fn coinbase_timelock_min_of(legacy_constants: NounView) -> Result<
    u64,
    NounDecodeError,
> {
    match noun::fields_of(legacy_constants, 13) {
        Err(err) => Err(err),
        Ok(fields) => match noun::loobean_of(fields[8]) {
            Err(err) => Err(err),
            Ok(_) => noun::u64_of(fields[9]),
        },
    }
}

/// The error about legacy constants without a coinbase lock time.
pub open spec fn timelock_unread(cause: NounDecodeError) -> WalletErrorView {
    WalletErrorView::OtherErrorFrom {
        text: "wallet blockchain-constants payload missing coinbase timelock min: "@,
        cause,
    }
}

impl PlannerNoteDataConstantsNoun {
    /// Reads note-data constants.
    pub fn from_noun(noun: &Noun) -> (r: Result<PlannerNoteDataConstantsNoun, NounDecodeError>)
        ensures
            r == note_data_constants_of(noun@),
    {
        let fields = match noun.as_fields(2) {
            Err(err) => {
                return Err(err);
            },
            Ok(fields) => fields,
        };
        match (fields[0].as_u64(), fields[1].as_u64()) {
            (Err(err), _) => Err(err),
            (_, Err(err)) => Err(err),
            (Ok(max_size), Ok(min_fee)) => Ok(PlannerNoteDataConstantsNoun { max_size, min_fee }),
        }
    }
}

impl PlannerBlockchainConstantsNoun {
    /// Reads blockchain constants.
    pub fn from_noun(noun: &Noun) -> (r: Result<PlannerBlockchainConstantsNoun, NounDecodeError>)
        ensures
            match r {
                Ok(constants) => blockchain_constants_of(noun@) == Ok::<
                    PlannerBlockchainConstantsView,
                    NounDecodeError,
                >(constants@),
                Err(err) => blockchain_constants_of(noun@) == Err::<
                    PlannerBlockchainConstantsView,
                    NounDecodeError,
                >(err),
            },
    {
        let fields = match noun.as_fields(6) {
            Err(err) => {
                return Err(err);
            },
            Ok(fields) => fields,
        };
        match (
            fields[0].as_u64(),
            fields[1].as_u64(),
            PlannerNoteDataConstantsNoun::from_noun(fields[2]),
            fields[3].as_u64(),
            fields[4].as_u64(),
        ) {
            (Err(err), _, _, _, _) => Err(err),
            (_, Err(err), _, _, _) => Err(err),
            (_, _, Err(err), _, _) => Err(err),
            (_, _, _, Err(err), _) => Err(err),
            (_, _, _, _, Err(err)) => Err(err),
            (
                Ok(v1_phase),
                Ok(bythos_phase),
                Ok(data),
                Ok(base_fee),
                Ok(input_fee_divisor),
            ) => Ok(
                PlannerBlockchainConstantsNoun {
                    v1_phase,
                    bythos_phase,
                    data,
                    base_fee,
                    input_fee_divisor,
                    legacy_constants: fields[5].clone(),
                },
            ),
        }
    }

    /// How long a coinbase is locked at least.
    pub fn coinbase_timelock_min(&self) -> (r: Result<u64, WalletError>)
        ensures
            match coinbase_timelock_min_of(self@.legacy_constants) {
                Ok(min) => r == Ok::<u64, WalletError>(min),
                Err(err) => r matches Err(e) && e@ == timelock_unread(err),
            },
    {
        let read = match self.legacy_constants.as_fields(13) {
            Err(err) => Err(err),
            Ok(fields) => match fields[8].as_loobean() {
                Err(err) => Err(err),
                Ok(_) => fields[9].as_u64(),
            },
        };
        match read {
            Ok(min) => Ok(min),
            Err(cause) => Err(
                WalletError::OtherErrorFrom {
                    text:
                        "wallet blockchain-constants payload missing coinbase timelock min: ".to_owned(),
                    cause,
                },
            ),
        }
    }
}

/// The constants in what a look into the wallet's state shows, if it shows any.
pub open spec fn shown_constants(shown: NounView) -> Result<
    Option<PlannerBlockchainConstantsView>,
    NounDecodeError,
> {
    match noun::unit_of(shown) {
        Err(err) => Err(err),
        Ok(None) => Ok(None),
        Ok(Some(inner)) => match noun::unit_of(inner) {
            Err(err) => Err(err),
            Ok(None) => Ok(None),
            Ok(Some(payload)) => match blockchain_constants_of(payload) {
                Err(err) => Err(err),
                Ok(constants) => Ok(Some(constants)),
            },
        },
    }
}

/// The path of a place in the wallet's state.
pub open spec fn peek_path_tree(tag: Seq<char>) -> NounView {
    noun::cell_tree(noun::cord_tree(tag), NounView::Atom(0))
}

impl Wallet {
    /// The path to look at a place in the wallet's state: `/balance`,
    /// `/blockchain-constants` or `/signing-keys`.
    pub fn peek_path(tag: &str) -> (path: Noun)
        ensures
            path@ == peek_path_tree(tag@),
    {
        Noun::cell(Noun::cord(tag), Noun::number(0))
    }

    /// What a look at the blockchain constants in the wallet's state gives.
    pub fn blockchain_constants_from_peek(peeked: Result<Noun, WalletError>) -> (r: Result<
        PlannerBlockchainConstantsNoun,
        WalletError,
    >)
        ensures
            match peeked {
                Err(err) => r == Err::<PlannerBlockchainConstantsNoun, WalletError>(err),
                Ok(shown) => match shown_constants(shown@) {
                    Ok(Some(constants)) => r matches Ok(c) && c@ == constants,
                    Ok(None) => r matches Err(e) && e@ == WalletErrorView::OtherError(
                        "wallet blockchain-constants peek returned no payload"@,
                    ),
                    Err(err) => r matches Err(e) && e@ == WalletErrorView::Decode(err),
                },
            },
    {
        let shown = match peeked {
            Err(err) => {
                return Err(err);
            },
            Ok(shown) => shown,
        };
        let inner = match shown.as_unit() {
            Err(err) => {
                return Err(WalletError::Decode(err));
            },
            Ok(inner) => inner,
        };
        let payload = match inner {
            None => None,
            Some(inner) => match inner.as_unit() {
                Err(err) => {
                    return Err(WalletError::Decode(err));
                },
                Ok(payload) => payload,
            },
        };
        match payload {
            None => Err(
                WalletError::OtherError(
                    "wallet blockchain-constants peek returned no payload".to_owned(),
                ),
            ),
            Some(payload) => match PlannerBlockchainConstantsNoun::from_noun(payload) {
                Err(err) => Err(WalletError::Decode(err)),
                Ok(constants) => Ok(constants),
            },
        }
    }
}

/// Blockchain constants as a noun.
pub open spec fn blockchain_constants_tree(constants: PlannerBlockchainConstantsView) -> NounView {
    noun::tuple_tree(
        seq![
            NounView::Atom(constants.v1_phase as nat),
            NounView::Atom(constants.bythos_phase as nat),
            noun::tuple_tree(
                seq![
                    NounView::Atom(constants.data.max_size as nat),
                    NounView::Atom(constants.data.min_fee as nat),
                ],
            ),
            NounView::Atom(constants.base_fee as nat),
            NounView::Atom(constants.input_fee_divisor as nat),
            constants.legacy_constants,
        ],
    )
}

/// A look at constants that were written into the state gives those constants.
pub proof fn law_shown_constants_are_those_written(constants: PlannerBlockchainConstantsView)
    ensures
        shown_constants(
            noun::unit_tree(Some(noun::unit_tree(Some(blockchain_constants_tree(constants))))),
        ) == Ok::<Option<PlannerBlockchainConstantsView>, NounDecodeError>(Some(constants)),
{
    let data = seq![
        NounView::Atom(constants.data.max_size as nat),
        NounView::Atom(constants.data.min_fee as nat),
    ];
    let fields = seq![
        NounView::Atom(constants.v1_phase as nat),
        NounView::Atom(constants.bythos_phase as nat),
        noun::tuple_tree(data),
        NounView::Atom(constants.base_fee as nat),
        NounView::Atom(constants.input_fee_divisor as nat),
        constants.legacy_constants,
    ];
    noun::law_fields_of_tuple(data);
    noun::law_fields_of_tuple(fields);
    assert(note_data_constants_of(fields[2]) == Ok::<PlannerNoteDataConstantsNoun, NounDecodeError>(
        constants.data,
    ));
}

/// Where a look shows constants, the state holds those constants and nothing else: what is
/// shown is the noun that they are written as.
pub proof fn law_written_constants_are_those_shown(
    shown: NounView,
    constants: PlannerBlockchainConstantsView,
)
    ensures
        shown_constants(shown) == Ok::<Option<PlannerBlockchainConstantsView>, NounDecodeError>(
            Some(constants),
        ) <==> shown == noun::unit_tree(
            Some(noun::unit_tree(Some(blockchain_constants_tree(constants)))),
        ),
{
    law_shown_constants_are_those_written(constants);
    if shown_constants(shown) == Ok::<Option<PlannerBlockchainConstantsView>, NounDecodeError>(
        Some(constants),
    ) {
        let inner = noun::unit_of(shown)->Ok_0->Some_0;
        let payload = noun::unit_of(inner)->Ok_0->Some_0;
        noun::law_tuple_of_fields(payload, 6);
        let fields = noun::fields_of(payload, 6)->Ok_0;
        noun::law_tuple_of_fields(fields[2], 2);
        let data = noun::fields_of(fields[2], 2)->Ok_0;
        assert(data =~= seq![
            NounView::Atom(constants.data.max_size as nat),
            NounView::Atom(constants.data.min_fee as nat),
        ]);
        assert(fields =~= seq![
            NounView::Atom(constants.v1_phase as nat),
            NounView::Atom(constants.bythos_phase as nat),
            noun::tuple_tree(data),
            NounView::Atom(constants.base_fee as nat),
            NounView::Atom(constants.input_fee_divisor as nat),
            constants.legacy_constants,
        ]);
    }
}

/// Where a coinbase lock time can be read, the legacy constants are thirteen fields with a
/// truth value as the ninth and that time as the tenth.
pub proof fn law_coinbase_timelock_comes_from_thirteen_fields(legacy_constants: NounView, min: u64)
    requires
        coinbase_timelock_min_of(legacy_constants) == Ok::<u64, NounDecodeError>(min),
    ensures
        exists|fields: Seq<NounView>, flag: bool|
            {
                &&& fields.len() == 13
                &&& legacy_constants == noun::tuple_tree(fields)
                &&& fields[8] == #[trigger] noun::loobean_tree(flag)
                &&& #[trigger] fields[9] == NounView::Atom(min as nat)
            },
{
    noun::law_tuple_of_fields(legacy_constants, 13);
    let fields = noun::fields_of(legacy_constants, 13)->Ok_0;
    let flag = noun::loobean_of(fields[8])->Ok_0;
    assert(fields[8] == noun::loobean_tree(flag));
    assert(fields[9] == NounView::Atom(min as nat));
}

/// The coinbase lock time is the tenth of the legacy constants, whatever the others are.
pub proof fn law_coinbase_timelock_is_tenth_field(fields: Seq<NounView>, flag: bool, min: u64)
    requires
        fields.len() == 13,
        fields[8] == noun::loobean_tree(flag),
        fields[9] == NounView::Atom(min as nat),
    ensures
        coinbase_timelock_min_of(noun::tuple_tree(fields)) == Ok::<u64, NounDecodeError>(min),
{
    noun::law_fields_of_tuple(fields);
    noun::law_loobean_of_loobean(flag);
}

} // verus!
