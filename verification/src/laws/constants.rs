//! The blockchain constants that the wallet's state shows.

use crate::constants;
use crate::constants::{PlannerBlockchainConstantsNoun, PlannerNoteDataConstantsNoun};
use crate::error::WalletError;
use crate::laws::nouns;
use crate::noun;
use crate::noun::{Noun, NounDecodeError, NounView};
use crate::wallet::Wallet;
use vstd::prelude::*;

verus! {

/// The path of a place is its name, and nothing behind it.
pub proof fn law_path_names_the_place(tag: &str, path: Noun)
    requires
        call_ensures(Wallet::peek_path, (tag,), path),
    ensures
        path@ matches NounView::Cell(head, tail) && nouns::is_text(*head, tag@) && *tail
            == NounView::Atom(0),
{
    nouns::lemma_is_text(tag@);
}

/// The noun `[max-size min-fee]`.
pub open spec fn is_data(noun: NounView, max_size: u64, min_fee: u64) -> bool {
    nouns::is_tuple(
        noun,
        seq![NounView::Atom(max_size as nat), NounView::Atom(min_fee as nat)],
    )
}

/// The noun `[v1-phase bythos-phase data base-fee input-fee-divisor legacy]`.
pub open spec fn is_constants(
    noun: NounView,
    v1_phase: u64,
    bythos_phase: u64,
    data: NounView,
    base_fee: u64,
    input_fee_divisor: u64,
    legacy: NounView,
) -> bool {
    nouns::is_tuple(
        noun,
        seq![
            NounView::Atom(v1_phase as nat),
            NounView::Atom(bythos_phase as nat),
            data,
            NounView::Atom(base_fee as nat),
            NounView::Atom(input_fee_divisor as nat),
            legacy,
        ],
    )
}

pub proof fn lemma_data(noun: NounView, max_size: u64, min_fee: u64)
    ensures
        is_data(noun, max_size, min_fee) <==> constants::note_data_constants_of(noun) == Ok::<
            PlannerNoteDataConstantsNoun,
            NounDecodeError,
        >(PlannerNoteDataConstantsNoun { max_size, min_fee }),
{
    let fields = seq![NounView::Atom(max_size as nat), NounView::Atom(min_fee as nat)];
    nouns::lemma_is_tuple(noun, fields);
    if constants::note_data_constants_of(noun) == Ok::<
        PlannerNoteDataConstantsNoun,
        NounDecodeError,
    >(PlannerNoteDataConstantsNoun { max_size, min_fee }) {
        noun::law_tuple_of_fields(noun, 2);
        assert(noun::fields_of(noun, 2)->Ok_0 =~= fields);
    }
}

pub proof fn lemma_constants(
    noun: NounView,
    v1_phase: u64,
    bythos_phase: u64,
    max_size: u64,
    min_fee: u64,
    data: NounView,
    base_fee: u64,
    input_fee_divisor: u64,
    legacy: NounView,
)
    requires
        is_constants(noun, v1_phase, bythos_phase, data, base_fee, input_fee_divisor, legacy),
        is_data(data, max_size, min_fee),
    ensures
        constants::blockchain_constants_of(noun) == Ok::<
            constants::PlannerBlockchainConstantsView,
            NounDecodeError,
        >(
            constants::PlannerBlockchainConstantsView {
                v1_phase,
                bythos_phase,
                data: PlannerNoteDataConstantsNoun { max_size, min_fee },
                base_fee,
                input_fee_divisor,
                legacy_constants: legacy,
            },
        ),
{
    let fields = seq![
        NounView::Atom(v1_phase as nat),
        NounView::Atom(bythos_phase as nat),
        data,
        NounView::Atom(base_fee as nat),
        NounView::Atom(input_fee_divisor as nat),
        legacy,
    ];
    nouns::lemma_is_tuple(noun, fields);
    lemma_data(data, max_size, min_fee);
}

/// The data noun of constants that were read.
pub open spec fn reads_as(noun: NounView, read: constants::PlannerBlockchainConstantsView) -> bool {
    exists|data: NounView|
        {
            &&& #[trigger] is_data(data, read.data.max_size, read.data.min_fee)
            &&& is_constants(
                noun,
                read.v1_phase,
                read.bythos_phase,
                data,
                read.base_fee,
                read.input_fee_divisor,
                read.legacy_constants,
            )
        }
}

pub proof fn lemma_reads_as(noun: NounView, read: constants::PlannerBlockchainConstantsView)
    ensures
        constants::blockchain_constants_of(noun) == Ok::<
            constants::PlannerBlockchainConstantsView,
            NounDecodeError,
        >(read) <==> reads_as(noun, read),
{
    if constants::blockchain_constants_of(noun) == Ok::<
        constants::PlannerBlockchainConstantsView,
        NounDecodeError,
    >(read) {
        noun::law_tuple_of_fields(noun, 6);
        let fields = noun::fields_of(noun, 6)->Ok_0;
        lemma_data(fields[2], read.data.max_size, read.data.min_fee);
        let wanted = seq![
            NounView::Atom(read.v1_phase as nat),
            NounView::Atom(read.bythos_phase as nat),
            fields[2],
            NounView::Atom(read.base_fee as nat),
            NounView::Atom(read.input_fee_divisor as nat),
            read.legacy_constants,
        ];
        assert(fields =~= wanted);
        nouns::lemma_is_tuple(noun, wanted);
        assert(is_data(fields[2], read.data.max_size, read.data.min_fee));
    }
    if reads_as(noun, read) {
        let data = choose|data: NounView|
            {
                &&& #[trigger] is_data(data, read.data.max_size, read.data.min_fee)
                &&& is_constants(
                    noun,
                    read.v1_phase,
                    read.bythos_phase,
                    data,
                    read.base_fee,
                    read.input_fee_divisor,
                    read.legacy_constants,
                )
            };
        lemma_constants(
            noun,
            read.v1_phase,
            read.bythos_phase,
            read.data.max_size,
            read.data.min_fee,
            data,
            read.base_fee,
            read.input_fee_divisor,
            read.legacy_constants,
        );
    }
}

/// Note-data constants that are read are the two numbers that the noun holds, and every such noun
/// is read.
pub proof fn law_data_constants_are_read(
    noun: Noun,
    max_size: u64,
    min_fee: u64,
    r: Result<PlannerNoteDataConstantsNoun, NounDecodeError>,
)
    requires
        call_ensures(PlannerNoteDataConstantsNoun::from_noun, (&noun,), r),
    ensures
        r is Ok && r->Ok_0.max_size == max_size && r->Ok_0.min_fee == min_fee <==> is_data(
            noun@,
            max_size,
            min_fee,
        ),
{
    lemma_data(noun@, max_size, min_fee);
}

/// Constants that are read are those that stand in the noun, each in its place, and every such
/// noun is read.
pub proof fn law_constants_are_read(
    noun: Noun,
    r: Result<PlannerBlockchainConstantsNoun, NounDecodeError>,
)
    requires
        call_ensures(PlannerBlockchainConstantsNoun::from_noun, (&noun,), r),
    ensures
        r matches Ok(c) ==> exists|data: NounView|
            {
                &&& #[trigger] is_data(data, c.data.max_size, c.data.min_fee)
                &&& is_constants(
                    noun@,
                    c.v1_phase,
                    c.bythos_phase,
                    data,
                    c.base_fee,
                    c.input_fee_divisor,
                    c.legacy_constants@,
                )
            },
        r is Err ==> forall|read: constants::PlannerBlockchainConstantsView|
            !#[trigger] reads_as(noun@, read),
{
    if r is Ok {
        lemma_reads_as(noun@, r->Ok_0@);
    } else {
        assert forall|read: constants::PlannerBlockchainConstantsView|
            !#[trigger] reads_as(noun@, read) by {
            lemma_reads_as(noun@, read);
        }
    }
}

/// What the state shows of a value: the value under two zero heads.
pub open spec fn is_shown(noun: NounView, payload: NounView) -> bool {
    &&& noun matches NounView::Cell(outer, inner)
    &&& *outer == NounView::Atom(0)
    &&& *inner matches NounView::Cell(head, tail)
    &&& *head == NounView::Atom(0)
    &&& *tail == payload
}

/// Zero, or zero under a zero head.
pub open spec fn shows_nothing(noun: NounView) -> bool {
    ||| noun == NounView::Atom(0)
    ||| (noun matches NounView::Cell(outer, inner) && *outer == NounView::Atom(0) && *inner
        == NounView::Atom(0))
}

pub proof fn lemma_shown(noun: NounView, read: constants::PlannerBlockchainConstantsView)
    ensures
        constants::shown_constants(noun) == Ok::<
            Option<constants::PlannerBlockchainConstantsView>,
            NounDecodeError,
        >(Some(read)) <==> exists|payload: NounView| #[trigger]
            is_shown(noun, payload) && reads_as(payload, read),
{
    match noun {
        NounView::Atom(_) => {},
        NounView::Cell(outer, inner) => match *inner {
            NounView::Atom(_) => {},
            NounView::Cell(head, tail) => {
                lemma_reads_as(*tail, read);
                if *outer == NounView::Atom(0) && *head == NounView::Atom(0) {
                    assert(is_shown(noun, *tail));
                }
            },
        },
    }
}

pub proof fn lemma_shows_nothing(noun: NounView)
    ensures
        constants::shown_constants(noun) == Ok::<
            Option<constants::PlannerBlockchainConstantsView>,
            NounDecodeError,
        >(None) <==> shows_nothing(noun),
{
}

/// The constants that a look shows are handed out; a look that shows none, or something else, or
/// that fails, is an error of its own.
pub proof fn law_shown_constants_are_handed_out(
    peeked: Result<Noun, WalletError>,
    r: Result<PlannerBlockchainConstantsNoun, WalletError>,
)
    requires
        call_ensures(Wallet::blockchain_constants_from_peek, (peeked,), r),
    ensures
        r matches Ok(c) ==> peeked is Ok && exists|payload: NounView| #[trigger]
            is_shown(peeked->Ok_0@, payload) && reads_as(payload, c@),
        peeked is Ok && r is Err ==> forall|
            payload: NounView,
            read: constants::PlannerBlockchainConstantsView,
        |
            !(#[trigger] is_shown(peeked->Ok_0@, payload) && #[trigger] reads_as(payload, read)),
        peeked matches Err(err) ==> r == Err::<PlannerBlockchainConstantsNoun, WalletError>(err),
        peeked is Ok && shows_nothing(peeked->Ok_0@) ==> (r matches Err(
            WalletError::OtherError(words),
        ) && words@ == "wallet blockchain-constants peek returned no payload"@),
        peeked is Ok && !shows_nothing(peeked->Ok_0@) && r is Err ==> r->Err_0 is Decode,
{
    if peeked is Ok {
        let shown = peeked->Ok_0@;
        if r is Ok {
            lemma_shown(shown, r->Ok_0@);
        } else {
            assert forall|payload: NounView, read: constants::PlannerBlockchainConstantsView|
                !(#[trigger] is_shown(shown, payload) && #[trigger] reads_as(payload, read)) by {
                lemma_shown(shown, read);
            }
        }
        lemma_shows_nothing(shown);
    }
}

/// Constants that were read keep their numbers.
pub proof fn law_constants_view_is_faithful(c: PlannerBlockchainConstantsNoun)
    ensures
        c@.v1_phase == c.v1_phase,
        c@.bythos_phase == c.bythos_phase,
        c@.data.max_size == c.data.max_size,
        c@.data.min_fee == c.data.min_fee,
        c@.base_fee == c.base_fee,
        c@.input_fee_divisor == c.input_fee_divisor,
        c@.legacy_constants == c.legacy_constants@,
{
}

/// Thirteen fields, of which the ninth is yes or no and the tenth this number.
pub open spec fn holds_timelock(legacy: NounView, fields: Seq<NounView>, min: u64) -> bool {
    &&& fields.len() == 13
    &&& nouns::is_tuple(legacy, fields)
    &&& fields[8] == NounView::Atom(0) || fields[8] == NounView::Atom(1)
    &&& fields[9] == NounView::Atom(min as nat)
}

pub proof fn lemma_timelock(legacy: NounView, min: u64)
    ensures
        constants::coinbase_timelock_min_of(legacy) == Ok::<u64, NounDecodeError>(min)
            <==> exists|fields: Seq<NounView>| holds_timelock(legacy, fields, min),
{
    if constants::coinbase_timelock_min_of(legacy) == Ok::<u64, NounDecodeError>(min) {
        noun::law_tuple_of_fields(legacy, 13);
        let fields = noun::fields_of(legacy, 13)->Ok_0;
        nouns::lemma_is_tuple(legacy, fields);
        assert(holds_timelock(legacy, fields, min));
    }
    if exists|fields: Seq<NounView>| holds_timelock(legacy, fields, min) {
        let fields = choose|fields: Seq<NounView>| holds_timelock(legacy, fields, min);
        nouns::lemma_is_tuple(legacy, fields);
    }
}

/// The coinbase lock time is the tenth of the thirteen legacy fields, and is read wherever it
/// stands there.
pub proof fn law_timelock_is_read(
    c: PlannerBlockchainConstantsNoun,
    r: Result<u64, WalletError>,
)
    requires
        call_ensures(PlannerBlockchainConstantsNoun::coinbase_timelock_min, (&c,), r),
    ensures
        r matches Ok(min) ==> exists|fields: Seq<NounView>|
            holds_timelock(c.legacy_constants@, fields, min),
        r is Err ==> forall|fields: Seq<NounView>, min: u64|
            !holds_timelock(c.legacy_constants@, fields, min),
        r matches Err(err) ==> (err matches WalletError::OtherErrorFrom { text, cause: _ } && text@
            == "wallet blockchain-constants payload missing coinbase timelock min: "@),
{
    if r is Ok {
        lemma_timelock(c.legacy_constants@, r->Ok_0);
    } else {
        assert forall|fields: Seq<NounView>, min: u64|
            !holds_timelock(c.legacy_constants@, fields, min) by {
            lemma_timelock(c.legacy_constants@, min);
        }
    }
}

/// What is wrong with a noun that should be a number of sixty-four bits.
pub open spec fn number_fault(noun: NounView) -> NounDecodeError {
    if noun is Cell {
        NounDecodeError::ExpectedAtom
    } else {
        NounDecodeError::AtomTooLarge
    }
}

/// Where the coinbase lock time cannot be read, the first fault is named: fewer fields than
/// thirteen, a ninth field that is neither yes nor no, or a tenth that is no number.
pub proof fn law_timelock_fault_is_named(
    c: PlannerBlockchainConstantsNoun,
    fields: Seq<NounView>,
    r: Result<u64, WalletError>,
)
    requires
        call_ensures(PlannerBlockchainConstantsNoun::coinbase_timelock_min, (&c,), r),
        r is Err,
        fields.len() == 13,
    ensures
        r->Err_0 is OtherErrorFrom,
        nouns::is_tuple(c.legacy_constants@, fields) ==> r->Err_0->cause == (if fields[8]
            == NounView::Atom(0) || fields[8] == NounView::Atom(1) {
            number_fault(fields[9])
        } else if fields[8] is Atom && fields[8]->Atom_0 < 0x1_0000_0000_0000_0000 {
            NounDecodeError::InvalidLoobean
        } else {
            number_fault(fields[8])
        }),
        (forall|some: Seq<NounView>|
            some.len() == 13 ==> !#[trigger] nouns::is_tuple(c.legacy_constants@, some)) ==> r->Err_0->cause
            == NounDecodeError::ExpectedCell,
{
    nouns::lemma_is_tuple(c.legacy_constants@, fields);
    if noun::fields_of(c.legacy_constants@, 13) is Ok {
        noun::law_tuple_of_fields(c.legacy_constants@, 13);
        let some = noun::fields_of(c.legacy_constants@, 13)->Ok_0;
        nouns::lemma_is_tuple(c.legacy_constants@, some);
    } else {
        nouns::lemma_no_other_error(c.legacy_constants@, 13);
    }
}

/// A number of sixty-four bits.
pub open spec fn is_number(noun: NounView) -> bool {
    noun is Atom && noun->Atom_0 < 0x1_0000_0000_0000_0000
}

/// The first fault of the two numbers `[max-size min-fee]`.
pub open spec fn data_fault(noun: NounView) -> NounDecodeError {
    match noun {
        NounView::Atom(_) => NounDecodeError::ExpectedCell,
        NounView::Cell(max_size, min_fee) => if !is_number(*max_size) {
            number_fault(*max_size)
        } else {
            number_fault(*min_fee)
        },
    }
}

proof fn lemma_data_fault(noun: NounView)
    ensures
        constants::note_data_constants_of(noun) matches Err(err) ==> err == data_fault(noun),
{
    match noun {
        NounView::Atom(_) => {},
        NounView::Cell(max_size, min_fee) => {
            assert(noun::fields_of(*min_fee, 1) == Ok::<Seq<NounView>, NounDecodeError>(
                seq![*min_fee],
            ));
            let fields = seq![*max_size] + seq![*min_fee];
            assert(fields[0] == *max_size && fields[1] == *min_fee);
        },
    }
}

/// Where note-data constants cannot be read, the first fault is named.
pub proof fn law_data_fault_is_named(
    noun: Noun,
    r: Result<PlannerNoteDataConstantsNoun, NounDecodeError>,
)
    requires
        call_ensures(PlannerNoteDataConstantsNoun::from_noun, (&noun,), r),
    ensures
        r matches Err(err) ==> err == data_fault(noun@),
{
    lemma_data_fault(noun@);
}

/// Where constants cannot be read, the first fault is named: too few fields, or the first field
/// that is not what it should be.
pub proof fn law_constants_fault_is_named(
    noun: Noun,
    fields: Seq<NounView>,
    r: Result<PlannerBlockchainConstantsNoun, NounDecodeError>,
)
    requires
        call_ensures(PlannerBlockchainConstantsNoun::from_noun, (&noun,), r),
        r is Err,
        fields.len() == 6,
    ensures
        nouns::is_tuple(noun@, fields) ==> r->Err_0 == (if !is_number(fields[0]) {
            number_fault(fields[0])
        } else if !is_number(fields[1]) {
            number_fault(fields[1])
        } else if !(exists|max_size: u64, min_fee: u64| is_data(fields[2], max_size, min_fee)) {
            data_fault(fields[2])
        } else if !is_number(fields[3]) {
            number_fault(fields[3])
        } else {
            number_fault(fields[4])
        }),
        (forall|some: Seq<NounView>|
            some.len() == 6 ==> !#[trigger] nouns::is_tuple(noun@, some)) ==> r->Err_0
            == NounDecodeError::ExpectedCell,
{
    nouns::lemma_is_tuple(noun@, fields);
    lemma_data_fault(fields[2]);
    let data = constants::note_data_constants_of(fields[2]);
    if data is Ok {
        lemma_data(fields[2], data->Ok_0.max_size, data->Ok_0.min_fee);
    } else if exists|max_size: u64, min_fee: u64| is_data(fields[2], max_size, min_fee) {
        let (max_size, min_fee) = choose|max_size: u64, min_fee: u64|
            is_data(fields[2], max_size, min_fee);
        lemma_data(fields[2], max_size, min_fee);
    }
    if noun::fields_of(noun@, 6) is Ok {
        noun::law_tuple_of_fields(noun@, 6);
        let some = noun::fields_of(noun@, 6)->Ok_0;
        nouns::lemma_is_tuple(noun@, some);
    } else {
        nouns::lemma_no_other_error(noun@, 6);
    }
}

/// What is wrong with a look at the constants is what is wrong with what it shows: something that
/// is no optional value, or a payload that cannot be read, for the reason it cannot.
pub proof fn law_fault_of_shown_constants(
    shown: Noun,
    payload: Noun,
    read: Result<PlannerBlockchainConstantsNoun, NounDecodeError>,
    r: Result<PlannerBlockchainConstantsNoun, WalletError>,
)
    requires
        call_ensures(Wallet::blockchain_constants_from_peek, (Ok(shown),), r),
        call_ensures(PlannerBlockchainConstantsNoun::from_noun, (&payload,), read),
    ensures
        is_shown(shown@, payload@) && read is Err ==> r == Err::<
            PlannerBlockchainConstantsNoun,
            WalletError,
        >(WalletError::Decode(read->Err_0)),
        is_shown(shown@, payload@) && read is Ok ==> r is Ok && r->Ok_0@ == read->Ok_0@,
        !shows_nothing(shown@) && !(exists|some: NounView| is_shown(shown@, some)) ==> r == Err::<
            PlannerBlockchainConstantsNoun,
            WalletError,
        >(WalletError::Decode(NounDecodeError::InvalidUnit)),
{
    lemma_shows_nothing(shown@);
    match shown@ {
        NounView::Atom(_) => {},
        NounView::Cell(outer, inner) => match *inner {
            NounView::Atom(_) => {},
            NounView::Cell(head, tail) => {
                if *outer == NounView::Atom(0) && *head == NounView::Atom(0) {
                    assert(is_shown(shown@, *tail));
                }
            },
        },
    }
}

} // verus!
