//! The create-tx command, and the fee.

use crate::command;
use crate::command::{
    NoteSelectionStrategyCli, RefundPkh, SelectionOrder, WalletCommand,
};
use crate::error::WalletError;
use crate::laws::nouns;
use crate::noun;
use crate::noun::{Noun, NounView};
use crate::text;
use crate::wallet::Wallet;
use vstd::prelude::*;

verus! {

/// The words for a fee that is too low, with both fees in digits.
pub open spec fn says_fee_is_low(words: Seq<char>, requested: u64, planned: u64) -> bool {
    exists|a: Seq<char>, b: Seq<char>|
        {
            &&& #[trigger] nouns::writes_number(a, requested as int)
            &&& #[trigger] nouns::writes_number(b, planned as int)
            &&& words == "requested --fee "@ + a + " is below planner minimum "@ + b
                + " (pass --allow-low-fee to override)"@
        }
}

pub proof fn lemma_says_fee_is_low(requested: u64, planned: u64)
    ensures
        says_fee_is_low(command::low_fee_text(requested, planned), requested, planned),
{
    nouns::lemma_writes_number(requested as nat);
    nouns::lemma_writes_number(planned as nat);
    assert(nouns::writes_number(text::decimal(requested as nat), requested as int));
    assert(nouns::writes_number(text::decimal(planned as nat), planned as int));
}

/// A fee is refused exactly when one was named that is below the plan and a low fee was not
/// allowed; otherwise the named fee is paid, or else the planned one.
pub proof fn law_fee_is_settled(
    fee: Option<u64>,
    planned_fee: u64,
    allow_low_fee: bool,
    r: Result<u64, WalletError>,
)
    requires
        call_ensures(command::select_fee, (fee, planned_fee, allow_low_fee), r),
    ensures
        r is Err <==> fee is Some && fee->Some_0 < planned_fee && !allow_low_fee,
        r is Ok && fee is Some ==> r->Ok_0 == fee->Some_0,
        r is Ok && fee is None ==> r->Ok_0 == planned_fee,
        r matches Err(err) ==> (err matches WalletError::Unknown(words) && says_fee_is_low(
            words@,
            fee->Some_0,
            planned_fee,
        )),
{
    if r is Err {
        lemma_says_fee_is_low(fee->Some_0, planned_fee);
    }
}

/// The planner picks in the order that the user chose.
pub proof fn law_order_is_what_was_chosen(
    strategy: NoteSelectionStrategyCli,
    direction: SelectionOrder,
)
    requires
        call_ensures(Wallet::planner_order_direction, (strategy,), direction),
    ensures
        strategy is Ascending <==> direction is Ascending,
        strategy is Descending <==> direction is Descending,
{
}

/// A key to sign with: its index, and whether it is hardened.
pub open spec fn is_sign_key(noun: NounView, key: (u64, bool)) -> bool {
    &&& noun matches NounView::Cell(index, hardened)
    &&& *index == NounView::Atom(key.0 as nat)
    &&& *hardened == (if key.1 {
        NounView::Atom(0)
    } else {
        NounView::Atom(1)
    })
}

/// No keys are zero; some are the list of them under a zero head.
pub open spec fn are_sign_keys(noun: NounView, keys: Seq<(u64, bool)>) -> bool {
    if keys.len() == 0 {
        noun == NounView::Atom(0)
    } else {
        &&& noun matches NounView::Cell(some, list)
        &&& *some == NounView::Atom(0)
        &&& exists|items: Seq<NounView>|
            {
                &&& #[trigger] nouns::is_list(*list, items)
                &&& items.len() == keys.len()
                &&& forall|i: int|
                    0 <= i < keys.len() ==> is_sign_key(#[trigger] items[i], keys[i])
            }
    }
}

pub proof fn lemma_are_sign_keys(keys: Seq<(u64, bool)>)
    ensures
        are_sign_keys(command::sign_keys_tree(keys), keys),
{
    let items = keys.map_values(|key: (u64, bool)| command::sign_key_tree(key));
    nouns::lemma_is_list(items);
    assert(nouns::is_list(noun::list_tree(items), items));
    assert forall|i: int| 0 <= i < keys.len() implies is_sign_key(#[trigger] items[i], keys[i]) by {
        assert(items[i] == command::sign_key_tree(keys[i]));
    }
}

/// The keys to sign with are all told, in order.
pub proof fn law_sign_keys_are_told(keys: Vec<(u64, bool)>, made: Noun)
    requires
        call_ensures(Wallet::encode_sign_keys, (keys,), made),
    ensures
        are_sign_keys(made@, keys@),
{
    lemma_are_sign_keys(keys@);
}

/// The list of note names, each the cell of its first and its last text.
pub open spec fn are_names(noun: NounView, names: Seq<(Seq<char>, Seq<char>)>) -> bool {
    exists|items: Seq<NounView>|
        {
            &&& #[trigger] nouns::is_list(noun, items)
            &&& items.len() == names.len()
            &&& forall|i: int|
                0 <= i < names.len() ==> is_name(#[trigger] items[i], names[i].0, names[i].1)
        }
}

pub open spec fn is_name(noun: NounView, first: Seq<char>, last: Seq<char>) -> bool {
    &&& noun matches NounView::Cell(head, tail)
    &&& nouns::is_text(*head, first)
    &&& nouns::is_text(*tail, last)
}

pub open spec fn is_truth(noun: NounView, b: bool) -> bool {
    noun == (if b {
        NounView::Atom(0)
    } else {
        NounView::Atom(1)
    })
}

/// What stands in each place of a create-tx command.
pub open spec fn says(
    command: WalletCommand,
    names: Seq<(Seq<char>, Seq<char>)>,
    recipients: Seq<NounView>,
    fee: u64,
    allow_low_fee: bool,
    sign_keys: Seq<(u64, bool)>,
    refund: Option<NounView>,
    include_data: bool,
    save_raw_tx: bool,
    note_selection: Seq<char>,
) -> bool {
    &&& command.name@ == "create-tx"@
    &&& command.operation is Poke
    &&& command.args@.len() == 9
    &&& are_names(command.args@[0]@, names)
    &&& nouns::is_list(command.args@[1]@, recipients)
    &&& command.args@[2]@ == NounView::Atom(fee as nat)
    &&& is_truth(command.args@[3]@, allow_low_fee)
    &&& are_sign_keys(command.args@[4]@, sign_keys)
    &&& match refund {
        None => command.args@[5]@ == NounView::Atom(0),
        Some(digest) => command.args@[5]@ matches NounView::Cell(some, value) && *some
            == NounView::Atom(0) && *value == digest,
    }
    &&& is_truth(command.args@[6]@, include_data)
    &&& is_truth(command.args@[7]@, save_raw_tx)
    &&& nouns::is_text(command.args@[8]@, note_selection)
}

pub proof fn lemma_says(command: WalletCommand, tx: command::CreateTxView)
    requires
        command::is_create_tx(command, tx),
    ensures
        says(
            command,
            tx.names,
            tx.recipients,
            tx.fee,
            tx.allow_low_fee,
            tx.sign_keys,
            tx.refund,
            tx.include_data,
            tx.save_raw_tx,
            tx.note_selection,
        ),
{
    let trees = noun::trees(command.args@);
    let slots = command::create_tx_arguments(tx);
    assert(trees.len() == command.args@.len());
    assert(slots.len() == 9);
    assert forall|i: int| 0 <= i < 9 implies #[trigger] command.args@[i]@ == slots[i] by {
        assert(trees[i] == slots[i]);
    }
    let items = tx.names.map_values(
        |name: (Seq<char>, Seq<char>)| command::name_tree(name),
    );
    nouns::lemma_is_list(items);
    assert forall|i: int| 0 <= i < tx.names.len() implies is_name(
        #[trigger] items[i],
        tx.names[i].0,
        tx.names[i].1,
    ) by {
        assert(items[i] == command::name_tree(tx.names[i]));
        nouns::lemma_is_text(tx.names[i].0);
        nouns::lemma_is_text(tx.names[i].1);
    }
    assert(command.args@[0]@ == noun::list_tree(items));
    assert(nouns::is_list(command.args@[0]@, items));
    nouns::lemma_is_list(tx.recipients);
    assert(command.args@[1]@ == noun::list_tree(tx.recipients));
    lemma_are_sign_keys(tx.sign_keys);
    nouns::lemma_is_text(tx.note_selection);
}

/// A command is built exactly when the names could be read and the refund, where one was given,
/// decodes; it says in each place what was given for it. Otherwise the names are complained of
/// first, and then the refund.
pub proof fn law_command_says_what_was_given(
    names: Result<Vec<(String, String)>, WalletError>,
    recipients: Vec<Noun>,
    fee: u64,
    allow_low_fee: bool,
    refund_pkh: Option<RefundPkh>,
    sign_keys: Vec<(u64, bool)>,
    include_data: bool,
    save_raw_tx: bool,
    note_selection: &str,
    r: Result<WalletCommand, WalletError>,
)
    requires
        call_ensures(
            Wallet::create_tx,
            (
                names,
                recipients,
                fee,
                allow_low_fee,
                refund_pkh,
                sign_keys,
                include_data,
                save_raw_tx,
                note_selection,
            ),
            r,
        ) || call_ensures(
            Wallet::create_tx_command_for_tests,
            (
                names,
                recipients,
                fee,
                allow_low_fee,
                refund_pkh,
                sign_keys,
                include_data,
                save_raw_tx,
                note_selection,
            ),
            r,
        ),
    ensures
        r is Ok <==> names is Ok && (refund_pkh is None || refund_pkh->Some_0.decoded is Ok),
        r matches Ok(command) ==> says(
            command,
            Seq::new(
                names->Ok_0@.len(),
                |i: int| (names->Ok_0@[i].0@, names->Ok_0@[i].1@),
            ),
            Seq::new(recipients@.len(), |i: int| recipients@[i]@),
            fee,
            allow_low_fee,
            sign_keys@,
            match refund_pkh {
                None => None,
                Some(refund) => Some(refund.decoded->Ok_0@),
            },
            include_data,
            save_raw_tx,
            note_selection@,
        ),
        names matches Err(err) ==> r == Err::<WalletCommand, WalletError>(err),
        names is Ok && r is Err ==> (r->Err_0 matches WalletError::Unknown(words) && words@
            == "Invalid refund pubkey hash '"@ + refund_pkh->Some_0.text@ + "': "@
            + refund_pkh->Some_0.decoded->Err_0@),
{
    if r is Ok {
        let command = r->Ok_0;
        let texts = Seq::new(
            names->Ok_0@.len(),
            |i: int| (names->Ok_0@[i].0@, names->Ok_0@[i].1@),
        );
        let nouns = Seq::new(recipients@.len(), |i: int| recipients@[i]@);
        assert(command::name_texts(names->Ok_0@) =~= texts);
        assert(noun::trees(recipients@) =~= nouns);
        lemma_says(
            command,
            command::CreateTxView {
                names: texts,
                recipients: nouns,
                fee,
                allow_low_fee,
                sign_keys: sign_keys@,
                refund: command::refund_digest(refund_pkh),
                include_data,
                save_raw_tx,
                note_selection: note_selection@,
            },
        );
    }
}

} // verus!
