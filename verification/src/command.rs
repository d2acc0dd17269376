//! The create-tx command for the wallet kernel.

use crate::error::{WalletError, WalletErrorView};
use crate::noun;
use crate::noun::{Noun, NounView};
use crate::text;
use crate::wallet::Wallet;
use vstd::prelude::*;

verus! {

/// In which order a user wants notes to be picked.
#[derive(Clone, Copy, Debug, PartialEq, Eq, Structural)]
pub enum NoteSelectionStrategyCli {
    Ascending,
    Descending,
}

/// In which order the planner picks notes.
#[derive(Clone, Copy, Debug, PartialEq, Eq, Structural)]
pub enum SelectionOrder {
    Ascending,
    Descending,
}

/// What the kernel is asked to do with a command.
#[derive(Clone, Copy, Debug, PartialEq, Eq, Structural)]
pub enum Operation {
    Poke,
}

/// A command for the wallet kernel.
#[derive(Debug, PartialEq, Eq)]
pub struct WalletCommand {
    pub name: String,
    pub args: Vec<Noun>,
    pub operation: Operation,
}

/// The key hash that change goes to, as it was given, and what decoding it gives: the noun of
/// a digest, or the reason why it is none.
#[derive(Debug, PartialEq, Eq)]
pub struct RefundPkh {
    pub text: String,
    pub decoded: Result<Noun, String>,
}

/// What a create-tx command says.
pub struct CreateTxView {
    /// The texts of the first and the last names of the notes to spend.
    pub names: Seq<(Seq<char>, Seq<char>)>,
    pub recipients: Seq<NounView>,
    pub fee: u64,
    pub allow_low_fee: bool,
    /// The keys to sign with: an index, and whether the key is hardened.
    pub sign_keys: Seq<(u64, bool)>,
    pub refund: Option<NounView>,
    pub include_data: bool,
    pub save_raw_tx: bool,
    pub note_selection: Seq<char>,
}

/// The texts of a list of note names.
pub open spec fn name_texts(names: Seq<(String, String)>) -> Seq<(Seq<char>, Seq<char>)> {
    names.map_values(|name: (String, String)| (name.0@, name.1@))
}

pub open spec fn name_tree(name: (Seq<char>, Seq<char>)) -> NounView {
    noun::cell_tree(noun::cord_tree(name.0), noun::cord_tree(name.1))
}

pub open spec fn sign_key_tree(key: (u64, bool)) -> NounView {
    noun::cell_tree(NounView::Atom(key.0 as nat), noun::loobean_tree(key.1))
}

/// The keys to sign with: none, or a list of some.
pub open spec fn sign_keys_tree(keys: Seq<(u64, bool)>) -> NounView {
    if keys.len() == 0 {
        noun::unit_tree(None)
    } else {
        noun::unit_tree(
            Some(noun::list_tree(keys.map_values(|key: (u64, bool)| sign_key_tree(key)))),
        )
    }
}

/// The arguments of a create-tx command, in the order in which the kernel takes them.
pub open spec fn create_tx_arguments(tx: CreateTxView) -> Seq<NounView> {
    seq![
        noun::list_tree(tx.names.map_values(|name: (Seq<char>, Seq<char>)| name_tree(name))),
        noun::list_tree(tx.recipients),
        NounView::Atom(tx.fee as nat),
        noun::loobean_tree(tx.allow_low_fee),
        sign_keys_tree(tx.sign_keys),
        noun::unit_tree(tx.refund),
        noun::loobean_tree(tx.include_data),
        noun::loobean_tree(tx.save_raw_tx),
        noun::cord_tree(tx.note_selection),
    ]
}

/// The command is a create-tx poke that says this.
pub open spec fn is_create_tx(command: WalletCommand, tx: CreateTxView) -> bool {
    &&& command.name@ == "create-tx"@
    &&& command.operation == Operation::Poke
    &&& noun::trees(command.args@) == create_tx_arguments(tx)
}

/// Where change goes, if that was given.
pub open spec fn refund_digest(refund_pkh: Option<RefundPkh>) -> Option<NounView> {
    match refund_pkh {
        Some(refund) => match refund.decoded {
            Ok(digest) => Some(digest@),
            Err(_) => None,
        },
        None => None,
    }
}

/// What building a create-tx command gives: the first of the errors that there are, the
/// command otherwise.
pub open spec fn creates_tx(
    names: Result<Vec<(String, String)>, WalletError>,
    recipients: Seq<Noun>,
    fee: u64,
    allow_low_fee: bool,
    refund_pkh: Option<RefundPkh>,
    sign_keys: Seq<(u64, bool)>,
    include_data: bool,
    save_raw_tx: bool,
    note_selection: Seq<char>,
    r: Result<WalletCommand, WalletError>,
) -> bool {
    match names {
        Err(err) => r == Err::<WalletCommand, WalletError>(err),
        Ok(listed) => match refund_pkh {
            Some(RefundPkh { text, decoded: Err(reason) }) => r matches Err(err) && err@
                == WalletErrorView::Unknown(
                "Invalid refund pubkey hash '"@ + text@ + "': "@ + reason@,
            ),
            _ => r matches Ok(command) && is_create_tx(
                command,
                CreateTxView {
                    names: name_texts(listed@),
                    recipients: noun::trees(recipients),
                    fee,
                    allow_low_fee,
                    sign_keys,
                    refund: refund_digest(refund_pkh),
                    include_data,
                    save_raw_tx,
                    note_selection,
                },
            ),
        },
    }
}

/// The words for a fee that is too low.
pub open spec fn low_fee_text(requested_fee: u64, planned_fee: u64) -> Seq<char> {
    "requested --fee "@ + text::decimal(requested_fee as nat) + " is below planner minimum "@
        + text::decimal(planned_fee as nat) + " (pass --allow-low-fee to override)"@
}

/// The fee to pay: what was requested, or else what was planned. A request below the plan is
/// refused unless it is allowed.
pub fn select_fee(fee: Option<u64>, planned_fee: u64, allow_low_fee: bool) -> (r: Result<
    u64,
    WalletError,
>)
    ensures
        match fee {
            None => r == Ok::<u64, WalletError>(planned_fee),
            Some(requested_fee) => if requested_fee < planned_fee && !allow_low_fee {
                r matches Err(err) && err@ == WalletErrorView::Unknown(
                    low_fee_text(requested_fee, planned_fee),
                )
            } else {
                r == Ok::<u64, WalletError>(requested_fee)
            },
        },
        // A fee below the plan is never paid unless that is allowed.
        !allow_low_fee && r is Ok ==> r->Ok_0 >= planned_fee,
{
    match fee {
        None => Ok(planned_fee),
        Some(requested_fee) => {
            if requested_fee < planned_fee && !allow_low_fee {
                let requested_text = text::decimal_text(requested_fee);
                let planned_text = text::decimal_text(planned_fee);
                let mut words = "requested --fee ".to_owned();
                words.append(requested_text.as_str());
                words.append(" is below planner minimum ");
                words.append(planned_text.as_str());
                words.append(" (pass --allow-low-fee to override)");
                Err(WalletError::Unknown(words))
            } else {
                Ok(requested_fee)
            }
        },
    }
}

/// The note names of a command as a noun.
fn encode_names(names: Vec<(String, String)>) -> (encoded: Noun)
    ensures
        encoded@ == noun::list_tree(
            name_texts(names@).map_values(|name: (Seq<char>, Seq<char>)| name_tree(name)),
        ),
{
    let mut items: Vec<Noun> = Vec::new();
    let ghost wanted = name_texts(names@).map_values(
        |name: (Seq<char>, Seq<char>)| name_tree(name),
    );
    for i in 0..names.len()
        invariant
            wanted == name_texts(names@).map_values(
                |name: (Seq<char>, Seq<char>)| name_tree(name),
            ),
            items@.len() == i,
            forall|j: int| 0 <= j < i ==> (#[trigger] items@[j])@ == wanted[j],
    {
        let first = Noun::cord(names[i].0.as_str());
        let last = Noun::cord(names[i].1.as_str());
        items.push(Noun::cell(first, last));
    }
    assert(noun::trees(items@) =~= wanted);
    Noun::list(items)
}

impl Wallet {
    /// The planner's order for a user's choice.
    pub fn planner_order_direction(strategy: NoteSelectionStrategyCli) -> (direction: SelectionOrder)
        ensures
            direction == (match strategy {
                NoteSelectionStrategyCli::Ascending => SelectionOrder::Ascending,
                NoteSelectionStrategyCli::Descending => SelectionOrder::Descending,
            }),
    {
        match strategy {
            NoteSelectionStrategyCli::Ascending => SelectionOrder::Ascending,
            NoteSelectionStrategyCli::Descending => SelectionOrder::Descending,
        }
    }

    /// The keys to sign with as a noun.
    pub fn encode_sign_keys(keys: Vec<(u64, bool)>) -> (encoded: Noun)
        ensures
            encoded@ == sign_keys_tree(keys@),
    {
        if keys.is_empty() {
            Noun::unit(None)
        } else {
            let mut items: Vec<Noun> = Vec::new();
            for i in 0..keys.len()
                invariant
                    items@.len() == i,
                    forall|j: int| 0 <= j < i ==> (#[trigger] items@[j])@ == sign_key_tree(keys@[j]),
            {
                let (index, hardened) = keys[i];
                items.push(Noun::cell(Noun::number(index), Noun::loobean(hardened)));
            }
            assert(noun::trees(items@) =~= keys@.map_values(|key: (u64, bool)| sign_key_tree(key)));
            Noun::unit(Some(Noun::list(items)))
        }
    }

    /// Builds the command that has the kernel create a transaction.
    ///
    /// `names` is what reading the `--names` argument gives, `recipients` are the nouns of the
    /// recipients, and `note_selection` is the kernel's word for the selection strategy. Change
    /// goes to `refund_pkh` where it is given; legacy notes need it, newer ones return change
    /// to their owner.
    pub fn create_tx(
        names: Result<Vec<(String, String)>, WalletError>,
        recipients: Vec<Noun>,
        fee: u64,
        allow_low_fee: bool,
        refund_pkh: Option<RefundPkh>,
        sign_keys: Vec<(u64, bool)>,
        include_data: bool,
        save_raw_tx: bool,
        note_selection: &str,
    ) -> (r: Result<WalletCommand, WalletError>)
        ensures
            creates_tx(
                names,
                recipients@,
                fee,
                allow_low_fee,
                refund_pkh,
                sign_keys@,
                include_data,
                save_raw_tx,
                note_selection@,
                r,
            ),
    {
        let listed = match names {
            Err(err) => {
                return Err(err);
            },
            Ok(listed) => listed,
        };
        let names_noun = encode_names(listed);
        let order_noun = Noun::list(recipients);
        let fee_noun = Noun::number(fee);
        let sign_key_noun = Self::encode_sign_keys(sign_keys);
        let refund_noun = match refund_pkh {
            None => Noun::unit(None),
            Some(refund) => match refund.decoded {
                Ok(digest) => Noun::unit(Some(digest)),
                Err(reason) => {
                    let mut words = "Invalid refund pubkey hash '".to_owned();
                    words.append(refund.text.as_str());
                    words.append("': ");
                    words.append(reason.as_str());
                    return Err(WalletError::Unknown(words));
                },
            },
        };
        let mut args: Vec<Noun> = Vec::new();
        args.push(names_noun);
        args.push(order_noun);
        args.push(fee_noun);
        args.push(Noun::loobean(allow_low_fee));
        args.push(sign_key_noun);
        args.push(refund_noun);
        args.push(Noun::loobean(include_data));
        args.push(Noun::loobean(save_raw_tx));
        args.push(Noun::cord(note_selection));
        let command = WalletCommand {
            name: "create-tx".to_owned(),
            args,
            operation: Operation::Poke,
        };
        proof {
            let tx = CreateTxView {
                names: name_texts(listed@),
                recipients: noun::trees(recipients@),
                fee,
                allow_low_fee,
                sign_keys: sign_keys@,
                refund: refund_digest(refund_pkh),
                include_data,
                save_raw_tx,
                note_selection: note_selection@,
            };
            assert(noun::trees(args@) =~= create_tx_arguments(tx));
        }
        Ok(command)
    }

    /// The create-tx command, for tests.
    pub fn create_tx_command_for_tests(
        names: Result<Vec<(String, String)>, WalletError>,
        recipients: Vec<Noun>,
        fee: u64,
        allow_low_fee: bool,
        refund_pkh: Option<RefundPkh>,
        sign_keys: Vec<(u64, bool)>,
        include_data: bool,
        save_raw_tx: bool,
        note_selection: &str,
    ) -> (r: Result<WalletCommand, WalletError>)
        ensures
            creates_tx(
                names,
                recipients@,
                fee,
                allow_low_fee,
                refund_pkh,
                sign_keys@,
                include_data,
                save_raw_tx,
                note_selection@,
                r,
            ),
    {
        Self::create_tx(
            names,
            recipients,
            fee,
            allow_low_fee,
            refund_pkh,
            sign_keys,
            include_data,
            save_raw_tx,
            note_selection,
        )
    }
}

/// A text that an atom shows in full.
pub open spec fn no_nul_end(text: Seq<char>) -> bool {
    text.len() > 0 ==> text.last() != '\0'
}

/// The arguments of a create-tx command tell all that it says: two commands with the same
/// arguments say the same.
pub proof fn law_create_tx_arguments_tell_all(a: CreateTxView, b: CreateTxView)
    requires
        create_tx_arguments(a) == create_tx_arguments(b),
        forall|i: int|
            0 <= i < a.names.len() ==> no_nul_end((#[trigger] a.names[i]).0) && no_nul_end(
                a.names[i].1,
            ),
        forall|i: int|
            0 <= i < b.names.len() ==> no_nul_end((#[trigger] b.names[i]).0) && no_nul_end(
                b.names[i].1,
            ),
        no_nul_end(a.note_selection),
        no_nul_end(b.note_selection),
    ensures
        a == b,
{
    let x = create_tx_arguments(a);
    let y = create_tx_arguments(b);
    assert(x[0] == y[0] && x[1] == y[1] && x[2] == y[2] && x[3] == y[3] && x[4] == y[4] && x[5]
        == y[5] && x[6] == y[6] && x[7] == y[7] && x[8] == y[8]);
    let names_a = a.names.map_values(|name: (Seq<char>, Seq<char>)| name_tree(name));
    let names_b = b.names.map_values(|name: (Seq<char>, Seq<char>)| name_tree(name));
    noun::law_list_tree_is_injective(names_a, names_b);
    assert(names_a.len() == a.names.len() && names_b.len() == b.names.len());
    assert forall|i: int| 0 <= i < a.names.len() implies a.names[i] == b.names[i] by {
        assert(names_a[i] == names_b[i]);
        assert(name_tree(a.names[i]) == name_tree(b.names[i]));
        noun::law_cord_tree_is_injective(a.names[i].0, b.names[i].0);
        noun::law_cord_tree_is_injective(a.names[i].1, b.names[i].1);
    }
    assert(a.names =~= b.names);
    noun::law_list_tree_is_injective(a.recipients, b.recipients);
    law_sign_keys_tree_is_injective(a.sign_keys, b.sign_keys);
    noun::law_unit_of_unit(a.refund);
    noun::law_unit_of_unit(b.refund);
    noun::law_cord_tree_is_injective(a.note_selection, b.note_selection);
    noun::law_loobean_of_loobean(a.allow_low_fee);
    noun::law_loobean_of_loobean(b.allow_low_fee);
    noun::law_loobean_of_loobean(a.include_data);
    noun::law_loobean_of_loobean(b.include_data);
    noun::law_loobean_of_loobean(a.save_raw_tx);
    noun::law_loobean_of_loobean(b.save_raw_tx);
}

/// The sign-keys argument tells the keys: different lists of keys are different nouns, and no
/// keys are told apart from some.
pub proof fn law_sign_keys_tree_is_injective(a: Seq<(u64, bool)>, b: Seq<(u64, bool)>)
    requires
        sign_keys_tree(a) == sign_keys_tree(b),
    ensures
        a == b,
{
    let x = a.map_values(|key: (u64, bool)| sign_key_tree(key));
    let y = b.map_values(|key: (u64, bool)| sign_key_tree(key));
    if a.len() > 0 && b.len() > 0 {
        noun::law_list_tree_is_injective(x, y);
        assert(x.len() == a.len() && y.len() == b.len());
        assert forall|i: int| 0 <= i < a.len() implies a[i] == b[i] by {
            assert(x[i] == y[i]);
            assert(sign_key_tree(a[i]) == sign_key_tree(b[i]));
            noun::law_loobean_of_loobean(a[i].1);
            noun::law_loobean_of_loobean(b[i].1);
        }
    }
    assert(a =~= b);
}

} // verus!
