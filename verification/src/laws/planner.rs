//! Planning a transaction, answer by answer.

use crate::balance::{BalanceUpdate, NormalizedSnapshot};
use crate::command;
use crate::command::{NoteSelectionStrategyCli, SelectionOrder, WalletCommand};
use crate::constants as read_constants;
use crate::constants::PlannerBlockchainConstantsNoun;
use crate::digest::{Digest, Name};
use crate::error::WalletError;
use crate::laws::command as commands;
use crate::laws::constants;
use crate::laws::lists;
use crate::laws::names as name_laws;
use crate::laws::nouns;
use crate::laws::signers;
use crate::names;
use crate::names::NoteNameText;
use crate::noun;
use crate::noun::{Noun, NounView};
use crate::order;
use crate::planner;
use crate::planner::{
    CreateTxPlanner, CreateTxRequest, Plan, PlanError, PlannerAction, PlannerStage, SelectionMode,
};
use crate::signers::{SigningKeyLockMatcher, SpendCondition};
use crate::wallet::Wallet;
use vstd::prelude::*;

verus! {

/// Two errors say the same.
pub open spec fn same_error(a: WalletError, b: WalletError) -> bool {
    match (a, b) {
        (WalletError::OtherError(x), WalletError::OtherError(y)) => x@ == y@,
        (WalletError::OtherErrorFrom { text: x, cause: c }, WalletError::OtherErrorFrom {
            text: y,
            cause: d,
        }) => x@ == y@ && c == d,
        (WalletError::Unknown(x), WalletError::Unknown(y)) => x@ == y@,
        (WalletError::Decode(c), WalletError::Decode(d)) => c == d,
        (WalletError::External(x), WalletError::External(y)) => x@ == y@,
        _ => false,
    }
}

/// There is no transaction: planning has failed in these words.
pub open spec fn planning_failed<C, O>(stage: PlannerStage<C, O>, reason: Seq<char>) -> bool {
    &&& stage matches PlannerStage::Failed { err: WalletError::Unknown(words) }
    &&& words@ == "create-tx planner failed: "@ + reason
}

/// The words for an error are waited for.
pub open spec fn waits_for_words<C, O>(
    stage: PlannerStage<C, O>,
    introduction: Seq<char>,
    err: WalletError,
) -> bool {
    &&& stage matches PlannerStage::Describe { introduction: i, err: e }
    &&& i@ == introduction
    &&& same_error(e, err)
}

/// The stage has this snapshot, and what comes next goes by whether a refund was given.
pub open spec fn has_selected<C, O>(
    request: CreateTxRequest,
    snapshot: NormalizedSnapshot<C>,
    stage: PlannerStage<C, O>,
    selection_mode: SelectionMode,
) -> bool {
    match stage {
        PlannerStage::DecodeRefund { snapshot: s, selection_mode: m } => request.refund_pkh is Some
            && s == snapshot && m == selection_mode,
        PlannerStage::PeekSigningKeys {
            snapshot: s,
            selection_mode: m,
            refund,
        } => request.refund_pkh is None && s == snapshot && m == selection_mode && refund is None,
        _ => false,
    }
}

/// With a snapshot, the names are read where some were given; otherwise the planner picks.
pub open spec fn has_snapshot<C, O>(
    request: CreateTxRequest,
    snapshot: NormalizedSnapshot<C>,
    stage: PlannerStage<C, O>,
) -> bool {
    if request.names is Some {
        stage matches PlannerStage::ParseNoteNames { snapshot: s } && s == snapshot
    } else {
        has_selected(request, snapshot, stage, SelectionMode::Auto)
    }
}

/// Planning starts from the snapshot where there is one, and otherwise with a look at the
/// balance.
pub proof fn law_planning_starts<C, O>(
    synced_snapshot: Option<NormalizedSnapshot<C>>,
    request: CreateTxRequest,
    started: CreateTxPlanner<C, O>,
)
    requires
        call_ensures(
            Wallet::create_tx_with_planner::<C, O>,
            (synced_snapshot, request),
            started,
        ),
    ensures
        started@.request == request,
        synced_snapshot is None <==> started@.stage is PeekBalance,
        synced_snapshot matches Some(snapshot) ==> has_snapshot(request, snapshot, started@.stage),
{
}

/// The balance that a look shows is made a snapshot of; otherwise the reason is put into words.
pub proof fn law_balance_is_taken<C, O>(
    waiting: CreateTxPlanner<C, O>,
    peeked: Result<Option<Option<BalanceUpdate>>, WalletError>,
    next: CreateTxPlanner<C, O>,
)
    requires
        call_ensures(CreateTxPlanner::<C, O>::on_balance, (waiting, peeked), next),
    ensures
        next@.request == waiting@.request,
        match peeked {
            Ok(Some(Some(shown))) => next@.stage matches PlannerStage::NormalizeBalance { balance }
                && balance == shown,
            Ok(_) => {
                &&& next@.stage matches PlannerStage::Describe {
                    introduction,
                    err: WalletError::OtherError(words),
                }
                &&& introduction@ == "unable to read synced balance from wallet state: "@
                &&& words@ == "wallet balance peek returned no balance payload"@
            },
            Err(err) => waits_for_words(
                next@.stage,
                "unable to read synced balance from wallet state: "@,
                err,
            ),
        },
{
}

/// The snapshot of the balance is gone on with; otherwise planning fails for the reason given.
pub proof fn law_snapshot_is_taken<C, O>(
    waiting: CreateTxPlanner<C, O>,
    normalized: Result<NormalizedSnapshot<C>, String>,
    next: CreateTxPlanner<C, O>,
)
    requires
        call_ensures(CreateTxPlanner::<C, O>::on_normalized, (waiting, normalized), next),
    ensures
        next@.request == waiting@.request,
        normalized matches Ok(snapshot) ==> has_snapshot(waiting@.request, snapshot, next@.stage),
        normalized matches Err(words) ==> planning_failed(
            next@.stage,
            "candidate normalization failed for wallet balance snapshot: "@ + words@,
        ),
{
}

/// These are the decoded names, in order.
pub open spec fn are_decoded(written: Seq<NoteNameText>, read: Seq<Name>) -> bool {
    &&& read.len() == written.len()
    &&& forall|i: int|
        0 <= i < read.len() ==> (#[trigger] read[i]).first == written[i].first.decoded->Ok_0
            && read[i].last == written[i].last.decoded->Ok_0
}

/// Where all names decode, the plan is for just these; otherwise the first that does not is put
/// into words, as is an argument that cannot be read.
pub proof fn law_names_are_taken<C, O>(
    waiting: CreateTxPlanner<C, O>,
    parsed: Result<Vec<NoteNameText>, WalletError>,
    next: CreateTxPlanner<C, O>,
)
    requires
        call_ensures(CreateTxPlanner::<C, O>::on_note_names, (waiting, parsed), next),
        waiting@.stage is ParseNoteNames,
    ensures
        next@.request == waiting@.request,
        parsed matches Err(err) ==> waits_for_words(
            next@.stage,
            "unable to parse manual note names: "@,
            err,
        ),
        parsed matches Ok(written) ==> {
            let all_decode = forall|i: int|
                0 <= i < written@.len() ==> name_laws::decodes(#[trigger] written@[i]);
            &&& all_decode ==> exists|read: Vec<Name>|
                {
                    &&& are_decoded(written@, read@)
                    &&& #[trigger] has_selected(
                        waiting@.request,
                        waiting@.stage->ParseNoteNames_snapshot,
                        next@.stage,
                        SelectionMode::Manual { note_names: read },
                    )
                }
            &&& !all_decode ==> (next@.stage matches PlannerStage::Describe {
                introduction,
                err: WalletError::Unknown(_),
            } && introduction@ == "unable to parse manual note names: "@)
        },
{
    if parsed is Ok {
        let written = parsed->Ok_0;
        let snapshot = waiting@.stage->ParseNoteNames_snapshot;
        if exists|read: Vec<Name>|
            {
                &&& names::written_names(written@, read@)
                &&& next@.stage == #[trigger] planner::with_selection::<C, O>(
                    waiting@.request,
                    snapshot,
                    SelectionMode::Manual { note_names: read },
                )
            } {
            let read = choose|read: Vec<Name>|
                {
                    &&& names::written_names(written@, read@)
                    &&& next@.stage == #[trigger] planner::with_selection::<C, O>(
                        waiting@.request,
                        snapshot,
                        SelectionMode::Manual { note_names: read },
                    )
                };
            assert forall|i: int| 0 <= i < written@.len() implies name_laws::decodes(
                #[trigger] written@[i],
            ) by {
                assert(names::written_name(written@[i]) == Ok::<Name, Seq<char>>(read@[i]));
            }
            assert forall|i: int| 0 <= i < read@.len() implies (#[trigger] read@[i]).first
                == written@[i].first.decoded->Ok_0 && read@[i].last
                == written@[i].last.decoded->Ok_0 by {
                assert(names::written_name(written@[i]) == Ok::<Name, Seq<char>>(read@[i]));
            }
            assert(are_decoded(written@, read@));
            assert(has_selected(
                waiting@.request,
                snapshot,
                next@.stage,
                SelectionMode::Manual { note_names: read },
            ));
        } else {
            let (refused, err) = choose|refused: int, err: WalletError|
                {
                    &&& #[trigger] names::refuses_first(written@, refused, err)
                    &&& planner::describes(
                        next@.stage,
                        "unable to parse manual note names: "@,
                        err@,
                    )
                };
            assert(!name_laws::decodes(written@[refused]));
        }
    }
}

/// The name that is put into words is the first that does not decode, its first digest before its
/// last.
pub proof fn law_undecodable_name_is_put_into_words<C, O>(
    waiting: CreateTxPlanner<C, O>,
    written: Vec<NoteNameText>,
    i: int,
    next: CreateTxPlanner<C, O>,
)
    requires
        call_ensures(CreateTxPlanner::<C, O>::on_note_names, (waiting, Ok(written)), next),
        waiting@.stage is ParseNoteNames,
        0 <= i < written@.len(),
        !name_laws::decodes(written@[i]),
        forall|j: int| 0 <= j < i ==> name_laws::decodes(#[trigger] written@[j]),
    ensures
        next@.stage matches PlannerStage::Describe {
            introduction,
            err: WalletError::Unknown(words),
        } && words@ == (match written@[i].first.decoded {
            Err(reason) => "Invalid note first-name hash '"@ + written@[i].first.text@ + "': "@
                + reason@,
            Ok(_) => "Invalid note last-name hash '"@ + written@[i].last.text@ + "': "@
                + written@[i].last.decoded->Err_0@,
        }),
{
    law_names_are_taken(waiting, Ok(written), next);
    let (refused, err) = choose|refused: int, err: WalletError|
        {
            &&& #[trigger] names::refuses_first(written@, refused, err)
            &&& planner::describes(next@.stage, "unable to parse manual note names: "@, err@)
        };
    if refused < i {
        assert(name_laws::decodes(written@[refused]));
    } else if i < refused {
        assert(names::written_name(written@[i]) is Ok);
    }
}

/// The refund key hash is kept where it decodes; otherwise planning fails and says which it is.
pub proof fn law_refund_is_taken<C, O>(
    waiting: CreateTxPlanner<C, O>,
    decoded: Result<Digest, String>,
    next: CreateTxPlanner<C, O>,
)
    requires
        call_ensures(CreateTxPlanner::<C, O>::on_refund, (waiting, decoded), next),
        waiting@.stage is DecodeRefund,
    ensures
        next@.request == waiting@.request,
        decoded matches Ok(digest) ==> {
            &&& next@.stage matches PlannerStage::PeekSigningKeys {
                snapshot,
                selection_mode,
                refund,
            }
            &&& snapshot == waiting@.stage->DecodeRefund_snapshot
            &&& selection_mode == waiting@.stage->DecodeRefund_selection_mode
            &&& refund == Some(digest)
        },
        decoded matches Err(words) ==> planning_failed(
            next@.stage,
            "invalid refund pubkey hash '"@ + waiting@.request.refund_pkh->Some_0@ + "': "@
                + words@,
        ),
{
}

/// The keys that a look shows.
pub open spec fn keys_shown(
    peeked: Result<Option<Option<Vec<Digest>>>, WalletError>,
) -> Seq<Digest> {
    match peeked {
        Ok(Some(Some(keys))) => keys@,
        _ => seq![],
    }
}

/// The wallet goes on with the smallest of its signing keys, the first of those with its limbs,
/// and keeps all that it knew; without keys there is no transaction.
pub proof fn law_smallest_key_signs<C, O>(
    waiting: CreateTxPlanner<C, O>,
    peeked: Result<Option<Option<Vec<Digest>>>, WalletError>,
    next: CreateTxPlanner<C, O>,
)
    requires
        call_ensures(CreateTxPlanner::<C, O>::on_signing_keys, (waiting, peeked), next),
        waiting@.stage is PeekSigningKeys,
    ensures
        next@.request == waiting@.request,
        keys_shown(peeked).len() > 0 <==> next@.stage is DeriveRecipientOutputs,
        keys_shown(peeked).len() == 0 ==> planning_failed(
            next@.stage,
            "wallet has no signer keys for create-tx planner"@,
        ),
        next@.stage matches PlannerStage::DeriveRecipientOutputs { context } ==> {
            &&& context.snapshot == waiting@.stage->PeekSigningKeys_snapshot
            &&& context.selection_mode == waiting@.stage->PeekSigningKeys_selection_mode
            &&& context.refund == waiting@.stage->PeekSigningKeys_refund
            &&& signers::is_first_given(keys_shown(peeked), context.master_signer)
            &&& forall|i: int|
                0 <= i < keys_shown(peeked).len() ==> (
                #[trigger] keys_shown(peeked)[i]).limbs@ == context.master_signer.limbs@
                    || lists::limbs_before(
                    context.master_signer.limbs@,
                    keys_shown(peeked)[i].limbs@,
                )
        },
{
    let keys = keys_shown(peeked);
    if peeked is Ok {
        assert(crate::signers::shown_keys(peeked->Ok_0) =~= keys);
    }
    if next@.stage is DeriveRecipientOutputs {
        let master = next@.stage->DeriveRecipientOutputs_context.master_signer;
        assert(planner::is_master_signer(keys, master));
        let m = choose|m: int| #[trigger] order::first_with_key(keys, m) && keys[m] == master;
        assert forall|j: int| 0 <= j < m implies (#[trigger] keys[j]).limbs@ != master.limbs@ by {
            assert(order::Keyed::key(&keys[j]) != order::Keyed::key(&keys[m]));
            lists::lemma_limbs_before(keys[j].limbs, master.limbs);
        }
        assert(signers::first_with_limbs(keys, master, m));
        assert forall|i: int| 0 <= i < keys.len() implies (#[trigger] keys[i]).limbs@
            == master.limbs@ || lists::limbs_before(master.limbs@, keys[i].limbs@) by {
            lists::lemma_limbs_before(master.limbs, keys[i].limbs);
        }
    }
}

/// The outputs for the recipients are kept beside all else; without them there is no transaction.
pub proof fn law_recipient_outputs_are_taken<C, O>(
    waiting: CreateTxPlanner<C, O>,
    derived: Result<Vec<O>, String>,
    next: CreateTxPlanner<C, O>,
)
    requires
        call_ensures(CreateTxPlanner::<C, O>::on_recipient_outputs, (waiting, derived), next),
        waiting@.stage is DeriveRecipientOutputs,
    ensures
        next@.request == waiting@.request,
        derived matches Ok(outputs) ==> {
            &&& next@.stage matches PlannerStage::DeriveRefundOutput { context, recipient_outputs }
            &&& context == waiting@.stage->DeriveRecipientOutputs_context
            &&& recipient_outputs == outputs
        },
        derived matches Err(words) ==> planning_failed(
            next@.stage,
            "unable to derive planner recipient lock roots from recipients: "@ + words@,
        ),
{
}

/// The output for change is kept beside all else; without it there is no transaction.
pub proof fn law_refund_output_is_taken<C, O>(
    waiting: CreateTxPlanner<C, O>,
    derived: Result<O, String>,
    next: CreateTxPlanner<C, O>,
)
    requires
        call_ensures(CreateTxPlanner::<C, O>::on_refund_output, (waiting, derived), next),
        waiting@.stage is DeriveRefundOutput,
    ensures
        next@.request == waiting@.request,
        derived matches Ok(output) ==> {
            &&& next@.stage matches PlannerStage::PeekConstants {
                context,
                recipient_outputs,
                refund_output,
            }
            &&& context == waiting@.stage->DeriveRefundOutput_context
            &&& recipient_outputs == waiting@.stage->DeriveRefundOutput_recipient_outputs
            &&& refund_output == output
        },
        derived matches Err(words) ==> planning_failed(
            next@.stage,
            "unable to derive planner refund output template from signer/refund context: "@
                + words@,
        ),
{
}

/// The state shows these constants, with this coinbase lock time.
pub open spec fn state_shows(
    shown: NounView,
    known: read_constants::PlannerBlockchainConstantsView,
    min: u64,
) -> bool {
    &&& exists|payload: NounView| #[trigger]
        constants::is_shown(shown, payload) && constants::reads_as(payload, known)
    &&& exists|fields: Seq<NounView>| constants::holds_timelock(known.legacy_constants, fields, min)
}

/// A plan is asked for exactly when the state shows constants with a coinbase lock time.
pub proof fn law_plan_needs_the_constants<C, O>(
    waiting: CreateTxPlanner<C, O>,
    peeked: Result<Noun, WalletError>,
    next: CreateTxPlanner<C, O>,
)
    requires
        call_ensures(CreateTxPlanner::<C, O>::on_constants, (waiting, peeked), next),
        waiting@.stage is PeekConstants,
    ensures
        next@.request == waiting@.request,
        next@.stage is Plan <==> peeked is Ok && exists|
            known: read_constants::PlannerBlockchainConstantsView,
            min: u64,
        | state_shows(peeked->Ok_0@, known, min),
        peeked matches Err(err) ==> waits_for_words(
            next@.stage,
            "unable to read blockchain constants from wallet state: "@,
            err,
        ),
        peeked is Ok && constants::shows_nothing(peeked->Ok_0@) ==> {
            &&& next@.stage matches PlannerStage::Describe {
                introduction,
                err: WalletError::OtherError(words),
            }
            &&& introduction@ == "unable to read blockchain constants from wallet state: "@
            &&& words@ == "wallet blockchain-constants peek returned no payload"@
        },
        peeked is Ok && next@.stage !is Plan ==> next@.stage is Describe,
{
    if peeked is Ok {
        let shown = peeked->Ok_0@;
        constants::lemma_shows_nothing(shown);
        if next@.stage is Plan {
            let known = read_constants::shown_constants(shown)->Ok_0->Some_0;
            let min = read_constants::coinbase_timelock_min_of(known.legacy_constants)->Ok_0;
            constants::lemma_shown(shown, known);
            constants::lemma_timelock(known.legacy_constants, min);
            assert(state_shows(shown, known, min));
        }
        if exists|known: read_constants::PlannerBlockchainConstantsView, min: u64|
            state_shows(shown, known, min) {
            let (known, min) = choose|
                known: read_constants::PlannerBlockchainConstantsView,
                min: u64,
            | state_shows(shown, known, min);
            constants::lemma_shown(shown, known);
            constants::lemma_timelock(known.legacy_constants, min);
        }
    }
}

/// Constants that are not there, or without a coinbase lock time, are told apart in the words.
pub proof fn law_missing_constants_are_told_apart<C, O>(
    waiting: CreateTxPlanner<C, O>,
    shown: Noun,
    next: CreateTxPlanner<C, O>,
)
    requires
        call_ensures(CreateTxPlanner::<C, O>::on_constants, (waiting, Ok(shown)), next),
        waiting@.stage is PeekConstants,
        next@.stage !is Plan,
    ensures
        next@.stage is Describe,
        (exists|payload: NounView, known: read_constants::PlannerBlockchainConstantsView|
            #[trigger] constants::is_shown(shown@, payload) && #[trigger] constants::reads_as(
                payload,
                known,
            )) ==> {
            &&& next@.stage->Describe_introduction@
                == "unable to resolve coinbase timelock min from blockchain constants: "@
            &&& next@.stage->Describe_err matches WalletError::OtherErrorFrom { text, cause: _ }
            &&& text@ == "wallet blockchain-constants payload missing coinbase timelock min: "@
        },
        !(exists|payload: NounView, known: read_constants::PlannerBlockchainConstantsView|
            #[trigger] constants::is_shown(shown@, payload) && #[trigger] constants::reads_as(
                payload,
                known,
            )) ==> {
            &&& next@.stage->Describe_introduction@
                == "unable to read blockchain constants from wallet state: "@
            &&& !constants::shows_nothing(shown@) ==> next@.stage->Describe_err is Decode
        },
{
    constants::lemma_shows_nothing(shown@);
    let read = read_constants::shown_constants(shown@);
    if read is Ok && read->Ok_0 is Some {
        constants::lemma_shown(shown@, read->Ok_0->Some_0);
    }
    if exists|payload: NounView, known: read_constants::PlannerBlockchainConstantsView|
        #[trigger] constants::is_shown(shown@, payload) && #[trigger] constants::reads_as(
            payload,
            known,
        ) {
        let (payload, known) = choose|
            payload: NounView,
            known: read_constants::PlannerBlockchainConstantsView,
        |
            #[trigger] constants::is_shown(shown@, payload) && #[trigger] constants::reads_as(
                payload,
                known,
            );
        constants::lemma_shown(shown@, known);
    }
}

/// Constants that cannot be had end planning with the error about them, and so does a coinbase
/// lock time that cannot be read out of them.
pub proof fn law_errors_about_constants_are_put_into_words<C, O>(
    waiting: CreateTxPlanner<C, O>,
    peeked: Result<Noun, WalletError>,
    had: Result<PlannerBlockchainConstantsNoun, WalletError>,
    min: Result<u64, WalletError>,
    next: CreateTxPlanner<C, O>,
)
    requires
        call_ensures(CreateTxPlanner::<C, O>::on_constants, (waiting, peeked), next),
        call_ensures(Wallet::blockchain_constants_from_peek, (peeked,), had),
        had matches Ok(c) ==> call_ensures(
            PlannerBlockchainConstantsNoun::coinbase_timelock_min,
            (&c,),
            min,
        ),
        waiting@.stage is PeekConstants,
    ensures
        had matches Err(err) ==> waits_for_words(
            next@.stage,
            "unable to read blockchain constants from wallet state: "@,
            err,
        ),
        had is Ok && min is Err ==> waits_for_words(
            next@.stage,
            "unable to resolve coinbase timelock min from blockchain constants: "@,
            min->Err_0,
        ),
        had is Ok && min is Ok ==> next@.stage is Plan,
{
}

/// What a planner shows of itself is what it is.
pub proof fn law_planner_shows_itself<C, O>(
    waiting: CreateTxPlanner<C, O>,
    request: &CreateTxRequest,
    stage: &PlannerStage<C, O>,
    taken: PlannerStage<C, O>,
)
    requires
        call_ensures(CreateTxPlanner::<C, O>::request, (&waiting,), request),
        call_ensures(CreateTxPlanner::<C, O>::stage, (&waiting,), stage),
        call_ensures(CreateTxPlanner::<C, O>::into_stage, (waiting,), taken),
    ensures
        *request == waiting@.request,
        *stage == taken,
        taken == waiting@.stage,
{
}

/// The plan that is asked for is the user's: in the order that they chose, with or without data
/// as they wish, spending what they named, paying what was derived; by the master signer, with
/// newer notes alone, at the height of the snapshot, under the constants that the state shows.
pub proof fn law_plan_is_what_was_asked_for<C, O>(
    waiting: CreateTxPlanner<C, O>,
    peeked: Result<Noun, WalletError>,
    next: CreateTxPlanner<C, O>,
)
    requires
        call_ensures(CreateTxPlanner::<C, O>::on_constants, (waiting, peeked), next),
        waiting@.stage is PeekConstants,
        next@.stage is Plan,
    ensures
        peeked is Ok,
        ({
            let context = waiting@.stage->PeekConstants_context;
            let asked = next@.stage->Plan_plan_request;
            let chain = asked.chain_context;
            &&& asked.order_direction is Ascending <==> waiting@.request.note_selection is Ascending
            &&& asked.order_direction is Descending
                <==> waiting@.request.note_selection is Descending
            &&& asked.include_data == waiting@.request.include_data
            &&& asked.selection_mode == context.selection_mode
            &&& asked.signer_pkh == Some(context.master_signer)
            &&& asked.candidate_version_policy is V1Only
            &&& asked.candidates == context.snapshot.candidates
            &&& asked.recipient_outputs == waiting@.stage->PeekConstants_recipient_outputs
            &&& asked.refund_output == waiting@.stage->PeekConstants_refund_output
            &&& chain.height == context.snapshot.metadata.height
            &&& asked.coinbase_relative_min is Some
            &&& exists|known: read_constants::PlannerBlockchainConstantsView|
                {
                    &&& #[trigger] state_shows(
                        peeked->Ok_0@,
                        known,
                        asked.coinbase_relative_min->Some_0,
                    )
                    &&& chain.bythos_phase == known.bythos_phase
                    &&& chain.base_fee == known.base_fee
                    &&& chain.input_fee_divisor == known.input_fee_divisor
                    &&& chain.min_fee == known.data.min_fee
                }
        }),
{
    let shown = peeked->Ok_0@;
    let known = read_constants::shown_constants(shown)->Ok_0->Some_0;
    let min = read_constants::coinbase_timelock_min_of(known.legacy_constants)->Ok_0;
    constants::lemma_shown(shown, known);
    constants::lemma_timelock(known.legacy_constants, min);
    let asked = next@.stage->Plan_plan_request;
    assert(asked.coinbase_relative_min == Some(min));
    assert(state_shows(shown, known, asked.coinbase_relative_min->Some_0));
    assert(waiting@.request.note_selection is Ascending
        || waiting@.request.note_selection is Descending);
}

/// Requests that differ in their note selection are planned in different orders, each in the one
/// of its name.
pub proof fn law_note_selection_decides_the_order<C, O>(
    ascending: CreateTxPlanner<C, O>,
    descending: CreateTxPlanner<C, O>,
    peeked: Result<Noun, WalletError>,
    next_ascending: CreateTxPlanner<C, O>,
    next_descending: CreateTxPlanner<C, O>,
)
    requires
        call_ensures(
            CreateTxPlanner::<C, O>::on_constants,
            (ascending, peeked),
            next_ascending,
        ),
        call_ensures(
            CreateTxPlanner::<C, O>::on_constants,
            (descending, peeked),
            next_descending,
        ),
        ascending@.stage is PeekConstants,
        descending@.stage is PeekConstants,
        ascending@.request.note_selection == NoteSelectionStrategyCli::Ascending,
        descending@.request.note_selection == NoteSelectionStrategyCli::Descending,
    ensures
        next_ascending@.stage is Plan <==> next_descending@.stage is Plan,
        next_ascending@.stage is Plan ==> {
            &&& next_ascending@.stage->Plan_plan_request.order_direction
                == SelectionOrder::Ascending
            &&& next_descending@.stage->Plan_plan_request.order_direction
                == SelectionOrder::Descending
        },
{
}

/// The planner is given a matcher for the master signer alone: a lock is found with it exactly
/// when a matcher made for that key finds it.
pub proof fn law_plan_is_offered_the_signers_locks<C, O>(
    waiting: CreateTxPlanner<C, O>,
    peeked: Result<Noun, WalletError>,
    next: CreateTxPlanner<C, O>,
    note_first_name: Digest,
    condition: SpendCondition,
    found: bool,
)
    requires
        call_ensures(CreateTxPlanner::<C, O>::on_constants, (waiting, peeked), next),
        waiting@.stage is PeekConstants,
        next@.stage is Plan,
        call_ensures(
            SigningKeyLockMatcher::matches,
            (&next@.stage->Plan_matcher, &note_first_name, &condition),
            found,
        ),
    ensures
        found <==> {
            let keys = seq![waiting@.stage->PeekConstants_context.master_signer];
            &&& condition.first_name is Some
            &&& condition.first_name->Some_0.limbs@ == note_first_name.limbs@
            &&& exists|j: int| #[trigger]
                signers::signature_of(condition, j, keys) && signers::else_at_most_a_time(
                    condition,
                    j,
                )
        },
{
    let master = waiting@.stage->PeekConstants_context.master_signer;
    let keys = seq![master];
    let matcher = next@.stage->Plan_matcher;
    let primitives = condition.primitives@;
    assert(keys[0] == master);
    assert(signers::among(keys, master.limbs@));
    if found {
        let hash = choose|hash: Seq<u64>|
            matcher@.contains(hash) && #[trigger] crate::signers::single_signer_lock(
                primitives,
                hash,
            );
        assert(hash == master.limbs@);
        if crate::signers::single_signature(primitives[0], hash) {
            assert(signers::signature_of(condition, 0, keys));
            assert(signers::else_at_most_a_time(condition, 0));
        } else {
            assert(signers::signature_of(condition, 1, keys));
            assert(signers::else_at_most_a_time(condition, 1));
        }
    }
    if exists|j: int| #[trigger]
        signers::signature_of(condition, j, keys) && signers::else_at_most_a_time(condition, j) {
        let j = choose|j: int| #[trigger]
            signers::signature_of(condition, j, keys) && signers::else_at_most_a_time(condition, j);
        let hash = primitives[j]->Pkh_0.hashes@[0].limbs@;
        assert(hash == master.limbs@);
        assert(matcher@.contains(hash));
        assert(crate::signers::single_signature(primitives[j], hash));
        if primitives.len() == 2 {
            assert(primitives[1 - j] is Tim);
        }
        assert(crate::signers::single_signer_lock(primitives, hash));
    }
}

/// The plan spends what was named, each as often, or nothing was named.
pub open spec fn spends_what_was_named(selection_mode: SelectionMode, plan: Plan) -> bool {
    match selection_mode {
        SelectionMode::Auto => true,
        SelectionMode::Manual { note_names } => name_laws::limb_pairs(note_names@).to_multiset()
            == name_laws::limb_pairs(plan.selected@).to_multiset(),
    }
}

/// The user takes the fee: they named none, or one that is high enough, or allowed a low one.
pub open spec fn fee_is_taken(request: CreateTxRequest, plan: Plan) -> bool {
    request.fee is None || request.fee->Some_0 >= plan.final_fee || request.allow_low_fee
}

proof fn lemma_keeps_to_selection(selection_mode: SelectionMode, plan: Plan)
    ensures
        planner::keeps_to_selection(selection_mode, plan) <==> spends_what_was_named(
            selection_mode,
            plan,
        ),
{
    match selection_mode {
        SelectionMode::Auto => {},
        SelectionMode::Manual { note_names } => {
            name_laws::lemma_same_names(note_names@, plan.selected@);
        },
    }
}

/// A plan is carried out exactly when it spends what was named and the user takes the fee. Then
/// the planned notes are spent as they are written, and the fee is the named one, or else the
/// planned one.
pub proof fn law_plan_is_carried_out<C, O>(
    waiting: CreateTxPlanner<C, O>,
    plan: Plan,
    selected: &[Name],
    argument: String,
    next: CreateTxPlanner<C, O>,
)
    requires
        call_ensures(CreateTxPlanner::<C, O>::on_plan, (waiting, Ok(plan)), next),
        call_ensures(Wallet::format_note_names_for_create_tx, (selected,), argument),
        waiting@.stage is Plan,
        selected@ == plan.selected@,
    ensures
        next@.request == waiting@.request,
        next@.stage is EncodeCommand <==> spends_what_was_named(
            waiting@.stage->Plan_plan_request.selection_mode,
            plan,
        ) && fee_is_taken(waiting@.request, plan),
        next@.stage matches PlannerStage::EncodeCommand { names, fee } ==> {
            &&& names@ == argument@
            &&& waiting@.request.fee matches Some(named) ==> fee == named
            &&& waiting@.request.fee is None ==> fee == plan.final_fee
        },
        next@.stage !is EncodeCommand ==> next@.stage is Failed,
{
    lemma_keeps_to_selection(waiting@.stage->Plan_plan_request.selection_mode, plan);
}

/// A plan that does not spend what was named is refused with both lists; one whose fee is not
/// taken, with both fees.
pub proof fn law_plan_is_refused<C, O>(
    waiting: CreateTxPlanner<C, O>,
    plan: Plan,
    named: &[Name],
    selected: &[Name],
    named_argument: String,
    selected_argument: String,
    next: CreateTxPlanner<C, O>,
)
    requires
        call_ensures(CreateTxPlanner::<C, O>::on_plan, (waiting, Ok(plan)), next),
        call_ensures(Wallet::format_note_names_for_create_tx, (named,), named_argument),
        call_ensures(Wallet::format_note_names_for_create_tx, (selected,), selected_argument),
        waiting@.stage is Plan,
        selected@ == plan.selected@,
        waiting@.stage->Plan_plan_request.selection_mode matches SelectionMode::Manual {
            note_names,
        } ==> named@ == note_names@,
    ensures
        !spends_what_was_named(waiting@.stage->Plan_plan_request.selection_mode, plan)
            ==> planning_failed(
            next@.stage,
            "planner parity mismatch: selected names differ from user-provided manual names (planned='"@
                + selected_argument@ + "', requested='"@ + named_argument@ + "')"@,
        ),
        spends_what_was_named(waiting@.stage->Plan_plan_request.selection_mode, plan)
            && !fee_is_taken(waiting@.request, plan) ==> {
            &&& next@.stage matches PlannerStage::Failed { err: WalletError::Unknown(words) }
            &&& commands::says_fee_is_low(
                words@,
                waiting@.request.fee->Some_0,
                plan.final_fee,
            )
        },
{
    lemma_keeps_to_selection(waiting@.stage->Plan_plan_request.selection_mode, plan);
    if waiting@.request.fee is Some {
        commands::lemma_says_fee_is_low(waiting@.request.fee->Some_0, plan.final_fee);
    }
}

/// Where there is no plan there is no transaction, and the planner's words are handed on.
pub proof fn law_no_plan_is_reported<C, O>(
    waiting: CreateTxPlanner<C, O>,
    err: PlanError,
    next: CreateTxPlanner<C, O>,
)
    requires
        call_ensures(CreateTxPlanner::<C, O>::on_plan, (waiting, Err(err)), next),
        waiting@.stage is Plan,
    ensures
        next@.request == waiting@.request,
        err matches PlanError::Other(words) ==> planning_failed(
            next@.stage,
            "planner returned an error: "@ + words@,
        ),
        err matches PlanError::CandidateVersionDisabled(words) ==> {
            &&& next@.stage matches PlannerStage::Failed { err: WalletError::Unknown(text) }
            &&& text@
                == "create-tx planner only selects v1 notes; use the dedicated v0 fan-in command for legacy notes ("@
                + words@ + ")"@
        },
{
}

/// The words for an error go behind its introduction.
pub proof fn law_words_end_planning<C, O>(
    waiting: CreateTxPlanner<C, O>,
    words: String,
    next: CreateTxPlanner<C, O>,
)
    requires
        call_ensures(CreateTxPlanner::<C, O>::on_words, (waiting, words), next),
        waiting@.stage is Describe,
    ensures
        next@.request == waiting@.request,
        planning_failed(next@.stage, waiting@.stage->Describe_introduction@ + words@),
{
}

/// The command says in each place what was asked for or planned, and is built exactly when the
/// names could be read and the refund, where one was given, decodes.
pub proof fn law_command_is_built<C, O>(
    waiting: CreateTxPlanner<C, O>,
    listed: Result<Vec<(String, String)>, WalletError>,
    refund: Option<Result<Noun, String>>,
    note_selection: &str,
    r: Result<WalletCommand, WalletError>,
)
    requires
        call_ensures(
            CreateTxPlanner::<C, O>::on_command_inputs,
            (waiting, listed, refund, note_selection),
            r,
        ),
        waiting@.stage is EncodeCommand,
        waiting@.request.refund_pkh is Some <==> refund is Some,
    ensures
        r is Ok <==> listed is Ok && (refund is None || refund->Some_0 is Ok),
        r matches Ok(command) ==> commands::says(
            command,
            Seq::new(
                listed->Ok_0@.len(),
                |i: int| (listed->Ok_0@[i].0@, listed->Ok_0@[i].1@),
            ),
            Seq::new(
                waiting@.request.recipients@.len(),
                |i: int| waiting@.request.recipients@[i]@,
            ),
            waiting@.stage->EncodeCommand_fee,
            waiting@.request.allow_low_fee,
            waiting@.request.sign_keys@,
            match refund {
                None => None,
                Some(decoded) => Some(decoded->Ok_0@),
            },
            waiting@.request.include_data,
            waiting@.request.save_raw_tx,
            note_selection@,
        ),
        listed matches Err(err) ==> r == Err::<WalletCommand, WalletError>(err),
        listed is Ok && r is Err ==> (r->Err_0 matches WalletError::Unknown(words) && words@
            == "Invalid refund pubkey hash '"@ + waiting@.request.refund_pkh->Some_0@ + "': "@
            + refund->Some_0->Err_0@),
{
    if r is Ok {
        let command = r->Ok_0;
        let request = waiting@.request;
        let texts = Seq::new(
            listed->Ok_0@.len(),
            |i: int| (listed->Ok_0@[i].0@, listed->Ok_0@[i].1@),
        );
        let trees = Seq::new(request.recipients@.len(), |i: int| request.recipients@[i]@);
        assert(command::name_texts(listed->Ok_0@) =~= texts);
        assert(noun::trees(request.recipients@) =~= trees);
        commands::lemma_says(
            command,
            command::CreateTxView {
                names: texts,
                recipients: trees,
                fee: waiting@.stage->EncodeCommand_fee,
                allow_low_fee: request.allow_low_fee,
                sign_keys: request.sign_keys@,
                refund: command::refund_digest(
                    planner::given_refund(request.refund_pkh, refund),
                ),
                include_data: request.include_data,
                save_raw_tx: request.save_raw_tx,
                note_selection: note_selection@,
            },
        );
    }
}

/// The path of a place in the wallet's state.
pub open spec fn is_path(path: NounView, tag: Seq<char>) -> bool {
    path matches NounView::Cell(head, tail) && nouns::is_text(*head, tag) && *tail
        == NounView::Atom(0)
}

/// Each look goes to its own place.
pub proof fn law_looks_go_to_their_places<C, O>(
    waiting: CreateTxPlanner<C, O>,
    action: PlannerAction<'_, C, O>,
)
    requires
        call_ensures(CreateTxPlanner::<C, O>::action, (&waiting,), action),
    ensures
        waiting@.stage is PeekBalance ==> (action matches PlannerAction::PeekBalance { path }
            && is_path(path@, "balance"@)),
        waiting@.stage is PeekSigningKeys ==> (action matches PlannerAction::PeekSigningKeys { path }
            && is_path(path@, "signing-keys"@)),
        waiting@.stage is PeekConstants ==> (action matches PlannerAction::PeekConstants { path }
            && is_path(path@, "blockchain-constants"@)),
{
    nouns::lemma_is_text("balance"@);
    nouns::lemma_is_text("signing-keys"@);
    nouns::lemma_is_text("blockchain-constants"@);
}

/// What is asked for outside is asked for with what the user gave and what is known by then.
pub proof fn law_actions_hand_out_what_is_known<C, O>(
    waiting: CreateTxPlanner<C, O>,
    action: PlannerAction<'_, C, O>,
)
    requires
        call_ensures(CreateTxPlanner::<C, O>::action, (&waiting,), action),
    ensures
        match waiting@.stage {
            PlannerStage::NormalizeBalance { balance: kept } => action
                matches PlannerAction::NormalizeBalance { balance } && *balance == kept,
            PlannerStage::ParseNoteNames { .. } => action matches PlannerAction::ParseNoteNames {
                raw,
            } && raw@ == waiting@.request.names->Some_0@,
            PlannerStage::DecodeRefund { .. } => action matches PlannerAction::DecodeRefund { text }
                && text@ == waiting@.request.refund_pkh->Some_0@,
            PlannerStage::DeriveRecipientOutputs { .. } => action
                matches PlannerAction::DeriveRecipientOutputs { recipients, include_data }
                && recipients@ == waiting@.request.recipients@ && include_data
                == waiting@.request.include_data,
            PlannerStage::Plan { plan_request: kept, matcher: m } => action
                matches PlannerAction::Plan { plan_request, matcher } && *plan_request == kept
                && *matcher == m,
            PlannerStage::Describe { err: kept, .. } => action matches PlannerAction::Describe { err }
                && *err == kept,
            PlannerStage::Failed { err: kept } => action matches PlannerAction::Stop { err } && *err
                == kept,
            _ => true,
        },
{
}

/// Change is derived for the refund key hash where one was given, and for the master signer.
pub proof fn law_change_is_derived_for_refund_or_signer<C, O>(
    waiting: CreateTxPlanner<C, O>,
    action: PlannerAction<'_, C, O>,
)
    requires
        call_ensures(CreateTxPlanner::<C, O>::action, (&waiting,), action),
        waiting@.stage is DeriveRefundOutput,
    ensures
        action is DeriveRefundOutput,
        *action->DeriveRefundOutput_master_signer
            == waiting@.stage->DeriveRefundOutput_context.master_signer,
        action->DeriveRefundOutput_include_data == waiting@.request.include_data,
        action->DeriveRefundOutput_refund is Some
            <==> waiting@.stage->DeriveRefundOutput_context.refund is Some,
        action->DeriveRefundOutput_refund is Some ==> *action->DeriveRefundOutput_refund->Some_0
            == waiting@.stage->DeriveRefundOutput_context.refund->Some_0,
{
}

/// The command is encoded with the planned names, the refund as it was given, and the user's
/// note selection.
pub proof fn law_command_is_encoded_with_what_was_given<C, O>(
    waiting: CreateTxPlanner<C, O>,
    action: PlannerAction<'_, C, O>,
)
    requires
        call_ensures(CreateTxPlanner::<C, O>::action, (&waiting,), action),
        waiting@.stage is EncodeCommand,
    ensures
        action is EncodeCommand,
        action->EncodeCommand_names@ == waiting@.stage->EncodeCommand_names@,
        action->EncodeCommand_note_selection == waiting@.request.note_selection,
        action->EncodeCommand_refund_pkh is Some <==> waiting@.request.refund_pkh is Some,
        action->EncodeCommand_refund_pkh is Some ==> action->EncodeCommand_refund_pkh->Some_0@
            == waiting@.request.refund_pkh->Some_0@,
{
}

} // verus!
