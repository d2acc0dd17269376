//! Planning a transaction: what the wallet asks for next, and what it makes of each answer.

use crate::balance::{BalanceUpdate, NormalizedSnapshot};
use crate::command;
use crate::command::{
    NoteSelectionStrategyCli, RefundPkh, SelectionOrder, WalletCommand,
};
use crate::constants;
use crate::digest;
use crate::digest::{Digest, Name};
use crate::error::{WalletError, WalletErrorView};
use crate::names;
use crate::names::NoteNameText;
use crate::noun;
use crate::noun::Noun;
use crate::order;
use crate::order::Keyed;
use crate::signers;
use crate::signers::{SigningKeyLockMatcher, SpendCondition};
use crate::wallet::Wallet;
use vstd::prelude::*;

verus! {

/// The transaction that a user asks for.
#[derive(Debug)]
pub struct CreateTxRequest {
    /// The notes to spend, as the `--names` argument lists them; the planner picks where it is
    /// not given.
    pub names: Option<String>,
    pub fee: Option<u64>,
    /// The nouns of the recipients.
    pub recipients: Vec<Noun>,
    pub allow_low_fee: bool,
    pub refund_pkh: Option<String>,
    pub sign_keys: Vec<(u64, bool)>,
    pub include_data: bool,
    pub save_raw_tx: bool,
    pub note_selection: NoteSelectionStrategyCli,
}

/// Which notes a plan spends.
#[derive(Debug, PartialEq, Eq)]
pub enum SelectionMode {
    /// Those that the planner picks.
    Auto,
    /// These.
    Manual { note_names: Vec<Name> },
}

/// Which versions of notes a plan may spend.
#[derive(Clone, Copy, Debug, PartialEq, Eq, Structural)]
pub enum CandidateVersionPolicy {
    V1Only,
}

/// What a plan must know of the chain.
#[derive(Clone, Copy, Debug, PartialEq, Eq, Structural)]
pub struct ChainContext {
    pub height: u64,
    pub bythos_phase: u64,
    pub base_fee: u64,
    pub input_fee_divisor: u64,
    pub min_fee: u64,
}

/// What the planner is asked. `C` is a note that may be spent, `O` an output.
#[derive(Debug)]
pub struct PlanRequest<C, O> {
    pub selection_mode: SelectionMode,
    pub order_direction: SelectionOrder,
    pub include_data: bool,
    pub chain_context: ChainContext,
    pub signer_pkh: Option<Digest>,
    pub candidate_version_policy: CandidateVersionPolicy,
    pub candidates: Vec<C>,
    pub recipient_outputs: Vec<O>,
    pub refund_output: O,
    pub coinbase_relative_min: Option<u64>,
}

/// What the planner answers: the notes to spend, and the fee that is due.
#[derive(Debug)]
pub struct Plan {
    pub selected: Vec<Name>,
    pub final_fee: u64,
}

/// Why the planner has no plan, in its words.
#[derive(Debug)]
pub enum PlanError {
    /// The notes are of a version that the plan may not spend.
    CandidateVersionDisabled(String),
    Other(String),
}

/// What is spent, for whom, and by whom.
#[derive(Debug)]
pub struct SpendContext<C> {
    pub snapshot: NormalizedSnapshot<C>,
    pub selection_mode: SelectionMode,
    /// The key hash that change goes to, where it was given.
    pub refund: Option<Digest>,
    pub master_signer: Digest,
}

/// What the wallet waits for.
#[derive(Debug)]
pub enum PlannerStage<C, O> {
    /// A look at `/balance` in the wallet's state.
    PeekBalance,
    /// The snapshot of this balance.
    NormalizeBalance { balance: BalanceUpdate },
    /// The reading of the `--names` argument.
    ParseNoteNames { snapshot: NormalizedSnapshot<C> },
    /// The decoding of the refund key hash.
    DecodeRefund { snapshot: NormalizedSnapshot<C>, selection_mode: SelectionMode },
    /// A look at `/signing-keys` in the wallet's state.
    PeekSigningKeys {
        snapshot: NormalizedSnapshot<C>,
        selection_mode: SelectionMode,
        refund: Option<Digest>,
    },
    /// The outputs for the recipients.
    DeriveRecipientOutputs { context: SpendContext<C> },
    /// The output for change to `context.refund`, or else to the master signer.
    DeriveRefundOutput { context: SpendContext<C>, recipient_outputs: Vec<O> },
    /// A look at `/blockchain-constants` in the wallet's state.
    PeekConstants { context: SpendContext<C>, recipient_outputs: Vec<O>, refund_output: O },
    /// A plan. Only notes whose lock the matcher finds can be spent.
    Plan { plan_request: PlanRequest<C, O>, matcher: SigningKeyLockMatcher },
    /// The reading of this `--names` argument, the noun of the refund key hash, and the
    /// kernel's word for the selection strategy.
    EncodeCommand { names: String, fee: u64 },
    /// The words for this error, to go behind the introduction.
    Describe { introduction: String, err: WalletError },
    /// Nothing more: there will be no transaction.
    Failed { err: WalletError },
}

impl<C, O> PlannerStage<C, O> {
    /// How far the work has come.
    pub open spec fn rank(self) -> nat {
        match self {
            PlannerStage::PeekBalance => 0,
            PlannerStage::NormalizeBalance { .. } => 1,
            PlannerStage::ParseNoteNames { .. } => 2,
            PlannerStage::DecodeRefund { .. } => 3,
            PlannerStage::PeekSigningKeys { .. } => 4,
            PlannerStage::DeriveRecipientOutputs { .. } => 5,
            PlannerStage::DeriveRefundOutput { .. } => 6,
            PlannerStage::PeekConstants { .. } => 7,
            PlannerStage::Plan { .. } => 8,
            PlannerStage::EncodeCommand { .. } => 9,
            PlannerStage::Describe { .. } => 10,
            PlannerStage::Failed { .. } => 11,
        }
    }
}

/// A transaction in the making: what was asked for, and what is waited for.
#[derive(Debug)]
pub struct CreateTxPlanner<C, O> {
    request: CreateTxRequest,
    stage: PlannerStage<C, O>,
}

pub struct PlannerView<C, O> {
    pub request: CreateTxRequest,
    pub stage: PlannerStage<C, O>,
}

impl<C, O> View for CreateTxPlanner<C, O> {
    type V = PlannerView<C, O>;

    closed spec fn view(&self) -> PlannerView<C, O> {
        PlannerView { request: self.request, stage: self.stage }
    }
}

impl<C, O> PlannerView<C, O> {
    /// What is waited for is something that was given.
    pub open spec fn well_formed(self) -> bool {
        &&& self.stage is ParseNoteNames ==> self.request.names is Some
        &&& self.stage is DecodeRefund ==> self.request.refund_pkh is Some
    }
}

impl<C, O> CreateTxPlanner<C, O> {
    #[verifier::type_invariant]
    spec fn waits_for_what_was_given(self) -> bool {
        self@.well_formed()
    }

    /// What was asked for.
    pub fn request(&self) -> (request: &CreateTxRequest)
        ensures
            *request == self@.request,
    {
        &self.request
    }

    /// What is waited for.
    pub fn stage(&self) -> (stage: &PlannerStage<C, O>)
        ensures
            *stage == self@.stage,
            self@.well_formed(),
    {
        proof {
            use_type_invariant(self);
        }
        &self.stage
    }

    /// What is waited for, taken out of the planner.
    pub fn into_stage(self) -> (stage: PlannerStage<C, O>)
        ensures
            stage == self@.stage,
    {
        self.stage
    }
}

/// The words of a failure to plan.
pub open spec fn planner_failure(reason: Seq<char>) -> WalletErrorView {
    WalletErrorView::Unknown("create-tx planner failed: "@ + reason)
}

/// What comes once there is a snapshot.
pub open spec fn with_snapshot<C, O>(
    request: CreateTxRequest,
    snapshot: NormalizedSnapshot<C>,
) -> PlannerStage<C, O> {
    if request.names is Some {
        PlannerStage::ParseNoteNames { snapshot }
    } else {
        with_selection(request, snapshot, SelectionMode::Auto)
    }
}

/// What comes once it is known which notes to spend.
pub open spec fn with_selection<C, O>(
    request: CreateTxRequest,
    snapshot: NormalizedSnapshot<C>,
    selection_mode: SelectionMode,
) -> PlannerStage<C, O> {
    if request.refund_pkh is Some {
        PlannerStage::DecodeRefund { snapshot, selection_mode }
    } else {
        PlannerStage::PeekSigningKeys { snapshot, selection_mode, refund: None }
    }
}

/// `master` is the smallest of the signing keys.
pub open spec fn is_master_signer(signing_keys: Seq<Digest>, master: Digest) -> bool {
    &&& order::is_first_of(signing_keys, master)
    &&& forall|i: int|
        0 <= i < signing_keys.len() ==> order::lex_le(
            digest::limbs_key(master.limbs),
            digest::limbs_key((#[trigger] signing_keys[i]).limbs),
        )
}

proof fn lemma_first_kept_is_master(signing_keys: Seq<Digest>, kept: Seq<Digest>)
    requires
        order::one_per_key(signing_keys, kept),
    ensures
        kept.len() == 0 <==> signing_keys.len() == 0,
        kept.len() > 0 ==> is_master_signer(signing_keys, kept[0]),
{
    order::lemma_kept_is_empty(signing_keys, kept);
    if kept.len() > 0 {
        assert(order::is_first_of(signing_keys, kept[0]));
        assert forall|i: int| 0 <= i < signing_keys.len() implies order::lex_le(
            digest::limbs_key(kept[0].limbs),
            digest::limbs_key((#[trigger] signing_keys[i]).limbs),
        ) by {
            assert(order::has_key(kept, signing_keys[i].key()));
            let j = choose|j: int|
                0 <= j < kept.len() && (#[trigger] kept[j]).key() == signing_keys[i].key();
            if j > 0 {
                assert(order::lex_lt(kept[0].key(), kept[j].key()));
            }
        }
    }
}

/// The request for a plan: for the master signer alone, spending newer notes alone.
pub open spec fn asks_for_plan<C, O>(
    request: CreateTxRequest,
    context: SpendContext<C>,
    recipient_outputs: Vec<O>,
    refund_output: O,
    known: constants::PlannerBlockchainConstantsView,
    coinbase_min: u64,
    plan_request: PlanRequest<C, O>,
) -> bool {
    &&& plan_request.selection_mode == context.selection_mode
    &&& plan_request.order_direction == (match request.note_selection {
        NoteSelectionStrategyCli::Ascending => SelectionOrder::Ascending,
        NoteSelectionStrategyCli::Descending => SelectionOrder::Descending,
    })
    &&& plan_request.include_data == request.include_data
    &&& plan_request.chain_context == (ChainContext {
        height: context.snapshot.metadata.height,
        bythos_phase: known.bythos_phase,
        base_fee: known.base_fee,
        input_fee_divisor: known.input_fee_divisor,
        min_fee: known.data.min_fee,
    })
    &&& plan_request.signer_pkh == Some(context.master_signer)
    &&& plan_request.candidate_version_policy == CandidateVersionPolicy::V1Only
    &&& plan_request.candidates == context.snapshot.candidates
    &&& plan_request.recipient_outputs == recipient_outputs
    &&& plan_request.refund_output == refund_output
    &&& plan_request.coinbase_relative_min == Some(coinbase_min)
}

/// The plan spends the notes that were asked for, where any were.
pub open spec fn keeps_to_selection(selection_mode: SelectionMode, plan: Plan) -> bool {
    match selection_mode {
        SelectionMode::Auto => true,
        SelectionMode::Manual { note_names } => names::same_names(note_names@, plan.selected@),
    }
}

/// The fee that is requested is one that is refused.
pub open spec fn fee_refused(request: CreateTxRequest, planned_fee: u64) -> bool {
    &&& request.fee matches Some(requested_fee)
    &&& requested_fee < planned_fee
    &&& !request.allow_low_fee
}

/// What comes once there is a plan, or none.
pub open spec fn follows_plan<C, O>(
    request: CreateTxRequest,
    selection_mode: SelectionMode,
    planned: Result<Plan, PlanError>,
    stage: PlannerStage<C, O>,
) -> bool {
    match planned {
        Err(PlanError::CandidateVersionDisabled(words)) => failed(
            stage,
            WalletErrorView::Unknown(
                "create-tx planner only selects v1 notes; use the dedicated v0 fan-in command for legacy notes ("@
                    + words@ + ")"@,
            ),
        ),
        Err(PlanError::Other(words)) => failed(
            stage,
            planner_failure("planner returned an error: "@ + words@),
        ),
        Ok(plan) => if !keeps_to_selection(selection_mode, plan) {
            failed(
                stage,
                planner_failure(
                    names::parity_mismatch(
                        selection_mode->Manual_note_names@,
                        plan.selected@,
                    ),
                ),
            )
        } else if fee_refused(request, plan.final_fee) {
            failed(
                stage,
                WalletErrorView::Unknown(
                    command::low_fee_text(request.fee->Some_0, plan.final_fee),
                ),
            )
        } else {
            &&& stage matches PlannerStage::EncodeCommand { names, fee }
            &&& names@ == names::names_argument(plan.selected@)
            &&& fee == (match request.fee {
                Some(requested_fee) => requested_fee,
                None => plan.final_fee,
            })
        },
    }
}

/// The work has ended with this error.
pub open spec fn failed<C, O>(stage: PlannerStage<C, O>, err: WalletErrorView) -> bool {
    &&& stage matches PlannerStage::Failed { err: e }
    &&& e@ == err
}

/// The words for this error are waited for, to go behind the introduction.
pub open spec fn describes<C, O>(
    stage: PlannerStage<C, O>,
    introduction: Seq<char>,
    err: WalletErrorView,
) -> bool {
    &&& stage matches PlannerStage::Describe { introduction: i, err: e }
    &&& i@ == introduction
    &&& e@ == err
}

/// An error about planning.
fn planner_error(reason: &str) -> (err: WalletError)
    ensures
        err@ == planner_failure(reason@),
{
    let mut words = "create-tx planner failed: ".to_owned();
    words.append(reason);
    WalletError::Unknown(words)
}

/// A text behind an introduction.
fn introduced(introduction: &str, text: &str) -> (words: String)
    ensures
        words@ == introduction@ + text@,
{
    let mut words = introduction.to_owned();
    words.append(text);
    words
}

impl Wallet {
    /// Starts to plan a transaction, from a snapshot where there is one, and from the balance
    /// in the wallet's state otherwise.
    pub fn create_tx_with_planner<C, O>(
        synced_snapshot: Option<NormalizedSnapshot<C>>,
        request: CreateTxRequest,
    ) -> (planner: CreateTxPlanner<C, O>)
        ensures
            planner@.well_formed(),
            planner@.request == request,
            match synced_snapshot {
                Some(snapshot) => planner@.stage == with_snapshot::<C, O>(request, snapshot),
                None => planner@.stage is PeekBalance,
            },
    {
        match synced_snapshot {
            Some(snapshot) => CreateTxPlanner::begin_selection(request, snapshot),
            None => CreateTxPlanner { request, stage: PlannerStage::PeekBalance },
        }
    }
}

impl<C, O> CreateTxPlanner<C, O> {
    fn fail(request: CreateTxRequest, reason: &str) -> (next: Self)
        ensures
            next@.request == request,
            failed(next@.stage, planner_failure(reason@)),
    {
        let err = planner_error(reason);
        CreateTxPlanner { request, stage: PlannerStage::Failed { err } }
    }

    fn describe(request: CreateTxRequest, introduction: &str, err: WalletError) -> (next: Self)
        ensures
            next@.request == request,
            describes(next@.stage, introduction@, err@),
    {
        let introduction = introduction.to_owned();
        CreateTxPlanner { request, stage: PlannerStage::Describe { introduction, err } }
    }

    fn begin_selection(request: CreateTxRequest, snapshot: NormalizedSnapshot<C>) -> (next: Self)
        ensures
            next@.request == request,
            next@.stage == with_snapshot::<C, O>(request, snapshot),
    {
        if request.names.is_some() {
            CreateTxPlanner { request, stage: PlannerStage::ParseNoteNames { snapshot } }
        } else {
            Self::begin_refund(request, snapshot, SelectionMode::Auto)
        }
    }

    fn begin_refund(
        request: CreateTxRequest,
        snapshot: NormalizedSnapshot<C>,
        selection_mode: SelectionMode,
    ) -> (next: Self)
        ensures
            next@.request == request,
            next@.stage == with_selection::<C, O>(request, snapshot, selection_mode),
    {
        if request.refund_pkh.is_some() {
            CreateTxPlanner {
                request,
                stage: PlannerStage::DecodeRefund { snapshot, selection_mode },
            }
        } else {
            CreateTxPlanner {
                request,
                stage: PlannerStage::PeekSigningKeys { snapshot, selection_mode, refund: None },
            }
        }
    }

    /// Takes what a look at `/balance` shows.
    pub fn on_balance(
        self,
        peeked: Result<Option<Option<BalanceUpdate>>, WalletError>,
    ) -> (next: Self)
        requires
            self@.stage is PeekBalance,
        ensures
            next@.well_formed(),
            next@.request == self@.request,
            next@.stage.rank() > self@.stage.rank(),
            match peeked {
                Ok(Some(Some(balance))) => next@.stage == (PlannerStage::<C, O>::NormalizeBalance {
                    balance,
                }),
                Ok(_) => describes(
                    next@.stage,
                    "unable to read synced balance from wallet state: "@,
                    WalletErrorView::OtherError("wallet balance peek returned no balance payload"@),
                ),
                Err(err) => describes(
                    next@.stage,
                    "unable to read synced balance from wallet state: "@,
                    err@,
                ),
            },
    {
        match Wallet::balance_state_from_peek(peeked) {
            Ok(balance) => CreateTxPlanner {
                request: self.request,
                stage: PlannerStage::NormalizeBalance { balance },
            },
            Err(err) => Self::describe(
                self.request,
                "unable to read synced balance from wallet state: ",
                err,
            ),
        }
    }

    /// Takes the snapshot of the balance, or the words for why there is none.
    pub fn on_normalized(self, normalized: Result<NormalizedSnapshot<C>, String>) -> (next: Self)
        requires
            self@.stage is NormalizeBalance,
        ensures
            next@.well_formed(),
            next@.request == self@.request,
            next@.stage.rank() > self@.stage.rank(),
            match normalized {
                Ok(snapshot) => next@.stage == with_snapshot::<C, O>(self@.request, snapshot),
                Err(words) => failed(
                    next@.stage,
                    planner_failure(
                        "candidate normalization failed for wallet balance snapshot: "@ + words@,
                    ),
                ),
            },
    {
        match normalized {
            Ok(snapshot) => Self::begin_selection(self.request, snapshot),
            Err(words) => {
                let reason = introduced(
                    "candidate normalization failed for wallet balance snapshot: ",
                    words.as_str(),
                );
                Self::fail(self.request, reason.as_str())
            },
        }
    }

    /// Takes the reading of the `--names` argument.
    pub fn on_note_names(self, parsed: Result<Vec<NoteNameText>, WalletError>) -> (next: Self)
        requires
            self@.stage is ParseNoteNames,
        ensures
            next@.well_formed(),
            next@.request == self@.request,
            next@.stage.rank() > self@.stage.rank(),
            match parsed {
                Err(err) => describes(
                    next@.stage,
                    "unable to parse manual note names: "@,
                    err@,
                ),
                Ok(written) => {
                    ||| exists|note_names: Vec<Name>|
                        {
                            &&& names::written_names(written@, note_names@)
                            &&& next@.stage == #[trigger] with_selection::<C, O>(
                                self@.request,
                                self@.stage->ParseNoteNames_snapshot,
                                SelectionMode::Manual { note_names },
                            )
                        }
                    ||| exists|refused: int, err: WalletError|
                        {
                            &&& #[trigger] names::refuses_first(written@, refused, err)
                            &&& describes(
                                next@.stage,
                                "unable to parse manual note names: "@,
                                err@,
                            )
                        }
                },
            },
    {
        match Wallet::parse_note_names_as_hashes(parsed) {
            Ok(note_names) => match self.stage {
                PlannerStage::ParseNoteNames { snapshot } => Self::begin_refund(
                    self.request,
                    snapshot,
                    SelectionMode::Manual { note_names },
                ),
                stage => CreateTxPlanner { request: self.request, stage },
            },
            Err(err) => Self::describe(self.request, "unable to parse manual note names: ", err),
        }
    }

    /// Takes the decoding of the refund key hash.
    pub fn on_refund(self, decoded: Result<Digest, String>) -> (next: Self)
        requires
            self@.stage is DecodeRefund,
        ensures
            next@.well_formed(),
            next@.request == self@.request,
            next@.stage.rank() > self@.stage.rank(),
            match decoded {
                Ok(refund) => next@.stage == (PlannerStage::<C, O>::PeekSigningKeys {
                    snapshot: self@.stage->DecodeRefund_snapshot,
                    selection_mode: self@.stage->DecodeRefund_selection_mode,
                    refund: Some(refund),
                }),
                Err(words) => failed(
                    next@.stage,
                    planner_failure(
                        "invalid refund pubkey hash '"@ + self@.request.refund_pkh->Some_0@ + "': "@
                            + words@,
                    ),
                ),
            },
    {
        proof {
            use_type_invariant(&self);
        }
        match decoded {
            Ok(refund) => match self.stage {
                PlannerStage::DecodeRefund { snapshot, selection_mode } => CreateTxPlanner {
                    request: self.request,
                    stage: PlannerStage::PeekSigningKeys {
                        snapshot,
                        selection_mode,
                        refund: Some(refund),
                    },
                },
                stage => CreateTxPlanner { request: self.request, stage },
            },
            Err(words) => {
                let mut reason = "invalid refund pubkey hash '".to_owned();
                if let Some(given) = &self.request.refund_pkh {
                    reason.append(given.as_str());
                }
                reason.append("': ");
                reason.append(words.as_str());
                Self::fail(self.request, reason.as_str())
            },
        }
    }

    /// Takes what a look at `/signing-keys` shows. A look that fails shows none.
    pub fn on_signing_keys(
        self,
        peeked: Result<Option<Option<Vec<Digest>>>, WalletError>,
    ) -> (next: Self)
        requires
            self@.stage is PeekSigningKeys,
        ensures
            next@.well_formed(),
            next@.request == self@.request,
            next@.stage.rank() > self@.stage.rank(),
            if peeked is Ok && signers::shown_keys(peeked->Ok_0).len() > 0 {
                &&& next@.stage matches PlannerStage::DeriveRecipientOutputs { context }
                &&& context.snapshot == self@.stage->PeekSigningKeys_snapshot
                &&& context.selection_mode == self@.stage->PeekSigningKeys_selection_mode
                &&& context.refund == self@.stage->PeekSigningKeys_refund
                &&& is_master_signer(signers::shown_keys(peeked->Ok_0), context.master_signer)
            } else {
                failed(
                    next@.stage,
                    planner_failure("wallet has no signer keys for create-tx planner"@),
                )
            },
    {
        let signer_keys = match Wallet::signing_keys_from_peek(peeked) {
            Ok(keys) => keys,
            Err(_) => Vec::new(),
        };
        proof {
            if peeked is Ok {
                lemma_first_kept_is_master(signers::shown_keys(peeked->Ok_0), signer_keys@);
            }
        }
        if signer_keys.is_empty() {
            return Self::fail(self.request, "wallet has no signer keys for create-tx planner");
        }
        let master_signer = signer_keys[0].clone();
        match self.stage {
            PlannerStage::PeekSigningKeys { snapshot, selection_mode, refund } => CreateTxPlanner {
                request: self.request,
                stage: PlannerStage::DeriveRecipientOutputs {
                    context: SpendContext { snapshot, selection_mode, refund, master_signer },
                },
            },
            stage => CreateTxPlanner { request: self.request, stage },
        }
    }

    /// Takes the outputs for the recipients, or the words for why there are none.
    pub fn on_recipient_outputs(self, derived: Result<Vec<O>, String>) -> (next: Self)
        requires
            self@.stage is DeriveRecipientOutputs,
        ensures
            next@.well_formed(),
            next@.request == self@.request,
            next@.stage.rank() > self@.stage.rank(),
            match derived {
                Ok(recipient_outputs) => next@.stage == (PlannerStage::<C, O>::DeriveRefundOutput {
                    context: self@.stage->DeriveRecipientOutputs_context,
                    recipient_outputs,
                }),
                Err(words) => failed(
                    next@.stage,
                    planner_failure(
                        "unable to derive planner recipient lock roots from recipients: "@
                            + words@,
                    ),
                ),
            },
    {
        match derived {
            Ok(recipient_outputs) => match self.stage {
                PlannerStage::DeriveRecipientOutputs { context } => CreateTxPlanner {
                    request: self.request,
                    stage: PlannerStage::DeriveRefundOutput { context, recipient_outputs },
                },
                stage => CreateTxPlanner { request: self.request, stage },
            },
            Err(words) => {
                let reason = introduced(
                    "unable to derive planner recipient lock roots from recipients: ",
                    words.as_str(),
                );
                Self::fail(self.request, reason.as_str())
            },
        }
    }

    /// Takes the output for change, or the words for why there is none.
    pub fn on_refund_output(self, derived: Result<O, String>) -> (next: Self)
        requires
            self@.stage is DeriveRefundOutput,
        ensures
            next@.well_formed(),
            next@.request == self@.request,
            next@.stage.rank() > self@.stage.rank(),
            match derived {
                Ok(refund_output) => next@.stage == (PlannerStage::<C, O>::PeekConstants {
                    context: self@.stage->DeriveRefundOutput_context,
                    recipient_outputs: self@.stage->DeriveRefundOutput_recipient_outputs,
                    refund_output,
                }),
                Err(words) => failed(
                    next@.stage,
                    planner_failure(
                        "unable to derive planner refund output template from signer/refund context: "@
                            + words@,
                    ),
                ),
            },
    {
        match derived {
            Ok(refund_output) => match self.stage {
                PlannerStage::DeriveRefundOutput { context, recipient_outputs } => CreateTxPlanner {
                    request: self.request,
                    stage: PlannerStage::PeekConstants { context, recipient_outputs, refund_output },
                },
                stage => CreateTxPlanner { request: self.request, stage },
            },
            Err(words) => {
                let reason = introduced(
                    "unable to derive planner refund output template from signer/refund context: ",
                    words.as_str(),
                );
                Self::fail(self.request, reason.as_str())
            },
        }
    }
}

/// What comes once the wallet's state has shown the blockchain constants.
pub open spec fn follows_constants<C, O>(
    request: CreateTxRequest,
    context: SpendContext<C>,
    recipient_outputs: Vec<O>,
    refund_output: O,
    peeked: Result<Noun, WalletError>,
    stage: PlannerStage<C, O>,
) -> bool {
    match peeked {
        Err(err) => describes(stage, constants_unread(), err@),
        Ok(shown) => match constants::shown_constants(shown@) {
            Err(err) => describes(stage, constants_unread(), WalletErrorView::Decode(err)),
            Ok(None) => describes(
                stage,
                constants_unread(),
                WalletErrorView::OtherError(
                    "wallet blockchain-constants peek returned no payload"@,
                ),
            ),
            Ok(Some(known)) => match constants::coinbase_timelock_min_of(known.legacy_constants) {
                Err(err) => describes(
                    stage,
                    "unable to resolve coinbase timelock min from blockchain constants: "@,
                    constants::timelock_unread(err),
                ),
                Ok(coinbase_min) => {
                    &&& stage matches PlannerStage::Plan { plan_request, matcher }
                    &&& asks_for_plan(
                        request,
                        context,
                        recipient_outputs,
                        refund_output,
                        known,
                        coinbase_min,
                        plan_request,
                    )
                    &&& matcher@ == set![context.master_signer.limbs@]
                },
            },
        },
    }
}

/// How the words for constants that cannot be read begin.
pub open spec fn constants_unread() -> Seq<char> {
    "unable to read blockchain constants from wallet state: "@
}

/// A matcher for one signing key.
fn matcher_for(signer: &Digest) -> (matcher: SigningKeyLockMatcher)
    ensures
        matcher@ == set![signer.limbs@],
{
    let mut signer_keys: Vec<Digest> = Vec::new();
    signer_keys.push(signer.clone());
    let matcher = SigningKeyLockMatcher::from_signer_keys(signer_keys.as_slice());
    assert(matcher@ =~= set![signer.limbs@]) by {
        assert forall|limbs: Seq<u64>| #[trigger]
            matcher@.contains(limbs) <==> limbs == signer.limbs@ by {
            assert(signer_keys@[0].limbs@ == signer.limbs@);
            assert(signers::limbs_of(signer_keys@).contains(limbs) <==> signers::some_digest_has(
                signer_keys@,
                limbs,
            ));
        }
    }
    matcher
}

impl<C, O> CreateTxPlanner<C, O> {
    /// Takes what a look at `/blockchain-constants` shows.
    pub fn on_constants(self, peeked: Result<Noun, WalletError>) -> (next: Self)
        requires
            self@.stage is PeekConstants,
        ensures
            next@.well_formed(),
            next@.request == self@.request,
            next@.stage.rank() > self@.stage.rank(),
            follows_constants(
                self@.request,
                self@.stage->PeekConstants_context,
                self@.stage->PeekConstants_recipient_outputs,
                self@.stage->PeekConstants_refund_output,
                peeked,
                next@.stage,
            ),
    {
        let planner_constants = match Wallet::blockchain_constants_from_peek(peeked) {
            Ok(planner_constants) => planner_constants,
            Err(err) => {
                return Self::describe(
                    self.request,
                    "unable to read blockchain constants from wallet state: ",
                    err,
                );
            },
        };
        let coinbase_relative_min = match planner_constants.coinbase_timelock_min() {
            Ok(min) => min,
            Err(err) => {
                return Self::describe(
                    self.request,
                    "unable to resolve coinbase timelock min from blockchain constants: ",
                    err,
                );
            },
        };
        match self.stage {
            PlannerStage::PeekConstants { context, recipient_outputs, refund_output } => {
                let matcher = matcher_for(&context.master_signer);
                let plan_request = PlanRequest {
                    selection_mode: context.selection_mode,
                    order_direction: Wallet::planner_order_direction(self.request.note_selection),
                    include_data: self.request.include_data,
                    chain_context: ChainContext {
                        height: context.snapshot.metadata.height,
                        bythos_phase: planner_constants.bythos_phase,
                        base_fee: planner_constants.base_fee,
                        input_fee_divisor: planner_constants.input_fee_divisor,
                        min_fee: planner_constants.data.min_fee,
                    },
                    signer_pkh: Some(context.master_signer),
                    candidate_version_policy: CandidateVersionPolicy::V1Only,
                    candidates: context.snapshot.candidates,
                    recipient_outputs,
                    refund_output,
                    coinbase_relative_min: Some(coinbase_relative_min),
                };
                CreateTxPlanner {
                    request: self.request,
                    stage: PlannerStage::Plan { plan_request, matcher },
                }
            },
            stage => CreateTxPlanner { request: self.request, stage },
        }
    }

    /// Takes the plan, or the reason why there is none.
    pub fn on_plan(self, planned: Result<Plan, PlanError>) -> (next: Self)
        requires
            self@.stage is Plan,
        ensures
            next@.well_formed(),
            next@.request == self@.request,
            next@.stage.rank() > self@.stage.rank(),
            follows_plan(
                self@.request,
                self@.stage->Plan_plan_request.selection_mode,
                planned,
                next@.stage,
            ),
    {
        let plan = match planned {
            Ok(plan) => plan,
            Err(PlanError::CandidateVersionDisabled(words)) => {
                let mut text =
                    "create-tx planner only selects v1 notes; use the dedicated v0 fan-in command for legacy notes (".to_owned();
                text.append(words.as_str());
                text.append(")");
                return CreateTxPlanner {
                    request: self.request,
                    stage: PlannerStage::Failed { err: WalletError::Unknown(text) },
                };
            },
            Err(PlanError::Other(words)) => {
                let reason = introduced("planner returned an error: ", words.as_str());
                return Self::fail(self.request, reason.as_str());
            },
        };
        match &self.stage {
            PlannerStage::Plan { plan_request, matcher: _ } => match &plan_request.selection_mode {
                SelectionMode::Auto => {},
                SelectionMode::Manual { note_names } => {
                    match names::ensure_manual_planner_parity(
                        note_names.as_slice(),
                        plan.selected.as_slice(),
                    ) {
                        Ok(()) => {},
                        Err(reason) => {
                            return Self::fail(self.request, reason.as_str());
                        },
                    }
                },
            },
            _ => {},
        }
        let names = Wallet::format_note_names_for_create_tx(plan.selected.as_slice());
        match command::select_fee(self.request.fee, plan.final_fee, self.request.allow_low_fee) {
            Err(err) => CreateTxPlanner {
                request: self.request,
                stage: PlannerStage::Failed { err },
            },
            Ok(fee) => CreateTxPlanner {
                request: self.request,
                stage: PlannerStage::EncodeCommand { names, fee },
            },
        }
    }

    /// Takes the words for an error, and ends with a failure in these words.
    pub fn on_words(self, words: String) -> (next: Self)
        requires
            self@.stage is Describe,
        ensures
            next@.well_formed(),
            next@.request == self@.request,
            next@.stage.rank() > self@.stage.rank(),
            failed(
                next@.stage,
                planner_failure(self@.stage->Describe_introduction@ + words@),
            ),
    {
        let mut reason = match self.stage {
            PlannerStage::Describe { introduction, err: _ } => introduction,
            _ => String::new(),
        };
        reason.append(words.as_str());
        Self::fail(self.request, reason.as_str())
    }

    /// Takes the reading of the planned `--names` argument, the noun of the refund key hash
    /// where one was given, and the kernel's word for the selection strategy, and ends with the
    /// command.
    pub fn on_command_inputs(
        self,
        listed: Result<Vec<(String, String)>, WalletError>,
        refund: Option<Result<Noun, String>>,
        note_selection: &str,
    ) -> (r: Result<WalletCommand, WalletError>)
        requires
            self@.stage is EncodeCommand,
            self@.request.refund_pkh is Some <==> refund is Some,
        ensures
            command::creates_tx(
                listed,
                self@.request.recipients@,
                self@.stage->EncodeCommand_fee,
                self@.request.allow_low_fee,
                given_refund(self@.request.refund_pkh, refund),
                self@.request.sign_keys@,
                self@.request.include_data,
                self@.request.save_raw_tx,
                note_selection@,
                r,
            ),
    {
        let fee = match &self.stage {
            PlannerStage::EncodeCommand { names: _, fee } => *fee,
            _ => 0,
        };
        let refund_pkh = match (self.request.refund_pkh, refund) {
            (Some(text), Some(decoded)) => Some(RefundPkh { text, decoded }),
            _ => None,
        };
        Wallet::create_tx(
            listed,
            self.request.recipients,
            fee,
            self.request.allow_low_fee,
            refund_pkh,
            self.request.sign_keys,
            self.request.include_data,
            self.request.save_raw_tx,
            note_selection,
        )
    }
}

/// The refund key hash as it was given, beside what decoding it gives.
pub open spec fn given_refund(
    refund_pkh: Option<String>,
    decoded: Option<Result<Noun, String>>,
) -> Option<RefundPkh> {
    match (refund_pkh, decoded) {
        (Some(text), Some(decoded)) => Some(RefundPkh { text, decoded }),
        _ => None,
    }
}

/// What the wallet asks for: the call to make, with what goes into it.
#[derive(Debug)]
pub enum PlannerAction<'a, C, O> {
    /// Look at the balance at this path of the wallet's state.
    PeekBalance { path: Noun },
    /// Make a snapshot of this balance.
    NormalizeBalance { balance: &'a BalanceUpdate },
    /// Read this `--names` argument, and decode the digests in it.
    ParseNoteNames { raw: &'a str },
    /// Decode this refund key hash.
    DecodeRefund { text: &'a str },
    /// Look at the signing keys at this path of the wallet's state.
    PeekSigningKeys { path: Noun },
    /// Derive the outputs for these recipients.
    DeriveRecipientOutputs { recipients: &'a [Noun], include_data: bool },
    /// Derive the output for change, to the refund key hash or else to the signer.
    DeriveRefundOutput {
        refund: Option<&'a Digest>,
        master_signer: &'a Digest,
        include_data: bool,
    },
    /// Look at the blockchain constants at this path of the wallet's state.
    PeekConstants { path: Noun },
    /// Plan.
    Plan { plan_request: &'a PlanRequest<C, O>, matcher: &'a SigningKeyLockMatcher },
    /// Read this `--names` argument, encode the refund key hash as a noun, and look up the
    /// kernel's word for the selection strategy.
    EncodeCommand {
        names: &'a str,
        refund_pkh: Option<&'a str>,
        note_selection: NoteSelectionStrategyCli,
    },
    /// Put this error into words.
    Describe { err: &'a WalletError },
    /// Give up.
    Stop { err: &'a WalletError },
}

/// The action is the one that the planner waits for.
pub open spec fn is_action<C, O>(
    planner: PlannerView<C, O>,
    action: PlannerAction<'_, C, O>,
) -> bool {
    match planner.stage {
        PlannerStage::PeekBalance => action matches PlannerAction::PeekBalance { path } && path@
            == constants::peek_path_tree("balance"@),
        PlannerStage::NormalizeBalance { balance } => action
            matches PlannerAction::NormalizeBalance { balance: b } && *b == balance,
        PlannerStage::ParseNoteNames { .. } => action matches PlannerAction::ParseNoteNames { raw }
            && raw@ == planner.request.names->Some_0@,
        PlannerStage::DecodeRefund { .. } => action matches PlannerAction::DecodeRefund { text }
            && text@ == planner.request.refund_pkh->Some_0@,
        PlannerStage::PeekSigningKeys { .. } => action matches PlannerAction::PeekSigningKeys {
            path,
        } && path@ == constants::peek_path_tree("signing-keys"@),
        PlannerStage::DeriveRecipientOutputs { .. } => action
            matches PlannerAction::DeriveRecipientOutputs { recipients, include_data }
            && recipients@ == planner.request.recipients@ && include_data
            == planner.request.include_data,
        PlannerStage::DeriveRefundOutput { context, .. } => action
            matches PlannerAction::DeriveRefundOutput { refund, master_signer, include_data } && (
        match (refund, context.refund) {
            (Some(given), Some(kept)) => *given == kept,
            (None, None) => true,
            _ => false,
        }) && *master_signer == context.master_signer && include_data
            == planner.request.include_data,
        PlannerStage::PeekConstants { .. } => action matches PlannerAction::PeekConstants { path }
            && path@ == constants::peek_path_tree("blockchain-constants"@),
        PlannerStage::Plan { plan_request, matcher } => action matches PlannerAction::Plan {
            plan_request: r,
            matcher: m,
        } && *r == plan_request && *m == matcher,
        PlannerStage::EncodeCommand { names, .. } => action
            matches PlannerAction::EncodeCommand { names: n, refund_pkh, note_selection } && n@
            == names@ && note_selection == planner.request.note_selection && (
        match (refund_pkh, planner.request.refund_pkh) {
            (Some(given), Some(kept)) => given@ == kept@,
            (None, None) => true,
            _ => false,
        }),
        PlannerStage::Describe { err, .. } => action matches PlannerAction::Describe { err: e }
            && *e == err,
        PlannerStage::Failed { err } => action matches PlannerAction::Stop { err: e } && *e == err,
    }
}

impl<C, O> CreateTxPlanner<C, O> {
    /// What to do next.
    pub fn action(&self) -> (action: PlannerAction<'_, C, O>)
        ensures
            is_action(self@, action),
    {
        proof {
            use_type_invariant(self);
        }
        match &self.stage {
            PlannerStage::PeekBalance => PlannerAction::PeekBalance {
                path: Wallet::peek_path("balance"),
            },
            PlannerStage::NormalizeBalance { balance } => PlannerAction::NormalizeBalance {
                balance,
            },
            PlannerStage::ParseNoteNames { snapshot: _ } => PlannerAction::ParseNoteNames {
                raw: match &self.request.names {
                    Some(raw) => raw.as_str(),
                    None => "",
                },
            },
            PlannerStage::DecodeRefund { snapshot: _, selection_mode: _ } => {
                PlannerAction::DecodeRefund {
                    text: match &self.request.refund_pkh {
                        Some(text) => text.as_str(),
                        None => "",
                    },
                }
            },
            PlannerStage::PeekSigningKeys { snapshot: _, selection_mode: _, refund: _ } => {
                PlannerAction::PeekSigningKeys { path: Wallet::peek_path("signing-keys") }
            },
            PlannerStage::DeriveRecipientOutputs { context: _ } => {
                PlannerAction::DeriveRecipientOutputs {
                    recipients: self.request.recipients.as_slice(),
                    include_data: self.request.include_data,
                }
            },
            PlannerStage::DeriveRefundOutput { context, recipient_outputs: _ } => {
                PlannerAction::DeriveRefundOutput {
                    refund: context.refund.as_ref(),
                    master_signer: &context.master_signer,
                    include_data: self.request.include_data,
                }
            },
            PlannerStage::PeekConstants { context: _, recipient_outputs: _, refund_output: _ } => {
                PlannerAction::PeekConstants { path: Wallet::peek_path("blockchain-constants") }
            },
            PlannerStage::Plan { plan_request, matcher } => PlannerAction::Plan {
                plan_request,
                matcher,
            },
            PlannerStage::EncodeCommand { names, fee: _ } => PlannerAction::EncodeCommand {
                names: names.as_str(),
                refund_pkh: match &self.request.refund_pkh {
                    Some(text) => Some(text.as_str()),
                    None => None,
                },
                note_selection: self.request.note_selection,
            },
            PlannerStage::Describe { introduction: _, err } => PlannerAction::Describe { err },
            PlannerStage::Failed { err } => PlannerAction::Stop { err },
        }
    }
}

/// A plan that is carried out spends the notes that were asked for, where any were, and pays
/// what the planner found due unless the user allowed less.
pub proof fn law_accepted_plan_is_kept<C, O>(
    request: CreateTxRequest,
    selection_mode: SelectionMode,
    plan: Plan,
    stage: PlannerStage<C, O>,
)
    requires
        follows_plan(request, selection_mode, Ok(plan), stage),
        stage is EncodeCommand,
    ensures
        selection_mode matches SelectionMode::Manual { note_names } ==> names::same_names(
            note_names@,
            plan.selected@,
        ),
        stage->EncodeCommand_names@ == names::names_argument(plan.selected@),
        !request.allow_low_fee ==> stage->EncodeCommand_fee >= plan.final_fee,
        request.fee matches Some(fee) ==> stage->EncodeCommand_fee == fee,
{
}

/// Whatever the wallet's state shows, the planner is only ever offered locks that one signature
/// by the master signer opens, and only newer notes.
pub proof fn law_plan_is_for_master_signer<C, O>(
    request: CreateTxRequest,
    context: SpendContext<C>,
    recipient_outputs: Vec<O>,
    refund_output: O,
    peeked: Result<Noun, WalletError>,
    stage: PlannerStage<C, O>,
    note_first_name: Digest,
    condition: SpendCondition,
)
    requires
        follows_constants(request, context, recipient_outputs, refund_output, peeked, stage),
        stage is Plan,
        signers::lock_matches(stage->Plan_matcher@, note_first_name, condition),
    ensures
        signers::single_signer_lock(condition.primitives@, context.master_signer.limbs@),
        stage->Plan_plan_request.signer_pkh == Some(context.master_signer),
        stage->Plan_plan_request.candidate_version_policy == CandidateVersionPolicy::V1Only,
{
}

/// What the planner is asked does not depend on the fee that the user wants, on whether it may be
/// low, on the keys to sign with, on whether the raw transaction is saved, nor on the recipients
/// but through their outputs.
pub proof fn law_plan_request_ignores_fee_and_keys<C, O>(
    request: CreateTxRequest,
    other: CreateTxRequest,
    context: SpendContext<C>,
    recipient_outputs: Vec<O>,
    refund_output: O,
    peeked: Result<Noun, WalletError>,
    stage: PlannerStage<C, O>,
    other_stage: PlannerStage<C, O>,
)
    requires
        request.include_data == other.include_data,
        request.note_selection == other.note_selection,
        follows_constants(request, context, recipient_outputs, refund_output, peeked, stage),
        follows_constants(other, context, recipient_outputs, refund_output, peeked, other_stage),
    ensures
        stage is Plan <==> other_stage is Plan,
        stage is Plan ==> stage->Plan_plan_request == other_stage->Plan_plan_request
            && stage->Plan_matcher@ == other_stage->Plan_matcher@,
{
}

/// The command that comes out of a plan spends the planned notes and pays the fee that was
/// settled on: what the user asked for, or else what the planner found due, and never less than
/// that unless the user allowed it. All else it says is what the user asked for. This holds as
/// long as the texts that are found in the `--names` argument are what stands there.
pub proof fn law_command_spends_and_pays_as_planned<C, O>(
    request: CreateTxRequest,
    selection_mode: SelectionMode,
    plan: Plan,
    stage: PlannerStage<C, O>,
    listed: Vec<(String, String)>,
    refund: Option<Result<Noun, String>>,
    note_selection: Seq<char>,
    command: WalletCommand,
)
    requires
        follows_plan(request, selection_mode, Ok(plan), stage),
        stage is EncodeCommand,
        names::all_plain(names::base58_texts(plan.selected@)),
        names::all_plain(command::name_texts(listed@)),
        names::texts_argument(command::name_texts(listed@)) == stage->EncodeCommand_names@,
        request.refund_pkh is Some <==> refund is Some,
        command::creates_tx(
            Ok(listed),
            request.recipients@,
            stage->EncodeCommand_fee,
            request.allow_low_fee,
            given_refund(request.refund_pkh, refund),
            request.sign_keys@,
            request.include_data,
            request.save_raw_tx,
            note_selection,
            Ok(command),
        ),
    ensures
        command::is_create_tx(
            command,
            command::CreateTxView {
                names: names::base58_texts(plan.selected@),
                recipients: noun::trees(request.recipients@),
                fee: match request.fee {
                    Some(fee) => fee,
                    None => plan.final_fee,
                },
                allow_low_fee: request.allow_low_fee,
                sign_keys: request.sign_keys@,
                refund: match refund {
                    Some(Ok(digest)) => Some(digest@),
                    _ => None,
                },
                include_data: request.include_data,
                save_raw_tx: request.save_raw_tx,
                note_selection,
            },
        ),
        !(refund matches Some(Err(_))),
        !request.allow_low_fee ==> stage->EncodeCommand_fee >= plan.final_fee,
{
    names::law_argument_tells_texts(
        command::name_texts(listed@),
        names::base58_texts(plan.selected@),
    );
}

} // verus!
