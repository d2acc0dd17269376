//! Syncing the balance with a node: what the wallet asks for next, and what it makes of each
//! answer.

use crate::balance;
use crate::balance::{
    BalanceUpdate, NormalizeSnapshotError, NormalizedSnapshot, SnapshotProblem,
};
use crate::error::{WalletError, WalletErrorView};
use crate::noun;
use crate::noun::{Noun, NounView};
use crate::order;
use crate::text;
use crate::wallet::Wallet;
use vstd::prelude::*;

verus! {

/// How often pages are fetched anew when they turn out to be of different blocks.
pub const SNAPSHOT_DRIFT_MAX_RETRIES: usize = 2;

/// What a sync gives: pokes for the kernel, and the snapshot where there is one.
#[derive(Debug)]
pub struct BalanceSyncResult<C> {
    pub pokes: Vec<Noun>,
    pub normalized_snapshot: Option<NormalizedSnapshot<C>>,
}

/// Whose balance is asked for.
#[derive(Debug, PartialEq, Eq)]
pub enum BalanceRequest {
    /// That of the notes with a first name.
    FirstName(String),
    /// That of a public key.
    Address(String),
}

pub enum BalanceRequestView {
    FirstName(Seq<char>),
    Address(Seq<char>),
}

impl View for BalanceRequest {
    type V = BalanceRequestView;

    open spec fn view(&self) -> BalanceRequestView {
        match self {
            BalanceRequest::FirstName(name) => BalanceRequestView::FirstName(name@),
            BalanceRequest::Address(key) => BalanceRequestView::Address(key@),
        }
    }
}

impl BalanceRequestView {
    /// Whose balance it is, in words.
    pub open spec fn subject(self) -> Seq<char> {
        match self {
            BalanceRequestView::FirstName(name) => "first name "@ + name,
            BalanceRequestView::Address(key) => "pubkey "@ + key,
        }
    }
}

impl BalanceRequest {
    fn subject(&self) -> (words: String)
        ensures
            words@ == self@.subject(),
    {
        match self {
            BalanceRequest::FirstName(name) => {
                let mut words = "first name ".to_owned();
                words.append(name.as_str());
                words
            },
            BalanceRequest::Address(key) => {
                let mut words = "pubkey ".to_owned();
                words.append(key.as_str());
                words
            },
        }
    }
}

/// The names and keys whose balances are asked for: the first names come before the keys.
pub open spec fn request_at(
    first_names: Seq<String>,
    pubkeys: Seq<String>,
    k: int,
) -> BalanceRequestView {
    if k < first_names.len() {
        BalanceRequestView::FirstName(first_names[k]@)
    } else {
        BalanceRequestView::Address(pubkeys[k - first_names.len()]@)
    }
}

fn build_request(first_names: &Vec<String>, pubkeys: &Vec<String>, k: usize) -> (request:
    BalanceRequest)
    requires
        k < first_names@.len() + pubkeys@.len(),
    ensures
        request@ == request_at(first_names@, pubkeys@, k as int),
{
    if k < first_names.len() {
        BalanceRequest::FirstName(first_names[k].clone())
    } else {
        BalanceRequest::Address(pubkeys[k - first_names.len()].clone())
    }
}

/// Why a page could not be fetched, in the node's words.
#[derive(Debug, PartialEq, Eq)]
pub enum FetchFailure {
    /// The node did not answer the request.
    Request(String),
    /// The answer is no balance.
    Parse(String),
}

/// The words for a page that could not be fetched.
pub open spec fn fetch_failure(request: BalanceRequestView, failure: FetchFailure) -> Seq<char> {
    match failure {
        FetchFailure::Request(words) => "Failed to request current balance for "@
            + request.subject() + ": "@ + words@,
        FetchFailure::Parse(words) => "Failed to parse balance update for "@ + request.subject()
            + ": "@ + words@,
    }
}

/// What a sync waits for.
#[derive(Debug)]
pub enum SyncStage<C> {
    /// One more page.
    FetchPage { pages: Vec<BalanceUpdate> },
    /// The snapshot of these pages.
    NormalizePages { pages: Vec<BalanceUpdate> },
    /// The noun of this balance.
    EncodeBalance { merged: BalanceUpdate, snapshot: NormalizedSnapshot<C> },
    /// Nothing more.
    Finished { result: Result<BalanceSyncResult<C>, WalletError> },
}

/// A sync with the public interface of a node. All pages must be of one block; where they are
/// not, they are fetched anew, a few times.
#[derive(Debug)]
pub struct PublicBalanceSync<C> {
    pubkeys: Vec<String>,
    first_names: Vec<String>,
    /// How often fetching has begun.
    attempt: usize,
    stage: SyncStage<C>,
}

pub struct PublicSyncView<C> {
    pub pubkeys: Seq<String>,
    pub first_names: Seq<String>,
    pub attempt: int,
    pub stage: SyncStage<C>,
}

impl<C> View for PublicBalanceSync<C> {
    type V = PublicSyncView<C>;

    closed spec fn view(&self) -> PublicSyncView<C> {
        PublicSyncView {
            pubkeys: self.pubkeys@,
            first_names: self.first_names@,
            attempt: self.attempt as int,
            stage: self.stage,
        }
    }
}

impl<C> PublicSyncView<C> {
    /// How many pages there are to fetch.
    pub open spec fn total(self) -> nat {
        self.first_names.len() + self.pubkeys.len()
    }

    pub open spec fn well_formed(self) -> bool {
        &&& 1 <= self.attempt <= SNAPSHOT_DRIFT_MAX_RETRIES + 1
        &&& match self.stage {
            SyncStage::FetchPage { pages } => pages@.len() < self.total(),
            SyncStage::NormalizePages { pages } => 0 < pages@.len() == self.total(),
            _ => true,
        }
    }

    /// The same names and keys.
    pub open spec fn same_subjects(self, other: Self) -> bool {
        &&& self.pubkeys == other.pubkeys
        &&& self.first_names == other.first_names
    }

    /// How many answers can still be taken at most.
    pub open spec fn answers_left(self) -> int {
        let later = (SNAPSHOT_DRIFT_MAX_RETRIES + 1 - self.attempt) * (self.total() + 1);
        match self.stage {
            SyncStage::FetchPage { pages } => later + self.total() - pages@.len() + 2,
            SyncStage::NormalizePages { .. } => later + 2,
            SyncStage::EncodeBalance { .. } => 1,
            SyncStage::Finished { .. } => 0,
        }
    }

    /// The page to ask for next.
    pub open spec fn request(self) -> BalanceRequestView {
        request_at(self.first_names, self.pubkeys, self.stage->FetchPage_pages@.len() as int)
    }
}

impl<C> PublicBalanceSync<C> {
    #[verifier::type_invariant]
    spec fn stays_well_formed(self) -> bool {
        self@.well_formed()
    }

    /// What is waited for.
    pub fn stage(&self) -> (stage: &SyncStage<C>)
        ensures
            *stage == self@.stage,
            self@.well_formed(),
    {
        proof {
            use_type_invariant(self);
        }
        &self.stage
    }

    /// What is waited for, taken out of the sync.
    pub fn into_stage(self) -> (stage: SyncStage<C>)
        ensures
            stage == self@.stage,
    {
        self.stage
    }
}

/// The sync has ended with this error.
pub open spec fn sync_failed<C>(stage: SyncStage<C>, err: WalletErrorView) -> bool {
    &&& stage matches SyncStage::Finished { result }
    &&& result matches Err(e)
    &&& e@ == err
}

/// Whether pages with this problem are worth fetching anew.
pub open spec fn is_drift(problem: SnapshotProblem) -> bool {
    problem == SnapshotProblem::HeightDrift || problem == SnapshotProblem::BlockIdDrift
}

impl Wallet {
    /// Starts a sync with the public interface of a node, of these names and keys, each once,
    /// in order.
    pub fn update_balance_grpc_public<C>(
        pubkeys: Vec<String>,
        first_names: Vec<String>,
    ) -> (sync: PublicBalanceSync<C>)
        ensures
            sync@.well_formed(),
            sync@.attempt == 1,
            order::one_per_key(first_names@, sync@.first_names),
            order::one_per_key(pubkeys@, sync@.pubkeys),
            if first_names@.len() == 0 && pubkeys@.len() == 0 {
                &&& sync@.stage matches SyncStage::Finished { result }
                &&& result matches Ok(nothing)
                &&& nothing.pokes@.len() == 0
                &&& nothing.normalized_snapshot is None
            } else {
                &&& sync@.stage matches SyncStage::FetchPage { pages }
                &&& pages@.len() == 0
            },
    {
        let ghost given_names = first_names@;
        let ghost given_keys = pubkeys@;
        let first_names = order::keep_one_per_key(first_names);
        let pubkeys = order::keep_one_per_key(pubkeys);
        proof {
            order::lemma_kept_is_empty(given_names, first_names@);
            order::lemma_kept_is_empty(given_keys, pubkeys@);
        }
        let stage = if first_names.is_empty() && pubkeys.is_empty() {
            SyncStage::Finished {
                result: Ok(BalanceSyncResult { pokes: Vec::new(), normalized_snapshot: None }),
            }
        } else {
            SyncStage::FetchPage { pages: Vec::new() }
        };
        PublicBalanceSync { pubkeys, first_names, attempt: 1, stage }
    }
}

impl<C> PublicBalanceSync<C> {
    /// The page to ask for next.
    pub fn next_request(&self) -> (request: BalanceRequest)
        requires
            self@.stage is FetchPage,
        ensures
            request@ == self@.request(),
    {
        proof {
            use_type_invariant(self);
        }
        let k: usize = match &self.stage {
            SyncStage::FetchPage { pages } => pages.len(),
            _ => 0,
        };
        build_request(&self.first_names, &self.pubkeys, k)
    }

    /// Takes a page, or the reason why there is none.
    pub fn on_page(self, fetched: Result<BalanceUpdate, FetchFailure>) -> (next: Self)
        requires
            self@.stage is FetchPage,
        ensures
            next@.well_formed(),
            next@.same_subjects(self@),
            next@.attempt == self@.attempt,
            next@.answers_left() < self@.answers_left(),
            match fetched {
                Err(failure) => sync_failed(
                    next@.stage,
                    WalletErrorView::OtherError(fetch_failure(self@.request(), failure)),
                ),
                Ok(page) => {
                    let now = self@.stage->FetchPage_pages@.push(page);
                    if now.len() < self@.total() {
                        next@.stage matches SyncStage::FetchPage { pages } && pages@ == now
                    } else {
                        next@.stage matches SyncStage::NormalizePages { pages } && pages@ == now
                    }
                },
            },
    {
        proof {
            use_type_invariant(&self);
        }
        let ghost later = (SNAPSHOT_DRIFT_MAX_RETRIES + 1 - self@.attempt) * (self@.total() + 1);
        assert(later >= 0) by (nonlinear_arith)
            requires
                later == (SNAPSHOT_DRIFT_MAX_RETRIES + 1 - self@.attempt) * (self@.total() + 1),
                self@.attempt <= SNAPSHOT_DRIFT_MAX_RETRIES + 1,
                self@.total() >= 0,
        ;
        let request = self.next_request();
        match fetched {
            Err(failure) => {
                let subject = request.subject();
                let mut words = match &failure {
                    FetchFailure::Request(_) => "Failed to request current balance for ".to_owned(),
                    FetchFailure::Parse(_) => "Failed to parse balance update for ".to_owned(),
                };
                words.append(subject.as_str());
                words.append(": ");
                match &failure {
                    FetchFailure::Request(reason) => {
                        words.append(reason.as_str());
                    },
                    FetchFailure::Parse(reason) => {
                        words.append(reason.as_str());
                    },
                }
                PublicBalanceSync {
                    pubkeys: self.pubkeys,
                    first_names: self.first_names,
                    attempt: self.attempt,
                    stage: SyncStage::Finished { result: Err(WalletError::OtherError(words)) },
                }
            },
            Ok(page) => {
                let mut pages = match self.stage {
                    SyncStage::FetchPage { pages } => pages,
                    _ => Vec::new(),
                };
                pages.push(page);
                let complete = pages.len() >= self.first_names.len() && pages.len()
                    - self.first_names.len() >= self.pubkeys.len();
                let stage = if complete {
                    SyncStage::NormalizePages { pages }
                } else {
                    SyncStage::FetchPage { pages }
                };
                PublicBalanceSync {
                    pubkeys: self.pubkeys,
                    first_names: self.first_names,
                    attempt: self.attempt,
                    stage,
                }
            },
        }
    }

    /// Takes the snapshot of the pages, or the problem with it. Pages of different blocks are
    /// fetched anew as long as that has not been done too often.
    pub fn on_normalized(
        self,
        normalized: Result<NormalizedSnapshot<C>, NormalizeSnapshotError>,
    ) -> (next: Self)
        requires
            self@.stage is NormalizePages,
        ensures
            next@.well_formed(),
            next@.same_subjects(self@),
            next@.answers_left() < self@.answers_left(),
            match normalized {
                Ok(snapshot) => {
                    &&& next@.attempt == self@.attempt
                    &&& next@.stage matches SyncStage::EncodeBalance { merged, snapshot: same }
                    &&& same == snapshot
                    &&& balance::merges(self@.stage->NormalizePages_pages@, snapshot, merged)
                },
                Err(err) => if is_drift(err.problem) && self@.attempt <= SNAPSHOT_DRIFT_MAX_RETRIES {
                    &&& next@.attempt == self@.attempt + 1
                    &&& next@.stage matches SyncStage::FetchPage { pages }
                    &&& pages@.len() == 0
                } else {
                    &&& next@.attempt == self@.attempt
                    &&& sync_failed(
                        next@.stage,
                        WalletErrorView::OtherError(
                            "Failed to normalize fetched wallet balance pages into one snapshot: "@
                                + err.text@,
                        ),
                    )
                },
            },
    {
        proof {
            use_type_invariant(&self);
        }
        let ghost later = (SNAPSHOT_DRIFT_MAX_RETRIES + 1 - self@.attempt) * (self@.total() + 1);
        let ghost later_still = (SNAPSHOT_DRIFT_MAX_RETRIES - self@.attempt) * (self@.total() + 1);
        assert(later >= 0 && later == later_still + (self@.total() + 1)) by (nonlinear_arith)
            requires
                later == (SNAPSHOT_DRIFT_MAX_RETRIES + 1 - self@.attempt) * (self@.total() + 1),
                later_still == (SNAPSHOT_DRIFT_MAX_RETRIES - self@.attempt) * (self@.total() + 1),
                self@.attempt <= SNAPSHOT_DRIFT_MAX_RETRIES + 1,
                self@.total() >= 0,
        ;
        let pages = match self.stage {
            SyncStage::NormalizePages { pages } => pages,
            _ => Vec::new(),
        };
        match Wallet::union_balance_pages(pages, normalized) {
            Ok(Some((merged, snapshot))) => PublicBalanceSync {
                pubkeys: self.pubkeys,
                first_names: self.first_names,
                attempt: self.attempt,
                stage: SyncStage::EncodeBalance { merged, snapshot },
            },
            Ok(None) => PublicBalanceSync {
                pubkeys: self.pubkeys,
                first_names: self.first_names,
                attempt: self.attempt,
                stage: SyncStage::Finished {
                    result: Ok(BalanceSyncResult { pokes: Vec::new(), normalized_snapshot: None }),
                },
            },
            Err(err) => {
                let drift = match err.problem {
                    SnapshotProblem::HeightDrift => true,
                    SnapshotProblem::BlockIdDrift => true,
                    SnapshotProblem::Other => false,
                };
                if drift && self.attempt <= SNAPSHOT_DRIFT_MAX_RETRIES {
                    PublicBalanceSync {
                        pubkeys: self.pubkeys,
                        first_names: self.first_names,
                        attempt: self.attempt + 1,
                        stage: SyncStage::FetchPage { pages: Vec::new() },
                    }
                } else {
                    let mut words =
                        "Failed to normalize fetched wallet balance pages into one snapshot: ".to_owned();
                    words.append(err.text.as_str());
                    PublicBalanceSync {
                        pubkeys: self.pubkeys,
                        first_names: self.first_names,
                        attempt: self.attempt,
                        stage: SyncStage::Finished { result: Err(WalletError::OtherError(words)) },
                    }
                }
            },
        }
    }

    /// Takes the noun of the merged balance, and ends with the poke for it.
    pub fn on_encoded(self, balance: Noun) -> (result: BalanceSyncResult<C>)
        requires
            self@.stage is EncodeBalance,
        ensures
            result.pokes@.len() == 1,
            result.pokes@[0]@ == balance::balance_poke_tree(Some(Some(balance@))),
            result.normalized_snapshot == Some(self@.stage->EncodeBalance_snapshot),
    {
        let mut pokes: Vec<Noun> = Vec::new();
        pokes.push(Wallet::update_balance_grpc_poke(balance));
        let normalized_snapshot = match self.stage {
            SyncStage::EncodeBalance { merged: _, snapshot } => Some(snapshot),
            _ => None,
        };
        BalanceSyncResult { pokes, normalized_snapshot }
    }
}

/// Where a node shows a balance, and the number of the look at it.
#[derive(Debug, PartialEq, Eq)]
pub struct PeekRequest {
    pub index: i32,
    pub path: Noun,
}

/// Why a look at a node's balance gave nothing.
#[derive(Debug, PartialEq, Eq)]
pub enum PeekFailure {
    /// The node did not answer, in its words.
    Peek(String),
    /// The answer is no balance.
    Answer(WalletError),
}

/// A count in thirty-two bits with a sign: it turns negative when it is full.
pub open spec fn wrapped_count(n: nat) -> int {
    let rest = n % 0x1_0000_0000;
    if rest < 0x8000_0000 {
        rest as int
    } else {
        rest - 0x1_0000_0000
    }
}

/// Where a node shows the balance that is asked for.
pub open spec fn balance_path_tree(request: BalanceRequestView) -> NounView {
    match request {
        BalanceRequestView::FirstName(name) => noun::list_tree(
            seq![noun::cord_tree("balance-by-first-name"@), noun::cord_tree(name)],
        ),
        BalanceRequestView::Address(key) => noun::list_tree(
            seq![noun::cord_tree("balance-by-pubkey"@), noun::cord_tree(key)],
        ),
    }
}

fn balance_path(request: &BalanceRequest) -> (path: Noun)
    ensures
        path@ == balance_path_tree(request@),
{
    let mut items: Vec<Noun> = Vec::new();
    match request {
        BalanceRequest::FirstName(name) => {
            items.push(Noun::cord("balance-by-first-name"));
            items.push(Noun::cord(name.as_str()));
            assert(noun::trees(items@) =~= seq![
                noun::cord_tree("balance-by-first-name"@),
                noun::cord_tree(name@),
            ]);
        },
        BalanceRequest::Address(key) => {
            items.push(Noun::cord("balance-by-pubkey"));
            items.push(Noun::cord(key.as_str()));
            assert(noun::trees(items@) =~= seq![
                noun::cord_tree("balance-by-pubkey"@),
                noun::cord_tree(key@),
            ]);
        },
    }
    Noun::list(items)
}

/// A sync with the private interface of a node: every answer becomes a poke of its own.
#[derive(Debug)]
pub struct PrivateBalanceSync {
    pubkeys: Vec<String>,
    first_names: Vec<String>,
    request_index: i32,
    /// The pokes for the answers so far.
    pokes: Vec<Noun>,
}

pub struct PrivateSyncView {
    pub pubkeys: Seq<String>,
    pub first_names: Seq<String>,
    pub request_index: int,
    pub pokes: Seq<NounView>,
}

impl View for PrivateBalanceSync {
    type V = PrivateSyncView;

    closed spec fn view(&self) -> PrivateSyncView {
        PrivateSyncView {
            pubkeys: self.pubkeys@,
            first_names: self.first_names@,
            request_index: self.request_index as int,
            pokes: noun::trees(self.pokes@),
        }
    }
}

impl PrivateSyncView {
    /// How many looks there are to take.
    pub open spec fn total(self) -> nat {
        self.first_names.len() + self.pubkeys.len()
    }

    pub open spec fn well_formed(self) -> bool {
        &&& self.pokes.len() <= self.total()
        &&& self.request_index == wrapped_count(self.pokes.len())
    }

    /// All looks have been taken.
    pub open spec fn complete(self) -> bool {
        self.pokes.len() == self.total()
    }

    /// What to look at next.
    pub open spec fn request(self) -> BalanceRequestView {
        request_at(self.first_names, self.pubkeys, self.pokes.len() as int)
    }
}

impl PrivateBalanceSync {
    #[verifier::type_invariant]
    spec fn stays_well_formed(self) -> bool {
        self@.well_formed()
    }
}

impl Wallet {
    /// Starts a sync with the private interface of a node, of these names and keys, each once,
    /// in order.
    pub fn update_balance_grpc_private(
        pubkeys: Vec<String>,
        first_names: Vec<String>,
    ) -> (sync: PrivateBalanceSync)
        ensures
            sync@.well_formed(),
            sync@.pokes.len() == 0,
            order::one_per_key(first_names@, sync@.first_names),
            order::one_per_key(pubkeys@, sync@.pubkeys),
    {
        PrivateBalanceSync {
            first_names: order::keep_one_per_key(first_names),
            pubkeys: order::keep_one_per_key(pubkeys),
            request_index: 0,
            pokes: Vec::new(),
        }
    }
}

impl PrivateBalanceSync {
    /// Whether all looks have been taken.
    pub fn is_complete(&self) -> (complete: bool)
        ensures
            complete == self@.complete(),
    {
        proof {
            use_type_invariant(self);
        }
        self.pokes.len() >= self.first_names.len() && self.pokes.len() - self.first_names.len()
            >= self.pubkeys.len()
    }

    /// The look to take next.
    pub fn next_peek(&self) -> (peek: PeekRequest)
        requires
            !self@.complete(),
        ensures
            peek.index == wrapped_count(self@.pokes.len()),
            peek.path@ == balance_path_tree(self@.request()),
    {
        proof {
            use_type_invariant(self);
        }
        let request = build_request(&self.first_names, &self.pubkeys, self.pokes.len());
        PeekRequest { index: self.request_index, path: balance_path(&request) }
    }

    /// Takes what a look shows, as the noun of a balance, or the reason why it shows nothing.
    pub fn on_payload(self, peeked: Result<Option<Option<Noun>>, PeekFailure>) -> (r: Result<
        Self,
        WalletError,
    >)
        requires
            !self@.complete(),
        ensures
            match peeked {
                Ok(payload) => {
                    &&& r matches Ok(next)
                    &&& next@.well_formed()
                    &&& next@.pubkeys == self@.pubkeys
                    &&& next@.first_names == self@.first_names
                    &&& next@.pokes == self@.pokes.push(
                        balance::balance_poke_tree(balance::payload_tree(payload)),
                    )
                },
                Err(PeekFailure::Answer(err)) => r == Err::<Self, WalletError>(err),
                Err(PeekFailure::Peek(words)) => r matches Err(err) && err@
                    == WalletErrorView::OtherError(
                    "Failed to peek balance for "@ + self@.request().subject() + ": "@ + words@,
                ),
            },
    {
        proof {
            use_type_invariant(&self);
        }
        match peeked {
            Ok(payload) => {
                let mut pokes = self.pokes;
                pokes.push(Wallet::update_balance_grpc_poke_from_payload(payload));
                assert(noun::trees(pokes@) =~= noun::trees(self.pokes@).push(pokes@.last()@));
                let request_index = self.request_index.wrapping_add(1);
                Ok(
                    PrivateBalanceSync {
                        pubkeys: self.pubkeys,
                        first_names: self.first_names,
                        request_index,
                        pokes,
                    },
                )
            },
            Err(PeekFailure::Answer(err)) => Err(err),
            Err(PeekFailure::Peek(reason)) => {
                let request = build_request(&self.first_names, &self.pubkeys, self.pokes.len());
                let subject = request.subject();
                let mut words = "Failed to peek balance for ".to_owned();
                words.append(subject.as_str());
                words.append(": ");
                words.append(reason.as_str());
                Err(WalletError::OtherError(words))
            },
        }
    }

    /// What the sync gives when all looks have been taken: a poke for each, and no snapshot.
    pub fn finish<C>(self) -> (result: BalanceSyncResult<C>)
        requires
            self@.complete(),
        ensures
            noun::trees(result.pokes@) == self@.pokes,
            result.normalized_snapshot is None,
    {
        BalanceSyncResult { pokes: self.pokes, normalized_snapshot: None }
    }
}

/// No name and no key is asked for twice: two different places in a list that is in order, each
/// once, hold two different texts.
pub proof fn law_no_subject_is_asked_twice(given: Seq<String>, asked: Seq<String>, i: int, j: int)
    requires
        order::one_per_key(given, asked),
        0 <= i < j < asked.len(),
    ensures
        asked[i]@ != asked[j]@,
{
    let a = order::Keyed::key(&asked[i]);
    let b = order::Keyed::key(&asked[j]);
    assert(order::lex_lt(a, b));
    order::lemma_lex_asymmetric(a, b);
}

/// Every name and key that was given is asked for.
pub proof fn law_every_subject_is_asked(given: Seq<String>, asked: Seq<String>, i: int)
    requires
        order::one_per_key(given, asked),
        0 <= i < given.len(),
    ensures
        exists|j: int| 0 <= j < asked.len() && (#[trigger] asked[j])@ == given[i]@,
{
    assert(order::has_key(asked, order::Keyed::key(&given[i])));
    let j = choose|j: int|
        0 <= j < asked.len() && order::Keyed::key(&#[trigger] asked[j]) == order::Keyed::key(
            &given[i],
        );
    text::law_text_key_is_injective(asked[j]@, given[i]@);
}

/// The answers that can still be taken are never fewer than none, and none are left only where
/// the sync has ended.
pub proof fn law_answers_left_are_never_negative<C>(sync: PublicSyncView<C>)
    requires
        sync.well_formed(),
    ensures
        sync.answers_left() >= 0,
        sync.answers_left() == 0 <==> sync.stage is Finished,
{
    let later = (SNAPSHOT_DRIFT_MAX_RETRIES + 1 - sync.attempt) * (sync.total() + 1);
    assert(later >= 0) by (nonlinear_arith)
        requires
            later == (SNAPSHOT_DRIFT_MAX_RETRIES + 1 - sync.attempt) * (sync.total() + 1),
            sync.attempt <= SNAPSHOT_DRIFT_MAX_RETRIES + 1,
            sync.total() >= 0,
    ;
}

/// A sync ends: from its start it takes at most three answers for each page, three for the
/// snapshots and one for the noun. `states` are the states that it goes through, each with
/// fewer answers left than the one before.
pub proof fn law_public_sync_ends<C>(states: Seq<PublicSyncView<C>>)
    requires
        states.len() > 0,
        forall|i: int| 0 <= i < states.len() ==> (#[trigger] states[i]).well_formed(),
        forall|i: int, j: int|
            0 <= i && j == i + 1 && j < states.len() ==> (#[trigger] states[j]).answers_left() < (
            #[trigger] states[i]).answers_left(),
        states[0].attempt == 1,
        states[0].stage matches SyncStage::FetchPage { pages } && pages@.len() == 0,
    ensures
        states[0].answers_left() == 3 * states[0].total() + 4,
        states.len() <= states[0].answers_left() + 1,
{
    lemma_states_are_few(states);
}

proof fn lemma_states_are_few<C>(states: Seq<PublicSyncView<C>>)
    requires
        states.len() > 0,
        forall|i: int| 0 <= i < states.len() ==> (#[trigger] states[i]).well_formed(),
        forall|i: int, j: int|
            0 <= i && j == i + 1 && j < states.len() ==> (#[trigger] states[j]).answers_left() < (
            #[trigger] states[i]).answers_left(),
    ensures
        states.len() <= states[0].answers_left() + 1,
    decreases states.len(),
{
    law_answers_left_are_never_negative(states[0]);
    if states.len() > 1 {
        let rest = states.drop_first();
        assert forall|i: int, j: int| 0 <= i && j == i + 1 && j < rest.len() implies (
        #[trigger] rest[j]).answers_left() < (#[trigger] rest[i]).answers_left() by {
            assert(states[j + 1].answers_left() < states[i + 1].answers_left());
        }
        lemma_states_are_few(rest);
        assert(states[1].answers_left() < states[0].answers_left());
    }
}

/// The looks of a private sync are numbered from zero on, one after the other, as long as the
/// numbers last.
pub proof fn law_peeks_are_numbered_in_order(sync: PrivateSyncView)
    requires
        sync.well_formed(),
        sync.pokes.len() < 0x8000_0000,
    ensures
        sync.request_index == sync.pokes.len(),
{
}

} // verus!
