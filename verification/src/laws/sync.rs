//! Syncing the balance, answer by answer.

use crate::balance::{BalanceUpdate, NormalizeSnapshotError, NormalizedSnapshot};
use crate::error::WalletError;
use crate::laws::balance;
use crate::laws::lists;
use crate::laws::nouns;
use crate::noun;
use crate::noun::{Noun, NounView};
use crate::order;
use crate::order::Keyed;
use crate::sync::{
    BalanceRequest, BalanceSyncResult, FetchFailure, PeekFailure, PeekRequest, PrivateBalanceSync,
    PublicBalanceSync, SyncStage,
};
use crate::wallet::Wallet;
use vstd::prelude::*;

verus! {

/// The text is one of these.
pub open spec fn is_among(texts: Seq<String>, text: Seq<char>) -> bool {
    exists|i: int| 0 <= i < texts.len() && (#[trigger] texts[i])@ == text
}

/// The texts that were given, none lost and none made up, each once, in order.
pub open spec fn texts_once(given: Seq<String>, asked: Seq<String>) -> bool {
    &&& forall|i: int| 0 <= i < given.len() ==> is_among(asked, (#[trigger] given[i])@)
    &&& forall|i: int| 0 <= i < asked.len() ==> is_among(given, (#[trigger] asked[i])@)
    &&& forall|i: int, j: int|
        0 <= i < j < asked.len() ==> lists::text_before(
            (#[trigger] asked[i])@,
            (#[trigger] asked[j])@,
        )
}

proof fn lemma_texts_once(given: Seq<String>, asked: Seq<String>)
    requires
        order::one_per_key(given, asked),
    ensures
        texts_once(given, asked),
{
    assert forall|i: int| 0 <= i < given.len() implies is_among(
        asked,
        (#[trigger] given[i])@,
    ) by {
        assert(order::has_key(asked, given[i].key()));
        let j = choose|j: int|
            0 <= j < asked.len() && (#[trigger] asked[j]).key() == given[i].key();
        lists::lemma_text_before(asked[j]@, given[i]@);
    }
    assert forall|i: int| 0 <= i < asked.len() implies is_among(
        given,
        (#[trigger] asked[i])@,
    ) by {
        assert(order::is_first_of(given, asked[i]));
        let m = choose|m: int| #[trigger] order::first_with_key(given, m) && given[m] == asked[i];
        assert(given[m]@ == asked[i]@);
    }
    assert forall|i: int, j: int| 0 <= i < j < asked.len() implies lists::text_before(
        (#[trigger] asked[i])@,
        (#[trigger] asked[j])@,
    ) by {
        assert(order::lex_lt(asked[i].key(), asked[j].key()));
        lists::lemma_text_before(asked[i]@, asked[j]@);
    }
}

/// A public sync asks for every name and key that was given, each once and in order, beginning
/// with no page; where there are none it is done, with nothing.
pub proof fn law_public_sync_starts<C>(
    pubkeys: Vec<String>,
    first_names: Vec<String>,
    started: PublicBalanceSync<C>,
)
    requires
        call_ensures(
            Wallet::update_balance_grpc_public::<C>,
            (pubkeys, first_names),
            started,
        ),
    ensures
        texts_once(first_names@, started@.first_names),
        texts_once(pubkeys@, started@.pubkeys),
        started@.attempt == 1,
        first_names@.len() + pubkeys@.len() > 0 ==> (started@.stage matches SyncStage::FetchPage {
            pages,
        } && pages@.len() == 0),
        first_names@.len() + pubkeys@.len() == 0 ==> (started@.stage matches SyncStage::Finished {
            result: Ok(nothing),
        } && nothing.pokes@.len() == 0 && nothing.normalized_snapshot is None),
{
    lemma_texts_once(first_names@, started@.first_names);
    lemma_texts_once(pubkeys@, started@.pubkeys);
}

/// The `k`-th of all: the first names come before the keys.
pub open spec fn asks_for(
    request: BalanceRequest,
    first_names: Seq<String>,
    pubkeys: Seq<String>,
    k: int,
) -> bool {
    match request {
        BalanceRequest::FirstName(name) => k < first_names.len() && name@ == first_names[k]@,
        BalanceRequest::Address(key) => k >= first_names.len() && key@ == pubkeys[k
            - first_names.len()]@,
    }
}

/// As many pages as there are, so far along is the asking.
pub proof fn law_pages_are_asked_for_in_order<C>(
    waiting: PublicBalanceSync<C>,
    request: BalanceRequest,
)
    requires
        call_ensures(PublicBalanceSync::<C>::next_request, (&waiting,), request),
        waiting@.stage is FetchPage,
    ensures
        asks_for(
            request,
            waiting@.first_names,
            waiting@.pubkeys,
            waiting@.stage->FetchPage_pages@.len() as int,
        ),
{
}

/// Whose balance is asked for, in words.
pub open spec fn named(request: BalanceRequest) -> Seq<char> {
    match request {
        BalanceRequest::FirstName(name) => "first name "@ + name@,
        BalanceRequest::Address(key) => "pubkey "@ + key@,
    }
}

/// A page is kept behind the others, and when there is one for every name and key they are made a
/// snapshot of. A page that cannot be had ends the sync, and is named.
pub proof fn law_page_is_taken<C>(
    waiting: PublicBalanceSync<C>,
    request: BalanceRequest,
    fetched: Result<BalanceUpdate, FetchFailure>,
    next: PublicBalanceSync<C>,
)
    requires
        call_ensures(PublicBalanceSync::<C>::next_request, (&waiting,), request),
        call_ensures(PublicBalanceSync::<C>::on_page, (waiting, fetched), next),
        waiting@.stage is FetchPage,
    ensures
        next@.first_names == waiting@.first_names,
        next@.pubkeys == waiting@.pubkeys,
        next@.attempt == waiting@.attempt,
        fetched matches Ok(page) ==> {
            let pages = waiting@.stage->FetchPage_pages@.push(page);
            if pages.len() < waiting@.first_names.len() + waiting@.pubkeys.len() {
                next@.stage matches SyncStage::FetchPage { pages: now } && now@ == pages
            } else {
                next@.stage matches SyncStage::NormalizePages { pages: now } && now@ == pages
            }
        },
        fetched matches Err(failure) ==> {
            &&& next@.stage matches SyncStage::Finished {
                result: Err(WalletError::OtherError(words)),
            }
            &&& failure matches FetchFailure::Request(reason) ==> words@
                == "Failed to request current balance for "@ + named(request) + ": "@ + reason@
            &&& failure matches FetchFailure::Parse(reason) ==> words@
                == "Failed to parse balance update for "@ + named(request) + ": "@ + reason@
        },
{
}

/// Pages that make a snapshot are merged, and no note of theirs is lost.
pub proof fn law_pages_are_merged<C>(
    waiting: PublicBalanceSync<C>,
    snapshot: NormalizedSnapshot<C>,
    next: PublicBalanceSync<C>,
)
    requires
        call_ensures(PublicBalanceSync::<C>::on_normalized, (waiting, Ok(snapshot)), next),
        waiting@.stage is NormalizePages,
    ensures
        next@.stage matches SyncStage::EncodeBalance { merged, snapshot: kept } && {
            &&& kept == snapshot
            &&& merged.height == snapshot.metadata.height
            &&& merged.block_id == snapshot.metadata.block_id
            &&& balance::holds_all_notes(
                waiting@.stage->NormalizePages_pages@,
                merged.notes@,
            )
        },
{
    balance::lemma_holds_all_notes(
        waiting@.stage->NormalizePages_pages@,
        next@.stage->EncodeBalance_merged.notes@,
    );
}

/// Pages of different blocks are fetched anew, all of them, the first two times; after that, and
/// for any other problem, the sync ends and says why.
pub proof fn law_drift_is_tried_again_twice<C>(
    waiting: PublicBalanceSync<C>,
    problem: NormalizeSnapshotError,
    next: PublicBalanceSync<C>,
)
    requires
        call_ensures(PublicBalanceSync::<C>::on_normalized, (waiting, Err(problem)), next),
        waiting@.stage is NormalizePages,
    ensures
        next@.first_names == waiting@.first_names,
        next@.pubkeys == waiting@.pubkeys,
        next@.stage is FetchPage <==> waiting@.attempt <= 2 && (problem.problem is HeightDrift
            || problem.problem is BlockIdDrift),
        next@.stage matches SyncStage::FetchPage { pages } ==> pages@.len() == 0 && next@.attempt
            == waiting@.attempt + 1,
        next@.stage !is FetchPage ==> (next@.stage matches SyncStage::Finished {
            result: Err(WalletError::OtherError(words)),
        } && words@ == "Failed to normalize fetched wallet balance pages into one snapshot: "@
            + problem.text@),
{
}

/// A public sync gives one poke, of the merged balance, and the snapshot.
pub proof fn law_merged_balance_is_poked<C>(
    waiting: PublicBalanceSync<C>,
    encoded: Noun,
    result: BalanceSyncResult<C>,
)
    requires
        call_ensures(PublicBalanceSync::<C>::on_encoded, (waiting, encoded), result),
        waiting@.stage is EncodeBalance,
    ensures
        result.pokes@.len() == 1,
        balance::is_poke(result.pokes@[0]@, Some(Some(encoded@))),
        result.normalized_snapshot == Some(waiting@.stage->EncodeBalance_snapshot),
{
    balance::lemma_is_poke(Some(Some(encoded@)));
}

/// What a sync shows of itself is what it is.
pub proof fn law_sync_shows_itself<C>(
    waiting: PublicBalanceSync<C>,
    stage: &SyncStage<C>,
    taken: SyncStage<C>,
)
    requires
        call_ensures(PublicBalanceSync::<C>::stage, (&waiting,), stage),
        call_ensures(PublicBalanceSync::<C>::into_stage, (waiting,), taken),
    ensures
        *stage == taken,
        taken == waiting@.stage,
{
}

/// A private sync looks at every name and key that was given, each once and in order.
pub proof fn law_private_sync_starts(
    pubkeys: Vec<String>,
    first_names: Vec<String>,
    started: PrivateBalanceSync,
)
    requires
        call_ensures(Wallet::update_balance_grpc_private, (pubkeys, first_names), started),
    ensures
        texts_once(first_names@, started@.first_names),
        texts_once(pubkeys@, started@.pubkeys),
        started@.pokes.len() == 0,
{
    lemma_texts_once(first_names@, started@.first_names);
    lemma_texts_once(pubkeys@, started@.pubkeys);
}

/// A private sync is complete when there is a poke for every name and key.
pub proof fn law_private_sync_is_complete(waiting: PrivateBalanceSync, complete: bool)
    requires
        call_ensures(PrivateBalanceSync::is_complete, (&waiting,), complete),
    ensures
        complete <==> waiting@.pokes.len() == waiting@.first_names.len() + waiting@.pubkeys.len(),
{
}

/// The path `[tag name ~]`.
pub open spec fn is_balance_path(path: NounView, tag: Seq<char>, name: Seq<char>) -> bool {
    &&& path matches NounView::Cell(head, rest)
    &&& nouns::is_text(*head, tag)
    &&& *rest matches NounView::Cell(subject, end)
    &&& nouns::is_text(*subject, name)
    &&& *end == NounView::Atom(0)
}

proof fn lemma_pair_list(a: NounView, b: NounView)
    ensures
        noun::list_tree(seq![a, b]) == noun::cell_tree(
            a,
            noun::cell_tree(b, NounView::Atom(0)),
        ),
{
    let both = seq![a, b];
    let one = both.drop_first();
    assert(one =~= seq![b]);
    assert(one.drop_first() =~= seq![]);
    assert(noun::list_tree(one.drop_first()) == NounView::Atom(0));
    assert(noun::list_tree(one) == noun::cell_tree(b, NounView::Atom(0)));
}

/// The looks go to the first names and then to the keys, each at its own place, and are numbered
/// in order; the numbers start anew from below when they are used up.
pub proof fn law_looks_are_taken_in_order(waiting: PrivateBalanceSync, peek: PeekRequest)
    requires
        call_ensures(PrivateBalanceSync::next_peek, (&waiting,), peek),
        waiting@.pokes.len() < waiting@.first_names.len() + waiting@.pubkeys.len(),
    ensures
        ({
            let k = waiting@.pokes.len() as int;
            let names = waiting@.first_names.len() as int;
            &&& k < names ==> is_balance_path(
                peek.path@,
                "balance-by-first-name"@,
                waiting@.first_names[k]@,
            )
            &&& k >= names ==> is_balance_path(
                peek.path@,
                "balance-by-pubkey"@,
                waiting@.pubkeys[k - names]@,
            )
            &&& k < 0x8000_0000 ==> peek.index == k
            &&& (k - peek.index) % 0x1_0000_0000 == 0
        }),
{
    let k = waiting@.pokes.len() as int;
    let names = waiting@.first_names.len() as int;
    if k < names {
        let name = waiting@.first_names[k]@;
        nouns::lemma_is_text("balance-by-first-name"@);
        nouns::lemma_is_text(name);
        lemma_pair_list(noun::cord_tree("balance-by-first-name"@), noun::cord_tree(name));
    } else {
        let key = waiting@.pubkeys[k - names]@;
        nouns::lemma_is_text("balance-by-pubkey"@);
        nouns::lemma_is_text(key);
        lemma_pair_list(noun::cord_tree("balance-by-pubkey"@), noun::cord_tree(key));
    }
}

/// What a look shows becomes a poke of its own behind the others, with the whole payload; a look
/// that shows nothing ends the sync, and is named.
pub proof fn law_payload_is_taken(
    waiting: PrivateBalanceSync,
    peeked: Result<Option<Option<Noun>>, PeekFailure>,
    r: Result<PrivateBalanceSync, WalletError>,
)
    requires
        call_ensures(PrivateBalanceSync::on_payload, (waiting, peeked), r),
        waiting@.pokes.len() < waiting@.first_names.len() + waiting@.pubkeys.len(),
    ensures
        r is Ok <==> peeked is Ok,
        r matches Ok(next) ==> {
            &&& next@.first_names == waiting@.first_names
            &&& next@.pubkeys == waiting@.pubkeys
            &&& next@.pokes.len() == waiting@.pokes.len() + 1
            &&& next@.pokes.drop_last() == waiting@.pokes
            &&& balance::is_poke(next@.pokes.last(), balance::payload_of(peeked->Ok_0))
        },
        peeked matches Err(PeekFailure::Answer(err)) ==> r == Err::<
            PrivateBalanceSync,
            WalletError,
        >(err),
        peeked matches Err(PeekFailure::Peek(reason)) ==> {
            let k = waiting@.pokes.len() as int;
            let names = waiting@.first_names.len() as int;
            &&& r->Err_0 matches WalletError::OtherError(words)
            &&& k < names ==> words@ == "Failed to peek balance for "@ + ("first name "@
                + waiting@.first_names[k]@) + ": "@ + reason@
            &&& k >= names ==> words@ == "Failed to peek balance for "@ + ("pubkey "@
                + waiting@.pubkeys[k - names]@) + ": "@ + reason@
        },
{
    if r is Ok {
        balance::lemma_is_poke(balance::payload_of(peeked->Ok_0));
        assert(r->Ok_0@.pokes.drop_last() =~= waiting@.pokes);
    }
}

/// A complete private sync gives all its pokes, in order, and no snapshot.
pub proof fn law_private_sync_gives_its_pokes<C>(
    waiting: PrivateBalanceSync,
    result: BalanceSyncResult<C>,
)
    requires
        call_ensures(PrivateBalanceSync::finish::<C>, (waiting,), result),
    ensures
        result.pokes@.len() == waiting@.pokes.len(),
        forall|i: int|
            0 <= i < result.pokes@.len() ==> (#[trigger] result.pokes@[i])@ == waiting@.pokes[i],
        result.normalized_snapshot is None,
{
    assert(noun::trees(result.pokes@).len() == result.pokes@.len());
    assert forall|i: int| 0 <= i < result.pokes@.len() implies (#[trigger] result.pokes@[i])@
        == waiting@.pokes[i] by {
        assert(noun::trees(result.pokes@)[i] == result.pokes@[i]@);
    }
}

} // verus!
