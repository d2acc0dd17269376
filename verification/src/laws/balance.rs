//! Balances: merged, filtered, and handed to the kernel.

use crate::balance;
use crate::balance::{BalanceUpdate, NormalizeSnapshotError, NormalizedSnapshot, Note};
use crate::digest::{Digest, Name};
use crate::error::WalletError;
use crate::laws::lists;
use crate::laws::nouns;
use crate::laws::signers;
use crate::noun;
use crate::noun::{Noun, NounDecodeError, NounView};
use crate::order;
use crate::order::Keyed;
use crate::signers::DigestSet;
use crate::wallet::Wallet;
use vstd::prelude::*;

verus! {

/// There is a `k`-th note on page `p`.
pub open spec fn is_place(pages: Seq<BalanceUpdate>, p: int, k: int) -> bool {
    0 <= p < pages.len() && 0 <= k < pages[p].notes@.len()
}

pub open spec fn note_at(pages: Seq<BalanceUpdate>, p: int, k: int) -> (Name, Note) {
    pages[p].notes@[k]
}

/// One of the notes has this name.
pub open spec fn has_name(notes: Seq<(Name, Note)>, name: Name) -> bool {
    exists|i: int| 0 <= i < notes.len() && lists::same_name((#[trigger] notes[i]).0, name)
}

/// The `k`-th note of page `p` is `entry`, and no note before it, on this page or on one before
/// it, has its name.
pub open spec fn comes_first(
    pages: Seq<BalanceUpdate>,
    p: int,
    k: int,
    entry: (Name, Note),
) -> bool {
    &&& is_place(pages, p, k)
    &&& note_at(pages, p, k) == entry
    &&& forall|q: int, l: int| #[trigger]
        is_place(pages, q, l) && (q < p || (q == p && l < k)) ==> !lists::same_name(
            note_at(pages, q, l).0,
            entry.0,
        )
}

/// The entry comes first somewhere on the pages.
pub open spec fn is_believed(pages: Seq<BalanceUpdate>, entry: (Name, Note)) -> bool {
    exists|p: int, k: int| comes_first(pages, p, k, entry)
}

/// The notes of the pages, none lost and none made up, each once as the first page has it, in the
/// order of their names.
pub open spec fn holds_all_notes(pages: Seq<BalanceUpdate>, notes: Seq<(Name, Note)>) -> bool {
    &&& forall|p: int, k: int| #[trigger]
        is_place(pages, p, k) ==> has_name(notes, note_at(pages, p, k).0)
    &&& forall|i: int| 0 <= i < notes.len() ==> is_believed(pages, #[trigger] notes[i])
    &&& forall|i: int, j: int|
        0 <= i < j < notes.len() ==> lists::name_before(
            (#[trigger] notes[i]).0,
            (#[trigger] notes[j]).0,
        )
}

proof fn lemma_note_is_gathered(pages: Seq<BalanceUpdate>, p: int, k: int) -> (j: int)
    requires
        is_place(pages, p, k),
    ensures
        0 <= j < balance::all_notes(pages).len(),
        balance::all_notes(pages)[j] == note_at(pages, p, k),
    decreases pages.len(),
{
    let rest = pages.drop_last();
    if p < pages.len() - 1 {
        assert(is_place(rest, p, k));
        lemma_note_is_gathered(rest, p, k)
    } else {
        balance::all_notes(rest).len() + k
    }
}

proof fn lemma_first_gathered_comes_first(pages: Seq<BalanceUpdate>, i: int) -> (place: (int, int))
    requires
        order::first_with_key(balance::all_notes(pages), i),
    ensures
        comes_first(pages, place.0, place.1, balance::all_notes(pages)[i]),
    decreases pages.len(),
{
    let notes = balance::all_notes(pages);
    let rest = pages.drop_last();
    let before = balance::all_notes(rest);
    let entry = notes[i];
    if i < before.len() {
        assert forall|j: int| 0 <= j < i implies (#[trigger] before[j]).key()
            != before[i].key() by {
            assert(notes[j].key() != notes[i].key());
        }
        let (p, k) = lemma_first_gathered_comes_first(rest, i);
        assert(is_place(pages, p, k));
        assert forall|q: int, l: int| #[trigger]
            is_place(pages, q, l) && (q < p || (q == p && l < k)) implies !lists::same_name(
            note_at(pages, q, l).0,
            entry.0,
        ) by {
            assert(is_place(rest, q, l));
        }
        assert(comes_first(pages, p, k, entry));
        (p, k)
    } else {
        let p = pages.len() - 1;
        let k = i - before.len();
        assert(is_place(pages, p, k));
        assert forall|q: int, l: int| #[trigger]
            is_place(pages, q, l) && (q < p || (q == p && l < k)) implies !lists::same_name(
            note_at(pages, q, l).0,
            entry.0,
        ) by {
            lists::lemma_name_before(note_at(pages, q, l).0, entry.0);
            if q < p {
                assert(is_place(rest, q, l));
                let j = lemma_note_is_gathered(rest, q, l);
                assert(notes[j] == before[j]);
                assert(notes[j].key() != notes[i].key());
            } else {
                assert(notes[before.len() + l].key() != notes[i].key());
            }
        }
        assert(comes_first(pages, p, k, entry));
        (p, k)
    }
}

pub proof fn lemma_holds_all_notes(pages: Seq<BalanceUpdate>, notes: Seq<(Name, Note)>)
    requires
        order::one_per_key(balance::all_notes(pages), notes),
    ensures
        holds_all_notes(pages, notes),
{
    let all = balance::all_notes(pages);
    assert forall|p: int, k: int| #[trigger] is_place(pages, p, k) implies has_name(
        notes,
        note_at(pages, p, k).0,
    ) by {
        let j = lemma_note_is_gathered(pages, p, k);
        assert(order::has_key(notes, all[j].key()));
        let i = choose|i: int| 0 <= i < notes.len() && (#[trigger] notes[i]).key() == all[j].key();
        lists::lemma_name_before(notes[i].0, all[j].0);
    }
    assert forall|i: int| 0 <= i < notes.len() implies is_believed(pages, #[trigger] notes[i]) by {
        assert(order::is_first_of(all, notes[i]));
        let m = choose|m: int| #[trigger] order::first_with_key(all, m) && all[m] == notes[i];
        let (p, k) = lemma_first_gathered_comes_first(pages, m);
        assert(comes_first(pages, p, k, notes[i]));
    }
    assert forall|i: int, j: int| 0 <= i < j < notes.len() implies lists::name_before(
        (#[trigger] notes[i]).0,
        (#[trigger] notes[j]).0,
    ) by {
        assert(order::lex_lt(notes[i].key(), notes[j].key()));
        lists::lemma_name_before(notes[i].0, notes[j].0);
    }
}

/// Merging pages loses no note and makes none up: every note of every page is there by its name,
/// as the first page that has it gives it, once, in the order of the names, at the block of the
/// snapshot. Without pages there is nothing, and pages that make no snapshot are not merged.
pub proof fn law_merging_loses_no_note<C>(
    pages: Vec<BalanceUpdate>,
    normalized: Result<NormalizedSnapshot<C>, NormalizeSnapshotError>,
    r: Result<Option<(BalanceUpdate, NormalizedSnapshot<C>)>, NormalizeSnapshotError>,
)
    requires
        call_ensures(Wallet::union_balance_pages::<C>, (pages, normalized), r),
    ensures
        r is Ok && r->Ok_0 is None <==> pages@.len() == 0,
        r is Err <==> pages@.len() > 0 && normalized is Err,
        r matches Err(err) ==> err == normalized->Err_0,
        r matches Ok(Some((merged, snapshot))) ==> {
            &&& snapshot == normalized->Ok_0
            &&& merged.height == snapshot.metadata.height
            &&& merged.block_id == snapshot.metadata.block_id
            &&& holds_all_notes(pages@, merged.notes@)
        },
{
    if r is Ok && r->Ok_0 is Some {
        lemma_holds_all_notes(pages@, r->Ok_0->Some_0.0.notes@);
    }
}

/// Whatever gives the merged balance of pages with a snapshot gives all their notes.
pub proof fn law_merged_balance_holds_all_notes<C>(
    pages: Seq<BalanceUpdate>,
    normalized: Result<NormalizedSnapshot<C>, NormalizeSnapshotError>,
    r: Result<Option<(BalanceUpdate, NormalizedSnapshot<C>)>, NormalizeSnapshotError>,
)
    requires
        balance::unites(pages, normalized, r),
    ensures
        r matches Ok(Some((merged, _))) ==> holds_all_notes(pages, merged.notes@),
        pages.len() > 0 && normalized is Ok ==> r is Ok && r->Ok_0 is Some,
{
    if r is Ok && r->Ok_0 is Some {
        lemma_holds_all_notes(pages, r->Ok_0->Some_0.0.notes@);
    }
}

/// A note stays where nothing is watched, where it is of the first version, or where its first
/// name is watched.
pub open spec fn is_tracked(entry: (Name, Note), watched: Seq<Digest>) -> bool {
    watched.len() == 0 || entry.1 is V0 || signers::among(watched, entry.0.first.limbs@)
}

/// `kept` are the notes that stay, in their order.
pub open spec fn keeps_tracked(
    notes: Seq<(Name, Note)>,
    watched: Seq<Digest>,
    kept: Seq<(Name, Note)>,
) -> bool
    decreases notes.len(),
{
    if notes.len() == 0 {
        kept.len() == 0
    } else if is_tracked(notes[0], watched) {
        &&& kept.len() > 0
        &&& kept[0] == notes[0]
        &&& keeps_tracked(notes.drop_first(), watched, kept.drop_first())
    } else {
        keeps_tracked(notes.drop_first(), watched, kept)
    }
}

proof fn lemma_keeps_all(notes: Seq<(Name, Note)>, watched: Seq<Digest>)
    requires
        watched.len() == 0,
    ensures
        keeps_tracked(notes, watched, notes),
    decreases notes.len(),
{
    if notes.len() > 0 {
        lemma_keeps_all(notes.drop_first(), watched);
    }
}

proof fn lemma_keeps_filtered(
    notes: Seq<(Name, Note)>,
    watched: Seq<Digest>,
    keep: spec_fn((Name, Note)) -> bool,
)
    requires
        forall|entry: (Name, Note)| #[trigger] keep(entry) <==> is_tracked(entry, watched),
    ensures
        keeps_tracked(notes, watched, notes.filter(keep)),
    decreases notes.len(),
{
    reveal(Seq::filter);
    if notes.len() > 0 {
        let one = seq![notes[0]];
        let rest = notes.drop_first();
        lemma_keeps_filtered(rest, watched, keep);
        assert(notes =~= one + rest);
        Seq::filter_distributes_over_add(one, rest, keep);
        assert(one.drop_last() =~= Seq::<(Name, Note)>::empty());
        assert(one.drop_last().filter(keep) =~= Seq::<(Name, Note)>::empty());
        assert(one.last() == notes[0]);
        let kept = notes.filter(keep);
        assert(kept == one.filter(keep) + rest.filter(keep));
        if keep(notes[0]) {
            assert(one.filter(keep) =~= one);
            assert(kept.drop_first() =~= rest.filter(keep));
        } else {
            assert(one.filter(keep) =~= seq![]);
            assert(kept =~= rest.filter(keep));
        }
    }
}

proof fn lemma_keeps_tracked(
    notes: Seq<(Name, Note)>,
    watched: Seq<Digest>,
    limbs: Set<Seq<u64>>,
)
    requires
        forall|l: Seq<u64>| #[trigger] limbs.contains(l) <==> signers::among(watched, l),
    ensures
        keeps_tracked(notes, watched, balance::tracked_notes(notes, limbs)),
{
    if watched.len() == 0 {
        assert(limbs =~= Set::<Seq<u64>>::empty());
        lemma_keeps_all(notes, watched);
    } else {
        assert(signers::among(watched, watched[0].limbs@));
        assert(limbs.contains(watched[0].limbs@));
        let keep = |entry: (Name, Note)| balance::stays(limbs, entry);
        lemma_keeps_filtered(notes, watched, keep);
    }
}

/// Notes of the second version are dropped where names are watched and theirs is not; every other
/// note stays, in its place, at the same block.
pub proof fn law_untracked_notes_are_dropped(
    update: BalanceUpdate,
    digests: &[Digest],
    watched: DigestSet,
    kept: BalanceUpdate,
)
    requires
        call_ensures(DigestSet::from_digests, (digests,), watched),
        call_ensures(
            Wallet::filter_untracked_v1_notes_from_balance_update,
            (update, &watched),
            kept,
        ),
    ensures
        kept.height == update.height,
        kept.block_id == update.block_id,
        keeps_tracked(update.notes@, digests@, kept.notes@),
{
    assert forall|l: Seq<u64>| #[trigger] watched@.contains(l) <==> signers::among(
        digests@,
        l,
    ) by {}
    lemma_keeps_tracked(update.notes@, digests@, watched@);
}

/// The same of a list of watched names.
pub proof fn law_untracked_notes_are_dropped_of_a_list(
    update: BalanceUpdate,
    watched: Vec<Digest>,
    kept: BalanceUpdate,
)
    requires
        call_ensures(Wallet::filter_untracked_v1_notes_for_tests, (update, watched), kept),
    ensures
        kept.height == update.height,
        kept.block_id == update.block_id,
        keeps_tracked(update.notes@, watched@, kept.notes@),
{
    let limbs = crate::signers::limbs_of(watched@);
    assert forall|l: Seq<u64>| #[trigger] limbs.contains(l) <==> signers::among(watched@, l) by {}
    lemma_keeps_tracked(update.notes@, watched@, limbs);
}

/// The poke: the cord, and the payload with all its units.
pub open spec fn is_poke(poke: NounView, payload: Option<Option<NounView>>) -> bool {
    &&& poke matches NounView::Cell(head, tail)
    &&& nouns::is_text(*head, "update-balance-grpc"@)
    &&& match payload {
        None => *tail == NounView::Atom(0),
        Some(inner) => {
            &&& *tail matches NounView::Cell(outer, rest)
            &&& *outer == NounView::Atom(0)
            &&& match inner {
                None => *rest == NounView::Atom(0),
                Some(balance) => *rest matches NounView::Cell(some, value) && *some
                    == NounView::Atom(0) && *value == balance,
            }
        },
    }
}

/// The payload that a poke was made of.
pub open spec fn payload_of(payload: Option<Option<Noun>>) -> Option<Option<NounView>> {
    match payload {
        None => None,
        Some(None) => Some(None),
        Some(Some(balance)) => Some(Some(balance@)),
    }
}

pub proof fn lemma_is_poke(payload: Option<Option<NounView>>)
    ensures
        is_poke(balance::balance_poke_tree(payload), payload),
{
    nouns::lemma_is_text("update-balance-grpc"@);
}

/// A poke is the cord and the whole payload: what the node showed, under one unit for the look
/// and one for the balance, whatever noun the balance is.
pub proof fn law_poke_holds_the_payload(payload: Option<Option<Noun>>, poke: Noun)
    requires
        call_ensures(Wallet::update_balance_grpc_poke_from_payload, (payload,), poke),
    ensures
        is_poke(poke@, payload_of(payload)),
{
    lemma_is_poke(payload_of(payload));
}

/// A balance is handed over as one that a look showed.
pub proof fn law_balance_is_poked(update: Noun, poke: Noun)
    requires
        call_ensures(Wallet::update_balance_grpc_poke, (update,), poke) || call_ensures(
            Wallet::update_balance_grpc_poke_for_tests,
            (update,),
            poke,
        ),
    ensures
        is_poke(poke@, Some(Some(update@))),
{
    lemma_is_poke(Some(Some(update@)));
}

/// The kernel reads back from a poke the payload that was put in: its tail read as an optional
/// value gives none where there was none, and otherwise what read again gives the balance.
pub proof fn law_payload_is_read_back(payload: Option<Option<Noun>>, poke: Noun)
    requires
        call_ensures(Wallet::update_balance_grpc_poke_from_payload, (payload,), poke),
    ensures
        poke@ is Cell,
        match payload {
            None => noun::unit_of(*poke@->Cell_1) == Ok::<Option<NounView>, NounDecodeError>(None),
            Some(inner) => exists|shown: NounView|
                {
                    &&& noun::unit_of(*poke@->Cell_1) == Ok::<Option<NounView>, NounDecodeError>(
                        Some(shown),
                    )
                    &&& #[trigger] noun::unit_of(shown) == Ok::<Option<NounView>, NounDecodeError>(
                        match inner {
                            None => None,
                            Some(balance) => Some(balance@),
                        },
                    )
                },
        },
{
    law_poke_holds_the_payload(payload, poke);
    if payload is Some {
        let shown = *(*poke@->Cell_1)->Cell_1;
        assert(noun::unit_of(shown) is Ok);
    }
}

/// Pokes tell payloads apart.
pub proof fn law_pokes_tell_payloads(
    a: Option<Option<Noun>>,
    b: Option<Option<Noun>>,
    poke_a: Noun,
    poke_b: Noun,
)
    requires
        call_ensures(Wallet::update_balance_grpc_poke_from_payload, (a,), poke_a),
        call_ensures(Wallet::update_balance_grpc_poke_from_payload, (b,), poke_b),
        poke_a@ == poke_b@,
    ensures
        payload_of(a) == payload_of(b),
{
    law_poke_holds_the_payload(a, poke_a);
    law_poke_holds_the_payload(b, poke_b);
}

/// The balance that a look shows is handed out; a look that fails is reported, and one that shows
/// none is an error of its own.
pub proof fn law_shown_balance_is_handed_out(
    peeked: Result<Option<Option<BalanceUpdate>>, WalletError>,
    r: Result<BalanceUpdate, WalletError>,
)
    requires
        call_ensures(Wallet::balance_state_from_peek, (peeked,), r),
    ensures
        r is Ok <==> peeked matches Ok(Some(Some(_))),
        r matches Ok(shown) ==> peeked->Ok_0->Some_0->Some_0 == shown,
        peeked matches Err(err) ==> r == Err::<BalanceUpdate, WalletError>(err),
        peeked is Ok && r is Err ==> (r->Err_0 matches WalletError::OtherError(words) && words@
            == "wallet balance peek returned no balance payload"@),
{
}

} // verus!
