//! Balances: the notes a node says the wallet owns, merged from the pages they come in.

use crate::digest;
use crate::digest::{Digest, Name};
use crate::error::{WalletError, WalletErrorView};
use crate::noun;
use crate::noun::{Noun, NounView};
use crate::order;
use crate::order::{KeyOrder, Keyed};
use crate::signers;
use crate::signers::DigestSet;
use crate::wallet::Wallet;
use vstd::prelude::*;

verus! {

/// A note of the first or of the second version, as a noun.
#[derive(Debug, PartialEq, Eq)]
pub enum Note {
    V0(Noun),
    V1(Noun),
}

/// The notes of the wallet at a block.
#[derive(Debug, PartialEq, Eq)]
pub struct BalanceUpdate {
    pub height: u64,
    pub block_id: Digest,
    pub notes: Vec<(Name, Note)>,
}

/// The block of a snapshot.
#[derive(Debug, PartialEq, Eq)]
pub struct SnapshotMetadata {
    pub height: u64,
    pub block_id: Digest,
}

/// One consistent view of the wallet's notes: its block, and the notes that a plan may spend.
#[derive(Debug, PartialEq, Eq)]
pub struct NormalizedSnapshot<C> {
    pub metadata: SnapshotMetadata,
    pub candidates: Vec<C>,
}

/// Why pages do not make one snapshot.
#[derive(Clone, Copy, Debug, PartialEq, Eq, Structural)]
pub enum SnapshotProblem {
    /// They are of different heights.
    HeightDrift,
    /// They are of different blocks.
    BlockIdDrift,
    /// Anything else.
    Other,
}

/// A problem with a snapshot, and its words.
#[derive(Debug, PartialEq, Eq)]
pub struct NormalizeSnapshotError {
    pub problem: SnapshotProblem,
    pub text: String,
}

/// The notes of a balance are ordered and identified by their names.
impl Keyed for (Name, Note) {
    open spec fn key(&self) -> Seq<int> {
        digest::name_key(self.0)
    }

    fn compare_key(&self, other: &Self) -> (order: KeyOrder) {
        digest::compare_names(&self.0, &other.0)
    }
}

/// The notes of all pages, page after page.
pub open spec fn all_notes(pages: Seq<BalanceUpdate>) -> Seq<(Name, Note)>
    decreases pages.len(),
{
    if pages.len() == 0 {
        seq![]
    } else {
        all_notes(pages.drop_last()) + pages.last().notes@
    }
}

/// `merged` is the balance at the block of the snapshot with every note that a page has, once,
/// as the first page has it, in the order of the names.
pub open spec fn merges<C>(
    pages: Seq<BalanceUpdate>,
    snapshot: NormalizedSnapshot<C>,
    merged: BalanceUpdate,
) -> bool {
    &&& merged.height == snapshot.metadata.height
    &&& merged.block_id == snapshot.metadata.block_id
    &&& order::one_per_key(all_notes(pages), merged.notes@)
}

/// What merging pages gives: nothing where there is no page, the snapshot's problem where it
/// has one, the merged balance beside the snapshot otherwise.
pub open spec fn unites<C>(
    pages: Seq<BalanceUpdate>,
    normalized: Result<NormalizedSnapshot<C>, NormalizeSnapshotError>,
    r: Result<Option<(BalanceUpdate, NormalizedSnapshot<C>)>, NormalizeSnapshotError>,
) -> bool {
    if pages.len() == 0 {
        r matches Ok(None)
    } else {
        match normalized {
            Err(err) => r == Err::<
                Option<(BalanceUpdate, NormalizedSnapshot<C>)>,
                NormalizeSnapshotError,
            >(err),
            Ok(snapshot) => r matches Ok(Some((merged, same))) && same == snapshot && merges(
                pages,
                snapshot,
                merged,
            ),
        }
    }
}

/// Whether a note stays when untracked notes are dropped: one of the first version does, one
/// of the second version does if its first name is watched.
pub open spec fn stays(watched: Set<Seq<u64>>, entry: (Name, Note)) -> bool {
    match entry.1 {
        Note::V0(_) => true,
        Note::V1(_) => watched.contains(entry.0.first.limbs@),
    }
}

/// The notes that stay when untracked notes are dropped. Where nothing is watched, all do.
pub open spec fn tracked_notes(
    notes: Seq<(Name, Note)>,
    watched: Set<Seq<u64>>,
) -> Seq<(Name, Note)> {
    if watched == Set::<Seq<u64>>::empty() {
        notes
    } else {
        notes.filter(|entry: (Name, Note)| stays(watched, entry))
    }
}

/// The poke that hands a balance to the kernel.
pub open spec fn balance_poke_tree(payload: Option<Option<NounView>>) -> NounView {
    noun::cell_tree(
        noun::cord_tree("update-balance-grpc"@),
        noun::unit_tree(
            match payload {
                None => None,
                Some(inner) => Some(noun::unit_tree(inner)),
            },
        ),
    )
}

/// The trees of an optional optional noun.
pub open spec fn payload_tree(payload: Option<Option<Noun>>) -> Option<Option<NounView>> {
    match payload {
        None => None,
        Some(None) => Some(None),
        Some(Some(balance)) => Some(Some(balance@)),
    }
}

/// The notes of all pages in one list.
fn gather_notes(pages: Vec<BalanceUpdate>) -> (notes: Vec<(Name, Note)>)
    ensures
        notes@ == all_notes(pages@),
{
    let mut notes: Vec<(Name, Note)> = Vec::new();
    let ghost all = pages@;
    assert(all.take(0) =~= seq![]);
    for page in it: pages
        invariant
            it.seq() == all,
            notes@ == all_notes(all.take(it.index())),
    {
        let mut more = page.notes;
        notes.append(&mut more);
        assert(all.take(it.index() + 1).drop_last() =~= all.take(it.index()));
    }
    assert(all.take(all.len() as int) =~= all);
    notes
}

impl Wallet {
    /// Merges balance pages into one balance without repetitions. `normalized` is what making
    /// one snapshot of the pages gives.
    pub fn union_balance_pages<C>(
        pages: Vec<BalanceUpdate>,
        normalized: Result<NormalizedSnapshot<C>, NormalizeSnapshotError>,
    ) -> (r: Result<Option<(BalanceUpdate, NormalizedSnapshot<C>)>, NormalizeSnapshotError>)
        ensures
            unites(pages@, normalized, r),
    {
        if pages.is_empty() {
            return Ok(None);
        }
        match normalized {
            Err(err) => Err(err),
            Ok(snapshot) => {
                let notes = order::keep_one_per_key(gather_notes(pages));
                let merged = BalanceUpdate {
                    height: snapshot.metadata.height,
                    block_id: snapshot.metadata.block_id.clone(),
                    notes,
                };
                Ok(Some((merged, snapshot)))
            },
        }
    }

    /// Drops the notes of the second version whose first name is not watched.
    pub fn filter_untracked_v1_notes_from_balance_update(
        balance_update: BalanceUpdate,
        tracked_first_names: &DigestSet,
    ) -> (kept: BalanceUpdate)
        ensures
            kept.height == balance_update.height,
            kept.block_id == balance_update.block_id,
            kept.notes@ == tracked_notes(balance_update.notes@, tracked_first_names@),
    {
        if tracked_first_names.is_empty() {
            return balance_update;
        }
        let BalanceUpdate { height, block_id, notes } = balance_update;
        let ghost all = notes@;
        let ghost keep = |entry: (Name, Note)| stays(tracked_first_names@, entry);
        let mut kept: Vec<(Name, Note)> = Vec::new();
        assert(all.take(0).filter(keep) =~= seq![]) by {
            reveal(Seq::filter);
        }
        for entry in it: notes
            invariant
                it.seq() == all,
                keep == (|entry: (Name, Note)| stays(tracked_first_names@, entry)),
                kept@ == all.take(it.index()).filter(keep),
        {
            proof {
                reveal(Seq::filter);
                assert(all.take(it.index() + 1).drop_last() =~= all.take(it.index()));
            }
            let stay = match &entry.1 {
                Note::V0(_) => true,
                Note::V1(_) => tracked_first_names.contains(&entry.0.first.limbs),
            };
            if stay {
                kept.push(entry);
            }
        }
        assert(all.take(all.len() as int) =~= all);
        BalanceUpdate { height, block_id, notes: kept }
    }

    /// Drops untracked notes, for tests.
    pub fn filter_untracked_v1_notes_for_tests(
        balance_update: BalanceUpdate,
        tracked_first_names: Vec<Digest>,
    ) -> (kept: BalanceUpdate)
        ensures
            kept.height == balance_update.height,
            kept.block_id == balance_update.block_id,
            kept.notes@ == tracked_notes(
                balance_update.notes@,
                signers::limbs_of(tracked_first_names@),
            ),
    {
        let watched = DigestSet::from_digests(tracked_first_names.as_slice());
        Self::filter_untracked_v1_notes_from_balance_update(balance_update, &watched)
    }

    /// The poke that hands a balance to the kernel. `balance_update` is its noun.
    pub fn update_balance_grpc_poke(balance_update: Noun) -> (poke: Noun)
        ensures
            poke@ == balance_poke_tree(Some(Some(balance_update@))),
    {
        Self::update_balance_grpc_poke_from_payload(Some(Some(balance_update)))
    }

    /// The poke that hands a balance to the kernel, for tests.
    pub fn update_balance_grpc_poke_for_tests(balance_update: Noun) -> (poke: Noun)
        ensures
            poke@ == balance_poke_tree(Some(Some(balance_update@))),
    {
        Self::update_balance_grpc_poke(balance_update)
    }

    /// The poke that hands the kernel what a look at a node's balance shows.
    pub fn update_balance_grpc_poke_from_payload(payload: Option<Option<Noun>>) -> (poke: Noun)
        ensures
            poke@ == balance_poke_tree(payload_tree(payload)),
    {
        let payload_noun = match payload {
            None => Noun::unit(None),
            Some(inner) => Noun::unit(Some(Noun::unit(inner))),
        };
        Noun::cell(Noun::cord("update-balance-grpc"), payload_noun)
    }

    /// What a look at the balance in the wallet's state gives.
    pub fn balance_state_from_peek(
        peeked: Result<Option<Option<BalanceUpdate>>, WalletError>,
    ) -> (r: Result<BalanceUpdate, WalletError>)
        ensures
            match peeked {
                Err(err) => r == Err::<BalanceUpdate, WalletError>(err),
                Ok(Some(Some(balance))) => r == Ok::<BalanceUpdate, WalletError>(balance),
                Ok(_) => r matches Err(e) && e@ == WalletErrorView::OtherError(
                    "wallet balance peek returned no balance payload"@,
                ),
            },
    {
        match peeked {
            Err(err) => Err(err),
            Ok(Some(Some(balance))) => Ok(balance),
            Ok(_) => Err(
                WalletError::OtherError(
                    "wallet balance peek returned no balance payload".to_owned(),
                ),
            ),
        }
    }
}

/// Merging a balance that was merged before, by itself, changes none of its notes.
pub proof fn law_merging_again_changes_nothing(
    pages: Seq<BalanceUpdate>,
    merged: BalanceUpdate,
    again: BalanceUpdate,
)
    requires
        order::one_per_key(all_notes(pages), merged.notes@),
        order::one_per_key(all_notes(seq![merged]), again.notes@),
    ensures
        again.notes@ == merged.notes@,
{
    reveal_with_fuel(all_notes, 2);
    assert(seq![merged].drop_last() =~= Seq::<BalanceUpdate>::empty());
    assert(all_notes(seq![merged]) =~= merged.notes@);
    order::law_one_per_key_is_idempotent(all_notes(pages), merged.notes@, again.notes@);
}

/// Where pages disagree about a note, the first page that has it is believed.
pub proof fn law_first_page_is_believed(
    pages: Seq<BalanceUpdate>,
    merged: BalanceUpdate,
    i: int,
)
    requires
        order::one_per_key(all_notes(pages), merged.notes@),
        order::first_with_key(all_notes(pages), i),
    ensures
        merged.notes@.contains(all_notes(pages)[i]),
{
    let notes = all_notes(pages);
    let kept = merged.notes@;
    assert(order::has_key(kept, notes[i].key()));
    let k = choose|k: int| 0 <= k < kept.len() && (#[trigger] kept[k]).key() == notes[i].key();
    assert(order::is_first_of(notes, kept[k]));
    let m = choose|m: int| #[trigger] order::first_with_key(notes, m) && notes[m] == kept[k];
    if m < i {
        assert(notes[m].key() != notes[i].key());
    } else if i < m {
        assert(notes[i].key() != notes[m].key());
    }
}

/// A page has a note with this name.
pub open spec fn page_names(pages: Seq<BalanceUpdate>, name: Seq<int>) -> bool {
    exists|i: int|
        0 <= i < pages.len() && order::has_key((#[trigger] pages[i]).notes@, name)
}

proof fn lemma_all_notes_names(pages: Seq<BalanceUpdate>, name: Seq<int>)
    ensures
        order::has_key(all_notes(pages), name) <==> page_names(pages, name),
    decreases pages.len(),
{
    if pages.len() > 0 {
        let rest = pages.drop_last();
        let before = all_notes(rest);
        let last = pages.last().notes@;
        lemma_all_notes_names(rest, name);
        if order::has_key(all_notes(pages), name) {
            let j = choose|j: int|
                0 <= j < all_notes(pages).len() && (#[trigger] all_notes(pages)[j]).key() == name;
            if j < before.len() {
                assert(before[j].key() == name);
                let i = choose|i: int|
                    0 <= i < rest.len() && order::has_key((#[trigger] rest[i]).notes@, name);
                assert(order::has_key(pages[i].notes@, name));
            } else {
                assert(last[j - before.len()].key() == name);
                assert(order::has_key(pages[pages.len() - 1].notes@, name));
            }
        }
        if page_names(pages, name) {
            let i = choose|i: int|
                0 <= i < pages.len() && order::has_key((#[trigger] pages[i]).notes@, name);
            if i < rest.len() {
                assert(order::has_key(rest[i].notes@, name));
                let j = choose|j: int|
                    0 <= j < before.len() && (#[trigger] before[j]).key() == name;
                assert(all_notes(pages)[j].key() == name);
            } else {
                let j = choose|j: int| 0 <= j < last.len() && (#[trigger] last[j]).key() == name;
                assert(all_notes(pages)[before.len() + j].key() == name);
            }
        }
    }
}

/// A merged balance names the notes that the pages name, and no others.
pub proof fn law_merged_names_are_those_of_pages(
    pages: Seq<BalanceUpdate>,
    merged: BalanceUpdate,
    name: Seq<int>,
)
    requires
        order::one_per_key(all_notes(pages), merged.notes@),
    ensures
        order::has_key(merged.notes@, name) <==> page_names(pages, name),
{
    lemma_all_notes_names(pages, name);
    order::lemma_kept_keys_occur(all_notes(pages), merged.notes@, name);
}

/// The order in which pages come does not change which notes the merged balance names, nor
/// their order.
pub proof fn law_page_order_does_not_matter(
    pages: Seq<BalanceUpdate>,
    shuffled: Seq<BalanceUpdate>,
    merged: BalanceUpdate,
    other: BalanceUpdate,
)
    requires
        pages.to_multiset() == shuffled.to_multiset(),
        order::one_per_key(all_notes(pages), merged.notes@),
        order::one_per_key(all_notes(shuffled), other.notes@),
    ensures
        order::keys(merged.notes@) == order::keys(other.notes@),
{
    broadcast use vstd::seq_lib::group_to_multiset_ensures;

    assert forall|name: Seq<int>|
        order::has_key(all_notes(pages), name) <==> order::has_key(all_notes(shuffled), name) by {
        lemma_all_notes_names(pages, name);
        lemma_all_notes_names(shuffled, name);
        if page_names(pages, name) {
            let i = choose|i: int|
                0 <= i < pages.len() && order::has_key((#[trigger] pages[i]).notes@, name);
            assert(pages.to_multiset().contains(pages[i]));
            assert(shuffled.contains(pages[i]));
        }
        if page_names(shuffled, name) {
            let i = choose|i: int|
                0 <= i < shuffled.len() && order::has_key((#[trigger] shuffled[i]).notes@, name);
            assert(shuffled.to_multiset().contains(shuffled[i]));
            assert(pages.contains(shuffled[i]));
        }
    }
    order::law_one_per_key_depends_on_keys(
        all_notes(pages),
        all_notes(shuffled),
        merged.notes@,
        other.notes@,
    );
}

/// Two entries of a balance say the same: the same name, written alike, and the same note.
pub open spec fn same_entry(a: (Name, Note), b: (Name, Note)) -> bool {
    &&& a.0.first.limbs@ == b.0.first.limbs@
    &&& a.0.last.limbs@ == b.0.last.limbs@
    &&& a.0.first.base58@ == b.0.first.base58@
    &&& a.0.last.base58@ == b.0.last.base58@
    &&& match (a.1, b.1) {
        (Note::V0(x), Note::V0(y)) => x@ == y@,
        (Note::V1(x), Note::V1(y)) => x@ == y@,
        _ => false,
    }
}

/// What page `p` gives for a name: `entry` is the first of its notes with that name, the
/// `k`-th of all.
pub open spec fn gives(pages: Seq<BalanceUpdate>, p: int, k: int, entry: (Name, Note)) -> bool {
    &&& 0 <= p < pages.len()
    &&& order::first_with_key(pages[p].notes@, k)
    &&& pages[p].notes@[k] == entry
}

/// No two pages give different notes for one name.
pub open spec fn pages_agree(pages: Seq<BalanceUpdate>) -> bool {
    forall|p: int, k: int, q: int, l: int, a: (Name, Note), b: (Name, Note)|
        p != q && #[trigger] gives(pages, p, k, a) && #[trigger] gives(pages, q, l, b) && a.key()
            == b.key() ==> same_entry(a, b)
}

/// The first note of a name on all pages is what some page gives for it.
proof fn lemma_first_note_is_given(pages: Seq<BalanceUpdate>, i: int) -> (place: (int, int))
    requires
        order::first_with_key(all_notes(pages), i),
    ensures
        gives(pages, place.0, place.1, all_notes(pages)[i]),
    decreases pages.len(),
{
    let rest = pages.drop_last();
    let before = all_notes(rest);
    let last = pages.last().notes@;
    let notes = all_notes(pages);
    if i < before.len() {
        assert forall|j: int| 0 <= j < i implies (#[trigger] before[j]).key()
            != before[i].key() by {
            assert(notes[j].key() != notes[i].key());
        }
        let place = lemma_first_note_is_given(rest, i);
        assert(rest[place.0] == pages[place.0]);
        place
    } else {
        let k = i - before.len();
        assert forall|j: int| 0 <= j < k implies (#[trigger] last[j]).key() != last[k].key() by {
            assert(notes[before.len() + j].key() != notes[i].key());
        }
        (pages.len() - 1, k)
    }
}

/// A note of a merged balance is what some page gives for its name.
proof fn lemma_merged_note_is_given(
    pages: Seq<BalanceUpdate>,
    merged: BalanceUpdate,
    i: int,
) -> (place: (int, int))
    requires
        order::one_per_key(all_notes(pages), merged.notes@),
        0 <= i < merged.notes@.len(),
    ensures
        gives(pages, place.0, place.1, merged.notes@[i]),
{
    let notes = all_notes(pages);
    assert(order::is_first_of(notes, merged.notes@[i]));
    let m = choose|m: int| #[trigger]
        order::first_with_key(notes, m) && notes[m] == merged.notes@[i];
    lemma_first_note_is_given(pages, m)
}

/// Where no two pages give different notes for one name, the order in which pages come changes
/// nothing at all: the merged balances say the same, note by note. A page may itself repeat a
/// name with different notes: the first of them is what it gives.
pub proof fn law_agreeing_pages_merge_alike(
    pages: Seq<BalanceUpdate>,
    shuffled: Seq<BalanceUpdate>,
    merged: BalanceUpdate,
    other: BalanceUpdate,
)
    requires
        pages.to_multiset() == shuffled.to_multiset(),
        pages_agree(pages),
        order::one_per_key(all_notes(pages), merged.notes@),
        order::one_per_key(all_notes(shuffled), other.notes@),
    ensures
        merged.notes@.len() == other.notes@.len(),
        forall|i: int|
            0 <= i < merged.notes@.len() ==> same_entry(
                #[trigger] merged.notes@[i],
                other.notes@[i],
            ),
{
    broadcast use vstd::seq_lib::group_to_multiset_ensures;

    law_page_order_does_not_matter(pages, shuffled, merged, other);
    assert(order::keys(merged.notes@).len() == merged.notes@.len());
    assert(order::keys(other.notes@).len() == other.notes@.len());
    assert forall|i: int| 0 <= i < merged.notes@.len() implies same_entry(
        #[trigger] merged.notes@[i],
        other.notes@[i],
    ) by {
        let a = merged.notes@[i];
        let b = other.notes@[i];
        assert(order::keys(merged.notes@)[i] == order::keys(other.notes@)[i]);
        assert(a.key() == b.key());
        let (p, k) = lemma_merged_note_is_given(pages, merged, i);
        let (s, l) = lemma_merged_note_is_given(shuffled, other, i);
        assert(shuffled.to_multiset().contains(shuffled[s]));
        assert(pages.contains(shuffled[s]));
        let q = choose|q: int| 0 <= q < pages.len() && pages[q] == shuffled[s];
        assert(gives(pages, p, k, a));
        assert(gives(pages, q, l, b));
        if p == q {
            let notes = pages[p].notes@;
            if k < l {
                assert(notes[k].key() != notes[l].key());
            } else if l < k {
                assert(notes[l].key() != notes[k].key());
            }
        }
    }
}

/// Dropping untracked notes twice drops no more than dropping them once.
pub proof fn law_dropping_untracked_again_changes_nothing(
    notes: Seq<(Name, Note)>,
    watched: Set<Seq<u64>>,
)
    ensures
        tracked_notes(tracked_notes(notes, watched), watched) == tracked_notes(notes, watched),
{
    let keep = |entry: (Name, Note)| stays(watched, entry);
    if watched != Set::<Seq<u64>>::empty() {
        lemma_filter_keeps_all(notes.filter(keep), keep);
    }
}

/// Two lists of watched names can be applied in either order.
pub proof fn law_dropping_untracked_commutes(
    notes: Seq<(Name, Note)>,
    a: Set<Seq<u64>>,
    b: Set<Seq<u64>>,
)
    ensures
        tracked_notes(tracked_notes(notes, a), b) == tracked_notes(tracked_notes(notes, b), a),
{
    if a != Set::<Seq<u64>>::empty() && b != Set::<Seq<u64>>::empty() {
        let keep_a = |entry: (Name, Note)| stays(a, entry);
        let keep_b = |entry: (Name, Note)| stays(b, entry);
        lemma_filters_commute(notes, keep_a, keep_b);
    }
}

proof fn lemma_filters_commute(
    notes: Seq<(Name, Note)>,
    f: spec_fn((Name, Note)) -> bool,
    g: spec_fn((Name, Note)) -> bool,
)
    ensures
        notes.filter(f).filter(g) == notes.filter(g).filter(f),
    decreases notes.len(),
{
    reveal(Seq::filter);
    if notes.len() > 0 {
        let rest = notes.drop_last();
        let last = notes.last();
        lemma_filters_commute(rest, f, g);
        assert(rest.filter(f).push(last).drop_last() =~= rest.filter(f));
        assert(rest.filter(g).push(last).drop_last() =~= rest.filter(g));
    }
}

proof fn lemma_filter_keeps_all(notes: Seq<(Name, Note)>, keep: spec_fn((Name, Note)) -> bool)
    requires
        forall|i: int| 0 <= i < notes.len() ==> keep(#[trigger] notes[i]),
    ensures
        notes.filter(keep) == notes,
    decreases notes.len(),
{
    reveal(Seq::filter);
    if notes.len() > 0 {
        lemma_filter_keeps_all(notes.drop_last(), keep);
        assert(notes =~= notes.drop_last().push(notes.last()));
    }
}

} // verus!
