//! Which locks are found, and which keys are used.

use crate::digest::Digest;
use crate::error::WalletError;
use crate::laws::lists;
use crate::order;
use crate::order::Keyed;
use crate::signers;
use crate::signers::{LockPrimitive, SigningKeyLockMatcher, SpendCondition};
use crate::wallet::Wallet;
use vstd::prelude::*;

verus! {

/// One of the digests has these limbs.
pub open spec fn among(digests: Seq<Digest>, limbs: Seq<u64>) -> bool {
    exists|i: int| 0 <= i < digests.len() && (#[trigger] digests[i]).limbs@ == limbs
}

/// The `j`-th condition is one signature by one of the keys.
pub open spec fn signature_of(
    condition: SpendCondition,
    j: int,
    keys: Seq<Digest>,
) -> bool {
    &&& 0 <= j < condition.primitives@.len()
    &&& condition.primitives@[j] matches LockPrimitive::Pkh(pkh)
    &&& pkh.m == 1
    &&& pkh.hashes@.len() == 1
    &&& among(keys, pkh.hashes@[0].limbs@)
}

/// All conditions but the `j`-th are times, and there is at most one.
pub open spec fn else_at_most_a_time(condition: SpendCondition, j: int) -> bool {
    &&& condition.primitives@.len() <= 2
    &&& forall|i: int|
        0 <= i < condition.primitives@.len() && i != j ==> (
        #[trigger] condition.primitives@[i]) is Tim
}

/// A lock is found for a note exactly when one signature by a key of the wallet opens it, alone
/// or beside one time, and when it is the lock of that note: its first name can be computed and
/// has the limbs of the note's.
pub proof fn law_lock_is_found(
    keys: &[Digest],
    matcher: SigningKeyLockMatcher,
    note_first_name: Digest,
    condition: SpendCondition,
    found: bool,
)
    requires
        call_ensures(SigningKeyLockMatcher::from_signer_keys, (keys,), matcher),
        call_ensures(
            SigningKeyLockMatcher::matches,
            (&matcher, &note_first_name, &condition),
            found,
        ),
    ensures
        found <==> {
            &&& condition.first_name is Some
            &&& condition.first_name->Some_0.limbs@ == note_first_name.limbs@
            &&& exists|j: int| #[trigger]
                signature_of(condition, j, keys@) && else_at_most_a_time(condition, j)
        },
{
    let primitives = condition.primitives@;
    assert forall|limbs: Seq<u64>| matcher@.contains(limbs) <==> #[trigger] among(keys@, limbs) by {
        assert(signers::limbs_of(keys@).contains(limbs) <==> signers::some_digest_has(
            keys@,
            limbs,
        ));
    }
    if found {
        let hash = choose|hash: Seq<u64>|
            matcher@.contains(hash) && #[trigger] signers::single_signer_lock(primitives, hash);
        assert(among(keys@, hash));
        if signers::single_signature(primitives[0], hash) {
            assert(signature_of(condition, 0, keys@));
            assert(else_at_most_a_time(condition, 0));
        } else {
            assert(signature_of(condition, 1, keys@));
            assert(else_at_most_a_time(condition, 1));
        }
    }
    if exists|j: int| #[trigger]
        signature_of(condition, j, keys@) && else_at_most_a_time(condition, j) {
        let j = choose|j: int| #[trigger]
            signature_of(condition, j, keys@) && else_at_most_a_time(condition, j);
        let hash = primitives[j]->Pkh_0.hashes@[0].limbs@;
        assert(among(keys@, hash));
        assert(signers::single_signature(primitives[j], hash));
        if primitives.len() == 2 {
            assert(primitives[1 - j] is Tim);
        }
        assert(signers::single_signer_lock(primitives, hash));
    }
}

/// A lock that is found for a note is the lock of that note: its first name can be computed and
/// is the note's, whatever the lock asks for.
pub proof fn law_found_lock_is_that_of_the_note(
    matcher: SigningKeyLockMatcher,
    note_first_name: Digest,
    condition: SpendCondition,
    found: bool,
)
    requires
        call_ensures(
            SigningKeyLockMatcher::matches,
            (&matcher, &note_first_name, &condition),
            found,
        ),
        found,
    ensures
        condition.first_name is Some,
        condition.first_name->Some_0.limbs@ == note_first_name.limbs@,
{
}

/// Two notes with different first names are never both found under one lock.
pub proof fn law_one_lock_is_of_one_first_name(
    matcher: SigningKeyLockMatcher,
    a: Digest,
    b: Digest,
    condition: SpendCondition,
    found_a: bool,
    found_b: bool,
)
    requires
        call_ensures(SigningKeyLockMatcher::matches, (&matcher, &a, &condition), found_a),
        call_ensures(SigningKeyLockMatcher::matches, (&matcher, &b, &condition), found_b),
        a.limbs@ != b.limbs@,
    ensures
        !(found_a && found_b),
{
}

/// Notes with the same first name are under the same locks.
pub proof fn law_same_first_name_has_same_locks(
    matcher: SigningKeyLockMatcher,
    a: Digest,
    b: Digest,
    condition: SpendCondition,
    found_a: bool,
    found_b: bool,
)
    requires
        call_ensures(SigningKeyLockMatcher::matches, (&matcher, &a, &condition), found_a),
        call_ensures(SigningKeyLockMatcher::matches, (&matcher, &b, &condition), found_b),
        a.limbs@ == b.limbs@,
    ensures
        found_a == found_b,
{
}

/// Without keys no lock is found.
pub proof fn law_nothing_is_found_without_keys(
    matcher: SigningKeyLockMatcher,
    note_first_name: Digest,
    condition: SpendCondition,
    found: bool,
)
    requires
        call_ensures(SigningKeyLockMatcher::default, (), matcher),
        call_ensures(
            SigningKeyLockMatcher::matches,
            (&matcher, &note_first_name, &condition),
            found,
        ),
    ensures
        !found,
{
}

/// `given[m]` is `digest`, and none before it has its limbs.
pub open spec fn first_with_limbs(given: Seq<Digest>, digest: Digest, m: int) -> bool {
    &&& 0 <= m < given.len()
    &&& given[m] == digest
    &&& forall|j: int| 0 <= j < m ==> (#[trigger] given[j]).limbs@ != digest.limbs@
}

/// The digest is the first of those given with its limbs.
pub open spec fn is_first_given(given: Seq<Digest>, digest: Digest) -> bool {
    exists|m: int| first_with_limbs(given, digest, m)
}

/// The digests that were given, each once, in the order of their limbs.
pub open spec fn digests_once(given: Seq<Digest>, kept: Seq<Digest>) -> bool {
    &&& forall|j: int| 0 <= j < given.len() ==> among(kept, (#[trigger] given[j]).limbs@)
    &&& forall|i: int|
        0 <= i < kept.len() ==> is_first_given(given, #[trigger] kept[i])
    &&& forall|i: int, j: int|
        0 <= i < j < kept.len() ==> lists::limbs_before(
            (#[trigger] kept[i]).limbs@,
            (#[trigger] kept[j]).limbs@,
        )
}

pub proof fn lemma_digests_once(given: Seq<Digest>, kept: Seq<Digest>)
    requires
        order::one_per_key(given, kept),
    ensures
        digests_once(given, kept),
        given.len() == 0 <==> kept.len() == 0,
{
    order::lemma_kept_is_empty(given, kept);
    assert forall|j: int| 0 <= j < given.len() implies among(
        kept,
        (#[trigger] given[j]).limbs@,
    ) by {
        assert(order::has_key(kept, given[j].key()));
        let i = choose|i: int| 0 <= i < kept.len() && (#[trigger] kept[i]).key() == given[j].key();
        lists::lemma_limbs_before(kept[i].limbs, given[j].limbs);
    }
    assert forall|i: int| 0 <= i < kept.len() implies is_first_given(
        given,
        #[trigger] kept[i],
    ) by {
        assert(order::is_first_of(given, kept[i]));
        let m = choose|m: int| #[trigger] order::first_with_key(given, m) && given[m] == kept[i];
        assert forall|j: int| 0 <= j < m implies (#[trigger] given[j]).limbs@
            != kept[i].limbs@ by {
            lists::lemma_limbs_before(given[j].limbs, kept[i].limbs);
        }
        assert(first_with_limbs(given, kept[i], m));
    }
    assert forall|i: int, j: int| 0 <= i < j < kept.len() implies lists::limbs_before(
        (#[trigger] kept[i]).limbs@,
        (#[trigger] kept[j]).limbs@,
    ) by {
        assert(order::lex_lt(kept[i].key(), kept[j].key()));
        lists::lemma_limbs_before(kept[i].limbs, kept[j].limbs);
    }
}

/// Signing keys are put in order, and none is lost or kept twice.
pub proof fn law_signer_keys_are_put_in_order(given: Vec<Digest>, kept: Vec<Digest>)
    requires
        call_ensures(Wallet::planner_signer_keys, (given,), kept),
    ensures
        digests_once(given@, kept@),
{
    lemma_digests_once(given@, kept@);
}

/// The signing keys that the wallet shows are used in order, each once.
pub proof fn law_shown_signing_keys_are_used(
    shown: Option<Option<Vec<Digest>>>,
    r: Result<Vec<Digest>, WalletError>,
)
    requires
        call_ensures(Wallet::signing_keys_from_peek, (Ok(shown),), r),
    ensures
        r is Ok,
        shown matches Some(Some(keys)) ==> digests_once(keys@, r->Ok_0@),
        !(shown matches Some(Some(_))) ==> r->Ok_0@.len() == 0,
{
    lemma_digests_once(signers::shown_keys(shown), r->Ok_0@);
}

/// The signing keys that the wallet shows are handed out as they are, and a look that fails is
/// reported.
pub proof fn law_shown_signing_keys_are_handed_out(
    peeked: Result<Option<Option<Vec<Digest>>>, WalletError>,
    at_path: Result<Vec<Digest>, WalletError>,
    ordered: Result<Vec<Digest>, WalletError>,
)
    requires
        call_ensures(Wallet::signing_keys_at_path_from_peek, (peeked,), at_path),
        call_ensures(Wallet::signing_keys_from_peek, (peeked,), ordered),
    ensures
        peeked matches Err(err) ==> at_path == Err::<Vec<Digest>, WalletError>(err) && ordered
            == Err::<Vec<Digest>, WalletError>(err),
        peeked matches Ok(Some(Some(keys))) ==> at_path is Ok && at_path->Ok_0@ == keys@,
        peeked is Ok && !(peeked matches Ok(Some(Some(_)))) ==> at_path is Ok
            && at_path->Ok_0@.len() == 0,
{
}

/// The signers to try are none, and then all of them in order.
pub proof fn law_candidates_are_none_and_all(given: Vec<Digest>, candidates: Vec<Option<Digest>>)
    requires
        call_ensures(Wallet::planner_signer_candidates, (given,), candidates),
    ensures
        candidates@.len() > 0,
        candidates@[0] is None,
        forall|i: int| 0 < i < candidates@.len() ==> (#[trigger] candidates@[i]) is Some,
        digests_once(
            given@,
            Seq::new((candidates@.len() - 1) as nat, |i: int| candidates@[i + 1]->Some_0),
        ),
{
    let signers = choose|signers: Seq<Digest>|
        #![trigger order::one_per_key(given@, signers)]
        order::one_per_key(given@, signers) && candidates@ == seq![None::<Digest>]
            + signers.map_values(|signer: Digest| Some(signer));
    lemma_digests_once(given@, signers);
    let tail = Seq::new((candidates@.len() - 1) as nat, |i: int| candidates@[i + 1]->Some_0);
    assert(candidates@.len() == signers.len() + 1);
    assert forall|i: int| 0 < i < candidates@.len() implies (#[trigger] candidates@[i])
        == Some(signers[i - 1]) by {}
    assert(tail =~= signers) by {
        assert forall|i: int| 0 <= i < signers.len() implies tail[i] == signers[i] by {
            assert(candidates@[i + 1] == Some(signers[i]));
        }
    }
}

} // verus!
