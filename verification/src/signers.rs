//! Signing keys, and which locks they open.

use crate::digest;
use crate::digest::Digest;
use crate::error::WalletError;
use crate::order;
use crate::order::Keyed;
use crate::wallet::Wallet;
use vstd::prelude::*;

verus! {

/// A set of digests. No digest stands in it twice, and they stand in order.
#[derive(Debug)]
pub struct DigestSet {
    limbs: Vec<[u64; 5]>,
}

impl View for DigestSet {
    type V = Set<Seq<u64>>;

    closed spec fn view(&self) -> Set<Seq<u64>> {
        Set::new(|limbs: Seq<u64>| self.limbs_contain(limbs))
    }
}

/// One of the digests has these limbs.
pub open spec fn some_digest_has(digests: Seq<Digest>, limbs: Seq<u64>) -> bool {
    exists|i: int| 0 <= i < digests.len() && (#[trigger] digests[i]).limbs@ == limbs
}

/// The limbs of the digests of a list.
pub open spec fn limbs_of(digests: Seq<Digest>) -> Set<Seq<u64>> {
    Set::new(|limbs: Seq<u64>| some_digest_has(digests, limbs))
}

impl DigestSet {
    #[verifier::type_invariant]
    spec fn in_order(self) -> bool {
        order::strictly_ascending(self.limbs@)
    }

    closed spec fn limbs_contain(self, limbs: Seq<u64>) -> bool {
        exists|i: int| 0 <= i < self.limbs@.len() && (#[trigger] self.limbs@[i])@ == limbs
    }

    /// The digests of a list as a set.
    pub fn from_digests(digests: &[Digest]) -> (collected: DigestSet)
        ensures
            collected@ == limbs_of(digests@),
    {
        let mut all: Vec<[u64; 5]> = Vec::new();
        for i in 0..digests.len()
            invariant
                all@.len() == i,
                forall|j: int| 0 <= j < i ==> #[trigger] all@[j] == digests@[j].limbs,
        {
            all.push(digests[i].to_array());
        }
        let limbs = order::keep_one_per_key(all);
        let collected = DigestSet { limbs };
        assert forall|l: Seq<u64>| #[trigger]
            collected@.contains(l) <==> limbs_of(digests@).contains(l) by {
            if collected.limbs_contain(l) {
                let i = choose|i: int|
                    0 <= i < collected.limbs@.len() && (#[trigger] collected.limbs@[i])@ == l;
                assert(order::is_first_of(all@, collected.limbs@[i]));
                let m = choose|m: int| #[trigger]
                    order::first_with_key(all@, m) && all@[m] == collected.limbs@[i];
                assert(digests@[m].limbs@ == l);
            }
            if some_digest_has(digests@, l) {
                let m = choose|m: int|
                    0 <= m < digests@.len() && (#[trigger] digests@[m]).limbs@ == l;
                assert(order::has_key(limbs@, all@[m].key()));
                let i = choose|i: int|
                    0 <= i < limbs@.len() && (#[trigger] limbs@[i]).key() == all@[m].key();
                digest::lemma_limbs_key_injective(limbs@[i], all@[m]);
                assert(collected.limbs@[i]@ == l);
            }
        }
        assert(collected@ =~= limbs_of(digests@));
        collected
    }

    pub fn contains(&self, limbs: &[u64; 5]) -> (found: bool)
        ensures
            found == self@.contains(limbs@),
    {
        proof {
            use_type_invariant(self);
        }
        let (place, found) = order::find_place(&self.limbs, limbs);
        proof {
            if found {
                digest::lemma_limbs_key_injective(self.limbs@[place as int], *limbs);
                assert(self.limbs_contain(limbs@));
            } else if self.limbs_contain(limbs@) {
                let i = choose|i: int|
                    0 <= i < self.limbs@.len() && (#[trigger] self.limbs@[i])@ == limbs@;
                digest::lemma_limbs_key_injective(self.limbs@[i], *limbs);
                if i < place {
                    order::lemma_lex_asymmetric(self.limbs@[i].key(), limbs.key());
                } else {
                    order::lemma_lex_asymmetric(limbs.key(), self.limbs@[i].key());
                }
            }
        }
        found
    }

    pub fn is_empty(&self) -> (empty: bool)
        ensures
            empty <==> self@ == Set::<Seq<u64>>::empty(),
    {
        proof {
            if self.limbs@.len() == 0 {
                assert(self@ =~= Set::<Seq<u64>>::empty());
            } else {
                assert(self.limbs_contain(self.limbs@[0]@));
                assert(self@.contains(self.limbs@[0]@));
            }
        }
        self.limbs.is_empty()
    }
}

/// A lock that opens to `m` signatures by the keys with these hashes.
#[derive(Debug)]
pub struct Pkh {
    pub m: u64,
    pub hashes: Vec<Digest>,
}

/// One condition of a lock.
#[derive(Debug)]
pub enum LockPrimitive {
    /// Signatures.
    Pkh(Pkh),
    /// A time.
    Tim,
    /// Anything else.
    Other,
}

/// The conditions under which a note can be spent, all of which must be met.
#[derive(Debug)]
pub struct SpendCondition {
    pub primitives: Vec<LockPrimitive>,
    /// The first name of the notes under these conditions, where it can be computed.
    pub first_name: Option<Digest>,
}

/// The condition asks for the one signature of a key with this hash, and for no other.
pub open spec fn single_signature(primitive: LockPrimitive, hash: Seq<u64>) -> bool {
    match primitive {
        LockPrimitive::Pkh(pkh) => {
            &&& pkh.m == 1
            &&& pkh.hashes@.len() == 1
            &&& pkh.hashes@[0].limbs@ == hash
        },
        _ => false,
    }
}

/// All that is asked for is one signature, by a key with this hash: alone, or, as for a
/// coinbase, beside a time.
pub open spec fn single_signer_lock(primitives: Seq<LockPrimitive>, hash: Seq<u64>) -> bool {
    ||| primitives.len() == 1 && single_signature(primitives[0], hash)
    ||| primitives.len() == 2 && single_signature(primitives[0], hash) && primitives[1] is Tim
    ||| primitives.len() == 2 && primitives[0] is Tim && single_signature(primitives[1], hash)
}

/// A key of this set opens the lock, and the note is one under it.
pub open spec fn lock_matches(
    signers: Set<Seq<u64>>,
    note_first_name: Digest,
    condition: SpendCondition,
) -> bool {
    &&& exists|hash: Seq<u64>|
        signers.contains(hash) && #[trigger] single_signer_lock(condition.primitives@, hash)
    &&& condition.first_name matches Some(first_name)
    &&& first_name.limbs@ == note_first_name.limbs@
}

/// Finds the locks that a locally held key opens by itself. Locks that need more than one
/// signature, or that ask for anything beyond a signature and a time, are not found.
#[derive(Debug)]
pub struct SigningKeyLockMatcher {
    signer_pkhs: DigestSet,
}

impl View for SigningKeyLockMatcher {
    type V = Set<Seq<u64>>;

    closed spec fn view(&self) -> Set<Seq<u64>> {
        self.signer_pkhs@
    }
}

impl SigningKeyLockMatcher {
    /// A matcher for these signing keys.
    pub fn from_signer_keys(signer_keys: &[Digest]) -> (matcher: SigningKeyLockMatcher)
        ensures
            matcher@ == limbs_of(signer_keys@),
    {
        SigningKeyLockMatcher { signer_pkhs: DigestSet::from_digests(signer_keys) }
    }

    /// Whether one of the keys opens the lock of a note with this first name.
    pub fn matches(&self, note_first_name: &Digest, spend_condition: &SpendCondition) -> (found: bool)
        ensures
            found == lock_matches(self@, *note_first_name, *spend_condition),
    {
        let primitives = &spend_condition.primitives;
        let mut tim_primitive_count: usize = 0;
        let mut signer_pkh_primitive: Option<usize> = None;
        let mut i: usize = 0;
        while i < primitives.len()
            invariant
                i <= primitives@.len(),
                primitives@ == spend_condition.primitives@,
                match signer_pkh_primitive {
                    None => {
                        &&& tim_primitive_count == i
                        &&& forall|j: int| 0 <= j < i ==> (#[trigger] primitives@[j]) is Tim
                    },
                    Some(k) => {
                        &&& k < i
                        &&& tim_primitive_count == i - 1
                        &&& primitives@[k as int] is Pkh
                        &&& forall|j: int|
                            0 <= j < i && j != k ==> (#[trigger] primitives@[j]) is Tim
                    },
                },
            decreases primitives.len() - i,
        {
            match &primitives[i] {
                LockPrimitive::Pkh(_) => {
                    if signer_pkh_primitive.is_some() {
                        return false;
                    }
                    signer_pkh_primitive = Some(i);
                },
                LockPrimitive::Tim => {
                    tim_primitive_count = tim_primitive_count + 1;
                },
                LockPrimitive::Other => {
                    return false;
                },
            }
            i += 1;
        }
        let k = match signer_pkh_primitive {
            None => {
                return false;
            },
            Some(k) => k,
        };
        let pkh = match &primitives[k] {
            LockPrimitive::Pkh(pkh) => pkh,
            _ => {
                return false;
            },
        };
        if pkh.m != 1 || pkh.hashes.len() != 1 {
            return false;
        }
        let hash = pkh.hashes[0].to_array();
        if !self.signer_pkhs.contains(&hash) {
            return false;
        }
        let is_simple_shape = tim_primitive_count == 0 && primitives.len() == 1;
        let is_coinbase_shape = tim_primitive_count == 1 && primitives.len() == 2;
        if !is_simple_shape && !is_coinbase_shape {
            return false;
        }
        proof {
            assert(single_signature(primitives@[k as int], hash@));
            assert(single_signer_lock(spend_condition.primitives@, hash@));
        }
        match &spend_condition.first_name {
            None => false,
            Some(first_name) => digest::same_limbs(&note_first_name.limbs, &first_name.limbs),
        }
    }
}

/// Without signing keys, no lock is found.
impl Default for SigningKeyLockMatcher {
    fn default() -> (matcher: SigningKeyLockMatcher)
        ensures
            matcher@ == Set::<Seq<u64>>::empty(),
    {
        let matcher = SigningKeyLockMatcher { signer_pkhs: DigestSet::from_digests(&[]) };
        assert(matcher@ =~= Set::<Seq<u64>>::empty());
        matcher
    }
}

/// The signing keys of the wallet that a look into its state shows, or none.
pub open spec fn shown_keys(shown: Option<Option<Vec<Digest>>>) -> Seq<Digest> {
    match shown {
        Some(Some(keys)) => keys@,
        _ => seq![],
    }
}

impl Wallet {
    /// Puts signing keys in order and drops repetitions.
    pub fn planner_signer_keys(signer_keys: Vec<Digest>) -> (r: Vec<Digest>)
        ensures
            order::one_per_key(signer_keys@, r@),
    {
        order::keep_one_per_key(signer_keys)
    }

    /// The signing keys that a look into the wallet's state shows, as it shows them, and none
    /// where it shows none.
    pub fn signing_keys_at_path_from_peek(
        peeked: Result<Option<Option<Vec<Digest>>>, WalletError>,
    ) -> (r: Result<Vec<Digest>, WalletError>)
        ensures
            match peeked {
                Err(err) => r == Err::<Vec<Digest>, WalletError>(err),
                Ok(shown) => r matches Ok(keys) && keys@ == shown_keys(shown),
            },
    {
        match peeked {
            Err(err) => Err(err),
            Ok(Some(Some(keys))) => Ok(keys),
            Ok(_) => Ok(Vec::new()),
        }
    }

    /// What a look at the signing keys in the wallet's state gives: the keys in order, each
    /// once, and none where the wallet shows none.
    pub fn signing_keys_from_peek(peeked: Result<Option<Option<Vec<Digest>>>, WalletError>) -> (r:
        Result<Vec<Digest>, WalletError>)
        ensures
            match peeked {
                Err(err) => r == Err::<Vec<Digest>, WalletError>(err),
                Ok(shown) => r matches Ok(keys) && order::one_per_key(shown_keys(shown), keys@),
            },
    {
        match Self::signing_keys_at_path_from_peek(peeked) {
            Err(err) => Err(err),
            Ok(keys) => Ok(Self::planner_signer_keys(keys)),
        }
    }

    /// The signers to try: first none, then each tracked signer once, in order.
    pub fn planner_signer_candidates(tracked_signers: Vec<Digest>) -> (candidates: Vec<
        Option<Digest>,
    >)
        ensures
            candidates@.len() > 0,
            candidates@[0] is None,
            exists|signers: Seq<Digest>|
                #![trigger order::one_per_key(tracked_signers@, signers)]
                order::one_per_key(tracked_signers@, signers) && candidates@ == seq![
                    None::<Digest>,
                ] + signers.map_values(|signer: Digest| Some(signer)),
    {
        let signers = Self::planner_signer_keys(tracked_signers);
        let ghost all = signers@;
        let mut candidates: Vec<Option<Digest>> = Vec::new();
        candidates.push(None);
        for signer in it: signers
            invariant
                it.seq() == all,
                candidates@ == seq![None::<Digest>] + all.take(it.index()).map_values(
                    |signer: Digest| Some(signer),
                ),
        {
            candidates.push(Some(signer));
            assert(all.take(it.index() + 1) =~= all.take(it.index()).push(signer));
            assert(candidates@ =~= seq![None::<Digest>] + all.take(it.index() + 1).map_values(
                |signer: Digest| Some(signer),
            ));
        }
        assert(all.take(all.len() as int) =~= all);
        candidates
    }
}

/// Only one signature, by a key of the set, and perhaps a time: a lock that needs two
/// signatures, or the signature of another key, is never found.
pub proof fn law_matched_lock_has_single_held_signer(
    signers: Set<Seq<u64>>,
    note_first_name: Digest,
    condition: SpendCondition,
)
    requires
        lock_matches(signers, note_first_name, condition),
    ensures
        condition.primitives@.len() <= 2,
        forall|i: int|
            0 <= i < condition.primitives@.len() ==> match #[trigger] condition.primitives@[i] {
                LockPrimitive::Pkh(pkh) => {
                    &&& pkh.m == 1
                    &&& pkh.hashes@.len() == 1
                    &&& signers.contains(pkh.hashes@[0].limbs@)
                },
                LockPrimitive::Tim => true,
                LockPrimitive::Other => false,
            },
{
}

/// More signing keys never hide a lock that fewer found.
pub proof fn law_more_signers_match_more(
    fewer: Set<Seq<u64>>,
    more: Set<Seq<u64>>,
    note_first_name: Digest,
    condition: SpendCondition,
)
    requires
        fewer.subset_of(more),
        lock_matches(fewer, note_first_name, condition),
    ensures
        lock_matches(more, note_first_name, condition),
{
    let hash = choose|hash: Seq<u64>|
        fewer.contains(hash) && #[trigger] single_signer_lock(condition.primitives@, hash);
    assert(more.contains(hash));
}

} // verus!
