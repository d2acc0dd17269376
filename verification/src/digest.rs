//! Digests and the note names made of them.

use crate::order;
use crate::order::{KeyOrder, Keyed};
use vstd::prelude::*;

verus! {

/// A digest: its five limbs, and the base58 text that its encoder gives for them. The limbs
/// order and identify it; the text is what is written.
#[derive(Debug, PartialEq, Eq)]
pub struct Digest {
    pub limbs: [u64; 5],
    pub base58: String,
}

/// The limbs of a digest, as the integers that order and identify it.
pub open spec fn limbs_key(limbs: [u64; 5]) -> Seq<int> {
    Seq::new(5, |i: int| limbs@[i] as int)
}

/// Compares the limbs of two digests, the first limb first.
pub fn compare_limbs(a: &[u64; 5], b: &[u64; 5]) -> (order: KeyOrder)
    ensures
        order::ordered_as(limbs_key(*a), limbs_key(*b), order),
{
    let ghost x = limbs_key(*a);
    let ghost y = limbs_key(*b);
    let mut i: usize = 0;
    while i < 5
        invariant
            i <= 5,
            x == limbs_key(*a),
            y == limbs_key(*b),
            forall|j: int| 0 <= j < i ==> x[j] == y[j],
        decreases 5 - i,
    {
        if a[i] < b[i] {
            assert(order::smaller_at(x, y, i as int));
            return KeyOrder::Less;
        }
        if b[i] < a[i] {
            assert(order::smaller_at(y, x, i as int));
            return KeyOrder::Greater;
        }
        i += 1;
    }
    assert(x =~= y);
    KeyOrder::Equal
}

/// Digests are the same when their limbs are.
pub fn same_limbs(a: &[u64; 5], b: &[u64; 5]) -> (same: bool)
    ensures
        same == (a@ == b@),
{
    proof {
        lemma_limbs_key_injective(*a, *b);
        if order::lex_lt(limbs_key(*a), limbs_key(*b)) {
            order::lemma_lex_asymmetric(limbs_key(*a), limbs_key(*b));
        }
        if order::lex_lt(limbs_key(*b), limbs_key(*a)) {
            order::lemma_lex_asymmetric(limbs_key(*b), limbs_key(*a));
        }
    }
    match compare_limbs(a, b) {
        KeyOrder::Equal => true,
        _ => false,
    }
}

pub proof fn lemma_limbs_key_injective(a: [u64; 5], b: [u64; 5])
    ensures
        limbs_key(a) == limbs_key(b) <==> a@ == b@,
{
    if limbs_key(a) == limbs_key(b) {
        assert forall|i: int| 0 <= i < 5 implies a@[i] == b@[i] by {
            assert(limbs_key(a)[i] == limbs_key(b)[i]);
        }
        assert(a@ =~= b@);
    }
}

impl Clone for Digest {
    fn clone(&self) -> (copy: Self)
        ensures
            copy == *self,
    {
        Digest { limbs: self.limbs, base58: self.base58.clone() }
    }
}

impl Digest {
    /// The limbs of the digest.
    pub fn to_array(&self) -> (limbs: [u64; 5])
        ensures
            limbs == self.limbs,
    {
        self.limbs
    }
}

impl Keyed for Digest {
    open spec fn key(&self) -> Seq<int> {
        limbs_key(self.limbs)
    }

    fn compare_key(&self, other: &Self) -> (order: KeyOrder) {
        compare_limbs(&self.limbs, &other.limbs)
    }
}

impl Keyed for [u64; 5] {
    open spec fn key(&self) -> Seq<int> {
        limbs_key(*self)
    }

    fn compare_key(&self, other: &Self) -> (order: KeyOrder) {
        compare_limbs(self, other)
    }
}

/// The name of a note: two digests.
#[derive(Debug, PartialEq, Eq)]
pub struct Name {
    pub first: Digest,
    pub last: Digest,
}

/// A note name is identified by the limbs of its two digests, and ordered by the first, then
/// by the last.
pub open spec fn name_key(name: Name) -> Seq<int> {
    limbs_key(name.first.limbs) + limbs_key(name.last.limbs)
}

/// Compares two note names.
pub fn compare_names(a: &Name, b: &Name) -> (order: KeyOrder)
    ensures
        order::ordered_as(name_key(*a), name_key(*b), order),
{
    proof {
        order::lemma_lex_parts(
            limbs_key(a.first.limbs),
            limbs_key(a.last.limbs),
            limbs_key(b.first.limbs),
            limbs_key(b.last.limbs),
        );
        order::lemma_lex_parts(
            limbs_key(b.first.limbs),
            limbs_key(b.last.limbs),
            limbs_key(a.first.limbs),
            limbs_key(a.last.limbs),
        );
    }
    match compare_limbs(&a.first.limbs, &b.first.limbs) {
        KeyOrder::Equal => compare_limbs(&a.last.limbs, &b.last.limbs),
        other => other,
    }
}

impl Name {
    pub fn new(first: Digest, last: Digest) -> (name: Name)
        ensures
            name == (Name { first, last }),
    {
        Name { first, last }
    }
}

impl Keyed for Name {
    open spec fn key(&self) -> Seq<int> {
        name_key(*self)
    }

    fn compare_key(&self, other: &Self) -> (order: KeyOrder) {
        compare_names(self, other)
    }
}

/// Note names are borrowed where they are only looked at.
impl Keyed for &Name {
    open spec fn key(&self) -> Seq<int> {
        name_key(**self)
    }

    fn compare_key(&self, other: &Self) -> (order: KeyOrder) {
        compare_names(*self, *other)
    }
}

} // verus!
