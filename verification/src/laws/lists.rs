//! Order, and lists that keep each thing once.

use crate::digest;
use crate::digest::{Digest, Name};
use crate::order;
use crate::order::{KeyOrder, Keyed};
use crate::signers::DigestSet;
use crate::text;
use vstd::prelude::*;
use vstd::utf8::*;

verus! {

/// At place `k` the limbs differ for the first time, and there the first are smaller.
pub open spec fn limb_smaller_at(a: Seq<u64>, b: Seq<u64>, k: int) -> bool {
    &&& 0 <= k < 5
    &&& a.take(k) == b.take(k)
    &&& a[k] < b[k]
}

/// The first limbs that differ decide.
pub open spec fn limbs_before(a: Seq<u64>, b: Seq<u64>) -> bool {
    exists|k: int| limb_smaller_at(a, b, k)
}

/// The first digests decide, and where they are the same, the last do.
pub open spec fn name_before(a: Name, b: Name) -> bool {
    ||| limbs_before(a.first.limbs@, b.first.limbs@)
    ||| a.first.limbs@ == b.first.limbs@ && limbs_before(a.last.limbs@, b.last.limbs@)
}

/// Note names with the same limbs.
pub open spec fn same_name(a: Name, b: Name) -> bool {
    a.first.limbs@ == b.first.limbs@ && a.last.limbs@ == b.last.limbs@
}

/// At place `k` the bytes differ for the first time, and there the first have ended or are
/// smaller.
pub open spec fn byte_smaller_at(a: Seq<u8>, b: Seq<u8>, k: int) -> bool {
    &&& 0 <= k <= a.len()
    &&& k < b.len()
    &&& a.take(k) == b.take(k)
    &&& k == a.len() || a[k] < b[k]
}

/// The first bytes that differ decide.
pub open spec fn text_before(a: Seq<char>, b: Seq<char>) -> bool {
    exists|k: int| byte_smaller_at(encode_utf8(a), encode_utf8(b), k)
}

/// The heads decide, and where they are the same, the rests do.
pub open spec fn comes_before(a: Seq<int>, b: Seq<int>) -> bool
    decreases a.len(),
{
    if b.len() == 0 {
        false
    } else if a.len() == 0 {
        true
    } else if a[0] != b[0] {
        a[0] < b[0]
    } else {
        comes_before(a.drop_first(), b.drop_first())
    }
}

pub proof fn lemma_comes_before(a: Seq<int>, b: Seq<int>)
    ensures
        order::lex_lt(a, b) <==> comes_before(a, b),
    decreases a.len(),
{
    if b.len() == 0 {
    } else if a.len() == 0 {
        assert(order::smaller_at(a, b, 0));
    } else if a[0] != b[0] {
        if a[0] < b[0] {
            assert(order::smaller_at(a, b, 0));
        } else if order::lex_lt(a, b) {
            let k = choose|k: int| order::smaller_at(a, b, k);
            assert(k == 0);
        }
    } else {
        let x = a.drop_first();
        let y = b.drop_first();
        lemma_comes_before(x, y);
        if order::lex_lt(a, b) {
            let k = choose|k: int| order::smaller_at(a, b, k);
            assert(k > 0);
            assert forall|i: int| 0 <= i < k - 1 implies x[i] == y[i] by {
                assert(a[i + 1] == b[i + 1]);
            }
            assert(order::smaller_at(x, y, k - 1));
        }
        if order::lex_lt(x, y) {
            let k = choose|k: int| order::smaller_at(x, y, k);
            assert forall|i: int| 0 <= i < k + 1 implies a[i] == b[i] by {
                if i > 0 {
                    assert(x[i - 1] == y[i - 1]);
                }
            }
            assert(order::smaller_at(a, b, k + 1));
        }
    }
}

pub proof fn lemma_limbs_before(a: [u64; 5], b: [u64; 5])
    ensures
        order::lex_lt(digest::limbs_key(a), digest::limbs_key(b)) <==> limbs_before(a@, b@),
        digest::limbs_key(a) == digest::limbs_key(b) <==> a@ == b@,
{
    let x = digest::limbs_key(a);
    let y = digest::limbs_key(b);
    digest::lemma_limbs_key_injective(a, b);
    if order::lex_lt(x, y) {
        let k = choose|k: int| order::smaller_at(x, y, k);
        assert forall|i: int| 0 <= i < k implies a@[i] == b@[i] by {
            assert(x[i] == y[i]);
        }
        assert(a@.take(k) =~= b@.take(k));
        assert(limb_smaller_at(a@, b@, k));
    }
    if limbs_before(a@, b@) {
        let k = choose|k: int| limb_smaller_at(a@, b@, k);
        assert forall|i: int| 0 <= i < k implies x[i] == y[i] by {
            assert(a@.take(k)[i] == b@.take(k)[i]);
        }
        assert(order::smaller_at(x, y, k));
    }
}

pub proof fn lemma_name_before(a: Name, b: Name)
    ensures
        order::lex_lt(digest::name_key(a), digest::name_key(b)) <==> name_before(a, b),
        digest::name_key(a) == digest::name_key(b) <==> same_name(a, b),
{
    let a1 = digest::limbs_key(a.first.limbs);
    let a2 = digest::limbs_key(a.last.limbs);
    let b1 = digest::limbs_key(b.first.limbs);
    let b2 = digest::limbs_key(b.last.limbs);
    lemma_limbs_before(a.first.limbs, b.first.limbs);
    lemma_limbs_before(a.last.limbs, b.last.limbs);
    lemma_limbs_before(b.first.limbs, a.first.limbs);
    lemma_limbs_before(b.last.limbs, a.last.limbs);
    order::lemma_lex_parts(a1, a2, b1, b2);
    order::lemma_lex_parts(b1, b2, a1, a2);
    order::lemma_lex_total(a1, b1);
    order::lemma_lex_total(a2, b2);
    if order::lex_lt(a1 + a2, b1 + b2) {
        order::lemma_lex_asymmetric(a1 + a2, b1 + b2);
    }
}

pub proof fn lemma_text_before(a: Seq<char>, b: Seq<char>)
    ensures
        order::lex_lt(text::text_key(a), text::text_key(b)) <==> text_before(a, b),
        text::text_key(a) == text::text_key(b) <==> a == b,
{
    let x = text::text_key(a);
    let y = text::text_key(b);
    let p = encode_utf8(a);
    let q = encode_utf8(b);
    if x == y {
        text::law_text_key_is_injective(a, b);
    }
    assert(x.len() == p.len() && y.len() == q.len());
    if order::lex_lt(x, y) {
        let k = choose|k: int| order::smaller_at(x, y, k);
        assert forall|i: int| 0 <= i < k implies p[i] == q[i] by {
            assert(x[i] == y[i]);
        }
        assert(p.take(k) =~= q.take(k));
        assert(byte_smaller_at(p, q, k));
    }
    if text_before(a, b) {
        let k = choose|k: int| byte_smaller_at(p, q, k);
        assert forall|i: int| 0 <= i < k implies x[i] == y[i] by {
            assert(p.take(k)[i] == q.take(k)[i]);
        }
        assert(order::smaller_at(x, y, k));
    }
}

/// Limbs are compared from the first on.
pub proof fn law_limbs_are_compared(a: [u64; 5], b: [u64; 5], found: KeyOrder)
    requires
        call_ensures(digest::compare_limbs, (&a, &b), found),
    ensures
        found == KeyOrder::Less <==> limbs_before(a@, b@),
        found == KeyOrder::Equal <==> a@ == b@,
        found == KeyOrder::Greater <==> limbs_before(b@, a@),
{
    lemma_limbs_before(a, b);
    lemma_limbs_before(b, a);
    lemma_one_way(digest::limbs_key(a), digest::limbs_key(b));
}

/// Of two keys at most one comes before the other, and none before itself.
proof fn lemma_one_way(a: Seq<int>, b: Seq<int>)
    ensures
        order::lex_lt(a, b) ==> !order::lex_lt(b, a) && a != b,
        order::lex_lt(b, a) ==> !order::lex_lt(a, b) && a != b,
{
    if order::lex_lt(a, b) {
        order::lemma_lex_asymmetric(a, b);
    }
    if order::lex_lt(b, a) {
        order::lemma_lex_asymmetric(b, a);
    }
}

/// Digests are the same when all their limbs are.
pub proof fn law_same_limbs(a: [u64; 5], b: [u64; 5], same: bool)
    requires
        call_ensures(digest::same_limbs, (&a, &b), same),
    ensures
        same <==> a@ == b@,
{
}

/// Note names are compared by the first digest, then by the last.
pub proof fn law_names_are_compared(a: Name, b: Name, found: KeyOrder)
    requires
        call_ensures(digest::compare_names, (&a, &b), found),
    ensures
        found == KeyOrder::Less <==> name_before(a, b),
        found == KeyOrder::Equal <==> same_name(a, b),
        found == KeyOrder::Greater <==> name_before(b, a),
{
    lemma_name_before(a, b);
    lemma_name_before(b, a);
    lemma_one_way(digest::name_key(a), digest::name_key(b));
}

/// Texts are compared byte by byte.
pub proof fn law_texts_are_compared(a: String, b: String, found: KeyOrder)
    requires
        order::ordered_as(a.key(), b.key(), found),
    ensures
        found == KeyOrder::Less <==> text_before(a@, b@),
        found == KeyOrder::Equal <==> a@ == b@,
        found == KeyOrder::Greater <==> text_before(b@, a@),
{
    lemma_text_before(a@, b@);
    lemma_text_before(b@, a@);
    lemma_one_way(a.key(), b.key());
}

/// `items[m]` is `item`, and no item before it has its key.
pub open spec fn earliest<T: Keyed>(items: Seq<T>, item: T, m: int) -> bool {
    &&& 0 <= m < items.len()
    &&& items[m] == item
    &&& forall|j: int| 0 <= j < m ==> (#[trigger] items[j]).key() != item.key()
}

/// `item` is the first of the items with its key.
pub open spec fn is_earliest<T: Keyed>(items: Seq<T>, item: T) -> bool {
    exists|m: int| earliest(items, item, m)
}

/// Some item has this key.
pub open spec fn occurs<T: Keyed>(items: Seq<T>, key: Seq<int>) -> bool {
    exists|i: int| 0 <= i < items.len() && (#[trigger] items[i]).key() == key
}

/// What is kept of a list are the first items of their keys, a key for every key that the list
/// has, each once and in order.
pub open spec fn keeps_each_once<T: Keyed>(items: Seq<T>, kept: Seq<T>) -> bool {
    &&& forall|i: int|
        0 <= i < kept.len() ==> is_earliest(items, #[trigger] kept[i])
    &&& forall|j: int|
        0 <= j < items.len() ==> occurs(kept, (#[trigger] items[j]).key())
    &&& forall|i: int, j: int|
        0 <= i < j < kept.len() ==> comes_before(
            (#[trigger] kept[i]).key(),
            (#[trigger] kept[j]).key(),
        ) && kept[i].key() != kept[j].key()
}

pub proof fn lemma_keeps_each_once<T: Keyed>(items: Seq<T>, kept: Seq<T>)
    requires
        order::one_per_key(items, kept),
    ensures
        keeps_each_once(items, kept),
{
    assert forall|i: int| 0 <= i < kept.len() implies is_earliest(items, #[trigger] kept[i]) by {
        assert(order::is_first_of(items, kept[i]));
        let m = choose|m: int| #[trigger] order::first_with_key(items, m) && items[m] == kept[i];
        assert(earliest(items, kept[i], m));
    }
    assert forall|j: int| 0 <= j < items.len() implies occurs(
        kept,
        (#[trigger] items[j]).key(),
    ) by {
        assert(order::has_key(kept, items[j].key()));
    }
    assert forall|i: int, j: int| 0 <= i < j < kept.len() implies comes_before(
        (#[trigger] kept[i]).key(),
        (#[trigger] kept[j]).key(),
    ) && kept[i].key() != kept[j].key() by {
        assert(order::lex_lt(kept[i].key(), kept[j].key()));
        lemma_comes_before(kept[i].key(), kept[j].key());
        order::lemma_lex_asymmetric(kept[i].key(), kept[j].key());
    }
}

/// Keeping one item for each key loses no key, keeps the first item of each, and puts what is
/// kept in order.
pub proof fn law_each_key_is_kept_once<T: Keyed>(items: Vec<T>, kept: Vec<T>)
    requires
        call_ensures(order::keep_one_per_key::<T>, (items,), kept),
    ensures
        keeps_each_once(items@, kept@),
{
    lemma_keeps_each_once(items@, kept@);
}

/// Sorting keeps all items, each as often, and puts them in order.
pub proof fn law_sorting_keeps_items<T: Keyed>(items: Vec<T>, sorted: Vec<T>)
    requires
        call_ensures(order::sort_by_key::<T>, (items,), sorted),
    ensures
        sorted@.to_multiset() == items@.to_multiset(),
        forall|i: int, j: int|
            0 <= i < j < sorted@.len() ==> !comes_before(
                (#[trigger] sorted@[j]).key(),
                (#[trigger] sorted@[i]).key(),
            ),
{
    assert forall|i: int, j: int| 0 <= i < j < sorted@.len() implies !comes_before(
        (#[trigger] sorted@[j]).key(),
        (#[trigger] sorted@[i]).key(),
    ) by {
        let a = sorted@[i].key();
        let b = sorted@[j].key();
        assert(order::lex_le(a, b));
        lemma_comes_before(b, a);
        lemma_one_way(a, b);
    }
}

/// A set holds the digests that it was made of, and no others.
pub proof fn law_set_holds_its_digests(
    digests: &[Digest],
    collected: DigestSet,
    limbs: [u64; 5],
    found: bool,
)
    requires
        call_ensures(DigestSet::from_digests, (digests,), collected),
        call_ensures(DigestSet::contains, (&collected, &limbs), found),
    ensures
        found <==> exists|i: int|
            0 <= i < digests@.len() && (#[trigger] digests@[i]).limbs@ == limbs@,
{
}

/// A set is empty when it was made of nothing.
pub proof fn law_set_of_nothing_is_empty(digests: &[Digest], collected: DigestSet, empty: bool)
    requires
        call_ensures(DigestSet::from_digests, (digests,), collected),
        call_ensures(DigestSet::is_empty, (&collected,), empty),
    ensures
        empty <==> digests@.len() == 0,
{
    if digests@.len() > 0 {
        assert(collected@.contains(digests@[0].limbs@));
    } else {
        assert(collected@ =~= Set::<Seq<u64>>::empty());
    }
}

} // verus!
