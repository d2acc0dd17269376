//! Lexicographic order on keys, and the two ways the wallet puts lists in order:
//! sorting them, and keeping one item per key.

use vstd::prelude::*;
use vstd::relations::*;
use vstd::seq_lib::*;

verus! {

/// Position `k` is where `a` and `b` first differ, and `a` is the smaller there.
/// A sequence that ends is smaller than one that goes on.
pub open spec fn smaller_at(a: Seq<int>, b: Seq<int>, k: int) -> bool {
    &&& 0 <= k <= a.len()
    &&& k < b.len()
    &&& forall|i: int| 0 <= i < k ==> a[i] == b[i]
    &&& k < a.len() ==> a[k] < b[k]
}

/// Lexicographic order on sequences of integers.
pub open spec fn lex_lt(a: Seq<int>, b: Seq<int>) -> bool {
    exists|k: int| smaller_at(a, b, k)
}

pub open spec fn lex_le(a: Seq<int>, b: Seq<int>) -> bool {
    a == b || lex_lt(a, b)
}

pub proof fn lemma_lex_asymmetric(a: Seq<int>, b: Seq<int>)
    requires
        lex_lt(a, b),
    ensures
        !lex_lt(b, a),
        a != b,
{
    let k = choose|k: int| smaller_at(a, b, k);
    if lex_lt(b, a) {
        let j = choose|j: int| smaller_at(b, a, j);
        if j < k {
            assert(a[j] == b[j]);
        } else if k < j {
            assert(b[k] == a[k]);
        }
        assert(false);
    }
}

pub proof fn lemma_lex_transitive(a: Seq<int>, b: Seq<int>, c: Seq<int>)
    requires
        lex_lt(a, b),
        lex_lt(b, c),
    ensures
        lex_lt(a, c),
{
    let k = choose|k: int| smaller_at(a, b, k);
    let j = choose|j: int| smaller_at(b, c, j);
    let m = if k < j { k } else { j };
    assert(smaller_at(a, c, m)) by {
        assert forall|i: int| 0 <= i < m implies a[i] == c[i] by {
            assert(a[i] == b[i]);
            assert(b[i] == c[i]);
        }
        if k < j {
            assert(b[k] == c[k]);
        } else if j < k {
            assert(a[j] == b[j]);
        }
    }
}

/// The first position, from `from` on, at which `a` and `b` differ or one of them ends.
proof fn lemma_first_difference(a: Seq<int>, b: Seq<int>, from: int) -> (k: int)
    requires
        0 <= from <= a.len(),
        from <= b.len(),
        forall|i: int| 0 <= i < from ==> a[i] == b[i],
    ensures
        0 <= k <= a.len(),
        k <= b.len(),
        forall|i: int| 0 <= i < k ==> a[i] == b[i],
        k == a.len() || k == b.len() || a[k] != b[k],
    decreases a.len() - from,
{
    if from == a.len() || from == b.len() || a[from] != b[from] {
        from
    } else {
        lemma_first_difference(a, b, from + 1)
    }
}

pub proof fn lemma_lex_total(a: Seq<int>, b: Seq<int>)
    ensures
        lex_lt(a, b) || a == b || lex_lt(b, a),
{
    let k = lemma_first_difference(a, b, 0);
    if k == a.len() && k == b.len() {
        assert(a =~= b);
    } else if k == a.len() || (k < b.len() && a[k] < b[k]) {
        assert(smaller_at(a, b, k));
    } else {
        assert(smaller_at(b, a, k));
    }
}

/// Two keys made of parts of one length each compare by the first part, then by the second.
pub proof fn lemma_lex_parts(a1: Seq<int>, a2: Seq<int>, b1: Seq<int>, b2: Seq<int>)
    requires
        a1.len() == b1.len(),
    ensures
        lex_lt(a1, b1) ==> lex_lt(a1 + a2, b1 + b2),
        a1 == b1 && lex_lt(a2, b2) ==> lex_lt(a1 + a2, b1 + b2),
        a1 + a2 == b1 + b2 <==> a1 == b1 && a2 == b2,
{
    let a = a1 + a2;
    let b = b1 + b2;
    if lex_lt(a1, b1) {
        let k = choose|k: int| smaller_at(a1, b1, k);
        assert(smaller_at(a, b, k));
    }
    if a1 == b1 && lex_lt(a2, b2) {
        let k = choose|k: int| smaller_at(a2, b2, k);
        assert(smaller_at(a, b, a1.len() + k));
    }
    if a == b {
        assert(a1 =~= a.subrange(0, a1.len() as int));
        assert(b1 =~= b.subrange(0, b1.len() as int));
        assert(a2 =~= a.subrange(a1.len() as int, a.len() as int));
        assert(b2 =~= b.subrange(b1.len() as int, b.len() as int));
    }
}

/// How one key stands to another.
#[derive(Clone, Copy, Debug, PartialEq, Eq, Structural)]
pub enum KeyOrder {
    Less,
    Equal,
    Greater,
}

/// The order of `a` and `b`, as a relation.
pub open spec fn ordered_as(a: Seq<int>, b: Seq<int>, order: KeyOrder) -> bool {
    match order {
        KeyOrder::Less => lex_lt(a, b),
        KeyOrder::Equal => a == b,
        KeyOrder::Greater => lex_lt(b, a),
    }
}

/// A value that is put in order by a key.
pub trait Keyed: Sized {
    /// The key, compared lexicographically.
    spec fn key(&self) -> Seq<int>;

    fn compare_key(&self, other: &Self) -> (order: KeyOrder)
        ensures
            ordered_as(self.key(), other.key(), order),
    ;
}

/// Smaller keys stand before larger ones; equal keys may stand side by side.
pub open spec fn ascending<T: Keyed>(items: Seq<T>) -> bool {
    forall|i: int, j: int|
        0 <= i < j < items.len() ==> lex_le(#[trigger] items[i].key(), #[trigger] items[j].key())
}

/// Smaller keys stand before larger ones, and no key occurs twice.
pub open spec fn strictly_ascending<T: Keyed>(items: Seq<T>) -> bool {
    forall|i: int, j: int|
        0 <= i < j < items.len() ==> lex_lt(#[trigger] items[i].key(), #[trigger] items[j].key())
}

/// `items[i]` is the first of the items with its key.
pub open spec fn first_with_key<T: Keyed>(items: Seq<T>, i: int) -> bool {
    &&& 0 <= i < items.len()
    &&& forall|j: int| 0 <= j < i ==> (#[trigger] items[j]).key() != items[i].key()
}

/// Some item has this key.
pub open spec fn has_key<T: Keyed>(items: Seq<T>, key: Seq<int>) -> bool {
    exists|i: int| 0 <= i < items.len() && (#[trigger] items[i]).key() == key
}

/// `item` is the first of the items with its key.
pub open spec fn is_first_of<T: Keyed>(items: Seq<T>, item: T) -> bool {
    exists|i: int| #[trigger] first_with_key(items, i) && items[i] == item
}

/// `kept` holds, in ascending order, the first item of each key that occurs in `items`.
pub open spec fn one_per_key<T: Keyed>(items: Seq<T>, kept: Seq<T>) -> bool {
    &&& strictly_ascending(kept)
    &&& forall|i: int| 0 <= i < kept.len() ==> is_first_of(items, #[trigger] kept[i])
    &&& forall|j: int| 0 <= j < items.len() ==> has_key(kept, (#[trigger] items[j]).key())
}

/// Where an item with this key belongs in a strictly ascending list, and whether the
/// place is already taken by an item with the same key.
pub fn find_place<T: Keyed>(items: &Vec<T>, item: &T) -> (r: (usize, bool))
    requires
        strictly_ascending(items@),
    ensures
        r.0 <= items@.len(),
        forall|i: int| 0 <= i < r.0 ==> lex_lt((#[trigger] items@[i]).key(), item.key()),
        r.1 ==> r.0 < items@.len() && items@[r.0 as int].key() == item.key(),
        !r.1 ==> forall|i: int|
            r.0 <= i < items@.len() ==> lex_lt(item.key(), (#[trigger] items@[i]).key()),
{
    let mut low: usize = 0;
    let mut high: usize = items.len();
    while low < high
        invariant
            strictly_ascending(items@),
            low <= high <= items@.len(),
            forall|i: int| 0 <= i < low ==> lex_lt((#[trigger] items@[i]).key(), item.key()),
            forall|i: int|
                high <= i < items@.len() ==> lex_lt(item.key(), (#[trigger] items@[i]).key()),
        decreases high - low,
    {
        let mid: usize = low + (high - low) / 2;
        match items[mid].compare_key(item) {
            KeyOrder::Less => {
                proof {
                    assert forall|i: int| 0 <= i < mid + 1 implies lex_lt(
                        (#[trigger] items@[i]).key(),
                        item.key(),
                    ) by {
                        if low <= i < mid {
                            lemma_lex_transitive(
                                items@[i].key(),
                                items@[mid as int].key(),
                                item.key(),
                            );
                        }
                    }
                }
                low = mid + 1;
            },
            KeyOrder::Equal => {
                return (mid, true);
            },
            KeyOrder::Greater => {
                proof {
                    assert forall|i: int| mid <= i < items@.len() implies lex_lt(
                        item.key(),
                        (#[trigger] items@[i]).key(),
                    ) by {
                        if mid < i {
                            lemma_lex_transitive(
                                item.key(),
                                items@[mid as int].key(),
                                items@[i].key(),
                            );
                        }
                    }
                }
                high = mid;
            },
        }
    }
    (low, false)
}

/// Keeps the first item of each key, and puts what is kept in ascending order.
pub fn keep_one_per_key<T: Keyed>(items: Vec<T>) -> (kept: Vec<T>)
    ensures
        one_per_key(items@, kept@),
{
    let mut kept: Vec<T> = Vec::new();
    let ghost all = items@;
    for item in it: items
        invariant
            it.seq() == all,
            0 <= it.index() <= all.len(),
            one_per_key(all.take(it.index()), kept@),
    {
        let ghost seen = all.take(it.index());
        let ghost now = all.take(it.index() + 1);
        let ghost before = kept@;
        assert(now =~= seen.push(item));
        let (place, taken) = find_place(&kept, &item);
        proof {
            if taken {
                lemma_one_per_key_repeat(seen, item, before, place as int);
            } else {
                lemma_one_per_key_new(seen, item, before, place as int);
            }
        }
        if !taken {
            kept.insert(place, item);
        }
    }
    assert(all.take(all.len() as int) =~= all);
    kept
}

/// A first item stays the first of its key when another item is appended.
proof fn lemma_first_stays<T: Keyed>(seen: Seq<T>, item: T, first: T)
    requires
        is_first_of(seen, first),
    ensures
        is_first_of(seen.push(item), first),
{
    let i = choose|i: int| #[trigger] first_with_key(seen, i) && seen[i] == first;
    assert(first_with_key(seen.push(item), i)) by {
        assert forall|j: int| 0 <= j < i implies (#[trigger] seen.push(item)[j]).key()
            != seen.push(item)[i].key() by {
            assert(seen[j].key() != seen[i].key());
        }
    }
}

proof fn lemma_one_per_key_repeat<T: Keyed>(seen: Seq<T>, item: T, kept: Seq<T>, place: int)
    requires
        one_per_key(seen, kept),
        0 <= place < kept.len(),
        kept[place].key() == item.key(),
    ensures
        one_per_key(seen.push(item), kept),
{
    let now = seen.push(item);
    assert forall|i: int| 0 <= i < kept.len() implies is_first_of(now, #[trigger] kept[i]) by {
        lemma_first_stays(seen, item, kept[i]);
    }
    assert forall|j: int| 0 <= j < now.len() implies has_key(kept, (#[trigger] now[j]).key()) by {
        if j < seen.len() {
            assert(now[j] == seen[j]);
        } else {
            assert(kept[place].key() == now[j].key());
        }
    }
}

proof fn lemma_one_per_key_new<T: Keyed>(seen: Seq<T>, item: T, kept: Seq<T>, place: int)
    requires
        one_per_key(seen, kept),
        0 <= place <= kept.len(),
        forall|i: int| 0 <= i < place ==> lex_lt((#[trigger] kept[i]).key(), item.key()),
        forall|i: int| place <= i < kept.len() ==> lex_lt(item.key(), (#[trigger] kept[i]).key()),
    ensures
        one_per_key(seen.push(item), kept.insert(place, item)),
{
    let now = seen.push(item);
    let grown = kept.insert(place, item);
    assert forall|i: int, j: int| 0 <= i < j < grown.len() implies lex_lt(
        #[trigger] grown[i].key(),
        #[trigger] grown[j].key(),
    ) by {
        if i < place {
            assert(grown[i] == kept[i]);
        } else if i > place {
            assert(grown[i] == kept[i - 1]);
        }
        if j < place {
            assert(grown[j] == kept[j]);
        } else if j > place {
            assert(grown[j] == kept[j - 1]);
        }
    }
    assert(first_with_key(now, seen.len() as int)) by {
        assert forall|j: int| 0 <= j < seen.len() implies (#[trigger] now[j]).key()
            != now[seen.len() as int].key() by {
            assert(has_key(kept, seen[j].key()));
            let i = choose|i: int|
                0 <= i < kept.len() && (#[trigger] kept[i]).key() == seen[j].key();
            if i < place {
                lemma_lex_asymmetric(kept[i].key(), item.key());
            } else {
                lemma_lex_asymmetric(item.key(), kept[i].key());
            }
        }
    }
    assert forall|i: int| 0 <= i < grown.len() implies is_first_of(now, #[trigger] grown[i]) by {
        if i < place {
            lemma_first_stays(seen, item, kept[i]);
        } else if i > place {
            lemma_first_stays(seen, item, kept[i - 1]);
        } else {
            assert(first_with_key(now, seen.len() as int));
        }
    }
    assert forall|j: int| 0 <= j < now.len() implies has_key(grown, (#[trigger] now[j]).key()) by {
        if j < seen.len() {
            assert(has_key(kept, seen[j].key()));
            let i = choose|i: int|
                0 <= i < kept.len() && (#[trigger] kept[i]).key() == seen[j].key();
            if i < place {
                assert(grown[i] == kept[i]);
            } else {
                assert(grown[i + 1] == kept[i]);
            }
        } else {
            assert(grown[place].key() == now[j].key());
        }
    }
}

/// The keys of a list, in its order.
pub open spec fn keys<T: Keyed>(items: Seq<T>) -> Seq<Seq<int>> {
    items.map_values(|item: T| item.key())
}

/// The position behind the last item whose key is not larger than that of `item`.
fn place_after<T: Keyed>(items: &Vec<T>, item: &T) -> (place: usize)
    requires
        ascending(items@),
    ensures
        place <= items@.len(),
        forall|i: int| 0 <= i < place ==> lex_le((#[trigger] items@[i]).key(), item.key()),
        forall|i: int|
            place <= i < items@.len() ==> lex_lt(item.key(), (#[trigger] items@[i]).key()),
{
    let mut low: usize = 0;
    let mut high: usize = items.len();
    while low < high
        invariant
            ascending(items@),
            low <= high <= items@.len(),
            forall|i: int| 0 <= i < low ==> lex_le((#[trigger] items@[i]).key(), item.key()),
            forall|i: int|
                high <= i < items@.len() ==> lex_lt(item.key(), (#[trigger] items@[i]).key()),
        decreases high - low,
    {
        let mid: usize = low + (high - low) / 2;
        match items[mid].compare_key(item) {
            KeyOrder::Greater => {
                proof {
                    assert forall|i: int| mid <= i < items@.len() implies lex_lt(
                        item.key(),
                        (#[trigger] items@[i]).key(),
                    ) by {
                        if mid < i {
                            lemma_lex_mixed(item.key(), items@[mid as int].key(), items@[i].key());
                        }
                    }
                }
                high = mid;
            },
            _ => {
                proof {
                    assert forall|i: int| 0 <= i < mid + 1 implies lex_le(
                        (#[trigger] items@[i]).key(),
                        item.key(),
                    ) by {
                        if i < mid {
                            lemma_lex_le_transitive(
                                items@[i].key(),
                                items@[mid as int].key(),
                                item.key(),
                            );
                        }
                    }
                }
                low = mid + 1;
            },
        }
    }
    low
}

proof fn lemma_lex_mixed(a: Seq<int>, b: Seq<int>, c: Seq<int>)
    requires
        lex_lt(a, b),
        lex_le(b, c),
    ensures
        lex_lt(a, c),
{
    if b != c {
        lemma_lex_transitive(a, b, c);
    }
}

proof fn lemma_lex_le_transitive(a: Seq<int>, b: Seq<int>, c: Seq<int>)
    requires
        lex_le(a, b),
        lex_le(b, c),
    ensures
        lex_le(a, c),
{
    if a != b && b != c {
        lemma_lex_transitive(a, b, c);
    }
}

/// Sorts by key.
pub fn sort_by_key<T: Keyed>(items: Vec<T>) -> (sorted: Vec<T>)
    ensures
        ascending(sorted@),
        sorted@.to_multiset() == items@.to_multiset(),
        keys(sorted@).to_multiset() == keys(items@).to_multiset(),
        sorted@.len() == items@.len(),
{
    let mut sorted: Vec<T> = Vec::new();
    let ghost all = items@;
    assert(keys(sorted@) =~= keys(all.take(0)));
    assert(sorted@ =~= all.take(0));
    for item in it: items
        invariant
            it.seq() == all,
            0 <= it.index() <= all.len(),
            sorted@.len() == it.index(),
            ascending(sorted@),
            sorted@.to_multiset() == all.take(it.index()).to_multiset(),
            keys(sorted@).to_multiset() == keys(all.take(it.index())).to_multiset(),
    {
        let ghost before = sorted@;
        let ghost seen = all.take(it.index());
        let place = place_after(&sorted, &item);
        let ghost key = item.key();
        sorted.insert(place, item);
        proof {
            assert forall|i: int, j: int| 0 <= i < j < sorted@.len() implies lex_le(
                #[trigger] sorted@[i].key(),
                #[trigger] sorted@[j].key(),
            ) by {
                if i < place {
                    assert(sorted@[i] == before[i]);
                } else if i > place {
                    assert(sorted@[i] == before[i - 1]);
                }
                if j < place {
                    assert(sorted@[j] == before[j]);
                } else if j > place {
                    assert(sorted@[j] == before[j - 1]);
                }
            }
            assert(all.take(it.index() + 1) =~= seen.push(item));
            assert(keys(seen.push(item)) =~= keys(seen).push(key));
            assert(keys(sorted@) =~= keys(before).insert(place as int, key));
            to_multiset_build(seen, item);
            to_multiset_insert(before, place as int, item);
            to_multiset_build(keys(seen), key);
            to_multiset_insert(keys(before), place as int, key);
        }
    }
    assert(all.take(all.len() as int) =~= all);
    sorted
}

proof fn lemma_lex_le_total_ordering()
    ensures
        total_ordering(|a: Seq<int>, b: Seq<int>| lex_le(a, b)),
{
    let le = |a: Seq<int>, b: Seq<int>| lex_le(a, b);
    assert forall|a: Seq<int>, b: Seq<int>| #[trigger] le(a, b) && #[trigger] le(b, a) implies a
        == b by {
        if a != b {
            lemma_lex_asymmetric(a, b);
        }
    }
    assert forall|a: Seq<int>, b: Seq<int>, c: Seq<int>| #[trigger]
        le(a, b) && #[trigger] le(b, c) implies le(a, c) by {
        lemma_lex_le_transitive(a, b, c);
    }
    assert forall|a: Seq<int>, b: Seq<int>| #[trigger] le(a, b) || #[trigger] le(b, a) by {
        lemma_lex_total(a, b);
    }
}

/// Two ascending lists hold the same keys, each as often, exactly when they agree position
/// by position.
pub proof fn lemma_ascending_same_keys<T: Keyed>(a: Seq<T>, b: Seq<T>)
    requires
        ascending(a),
        ascending(b),
    ensures
        keys(a) == keys(b) <==> keys(a).to_multiset() == keys(b).to_multiset(),
{
    let le = |x: Seq<int>, y: Seq<int>| lex_le(x, y);
    lemma_lex_le_total_ordering();
    assert(sorted_by(keys(a), le));
    assert(sorted_by(keys(b), le));
    if keys(a).to_multiset() == keys(b).to_multiset() {
        lemma_sorted_unique(keys(a), keys(b), le);
    }
}

/// Lists with the same keys, in whatever order and however often, keep the same keys.
pub proof fn law_one_per_key_depends_on_keys<T: Keyed>(
    items_a: Seq<T>,
    items_b: Seq<T>,
    a: Seq<T>,
    b: Seq<T>,
)
    requires
        one_per_key(items_a, a),
        one_per_key(items_b, b),
        forall|k: Seq<int>| has_key(items_a, k) <==> has_key(items_b, k),
    ensures
        keys(a) == keys(b),
{
    lemma_strict_keys_are_distinct(a);
    lemma_strict_keys_are_distinct(b);
    assert forall|k: Seq<int>| keys(a).contains(k) <==> keys(b).contains(k) by {
        lemma_kept_keys_occur(items_a, a, k);
        lemma_kept_keys_occur(items_b, b, k);
        assert(has_key(items_a, k) <==> has_key(items_b, k));
    }
    keys(a).lemma_multiset_has_no_duplicates();
    keys(b).lemma_multiset_has_no_duplicates();
    assert(keys(a).to_multiset() =~= keys(b).to_multiset()) by {
        broadcast use group_to_multiset_ensures;

        assert forall|k: Seq<int>| keys(a).to_multiset().count(k) == keys(b).to_multiset().count(
            k,
        ) by {
            assert(keys(a).to_multiset().contains(k) <==> keys(b).to_multiset().contains(k));
        }
    }
    lemma_ascending_same_keys(a, b);
}

/// Nothing is kept only of an empty list.
pub proof fn lemma_kept_is_empty<T: Keyed>(items: Seq<T>, kept: Seq<T>)
    requires
        one_per_key(items, kept),
    ensures
        kept.len() == 0 <==> items.len() == 0,
{
    if items.len() > 0 {
        assert(has_key(kept, items[0].key()));
    }
    if kept.len() > 0 {
        assert(is_first_of(items, kept[0]));
    }
}

/// The keys that are kept are the keys that occur.
pub proof fn lemma_kept_keys_occur<T: Keyed>(items: Seq<T>, kept: Seq<T>, k: Seq<int>)
    requires
        one_per_key(items, kept),
    ensures
        keys(kept).contains(k) <==> has_key(items, k),
        has_key(kept, k) <==> has_key(items, k),
{
    if keys(kept).contains(k) {
        let i = choose|i: int| 0 <= i < keys(kept).len() && keys(kept)[i] == k;
        assert(kept[i].key() == k);
        assert(has_key(kept, k));
    }
    if has_key(kept, k) {
        let i = choose|i: int| 0 <= i < kept.len() && (#[trigger] kept[i]).key() == k;
        assert(keys(kept)[i] == k);
        assert(is_first_of(items, kept[i]));
        let m = choose|m: int| #[trigger] first_with_key(items, m) && items[m] == kept[i];
        assert(items[m].key() == k);
    }
    if has_key(items, k) {
        let j = choose|j: int| 0 <= j < items.len() && (#[trigger] items[j]).key() == k;
        assert(has_key(kept, items[j].key()));
        let i = choose|i: int| 0 <= i < kept.len() && (#[trigger] kept[i]).key() == k;
        assert(keys(kept)[i] == k);
    }
}

/// What keeping one item per key gives is determined by the list it is taken from.
pub proof fn law_one_per_key_is_unique<T: Keyed>(items: Seq<T>, a: Seq<T>, b: Seq<T>)
    requires
        one_per_key(items, a),
        one_per_key(items, b),
    ensures
        a == b,
{
    law_one_per_key_depends_on_keys(items, items, a, b);
    assert(keys(a).len() == a.len());
    assert(keys(b).len() == b.len());
    assert forall|i: int| 0 <= i < a.len() implies a[i] == b[i] by {
        assert(keys(a)[i] == keys(b)[i]);
        assert(is_first_of(items, a[i]));
        assert(is_first_of(items, b[i]));
        let m = choose|m: int| #[trigger] first_with_key(items, m) && items[m] == a[i];
        let n = choose|n: int| #[trigger] first_with_key(items, n) && items[n] == b[i];
        if m < n {
            assert(items[m].key() != items[n].key());
        } else if n < m {
            assert(items[n].key() != items[m].key());
        }
    }
    assert(a =~= b);
}

proof fn lemma_strict_keys_are_distinct<T: Keyed>(a: Seq<T>)
    requires
        strictly_ascending(a),
    ensures
        ascending(a),
        keys(a).no_duplicates(),
{
    assert forall|i: int, j: int|
        0 <= i < keys(a).len() && 0 <= j < keys(a).len() && i != j implies keys(a)[i]
        != keys(a)[j] by {
        if i < j {
            assert(lex_lt(a[i].key(), a[j].key()));
            lemma_lex_asymmetric(a[i].key(), a[j].key());
        } else {
            assert(lex_lt(a[j].key(), a[i].key()));
            lemma_lex_asymmetric(a[j].key(), a[i].key());
        }
    }
}

/// Keeping one item per key of a list that is already so kept changes nothing.
pub proof fn law_one_per_key_is_idempotent<T: Keyed>(items: Seq<T>, once: Seq<T>, twice: Seq<T>)
    requires
        one_per_key(items, once),
        one_per_key(once, twice),
    ensures
        twice == once,
{
    lemma_strictly_ascending_is_kept(once);
    law_one_per_key_is_unique(once, once, twice);
}

/// A strictly ascending list is what is kept of itself.
pub proof fn lemma_strictly_ascending_is_kept<T: Keyed>(items: Seq<T>)
    requires
        strictly_ascending(items),
    ensures
        one_per_key(items, items),
{
    assert forall|i: int| 0 <= i < items.len() implies is_first_of(items, #[trigger] items[i]) by {
        assert(first_with_key(items, i)) by {
            assert forall|j: int| 0 <= j < i implies (#[trigger] items[j]).key()
                != items[i].key() by {
                lemma_lex_asymmetric(items[j].key(), items[i].key());
            }
        }
    }
}

} // verus!
