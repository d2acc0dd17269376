//! Nouns, and numbers in decimal.

use crate::noun;
use crate::noun::{Noun, NounDecodeError, NounView};
use crate::text;
use vstd::arithmetic::power::*;
use vstd::prelude::*;
use vstd::utf8::*;

verus! {

/// The sum of the bytes, each by its place: the last byte weighs the most.
pub open spec fn bytes_number(bytes: Seq<u8>) -> int
    decreases bytes.len(),
{
    if bytes.len() == 0 {
        0
    } else {
        bytes_number(bytes.drop_last()) + bytes.last() * pow(256, (bytes.len() - 1) as nat)
    }
}

/// The noun is the atom of this text.
pub open spec fn is_text(noun: NounView, text: Seq<char>) -> bool {
    &&& noun matches NounView::Atom(n)
    &&& n == bytes_number(encode_utf8(text))
}

/// The noun is the list of these: one cell for each, and zero at the end.
pub open spec fn is_list(noun: NounView, items: Seq<NounView>) -> bool
    decreases items.len(),
{
    if items.len() == 0 {
        noun == NounView::Atom(0)
    } else {
        match noun {
            NounView::Atom(_) => false,
            NounView::Cell(head, tail) => *head == items[0] && is_list(*tail, items.drop_first()),
        }
    }
}

/// The noun is the tuple of these: one cell for each but the last.
pub open spec fn is_tuple(noun: NounView, fields: Seq<NounView>) -> bool
    decreases fields.len(),
{
    if fields.len() == 0 {
        false
    } else if fields.len() == 1 {
        noun == fields[0]
    } else {
        match noun {
            NounView::Atom(_) => false,
            NounView::Cell(head, tail) => *head == fields[0] && is_tuple(
                *tail,
                fields.drop_first(),
            ),
        }
    }
}

proof fn lemma_shift(bytes: Seq<u8>)
    requires
        bytes.len() > 0,
    ensures
        bytes_number(bytes) == bytes[0] + 256 * bytes_number(bytes.drop_first()),
    decreases bytes.len(),
{
    let n = bytes.len();
    let rest = bytes.drop_first();
    if n == 1 {
        lemma_pow0(256);
        assert(bytes.drop_last() =~= seq![]);
        assert(rest =~= seq![]);
    } else {
        lemma_shift(bytes.drop_last());
        assert(bytes.drop_last().drop_first() =~= rest.drop_last());
        assert(bytes.drop_last()[0] == bytes[0]);
        assert(rest.last() == bytes.last());
        let p = pow(256, (n - 2) as nat);
        assert(pow(256, (n - 1) as nat) == 256 * p) by {
            reveal(pow);
        }
        let last = bytes.last() as int;
        assert(last * (256 * p) == 256 * (last * p)) by (nonlinear_arith);
        assert(bytes_number(rest) == bytes_number(rest.drop_last()) + last * p);
    }
}

pub proof fn lemma_bytes_number(bytes: Seq<u8>)
    ensures
        noun::le_value(bytes) == bytes_number(bytes),
    decreases bytes.len(),
{
    if bytes.len() > 0 {
        lemma_shift(bytes);
        lemma_bytes_number(bytes.drop_first());
    }
}

pub proof fn lemma_is_text(text: Seq<char>)
    ensures
        is_text(noun::cord_tree(text), text),
{
    lemma_bytes_number(encode_utf8(text));
}

pub proof fn lemma_is_list(items: Seq<NounView>)
    ensures
        is_list(noun::list_tree(items), items),
    decreases items.len(),
{
    if items.len() > 0 {
        lemma_is_list(items.drop_first());
    }
}

pub proof fn lemma_is_tuple(noun: NounView, fields: Seq<NounView>)
    requires
        fields.len() > 0,
    ensures
        is_tuple(noun, fields) <==> noun::fields_of(noun, fields.len()) == Ok::<
            Seq<NounView>,
            NounDecodeError,
        >(fields),
    decreases fields.len(),
{
    if fields.len() == 1 {
        assert(seq![fields[0]] =~= fields);
        if noun::fields_of(noun, 1)->Ok_0 == fields {
            assert(seq![noun][0] == fields[0]);
        }
    } else {
        match noun {
            NounView::Atom(_) => {},
            NounView::Cell(head, tail) => {
                lemma_is_tuple(*tail, fields.drop_first());
                let rest = noun::fields_of(*tail, (fields.len() - 1) as nat);
                if rest is Ok {
                    let whole = seq![*head] + rest->Ok_0;
                    assert(whole.drop_first() =~= rest->Ok_0);
                    assert(whole[0] == *head);
                    assert(fields =~= seq![fields[0]] + fields.drop_first());
                }
            },
        }
    }
}

/// An atom stands for the number of its bytes, a cell for its two halves.
pub proof fn law_noun_stands_for_its_bytes(noun: Noun)
    ensures
        match noun {
            Noun::Atom(bytes) => noun@ matches NounView::Atom(n) && n == bytes_number(bytes@),
            Noun::Cell(head, tail) => noun@ matches NounView::Cell(h, t) && *h == head@ && *t
                == tail@,
        },
{
    match noun {
        Noun::Atom(bytes) => lemma_bytes_number(bytes@),
        Noun::Cell(head, tail) => {},
    }
}

/// A number becomes an atom of its bytes: their number is the number.
pub proof fn law_number_is_kept(n: u64, made: Noun)
    requires
        call_ensures(Noun::number, (n,), made),
    ensures
        made@ == NounView::Atom(n as nat),
        made matches Noun::Atom(bytes) ==> bytes_number(bytes@) == n,
{
    law_noun_stands_for_its_bytes(made);
}

/// A text becomes the atom of its bytes.
pub proof fn law_text_is_kept(text: &str, made: Noun)
    requires
        call_ensures(Noun::cord, (text,), made),
    ensures
        is_text(made@, text@),
{
    lemma_is_text(text@);
}

/// Nouns become the list of them, with as many cells and in the same order.
pub proof fn law_list_is_kept(items: Vec<Noun>, made: Noun)
    requires
        call_ensures(Noun::list, (items,), made),
    ensures
        is_list(made@, Seq::new(items@.len(), |i: int| items@[i]@)),
{
    let all = Seq::new(items@.len(), |i: int| items@[i]@);
    assert(noun::trees(items@) =~= all);
    lemma_is_list(all);
}

/// Two nouns become the cell of both.
pub proof fn law_cell_is_kept(head: Noun, tail: Noun, made: Noun)
    requires
        call_ensures(Noun::cell, (head, tail), made),
    ensures
        made@ matches NounView::Cell(h, t) && *h == head@ && *t == tail@,
{
}

/// No value becomes zero, and a value goes under a zero head.
pub proof fn law_unit_is_kept(value: Option<Noun>, made: Noun)
    requires
        call_ensures(Noun::unit, (value,), made),
    ensures
        value is None ==> made@ == NounView::Atom(0),
        value matches Some(v) ==> (made@ matches NounView::Cell(h, t) && *h == NounView::Atom(0)
            && *t == v@),
{
}

/// Yes is zero and no is one.
pub proof fn law_truth_is_kept(b: bool, made: Noun)
    requires
        call_ensures(Noun::loobean, (b,), made),
    ensures
        b ==> made@ == NounView::Atom(0),
        !b ==> made@ == NounView::Atom(1),
{
}

/// A copy stands for the same.
pub proof fn law_copy_stands_for_the_same(noun: Noun, copy: Noun)
    requires
        call_ensures(Noun::clone, (&noun,), copy),
    ensures
        copy@ == noun@,
{
}

/// An atom reads as its number where that fits in sixty-four bits; nothing else reads as one.
pub proof fn law_number_is_read(noun: Noun, r: Result<u64, NounDecodeError>)
    requires
        call_ensures(Noun::as_u64, (&noun,), r),
    ensures
        r matches Ok(n) ==> noun@ == NounView::Atom(n as nat),
        r is Err <==> !(noun@ matches NounView::Atom(n) && n < 0x1_0000_0000_0000_0000),
        r == Err::<u64, NounDecodeError>(NounDecodeError::ExpectedAtom) <==> noun@ is Cell,
        r is Err && noun@ is Atom ==> r->Err_0 == NounDecodeError::AtomTooLarge,
{
}

/// Only zero and one read as yes and no.
pub proof fn law_truth_is_read(noun: Noun, r: Result<bool, NounDecodeError>)
    requires
        call_ensures(Noun::as_loobean, (&noun,), r),
    ensures
        r == Ok::<bool, NounDecodeError>(true) <==> noun@ == NounView::Atom(0),
        r == Ok::<bool, NounDecodeError>(false) <==> noun@ == NounView::Atom(1),
        r is Err && noun@ is Cell ==> r->Err_0 == NounDecodeError::ExpectedAtom,
        r is Err && noun@ is Atom ==> r->Err_0 == (if noun@->Atom_0 < 0x1_0000_0000_0000_0000 {
            NounDecodeError::InvalidLoobean
        } else {
            NounDecodeError::AtomTooLarge
        }),
{
}

/// Zero reads as no value, a cell under a zero head as its tail, and nothing else reads.
pub proof fn law_unit_is_read(noun: Noun, r: Result<Option<&Noun>, NounDecodeError>)
    requires
        call_ensures(Noun::as_unit, (&noun,), r),
    ensures
        r matches Ok(None) <==> noun@ == NounView::Atom(0),
        r is Ok && r->Ok_0 is Some <==> (noun@ matches NounView::Cell(h, _) && *h
            == NounView::Atom(0)),
        r matches Ok(Some(value)) ==> (noun@ matches NounView::Cell(_, t) && *t == value@),
        r matches Err(err) ==> err == NounDecodeError::InvalidUnit,
{
}

/// The fields that are read are those of the tuple that the noun is, and where none are read it
/// is no tuple of so many.
pub proof fn law_fields_are_read(noun: Noun, n: usize, r: Result<Vec<&Noun>, NounDecodeError>)
    requires
        n > 0,
        call_ensures(Noun::as_fields, (&noun, n), r),
    ensures
        r matches Ok(fields) ==> fields@.len() == n && is_tuple(
            noun@,
            Seq::new(n as nat, |i: int| fields@[i]@),
        ),
        r is Err ==> r->Err_0 == NounDecodeError::ExpectedCell && forall|fields: Seq<NounView>|
            fields.len() == n ==> !#[trigger] is_tuple(noun@, fields),
{
    if r is Ok {
        let fields = Seq::new(n as nat, |i: int| r->Ok_0@[i]@);
        assert(r->Ok_0@.map_values(|field: &Noun| field@) =~= fields);
        lemma_is_tuple(noun@, fields);
    } else {
        assert forall|fields: Seq<NounView>| fields.len() == n implies !#[trigger] is_tuple(
            noun@,
            fields,
        ) by {
            lemma_is_tuple(noun@, fields);
        }
        lemma_no_other_error(noun@, n as nat);
    }
}

pub proof fn lemma_no_other_error(noun: NounView, n: nat)
    ensures
        noun::fields_of(noun, n) matches Err(err) ==> err == NounDecodeError::ExpectedCell,
    decreases n,
{
    if n > 1 {
        match noun {
            NounView::Atom(_) => {},
            NounView::Cell(_, tail) => lemma_no_other_error(*tail, (n - 1) as nat),
        }
    }
}

/// The number that decimal digits stand for.
pub open spec fn digits_number(digits: Seq<char>) -> int
    decreases digits.len(),
{
    if digits.len() == 0 {
        0
    } else {
        10 * digits_number(digits.drop_last()) + (digits.last() as int - '0' as int)
    }
}

/// Digits alone, none too many, that stand for the number.
pub open spec fn writes_number(digits: Seq<char>, n: int) -> bool {
    &&& digits.len() > 0
    &&& forall|i: int| 0 <= i < digits.len() ==> '0' <= #[trigger] digits[i] <= '9'
    &&& digits.len() > 1 ==> digits[0] != '0'
    &&& digits_number(digits) == n
}

pub proof fn lemma_writes_number(n: nat)
    ensures
        writes_number(text::decimal(n), n as int),
    decreases n,
{
    let digits = text::decimal(n);
    if n < 10 {
        assert(digits.drop_last() =~= seq![]);
        assert(digits_number(digits.drop_last()) == 0);
    } else {
        lemma_writes_number(n / 10);
        assert(digits.drop_last() =~= text::decimal(n / 10));
        assert forall|i: int| 0 <= i < digits.len() implies '0' <= #[trigger] digits[i] <= '9' by {
            if i < digits.len() - 1 {
                assert(digits[i] == text::decimal(n / 10)[i]);
            }
        }
        assert(digits[0] == text::decimal(n / 10)[0]);
        if text::decimal(n / 10).len() == 1 {
            let d = text::decimal(n / 10);
            assert(d.drop_last() =~= seq![]);
            assert(digits_number(d.drop_last()) == 0);
            assert(digits_number(d) == d[0] as int - '0' as int);
        }
    }
}

/// A number is written in digits that stand for it.
pub proof fn law_number_is_written(n: u64, digits: String)
    requires
        call_ensures(text::decimal_text, (n,), digits),
    ensures
        writes_number(digits@, n as int),
{
    lemma_writes_number(n as nat);
}

} // verus!
