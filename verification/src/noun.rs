//! Nouns: the binary trees of natural numbers in which the wallet kernel is spoken to.

use vstd::prelude::*;
use vstd::utf8::*;

verus! {

/// A noun. An atom holds the bytes of its number, least significant byte first. Zeros at the
/// end do not change the number, but `==` tells atoms with and without them apart.
#[derive(Debug, PartialEq, Eq)]
pub enum Noun {
    Atom(Vec<u8>),
    Cell(Box<Noun>, Box<Noun>),
}

/// The tree of numbers that a noun stands for.
pub enum NounView {
    Atom(nat),
    Cell(Box<NounView>, Box<NounView>),
}

/// The number with these bytes, least significant byte first.
pub open spec fn le_value(bytes: Seq<u8>) -> nat
    decreases bytes.len(),
{
    if bytes.len() == 0 {
        0
    } else {
        (bytes[0] as nat) + 256 * le_value(bytes.drop_first())
    }
}

impl Noun {
    pub open spec fn tree(self) -> NounView
        decreases self,
    {
        match self {
            Noun::Atom(bytes) => NounView::Atom(le_value(bytes@)),
            Noun::Cell(head, tail) => NounView::Cell(Box::new(head.tree()), Box::new(tail.tree())),
        }
    }
}

impl View for Noun {
    type V = NounView;

    open spec fn view(&self) -> NounView {
        self.tree()
    }
}

/// The trees of a list of nouns.
pub open spec fn trees(nouns: Seq<Noun>) -> Seq<NounView> {
    nouns.map_values(|noun: Noun| noun@)
}

pub open spec fn cell_tree(head: NounView, tail: NounView) -> NounView {
    NounView::Cell(Box::new(head), Box::new(tail))
}

/// `[a b ... z]`: all but the last item are heads.
pub open spec fn tuple_tree(items: Seq<NounView>) -> NounView
    recommends
        items.len() > 0,
    decreases items.len(),
{
    if items.len() <= 1 {
        items[0]
    } else {
        cell_tree(items[0], tuple_tree(items.drop_first()))
    }
}

/// A list: every item is a head, and the end is zero.
pub open spec fn list_tree(items: Seq<NounView>) -> NounView
    decreases items.len(),
{
    if items.len() == 0 {
        NounView::Atom(0)
    } else {
        cell_tree(items[0], list_tree(items.drop_first()))
    }
}

/// An optional value: zero for none, the value under a zero head for some.
pub open spec fn unit_tree(value: Option<NounView>) -> NounView {
    match value {
        None => NounView::Atom(0),
        Some(v) => cell_tree(NounView::Atom(0), v),
    }
}

/// A truth value: zero is yes, one is no.
pub open spec fn loobean_tree(b: bool) -> NounView {
    NounView::Atom(
        if b {
            0
        } else {
            1
        },
    )
}

/// A text: its bytes, the first one least significant.
pub open spec fn cord_tree(text: Seq<char>) -> NounView {
    NounView::Atom(le_value(encode_utf8(text)))
}

/// The bytes of a number, least significant byte first, without zeros at the end.
spec fn le_bytes(n: nat) -> Seq<u8>
    decreases n,
{
    if n == 0 {
        seq![]
    } else {
        seq![(n % 256) as u8] + le_bytes(n / 256)
    }
}

proof fn lemma_le_bytes(n: nat)
    ensures
        le_value(le_bytes(n)) == n,
    decreases n,
{
    if n > 0 {
        lemma_le_bytes(n / 256);
        assert(le_bytes(n).drop_first() =~= le_bytes(n / 256));
    }
}

impl Clone for Noun {
    fn clone(&self) -> (copy: Self)
        ensures
            copy@ == self@,
        decreases self,
    {
        match self {
            Noun::Atom(bytes) => {
                let same = bytes.clone();
                assert(same@ =~= bytes@);
                Noun::Atom(same)
            },
            Noun::Cell(head, tail) => {
                let h = (&**head).clone();
                let t = (&**tail).clone();
                Noun::Cell(Box::new(h), Box::new(t))
            },
        }
    }
}

impl Noun {
    /// The atom for a number.
    pub fn number(n: u64) -> (noun: Noun)
        ensures
            noun@ == NounView::Atom(n as nat),
    {
        let mut bytes: Vec<u8> = Vec::new();
        let mut rest: u64 = n;
        assert(bytes@ + le_bytes(rest as nat) =~= le_bytes(n as nat));
        while rest > 0
            invariant
                bytes@ + le_bytes(rest as nat) == le_bytes(n as nat),
            decreases rest,
        {
            let ghost before = bytes@;
            let ghost left = rest as nat;
            bytes.push((rest % 256) as u8);
            rest = rest / 256;
            assert(bytes@ + le_bytes(rest as nat) =~= before + le_bytes(left));
        }
        proof {
            assert(bytes@ =~= le_bytes(n as nat));
            lemma_le_bytes(n as nat);
        }
        Noun::Atom(bytes)
    }

    /// The atom for a text.
    pub fn cord(text: &str) -> (noun: Noun)
        ensures
            noun@ == cord_tree(text@),
    {
        let bytes = text.as_bytes();
        let mut copy: Vec<u8> = Vec::new();
        for i in 0..bytes.len()
            invariant
                copy@ == bytes@.take(i as int),
        {
            copy.push(bytes[i]);
            assert(copy@ =~= bytes@.take(i + 1));
        }
        assert(copy@ =~= bytes@);
        Noun::Atom(copy)
    }

    pub fn cell(head: Noun, tail: Noun) -> (noun: Noun)
        ensures
            noun@ == cell_tree(head@, tail@),
    {
        Noun::Cell(Box::new(head), Box::new(tail))
    }

    /// The list of these nouns.
    pub fn list(items: Vec<Noun>) -> (noun: Noun)
        ensures
            noun@ == list_tree(trees(items@)),
    {
        let mut noun = Noun::number(0);
        let mut rest = items;
        let ghost all = trees(items@);
        assert(all.skip(all.len() as int) =~= seq![]);
        while rest.len() > 0
            invariant
                rest@.len() <= all.len(),
                trees(rest@) == all.take(rest@.len() as int),
                noun@ == list_tree(all.skip(rest@.len() as int)),
            decreases rest@.len(),
        {
            let ghost n = rest@.len() as int;
            let ghost before = rest@;
            let item = rest.pop().unwrap();
            proof {
                assert(trees(before)[n - 1] == item@);
                assert(all.skip(n - 1)[0] == item@);
                assert(all.skip(n - 1).drop_first() =~= all.skip(n));
                assert(trees(rest@) =~= all.take(n - 1));
            }
            noun = Noun::cell(item, noun);
        }
        assert(all.skip(0) =~= all);
        noun
    }

    /// An optional noun as a noun.
    pub fn unit(value: Option<Noun>) -> (noun: Noun)
        ensures
            noun@ == unit_tree(
                match value {
                    None => None,
                    Some(v) => Some(v@),
                },
            ),
    {
        match value {
            None => Noun::number(0),
            Some(v) => Noun::cell(Noun::number(0), v),
        }
    }

    /// A truth value as a noun.
    pub fn loobean(b: bool) -> (noun: Noun)
        ensures
            noun@ == loobean_tree(b),
    {
        Noun::number(
            if b {
                0
            } else {
                1
            },
        )
    }
}

/// Why a noun is not the value that was expected.
#[derive(Clone, Copy, Debug, PartialEq, Eq, Structural)]
pub enum NounDecodeError {
    /// A cell stands where a number belongs.
    ExpectedAtom,
    /// A number stands where a cell belongs.
    ExpectedCell,
    /// A number does not fit in sixty-four bits.
    AtomTooLarge,
    /// A number is neither yes nor no.
    InvalidLoobean,
    /// An optional value is neither none nor some.
    InvalidUnit,
}

/// A noun read as a number of sixty-four bits.
pub open spec fn u64_of(noun: NounView) -> Result<u64, NounDecodeError> {
    match noun {
        NounView::Cell(_, _) => Err(NounDecodeError::ExpectedAtom),
        NounView::Atom(n) => if n <= u64::MAX {
            Ok(n as u64)
        } else {
            Err(NounDecodeError::AtomTooLarge)
        },
    }
}

/// A noun read as a truth value.
pub open spec fn loobean_of(noun: NounView) -> Result<bool, NounDecodeError> {
    match u64_of(noun) {
        Err(err) => Err(err),
        Ok(n) => if n == 0 {
            Ok(true)
        } else if n == 1 {
            Ok(false)
        } else {
            Err(NounDecodeError::InvalidLoobean)
        },
    }
}

/// A noun read as an optional value.
pub open spec fn unit_of(noun: NounView) -> Result<Option<NounView>, NounDecodeError> {
    match noun {
        NounView::Atom(n) => if n == 0 {
            Ok(None)
        } else {
            Err(NounDecodeError::InvalidUnit)
        },
        NounView::Cell(head, tail) => if *head == NounView::Atom(0) {
            Ok(Some(*tail))
        } else {
            Err(NounDecodeError::InvalidUnit)
        },
    }
}

/// The `n` fields of a noun read as a tuple.
pub open spec fn fields_of(noun: NounView, n: nat) -> Result<Seq<NounView>, NounDecodeError>
    decreases n,
{
    if n <= 1 {
        Ok(seq![noun])
    } else {
        match noun {
            NounView::Atom(_) => Err(NounDecodeError::ExpectedCell),
            NounView::Cell(head, tail) => match fields_of(*tail, (n - 1) as nat) {
                Err(err) => Err(err),
                Ok(rest) => Ok(seq![*head] + rest),
            },
        }
    }
}

proof fn lemma_le_value_at_least_suffix(bytes: Seq<u8>, i: int)
    requires
        0 <= i <= bytes.len(),
    ensures
        le_value(bytes) >= le_value(bytes.skip(i)),
    decreases i,
{
    if i == 0 {
        assert(bytes.skip(0) =~= bytes);
    } else {
        assert(bytes.drop_first().skip(i - 1) =~= bytes.skip(i));
        lemma_le_value_at_least_suffix(bytes.drop_first(), i - 1);
    }
}

impl Noun {
    /// Reads a number of sixty-four bits.
    pub fn as_u64(&self) -> (r: Result<u64, NounDecodeError>)
        ensures
            r == u64_of(self@),
    {
        match self {
            Noun::Cell(_, _) => Err(NounDecodeError::ExpectedAtom),
            Noun::Atom(bytes) => {
                let mut i: usize = bytes.len();
                let mut value: u64 = 0;
                assert(bytes@.skip(bytes@.len() as int) =~= seq![]);
                while i > 0
                    invariant
                        i <= bytes@.len(),
                        self@ == NounView::Atom(le_value(bytes@)),
                        value == le_value(bytes@.skip(i as int)),
                    decreases i,
                {
                    proof {
                        assert(bytes@.skip(i - 1)[0] == bytes@[i - 1]);
                        assert(bytes@.skip(i - 1).drop_first() =~= bytes@.skip(i as int));
                        lemma_le_value_at_least_suffix(bytes@, i - 1);
                    }
                    i = i - 1;
                    if value > 0xff_ffff_ffff_ffff {
                        return Err(NounDecodeError::AtomTooLarge);
                    }
                    value = value * 256 + bytes[i] as u64;
                }
                assert(bytes@.skip(0) =~= bytes@);
                Ok(value)
            },
        }
    }

    /// Reads a truth value.
    pub fn as_loobean(&self) -> (r: Result<bool, NounDecodeError>)
        ensures
            r == loobean_of(self@),
    {
        match self.as_u64() {
            Err(err) => Err(err),
            Ok(n) => if n == 0 {
                Ok(true)
            } else if n == 1 {
                Ok(false)
            } else {
                Err(NounDecodeError::InvalidLoobean)
            },
        }
    }

    /// Reads an optional value.
    pub fn as_unit(&self) -> (r: Result<Option<&Noun>, NounDecodeError>)
        ensures
            match r {
                Err(err) => unit_of(self@) == Err::<Option<NounView>, NounDecodeError>(err),
                Ok(None) => unit_of(self@) == Ok::<Option<NounView>, NounDecodeError>(None),
                Ok(Some(value)) => unit_of(self@) == Ok::<Option<NounView>, NounDecodeError>(
                    Some(value@),
                ),
            },
    {
        match self {
            Noun::Atom(_) => match self.as_u64() {
                Ok(0) => Ok(None),
                _ => Err(NounDecodeError::InvalidUnit),
            },
            Noun::Cell(head, tail) => match head.as_u64() {
                Ok(0) => Ok(Some(&**tail)),
                _ => Err(NounDecodeError::InvalidUnit),
            },
        }
    }

    /// Reads the `n` fields of a tuple.
    pub fn as_fields(&self, n: usize) -> (r: Result<Vec<&Noun>, NounDecodeError>)
        requires
            n > 0,
        ensures
            match r {
                Err(err) => fields_of(self@, n as nat) == Err::<Seq<NounView>, NounDecodeError>(
                    err,
                ),
                Ok(fields) => {
                    &&& fields@.len() == n
                    &&& fields_of(self@, n as nat) == Ok::<Seq<NounView>, NounDecodeError>(
                        fields@.map_values(|field: &Noun| field@),
                    )
                },
            },
    {
        let mut fields: Vec<&Noun> = Vec::new();
        let mut rest: &Noun = self;
        let mut left: usize = n;
        assert(match fields_of(rest@, left as nat) {
            Err(err) => true,
            Ok(more) => fields@.map_values(|field: &Noun| field@) + more =~= more,
        });
        while left > 1
            invariant
                1 <= left <= n,
                fields@.len() == n - left,
                fields_of(self@, n as nat) == (match fields_of(rest@, left as nat) {
                    Err(err) => Err(err),
                    Ok(more) => Ok::<Seq<NounView>, NounDecodeError>(
                        fields@.map_values(|field: &Noun| field@) + more,
                    ),
                }),
            decreases left,
        {
            match rest {
                Noun::Atom(_) => {
                    return Err(NounDecodeError::ExpectedCell);
                },
                Noun::Cell(head, tail) => {
                    let ghost before = fields@.map_values(|field: &Noun| field@);
                    fields.push(&**head);
                    rest = &**tail;
                    left = left - 1;
                    proof {
                        assert(fields@.map_values(|field: &Noun| field@) =~= before.push(head@));
                        match fields_of(rest@, left as nat) {
                            Err(err) => {},
                            Ok(more) => {
                                assert(before + (seq![head@] + more) =~= before.push(head@) + more);
                            },
                        }
                    }
                },
            }
        }
        let ghost before = fields@.map_values(|field: &Noun| field@);
        fields.push(rest);
        assert(fields@.map_values(|field: &Noun| field@) =~= before + seq![rest@]);
        Ok(fields)
    }
}

/// Reading the fields of a tuple gives back what it was made of.
pub proof fn law_fields_of_tuple(items: Seq<NounView>)
    requires
        items.len() > 0,
    ensures
        fields_of(tuple_tree(items), items.len()) == Ok::<Seq<NounView>, NounDecodeError>(items),
    decreases items.len(),
{
    if items.len() == 1 {
        assert(seq![items[0]] =~= items);
    } else {
        law_fields_of_tuple(items.drop_first());
        assert(seq![items[0]] + items.drop_first() =~= items);
    }
}

/// A noun whose fields can be read is the tuple of these fields.
pub proof fn law_tuple_of_fields(noun: NounView, n: nat)
    requires
        n > 0,
        fields_of(noun, n) is Ok,
    ensures
        fields_of(noun, n)->Ok_0.len() == n,
        noun == tuple_tree(fields_of(noun, n)->Ok_0),
    decreases n,
{
    if n > 1 {
        match noun {
            NounView::Atom(_) => {},
            NounView::Cell(head, tail) => {
                law_tuple_of_fields(*tail, (n - 1) as nat);
                let fields = fields_of(noun, n)->Ok_0;
                assert(fields.drop_first() =~= fields_of(*tail, (n - 1) as nat)->Ok_0);
            },
        }
    }
}

/// Reading an optional value gives back what was written.
pub proof fn law_unit_of_unit(value: Option<NounView>)
    ensures
        unit_of(unit_tree(value)) == Ok::<Option<NounView>, NounDecodeError>(value),
{
}

/// Reading a truth value gives back what was written.
pub proof fn law_loobean_of_loobean(b: bool)
    ensures
        loobean_of(loobean_tree(b)) == Ok::<bool, NounDecodeError>(b),
{
}

/// Different lists are different nouns.
pub proof fn law_list_tree_is_injective(a: Seq<NounView>, b: Seq<NounView>)
    requires
        list_tree(a) == list_tree(b),
    ensures
        a == b,
    decreases a.len(),
{
    if a.len() > 0 && b.len() > 0 {
        law_list_tree_is_injective(a.drop_first(), b.drop_first());
        assert(a =~= seq![a[0]] + a.drop_first());
        assert(b =~= seq![b[0]] + b.drop_first());
    } else {
        assert(a =~= b);
    }
}

/// The last byte, if there is one, is not zero.
spec fn no_zero_end(bytes: Seq<u8>) -> bool {
    bytes.len() > 0 ==> bytes.last() != 0
}

proof fn lemma_le_value_positive(bytes: Seq<u8>)
    requires
        bytes.len() > 0,
        no_zero_end(bytes),
    ensures
        le_value(bytes) > 0,
    decreases bytes.len(),
{
    if bytes.len() > 1 {
        assert(bytes.drop_first().last() == bytes.last());
        lemma_le_value_positive(bytes.drop_first());
    }
}

proof fn lemma_le_value_injective(a: Seq<u8>, b: Seq<u8>)
    requires
        no_zero_end(a),
        no_zero_end(b),
        le_value(a) == le_value(b),
    ensures
        a == b,
    decreases a.len(),
{
    if a.len() == 0 || b.len() == 0 {
        if a.len() > 0 {
            lemma_le_value_positive(a);
        }
        if b.len() > 0 {
            lemma_le_value_positive(b);
        }
        assert(a =~= b);
    } else {
        let ta = a.drop_first();
        let tb = b.drop_first();
        assert(a[0] as nat + 256 * le_value(ta) == b[0] as nat + 256 * le_value(tb));
        assert(a[0] == b[0] && le_value(ta) == le_value(tb));
        if ta.len() > 0 {
            assert(ta.last() == a.last());
        }
        if tb.len() > 0 {
            assert(tb.last() == b.last());
        }
        lemma_le_value_injective(ta, tb);
        assert(a =~= seq![a[0]] + ta);
        assert(b =~= seq![b[0]] + tb);
    }
}

proof fn lemma_scalar_end(c: char)
    requires
        c != '\0',
    ensures
        encode_scalar(c as u32).len() > 0,
        encode_scalar(c as u32).last() != 0,
{
    let scalar = c as u32;
    assert(0x80u8 | (scalar & 0x3F) as u8 != 0u8) by (bit_vector);
    assert(0 < scalar <= 0x7F ==> (scalar & 0x7F) as u8 != 0u8) by (bit_vector);
}

proof fn lemma_text_end(text: Seq<char>)
    requires
        text.len() > 0 ==> text.last() != '\0',
    ensures
        no_zero_end(encode_utf8(text)),
    decreases text.len(),
{
    if text.len() > 0 {
        let rest = text.drop_first();
        if rest.len() > 0 {
            assert(rest.last() == text.last());
            lemma_text_end(rest);
            encode_utf8_first_scalar(rest);
            assert(encode_utf8(rest).len() > 0) by {
                assert(encode_scalar(rest[0] as u32).len() > 0);
            }
        } else {
            lemma_scalar_end(text[0]);
            assert(encode_utf8(rest) =~= seq![]);
            assert(encode_utf8(text) =~= encode_scalar(text[0] as u32));
        }
    }
}

/// Different texts are different atoms, as long as none ends in a NUL, which an atom cannot
/// show.
pub proof fn law_cord_tree_is_injective(a: Seq<char>, b: Seq<char>)
    requires
        a.len() > 0 ==> a.last() != '\0',
        b.len() > 0 ==> b.last() != '\0',
        cord_tree(a) == cord_tree(b),
    ensures
        a == b,
{
    lemma_text_end(a);
    lemma_text_end(b);
    lemma_le_value_injective(encode_utf8(a), encode_utf8(b));
    encode_utf8_decode_utf8(a);
    encode_utf8_decode_utf8(b);
}

} // verus!
