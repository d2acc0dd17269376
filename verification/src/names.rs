//! Note names as a user writes them: reading them, writing them, and holding the ones that
//! were planned against the ones that were asked for.

use crate::digest;
use crate::digest::{Digest, Name};
use crate::error::{WalletError, WalletErrorView};
use crate::order;
use crate::order::KeyOrder;
use crate::wallet::Wallet;
use vstd::prelude::*;

verus! {

/// A base58 text, and what decoding it gives: a digest, or the reason why it is none.
#[derive(Debug, PartialEq, Eq)]
pub struct DigestText {
    pub text: String,
    pub decoded: Result<Digest, String>,
}

/// A note name as it was written.
#[derive(Debug, PartialEq, Eq)]
pub struct NoteNameText {
    pub first: DigestText,
    pub last: DigestText,
}

/// The note name that was written, or the words in which it is refused.
pub open spec fn written_name(name: NoteNameText) -> Result<Name, Seq<char>> {
    match name.first.decoded {
        Err(reason) => Err(
            "Invalid note first-name hash '"@ + name.first.text@ + "': "@ + reason@,
        ),
        Ok(first) => match name.last.decoded {
            Err(reason) => Err(
                "Invalid note last-name hash '"@ + name.last.text@ + "': "@ + reason@,
            ),
            Ok(last) => Ok(Name { first, last }),
        },
    }
}

/// `names` are the note names that were written.
pub open spec fn written_names(written: Seq<NoteNameText>, names: Seq<Name>) -> bool {
    &&& names.len() == written.len()
    &&& forall|i: int|
        0 <= i < names.len() ==> written_name(#[trigger] written[i]) == Ok::<Name, Seq<char>>(
            names[i],
        )
}

/// `refused` is the first of the written names that is none, and `err` says so.
pub open spec fn refuses_first(written: Seq<NoteNameText>, refused: int, err: WalletError) -> bool {
    &&& 0 <= refused < written.len()
    &&& forall|i: int| 0 <= i < refused ==> written_name(#[trigger] written[i]) is Ok
    &&& written_name(written[refused]) is Err
    &&& err@ == WalletErrorView::Unknown(written_name(written[refused])->Err_0)
}

/// What reading written note names gives: the reader's error where it has one, the names
/// otherwise, or the error about the first that is none.
pub open spec fn reads_names(
    parsed: Result<Vec<NoteNameText>, WalletError>,
    r: Result<Vec<Name>, WalletError>,
) -> bool {
    match parsed {
        Err(err) => r == Err::<Vec<Name>, WalletError>(err),
        Ok(written) => match r {
            Ok(names) => written_names(written@, names@),
            Err(err) => exists|refused: int| refuses_first(written@, refused, err),
        },
    }
}

/// The base58 texts of note names, each the first and the last.
pub open spec fn base58_texts(names: Seq<Name>) -> Seq<(Seq<char>, Seq<char>)> {
    names.map_values(|name: Name| (name.first.base58@, name.last.base58@))
}

/// One note name as the `--names` argument shows it.
pub open spec fn name_entry(texts: (Seq<char>, Seq<char>)) -> Seq<char> {
    "["@ + texts.0 + " "@ + texts.1 + "]"@
}

/// The texts of note names as the `--names` argument lists them.
pub open spec fn texts_argument(texts: Seq<(Seq<char>, Seq<char>)>) -> Seq<char>
    decreases texts.len(),
{
    if texts.len() == 0 {
        seq![]
    } else if texts.len() == 1 {
        name_entry(texts[0])
    } else {
        texts_argument(texts.drop_last()) + ","@ + name_entry(texts.last())
    }
}

/// Note names as the `--names` argument lists them.
pub open spec fn names_argument(names: Seq<Name>) -> Seq<char> {
    texts_argument(base58_texts(names))
}

/// The same note names, each as often, in whatever order.
pub open spec fn same_names(a: Seq<Name>, b: Seq<Name>) -> bool {
    order::keys(a).to_multiset() == order::keys(b).to_multiset()
}

/// The words for a plan that does not spend the note names that were asked for.
pub open spec fn parity_mismatch(requested: Seq<Name>, planned: Seq<Name>) -> Seq<char> {
    "planner parity mismatch: selected names differ from user-provided manual names (planned='"@
        + names_argument(planned) + "', requested='"@ + names_argument(requested) + "')"@
}

/// Reads written note names up to the first that is none.
fn read_names(written: Vec<NoteNameText>) -> (r: Result<Vec<Name>, WalletError>)
    ensures
        match r {
            Ok(names) => written_names(written@, names@),
            Err(err) => exists|refused: int| refuses_first(written@, refused, err),
        },
{
    let mut names: Vec<Name> = Vec::new();
    let ghost all = written@;
    for name in it: written
        invariant
            it.seq() == all,
            all == written@,
            names@.len() == it.index(),
            forall|i: int|
                0 <= i < names@.len() ==> written_name(#[trigger] all[i]) == Ok::<Name, Seq<char>>(
                    names@[i],
                ),
    {
        let ghost n = names@.len() as int;
        let NoteNameText { first, last } = name;
        let first_hash = match first.decoded {
            Ok(hash) => hash,
            Err(reason) => {
                let mut text = "Invalid note first-name hash '".to_owned();
                text.append(first.text.as_str());
                text.append("': ");
                text.append(reason.as_str());
                let err = WalletError::Unknown(text);
                assert(refuses_first(all, n, err));
                return Err(err);
            },
        };
        let last_hash = match last.decoded {
            Ok(hash) => hash,
            Err(reason) => {
                let mut text = "Invalid note last-name hash '".to_owned();
                text.append(last.text.as_str());
                text.append("': ");
                text.append(reason.as_str());
                let err = WalletError::Unknown(text);
                assert(refuses_first(all, n, err));
                return Err(err);
            },
        };
        names.push(Name::new(first_hash, last_hash));
    }
    Ok(names)
}

impl Wallet {
    /// Reads the digests out of the written note names, and stops at the first that is none.
    ///
    /// `parsed` is what the reader of the `--names` argument found in it, each text beside its
    /// decoding; how that reader splits the argument, and how base58 is decoded, is not said
    /// here.
    pub fn parse_note_names_as_hashes(parsed: Result<Vec<NoteNameText>, WalletError>) -> (r: Result<
        Vec<Name>,
        WalletError,
    >)
        ensures
            reads_names(parsed, r),
    {
        match parsed {
            Err(err) => Err(err),
            Ok(written) => read_names(written),
        }
    }

    /// Writes note names as the `--names` argument of create-tx.
    pub fn format_note_names_for_create_tx(names: &[Name]) -> (argument: String)
        ensures
            argument@ == names_argument(names@),
    {
        let mut argument = String::new();
        let ghost all = base58_texts(names@);
        assert(all.take(0) =~= seq![]);
        for i in 0..names.len()
            invariant
                all == base58_texts(names@),
                argument@ == texts_argument(all.take(i as int)),
        {
            let ghost before = argument@;
            if i > 0 {
                argument.append(",");
            }
            argument.append("[");
            argument.append(names[i].first.base58.as_str());
            argument.append(" ");
            argument.append(names[i].last.base58.as_str());
            argument.append("]");
            proof {
                let now = all.take(i + 1);
                assert(now.drop_last() =~= all.take(i as int));
                assert(now.last() == all[i as int]);
                if i == 0 {
                    assert(argument@ =~= name_entry(all[0]));
                } else {
                    assert(argument@ =~= before + ","@ + name_entry(all[i as int]));
                }
            }
        }
        assert(all.take(all.len() as int) =~= all);
        argument
    }
}

/// The note names of a list in order.
fn sorted_names(names: &[Name]) -> (sorted: Vec<&Name>)
    ensures
        order::ascending(sorted@),
        order::keys(sorted@).to_multiset() == order::keys(names@).to_multiset(),
        sorted@.len() == names@.len(),
{
    let mut borrowed: Vec<&Name> = Vec::new();
    for i in 0..names.len()
        invariant
            borrowed@.len() == i,
            forall|j: int| 0 <= j < i ==> *(#[trigger] borrowed@[j]) == names@[j],
    {
        borrowed.push(&names[i]);
    }
    assert(order::keys(borrowed@) =~= order::keys(names@));
    order::sort_by_key(borrowed)
}

/// Holds the note names of a plan against those that were asked for: they must be the same.
pub fn ensure_manual_planner_parity(requested_names: &[Name], planned_names: &[Name]) -> (r: Result<
    (),
    String,
>)
    ensures
        r is Ok <==> same_names(requested_names@, planned_names@),
        r matches Err(reason) ==> reason@ == parity_mismatch(requested_names@, planned_names@),
{
    let requested = sorted_names(requested_names);
    let planned = sorted_names(planned_names);
    proof {
        order::lemma_ascending_same_keys(requested@, planned@);
    }
    assert(order::keys(requested@).len() == requested@.len());
    assert(order::keys(planned@).len() == planned@.len());
    let mut same = requested.len() == planned.len();
    let mut i: usize = 0;
    while same && i < requested.len()
        invariant
            i <= requested@.len(),
            same ==> requested@.len() == planned@.len(),
            same ==> forall|j: int|
                0 <= j < i ==> order::keys(requested@)[j] == order::keys(planned@)[j],
            !same ==> order::keys(requested@) != order::keys(planned@),
        decreases requested.len() - i,
    {
        proof {
            let a = digest::name_key(*requested@[i as int]);
            let b = digest::name_key(*planned@[i as int]);
            assert(order::keys(requested@)[i as int] == a);
            assert(order::keys(planned@)[i as int] == b);
            if order::lex_lt(a, b) {
                order::lemma_lex_asymmetric(a, b);
            }
            if order::lex_lt(b, a) {
                order::lemma_lex_asymmetric(b, a);
            }
        }
        match digest::compare_names(requested[i], planned[i]) {
            KeyOrder::Equal => {},
            _ => {
                same = false;
            },
        }
        i += 1;
    }
    if same {
        assert(order::keys(requested@) =~= order::keys(planned@));
        Ok(())
    } else {
        let mut reason =
            "planner parity mismatch: selected names differ from user-provided manual names (planned='".to_owned();
        let planned_argument = Wallet::format_note_names_for_create_tx(planned_names);
        let requested_argument = Wallet::format_note_names_for_create_tx(requested_names);
        reason.append(planned_argument.as_str());
        reason.append("', requested='");
        reason.append(requested_argument.as_str());
        reason.append("')");
        Err(reason)
    }
}

/// A plan that spends the requested notes in another order spends the requested notes.
pub proof fn law_parity_ignores_order(requested: Seq<Name>, planned: Seq<Name>)
    requires
        requested.to_multiset() == planned.to_multiset(),
    ensures
        same_names(requested, planned),
    decreases requested.len(),
{
    broadcast use vstd::seq_lib::group_to_multiset_ensures;

    assert(requested.to_multiset().len() == requested.len());
    assert(planned.to_multiset().len() == planned.len());
    if requested.len() == 0 {
        assert(order::keys(requested) =~= order::keys(planned));
    } else {
        let name = requested[0];
        assert(requested.to_multiset().contains(name)) by {
            assert(requested.contains(name));
        }
        assert(planned.to_multiset().contains(name));
        assert(planned.contains(name));
        let j = choose|j: int| 0 <= j < planned.len() && planned[j] == name;
        let fewer_requested = requested.remove(0);
        let fewer_planned = planned.remove(j);
        law_parity_ignores_order(fewer_requested, fewer_planned);
        assert(order::keys(requested) =~= order::keys(fewer_requested).insert(
            0,
            digest::name_key(name),
        ));
        assert(order::keys(planned) =~= order::keys(fewer_planned).insert(
            j,
            digest::name_key(name),
        ));
    }
}

/// A plan that drops a requested note, or adds one, does not spend the requested notes.
pub proof fn law_parity_counts(requested: Seq<Name>, planned: Seq<Name>)
    requires
        same_names(requested, planned),
    ensures
        requested.len() == planned.len(),
        forall|i: int|
            0 <= i < requested.len() ==> order::has_key(
                planned,
                digest::name_key(#[trigger] requested[i]),
            ),
{
    broadcast use vstd::seq_lib::group_to_multiset_ensures;

    assert(order::keys(requested).to_multiset().len() == requested.len());
    assert(order::keys(planned).to_multiset().len() == planned.len());
    assert forall|i: int| 0 <= i < requested.len() implies order::has_key(
        planned,
        digest::name_key(#[trigger] requested[i]),
    ) by {
        let key = order::keys(requested)[i];
        assert(order::keys(requested).contains(key));
        assert(order::keys(planned).to_multiset().contains(key));
        let j = choose|j: int|
            0 <= j < order::keys(planned).len() && order::keys(planned)[j] == key;
        assert(digest::name_key(planned[j]) == key);
    }
}

/// A text without the characters that the `--names` argument is punctuated with.
pub open spec fn unpunctuated(text: Seq<char>) -> bool {
    &&& !text.contains('[')
    &&& !text.contains(' ')
}

/// The texts of a note name carry no punctuation.
pub open spec fn plain_texts(texts: (Seq<char>, Seq<char>)) -> bool {
    &&& unpunctuated(texts.0)
    &&& unpunctuated(texts.1)
}

/// The texts of all these note names carry no punctuation.
pub open spec fn all_plain(texts: Seq<(Seq<char>, Seq<char>)>) -> bool {
    forall|i: int| 0 <= i < texts.len() ==> plain_texts(#[trigger] texts[i])
}

/// If two texts end alike behind the last occurrence of a character, they agree before and
/// behind it.
proof fn lemma_split_at_last(a1: Seq<char>, a2: Seq<char>, b1: Seq<char>, b2: Seq<char>, c: char)
    requires
        a1.push(c) + a2 == b1.push(c) + b2,
        !a2.contains(c),
        !b2.contains(c),
    ensures
        a1 == b1,
        a2 == b2,
{
    let a = a1.push(c) + a2;
    let b = b1.push(c) + b2;
    assert(a.len() == a1.len() + 1 + a2.len());
    assert(b.len() == b1.len() + 1 + b2.len());
    assert(a[a1.len() as int] == c);
    assert(b[b1.len() as int] == c);
    if a1.len() < b1.len() {
        assert(a[b1.len() as int] == a2[b1.len() - a1.len() - 1]);
        assert(a2.contains(c));
    } else if b1.len() < a1.len() {
        assert(b[a1.len() as int] == b2[a1.len() - b1.len() - 1]);
        assert(b2.contains(c));
    }
    assert(a1 =~= a.subrange(0, a1.len() as int));
    assert(b1 =~= b.subrange(0, b1.len() as int));
    assert(a2 =~= a.subrange(a1.len() as int + 1, a.len() as int));
    assert(b2 =~= b.subrange(b1.len() as int + 1, b.len() as int));
}

/// What precedes the last entry of a `--names` argument: the other entries and a comma.
spec fn argument_before_last(texts: Seq<(Seq<char>, Seq<char>)>) -> Seq<char> {
    if texts.len() <= 1 {
        seq![]
    } else {
        texts_argument(texts.drop_last()) + ","@
    }
}

proof fn lemma_argument_shape(texts: Seq<(Seq<char>, Seq<char>)>)
    requires
        texts.len() > 0,
    ensures
        texts_argument(texts) == (argument_before_last(texts).push('[') + texts.last().0).push(' ')
            + texts.last().1.push(']'),
{
    reveal_strlit("[");
    reveal_strlit(" ");
    reveal_strlit("]");
    assert(texts_argument(texts) =~= (argument_before_last(texts).push('[')
        + texts.last().0).push(' ') + texts.last().1.push(']'));
}

/// A `--names` argument tells which texts it lists: two lists of texts that are written alike
/// are the same list.
pub proof fn law_argument_tells_texts(
    a: Seq<(Seq<char>, Seq<char>)>,
    b: Seq<(Seq<char>, Seq<char>)>,
)
    requires
        all_plain(a),
        all_plain(b),
        texts_argument(a) == texts_argument(b),
    ensures
        a == b,
    decreases a.len(),
{
    if a.len() > 0 {
        lemma_argument_shape(a);
        assert(texts_argument(a).len() > 0);
    }
    if b.len() > 0 {
        lemma_argument_shape(b);
        assert(texts_argument(b).len() > 0);
    }
    if a.len() > 0 && b.len() > 0 {
        let x = a.last();
        let y = b.last();
        assert(plain_texts(x) && plain_texts(y));
        lemma_split_at_last(
            argument_before_last(a).push('[') + x.0,
            x.1.push(']'),
            argument_before_last(b).push('[') + y.0,
            y.1.push(']'),
            ' ',
        );
        lemma_split_at_last(argument_before_last(a), x.0, argument_before_last(b), y.0, '[');
        assert(x.1 =~= x.1.push(']').drop_last());
        assert(y.1 =~= y.1.push(']').drop_last());
        let rest_a = a.drop_last();
        let rest_b = b.drop_last();
        reveal_strlit(",");
        if a.len() > 1 && b.len() > 1 {
            assert(texts_argument(rest_a) =~= argument_before_last(a).drop_last());
            assert(texts_argument(rest_b) =~= argument_before_last(b).drop_last());
        }
        assert((a.len() == 1) == (b.len() == 1));
        law_argument_tells_texts(rest_a, rest_b);
        assert(a =~= rest_a.push(x));
        assert(b =~= rest_b.push(y));
    } else {
        assert(a =~= b);
    }
}

/// A `--names` argument tells which note names it lists: two lists of note names that are
/// written alike have the same base58 texts, position by position.
pub proof fn law_names_argument_tells_names(a: Seq<Name>, b: Seq<Name>)
    requires
        all_plain(base58_texts(a)),
        all_plain(base58_texts(b)),
        names_argument(a) == names_argument(b),
    ensures
        base58_texts(a) == base58_texts(b),
{
    law_argument_tells_texts(base58_texts(a), base58_texts(b));
}

/// The `--names` argument of two lists is their two arguments, joined by a comma.
pub proof fn law_arguments_are_joined_by_comma(a: Seq<Name>, b: Seq<Name>)
    requires
        a.len() > 0,
        b.len() > 0,
    ensures
        names_argument(a + b) == names_argument(a) + ","@ + names_argument(b),
    decreases b.len(),
{
    let texts = base58_texts(a + b);
    let last = base58_texts(b).last();
    assert(texts.last() == last);
    assert(texts.drop_last() =~= base58_texts(a + b.drop_last()));
    if b.len() == 1 {
        assert(a + b.drop_last() =~= a);
        assert(names_argument(b) == name_entry(last));
    } else {
        law_arguments_are_joined_by_comma(a, b.drop_last());
        assert(base58_texts(b).drop_last() =~= base58_texts(b.drop_last()));
        assert(names_argument(a + b) =~= names_argument(a) + ","@ + names_argument(b));
    }
}

/// The texts of note names as they were written.
pub open spec fn texts_as_written(written: Seq<NoteNameText>) -> Seq<(Seq<char>, Seq<char>)> {
    written.map_values(|name: NoteNameText| (name.first.text@, name.last.text@))
}

/// The same digest: the same limbs and the same text.
pub open spec fn same_digest(a: Digest, b: Digest) -> bool {
    &&& a.limbs@ == b.limbs@
    &&& a.base58@ == b.base58@
}

/// If the text is that of the digest, it decodes to the digest.
pub open spec fn decodes_to(text: DigestText, digest: Digest) -> bool {
    text.text@ == digest.base58@ ==> (text.decoded matches Ok(decoded) && same_digest(
        decoded,
        digest,
    ))
}

/// Texts that are those of the note names' digests decode to them.
pub open spec fn decoding_undoes_encoding(written: Seq<NoteNameText>, names: Seq<Name>) -> bool {
    forall|i: int, j: int|
        0 <= i < written.len() && 0 <= j < names.len() ==> decodes_to(
            (#[trigger] written[i]).first,
            (#[trigger] names[j]).first,
        ) && decodes_to(written[i].last, names[j].last)
}

/// Reading note names undoes writing them: read out of the `--names` argument that they are
/// written as, they come back, in the same order and with their repetitions. This holds as long
/// as the texts that are found in the argument are what stands there, and as the text of a
/// digest decodes to that digest.
pub proof fn law_reading_undoes_writing(
    names: Seq<Name>,
    written: Vec<NoteNameText>,
    r: Result<Vec<Name>, WalletError>,
)
    requires
        all_plain(base58_texts(names)),
        all_plain(texts_as_written(written@)),
        texts_argument(texts_as_written(written@)) == names_argument(names),
        decoding_undoes_encoding(written@, names),
        reads_names(Ok(written), r),
    ensures
        r is Ok,
        r->Ok_0@.len() == names.len(),
        forall|i: int|
            0 <= i < names.len() ==> same_digest((#[trigger] names[i]).first, r->Ok_0@[i].first)
                && same_digest(names[i].last, r->Ok_0@[i].last),
        same_names(names, r->Ok_0@),
        names_argument(r->Ok_0@) == names_argument(names),
{
    let texts = texts_as_written(written@);
    law_argument_tells_texts(texts, base58_texts(names));
    assert(texts.len() == written@.len());
    assert(base58_texts(names).len() == names.len());
    assert forall|i: int| 0 <= i < names.len() implies {
        &&& written_name(#[trigger] written@[i]) matches Ok(name)
        &&& same_digest(names[i].first, name.first)
        &&& same_digest(names[i].last, name.last)
    } by {
        assert(texts[i] == base58_texts(names)[i]);
        assert(decodes_to(written@[i].first, names[i].first));
    }
    if r is Err {
        let refused = choose|refused: int| refuses_first(written@, refused, r->Err_0);
        assert(written_name(written@[refused]) is Ok);
    }
    let read = r->Ok_0@;
    assert forall|i: int| 0 <= i < names.len() implies same_digest(
        (#[trigger] names[i]).first,
        read[i].first,
    ) && same_digest(names[i].last, read[i].last) by {
        assert(written_name(written@[i]) == Ok::<Name, Seq<char>>(read[i]));
    }
    assert(base58_texts(read) =~= base58_texts(names)) by {
        assert forall|i: int| 0 <= i < names.len() implies #[trigger] base58_texts(read)[i]
            == base58_texts(names)[i] by {
            assert(same_digest(names[i].first, read[i].first));
        }
    }
    assert(order::keys(read) =~= order::keys(names)) by {
        assert forall|i: int| 0 <= i < names.len() implies #[trigger] order::keys(read)[i]
            == order::keys(names)[i] by {
            assert(same_digest(names[i].first, read[i].first));
            digest::lemma_limbs_key_injective(names[i].first.limbs, read[i].first.limbs);
            digest::lemma_limbs_key_injective(names[i].last.limbs, read[i].last.limbs);
        }
    }
}

/// The texts of these note names tell them apart just as their limbs do.
pub open spec fn texts_tell_limbs(names: Seq<Name>) -> bool {
    forall|i: int, j: int|
        0 <= i < names.len() && 0 <= j < names.len() ==> (digest::name_key(#[trigger] names[i])
            == digest::name_key(#[trigger] names[j]) <==> base58_texts(names)[i] == base58_texts(
            names,
        )[j])
}

/// If two ways to look at items tell them apart alike, lists that hold the same in one way hold
/// the same in the other.
pub proof fn lemma_same_either_way<A, X, Y>(
    a: Seq<A>,
    b: Seq<A>,
    f: spec_fn(A) -> X,
    g: spec_fn(A) -> Y,
)
    requires
        forall|i: int, j: int|
            0 <= i < a.len() && 0 <= j < b.len() && f(#[trigger] a[i]) == f(#[trigger] b[j]) ==> g(
                a[i],
            ) == g(b[j]),
        a.map_values(f).to_multiset() == b.map_values(f).to_multiset(),
    ensures
        a.map_values(g).to_multiset() == b.map_values(g).to_multiset(),
    decreases a.len(),
{
    broadcast use vstd::seq_lib::group_to_multiset_ensures;

    let fa = a.map_values(f);
    let fb = b.map_values(f);
    assert(fa.to_multiset().len() == a.len());
    assert(fb.to_multiset().len() == b.len());
    if a.len() == 0 {
        assert(a.map_values(g) =~= b.map_values(g));
    } else {
        assert(fa.contains(fa[0]));
        assert(fb.to_multiset().contains(fa[0]));
        assert(fb.contains(fa[0]));
        let j = choose|j: int| 0 <= j < fb.len() && fb[j] == fa[0];
        let fewer_a = a.remove(0);
        let fewer_b = b.remove(j);
        assert(fewer_a.map_values(f) =~= fa.remove(0));
        assert(fewer_b.map_values(f) =~= fb.remove(j));
        lemma_same_either_way(fewer_a, fewer_b, f, g);
        assert(f(a[0]) == f(b[j]));
        assert(a.map_values(g) =~= fewer_a.map_values(g).insert(0, g(a[0])));
        assert(b.map_values(g) =~= fewer_b.map_values(g).insert(j, g(b[j])));
    }
}

/// Where the texts of note names tell them apart just as their limbs do, a plan spends the
/// requested notes exactly when it lists the same texts, each as often.
pub proof fn law_parity_shows_in_texts(requested: Seq<Name>, planned: Seq<Name>)
    requires
        texts_tell_limbs(requested + planned),
    ensures
        same_names(requested, planned) <==> base58_texts(requested).to_multiset() == base58_texts(
            planned,
        ).to_multiset(),
{
    let key = |name: Name| digest::name_key(name);
    let text = |name: Name| (name.first.base58@, name.last.base58@);
    let both = requested + planned;
    assert(order::keys(requested) =~= requested.map_values(key));
    assert(order::keys(planned) =~= planned.map_values(key));
    assert forall|i: int, j: int| 0 <= i < requested.len() && 0 <= j < planned.len() implies (key(
        #[trigger] requested[i],
    ) == key(#[trigger] planned[j]) <==> text(requested[i]) == text(planned[j])) by {
        assert(both[i] == requested[i]);
        assert(both[requested.len() + j] == planned[j]);
    }
    if same_names(requested, planned) {
        lemma_same_either_way(requested, planned, key, text);
    }
    if base58_texts(requested).to_multiset() == base58_texts(planned).to_multiset() {
        lemma_same_either_way(requested, planned, text, key);
    }
}

} // verus!
