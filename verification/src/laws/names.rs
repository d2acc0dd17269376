//! Note names: read, written, and held against a plan.

use crate::digest;
use crate::digest::Name;
use crate::error::WalletError;
use crate::laws::lists;
use crate::names;
use crate::names::NoteNameText;
use crate::order;
use crate::wallet::Wallet;
use vstd::prelude::*;

verus! {

/// Both digests of the name decode.
pub open spec fn decodes(name: NoteNameText) -> bool {
    name.first.decoded is Ok && name.last.decoded is Ok
}

/// Names are read when all of them decode, and then they are the decoded digests, one name for
/// each that was written, in order.
pub proof fn law_names_are_read_as_decoded(
    written: Vec<NoteNameText>,
    r: Result<Vec<Name>, WalletError>,
)
    requires
        call_ensures(Wallet::parse_note_names_as_hashes, (Ok(written),), r),
    ensures
        r is Ok <==> forall|i: int| 0 <= i < written@.len() ==> decodes(#[trigger] written@[i]),
        r matches Ok(read) ==> read@.len() == written@.len() && forall|i: int|
            0 <= i < written@.len() ==> (#[trigger] read@[i]).first
                == written@[i].first.decoded->Ok_0 && read@[i].last
                == written@[i].last.decoded->Ok_0,
{
    if r is Ok {
        let read = r->Ok_0@;
        assert forall|i: int| 0 <= i < written@.len() implies decodes(#[trigger] written@[i])
            && read[i].first == written@[i].first.decoded->Ok_0 && read[i].last
            == written@[i].last.decoded->Ok_0 by {
            assert(names::written_name(written@[i]) == Ok::<Name, Seq<char>>(read[i]));
        }
    } else {
        let refused = choose|refused: int| names::refuses_first(written@, refused, r->Err_0);
        assert(!decodes(written@[refused]));
    }
}

/// The first name that does not decode is the one that is reported, its first digest before its
/// last, with the text and the reason.
pub proof fn law_first_undecodable_name_is_reported(
    written: Vec<NoteNameText>,
    i: int,
    r: Result<Vec<Name>, WalletError>,
)
    requires
        call_ensures(Wallet::parse_note_names_as_hashes, (Ok(written),), r),
        0 <= i < written@.len(),
        !decodes(written@[i]),
        forall|j: int| 0 <= j < i ==> decodes(#[trigger] written@[j]),
    ensures
        r matches Err(WalletError::Unknown(words)) && words@ == (match written@[i].first.decoded {
            Err(reason) => "Invalid note first-name hash '"@ + written@[i].first.text@ + "': "@
                + reason@,
            Ok(_) => "Invalid note last-name hash '"@ + written@[i].last.text@ + "': "@
                + written@[i].last.decoded->Err_0@,
        }),
{
    law_names_are_read_as_decoded(written, r);
    let refused = choose|refused: int| names::refuses_first(written@, refused, r->Err_0);
    if refused < i {
        assert(decodes(written@[refused]));
    } else if i < refused {
        assert(names::written_name(written@[i]) is Ok);
    }
}

/// An argument that cannot be read is reported as it is.
pub proof fn law_unreadable_names_are_reported(err: WalletError, r: Result<Vec<Name>, WalletError>)
    requires
        call_ensures(Wallet::parse_note_names_as_hashes, (Err(err),), r),
    ensures
        r == Err::<Vec<Name>, WalletError>(err),
{
}

/// One name is written in brackets, its first text, a space, its last text; no name is written as
/// nothing.
pub proof fn law_name_is_written_in_brackets(names: &[Name], argument: String)
    requires
        call_ensures(Wallet::format_note_names_for_create_tx, (names,), argument),
    ensures
        names@.len() == 0 ==> argument@.len() == 0,
        names@.len() == 1 ==> argument@ == "["@ + names@[0].first.base58@ + " "@
            + names@[0].last.base58@ + "]"@,
{
    if names@.len() == 1 {
        let texts = names::base58_texts(names@);
        assert(texts.len() == 1);
        assert(texts[0] == (names@[0].first.base58@, names@[0].last.base58@));
    }
}

/// Two lists are written one after the other, with a comma between.
pub proof fn law_lists_are_written_one_after_the_other(
    a: &[Name],
    b: &[Name],
    both: &[Name],
    argument_a: String,
    argument_b: String,
    argument: String,
)
    requires
        call_ensures(Wallet::format_note_names_for_create_tx, (a,), argument_a),
        call_ensures(Wallet::format_note_names_for_create_tx, (b,), argument_b),
        call_ensures(Wallet::format_note_names_for_create_tx, (both,), argument),
        both@ == a@ + b@,
        a@.len() > 0,
        b@.len() > 0,
    ensures
        argument@ == argument_a@ + ","@ + argument_b@,
{
    names::law_arguments_are_joined_by_comma(a@, b@);
}

/// The limbs of note names, each the first and the last.
pub open spec fn limb_pairs(names: Seq<Name>) -> Seq<(Seq<u64>, Seq<u64>)> {
    Seq::new(names.len(), |i: int| (names[i].first.limbs@, names[i].last.limbs@))
}

pub proof fn lemma_same_names(a: Seq<Name>, b: Seq<Name>)
    ensures
        names::same_names(a, b) <==> limb_pairs(a).to_multiset() == limb_pairs(b).to_multiset(),
{
    let key = |name: Name| digest::name_key(name);
    let pair = |name: Name| (name.first.limbs@, name.last.limbs@);
    assert(order::keys(a) =~= a.map_values(key));
    assert(order::keys(b) =~= b.map_values(key));
    assert(limb_pairs(a) =~= a.map_values(pair));
    assert(limb_pairs(b) =~= b.map_values(pair));
    assert forall|i: int, j: int| 0 <= i < a.len() && 0 <= j < b.len() implies (key(
        #[trigger] a[i],
    ) == key(#[trigger] b[j]) <==> pair(a[i]) == pair(b[j])) by {
        lists::lemma_name_before(a[i], b[j]);
    }
    if names::same_names(a, b) {
        names::lemma_same_either_way(a, b, key, pair);
    }
    if limb_pairs(a).to_multiset() == limb_pairs(b).to_multiset() {
        names::lemma_same_either_way(a, b, pair, key);
    }
}

/// A plan is accepted exactly when it spends the requested notes, each as often, in whatever
/// order; otherwise both lists are reported as they are written.
pub proof fn law_plan_must_spend_the_requested_notes(
    requested: &[Name],
    planned: &[Name],
    requested_argument: String,
    planned_argument: String,
    r: Result<(), String>,
)
    requires
        call_ensures(names::ensure_manual_planner_parity, (requested, planned), r),
        call_ensures(Wallet::format_note_names_for_create_tx, (requested,), requested_argument),
        call_ensures(Wallet::format_note_names_for_create_tx, (planned,), planned_argument),
    ensures
        r is Ok <==> limb_pairs(requested@).to_multiset() == limb_pairs(planned@).to_multiset(),
        r matches Err(reason) ==> reason@
            == "planner parity mismatch: selected names differ from user-provided manual names (planned='"@
            + planned_argument@ + "', requested='"@ + requested_argument@ + "')"@,
{
    lemma_same_names(requested@, planned@);
}

} // verus!
