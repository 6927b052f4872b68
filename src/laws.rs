//! Properties of the collation stated over the library's models and proved.
use vstd::prelude::*;
use crate::contacts::{digits_of, normalized, is_digit};
use crate::identity::{sender_identity, me_identity, unknown_identity};
use crate::message::MessageView;
use crate::reaction::ReactionAction;
use crate::identity::HandleView;
use crate::store::{store_reacted, find_guid, has_guid, lemma_find_guid, reactions_finite};

verus! {

/// The digits of a concatenation are the digits of each part in turn.
pub proof fn lemma_digits_concat(a: Seq<char>, b: Seq<char>)
    ensures
        digits_of(a + b) == digits_of(a) + digits_of(b),
    decreases b.len(),
{
    if b.len() == 0 {
        assert(a + b =~= a);
        assert(digits_of(a) + digits_of(b) =~= digits_of(a));
    } else {
        lemma_digits_concat(a, b.drop_last());
        assert((a + b).drop_last() =~= a + b.drop_last());
        assert((a + b).last() == b.last());
        assert(digits_of(a + b) =~= digits_of(a) + digits_of(b));
    }
}

/// A sequence of digits is its own digit sequence.
pub proof fn lemma_digits_of_digits(d: Seq<char>)
    requires
        forall|i: int| 0 <= i < d.len() ==> is_digit(#[trigger] d[i]),
    ensures
        digits_of(d) == d,
    decreases d.len(),
{
    if d.len() > 0 {
        lemma_digits_of_digits(d.drop_last());
        assert(d.drop_last().push(d.last()) =~= d);
    }
}

/// Every character of a digit sequence is a digit.
pub proof fn lemma_digits_are_digits(s: Seq<char>)
    ensures
        forall|i: int| 0 <= i < digits_of(s).len() ==> is_digit(#[trigger] digits_of(s)[i]),
    decreases s.len(),
{
    if s.len() > 0 {
        lemma_digits_are_digits(s.drop_last());
        let p = digits_of(s.drop_last());
        if is_digit(s.last()) {
            assert forall|i: int| 0 <= i < digits_of(s).len() implies is_digit(#[trigger] digits_of(s)[i]) by {
                if i < p.len() {
                    assert(digits_of(s)[i] == p[i]);
                }
            }
        }
    }
}

/// Normalizing a number with ten or more digits gives a number that starts
/// with `+`, and normalizing that again changes nothing.
pub proof fn lemma_normalize_idempotent(x: Seq<char>)
    requires
        digits_of(x).len() >= 10,
    ensures
        normalized(x) is Some,
        normalized(x)->0[0] == '+',
        normalized(normalized(x)->0) == normalized(x),
{
    let d = digits_of(x);
    lemma_digits_are_digits(x);
    lemma_digits_of_digits(d);
    let y = normalized(x)->0;
    assert(digits_of(seq!['+']) =~= Seq::<char>::empty()) by {
        assert(seq!['+'].drop_last() =~= Seq::<char>::empty());
        reveal_with_fuel(digits_of, 2);
    }
    if d.len() == 10 {
        lemma_digits_concat(seq!['+'], seq!['1'] + d);
        lemma_digits_concat(seq!['1'], d);
        assert(digits_of(seq!['1']) =~= seq!['1']) by {
            assert(seq!['1'].drop_last() =~= Seq::<char>::empty());
            reveal_with_fuel(digits_of, 2);
        }
        assert(y =~= seq!['+'] + (seq!['1'] + d));
        assert(digits_of(y) =~= seq!['1'] + d);
        assert(seq!['+'] + digits_of(y) =~= y);
    } else {
        lemma_digits_concat(seq!['+'], d);
        assert(digits_of(y) =~= d);
    }
}

/// A row marked as sent by the owner resolves to the owner, whatever
/// handle it names.
pub proof fn lemma_self_row_is_me(
    handle_id: Option<i32>,
    handles: Map<i32, String>,
    contacts: Map<Seq<char>, Seq<char>>,
)
    ensures
        sender_identity(true, handle_id, handles, contacts) == me_identity(),
{
}

/// A row that is not marked as the owner's and names no handle resolves to
/// the unknown sender, never to the owner.
pub proof fn lemma_absent_sender_is_unknown(
    handles: Map<i32, String>,
    contacts: Map<Seq<char>, Seq<char>>,
)
    ensures
        sender_identity(false, None, handles, contacts) == unknown_identity(),
        sender_identity(false, None, handles, contacts) != me_identity(),
{
}

/// After an added reaction on a stored message, the message has exactly
/// one reaction by that author, the one added: the count of reactions grows
/// by one where the author had none and stays where it had one. Adding it
/// again changes nothing.
pub proof fn lemma_added_reaction_single(
    s: Seq<MessageView>,
    g: Seq<char>,
    author: HandleView,
    emoji: Seq<char>,
)
    requires
        has_guid(s, g),
        reactions_finite(s),
    ensures
        ({
            let i = find_guid(s, g);
            let t = store_reacted(s, g, ReactionAction::Added, author, emoji);
            &&& t[i].reactions.contains_key(author)
            &&& t[i].reactions[author] == emoji
            &&& t[i].reactions.dom().len() == s[i].reactions.dom().len()
                + if s[i].reactions.contains_key(author) { 0int } else { 1int }
            &&& store_reacted(t, g, ReactionAction::Added, author, emoji) == t
        }),
{
    lemma_find_guid(s, g);
    let i = find_guid(s, g);
    let t = store_reacted(s, g, ReactionAction::Added, author, emoji);
    assert(forall|j: int| 0 <= j < s.len() ==> #[trigger] t[j].guid == s[j].guid);
    assert(has_guid(t, g)) by {
        assert(t[i].guid == g);
    }
    lemma_find_guid(t, g);
    let ft = find_guid(t, g);
    assert(t.len() == s.len());
    if ft < i {
        assert(t[i].guid == g);
    }
    if ft > i {
        assert(s[ft].guid == t[ft].guid);
    }
    assert(ft == i);
    assert(t[i].reactions.insert(author, emoji) =~= t[i].reactions);
    assert(store_reacted(t, g, ReactionAction::Added, author, emoji) =~= t);
}

/// After a removed reaction, no message has an entry by that author where
/// the reaction was aimed, whether or not it had one before.
pub proof fn lemma_removed_reaction_absent(
    s: Seq<MessageView>,
    g: Seq<char>,
    author: HandleView,
    emoji: Seq<char>,
)
    requires
        has_guid(s, g),
    ensures
        !store_reacted(s, g, ReactionAction::Removed, author, emoji)[find_guid(s, g)].reactions.contains_key(author),
{
    lemma_find_guid(s, g);
}

} // verus!
