//! The association store: messages by identifier, the reactions applied to
//! them, and the chronological drain that ends collation.
use vstd::prelude::*;
use std::collections::HashMap;
use crate::contacts::ContactMap;
use crate::identity::{ResolvedHandle, HandleView, sender_identity};
use crate::reaction::{Reaction, ReactionAction, emoji_of};
use crate::message::{
    CleanMessage, MessageView, MessageRow, RowKind, ChatInfo, CollateError, reacted,
    lemma_reaction_map_finite,
    best_timestamp, message_of, passes_filter, chat_name_of, resolve_chat_name,
};

verus! {

broadcast use vstd::std_specs::hash::group_hash_axioms;

/// The collated messages, in the order they were first stored; no two
/// share an identifier.
pub struct MessageStore(Vec<CleanMessage>);

/// The views of a list of messages.
pub open spec fn views(s: Seq<CleanMessage>) -> Seq<MessageView> {
    s.map_values(|m: CleanMessage| m@)
}

/// The position of the last message with identifier `g`, or `-1`.
pub open spec fn find_guid(s: Seq<MessageView>, g: Seq<char>) -> int
    decreases s.len(),
{
    if s.len() == 0 {
        -1
    } else if s.last().guid == g {
        s.len() - 1
    } else {
        find_guid(s.drop_last(), g)
    }
}

/// No two messages share an identifier.
pub open spec fn distinct_guids(s: Seq<MessageView>) -> bool {
    forall|i: int, j: int| 0 <= i < s.len() && 0 <= j < s.len() && i != j
        ==> #[trigger] s[i].guid != #[trigger] s[j].guid
}

/// Every message holds finitely many reactions.
pub open spec fn reactions_finite(s: Seq<MessageView>) -> bool {
    forall|i: int| 0 <= i < s.len() ==> (#[trigger] s[i]).reactions.dom().finite()
}

/// Whether some message has identifier `g`.
pub open spec fn has_guid(s: Seq<MessageView>, g: Seq<char>) -> bool {
    exists|i: int| 0 <= i < s.len() && #[trigger] s[i].guid == g
}

/// The messages after storing `m`: it replaces the message with its
/// identifier, or else comes last.
pub open spec fn stored(s: Seq<MessageView>, m: MessageView) -> Seq<MessageView> {
    let i = find_guid(s, m.guid);
    if i >= 0 {
        s.update(i, m)
    } else {
        s.push(m)
    }
}

/// The messages after a reaction aimed at identifier `g`; a reaction whose
/// target is not stored changes nothing.
pub open spec fn store_reacted(
    s: Seq<MessageView>,
    g: Seq<char>,
    action: ReactionAction,
    author: HandleView,
    emoji: Seq<char>,
) -> Seq<MessageView> {
    let i = find_guid(s, g);
    if i >= 0 {
        s.update(i, reacted(s[i], action, author, emoji))
    } else {
        s
    }
}

/// The messages after offering `m` to the store: stored if it passes the
/// export filter, else left out.
pub open spec fn filtered_store(
    before_store: Seq<MessageView>,
    after_store: Seq<MessageView>,
    m: MessageView,
    on_or_after: Option<i32>,
    before: Option<i32>,
    chat_names: Seq<String>,
) -> bool {
    if passes_filter(m, on_or_after, before, chat_names) {
        after_store == stored(before_store, m)
    } else {
        after_store == before_store
    }
}

/// Whether every message's timestamp is at most the next one's.
pub open spec fn sorted_by_date(s: Seq<MessageView>) -> bool {
    forall|i: int, j: int| 0 <= i < j < s.len() ==> #[trigger] s[i].date <= #[trigger] s[j].date
}

/// `r` is `s` rearranged: position `k` of `r` holds the message at
/// position `perm[k]` of `s`, each position of `s` is used once, and
/// messages with equal timestamps keep their order from `s`.
pub open spec fn stable_arrangement(r: Seq<MessageView>, s: Seq<MessageView>, perm: Seq<int>) -> bool {
    &&& perm.len() == r.len() == s.len()
    &&& forall|k: int| 0 <= k < r.len() ==> 0 <= #[trigger] perm[k] < s.len() && r[k] == s[perm[k]]
    &&& forall|k: int, l: int| 0 <= k < r.len() && 0 <= l < r.len() && k != l
        ==> #[trigger] perm[k] != #[trigger] perm[l]
    &&& forall|k: int, l: int| 0 <= k < l < r.len() && r[k].date == r[l].date
        ==> #[trigger] perm[k] < #[trigger] perm[l]
}

/// `find_guid` names the last message with the identifier, or none exists.
pub proof fn lemma_find_guid(s: Seq<MessageView>, g: Seq<char>)
    ensures
        -1 <= find_guid(s, g) < s.len(),
        find_guid(s, g) == -1 <==> !has_guid(s, g),
        find_guid(s, g) >= 0 ==> s[find_guid(s, g)].guid == g,
        forall|j: int| find_guid(s, g) < j < s.len() ==> #[trigger] s[j].guid != g,
    decreases s.len(),
{
    if s.len() > 0 {
        lemma_find_guid(s.drop_last(), g);
        if s.last().guid != g {
            assert forall|j: int| 0 <= j < s.len() && #[trigger] s[j].guid == g
                implies j < s.len() - 1 && s.drop_last()[j].guid == g by {}
        }
    }
}

impl View for MessageStore {
    type V = Seq<MessageView>;

    closed spec fn view(&self) -> Seq<MessageView> {
        views(self.0@)
    }
}

impl MessageStore {
    /// The store's invariant: identifiers are unique, and each message
    /// holds finitely many reactions.
    pub open spec fn wf(&self) -> bool {
        distinct_guids(self@) && reactions_finite(self@)
    }

    /// An empty store.
    pub fn new() -> (r: MessageStore)
        ensures
            r.wf(),
            r@ == Seq::<MessageView>::empty(),
    {
        let r = MessageStore(Vec::new());
        assert(r@ =~= Seq::<MessageView>::empty());
        r
    }

    /// The number of messages stored.
    pub fn len(&self) -> (r: usize)
        ensures
            r == self@.len(),
    {
        self.0.len()
    }

    /// The position of the last message with identifier `guid`.
    fn position(&self, guid: &String) -> (r: Option<usize>)
        ensures
            r matches Some(i) ==> i as int == find_guid(self@, guid@),
            r is None ==> find_guid(self@, guid@) == -1,
    {
        let mut i: usize = self.0.len();
        assert(self@.subrange(0, i as int) =~= self@);
        while i > 0
            invariant
                i <= self.0.len(),
                find_guid(self@, guid@) == find_guid(self@.subrange(0, i as int), guid@),
            decreases i,
        {
            assert(self@.subrange(0, i as int).drop_last() =~= self@.subrange(0, i - 1));
            if self.0[i - 1].guid == *guid {
                return Some(i - 1);
            }
            i -= 1;
        }
        None
    }

    /// Stores a message, replacing the one with its identifier if any.
    pub fn insert(&mut self, message: CleanMessage)
        requires
            old(self).wf(),
        ensures
            final(self).wf(),
            final(self)@ == stored(old(self)@, message@),
    {
        let ghost m = message@;
        proof {
            lemma_find_guid(self@, m.guid);
            lemma_reaction_map_finite(message.tapbacks@);
        }
        match self.position(&message.guid) {
            Some(i) => {
                self.0.set(i, message);
                assert(self@ =~= old(self)@.update(i as int, m));
            },
            None => {
                self.0.push(message);
                assert(self@ =~= old(self)@.push(m));
            },
        }
    }

    /// Applies a reaction to the message with identifier `message_id`; a
    /// reaction whose target is not stored is dropped.
    pub fn tapback(
        &mut self,
        message_id: String,
        tapback_action: ReactionAction,
        tapback_handle: ResolvedHandle,
        tapback: Reaction,
    )
        requires
            old(self).wf(),
        ensures
            final(self).wf(),
            final(self)@ == store_reacted(
                old(self)@, message_id@, tapback_action, tapback_handle@, emoji_of(tapback)),
    {
        proof {
            lemma_find_guid(self@, message_id@);
        }
        match self.position(&message_id) {
            None => {},
            Some(i) => {
                let ghost before = self.0@[i as int]@;
                let mut m = self.0.remove(i);
                m.tapback(tapback_action, tapback_handle, tapback);
                self.0.insert(i, m);
                assert(self@ =~= old(self)@.update(
                    i as int, reacted(before, tapback_action, tapback_handle@, emoji_of(tapback))));
            },
        }
    }

    /// Stores `message` if it passes the export filter.
    pub fn insert_filtered(
        &mut self,
        message: CleanMessage,
        on_or_after: Option<i32>,
        before: Option<i32>,
        chat_names: &Vec<String>,
    )
        requires
            old(self).wf(),
        ensures
            final(self).wf(),
            filtered_store(old(self)@, final(self)@, message@, on_or_after, before, chat_names@),
    {
        if message.matches(on_or_after, before, chat_names) {
            self.insert(message);
        }
    }

    /// Takes in one row of the stream. A normal row becomes a message,
    /// stored if it passes the filter; a reaction row with a target is
    /// applied to that message; every other row is ignored. A normal row
    /// without a usable timestamp fails the ingestion and changes nothing.
    pub fn ingest(
        &mut self,
        row: MessageRow,
        handle_cache: &HashMap<i32, String>,
        contact_map: &ContactMap,
        chat_data_cache: &HashMap<i32, ChatInfo>,
        on_or_after: Option<i32>,
        before: Option<i32>,
        chat_names: &Vec<String>,
    ) -> (r: Result<(), CollateError>)
        requires
            old(self).wf(),
            row.kind is Normal && row.chat_id is Some ==> chat_data_cache@.contains_key(row.chat_id->0),
        ensures
            final(self).wf(),
            r is Err ==> final(self)@ == old(self)@,
            match row.kind {
                RowKind::Normal => {
                    &&& (r == Err::<(), CollateError>(CollateError::MissingTimestamp)
                        <==> best_timestamp(row.date_delivered, row.date_read, row.date) is None)
                    &&& (r matches Err(CollateError::InvalidTimestamp(t)) ==>
                        best_timestamp(row.date_delivered, row.date_read, row.date) == Some(t))
                    &&& (best_timestamp(row.date_delivered, row.date_read, row.date) matches Some(t)
                        ==> (t >= 0 ==> r is Ok))
                    &&& (r is Ok ==> exists|day: i32| filtered_store(
                        old(self)@,
                        final(self)@,
                        #[trigger] message_of(
                            row, handle_cache@, contact_map@,
                            chat_name_of(row.chat_id, chat_data_cache@, contact_map@),
                            best_timestamp(row.date_delivered, row.date_read, row.date)->0, day),
                        on_or_after, before, chat_names@))
                },
                RowKind::Reaction { action, reaction, target } => {
                    &&& r is Ok
                    &&& final(self)@ == match target {
                        Some(t) => store_reacted(
                            old(self)@, t@, action,
                            sender_identity(row.is_from_me, row.handle_id, handle_cache@, contact_map@),
                            emoji_of(reaction)),
                        None => old(self)@,
                    }
                },
                _ => r is Ok && final(self)@ == old(self)@,
            },
    {
        let ghost row0 = row;
        match row.kind {
            RowKind::Normal => {
                let chat_name = resolve_chat_name(row.chat_id, chat_data_cache, contact_map);
                let ghost name = chat_name_of(row.chat_id, chat_data_cache@, contact_map@);
                let kind = RowKind::Normal;
                let row = MessageRow { kind, ..row };
                let ghost best = best_timestamp(row0.date_delivered, row0.date_read, row0.date);
                assert(best == best_timestamp(row.date_delivered, row.date_read, row.date));
                match CleanMessage::from_message(handle_cache, contact_map, chat_name, row) {
                    Err(e) => Err(e),
                    Ok(m) => {
                        let ghost mv = m@;
                        assert(best == Some(m.date));
                        assert(mv == message_of(row0, handle_cache@, contact_map@, name, m.date, m.day));
                        self.insert_filtered(m, on_or_after, before, chat_names);
                        assert(filtered_store(old(self)@, self@,
                            message_of(row0, handle_cache@, contact_map@, name, best->0, mv.day),
                            on_or_after, before, chat_names@));
                        Ok(())
                    },
                }
            },
            RowKind::Reaction { action, reaction, target } => {
                match target {
                    Some(t) => {
                        let author = ResolvedHandle::from_message_sender(
                            row.is_from_me,
                            row.handle_id,
                            handle_cache,
                            contact_map,
                        );
                        self.tapback(t, action, author, reaction);
                    },
                    None => {},
                }
                Ok(())
            },
            _ => Ok(()),
        }
    }

    /// Ends collation: every stored message, ordered by timestamp; messages
    /// with equal timestamps keep the order in which they were stored.
    pub fn drain_to_sorted_vector(self) -> (r: Vec<CleanMessage>)
        ensures
            sorted_by_date(views(r@)),
            views(r@).to_multiset() == self@.to_multiset(),
            exists|perm: Seq<int>| stable_arrangement(views(r@), self@, perm),
    {
        // An insertion sort: rows arrive nearly in time order, so few
        // messages move. `perm` records where each message was stored.
        let mut v = self.0;
        let ghost orig = views(v@);
        let ghost mut perm: Seq<int> = Seq::new(orig.len(), |k: int| k);
        let mut i: usize = 1;
        while i < v.len()
            invariant
                1 <= i,
                orig == self@,
                forall|a: int, b: int| 0 <= a < b < i && b < v@.len() ==> #[trigger] v@[a].date <= #[trigger] v@[b].date,
                views(v@).to_multiset() == orig.to_multiset(),
                perm.len() == v@.len() == orig.len(),
                forall|k: int| 0 <= k < v@.len() ==> 0 <= #[trigger] perm[k] < orig.len() && v@[k]@ == orig[perm[k]],
                forall|k: int, l: int| 0 <= k < v@.len() && 0 <= l < v@.len() && k != l
                    ==> #[trigger] perm[k] != #[trigger] perm[l],
                forall|k: int| i <= k < v@.len() ==> #[trigger] perm[k] == k,
                forall|k: int| 0 <= k < i && k < v@.len() ==> #[trigger] perm[k] < i,
                forall|a: int, b: int| 0 <= a < b < i && b < v@.len() && v@[a].date == v@[b].date
                    ==> #[trigger] perm[a] < #[trigger] perm[b],
            decreases v.len() - i,
        {
            let d = v[i].date;
            let mut p: usize = i;
            while p > 0 && v[p - 1].date > d
                invariant
                    p <= i < v.len(),
                    d == v@[i as int].date,
                    forall|q: int| p <= q < i ==> #[trigger] v@[q].date > d,
                decreases p,
            {
                p -= 1;
            }
            if p < i {
                let ghost w0 = v@;
                let ghost perm0 = perm;
                let x = v.remove(i);
                proof {
                    assert(views(v@) =~= views(w0).remove(i as int));
                    vstd::seq_lib::to_multiset_remove(views(w0), i as int);
                }
                let ghost w1 = v@;
                v.insert(p, x);
                proof {
                    perm = perm0.remove(i as int).insert(p as int, i as int);
                    assert(views(v@) =~= views(w1).insert(p as int, x@));
                    vstd::seq_lib::to_multiset_insert(views(w1), p as int, x@);
                    assert(views(w0)[i as int] == x@);
                    assert(views(w0).contains(x@));
                    vstd::seq_lib::to_multiset_contains(views(w0), x@);
                    broadcast use vstd::multiset::group_multiset_axioms;
                    assert(orig.to_multiset() =~= views(v@).to_multiset());
                    // Position k of the new order holds what stood at old(k).
                    assert forall|k: int| 0 <= k < v@.len() implies
                        (k < p ==> v@[k] == w0[k] && perm[k] == perm0[k])
                        && (k == p ==> v@[k] == w0[i as int] && perm[k] == i)
                        && (p < k <= i ==> v@[k] == w0[k - 1] && perm[k] == perm0[k - 1])
                        && (k > i ==> v@[k] == w0[k] && perm[k] == perm0[k]) by {}
                    assert forall|k: int| 0 <= k < v@.len() implies
                        0 <= #[trigger] perm[k] < orig.len() && v@[k]@ == orig[perm[k]] by {
                        if k == p {
                            assert(perm0[i as int] == i);
                        }
                    }
                    assert forall|k: int, l: int| 0 <= k < v@.len() && 0 <= l < v@.len() && k != l
                        implies #[trigger] perm[k] != #[trigger] perm[l] by {
                        assert(perm0[i as int] == i);
                    }
                    assert forall|a: int, b: int| 0 <= a < b < i + 1 && b < v@.len() implies
                        #[trigger] v@[a].date <= #[trigger] v@[b].date by {
                        if b < p {
                        } else if b == p {
                            if p > 0 {
                                assert(w0[p - 1].date <= d);
                                assert(w0[a].date <= w0[p - 1].date || a == p - 1);
                            }
                        } else if a < p {
                        } else if a == p {
                            assert(w0[b - 1].date > d);
                        } else {
                        }
                    }
                    assert forall|a: int, b: int| 0 <= a < b < i + 1 && b < v@.len() && v@[a].date == v@[b].date
                        implies #[trigger] perm[a] < #[trigger] perm[b] by {
                        if b == p {
                            assert(perm0[a] < i);
                        } else if a == p {
                            assert(w0[b - 1].date > d);
                        }
                    }
                }
            } else {
                proof {
                    assert forall|a: int, b: int| 0 <= a < b < i + 1 && b < v@.len() implies
                        #[trigger] v@[a].date <= #[trigger] v@[b].date by {
                        if b == i && i > 0 {
                            assert(v@[i - 1].date <= d);
                            assert(v@[a].date <= v@[i - 1].date || a == i - 1);
                        }
                    }
                    assert forall|a: int, b: int| 0 <= a < b < i + 1 && b < v@.len() && v@[a].date == v@[b].date
                        implies #[trigger] perm[a] < #[trigger] perm[b] by {
                        if b == i {
                            assert(perm[a] < i);
                        }
                    }
                }
            }
            i += 1;
        }
        proof {
            assert(stable_arrangement(views(v@), self@, perm));
        }
        v
    }
}

} // verus!
