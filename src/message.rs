//! Raw rows as the database decoder hands them over, and the canonical
//! message built from a normal row.
use vstd::prelude::*;
use std::collections::HashMap;
use crate::contacts::ContactMap;
use crate::identity::{ResolvedHandle, HandleView, sender_identity};
use crate::reaction::{Reaction, ReactionAction, TapbackEmoji, emoji_of};

verus! {

broadcast use vstd::std_specs::hash::group_hash_axioms;

/// What the chat table records of a conversation.
pub struct ChatInfo {
    pub display_name: Option<String>,
    pub chat_identifier: String,
}

/// The variant of a row.
pub enum RowKind {
    /// An ordinary message.
    Normal,
    /// An edit of an earlier message.
    Edited,
    /// A reaction to the message whose identifier is `target`, where the
    /// decoder could extract one.
    Reaction { action: ReactionAction, reaction: Reaction, target: Option<String> },
    /// Anything else: app payloads, polls, SharePlay, unknown variants.
    Other,
}

/// One decoded row of the message table.
pub struct MessageRow {
    pub guid: String,
    pub text: Option<String>,
    pub is_from_me: bool,
    pub handle_id: Option<i32>,
    pub chat_id: Option<i32>,
    /// When the message was written, as a raw database timestamp; `0` when unset.
    pub date: i64,
    /// When it was read; `0` when unset.
    pub date_read: i64,
    /// When it was delivered; `0` when unset.
    pub date_delivered: i64,
    /// References to its attachments, present only where the row carries some.
    pub attachments: Vec<String>,
    pub kind: RowKind,
}

/// Why a normal row yields no message.
#[derive(PartialEq, Eq, Structural, Clone, Copy, Debug)]
pub enum CollateError {
    /// The row has no delivered, read or written timestamp.
    MissingTimestamp,
    /// The selected timestamp lies outside the calendar range.
    InvalidTimestamp(i64),
}

/// A message of the exported history.
pub struct CleanMessage {
    /// Identifier of the message, unique over the database.
    pub guid: String,
    pub text: String,
    pub from: ResolvedHandle,
    /// The conversation's display name, where it has one.
    pub chat_name: Option<String>,
    pub chat_id: Option<i32>,
    /// The best timestamp of the row (raw database units); orders the export.
    pub date: i64,
    /// The local calendar day of `date`, as days from the common era.
    pub day: i32,
    /// Reactions by author; of two entries for one author the later counts.
    pub tapbacks: Vec<(ResolvedHandle, TapbackEmoji)>,
    pub attachments: Vec<String>,
}

/// A message as plain values.
pub struct MessageView {
    pub guid: Seq<char>,
    pub text: Seq<char>,
    pub from: HandleView,
    pub chat_name: Option<Seq<char>>,
    pub chat_id: Option<i32>,
    pub date: i64,
    pub day: i32,
    pub reactions: Map<HandleView, Seq<char>>,
    pub attachments: Seq<String>,
}

/// The reactions that a list of entries stands for, later entries winning.
pub open spec fn reaction_map(s: Seq<(ResolvedHandle, TapbackEmoji)>) -> Map<HandleView, Seq<char>>
    decreases s.len(),
{
    if s.len() == 0 {
        Map::empty()
    } else {
        reaction_map(s.drop_last()).insert(s.last().0@, s.last().1@)
    }
}

/// A message holds finitely many reactions.
pub proof fn lemma_reaction_map_finite(s: Seq<(ResolvedHandle, TapbackEmoji)>)
    ensures
        reaction_map(s).dom().finite(),
    decreases s.len(),
{
    if s.len() > 0 {
        lemma_reaction_map_finite(s.drop_last());
    }
}

/// The view of an optional string.
pub open spec fn opt_view(o: Option<String>) -> Option<Seq<char>> {
    match o {
        Some(s) => Some(s@),
        None => None,
    }
}

impl View for CleanMessage {
    type V = MessageView;

    open spec fn view(&self) -> MessageView {
        MessageView {
            guid: self.guid@,
            text: self.text@,
            from: self.from@,
            chat_name: opt_view(self.chat_name),
            chat_id: self.chat_id,
            date: self.date,
            day: self.day,
            reactions: reaction_map(self.tapbacks@),
            attachments: self.attachments@,
        }
    }
}

/// The effect of one reaction on a message: adding records the author's
/// reaction, replacing any earlier one; removing drops the author's entry.
pub open spec fn reacted(m: MessageView, action: ReactionAction, author: HandleView, emoji: Seq<char>) -> MessageView {
    MessageView {
        reactions: match action {
            ReactionAction::Added => m.reactions.insert(author, emoji),
            ReactionAction::Removed => m.reactions.remove(author),
        },
        ..m
    }
}

/// The first non-zero timestamp among delivered, read and written.
pub open spec fn best_timestamp(delivered: i64, read: i64, written: i64) -> Option<i64> {
    if delivered != 0 {
        Some(delivered)
    } else if read != 0 {
        Some(read)
    } else if written != 0 {
        Some(written)
    } else {
        None
    }
}

/// The seconds between the Unix epoch and the database epoch, 2001-01-01 UTC.
pub open spec fn database_epoch_offset() -> i64 {
    978_307_200
}

/// The message that a normal row yields, given its timestamp and day.
pub open spec fn message_of(
    row: MessageRow,
    handles: Map<i32, String>,
    contacts: Map<Seq<char>, Seq<char>>,
    chat_name: Option<Seq<char>>,
    date: i64,
    day: i32,
) -> MessageView {
    MessageView {
        guid: row.guid@,
        text: match row.text {
            Some(t) => t@,
            None => Seq::empty(),
        },
        from: sender_identity(row.is_from_me, row.handle_id, handles, contacts),
        chat_name: chat_name,
        chat_id: row.chat_id,
        date: date,
        day: day,
        reactions: Map::empty(),
        attachments: row.attachments@,
    }
}

/// Whether a message passes the export filter: on or after the first day,
/// before the end day, and in one of the named conversations where any are
/// named.
pub open spec fn passes_filter(
    m: MessageView,
    on_or_after: Option<i32>,
    before: Option<i32>,
    chat_names: Seq<String>,
) -> bool {
    &&& (on_or_after matches Some(lo) ==> m.day >= lo)
    &&& (before matches Some(hi) ==> m.day < hi)
    &&& (chat_names.len() > 0 ==> (m.chat_name matches Some(n)
        && exists|i: int| 0 <= i < chat_names.len() && #[trigger] chat_names[i]@ == n))
}

/// The name shown for a conversation: its display name where it has a
/// non-empty one, else the directory's name for its chat identifier, else
/// the identifier itself.
pub open spec fn chat_name_of(
    chat_id: Option<i32>,
    chats: Map<i32, ChatInfo>,
    contacts: Map<Seq<char>, Seq<char>>,
) -> Option<Seq<char>> {
    match chat_id {
        None => None,
        Some(c) => {
            let chat = chats[c];
            match chat.display_name {
                Some(d) if d@.len() > 0 => Some(d@),
                _ => if contacts.contains_key(chat.chat_identifier@) {
                    Some(contacts[chat.chat_identifier@])
                } else {
                    Some(chat.chat_identifier@)
                },
            }
        },
    }
}

/// Relies on `imessage_database::util::dates::get_offset`, which returns the
/// Unix time of 2001-01-01 00:00:00 UTC, the database's epoch.
#[verifier::external_body]
fn epoch_offset() -> (r: i64)
    ensures
        r == database_epoch_offset(),
{
    imessage_database::util::dates::get_offset()
}

/// Relies on `imessage_database::util::dates::get_local_time`, which turns a
/// raw timestamp into the machine's local time (an error where the instant
/// lies outside chrono's calendar), and on chrono's
/// `Datelike::num_days_from_ce` for that local time's day number. The local
/// time exists only inside this call. With the database's own epoch offset
/// the addition inside cannot overflow. A non-negative stamp stands for at
/// most about 10^12 seconds after 2001, a year near 33,700, well inside
/// chrono's calendar, so the conversion succeeds there. Which day comes back
/// depends on the machine's time zone, so nothing is stated of it.
#[verifier::external_body]
fn local_day(stamp: i64, offset: i64) -> (r: Option<i32>)
    requires
        offset == database_epoch_offset(),
    ensures
        stamp >= 0 ==> r is Some,
{
    match imessage_database::util::dates::get_local_time(stamp, offset) {
        Ok(t) => Some(chrono::Datelike::num_days_from_ce(&t)),
        Err(_) => None,
    }
}

/// The name shown for a message's conversation.
pub fn resolve_chat_name(
    chat_id: Option<i32>,
    chat_data_cache: &HashMap<i32, ChatInfo>,
    contact_map: &ContactMap,
) -> (r: Option<String>)
    requires
        chat_id matches Some(c) ==> chat_data_cache@.contains_key(c),
    ensures
        opt_view(r) == chat_name_of(chat_id, chat_data_cache@, contact_map@),
{
    match chat_id {
        None => None,
        Some(c) => {
            let chat = chat_data_cache.get(&c).unwrap();
            match &chat.display_name {
                Some(d) if !d.as_str().is_empty() => Some(d.clone()),
                _ => match contact_map.get(chat.chat_identifier.as_str()) {
                    Some(n) => Some(n.clone()),
                    None => Some(chat.chat_identifier.clone()),
                },
            }
        },
    }
}

impl CleanMessage {
    /// The message for a normal row whose timestamp and local day are known.
    pub fn from_message_on_day(
        handle_cache: &HashMap<i32, String>,
        contact_map: &ContactMap,
        chat_name: Option<String>,
        message: MessageRow,
        date: i64,
        day: i32,
    ) -> (r: CleanMessage)
        ensures
            r@ == message_of(message, handle_cache@, contact_map@, opt_view(chat_name), date, day),
    {
        let from = ResolvedHandle::from_message_sender(
            message.is_from_me,
            message.handle_id,
            handle_cache,
            contact_map,
        );
        let text = match message.text {
            Some(t) => t,
            None => String::new(),
        };
        let r = CleanMessage {
            guid: message.guid,
            text,
            from,
            chat_name,
            chat_id: message.chat_id,
            date,
            day,
            tapbacks: Vec::new(),
            attachments: message.attachments,
        };
        assert(r@.reactions =~= Map::empty());
        r
    }

    /// The message for a normal row. Its timestamp is the delivered one,
    /// else the read one, else the written one; a row with none of them
    /// yields `MissingTimestamp`, and one whose timestamp has no calendar
    /// day yields `InvalidTimestamp`, which a non-negative timestamp never
    /// does.
    pub fn from_message(
        handle_cache: &HashMap<i32, String>,
        contact_map: &ContactMap,
        chat_name: Option<String>,
        message: MessageRow,
    ) -> (r: Result<CleanMessage, CollateError>)
        ensures
            (r == Err::<CleanMessage, CollateError>(CollateError::MissingTimestamp))
                <==> best_timestamp(message.date_delivered, message.date_read, message.date) is None,
            r matches Err(CollateError::InvalidTimestamp(t))
                ==> best_timestamp(message.date_delivered, message.date_read, message.date) == Some(t),
            best_timestamp(message.date_delivered, message.date_read, message.date) matches Some(t)
                ==> (t >= 0 ==> r is Ok),
            r matches Ok(m) ==> best_timestamp(message.date_delivered, message.date_read, message.date)
                == Some(m.date) && m@ == message_of(
                    message, handle_cache@, contact_map@, opt_view(chat_name), m.date, m.day),
    {
        let stamp = if message.date_delivered != 0 {
            message.date_delivered
        } else if message.date_read != 0 {
            message.date_read
        } else if message.date != 0 {
            message.date
        } else {
            return Err(CollateError::MissingTimestamp);
        };
        match local_day(stamp, epoch_offset()) {
            None => Err(CollateError::InvalidTimestamp(stamp)),
            Some(day) => Ok(CleanMessage::from_message_on_day(
                handle_cache,
                contact_map,
                chat_name,
                message,
                stamp,
                day,
            )),
        }
    }

    /// Applies a reaction by `tapback_handle`: `Added` records it, replacing
    /// that author's earlier one; `Removed` drops that author's entry.
    pub fn tapback(
        &mut self,
        tapback_action: ReactionAction,
        tapback_handle: ResolvedHandle,
        tapback: Reaction,
    )
        ensures
            final(self)@ == reacted(old(self)@, tapback_action, tapback_handle@, emoji_of(tapback)),
            tapback_action == ReactionAction::Added ==> final(self).tapbacks@.len() > 0
                && final(self).tapbacks@.last().0@ == tapback_handle@,
            forall|k: int| 0 <= k < final(self).tapbacks@.len()
                && (#[trigger] final(self).tapbacks@[k]).0@ == tapback_handle@
                ==> tapback_action == ReactionAction::Added && k == final(self).tapbacks@.len() - 1,
    {
        let emoji = TapbackEmoji::from_message_tapback(tapback);
        let mut old_entries: Vec<(ResolvedHandle, TapbackEmoji)> = Vec::new();
        std::mem::swap(&mut old_entries, &mut self.tapbacks);
        let total = old_entries.len();
        let ghost all = old_entries@;
        let ghost author = tapback_handle@;
        let mut kept: Vec<(ResolvedHandle, TapbackEmoji)> = Vec::new();
        let mut i: usize = 0;
        while old_entries.len() > 0
            invariant
                i + old_entries@.len() == all.len(),
                all.len() == total,
                author == tapback_handle@,
                forall|k: int| 0 <= k < kept@.len() ==> (#[trigger] kept@[k]).0@ != author,
                old_entries@ == all.subrange(i as int, all.len() as int),
                reaction_map(kept@) == reaction_map(all.subrange(0, i as int)).remove(author),
            decreases old_entries@.len(),
        {
            let e = old_entries.remove(0);
            assert(e == all[i as int]);
            assert(all.subrange(0, i + 1).drop_last() =~= all.subrange(0, i as int));
            assert(all.subrange(0, i + 1).last() == e);
            assert(reaction_map(all.subrange(0, i + 1))
                == reaction_map(all.subrange(0, i as int)).insert(e.0@, e.1@));
            let ghost before_map = reaction_map(all.subrange(0, i as int));
            let ghost key = e.0@;
            let ghost val = e.1@;
            if !e.0.same_as(&tapback_handle) {
                let ghost prev = kept@;
                kept.push(e);
                assert(kept@.drop_last() =~= prev);
                assert(reaction_map(kept@) == reaction_map(prev).insert(key, val));
                assert(key != author);
                assert(reaction_map(kept@) =~= before_map.insert(key, val).remove(author));
            } else {
                assert(key == author);
                assert(reaction_map(kept@) =~= before_map.insert(key, val).remove(author));
            }
            i += 1;
            assert(old_entries@ =~= all.subrange(i as int, all.len() as int));
        }
        assert(all.subrange(0, i as int) =~= all);
        match tapback_action {
            ReactionAction::Added => {
                let ghost prev = kept@;
                kept.push((tapback_handle, emoji));
                assert(kept@.drop_last() =~= prev);
                assert(reaction_map(kept@) =~= reaction_map(all).insert(author, emoji@));
            },
            ReactionAction::Removed => {},
        }
        self.tapbacks = kept;
    }

    /// Whether the message passes the export filter: its day is on or after
    /// `on_or_after` and before `before` where those are given, and its
    /// conversation name is among `chat_names` unless that list is empty.
    pub fn matches(&self, on_or_after: Option<i32>, before: Option<i32>, chat_names: &Vec<String>) -> (r: bool)
        ensures
            r == passes_filter(self@, on_or_after, before, chat_names@),
    {
        if let Some(lo) = on_or_after {
            if self.day < lo {
                return false;
            }
        }
        if let Some(hi) = before {
            if self.day >= hi {
                return false;
            }
        }
        if chat_names.len() == 0 {
            return true;
        }
        match &self.chat_name {
            None => false,
            Some(name) => {
                let mut i: usize = 0;
                while i < chat_names.len()
                    invariant
                        i <= chat_names.len(),
                        self.chat_name == Some(*name),
                        chat_names@.len() > 0,
                        on_or_after matches Some(lo) ==> self.day >= lo,
                        before matches Some(hi) ==> self.day < hi,
                        forall|j: int| 0 <= j < i ==> #[trigger] chat_names@[j]@ != name@,
                    decreases chat_names.len() - i,
                {
                    if chat_names[i] == *name {
                        assert(chat_names@[i as int]@ == name@);
                        return true;
                    }
                    i += 1;
                }
                false
            },
        }
    }

    /// The reactions recorded on this message, by author.
    pub fn reactions(&self) -> (r: &Vec<(ResolvedHandle, TapbackEmoji)>)
        ensures
            reaction_map(r@) == self@.reactions,
    {
        &self.tapbacks
    }
}

} // verus!
