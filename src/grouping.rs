//! Conversation grouping: the key under which each message is shown, and the
//! groups of messages sharing a key.
use vstd::prelude::*;
use std::collections::HashMap;
use crate::identity::me_str;
use crate::message::{CleanMessage, MessageView};
use crate::store::views;
use crate::text::{chars_of, string_of, push_all, push_int, int_str};

verus! {

broadcast use vstd::std_specs::hash::group_hash_axioms;

/// The prefix that marks a direct (one-to-one) conversation's key.
pub open spec fn direct_prefix() -> Seq<char> {
    seq!['D', 'i', 'r', 'e', 'c', 't', ':', ' ']
}

/// The display name of the first message, in order, of conversation `c`
/// that someone other than the owner sent.
pub open spec fn first_other_name(s: Seq<MessageView>, c: i32) -> Option<Seq<char>>
    decreases s.len(),
{
    if s.len() == 0 {
        None
    } else {
        match first_other_name(s.drop_last(), c) {
            Some(n) => Some(n),
            None => if s.last().chat_id == Some(c) && s.last().from.1 != me_str() {
                Some(s.last().from.1)
            } else {
                None
            },
        }
    }
}

/// The key of an unnamed conversation: `Direct: ` and the first other
/// participant's name, or `Direct: Unknown (<id>)` where the owner alone
/// wrote in it.
pub open spec fn direct_key(s: Seq<MessageView>, c: i32) -> Seq<char> {
    match first_other_name(s, c) {
        Some(n) => direct_prefix() + n,
        None => direct_prefix() + seq!['U', 'n', 'k', 'n', 'o', 'w', 'n', ' ', '(']
            + int_str(c as int) + seq![')'],
    }
}

/// The key of message `i`: its conversation name where it has one; else the
/// key of its unnamed conversation; else `Direct: ` and its sender's name.
pub open spec fn chat_key(s: Seq<MessageView>, i: int) -> Seq<char> {
    match s[i].chat_name {
        Some(n) => n,
        None => match s[i].chat_id {
            Some(c) => direct_key(s, c),
            None => direct_prefix() + s[i].from.1,
        },
    }
}

/// The positions, below `n` and in order, of the messages whose key is `key`.
pub open spec fn members_of(s: Seq<MessageView>, key: Seq<char>, n: nat) -> Seq<usize>
    decreases n,
{
    if n == 0 {
        Seq::empty()
    } else if chat_key(s, n - 1) == key {
        members_of(s, key, (n - 1) as nat).push((n - 1) as usize)
    } else {
        members_of(s, key, (n - 1) as nat)
    }
}

/// One conversation: its key and the positions of its messages in the
/// message list, in order.
pub struct ConversationGroup {
    pub key: String,
    pub members: Vec<usize>,
}

/// The key of the conversation with id `chat_id` that has no name.
pub fn direct_chat_key(messages: &Vec<CleanMessage>, chat_id: i32) -> (r: String)
    ensures
        r@ == direct_key(views(messages@), chat_id),
{
    let ghost s = views(messages@);
    let mut found: Option<usize> = None;
    let mut i: usize = 0;
    while i < messages.len()
        invariant
            i <= messages.len(),
            s == views(messages@),
            match found {
                Some(j) => j < i && first_other_name(s.subrange(0, i as int), chat_id)
                    == Some(s[j as int].from.1),
                None => first_other_name(s.subrange(0, i as int), chat_id) is None,
            },
        decreases messages.len() - i,
    {
        assert(s.subrange(0, i + 1).drop_last() =~= s.subrange(0, i as int));
        if found.is_none() {
            let m = &messages[i];
            if m.chat_id == Some(chat_id) && !m.from.is_me() {
                found = Some(i);
            }
        }
        i += 1;
    }
    assert(s.subrange(0, i as int) =~= s);
    let mut cs: Vec<char> = Vec::new();
    let prefix = chars_of("Direct: ");
    proof {
        reveal_strlit("Direct: ");
    }
    push_all(&mut cs, &prefix);
    match found {
        Some(j) => {
            let name = chars_of(messages[j].from.display().as_str());
            push_all(&mut cs, &name);
            assert(cs@ =~= direct_key(s, chat_id));
        },
        None => {
            let unknown = chars_of("Unknown (");
            proof {
                reveal_strlit("Unknown (");
            }
            push_all(&mut cs, &unknown);
            push_int(&mut cs, chat_id);
            cs.push(')');
            assert(cs@ =~= direct_key(s, chat_id));
        },
    }
    string_of(&cs)
}

/// The key under which message `i` is grouped.
pub fn chat_key_of(messages: &Vec<CleanMessage>, i: usize) -> (r: String)
    requires
        i < messages.len(),
    ensures
        r@ == chat_key(views(messages@), i as int),
{
    let m = &messages[i];
    match &m.chat_name {
        Some(n) => n.clone(),
        None => match m.chat_id {
            Some(c) => direct_chat_key(messages, c),
            None => {
                let mut cs = chars_of("Direct: ");
                proof {
                    reveal_strlit("Direct: ");
                }
                let name = chars_of(m.from.display().as_str());
                push_all(&mut cs, &name);
                string_of(&cs)
            },
        },
    }
}

/// The key of message `i`, computing each unnamed conversation's key once
/// and keeping it in `memo`.
fn memo_chat_key(messages: &Vec<CleanMessage>, i: usize, memo: &mut HashMap<i32, String>) -> (r: String)
    requires
        i < messages.len(),
        forall|c: i32| #[trigger] old(memo)@.contains_key(c)
            ==> old(memo)@[c]@ == direct_key(views(messages@), c),
    ensures
        r@ == chat_key(views(messages@), i as int),
        forall|c: i32| #[trigger] final(memo)@.contains_key(c)
            ==> final(memo)@[c]@ == direct_key(views(messages@), c),
{
    let m = &messages[i];
    match (&m.chat_name, m.chat_id) {
        (None, Some(c)) => {
            match memo.get(&c) {
                Some(k) => k.clone(),
                None => {
                    let k = direct_chat_key(messages, c);
                    memo.insert(c, k.clone());
                    k
                },
            }
        },
        _ => chat_key_of(messages, i),
    }
}

/// Whether some group has key `k`.
pub open spec fn key_listed(groups: Seq<ConversationGroup>, k: Seq<char>) -> bool {
    exists|g: int| 0 <= g < groups.len() && #[trigger] groups[g].key@ == k
}

/// Whether a position list is exactly the members of `key` below `n`.
pub open spec fn group_ok(s: Seq<MessageView>, g: ConversationGroup, n: int) -> bool {
    g.members@ == members_of(s, g.key@, n as nat)
}

/// Groups messages by conversation key. Each key that some message has
/// appears in exactly one group, in the order the keys are first met, and
/// each group lists, in order, the positions of the messages with its key.
#[verifier::spinoff_prover]
pub fn group_messages_by_chat(messages: &Vec<CleanMessage>) -> (r: Vec<ConversationGroup>)
    ensures
        forall|g: int| 0 <= g < r.len() ==> #[trigger] group_ok(views(messages@), r@[g], messages@.len() as int),
        forall|g: int, h: int| 0 <= g < r.len() && 0 <= h < r.len() && g != h
            ==> #[trigger] r@[g].key@ != #[trigger] r@[h].key@,
        forall|i: int| 0 <= i < messages.len() ==> key_listed(r@, #[trigger] chat_key(views(messages@), i)),
        forall|g: int| 0 <= g < r.len() ==> #[trigger] r@[g].members@.len() > 0,
{
    let ghost s = views(messages@);
    let mut groups: Vec<ConversationGroup> = Vec::new();
    let mut memo: HashMap<i32, String> = HashMap::new();
    let mut i: usize = 0;
    while i < messages.len()
        invariant
            i <= messages.len(),
            s == views(messages@),
            forall|c: i32| #[trigger] memo@.contains_key(c) ==> memo@[c]@ == direct_key(s, c),
            forall|g: int| 0 <= g < groups.len() ==> #[trigger] group_ok(s, groups@[g], i as int),
            forall|g: int, h: int| 0 <= g < groups.len() && 0 <= h < groups.len() && g != h
                ==> #[trigger] groups@[g].key@ != #[trigger] groups@[h].key@,
            forall|j: int| 0 <= j < i ==> key_listed(groups@, #[trigger] chat_key(s, j)),
            forall|g: int| 0 <= g < groups.len() ==> #[trigger] groups@[g].members@.len() > 0,
        decreases messages.len() - i,
    {
        let key = memo_chat_key(messages, i, &mut memo);
        let mut g: usize = 0;
        while g < groups.len() && groups[g].key != key
            invariant
                g <= groups.len(),
                forall|h: int| 0 <= h < g ==> #[trigger] groups@[h].key@ != key@,
            decreases groups.len() - g,
        {
            g += 1;
        }
        let ghost before = groups@;
        let ghost kv = key@;
        assert(g < groups.len() || forall|h: int| 0 <= h < before.len() ==> #[trigger] before[h].key@ != kv);
        if g < groups.len() {
            let mut grp = groups.remove(g);
            grp.members.push(i);
            groups.insert(g, grp);
            proof {
                assert(groups@ =~= before.update(g as int, groups@[g as int]));
                assert(before[g as int].key@ == key@);
                assert(groups@[g as int].key@ == key@);
                assert(group_ok(s, before[g as int], i as int));
                assert(groups@[g as int].members@ == before[g as int].members@.push(i));
                assert forall|h: int, h2: int| 0 <= h < groups.len() && 0 <= h2 < groups.len() && h != h2
                    implies #[trigger] groups@[h].key@ != #[trigger] groups@[h2].key@ by {
                    assert(groups@[h].key@ == before[h].key@);
                    assert(groups@[h2].key@ == before[h2].key@);
                }
                assert forall|h: int| 0 <= h < groups.len() implies #[trigger] group_ok(s, groups@[h], i + 1) by {
                    if h != g {
                        assert(groups@[h] == before[h]);
                        assert(group_ok(s, before[h], i as int));
                        assert(before[h].key@ != before[g as int].key@);
                    }
                }
                assert forall|j: int| 0 <= j < i + 1 implies key_listed(groups@, #[trigger] chat_key(s, j)) by {
                    if j < i {
                        let h = choose|h: int| 0 <= h < before.len() && #[trigger] before[h].key@ == chat_key(s, j);
                        assert(groups@[h].key@ == before[h].key@);
                    } else {
                        assert(groups@[g as int].key@ == chat_key(s, j));
                    }
                }
            }
        } else {
            let mut members: Vec<usize> = Vec::new();
            members.push(i);
            groups.push(ConversationGroup { key, members });
            proof {
                assert forall|h: int, h2: int| 0 <= h < groups.len() && 0 <= h2 < groups.len() && h != h2
                    implies #[trigger] groups@[h].key@ != #[trigger] groups@[h2].key@ by {
                    assert(groups@[before.len() as int].key@ == kv);
                    if h < before.len() && h2 < before.len() {
                        assert(groups@[h] == before[h]);
                        assert(groups@[h2] == before[h2]);
                        assert(before[h].key@ != before[h2].key@);
                    } else if h < before.len() {
                        assert(groups@[h] == before[h]);
                        assert(before[h].key@ != kv);
                    } else {
                        assert(groups@[h2] == before[h2]);
                        assert(before[h2].key@ != kv);
                    }
                }
                assert forall|h: int| 0 <= h < groups.len() implies #[trigger] group_ok(s, groups@[h], i + 1) by {
                    if h < before.len() {
                        assert(groups@[h] == before[h]);
                        assert(group_ok(s, before[h], i as int));
                        assert(before[h].key@ != key@);
                    } else {
                        lemma_members_absent(s, groups@[h].key@, i as nat);
                        assert(groups@[h].members@ =~= members_of(s, groups@[h].key@, (i + 1) as nat));
                    }
                }
                assert forall|j: int| 0 <= j < i + 1 implies key_listed(groups@, #[trigger] chat_key(s, j)) by {
                    if j < i {
                        let h = choose|h: int| 0 <= h < before.len() && #[trigger] before[h].key@ == chat_key(s, j);
                        assert(groups@[h] == before[h]);
                    } else {
                        assert(groups@[before.len() as int].key@ == chat_key(s, j));
                    }
                }
            }
        }
        i += 1;
    }
    groups
}

/// Whether `name` is the sender's name of one of the listed messages.
pub open spec fn sent_by(s: Seq<MessageView>, members: Seq<usize>, name: Seq<char>) -> bool {
    exists|k: int| 0 <= k < members.len() && (#[trigger] s[members[k] as int]).from.1 == name
}

/// The names of the people other than the owner who sent the listed
/// messages, each once, in the order they first appear.
pub fn participants(messages: &Vec<CleanMessage>, members: &Vec<usize>) -> (r: Vec<String>)
    requires
        forall|k: int| 0 <= k < members.len() ==> #[trigger] members@[k] < messages.len(),
    ensures
        forall|a: int, b: int| 0 <= a < r.len() && 0 <= b < r.len() && a != b
            ==> #[trigger] r@[a]@ != #[trigger] r@[b]@,
        forall|a: int| 0 <= a < r.len() ==> (#[trigger] r@[a])@ != me_str()
            && sent_by(views(messages@), members@, r@[a]@),
        forall|k: int| 0 <= k < members.len()
            && (#[trigger] views(messages@)[members@[k] as int]).from.1 != me_str()
            ==> exists|a: int| 0 <= a < r.len() && (#[trigger] r@[a])@
                == views(messages@)[members@[k] as int].from.1,
{
    let ghost s = views(messages@);
    let mut names: Vec<String> = Vec::new();
    let mut i: usize = 0;
    while i < members.len()
        invariant
            i <= members.len(),
            s == views(messages@),
            forall|k: int| 0 <= k < members.len() ==> #[trigger] members@[k] < messages.len(),
            forall|a: int, b: int| 0 <= a < names.len() && 0 <= b < names.len() && a != b
                ==> #[trigger] names@[a]@ != #[trigger] names@[b]@,
            forall|a: int| 0 <= a < names.len() ==> (#[trigger] names@[a])@ != me_str()
                && sent_by(s, members@, names@[a]@),
            forall|k: int| 0 <= k < i && (#[trigger] s[members@[k] as int]).from.1 != me_str()
                ==> exists|a: int| 0 <= a < names.len() && (#[trigger] names@[a])@
                    == s[members@[k] as int].from.1,
        decreases members.len() - i,
    {
        let m = &messages[members[i]];
        assert(s[members@[i as int] as int] == m@);
        if !m.from.is_me() {
            let name = m.from.display();
            let mut j: usize = 0;
            while j < names.len() && names[j] != *name
                invariant
                    j <= names.len(),
                    forall|a: int| 0 <= a < j ==> (#[trigger] names@[a])@ != name@,
                decreases names.len() - j,
            {
                j += 1;
            }
            if j == names.len() {
                let ghost old_names = names@;
                names.push(name.clone());
                proof {
                    assert(names@[j as int]@ == name@);
                    assert(sent_by(s, members@, name@));
                    assert forall|a: int| 0 <= a < names.len() implies (#[trigger] names@[a])@ != me_str()
                        && sent_by(s, members@, names@[a]@) by {
                        if a < j {
                            assert(names@[a] == old_names[a]);
                        }
                    }
                    assert forall|k: int| 0 <= k < i + 1 && (#[trigger] s[members@[k] as int]).from.1 != me_str()
                        implies exists|a: int| 0 <= a < names.len() && (#[trigger] names@[a])@
                            == s[members@[k] as int].from.1 by {
                        if k < i {
                            let a = choose|a: int| 0 <= a < old_names.len() && (#[trigger] old_names[a])@
                                == s[members@[k] as int].from.1;
                            assert(names@[a] == old_names[a]);
                        } else {
                            assert(names@[j as int]@ == s[members@[k] as int].from.1);
                        }
                    }
                }
            } else {
                assert(names@[j as int]@ == s[members@[i as int] as int].from.1);
            }
        }
        i += 1;
    }
    names
}

/// A key that no message below `n` has has no members below `n`.
proof fn lemma_members_absent(s: Seq<MessageView>, key: Seq<char>, n: nat)
    requires
        forall|j: int| 0 <= j < n ==> chat_key(s, j) != key,
    ensures
        members_of(s, key, n) == Seq::<usize>::empty(),
    decreases n,
{
    if n > 0 {
        lemma_members_absent(s, key, (n - 1) as nat);
    }
}

} // verus!
