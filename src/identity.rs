//! Sender identity: who wrote a row, as a numeric id and a display name.
use vstd::prelude::*;
use std::collections::HashMap;
use crate::contacts::ContactMap;
use crate::text::{chars_of, string_of, push_all, push_int, int_str};

verus! {

broadcast use vstd::std_specs::hash::group_hash_axioms;

/// A resolved sender: `0` with `"Me"` for the account owner, `-1` with
/// `"Unknown"` for a row that names no sender, else the handle id with the
/// best display name found for it. Two identities are equal when both
/// fields are.
pub struct ResolvedHandle {
    id: i32,
    display: String,
}

/// The identity as plain values: numeric id and display name.
pub type HandleView = (int, Seq<char>);

impl View for ResolvedHandle {
    type V = HandleView;

    closed spec fn view(&self) -> HandleView {
        (self.id as int, self.display@)
    }
}

/// The display name of the account owner.
pub open spec fn me_str() -> Seq<char> {
    seq!['M', 'e']
}

/// The display name of a sender that cannot be determined.
pub open spec fn unknown_str() -> Seq<char> {
    seq!['U', 'n', 'k', 'n', 'o', 'w', 'n']
}

/// The identity of the account owner.
pub open spec fn me_identity() -> HandleView {
    (0, me_str())
}

/// The identity of a row that names no sender.
pub open spec fn unknown_identity() -> HandleView {
    (-1, unknown_str())
}

/// The label for a handle that the handle table does not hold.
pub open spec fn handle_label(id: int) -> Seq<char> {
    seq!['H', 'a', 'n', 'd', 'l', 'e', ' '] + int_str(id)
}

/// The display name for a handle: the contact's name for its raw identifier
/// where the directory has one, else the raw identifier, else a label
/// made from the id.
pub open spec fn handle_name(
    id: i32,
    handles: Map<i32, String>,
    contacts: Map<Seq<char>, Seq<char>>,
) -> Seq<char> {
    if handles.contains_key(id) {
        let raw = handles[id]@;
        if contacts.contains_key(raw) {
            contacts[raw]
        } else {
            raw
        }
    } else {
        handle_label(id as int)
    }
}

/// The identity of a row's sender.
pub open spec fn sender_identity(
    is_from_me: bool,
    handle_id: Option<i32>,
    handles: Map<i32, String>,
    contacts: Map<Seq<char>, Seq<char>>,
) -> HandleView {
    if is_from_me {
        me_identity()
    } else {
        match handle_id {
            Some(h) => (h as int, handle_name(h, handles, contacts)),
            None => unknown_identity(),
        }
    }
}

impl ResolvedHandle {
    /// The display name for a handle id.
    pub fn resolve_handle_to_name(
        handle_id: &i32,
        handle_cache: &HashMap<i32, String>,
        contact_map: &ContactMap,
    ) -> (r: String)
        ensures
            r@ == handle_name(*handle_id, handle_cache@, contact_map@),
    {
        match handle_cache.get(handle_id) {
            None => {
                let mut cs: Vec<char> = Vec::new();
                let prefix = chars_of("Handle ");
                push_all(&mut cs, &prefix);
                push_int(&mut cs, *handle_id);
                proof {
                    reveal_strlit("Handle ");
                }
                assert(cs@ =~= handle_label(*handle_id as int));
                string_of(&cs)
            },
            Some(raw) => match contact_map.get(raw.as_str()) {
                None => raw.clone(),
                Some(name) => name.clone(),
            },
        }
    }

    /// The sender of a row: the owner when the row is marked as sent by
    /// the owner, whatever handle it names; else the named handle; else the
    /// unknown sender.
    pub fn from_message_sender(
        is_from_me: bool,
        handle_id: Option<i32>,
        handle_cache: &HashMap<i32, String>,
        contact_map: &ContactMap,
    ) -> (r: ResolvedHandle)
        ensures
            r@ == sender_identity(is_from_me, handle_id, handle_cache@, contact_map@),
    {
        if is_from_me {
            ResolvedHandle::me()
        } else {
            match handle_id {
                Some(h) => {
                    let display = ResolvedHandle::resolve_handle_to_name(&h, handle_cache, contact_map);
                    ResolvedHandle { id: h, display }
                },
                None => ResolvedHandle::unknown(),
            }
        }
    }

    /// The identity of the account owner.
    pub fn me() -> (r: ResolvedHandle)
        ensures
            r@ == me_identity(),
    {
        let display = string_of(&vec!['M', 'e']);
        ResolvedHandle { id: 0, display }
    }

    /// The identity of a sender that cannot be determined.
    pub fn unknown() -> (r: ResolvedHandle)
        ensures
            r@ == unknown_identity(),
    {
        let display = string_of(&vec!['U', 'n', 'k', 'n', 'o', 'w', 'n']);
        ResolvedHandle { id: -1, display }
    }

    /// The numeric id.
    pub fn id(&self) -> (r: i32)
        ensures
            r as int == self@.0,
    {
        self.id
    }

    /// The display name.
    pub fn display(&self) -> (r: &String)
        ensures
            r@ == self@.1,
    {
        &self.display
    }

    /// Whether this is the account owner, told by the display name.
    pub fn is_me(&self) -> (r: bool)
        ensures
            r == (self@.1 == me_str()),
    {
        let me = string_of(&vec!['M', 'e']);
        self.display == me
    }

    /// A copy of this identity.
    pub fn duplicate(&self) -> (r: ResolvedHandle)
        ensures
            r@ == self@,
    {
        ResolvedHandle { id: self.id, display: self.display.clone() }
    }

    /// Whether two identities have the same id and the same display name.
    pub fn same_as(&self, other: &ResolvedHandle) -> (r: bool)
        ensures
            r == (self@ == other@),
    {
        self.id == other.id && self.display == other.display
    }
}

impl PartialEq for ResolvedHandle {
    fn eq(&self, other: &ResolvedHandle) -> (r: bool) {
        self.id == other.id && self.display == other.display
    }
}

impl vstd::std_specs::cmp::PartialEqSpecImpl for ResolvedHandle {
    open spec fn obeys_eq_spec() -> bool {
        true
    }

    open spec fn eq_spec(&self, other: &ResolvedHandle) -> bool {
        self@ == other@
    }
}

impl Eq for ResolvedHandle {
}

} // verus!
