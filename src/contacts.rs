//! The contact directory: phone-number normalization and the lookup from a
//! normalized phone number or an email address to a person's display name.
use vstd::prelude::*;
use crate::text::{chars_of, string_of, push_all};

verus! {

/// A person of the address book, as the directory fetch hands it over.
pub struct Contact {
    pub given_name: String,
    pub family_name: String,
    pub phone_numbers: Vec<String>,
    pub email_addresses: Vec<String>,
}

/// Whether a character has Unicode's White_Space property.
pub open spec fn is_white_space(c: char) -> bool {
    ('\u{9}' <= c && c <= '\u{D}') || c == ' ' || c == '\u{85}' || c == '\u{A0}'
        || c == '\u{1680}' || ('\u{2000}' <= c && c <= '\u{200A}') || c == '\u{2028}'
        || c == '\u{2029}' || c == '\u{202F}' || c == '\u{205F}' || c == '\u{3000}'
}

/// `s` without its leading white space.
pub open spec fn trim_start_of(s: Seq<char>) -> Seq<char>
    decreases s.len(),
{
    if s.len() > 0 && is_white_space(s[0]) {
        trim_start_of(s.drop_first())
    } else {
        s
    }
}

/// `s` without its trailing white space.
pub open spec fn trim_end_of(s: Seq<char>) -> Seq<char>
    decreases s.len(),
{
    if s.len() > 0 && is_white_space(s.last()) {
        trim_end_of(s.drop_last())
    } else {
        s
    }
}

/// `s` without its leading and trailing white space.
pub open spec fn trimmed(s: Seq<char>) -> Seq<char> {
    trim_end_of(trim_start_of(s))
}

/// Relies on `str::trim`, which drops the leading and trailing characters
/// that have Unicode's White_Space property.
#[verifier::external_body]
fn trim_text(s: &str) -> (r: String)
    ensures
        r@ == trimmed(s@),
{
    s.trim().to_string()
}

/// Given name and family name joined by one space, before trimming.
pub open spec fn joined_name(given: Seq<char>, family: Seq<char>) -> Seq<char> {
    given + seq![' '] + family
}

/// The display name of a contact.
pub open spec fn full_name_of(given: Seq<char>, family: Seq<char>) -> Seq<char> {
    trimmed(joined_name(given, family))
}

impl Contact {
    /// The given and family names joined by a space, with surrounding
    /// white space removed.
    pub fn full_name(&self) -> (r: String)
        ensures
            r@ == full_name_of(self.given_name@, self.family_name@),
    {
        let mut cs: Vec<char> = Vec::new();
        let g = chars_of(self.given_name.as_str());
        let f = chars_of(self.family_name.as_str());
        push_all(&mut cs, &g);
        cs.push(' ');
        push_all(&mut cs, &f);
        assert(cs@ =~= joined_name(self.given_name@, self.family_name@));
        let joined = string_of(&cs);
        trim_text(joined.as_str())
    }
}

/// Whether a character is an ASCII decimal digit.
pub open spec fn is_digit(c: char) -> bool {
    '0' <= c && c <= '9'
}

/// The decimal digits of `s`, in order, with every other character dropped.
pub open spec fn digits_of(s: Seq<char>) -> Seq<char>
    decreases s.len(),
{
    if s.len() == 0 {
        Seq::empty()
    } else if is_digit(s.last()) {
        digits_of(s.drop_last()).push(s.last())
    } else {
        digits_of(s.drop_last())
    }
}

/// A phone number in international form, or `None` where it cannot be one:
/// ten digits are a national number and get the country code `+1`; eleven or
/// more get a `+`; fewer than ten are rejected.
pub open spec fn normalized(s: Seq<char>) -> Option<Seq<char>> {
    let d = digits_of(s);
    if d.len() == 10 {
        Some(seq!['+', '1'] + d)
    } else if d.len() >= 11 {
        Some(seq!['+'] + d)
    } else {
        None
    }
}

/// Normalizes a phone number to international form (`+15555550100` for the
/// national number `(555) 555-0100`), or `None` where it has under ten digits.
pub fn normalize_number(number: &str) -> (r: Option<String>)
    ensures
        r matches Some(s) ==> normalized(number@) == Some(s@),
        r is None ==> normalized(number@) is None,
{
    let cs = chars_of(number);
    let mut digits: Vec<char> = Vec::new();
    let mut i: usize = 0;
    while i < cs.len()
        invariant
            i <= cs.len(),
            cs@ == number@,
            digits@ == digits_of(cs@.subrange(0, i as int)),
        decreases cs.len() - i,
    {
        let c = cs[i];
        assert(cs@.subrange(0, i + 1).drop_last() =~= cs@.subrange(0, i as int));
        if '0' <= c && c <= '9' {
            digits.push(c);
        }
        i += 1;
    }
    assert(cs@.subrange(0, cs.len() as int) =~= cs@);
    let n = digits.len();
    if n < 10 {
        return None;
    }
    let mut out: Vec<char> = Vec::new();
    out.push('+');
    if n == 10 {
        out.push('1');
    }
    push_all(&mut out, &digits);
    assert(n == 10 ==> out@ =~= seq!['+', '1'] + digits@);
    assert(n != 10 ==> out@ =~= seq!['+'] + digits@);
    Some(string_of(&out))
}

/// The lookup from a normalized phone number or an email address to a
/// display name, with one entry for each key.
pub struct ContactMap(Vec<(String, String)>);


/// The mapping that a list of entries stands for, later entries winning.
pub open spec fn entries_map(s: Seq<(Seq<char>, Seq<char>)>) -> Map<Seq<char>, Seq<char>>
    decreases s.len(),
{
    if s.len() == 0 {
        Map::empty()
    } else {
        entries_map(s.drop_last()).insert(s.last().0, s.last().1)
    }
}

/// The entries that one contact contributes: each phone number that
/// normalizes, then each email address, all with the contact's name.
pub open spec fn phone_entries(phones: Seq<String>, name: Seq<char>) -> Seq<(Seq<char>, Seq<char>)>
    decreases phones.len(),
{
    if phones.len() == 0 {
        Seq::empty()
    } else {
        let rest = phone_entries(phones.drop_last(), name);
        match normalized(phones.last()@) {
            Some(p) => rest.push((p, name)),
            None => rest,
        }
    }
}

/// Each email address paired with the contact's name.
pub open spec fn email_entries(emails: Seq<String>, name: Seq<char>) -> Seq<(Seq<char>, Seq<char>)> {
    Seq::new(emails.len(), |i: int| (emails[i]@, name))
}

/// The entries of one contact, phone numbers first.
pub open spec fn contact_entries(c: Contact) -> Seq<(Seq<char>, Seq<char>)> {
    let name = full_name_of(c.given_name@, c.family_name@);
    phone_entries(c.phone_numbers@, name) + email_entries(c.email_addresses@, name)
}

/// The entries of a list of contacts, in order.
pub open spec fn all_entries(cs: Seq<Contact>) -> Seq<(Seq<char>, Seq<char>)>
    decreases cs.len(),
{
    if cs.len() == 0 {
        Seq::empty()
    } else {
        all_entries(cs.drop_last()) + contact_entries(cs.last())
    }
}

/// The view of a list of entries as pairs of character sequences.
pub open spec fn entries_view(s: Seq<(String, String)>) -> Seq<(Seq<char>, Seq<char>)> {
    Seq::new(s.len(), |i: int| (s[i].0@, s[i].1@))
}

impl View for ContactMap {
    type V = Map<Seq<char>, Seq<char>>;

    open spec fn view(&self) -> Map<Seq<char>, Seq<char>> {
        entries_map(self.entries())
    }
}

impl ContactMap {
    /// The entries, one for each key.
    pub closed spec fn entries(&self) -> Seq<(Seq<char>, Seq<char>)> {
        entries_view(self.0@)
    }

    /// No key is recorded twice.
    #[verifier::type_invariant]
    closed spec fn keys_distinct(self) -> bool {
        distinct_keys(entries_view(self.0@))
    }

    /// A directory with no entries.
    pub fn empty() -> (r: ContactMap)
        ensures
            r@ == Map::<Seq<char>, Seq<char>>::empty(),
    {
        ContactMap(Vec::new())
    }

    /// The directory built from a list of contacts: each normalizable phone
    /// number and each email address of a contact leads to its full name,
    /// a later contact's entry replacing an earlier one for the same key.
    /// Phone numbers that do not normalize are left out.
    pub fn from_contacts(contacts: &Vec<Contact>) -> (r: ContactMap)
        ensures
            r@ == entries_map(all_entries(contacts@)),
    {
        let mut out: Vec<(String, String)> = Vec::new();
        let mut i: usize = 0;
        while i < contacts.len()
            invariant
                i <= contacts.len(),
                distinct_keys(entries_view(out@)),
                entries_map(entries_view(out@)) == entries_map(all_entries(contacts@.subrange(0, i as int))),
            decreases contacts.len() - i,
        {
            let c = &contacts[i];
            let name = c.full_name();
            let ghost base = all_entries(contacts@.subrange(0, i as int));
            let mut j: usize = 0;
            while j < c.phone_numbers.len()
                invariant
                    j <= c.phone_numbers.len(),
                    i < contacts.len(),
                    c == contacts@[i as int],
                    name@ == full_name_of(c.given_name@, c.family_name@),
                    distinct_keys(entries_view(out@)),
                    entries_map(entries_view(out@))
                        == entries_map(base + phone_entries(c.phone_numbers@.subrange(0, j as int), name@)),
                decreases c.phone_numbers.len() - j,
            {
                let ghost done = base + phone_entries(c.phone_numbers@.subrange(0, j as int), name@);
                assert(c.phone_numbers@.subrange(0, j + 1).drop_last()
                    =~= c.phone_numbers@.subrange(0, j as int));
                match normalize_number(c.phone_numbers[j].as_str()) {
                    Some(p) => {
                        let ghost pv = p@;
                        put(&mut out, p, name.clone());
                        assert(base + phone_entries(c.phone_numbers@.subrange(0, j + 1), name@)
                            =~= done.push((pv, name@)));
                        assert(done.push((pv, name@)).drop_last() =~= done);
                    },
                    None => {
                        assert(base + phone_entries(c.phone_numbers@.subrange(0, j + 1), name@) =~= done);
                    },
                }
                j += 1;
            }
            assert(c.phone_numbers@.subrange(0, c.phone_numbers.len() as int) =~= c.phone_numbers@);
            let ghost mid = base + phone_entries(c.phone_numbers@, name@);
            let mut k: usize = 0;
            while k < c.email_addresses.len()
                invariant
                    k <= c.email_addresses.len(),
                    i < contacts.len(),
                    c == contacts@[i as int],
                    name@ == full_name_of(c.given_name@, c.family_name@),
                    distinct_keys(entries_view(out@)),
                    entries_map(entries_view(out@))
                        == entries_map(mid + email_entries(c.email_addresses@.subrange(0, k as int), name@)),
                decreases c.email_addresses.len() - k,
            {
                let ghost done = mid + email_entries(c.email_addresses@.subrange(0, k as int), name@);
                put(&mut out, c.email_addresses[k].clone(), name.clone());
                let ghost e = (c.email_addresses@[k as int]@, name@);
                assert(mid + email_entries(c.email_addresses@.subrange(0, k + 1), name@) =~= done.push(e));
                assert(done.push(e).drop_last() =~= done);
                k += 1;
            }
            assert(c.email_addresses@.subrange(0, c.email_addresses.len() as int) =~= c.email_addresses@);
            assert(contacts@.subrange(0, i + 1).drop_last() =~= contacts@.subrange(0, i as int));
            assert(mid + email_entries(c.email_addresses@, name@) =~= all_entries(contacts@.subrange(0, i + 1)));
            i += 1;
        }
        assert(contacts@.subrange(0, contacts.len() as int) =~= contacts@);
        ContactMap(out)
    }

    /// The display name recorded for a phone number or an email address.
    pub fn get(&self, identifier: &str) -> (r: Option<&String>)
        ensures
            r is Some <==> self@.contains_key(identifier@),
            r matches Some(v) ==> v@ == self@[identifier@],
    {
        let key = identifier.to_owned();
        let mut i: usize = self.0.len();
        assert(self.entries().subrange(0, i as int) =~= self.entries());
        while i > 0
            invariant
                key@ == identifier@,
                i <= self.0.len(),
                self@.contains_key(identifier@)
                    == entries_map(self.entries().subrange(0, i as int)).contains_key(identifier@),
                self@.contains_key(identifier@) ==>
                    self@[identifier@]
                    == entries_map(self.entries().subrange(0, i as int))[identifier@],
            decreases i,
        {
            let e = &self.0[i - 1];
            assert(self.entries().subrange(0, i as int).drop_last()
                =~= self.entries().subrange(0, i - 1));
            if e.0 == key {
                return Some(&e.1);
            }
            i -= 1;
        }
        assert(self.entries().subrange(0, 0) =~= Seq::<(Seq<char>, Seq<char>)>::empty());
        None
    }

    /// The number of distinct phone numbers and email addresses recorded.
    pub fn len(&self) -> (r: usize)
        ensures
            self@.dom().finite(),
            r == self@.dom().len(),
    {
        proof {
            use_type_invariant(self);
            lemma_entries_map_keys(self.entries());
        }
        self.0.len()
    }
}

/// Records `value` for `key`, replacing the value already recorded for it.
fn put(out: &mut Vec<(String, String)>, key: String, value: String)
    requires
        distinct_keys(entries_view(old(out)@)),
    ensures
        distinct_keys(entries_view(final(out)@)),
        entries_map(entries_view(final(out)@)) == entries_map(entries_view(old(out)@)).insert(key@, value@),
{
    let ghost s = entries_view(out@);
    let mut i: usize = 0;
    while i < out.len()
        invariant
            i <= out.len(),
            s == entries_view(out@),
            s == entries_view(old(out)@),
            distinct_keys(s),
            forall|j: int| 0 <= j < i ==> (#[trigger] s[j]).0 != key@,
        decreases out.len() - i,
    {
        if out[i].0 == key {
            let ghost k = key@;
            let ghost v = value@;
            out.set(i, (key, value));
            proof {
                lemma_entries_map_update(s, i as int, v);
                assert(entries_view(out@) =~= s.update(i as int, (k, v)));
            }
            return;
        }
        i += 1;
    }
    let ghost k = key@;
    let ghost v = value@;
    out.push((key, value));
    assert(entries_view(out@) =~= s.push((k, v)));
    assert(s.push((k, v)).drop_last() =~= s);
}

/// No two entries have the same key.
pub open spec fn distinct_keys(s: Seq<(Seq<char>, Seq<char>)>) -> bool {
    forall|i: int, j: int| 0 <= i < s.len() && 0 <= j < s.len() && i != j
        ==> #[trigger] s[i].0 != #[trigger] s[j].0
}

/// The keys of the mapping are the keys of the entries; with distinct keys
/// there are as many as entries.
pub proof fn lemma_entries_map_keys(s: Seq<(Seq<char>, Seq<char>)>)
    ensures
        entries_map(s).dom().finite(),
        forall|k: Seq<char>| #[trigger] entries_map(s).contains_key(k)
            <==> exists|j: int| 0 <= j < s.len() && (#[trigger] s[j]).0 == k,
        distinct_keys(s) ==> entries_map(s).dom().len() == s.len(),
    decreases s.len(),
{
    if s.len() > 0 {
        let p = s.drop_last();
        lemma_entries_map_keys(p);
        assert forall|k: Seq<char>| #[trigger] entries_map(s).contains_key(k)
            <==> exists|j: int| 0 <= j < s.len() && (#[trigger] s[j]).0 == k by {
            if entries_map(s).contains_key(k) && k != s.last().0 {
                let j = choose|j: int| 0 <= j < p.len() && (#[trigger] p[j]).0 == k;
                assert(s[j] == p[j]);
            }
            if exists|j: int| 0 <= j < s.len() && (#[trigger] s[j]).0 == k {
                let j = choose|j: int| 0 <= j < s.len() && (#[trigger] s[j]).0 == k;
                if j < p.len() {
                    assert(p[j] == s[j]);
                }
            }
        }
        if distinct_keys(s) {
            assert(distinct_keys(p)) by {
                assert forall|a: int, b: int| 0 <= a < p.len() && 0 <= b < p.len() && a != b
                    implies #[trigger] p[a].0 != #[trigger] p[b].0 by {
                    assert(p[a] == s[a] && p[b] == s[b]);
                }
            }
            assert(!entries_map(p).contains_key(s.last().0)) by {
                if entries_map(p).contains_key(s.last().0) {
                    let j = choose|j: int| 0 <= j < p.len() && (#[trigger] p[j]).0 == s.last().0;
                    assert(s[j] == p[j]);
                }
            }
        }
    }
}

/// Replacing the value of one entry among entries with distinct keys
/// replaces that key's value in the mapping.
proof fn lemma_entries_map_update(s: Seq<(Seq<char>, Seq<char>)>, i: int, v: Seq<char>)
    requires
        distinct_keys(s),
        0 <= i < s.len(),
    ensures
        distinct_keys(s.update(i, (s[i].0, v))),
        entries_map(s.update(i, (s[i].0, v))) == entries_map(s).insert(s[i].0, v),
    decreases s.len(),
{
    let t = s.update(i, (s[i].0, v));
    assert forall|a: int, b: int| 0 <= a < t.len() && 0 <= b < t.len() && a != b
        implies #[trigger] t[a].0 != #[trigger] t[b].0 by {
        assert(t[a].0 == s[a].0 && t[b].0 == s[b].0);
    }
    if i == s.len() - 1 {
        assert(t.drop_last() =~= s.drop_last());
        assert(entries_map(t) =~= entries_map(s).insert(s[i].0, v));
    } else {
        let p = s.drop_last();
        assert(distinct_keys(p)) by {
            assert forall|a: int, b: int| 0 <= a < p.len() && 0 <= b < p.len() && a != b
                implies #[trigger] p[a].0 != #[trigger] p[b].0 by {
                assert(p[a] == s[a] && p[b] == s[b]);
            }
        }
        lemma_entries_map_update(p, i, v);
        assert(t.drop_last() =~= p.update(i, (p[i].0, v)));
        assert(s[i].0 != s.last().0);
        assert(entries_map(t) =~= entries_map(s).insert(s[i].0, v));
    }
}

} // verus!
