//! Text helpers for the rendering of conversations: markup escaping, file
//! names, attachment locations and file-type icons.
use vstd::prelude::*;
use crate::text::{chars_of, string_of, push_all};

verus! {

/// The markup for one character: the five markup-significant characters
/// become entities, every other character stays.
pub open spec fn escape_char(c: char) -> Seq<char> {
    if c == '&' {
        seq!['&', 'a', 'm', 'p', ';']
    } else if c == '<' {
        seq!['&', 'l', 't', ';']
    } else if c == '>' {
        seq!['&', 'g', 't', ';']
    } else if c == '"' {
        seq!['&', 'q', 'u', 'o', 't', ';']
    } else if c == '\'' {
        seq!['&', '#', '3', '9', ';']
    } else {
        seq![c]
    }
}

/// The markup for a text, character by character.
pub open spec fn escaped(s: Seq<char>) -> Seq<char>
    decreases s.len(),
{
    if s.len() == 0 {
        Seq::empty()
    } else {
        escaped(s.drop_last()) + escape_char(s.last())
    }
}

/// Whether a character may not stand in a file name.
pub open spec fn is_path_special(c: char) -> bool {
    c == '/' || c == '\\' || c == ':' || c == '*' || c == '?' || c == '"' || c == '<' || c == '>'
        || c == '|'
}

/// A file name with each character that may not stand in one replaced by `_`.
pub open spec fn sanitized(s: Seq<char>) -> Seq<char> {
    Seq::new(s.len(), |i: int| if is_path_special(s[i]) { '_' } else { s[i] })
}

/// Escapes a text for inclusion in markup.
pub fn html_escape(text: &str) -> (r: String)
    ensures
        r@ == escaped(text@),
{
    let cs = chars_of(text);
    let mut out: Vec<char> = Vec::new();
    let mut i: usize = 0;
    while i < cs.len()
        invariant
            i <= cs.len(),
            cs@ == text@,
            out@ == escaped(cs@.subrange(0, i as int)),
        decreases cs.len() - i,
    {
        let c = cs[i];
        assert(cs@.subrange(0, i + 1).drop_last() =~= cs@.subrange(0, i as int));
        let ghost prev = out@;
        if c == '&' {
            out.push('&'); out.push('a'); out.push('m'); out.push('p'); out.push(';');
        } else if c == '<' {
            out.push('&'); out.push('l'); out.push('t'); out.push(';');
        } else if c == '>' {
            out.push('&'); out.push('g'); out.push('t'); out.push(';');
        } else if c == '"' {
            out.push('&'); out.push('q'); out.push('u'); out.push('o'); out.push('t'); out.push(';');
        } else if c == '\'' {
            out.push('&'); out.push('#'); out.push('3'); out.push('9'); out.push(';');
        } else {
            out.push(c);
        }
        assert(out@ =~= prev + escape_char(c));
        i += 1;
    }
    assert(cs@.subrange(0, cs.len() as int) =~= cs@);
    string_of(&out)
}

/// Replaces each character that may not stand in a file name by `_`.
pub fn sanitize_filename(name: &str) -> (r: String)
    ensures
        r@ == sanitized(name@),
{
    let cs = chars_of(name);
    let mut out: Vec<char> = Vec::new();
    let mut i: usize = 0;
    while i < cs.len()
        invariant
            i <= cs.len(),
            cs@ == name@,
            out@ == sanitized(cs@.subrange(0, i as int)),
        decreases cs.len() - i,
    {
        let c = cs[i];
        if c == '/' || c == '\\' || c == ':' || c == '*' || c == '?' || c == '"' || c == '<'
            || c == '>' || c == '|' {
            out.push('_');
        } else {
            out.push(c);
        }
        i += 1;
        assert(out@ =~= sanitized(cs@.subrange(0, i as int)));
    }
    assert(cs@.subrange(0, cs.len() as int) =~= cs@);
    string_of(&out)
}

/// The relative directory of a message's attachments: two levels named by
/// the identifier's first two and next two characters, then the identifier.
pub open spec fn attachment_dir(guid: Seq<char>) -> Seq<char> {
    guid.subrange(0, 2) + seq!['/'] + guid.subrange(2, 4) + seq!['/'] + guid
}

/// Where the attachments of the message with identifier `guid` are stored,
/// relative to the attachment root.
pub fn get_attachment_path(guid: &str) -> (r: String)
    requires
        guid@.len() >= 4,
    ensures
        r@ == attachment_dir(guid@),
{
    let cs = chars_of(guid);
    let mut out: Vec<char> = Vec::new();
    out.push(cs[0]);
    out.push(cs[1]);
    out.push('/');
    out.push(cs[2]);
    out.push(cs[3]);
    out.push('/');
    push_all(&mut out, &cs);
    assert(out@ =~= attachment_dir(guid@));
    string_of(&out)
}

/// What `str::to_lowercase` returns: the lower-case mapping of each
/// character under Unicode's rules, a function of the characters alone.
pub uninterp spec fn lower_of(s: Seq<char>) -> Seq<char>;

/// Relies on `str::to_lowercase` for the lower-case form of a file name.
#[verifier::external_body]
fn to_lower(s: &str) -> (r: String)
    ensures
        r@ == lower_of(s@),
{
    s.to_lowercase()
}

/// Whether `s` ends with `suffix`.
pub open spec fn has_suffix(s: Seq<char>, suffix: Seq<char>) -> bool {
    suffix.len() <= s.len() && s.subrange(s.len() - suffix.len(), s.len() as int) == suffix
}

/// The icon for a file, chosen by the extension of its lower-case name.
pub open spec fn icon_for(lower: Seq<char>) -> Seq<char> {
    if has_suffix(lower, seq!['.', 'p', 'd', 'f']) {
        seq!['\u{1F4C4}']
    } else if has_suffix(lower, seq!['.', 'm', 'p', '4']) || has_suffix(lower, seq!['.', 'm', 'o', 'v'])
        || has_suffix(lower, seq!['.', 'a', 'v', 'i']) {
        seq!['\u{1F3A5}']
    } else if has_suffix(lower, seq!['.', 'm', 'p', '3']) || has_suffix(lower, seq!['.', 'm', '4', 'a'])
        || has_suffix(lower, seq!['.', 'w', 'a', 'v']) {
        seq!['\u{1F3B5}']
    } else if has_suffix(lower, seq!['.', 'z', 'i', 'p']) || has_suffix(lower, seq!['.', 't', 'a', 'r'])
        || has_suffix(lower, seq!['.', 'g', 'z']) {
        seq!['\u{1F4E6}']
    } else if has_suffix(lower, seq!['.', 'd', 'o', 'c']) || has_suffix(lower, seq!['.', 'd', 'o', 'c', 'x']) {
        seq!['\u{1F4DD}']
    } else {
        seq!['\u{1F4CE}']
    }
}

fn ends_with(s: &Vec<char>, suffix: &Vec<char>) -> (r: bool)
    ensures
        r == has_suffix(s@, suffix@),
{
    if suffix.len() > s.len() {
        return false;
    }
    let base = s.len() - suffix.len();
    let mut i: usize = 0;
    while i < suffix.len()
        invariant
            base + suffix.len() == s.len(),
            i <= suffix.len(),
            forall|j: int| 0 <= j < i ==> s@[base + j] == suffix@[j],
        decreases suffix.len() - i,
    {
        if s[base + i] != suffix[i] {
            assert(s@.subrange(base as int, s.len() as int)[i as int] != suffix@[i as int]);
            return false;
        }
        i += 1;
    }
    assert(s@.subrange(base as int, s.len() as int) =~= suffix@);
    true
}

/// The icon shown for an attachment with the given file name.
pub fn get_file_icon(filename: &str) -> (r: String)
    ensures
        r@ == icon_for(lower_of(filename@)),
{
    let lower = to_lower(filename);
    let l = chars_of(lower.as_str());
    let icon = if ends_with(&l, &vec!['.', 'p', 'd', 'f']) {
        '\u{1F4C4}'
    } else if ends_with(&l, &vec!['.', 'm', 'p', '4']) || ends_with(&l, &vec!['.', 'm', 'o', 'v'])
        || ends_with(&l, &vec!['.', 'a', 'v', 'i']) {
        '\u{1F3A5}'
    } else if ends_with(&l, &vec!['.', 'm', 'p', '3']) || ends_with(&l, &vec!['.', 'm', '4', 'a'])
        || ends_with(&l, &vec!['.', 'w', 'a', 'v']) {
        '\u{1F3B5}'
    } else if ends_with(&l, &vec!['.', 'z', 'i', 'p']) || ends_with(&l, &vec!['.', 't', 'a', 'r'])
        || ends_with(&l, &vec!['.', 'g', 'z']) {
        '\u{1F4E6}'
    } else if ends_with(&l, &vec!['.', 'd', 'o', 'c']) || ends_with(&l, &vec!['.', 'd', 'o', 'c', 'x']) {
        '\u{1F4DD}'
    } else {
        '\u{1F4CE}'
    };
    let out = vec![icon];
    assert(out@ =~= icon_for(lower_of(filename@)));
    string_of(&out)
}

} // verus!
