//! Reactions (tapbacks): their kinds, actions and the emoji shown for each.
use vstd::prelude::*;
use crate::text::string_of;

verus! {

/// The kind of a reaction.
pub enum Reaction {
    Loved,
    Liked,
    Disliked,
    Laughed,
    Emphasized,
    Questioned,
    /// A custom emoji, where the row carries one.
    Emoji(Option<String>),
    Sticker,
}

/// Whether a reaction row adds a reaction or takes one back.
#[derive(PartialEq, Eq, Structural, Clone, Copy)]
pub enum ReactionAction {
    Added,
    Removed,
}

/// The emoji text shown for a reaction.
pub struct TapbackEmoji(String);

impl View for TapbackEmoji {
    type V = Seq<char>;

    closed spec fn view(&self) -> Seq<char> {
        self.0@
    }
}

/// The emoji shown for each kind of reaction; a custom emoji shows itself,
/// or nothing where the row carries none.
pub open spec fn emoji_of(r: Reaction) -> Seq<char> {
    match r {
        Reaction::Loved => seq!['\u{1FA77}'],
        Reaction::Liked => seq!['\u{1F44D}'],
        Reaction::Disliked => seq!['\u{1F44E}'],
        Reaction::Laughed => seq!['\u{1F602}'],
        Reaction::Emphasized => seq!['\u{203C}', '\u{FE0F}'],
        Reaction::Questioned => seq!['\u{2753}'],
        Reaction::Emoji(e) => match e {
            Some(s) => s@,
            None => Seq::empty(),
        },
        Reaction::Sticker => seq!['\u{1F3A8}'],
    }
}

impl TapbackEmoji {
    /// The emoji for a reaction kind.
    pub fn from_message_tapback(tapback: Reaction) -> (r: TapbackEmoji)
        ensures
            r@ == emoji_of(tapback),
    {
        let s = match tapback {
            Reaction::Loved => string_of(&vec!['\u{1FA77}']),
            Reaction::Liked => string_of(&vec!['\u{1F44D}']),
            Reaction::Disliked => string_of(&vec!['\u{1F44E}']),
            Reaction::Laughed => string_of(&vec!['\u{1F602}']),
            Reaction::Emphasized => string_of(&vec!['\u{203C}', '\u{FE0F}']),
            Reaction::Questioned => string_of(&vec!['\u{2753}']),
            Reaction::Emoji(e) => match e {
                Some(s) => s,
                None => String::new(),
            },
            Reaction::Sticker => string_of(&vec!['\u{1F3A8}']),
        };
        TapbackEmoji(s)
    }

    /// The emoji text.
    pub fn as_string(&self) -> (r: &String)
        ensures
            r@ == self@,
    {
        &self.0
    }

    /// A copy of this emoji.
    pub fn duplicate(&self) -> (r: TapbackEmoji)
        ensures
            r@ == self@,
    {
        TapbackEmoji(self.0.clone())
    }
}

} // verus!
