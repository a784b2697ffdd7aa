//! The card record and its rarity classification.
//!
//! A card carries a name and, optionally, a rarity string as the search API
//! reports it. The sampler recognises the rarities `rare`, `mythic`,
//! `uncommon` and `common`; a card whose rarity is absent or unrecognised
//! belongs to no sampling tier.

use vstd::prelude::*;

verus! {

/// A single card record: a name and an optional rarity string.
pub struct Card {
    pub name: String,
    pub rarity: Option<String>,
}

/// The mathematical model of a [`Card`]: its name and rarity as character
/// sequences.
pub struct CardView {
    pub name: Seq<char>,
    pub rarity: Option<Seq<char>>,
}

impl DeepView for Card {
    type V = CardView;

    open spec fn deep_view(&self) -> CardView {
        CardView {
            name: self.name@,
            rarity: match self.rarity {
                Some(r) => Some(r@),
                None => None,
            },
        }
    }
}

impl Clone for Card {
    fn clone(&self) -> (r: Card)
        ensures
            r.deep_view() == self.deep_view(),
    {
        Card {
            name: self.name.clone(),
            rarity: match &self.rarity {
                Some(r) => Some(r.clone()),
                None => None,
            },
        }
    }
}

/// The card counts toward the rare tier: its rarity is `rare` or `mythic`.
pub open spec fn is_rare(c: CardView) -> bool {
    match c.rarity {
        Some(r) => r == "rare"@ || r == "mythic"@,
        None => false,
    }
}

/// The card counts toward the uncommon tier.
pub open spec fn is_uncommon(c: CardView) -> bool {
    match c.rarity {
        Some(r) => r == "uncommon"@,
        None => false,
    }
}

/// The card counts toward the common tier.
pub open spec fn is_common(c: CardView) -> bool {
    match c.rarity {
        Some(r) => r == "common"@,
        None => false,
    }
}

/// The card belongs to some sampling tier.
pub open spec fn is_sampleable(c: CardView) -> bool {
    is_rare(c) || is_uncommon(c) || is_common(c)
}

/// Relies on `str`'s `PartialEq`: equality of two string slices is equality
/// of their characters.
#[verifier::external_body]
pub(crate) fn str_eq(a: &str, b: &str) -> (r: bool)
    ensures
        r == (a@ == b@),
{
    a == b
}

/// Decides [`is_rare`] for a card.
pub fn card_is_rare(c: &Card) -> (r: bool)
    ensures
        r == is_rare(c.deep_view()),
{
    match &c.rarity {
        Some(s) => str_eq(s.as_str(), "rare") || str_eq(s.as_str(), "mythic"),
        None => false,
    }
}

/// Decides [`is_uncommon`] for a card.
pub fn card_is_uncommon(c: &Card) -> (r: bool)
    ensures
        r == is_uncommon(c.deep_view()),
{
    match &c.rarity {
        Some(s) => str_eq(s.as_str(), "uncommon"),
        None => false,
    }
}

/// Decides [`is_common`] for a card.
pub fn card_is_common(c: &Card) -> (r: bool)
    ensures
        r == is_common(c.deep_view()),
{
    match &c.rarity {
        Some(s) => str_eq(s.as_str(), "common"),
        None => false,
    }
}

} // verus!
