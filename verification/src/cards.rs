//! The card vocabulary: suits, cards, and the fixed divinatory meaning of
//! each card.

use vstd::prelude::*;
use vstd::string::*;

verus! {

/// One of the four French suits.
#[derive(Clone, Copy, Debug, PartialEq, Eq, Structural)]
pub enum Suit {
    Spades,
    Hearts,
    Diamonds,
    Clubs,
}

/// A playing card: forty number cards (values 1 through 10 in each suit),
/// twelve court cards, and two jokers.
#[derive(Clone, Copy, Debug, PartialEq, Eq, Structural)]
pub enum Card {
    Number(u8, Suit),
    Jack(Suit),
    Queen(Suit),
    King(Suit),
    WhiteJoker,
    BlackJoker,
}

/// The display name of a suit.
pub open spec fn suit_name_spec(s: Suit) -> Seq<char> {
    match s {
        Suit::Spades => "Spades"@,
        Suit::Hearts => "Hearts"@,
        Suit::Diamonds => "Diamonds"@,
        Suit::Clubs => "Clubs"@,
    }
}

/// The theme text of a number card's value; meaningful for values 1 to 10.
pub open spec fn number_theme_spec(value: int) -> Seq<char> {
    if value == 1 {
        "New beginnings, potential"@
    } else if value == 2 {
        "Duality, choices, partnerships"@
    } else if value == 3 {
        "Creativity, communication, self-expression"@
    } else if value == 4 {
        "Stability, foundation, security"@
    } else if value == 5 {
        "Change, transition, unexpected developments"@
    } else if value == 6 {
        "Harmony, balance, responsibility"@
    } else if value == 7 {
        "Mystery, introspection, seeking knowledge"@
    } else if value == 8 {
        "Transformation, power, abundance"@
    } else if value == 9 {
        "Completion, endings, humanitarianism"@
    } else if value == 10 {
        "Fulfillment, achievement, culmination"@
    } else {
        Seq::<char>::empty()
    }
}

/// The one-line divinatory meaning of a card. A number card repeats its
/// value's theme around the suit name; court cards carry a per-rank theme;
/// the jokers have fixed standalone texts.
pub open spec fn meaning_spec(c: Card) -> Seq<char> {
    match c {
        Card::Number(value, suit) => number_theme_spec(value as int) + " of "@
            + suit_name_spec(suit) + ": "@ + number_theme_spec(value as int),
        Card::Jack(suit) => "Jack of "@ + suit_name_spec(suit)
            + ": Initiative, new ideas, adaptability"@,
        Card::Queen(suit) => "Queen of "@ + suit_name_spec(suit)
            + ": Nurturing, intuition, emotional mastery"@,
        Card::King(suit) => "King of "@ + suit_name_spec(suit)
            + ": Leadership, authority, stability"@,
        Card::WhiteJoker => "Powerful positive force, hidden potential, a guiding light within the dream"@,
        Card::BlackJoker => "Significant obstacle, fear, or negative influence in the dream"@,
    }
}

impl Suit {
    /// The display name of this suit.
    pub fn name(&self) -> (r: &'static str)
        ensures
            r@ == suit_name_spec(*self),
    {
        match self {
            Suit::Spades => "Spades",
            Suit::Hearts => "Hearts",
            Suit::Diamonds => "Diamonds",
            Suit::Clubs => "Clubs",
        }
    }
}

fn number_theme(value: u8) -> (r: &'static str)
    requires
        1 <= value <= 10,
    ensures
        r@ == number_theme_spec(value as int),
{
    if value == 1 {
        "New beginnings, potential"
    } else if value == 2 {
        "Duality, choices, partnerships"
    } else if value == 3 {
        "Creativity, communication, self-expression"
    } else if value == 4 {
        "Stability, foundation, security"
    } else if value == 5 {
        "Change, transition, unexpected developments"
    } else if value == 6 {
        "Harmony, balance, responsibility"
    } else if value == 7 {
        "Mystery, introspection, seeking knowledge"
    } else if value == 8 {
        "Transformation, power, abundance"
    } else if value == 9 {
        "Completion, endings, humanitarianism"
    } else {
        "Fulfillment, achievement, culmination"
    }
}

impl Card {
    /// The one-line divinatory meaning of this card. A number card's value
    /// outside 1 to 10 never arises from the standard deck and is excluded.
    pub fn meaning(&self) -> (r: String)
        requires
            *self matches Card::Number(value, _) ==> 1 <= value <= 10,
        ensures
            r@ == meaning_spec(*self),
    {
        match self {
            Card::Number(value, suit) => {
                let theme = number_theme(*value);
                let mut r = String::from_str(theme);
                r.append(" of ");
                r.append(suit.name());
                r.append(": ");
                r.append(theme);
                proof {
                    assert(r@ =~= meaning_spec(*self));
                }
                r
            },
            Card::Jack(suit) => {
                let mut r = String::from_str("Jack of ");
                r.append(suit.name());
                r.append(": Initiative, new ideas, adaptability");
                proof {
                    assert(r@ =~= meaning_spec(*self));
                }
                r
            },
            Card::Queen(suit) => {
                let mut r = String::from_str("Queen of ");
                r.append(suit.name());
                r.append(": Nurturing, intuition, emotional mastery");
                proof {
                    assert(r@ =~= meaning_spec(*self));
                }
                r
            },
            Card::King(suit) => {
                let mut r = String::from_str("King of ");
                r.append(suit.name());
                r.append(": Leadership, authority, stability");
                proof {
                    assert(r@ =~= meaning_spec(*self));
                }
                r
            },
            Card::WhiteJoker => String::from_str(
                "Powerful positive force, hidden potential, a guiding light within the dream",
            ),
            Card::BlackJoker => String::from_str(
                "Significant obstacle, fear, or negative influence in the dream",
            ),
        }
    }
}

/// The meaning of a card is a pure function of the card's identity: two
/// structurally equal cards always carry identical meaning text.
pub proof fn lemma_meaning_deterministic(a: Card, b: Card)
    requires
        a == b,
    ensures
        meaning_spec(a) == meaning_spec(b),
{
}

} // verus!
