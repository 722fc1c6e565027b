//! The deck: canonical construction of the 54-card deck, in-place randomized
//! shuffling, and destructive draw-without-replacement.

use vstd::prelude::*;
use vstd::seq_lib::lemma_multiset_commutative;
use crate::cards::{Card, Suit};
use rand::seq::SliceRandom;

verus! {

/// The suit in canonical deck order: Spades, Hearts, Diamonds, Clubs.
pub open spec fn suit_at(block: int) -> Suit {
    if block == 0 {
        Suit::Spades
    } else if block == 1 {
        Suit::Hearts
    } else if block == 2 {
        Suit::Diamonds
    } else {
        Suit::Clubs
    }
}

/// The card at position `i` of a suit's thirteen-card block: the number
/// cards 1 through 10, then Jack, Queen, King.
pub open spec fn suit_card(i: int, s: Suit) -> Card {
    if i < 10 {
        Card::Number((i + 1) as u8, s)
    } else if i == 10 {
        Card::Jack(s)
    } else if i == 11 {
        Card::Queen(s)
    } else {
        Card::King(s)
    }
}

/// A suit's thirteen cards in canonical order.
pub open spec fn suit_sequence(s: Suit) -> Seq<Card> {
    Seq::new(13, |i: int| suit_card(i, s))
}

/// The two jokers, in canonical order.
pub open spec fn joker_pair() -> Seq<Card> {
    seq![Card::WhiteJoker, Card::BlackJoker]
}

/// The canonical 54-card deck: the four suit blocks in order, then the two
/// jokers.
pub open spec fn standard_deck() -> Seq<Card> {
    suit_sequence(Suit::Spades) + suit_sequence(Suit::Hearts) + suit_sequence(Suit::Diamonds)
        + suit_sequence(Suit::Clubs) + joker_pair()
}

/// Whether a card belongs to a suit; the jokers belong to none.
pub open spec fn card_in_suit(c: Card, s: Suit) -> bool {
    match c {
        Card::Number(_, cs) => cs == s,
        Card::Jack(cs) => cs == s,
        Card::Queen(cs) => cs == s,
        Card::King(cs) => cs == s,
        Card::WhiteJoker => false,
        Card::BlackJoker => false,
    }
}

/// Whether a card is one of the two jokers.
pub open spec fn is_joker(c: Card) -> bool {
    c == Card::WhiteJoker || c == Card::BlackJoker
}

/// How many cards of a sequence belong to the given suit.
pub open spec fn count_suit(s: Seq<Card>, suit: Suit) -> nat
    decreases s.len(),
{
    if s.len() == 0 {
        0
    } else {
        count_suit(s.drop_last(), suit) + if card_in_suit(s.last(), suit) {
            1nat
        } else {
            0nat
        }
    }
}

/// How many cards of a sequence are jokers.
pub open spec fn count_jokers(s: Seq<Card>) -> nat
    decreases s.len(),
{
    if s.len() == 0 {
        0
    } else {
        count_jokers(s.drop_last()) + if is_joker(s.last()) {
            1nat
        } else {
            0nat
        }
    }
}

fn suit_card_at(i: usize, s: Suit) -> (c: Card)
    requires
        i < 13,
    ensures
        c == suit_card(i as int, s),
{
    if i < 10 {
        Card::Number((i as u8) + 1, s)
    } else if i == 10 {
        Card::Jack(s)
    } else if i == 11 {
        Card::Queen(s)
    } else {
        Card::King(s)
    }
}

fn push_suit(deck: &mut Vec<Card>, s: Suit)
    ensures
        final(deck)@ == old(deck)@ + suit_sequence(s),
{
    let mut i: usize = 0;
    while i < 13
        invariant
            i <= 13,
            deck@ == old(deck)@ + Seq::new(i as nat, |j: int| suit_card(j, s)),
        decreases 13 - i,
    {
        deck.push(suit_card_at(i, s));
        proof {
            assert(deck@ =~= old(deck)@ + Seq::new((i + 1) as nat, |j: int| suit_card(j, s)));
        }
        i = i + 1;
    }
    proof {
        assert(deck@ =~= old(deck)@ + suit_sequence(s));
    }
}

/// Builds the canonical 54-card deck: for each suit in order the values 1
/// through 10 and then Jack, Queen and King, and finally the two jokers.
pub fn create_54_standard_deck() -> (deck: Vec<Card>)
    ensures
        deck@ == standard_deck(),
{
    let mut deck: Vec<Card> = Vec::new();
    push_suit(&mut deck, Suit::Spades);
    push_suit(&mut deck, Suit::Hearts);
    push_suit(&mut deck, Suit::Diamonds);
    push_suit(&mut deck, Suit::Clubs);
    deck.push(Card::WhiteJoker);
    deck.push(Card::BlackJoker);
    proof {
        assert(deck@ =~= standard_deck());
    }
    deck
}

/// Relies on rand::seq::SliceRandom::shuffle with rand::thread_rng: it
/// reorders the slice in place by element swaps (a Fisher-Yates walk), so
/// whatever order comes out, the multiset of elements is unchanged.
#[verifier::external_body]
pub fn shuffle_deck(deck: &mut Vec<Card>)
    ensures
        final(deck)@.len() == old(deck)@.len(),
        final(deck)@.to_multiset() == old(deck)@.to_multiset(),
{
    deck.shuffle(&mut rand::thread_rng());
}

/// Reshuffles the deck, then removes and returns its first `n` cards. The
/// drawn cards and the cards left together make up exactly the cards the
/// deck held before the call.
pub fn draw_cards(deck: &mut Vec<Card>, n: usize) -> (drawn: Vec<Card>)
    requires
        n <= old(deck)@.len(),
    ensures
        drawn@.len() == n,
        final(deck)@.len() == old(deck)@.len() - n,
        drawn@.to_multiset().add(final(deck)@.to_multiset()) == old(deck)@.to_multiset(),
{
    shuffle_deck(deck);
    let ghost shuffled: Seq<Card> = deck@;
    let mut drawn: Vec<Card> = Vec::new();
    let mut i: usize = 0;
    while i < n
        invariant
            n <= shuffled.len(),
            deck@ == shuffled,
            i <= n,
            drawn@ == shuffled.subrange(0, i as int),
        decreases n - i,
    {
        drawn.push(deck[i]);
        proof {
            assert(drawn@ =~= shuffled.subrange(0, (i + 1) as int));
        }
        i = i + 1;
    }
    let rest = deck.split_off(n);
    *deck = rest;
    proof {
        assert(shuffled =~= drawn@ + deck@);
        lemma_multiset_commutative(drawn@, deck@);
    }
    drawn
}

/// Draws `n` cards where the deck is long enough, and returns `None`,
/// leaving the deck untouched, where it is not: a draw never returns a
/// partial result.
pub fn try_draw_cards(deck: &mut Vec<Card>, n: usize) -> (result: Option<Vec<Card>>)
    ensures
        n > old(deck)@.len() ==> result is None && final(deck)@ == old(deck)@,
        n <= old(deck)@.len() ==> (result matches Some(drawn) && drawn@.len() == n
            && final(deck)@.len() == old(deck)@.len() - n && drawn@.to_multiset().add(
            final(deck)@.to_multiset(),
        ) == old(deck)@.to_multiset()),
{
    if n > deck.len() {
        None
    } else {
        Some(draw_cards(deck, n))
    }
}

proof fn lemma_count_suit_concat(a: Seq<Card>, b: Seq<Card>, suit: Suit)
    ensures
        count_suit(a + b, suit) == count_suit(a, suit) + count_suit(b, suit),
    decreases b.len(),
{
    if b.len() == 0 {
        assert(a + b =~= a);
    } else {
        assert((a + b).drop_last() =~= a + b.drop_last());
        lemma_count_suit_concat(a, b.drop_last(), suit);
    }
}

proof fn lemma_count_jokers_concat(a: Seq<Card>, b: Seq<Card>)
    ensures
        count_jokers(a + b) == count_jokers(a) + count_jokers(b),
    decreases b.len(),
{
    if b.len() == 0 {
        assert(a + b =~= a);
    } else {
        assert((a + b).drop_last() =~= a + b.drop_last());
        lemma_count_jokers_concat(a, b.drop_last());
    }
}

proof fn lemma_count_suit_homogeneous(s: Seq<Card>, x: Suit, y: Suit)
    requires
        forall|i: int| 0 <= i < s.len() ==> card_in_suit(#[trigger] s[i], x),
    ensures
        count_suit(s, y) == if x == y {
            s.len()
        } else {
            0nat
        },
    decreases s.len(),
{
    if s.len() > 0 {
        lemma_count_suit_homogeneous(s.drop_last(), x, y);
        assert(card_in_suit(s.last(), x));
    }
}

proof fn lemma_count_jokers_homogeneous(s: Seq<Card>, x: Suit)
    requires
        forall|i: int| 0 <= i < s.len() ==> card_in_suit(#[trigger] s[i], x),
    ensures
        count_jokers(s) == 0,
    decreases s.len(),
{
    if s.len() > 0 {
        lemma_count_jokers_homogeneous(s.drop_last(), x);
        assert(card_in_suit(s.last(), x));
    }
}

proof fn lemma_joker_pair_counts()
    ensures
        forall|y: Suit| #[trigger] count_suit(joker_pair(), y) == 0,
        count_jokers(joker_pair()) == 2,
{
    assert(joker_pair().drop_last() =~= seq![Card::WhiteJoker]);
    assert(seq![Card::WhiteJoker].drop_last() =~= Seq::<Card>::empty());
    assert(count_jokers(Seq::<Card>::empty()) == 0);
    assert(count_jokers(seq![Card::WhiteJoker]) == 1);
    assert(count_jokers(joker_pair()) == 2);
    assert forall|y: Suit| #[trigger] count_suit(joker_pair(), y) == 0 by {
        assert(count_suit(Seq::<Card>::empty(), y) == 0);
        assert(count_suit(seq![Card::WhiteJoker], y) == 0);
        assert(count_suit(joker_pair(), y) == 0);
    }
}

proof fn lemma_suit_sequence_in_suit(x: Suit)
    ensures
        forall|i: int| 0 <= i < 13 ==> card_in_suit(#[trigger] suit_sequence(x)[i], x),
{
    assert forall|i: int| 0 <= i < 13 implies card_in_suit(#[trigger] suit_sequence(x)[i], x) by {
        assert(suit_sequence(x)[i] == suit_card(i, x));
    }
}

/// The canonical deck holds 54 cards: 13 of each suit (values 1 to 10, Jack,
/// Queen and King) and exactly 2 jokers.
pub proof fn lemma_standard_deck_composition()
    ensures
        standard_deck().len() == 54,
        forall|s: Suit| #[trigger] count_suit(standard_deck(), s) == 13,
        count_jokers(standard_deck()) == 2,
{
    let b0 = suit_sequence(Suit::Spades);
    let b1 = suit_sequence(Suit::Hearts);
    let b2 = suit_sequence(Suit::Diamonds);
    let b3 = suit_sequence(Suit::Clubs);
    let jp = joker_pair();
    lemma_suit_sequence_in_suit(Suit::Spades);
    lemma_suit_sequence_in_suit(Suit::Hearts);
    lemma_suit_sequence_in_suit(Suit::Diamonds);
    lemma_suit_sequence_in_suit(Suit::Clubs);
    lemma_joker_pair_counts();
    lemma_count_jokers_homogeneous(b0, Suit::Spades);
    lemma_count_jokers_homogeneous(b1, Suit::Hearts);
    lemma_count_jokers_homogeneous(b2, Suit::Diamonds);
    lemma_count_jokers_homogeneous(b3, Suit::Clubs);
    lemma_count_jokers_concat(b0, b1);
    lemma_count_jokers_concat(b0 + b1, b2);
    lemma_count_jokers_concat(b0 + b1 + b2, b3);
    lemma_count_jokers_concat(b0 + b1 + b2 + b3, jp);
    assert forall|s: Suit| #[trigger] count_suit(standard_deck(), s) == 13 by {
        lemma_count_suit_homogeneous(b0, Suit::Spades, s);
        lemma_count_suit_homogeneous(b1, Suit::Hearts, s);
        lemma_count_suit_homogeneous(b2, Suit::Diamonds, s);
        lemma_count_suit_homogeneous(b3, Suit::Clubs, s);
        lemma_count_suit_concat(b0, b1, s);
        lemma_count_suit_concat(b0 + b1, b2, s);
        lemma_count_suit_concat(b0 + b1 + b2, b3, s);
        lemma_count_suit_concat(b0 + b1 + b2 + b3, jp, s);
        assert(s == Suit::Spades || s == Suit::Hearts || s == Suit::Diamonds || s == Suit::Clubs);
    }
}

proof fn lemma_concat_contains(a: Seq<Card>, b: Seq<Card>, c: Card)
    ensures
        (a + b).contains(c) <==> a.contains(c) || b.contains(c),
{
    if (a + b).contains(c) {
        let i = choose|i: int| 0 <= i < (a + b).len() && (a + b)[i] == c;
        if i < a.len() {
            assert(a[i] == c);
        } else {
            assert(b[i - a.len()] == c);
        }
    }
    if a.contains(c) {
        let i = choose|i: int| 0 <= i < a.len() && a[i] == c;
        assert((a + b)[i] == c);
    }
    if b.contains(c) {
        let i = choose|i: int| 0 <= i < b.len() && b[i] == c;
        assert((a + b)[a.len() + i] == c);
    }
}

proof fn lemma_no_dup_disjoint_concat(a: Seq<Card>, b: Seq<Card>)
    requires
        a.no_duplicates(),
        b.no_duplicates(),
        forall|c: Card| !(a.contains(c) && b.contains(c)),
    ensures
        (a + b).no_duplicates(),
{
    assert forall|i: int, j: int|
        0 <= i < (a + b).len() && 0 <= j < (a + b).len() && i != j implies (a + b)[i] != (a
        + b)[j] by {
        if i < a.len() && j >= a.len() {
            assert(a.contains((a + b)[i]));
            assert(b.contains((a + b)[j]));
        }
        if j < a.len() && i >= a.len() {
            assert(a.contains((a + b)[j]));
            assert(b.contains((a + b)[i]));
        }
    }
}

proof fn lemma_suit_sequence_no_duplicates(x: Suit)
    ensures
        suit_sequence(x).no_duplicates(),
{
    assert forall|i: int, j: int|
        0 <= i < suit_sequence(x).len() && 0 <= j < suit_sequence(x).len() && i
        != j implies suit_sequence(x)[i] != suit_sequence(x)[j] by {
        assert(suit_sequence(x)[i] == suit_card(i, x));
        assert(suit_sequence(x)[j] == suit_card(j, x));
    }
}

/// The canonical deck holds no card twice.
pub proof fn lemma_standard_deck_no_duplicates()
    ensures
        standard_deck().no_duplicates(),
{
    let b0 = suit_sequence(Suit::Spades);
    let b1 = suit_sequence(Suit::Hearts);
    let b2 = suit_sequence(Suit::Diamonds);
    let b3 = suit_sequence(Suit::Clubs);
    let jp = joker_pair();
    lemma_suit_sequence_no_duplicates(Suit::Spades);
    lemma_suit_sequence_no_duplicates(Suit::Hearts);
    lemma_suit_sequence_no_duplicates(Suit::Diamonds);
    lemma_suit_sequence_no_duplicates(Suit::Clubs);
    lemma_suit_sequence_in_suit(Suit::Spades);
    lemma_suit_sequence_in_suit(Suit::Hearts);
    lemma_suit_sequence_in_suit(Suit::Diamonds);
    lemma_suit_sequence_in_suit(Suit::Clubs);
    assert(jp.no_duplicates());
    assert forall|c: Card| !(#[trigger] b0.contains(c) && b1.contains(c)) by {
        lemma_block_membership_suit(b0, Suit::Spades, c);
        lemma_block_membership_suit(b1, Suit::Hearts, c);
    }
    lemma_no_dup_disjoint_concat(b0, b1);
    assert forall|c: Card| !(#[trigger] (b0 + b1).contains(c) && b2.contains(c)) by {
        lemma_concat_contains(b0, b1, c);
        lemma_block_membership_suit(b0, Suit::Spades, c);
        lemma_block_membership_suit(b1, Suit::Hearts, c);
        lemma_block_membership_suit(b2, Suit::Diamonds, c);
    }
    lemma_no_dup_disjoint_concat(b0 + b1, b2);
    assert forall|c: Card| !(#[trigger] (b0 + b1 + b2).contains(c) && b3.contains(c)) by {
        lemma_concat_contains(b0 + b1, b2, c);
        lemma_concat_contains(b0, b1, c);
        lemma_block_membership_suit(b0, Suit::Spades, c);
        lemma_block_membership_suit(b1, Suit::Hearts, c);
        lemma_block_membership_suit(b2, Suit::Diamonds, c);
        lemma_block_membership_suit(b3, Suit::Clubs, c);
    }
    lemma_no_dup_disjoint_concat(b0 + b1 + b2, b3);
    assert forall|c: Card| !(#[trigger] (b0 + b1 + b2 + b3).contains(c) && jp.contains(c)) by {
        lemma_concat_contains(b0 + b1 + b2, b3, c);
        lemma_concat_contains(b0 + b1, b2, c);
        lemma_concat_contains(b0, b1, c);
        lemma_block_membership_suit(b0, Suit::Spades, c);
        lemma_block_membership_suit(b1, Suit::Hearts, c);
        lemma_block_membership_suit(b2, Suit::Diamonds, c);
        lemma_block_membership_suit(b3, Suit::Clubs, c);
        if jp.contains(c) {
            assert(is_joker(c));
        }
    }
    lemma_no_dup_disjoint_concat(b0 + b1 + b2 + b3, jp);
}

proof fn lemma_block_membership_suit(b: Seq<Card>, x: Suit, c: Card)
    requires
        forall|i: int| 0 <= i < b.len() ==> card_in_suit(#[trigger] b[i], x),
    ensures
        b.contains(c) ==> card_in_suit(c, x),
{
    if b.contains(c) {
        let i = choose|i: int| 0 <= i < b.len() && b[i] == c;
        assert(card_in_suit(b[i], x));
    }
}

/// A draw partitions the deck: the drawn cards and the cards left are each
/// taken from the original deck, they account for its full length, and on a
/// deck without duplicate cards no card ends up on both sides.
pub proof fn lemma_draw_partition(original: Seq<Card>, drawn: Seq<Card>, rest: Seq<Card>)
    requires
        drawn.to_multiset().add(rest.to_multiset()) == original.to_multiset(),
    ensures
        drawn.len() + rest.len() == original.len(),
        forall|c: Card| #[trigger] drawn.contains(c) ==> original.contains(c),
        forall|c: Card| #[trigger] rest.contains(c) ==> original.contains(c),
        original.no_duplicates() ==> forall|c: Card|
            !(#[trigger] drawn.contains(c) && rest.contains(c)),
{
    broadcast use vstd::seq_lib::group_to_multiset_ensures;
    broadcast use vstd::multiset::group_multiset_axioms;

    assert(drawn.to_multiset().len() + rest.to_multiset().len() == original.to_multiset().len());
    assert forall|c: Card| #[trigger] drawn.contains(c) implies original.contains(c) by {
        assert(original.to_multiset().count(c) >= drawn.to_multiset().count(c));
    }
    assert forall|c: Card| #[trigger] rest.contains(c) implies original.contains(c) by {
        assert(original.to_multiset().count(c) >= rest.to_multiset().count(c));
    }
    if original.no_duplicates() {
        original.lemma_multiset_has_no_duplicates();
        assert forall|c: Card| !(#[trigger] drawn.contains(c) && rest.contains(c)) by {
            if drawn.contains(c) && rest.contains(c) {
                assert(original.to_multiset().count(c) >= 2);
                assert(original.to_multiset().contains(c));
            }
        }
    }
}

/// Draws three cards from a deck of at least three cards.
pub fn draw_three_cards(deck: &mut Vec<Card>) -> (drawn: Vec<Card>)
    requires
        old(deck)@.len() >= 3,
    ensures
        drawn@.len() == 3,
        final(deck)@.len() == old(deck)@.len() - 3,
        drawn@.to_multiset().add(final(deck)@.to_multiset()) == old(deck)@.to_multiset(),
{
    draw_cards(deck, 3)
}

} // verus!
