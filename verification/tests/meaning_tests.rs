use fortune_deck::cards::{Card, Suit};
use fortune_deck::deck::{create_54_standard_deck, draw_three_cards};

const WHITE_JOKER_TEXT: &str =
    "Powerful positive force, hidden potential, a guiding light within the dream";
const BLACK_JOKER_TEXT: &str = "Significant obstacle, fear, or negative influence in the dream";

#[test]
fn meaning_is_a_pure_function_of_the_card() {
    let a = Card::Number(7, Suit::Hearts);
    let b = Card::Number(7, Suit::Hearts);
    assert_eq!(a.meaning(), b.meaning());
    assert_eq!(Card::Queen(Suit::Clubs).meaning(), Card::Queen(Suit::Clubs).meaning());
    assert_eq!(Card::WhiteJoker.meaning(), Card::WhiteJoker.meaning());
}

#[test]
fn ace_of_spades_meaning() {
    let m = Card::Number(1, Suit::Spades).meaning();
    assert!(m.contains("New beginnings, potential"));
    assert!(m.contains("Spades"));
    assert_eq!(m, "New beginnings, potential of Spades: New beginnings, potential");
}

#[test]
fn joker_meanings_are_fixed() {
    assert_eq!(Card::WhiteJoker.meaning(), WHITE_JOKER_TEXT);
    assert_eq!(Card::BlackJoker.meaning(), BLACK_JOKER_TEXT);
}

#[test]
fn court_card_meanings() {
    assert_eq!(
        Card::Jack(Suit::Hearts).meaning(),
        "Jack of Hearts: Initiative, new ideas, adaptability"
    );
    assert_eq!(
        Card::Queen(Suit::Diamonds).meaning(),
        "Queen of Diamonds: Nurturing, intuition, emotional mastery"
    );
    assert_eq!(
        Card::King(Suit::Clubs).meaning(),
        "King of Clubs: Leadership, authority, stability"
    );
}

#[test]
fn number_card_meanings_repeat_the_theme() {
    let themes = [
        "New beginnings, potential",
        "Duality, choices, partnerships",
        "Creativity, communication, self-expression",
        "Stability, foundation, security",
        "Change, transition, unexpected developments",
        "Harmony, balance, responsibility",
        "Mystery, introspection, seeking knowledge",
        "Transformation, power, abundance",
        "Completion, endings, humanitarianism",
        "Fulfillment, achievement, culmination",
    ];
    for (i, theme) in themes.iter().enumerate() {
        let value = (i + 1) as u8;
        let m = Card::Number(value, Suit::Diamonds).meaning();
        assert_eq!(m, format!("{} of Diamonds: {}", theme, theme));
    }
}

#[test]
fn suit_names() {
    assert_eq!(Suit::Spades.name(), "Spades");
    assert_eq!(Suit::Hearts.name(), "Hearts");
    assert_eq!(Suit::Diamonds.name(), "Diamonds");
    assert_eq!(Suit::Clubs.name(), "Clubs");
}

#[test]
fn drawn_cards_have_fitting_meanings() {
    let mut deck = create_54_standard_deck();
    let drawn = draw_three_cards(&mut deck);
    assert_eq!(drawn.len(), 3);
    for card in &drawn {
        let m = card.meaning();
        assert!(!m.is_empty());
        match card {
            Card::Number(_, s) | Card::Jack(s) | Card::Queen(s) | Card::King(s) => {
                assert!(m.contains(s.name()));
            }
            Card::WhiteJoker => assert_eq!(m, WHITE_JOKER_TEXT),
            Card::BlackJoker => assert_eq!(m, BLACK_JOKER_TEXT),
        }
    }
}
