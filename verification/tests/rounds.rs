use blackjack_analyzer_rs::blackjack::ruleset::{
    BlackjackRuleset, DoubleDownOn, MaxHandsAfterSplit, Payout, SplitAces,
};
use blackjack_analyzer_rs::blackjack::{
    init_state_with_shoe, BlackjackState, Card, EngineError, FaceValue, GameState, HandOutcome,
    HandValue, LossReason, PlayerAction, Suit, WinReason,
};

fn default_rules() -> BlackjackRuleset {
    BlackjackRuleset {
        surrender: true,
        dealer_stands_on_all_17: true,
        dealer_peeks: true,
        split_aces: SplitAces::Twice,
        hit_on_split_ace: false,
        max_hands_after_split: MaxHandsAfterSplit::Three,
        double_down_on: DoubleDownOn::Any,
        double_after_split: true,
        double_on_split_ace: false,
        blackjack_payout: Payout { numerator: 3, denominator: 2 },
        ace_and_ten_counts_as_blackjack: true,
        split_ace_can_be_blackjack: false,
    }
}

fn hearts(face_value: FaceValue) -> Card {
    Card { suit: Suit::Hearts, face_value, face_down: false }
}

/// A round whose shoe deals `draws` in the order given.
fn round_dealing(draws: &[FaceValue], rules: BlackjackRuleset) -> BlackjackState {
    let shoe: Vec<Card> = draws.iter().rev().map(|r| hearts(*r)).collect();
    init_state_with_shoe(10, rules, shoe)
}

/// Deals the four cards of the opening.
fn open_round(draws: &[FaceValue], rules: BlackjackRuleset) -> BlackjackState {
    let mut game = round_dealing(draws, rules);
    for _ in 0..4 {
        assert!(game.is_well_formed());
        assert_eq!(game.state, GameState::Dealing);
        game.next_state(None);
    }
    assert!(game.is_well_formed());
    game
}

fn ranks(hand: &[Card]) -> Vec<FaceValue> {
    hand.iter().map(|c| c.face_value).collect()
}

fn active_value(game: &BlackjackState) -> HandValue {
    game.player_hand_value(&game.player_hands[game.hand_index], game.player_split_aces())
}

#[test]
fn a_fresh_round_waits_to_be_dealt() {
    let game = round_dealing(&[FaceValue::Two], default_rules());
    assert_eq!(game.state, GameState::Dealing);
    assert_eq!(game.starting_bet, 10);
    assert_eq!(game.bets, vec![10]);
    assert_eq!(game.hand_index, 0);
    assert_eq!(game.player_hands, vec![Vec::<Card>::new()]);
    assert!(game.dealer_hand.is_empty());
    assert_eq!(game.shoe.len(), 1);
    assert!(game.is_well_formed());
}

#[test]
fn the_opening_deal_alternates_and_hides_the_hole_card() {
    let draws = [
        FaceValue::Five,
        FaceValue::Six,
        FaceValue::Seven,
        FaceValue::Eight,
        FaceValue::Nine,
    ];
    let mut game = round_dealing(&draws, default_rules());
    game.next_state(None);
    assert_eq!(ranks(&game.player_hands[0]), vec![FaceValue::Five]);
    assert!(game.dealer_hand.is_empty());
    assert_eq!(game.shoe.len(), 4);
    assert_eq!(game.state, GameState::Dealing);
    game.next_state(None);
    assert_eq!(ranks(&game.dealer_hand), vec![FaceValue::Six]);
    assert!(!game.dealer_hand[0].face_down);
    assert_eq!(game.shoe.len(), 3);
    assert_eq!(game.state, GameState::Dealing);
    game.next_state(None);
    assert_eq!(ranks(&game.player_hands[0]), vec![FaceValue::Five, FaceValue::Seven]);
    assert_eq!(game.shoe.len(), 2);
    assert_eq!(game.state, GameState::Dealing);
    game.next_state(None);
    assert_eq!(ranks(&game.dealer_hand), vec![FaceValue::Six, FaceValue::Eight]);
    assert!(game.dealer_hand[1].face_down);
    assert_eq!(game.shoe.len(), 1);
    assert_eq!(game.state, GameState::PlayerTurn);
    assert_eq!(game.bets, vec![10]);
}

#[test]
fn four_twos_give_hard_four_against_a_two_and_offer_split() {
    let draws = [FaceValue::Two, FaceValue::Two, FaceValue::Two, FaceValue::Two];
    let game = open_round(&draws, default_rules());
    assert_eq!(game.state, GameState::PlayerTurn);
    assert_eq!(active_value(&game), HandValue::Hard(4));
    assert_eq!(game.dealer_hand_value(&game.dealer_hand), HandValue::Hard(2));
    assert!(!game.dealer_hand[0].face_down);
    assert!(game.dealer_hand[1].face_down);
    let allowed = game.allowed_actions();
    assert!(allowed.contains(&PlayerAction::Split));
    assert_eq!(
        allowed,
        vec![
            PlayerAction::Hit,
            PlayerAction::Stand,
            PlayerAction::Split,
            PlayerAction::DoubleDown,
            PlayerAction::Surrender
        ]
    );
}

#[test]
fn a_peeking_dealer_with_a_natural_ends_the_round_at_once() {
    // player 9, dealer A, player 7, dealer K
    let draws = [FaceValue::Nine, FaceValue::Ace, FaceValue::Seven, FaceValue::King];
    let mut game = round_dealing(&draws, default_rules());
    for _ in 0..3 {
        game.next_state(None);
        assert_eq!(game.state, GameState::Dealing);
    }
    game.next_state(None);
    assert_eq!(game.state, GameState::GameOver);
    assert!(game.is_well_formed());
    assert!(!game.dealer_hand[1].face_down);
    let outcomes = game.player_hand_outcomes();
    assert_eq!(outcomes, vec![HandOutcome::Lost(LossReason::DealerBlackjack)]);
}

#[test]
fn a_natural_against_a_peeked_natural_is_a_push() {
    // player A, dealer A, player Q, dealer K
    let draws = [FaceValue::Ace, FaceValue::Ace, FaceValue::Queen, FaceValue::King];
    let game = open_round(&draws, default_rules());
    assert_eq!(game.state, GameState::GameOver);
    assert_eq!(game.player_hand_outcomes(), vec![HandOutcome::Push]);
}

#[test]
fn a_dealer_who_does_not_peek_plays_on() {
    let mut rules = default_rules();
    rules.dealer_peeks = false;
    let draws = [FaceValue::Nine, FaceValue::Ace, FaceValue::Seven, FaceValue::King];
    let game = open_round(&draws, rules);
    assert_eq!(game.state, GameState::PlayerTurn);
    assert!(game.dealer_hand[1].face_down);
}

#[test]
fn a_dealer_ace_and_ten_is_peeked_only_where_it_counts_as_a_natural() {
    let mut rules = default_rules();
    rules.ace_and_ten_counts_as_blackjack = false;
    let draws = [FaceValue::Nine, FaceValue::Ace, FaceValue::Seven, FaceValue::Ten];
    let game = open_round(&draws, rules);
    assert_eq!(game.state, GameState::PlayerTurn);
    assert!(game.dealer_hand[1].face_down);
    rules.ace_and_ten_counts_as_blackjack = true;
    let game = open_round(&draws, rules);
    assert_eq!(game.state, GameState::GameOver);
}

#[test]
fn a_player_natural_skips_the_players_turn() {
    let draws = [
        FaceValue::Ace,
        FaceValue::Nine,
        FaceValue::King,
        FaceValue::Seven,
        FaceValue::Five,
    ];
    let mut game = open_round(&draws, default_rules());
    assert_eq!(game.state, GameState::DealerTurn);
    // The dealer turns the hole card; against naturals only, that ends the round.
    game.next_state(None);
    assert_eq!(game.state, GameState::GameOver);
    assert!(!game.dealer_hand[1].face_down);
    assert_eq!(game.dealer_hand.len(), 2);
    assert_eq!(game.player_hand_outcomes(), vec![HandOutcome::Won(WinReason::Blackjack)]);
}

#[test]
fn a_soft_21_on_two_cards_skips_the_players_turn() {
    let mut rules = default_rules();
    rules.ace_and_ten_counts_as_blackjack = false;
    let draws = [FaceValue::Ace, FaceValue::Nine, FaceValue::Ten, FaceValue::Seven];
    let game = open_round(&draws, rules);
    assert_eq!(active_value(&game), HandValue::Soft(21));
    assert_eq!(game.state, GameState::DealerTurn);
}

#[test]
fn split_aces_take_one_card_each_and_are_finished() {
    let mut rules = default_rules();
    rules.split_aces = SplitAces::Once;
    rules.hit_on_split_ace = false;
    // player A, dealer 9, player A, dealer 7, then 5 and 8 for the split hands
    let draws = [
        FaceValue::Ace,
        FaceValue::Nine,
        FaceValue::Ace,
        FaceValue::Seven,
        FaceValue::Five,
        FaceValue::Eight,
        FaceValue::Two,
    ];
    let mut game = open_round(&draws, rules);
    assert_eq!(game.state, GameState::PlayerTurn);
    assert!(game.allowed_actions().contains(&PlayerAction::Split));
    game.next_state(Some(PlayerAction::Split));
    assert!(game.is_well_formed());
    assert_eq!(game.state, GameState::Dealing);
    assert_eq!(game.player_hands.len(), 2);
    assert_eq!(ranks(&game.player_hands[0]), vec![FaceValue::Ace]);
    assert_eq!(ranks(&game.player_hands[1]), vec![FaceValue::Ace]);
    assert_eq!(game.bets, vec![10, 10]);
    assert_eq!(game.hand_index, 0);

    game.next_state(None);
    assert!(game.is_well_formed());
    assert_eq!(ranks(&game.player_hands[0]), vec![FaceValue::Ace, FaceValue::Five]);
    assert_eq!(
        game.player_hand_value(&game.player_hands[0], game.player_split_aces()),
        HandValue::Soft(16)
    );
    // The first hand is finished at once: play moves to the second hand.
    assert_eq!(game.state, GameState::Dealing);
    assert_eq!(game.hand_index, 1);

    game.next_state(None);
    assert!(game.is_well_formed());
    assert_eq!(ranks(&game.player_hands[1]), vec![FaceValue::Ace, FaceValue::Eight]);
    assert!(game.player_hand_finished());
    // No hand is left: the player never got a say on either.
    assert_eq!(game.state, GameState::DealerTurn);
    assert_eq!(game.hand_index, 1);
}

#[test]
fn split_aces_that_may_be_hit_stay_open() {
    let mut rules = default_rules();
    rules.split_aces = SplitAces::Once;
    rules.hit_on_split_ace = true;
    let draws = [
        FaceValue::Ace,
        FaceValue::Nine,
        FaceValue::Ace,
        FaceValue::Seven,
        FaceValue::Five,
        FaceValue::Eight,
    ];
    let mut game = open_round(&draws, rules);
    game.next_state(Some(PlayerAction::Split));
    game.next_state(None);
    assert_eq!(game.state, GameState::PlayerTurn);
    assert_eq!(game.hand_index, 0);
    assert!(!game.player_hand_finished());
    let allowed = game.allowed_actions();
    assert!(allowed.contains(&PlayerAction::Hit));
    assert!(!allowed.contains(&PlayerAction::Split));
    assert!(!allowed.contains(&PlayerAction::Surrender));
}

#[test]
fn doubling_on_ten_and_eleven_only() {
    let mut rules = default_rules();
    rules.double_down_on = DoubleDownOn::TenEleven;
    let nine = open_round(
        &[
            FaceValue::Four,
            FaceValue::Six,
            FaceValue::Five,
            FaceValue::Seven,
        ],
        rules,
    );
    assert_eq!(active_value(&nine), HandValue::Hard(9));
    assert!(!nine.allowed_actions().contains(&PlayerAction::DoubleDown));
    let ten = open_round(
        &[
            FaceValue::Four,
            FaceValue::Six,
            FaceValue::Six,
            FaceValue::Seven,
        ],
        rules,
    );
    assert_eq!(active_value(&ten), HandValue::Hard(10));
    assert!(ten.allowed_actions().contains(&PlayerAction::DoubleDown));
    let eleven =
        open_round(&[FaceValue::Four, FaceValue::Six, FaceValue::Seven, FaceValue::Seven], rules);
    assert!(eleven.allowed_actions().contains(&PlayerAction::DoubleDown));
    let twelve =
        open_round(&[FaceValue::Four, FaceValue::Six, FaceValue::Eight, FaceValue::Seven], rules);
    assert!(!twelve.allowed_actions().contains(&PlayerAction::DoubleDown));
}

#[test]
fn doubling_on_nine_ten_and_eleven() {
    let mut rules = default_rules();
    rules.double_down_on = DoubleDownOn::NineTenEleven;
    let eight = open_round(
        &[
            FaceValue::Three,
            FaceValue::Six,
            FaceValue::Five,
            FaceValue::Seven,
        ],
        rules,
    );
    assert!(!eight.allowed_actions().contains(&PlayerAction::DoubleDown));
    let nine = open_round(
        &[
            FaceValue::Four,
            FaceValue::Six,
            FaceValue::Five,
            FaceValue::Seven,
        ],
        rules,
    );
    assert!(nine.allowed_actions().contains(&PlayerAction::DoubleDown));
    // A soft hand is no hard nine, ten or eleven.
    let soft = open_round(
        &[
            FaceValue::Ace,
            FaceValue::Six,
            FaceValue::Eight,
            FaceValue::Seven,
        ],
        rules,
    );
    assert_eq!(active_value(&soft), HandValue::Soft(19));
    assert!(!soft.allowed_actions().contains(&PlayerAction::DoubleDown));
}

#[test]
fn a_pair_of_aces_cannot_be_doubled() {
    let game = open_round(
        &[
            FaceValue::Ace,
            FaceValue::Six,
            FaceValue::Ace,
            FaceValue::Seven,
        ],
        default_rules(),
    );
    let allowed = game.allowed_actions();
    assert!(!allowed.contains(&PlayerAction::DoubleDown));
    assert!(allowed.contains(&PlayerAction::Split));
}

#[test]
fn surrender_is_offered_and_ends_the_round() {
    let draws = [FaceValue::Ten, FaceValue::Nine, FaceValue::Six, FaceValue::Seven];
    let mut game = open_round(&draws, default_rules());
    assert_eq!(game.state, GameState::PlayerTurn);
    assert!(game.allowed_actions().contains(&PlayerAction::Surrender));
    game.next_state(Some(PlayerAction::Surrender));
    assert_eq!(game.state, GameState::GameOver);
    assert!(game.is_well_formed());
    assert_eq!(game.player_hand_outcomes(), vec![HandOutcome::Surrendered]);
}

#[test]
fn surrender_gives_one_outcome_whatever_the_hand() {
    for first in [FaceValue::Two, FaceValue::Nine, FaceValue::King] {
        for second in [FaceValue::Three, FaceValue::Eight, FaceValue::Queen] {
            let draws = [first, FaceValue::Five, second, FaceValue::King];
            let mut game = open_round(&draws, default_rules());
            game.next_state(Some(PlayerAction::Surrender));
            assert_eq!(game.player_hand_outcomes(), vec![HandOutcome::Surrendered]);
        }
    }
}

#[test]
fn surrender_is_absent_where_the_house_does_not_offer_it() {
    let mut rules = default_rules();
    rules.surrender = false;
    let draws = [FaceValue::Ten, FaceValue::Nine, FaceValue::Six, FaceValue::Seven];
    let game = open_round(&draws, rules);
    assert!(!game.allowed_actions().contains(&PlayerAction::Surrender));
}

#[test]
fn surrender_is_gone_after_a_hit() {
    let draws = [
        FaceValue::Two,
        FaceValue::Nine,
        FaceValue::Three,
        FaceValue::Seven,
        FaceValue::Four,
    ];
    let mut game = open_round(&draws, default_rules());
    game.next_state(Some(PlayerAction::Hit));
    assert_eq!(game.state, GameState::PlayerTurn);
    let allowed = game.allowed_actions();
    assert_eq!(allowed, vec![PlayerAction::Hit, PlayerAction::Stand]);
}

#[test]
fn allowed_actions_are_the_same_when_asked_twice() {
    let draws = [FaceValue::Eight, FaceValue::Nine, FaceValue::Eight, FaceValue::Seven];
    let game = open_round(&draws, default_rules());
    let before = game.clone();
    let first = game.allowed_actions();
    let second = game.allowed_actions();
    assert_eq!(first, second);
    assert_eq!(game.player_hands, before.player_hands);
    assert_eq!(game.shoe, before.shoe);
    assert_eq!(game.state, before.state);
}

#[test]
fn hitting_to_a_bust_ends_the_round() {
    let draws = [
        FaceValue::Ten,
        FaceValue::Nine,
        FaceValue::Six,
        FaceValue::Seven,
        FaceValue::King,
    ];
    let mut game = open_round(&draws, default_rules());
    game.next_state(Some(PlayerAction::Hit));
    assert_eq!(game.state, GameState::GameOver);
    assert!(game.dealer_hand[1].face_down);
    assert_eq!(game.player_hand_outcomes(), vec![HandOutcome::Lost(LossReason::Bust)]);
}

#[test]
fn hitting_to_21_passes_play_to_the_dealer() {
    let draws = [
        FaceValue::Ten,
        FaceValue::Nine,
        FaceValue::Six,
        FaceValue::Seven,
        FaceValue::Five,
    ];
    let mut game = open_round(&draws, default_rules());
    game.next_state(Some(PlayerAction::Hit));
    assert_eq!(game.state, GameState::DealerTurn);
}

#[test]
fn hitting_below_21_keeps_the_players_turn() {
    let draws = [
        FaceValue::Two,
        FaceValue::Nine,
        FaceValue::Six,
        FaceValue::Seven,
        FaceValue::Five,
    ];
    let mut game = open_round(&draws, default_rules());
    game.next_state(Some(PlayerAction::Hit));
    assert_eq!(game.state, GameState::PlayerTurn);
    assert_eq!(active_value(&game), HandValue::Hard(13));
    assert_eq!(game.shoe.len(), 0);
}

#[test]
fn standing_passes_play_to_the_dealer() {
    let draws = [FaceValue::Ten, FaceValue::Nine, FaceValue::Eight, FaceValue::Seven];
    let mut game = open_round(&draws, default_rules());
    game.next_state(Some(PlayerAction::Stand));
    assert_eq!(game.state, GameState::DealerTurn);
    assert_eq!(game.hand_index, 0);
}

#[test]
fn doubling_doubles_the_stake_and_takes_exactly_one_card() {
    let draws = [
        FaceValue::Five,
        FaceValue::Nine,
        FaceValue::Six,
        FaceValue::Seven,
        FaceValue::Two,
        FaceValue::Three,
    ];
    let mut game = open_round(&draws, default_rules());
    game.next_state(Some(PlayerAction::DoubleDown));
    assert!(game.is_well_formed());
    assert_eq!(game.bets, vec![20]);
    assert_eq!(ranks(&game.player_hands[0]), vec![FaceValue::Five, FaceValue::Six, FaceValue::Two]);
    assert_eq!(game.state, GameState::DealerTurn);
    assert_eq!(game.shoe.len(), 1);
}

#[test]
fn doubling_to_a_bust_ends_the_round() {
    let draws = [
        FaceValue::Ten,
        FaceValue::Nine,
        FaceValue::Six,
        FaceValue::Seven,
        FaceValue::King,
    ];
    let mut game = open_round(&draws, default_rules());
    game.next_state(Some(PlayerAction::DoubleDown));
    assert_eq!(game.state, GameState::GameOver);
    assert_eq!(game.bets, vec![20]);
    assert_eq!(game.player_hand_outcomes(), vec![HandOutcome::Lost(LossReason::Bust)]);
}

#[test]
fn doubling_the_first_split_hand_sends_the_next_hand_its_card() {
    // 8 8 against 9/7, split; first hand gets 3 and doubles with a 10.
    let draws = [
        FaceValue::Eight,
        FaceValue::Nine,
        FaceValue::Eight,
        FaceValue::Seven,
        FaceValue::Three,
        FaceValue::King,
        FaceValue::Two,
    ];
    let mut game = open_round(&draws, default_rules());
    game.next_state(Some(PlayerAction::Split));
    game.next_state(None);
    assert_eq!(game.state, GameState::PlayerTurn);
    assert_eq!(game.hand_index, 0);
    game.next_state(Some(PlayerAction::DoubleDown));
    assert!(game.is_well_formed());
    assert_eq!(game.bets, vec![20, 10]);
    assert_eq!(game.hand_index, 1);
    assert_eq!(game.state, GameState::Dealing);
    game.next_state(None);
    assert_eq!(ranks(&game.player_hands[1]), vec![FaceValue::Eight, FaceValue::Two]);
    assert_eq!(game.state, GameState::PlayerTurn);
}

#[test]
fn splitting_moves_the_second_card_to_a_new_hand() {
    let draws = [
        FaceValue::Eight,
        FaceValue::Nine,
        FaceValue::Eight,
        FaceValue::Seven,
        FaceValue::Three,
        FaceValue::King,
    ];
    let mut game = open_round(&draws, default_rules());
    game.next_state(Some(PlayerAction::Split));
    assert_eq!(game.state, GameState::Dealing);
    assert_eq!(game.player_hands.len(), 2);
    assert_eq!(game.bets, vec![10, 10]);
    assert_eq!(game.shoe.len(), 2);
    game.next_state(None);
    assert_eq!(ranks(&game.player_hands[0]), vec![FaceValue::Eight, FaceValue::Three]);
    assert_eq!(ranks(&game.player_hands[1]), vec![FaceValue::Eight]);
    assert_eq!(game.state, GameState::PlayerTurn);
    game.next_state(Some(PlayerAction::Stand));
    assert_eq!(game.state, GameState::Dealing);
    assert_eq!(game.hand_index, 1);
    game.next_state(None);
    assert_eq!(ranks(&game.player_hands[1]), vec![FaceValue::Eight, FaceValue::King]);
    assert_eq!(game.state, GameState::PlayerTurn);
    game.next_state(Some(PlayerAction::Stand));
    assert_eq!(game.state, GameState::DealerTurn);
}

#[test]
fn the_cap_on_hands_closes_the_split() {
    let mut rules = default_rules();
    rules.max_hands_after_split = MaxHandsAfterSplit::One;
    let draws = [FaceValue::Eight, FaceValue::Nine, FaceValue::Eight, FaceValue::Seven];
    let game = open_round(&draws, rules);
    assert!(!game.allowed_actions().contains(&PlayerAction::Split));
    rules.max_hands_after_split = MaxHandsAfterSplit::Two;
    let draws = [
        FaceValue::Eight,
        FaceValue::Nine,
        FaceValue::Eight,
        FaceValue::Seven,
        FaceValue::Eight,
    ];
    let mut game = open_round(&draws, rules);
    assert!(game.allowed_actions().contains(&PlayerAction::Split));
    game.next_state(Some(PlayerAction::Split));
    game.next_state(None);
    assert_eq!(ranks(&game.player_hands[0]), vec![FaceValue::Eight, FaceValue::Eight]);
    assert!(!game.allowed_actions().contains(&PlayerAction::Split));
}

#[test]
fn aces_may_not_be_split_where_the_house_forbids_it() {
    let mut rules = default_rules();
    rules.split_aces = SplitAces::NotAllowed;
    let draws = [FaceValue::Ace, FaceValue::Nine, FaceValue::Ace, FaceValue::Seven];
    let game = open_round(&draws, rules);
    assert!(!game.allowed_actions().contains(&PlayerAction::Split));
}

#[test]
fn aces_split_thrice_allow_a_second_split() {
    let mut rules = default_rules();
    rules.split_aces = SplitAces::Thrice;
    rules.max_hands_after_split = MaxHandsAfterSplit::Four;
    let draws = [
        FaceValue::Ace,
        FaceValue::Nine,
        FaceValue::Ace,
        FaceValue::Seven,
        FaceValue::Ace,
        FaceValue::Ace,
        FaceValue::Five,
        FaceValue::Six,
        FaceValue::Seven,
    ];
    let mut game = open_round(&draws, rules);
    game.next_state(Some(PlayerAction::Split));
    game.next_state(None);
    // The first hand is a pair of aces again and may be split once more.
    assert_eq!(game.state, GameState::PlayerTurn);
    assert_eq!(game.allowed_actions(), vec![PlayerAction::Stand, PlayerAction::Split]);
    game.next_state(Some(PlayerAction::Split));
    assert_eq!(game.player_hands.len(), 3);
    game.next_state(None);
    // With three ace hands the limit is reached: the new pair is finished.
    assert_eq!(ranks(&game.player_hands[0]), vec![FaceValue::Ace, FaceValue::Ace]);
    assert_eq!(game.state, GameState::Dealing);
    assert_eq!(game.hand_index, 1);
}

#[test]
fn the_dealer_turns_the_hole_card_then_draws_to_17() {
    let draws = [
        FaceValue::Ten,
        FaceValue::Six,
        FaceValue::Eight,
        FaceValue::Five,
        FaceValue::Four,
        FaceValue::Two,
    ];
    let mut game = open_round(&draws, default_rules());
    game.next_state(Some(PlayerAction::Stand));
    assert_eq!(game.state, GameState::DealerTurn);
    game.next_state(None);
    assert!(!game.dealer_hand[1].face_down);
    assert_eq!(game.dealer_hand.len(), 2);
    assert_eq!(game.shoe.len(), 2);
    assert_eq!(game.state, GameState::DealerTurn);
    game.next_state(None);
    assert_eq!(ranks(&game.dealer_hand), vec![FaceValue::Six, FaceValue::Five, FaceValue::Four]);
    assert_eq!(game.state, GameState::DealerTurn);
    game.next_state(None);
    assert_eq!(game.dealer_hand_value(&game.dealer_hand), HandValue::Hard(17));
    assert_eq!(game.state, GameState::GameOver);
    assert_eq!(game.player_hand_outcomes(), vec![HandOutcome::Won(WinReason::HigherHand)]);
}

#[test]
fn the_dealer_stands_on_soft_17_only_where_the_house_says_so() {
    let draws = [FaceValue::Ten, FaceValue::Ace, FaceValue::Eight, FaceValue::Six, FaceValue::Two];
    let mut rules = default_rules();
    rules.dealer_stands_on_all_17 = true;
    let mut game = open_round(&draws, rules);
    game.next_state(Some(PlayerAction::Stand));
    game.next_state(None);
    assert_eq!(game.dealer_hand_value(&game.dealer_hand), HandValue::Soft(17));
    assert_eq!(game.state, GameState::GameOver);
    assert_eq!(game.player_hand_outcomes(), vec![HandOutcome::Won(WinReason::HigherHand)]);

    rules.dealer_stands_on_all_17 = false;
    let mut game = open_round(&draws, rules);
    game.next_state(Some(PlayerAction::Stand));
    game.next_state(None);
    assert_eq!(game.state, GameState::DealerTurn);
    game.next_state(None);
    assert_eq!(game.dealer_hand_value(&game.dealer_hand), HandValue::Soft(19));
    assert_eq!(game.dealer_hand.len(), 3);
}

#[test]
fn a_dealer_bust_wins_the_hand() {
    let draws = [
        FaceValue::Ten,
        FaceValue::Six,
        FaceValue::Two,
        FaceValue::Ten,
        FaceValue::King,
    ];
    let mut game = open_round(&draws, default_rules());
    game.next_state(Some(PlayerAction::Stand));
    game.next_state(None);
    game.next_state(None);
    assert_eq!(game.state, GameState::GameOver);
    assert_eq!(game.player_hand_outcomes(), vec![HandOutcome::Won(WinReason::DealerBust)]);
}

#[test]
fn equal_totals_push_and_lower_totals_lose() {
    let draws = [FaceValue::Ten, FaceValue::Ten, FaceValue::Eight, FaceValue::Eight];
    let mut game = open_round(&draws, default_rules());
    game.next_state(Some(PlayerAction::Stand));
    game.next_state(None);
    assert_eq!(game.state, GameState::GameOver);
    assert_eq!(game.player_hand_outcomes(), vec![HandOutcome::Push]);

    let draws = [FaceValue::Ten, FaceValue::Ten, FaceValue::Seven, FaceValue::Eight];
    let mut game = open_round(&draws, default_rules());
    game.next_state(Some(PlayerAction::Stand));
    game.next_state(None);
    assert_eq!(game.player_hand_outcomes(), vec![HandOutcome::Lost(LossReason::LowerHand)]);
}

#[test]
fn each_split_hand_is_settled_on_its_own() {
    let draws = [
        FaceValue::Eight,
        FaceValue::Ten,
        FaceValue::Eight,
        FaceValue::Eight,
        FaceValue::King,
        FaceValue::Two,
    ];
    let mut game = open_round(&draws, default_rules());
    game.next_state(Some(PlayerAction::Split));
    game.next_state(None);
    game.next_state(Some(PlayerAction::Stand));
    game.next_state(None);
    game.next_state(Some(PlayerAction::Stand));
    assert_eq!(game.state, GameState::DealerTurn);
    game.next_state(None);
    assert_eq!(game.state, GameState::GameOver);
    assert_eq!(
        game.player_hand_outcomes(),
        vec![HandOutcome::Push, HandOutcome::Lost(LossReason::LowerHand)]
    );
}

#[test]
fn no_step_leads_out_of_a_finished_round() {
    let draws = [FaceValue::Ten, FaceValue::Nine, FaceValue::Six, FaceValue::Seven];
    let mut game = open_round(&draws, default_rules());
    game.next_state(Some(PlayerAction::Surrender));
    let before = game.clone();
    assert!(!game.can_step(None));
    assert_eq!(game.try_next_state(None), Err(EngineError::InvalidPhase));
    assert_eq!(game.try_next_state(Some(PlayerAction::Hit)), Err(EngineError::InvalidPhase));
    assert_eq!(game.state, before.state);
    assert_eq!(game.player_hands, before.player_hands);
    assert_eq!(game.dealer_hand, before.dealer_hand);
}

#[test]
fn an_action_that_is_not_allowed_is_refused() {
    let draws = [FaceValue::Ten, FaceValue::Nine, FaceValue::Six, FaceValue::Seven, FaceValue::Two];
    let mut game = open_round(&draws, default_rules());
    assert!(!game.is_allowed(PlayerAction::Split));
    assert!(game.is_allowed(PlayerAction::Hit));
    assert!(!game.can_step(Some(PlayerAction::Split)));
    assert_eq!(game.try_next_state(Some(PlayerAction::Split)), Err(EngineError::IllegalAction));
    assert_eq!(game.try_next_state(None), Err(EngineError::IllegalAction));
    assert_eq!(game.state, GameState::PlayerTurn);
    assert_eq!(game.player_hands.len(), 1);
    assert_eq!(game.try_next_state(Some(PlayerAction::Hit)), Ok(()));
    assert_eq!(ranks(&game.player_hands[0]), vec![FaceValue::Ten, FaceValue::Six, FaceValue::Two]);
}

#[test]
fn drawing_from_an_empty_shoe_is_refused() {
    let mut game = round_dealing(&[], default_rules());
    assert!(game.is_well_formed());
    assert!(!game.can_step(None));
    assert_eq!(game.try_next_state(None), Err(EngineError::UnreachableState));

    let draws = [FaceValue::Ten, FaceValue::Nine, FaceValue::Six, FaceValue::Seven];
    let mut game = open_round(&draws, default_rules());
    assert_eq!(game.try_next_state(Some(PlayerAction::Hit)), Err(EngineError::UnreachableState));
    assert_eq!(game.try_next_state(Some(PlayerAction::Stand)), Ok(()));
    // Turning the hole card needs no card from the shoe.
    assert_eq!(game.try_next_state(None), Ok(()));
    assert_eq!(game.state, GameState::DealerTurn);
    assert_eq!(game.try_next_state(None), Err(EngineError::UnreachableState));
}

#[test]
fn an_ill_formed_round_is_refused() {
    let draws = [FaceValue::Ten, FaceValue::Nine, FaceValue::Six, FaceValue::Seven];
    let mut game = open_round(&draws, default_rules());
    game.bets.push(10);
    assert!(!game.is_well_formed());
    assert_eq!(game.try_next_state(Some(PlayerAction::Stand)), Err(EngineError::UnreachableState));

    let mut game = open_round(&draws, default_rules());
    game.hand_index = 1;
    assert!(!game.is_well_formed());

    let mut game = open_round(&draws, default_rules());
    game.state = GameState::Dealing;
    assert!(!game.is_well_formed());
    assert_eq!(game.try_next_state(None), Err(EngineError::UnreachableState));

    let mut game = open_round(&draws, default_rules());
    game.player_hands[0].push(hearts(FaceValue::King));
    // A bust hand cannot be in play in the player's turn.
    assert!(!game.is_well_formed());
}

#[test]
fn stakes_of_any_size_are_played() {
    let draws = [
        FaceValue::Five,
        FaceValue::Nine,
        FaceValue::Six,
        FaceValue::Seven,
        FaceValue::Two,
    ];
    let mut game = open_round(&draws, default_rules());
    game.bets[0] = 15;
    assert!(game.is_well_formed());
    assert!(!game.stakes_in_order());
    assert_eq!(game.try_next_state(Some(PlayerAction::DoubleDown)), Ok(()));
    assert_eq!(game.bets, vec![30]);
}

#[test]
fn a_stake_too_large_to_double_is_refused() {
    let draws = [
        FaceValue::Five,
        FaceValue::Nine,
        FaceValue::Six,
        FaceValue::Seven,
        FaceValue::Two,
    ];
    let mut game = open_round(&draws, default_rules());
    game.bets[0] = u64::MAX / 2 + 1;
    assert!(game.is_well_formed());
    assert!(!game.can_step(Some(PlayerAction::DoubleDown)));
    assert_eq!(
        game.try_next_state(Some(PlayerAction::DoubleDown)),
        Err(EngineError::UnreachableState)
    );
    assert_eq!(game.bets, vec![u64::MAX / 2 + 1]);
    game.bets[0] = u64::MAX / 2;
    assert_eq!(game.try_next_state(Some(PlayerAction::DoubleDown)), Ok(()));
    assert_eq!(game.bets, vec![u64::MAX - 1]);
}

#[test]
fn the_next_split_hand_is_the_first_later_hand_with_one_card() {
    let mut game = round_dealing(&[], default_rules());
    game.player_hands = vec![
        vec![hearts(FaceValue::Eight), hearts(FaceValue::Two)],
        vec![hearts(FaceValue::Eight), hearts(FaceValue::Three)],
        vec![hearts(FaceValue::Eight)],
        vec![hearts(FaceValue::Eight)],
    ];
    game.hand_index = 0;
    assert_eq!(game.next_split_hand_index(), 2);
    game.hand_index = 2;
    assert_eq!(game.next_split_hand_index(), 3);
    game.hand_index = 3;
    assert_eq!(game.next_split_hand_index(), 3);
    game.player_hands[2].push(hearts(FaceValue::Nine));
    game.player_hands[3].push(hearts(FaceValue::Nine));
    game.hand_index = 0;
    assert_eq!(game.next_split_hand_index(), 0);
}

#[test]
fn a_copy_of_a_round_is_equal_in_every_field() {
    let draws = [
        FaceValue::Eight,
        FaceValue::Nine,
        FaceValue::Eight,
        FaceValue::Seven,
        FaceValue::Two,
    ];
    let mut game = open_round(&draws, default_rules());
    game.next_state(Some(PlayerAction::Split));
    let copy = game.clone();
    assert_eq!(copy.starting_bet, game.starting_bet);
    assert_eq!(copy.shoe, game.shoe);
    assert_eq!(copy.dealer_hand, game.dealer_hand);
    assert_eq!(copy.player_hands, game.player_hands);
    assert_eq!(copy.hand_index, game.hand_index);
    assert_eq!(copy.bets, game.bets);
    assert_eq!(copy.rules, game.rules);
    assert_eq!(copy.state, game.state);
}
