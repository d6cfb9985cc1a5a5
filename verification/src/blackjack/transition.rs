//! The transition function: one atomic step of a round.

use vstd::prelude::*;
use crate::blackjack::card::{Card, FaceValue};
use crate::blackjack::hand::{
    bust, hand_value, is_bust, lemma_low_sum_bound, lemma_low_sum_push, low_sum, HandValue,
};
use crate::blackjack::legality::lemma_first_undealt;
use crate::blackjack::table::{
    all_dealt, all_fit, BlackjackState, GameState, PlayerAction, Table,
};

verus! {

impl Table {
    /// The table after the top card of the shoe went to the hand in play.
    pub open spec fn give_player(self) -> Table {
        Table {
            shoe: self.shoe.drop_last(),
            player_hands: self.player_hands.update(
                self.hand_index as int,
                self.active_hand().push(self.shoe.last()),
            ),
            ..self
        }
    }

    /// The table after the top card of the shoe went to the dealer, as it
    /// lies in the shoe or, for the hole card, face down.
    pub open spec fn give_dealer(self, hole: bool) -> Table {
        let card = if hole {
            Card { face_down: true, ..self.shoe.last() }
        } else {
            self.shoe.last()
        };
        Table { shoe: self.shoe.drop_last(), dealer_hand: self.dealer_hand.push(card), ..self }
    }

    /// The table after the dealer's hole card was turned face up.
    pub open spec fn reveal_hole(self) -> Table {
        Table {
            dealer_hand: self.dealer_hand.update(
                1,
                Card { face_down: false, ..self.dealer_hand[1] },
            ),
            ..self
        }
    }

    /// The dealer stands on a hard total of 17 or more, on a natural, and on
    /// a soft total of 17 or more where the house has the dealer stand on
    /// all 17s.
    pub open spec fn dealer_should_stand(self) -> bool {
        match self.dealer_value() {
            HandValue::Soft(n) => n >= 17 && self.rules.dealer_stands_on_all_17,
            HandValue::Hard(n) => n >= 17,
            HandValue::Blackjack => true,
        }
    }

    /// The player's first hand counts 21 or is a natural.
    pub open spec fn player_has_21(self) -> bool {
        let value = self.player_value(0);
        value == HandValue::Blackjack || value.total() == 21
    }

    /// One step of the opening deal. The cards go out alternately, the
    /// player first; the dealer's second card is the hole card. Once it is
    /// dealt, a dealer who peeks and finds a natural turns the hole card and
    /// ends the round; else play passes to the dealer where the player
    /// already has 21, and to the player otherwise.
    pub open spec fn opening_step(self) -> Table {
        if self.dealer_hand.len() == self.player_hands[0].len() {
            self.give_player()
        } else if self.dealer_hand.len() == 0 {
            self.give_dealer(false)
        } else {
            let dealt = self.give_dealer(true);
            let shown = dealt.reveal_hole();
            if self.rules.dealer_peeks && shown.dealer_value() == HandValue::Blackjack {
                Table { state: GameState::GameOver, ..shown }
            } else if dealt.player_has_21() {
                Table { state: GameState::DealerTurn, ..dealt }
            } else {
                Table { state: GameState::PlayerTurn, ..dealt }
            }
        }
    }

    /// Where play goes once the hand in play has changed: to the next hand
    /// that waits for a card if this one is finished and such a hand is
    /// left, to the dealer if it is finished and none is left, and else
    /// back to the player.
    pub open spec fn resume(self) -> Table {
        let finished = self.player_hand_finished();
        let next = if finished {
            self.next_split_hand_index()
        } else {
            self.hand_index
        };
        let state = if next != self.hand_index {
            GameState::Dealing
        } else if finished {
            GameState::DealerTurn
        } else {
            GameState::PlayerTurn
        };
        Table { hand_index: next, state, ..self }
    }

    /// After a split: the hand in play gets its second card, and play
    /// resumes.
    pub open spec fn split_deal_step(self) -> Table {
        self.give_player().resume()
    }

    /// Hit: the hand in play gets a card. The round is over where every hand
    /// is bust now; else play resumes.
    pub open spec fn hit(self) -> Table {
        let dealt = self.give_player();
        if dealt.all_bust() {
            Table { state: GameState::GameOver, ..dealt.resume() }
        } else {
            dealt.resume()
        }
    }

    /// Stand: play moves to the next hand that waits for a card, or to the
    /// dealer where none is left.
    pub open spec fn stand(self) -> Table {
        let next = self.next_split_hand_index();
        if next != self.hand_index {
            Table { hand_index: next, state: GameState::Dealing, ..self }
        } else {
            Table { state: GameState::DealerTurn, ..self }
        }
    }

    /// Double down: the stake on the hand in play is doubled, the hand gets
    /// one card and is then closed as by a stand. The round is over where
    /// every hand is bust now.
    pub open spec fn double_down(self) -> Table {
        let raised = Table {
            bets: self.bets.update(self.hand_index as int, 2 * self.bets[self.hand_index as int]),
            ..self
        };
        let dealt = raised.give_player();
        if dealt.all_bust() {
            Table { state: GameState::GameOver, ..dealt.stand() }
        } else {
            dealt.stand()
        }
    }

    /// Split: the second card of the hand in play opens a new last hand
    /// with a stake of the starting bet, and the round returns to dealing.
    pub open spec fn split(self) -> Table {
        let hand = self.active_hand();
        Table {
            bets: self.bets.push(self.starting_bet),
            player_hands: self.player_hands.update(self.hand_index as int, hand.drop_last()).push(
                seq![hand.last()],
            ),
            state: GameState::Dealing,
            ..self
        }
    }

    /// Surrender ends the round at once.
    pub open spec fn surrender(self) -> Table {
        Table { state: GameState::GameOver, ..self }
    }

    /// One step of the dealer's turn. A dealer who should stand ends the
    /// round. Any other dealer first turns the hole card and from then on
    /// draws; after either, the round is over where every player hand is a
    /// natural or the dealer should now stand.
    pub open spec fn dealer_step(self) -> Table {
        if self.dealer_should_stand() {
            Table { state: GameState::GameOver, ..self }
        } else {
            let acted = if self.dealer_hand[1].face_down {
                self.reveal_hole()
            } else {
                self.give_dealer(false)
            };
            if acted.all_blackjack() || acted.dealer_should_stand() {
                Table { state: GameState::GameOver, ..acted }
            } else {
                Table { state: GameState::DealerTurn, ..acted }
            }
        }
    }

    /// The table after one step. The action counts in the player's turn
    /// only.
    pub open spec fn step(self, action: Option<PlayerAction>) -> Table {
        match self.state {
            GameState::Dealing => if self.opening() {
                self.opening_step()
            } else {
                self.split_deal_step()
            },
            GameState::PlayerTurn => match action {
                Some(PlayerAction::Hit) => self.hit(),
                Some(PlayerAction::Stand) => self.stand(),
                Some(PlayerAction::DoubleDown) => self.double_down(),
                Some(PlayerAction::Split) => self.split(),
                Some(PlayerAction::Surrender) => self.surrender(),
                None => self,
            },
            GameState::DealerTurn => self.dealer_step(),
            GameState::GameOver => self,
        }
    }

    /// Whether the step takes a card from the shoe.
    pub open spec fn draws(self, action: Option<PlayerAction>) -> bool {
        match self.state {
            GameState::Dealing => true,
            GameState::PlayerTurn => action == Some(PlayerAction::Hit) || action == Some(
                PlayerAction::DoubleDown,
            ),
            GameState::DealerTurn => !self.dealer_should_stand() && !self.dealer_hand[1].face_down,
            GameState::GameOver => false,
        }
    }

    /// Whether the step doubles a stake.
    pub open spec fn doubles(self, action: Option<PlayerAction>) -> bool {
        self.state == GameState::PlayerTurn && action == Some(PlayerAction::DoubleDown)
    }

    /// Whether a step is defined: the round is not over, in the player's
    /// turn an allowed action is given, the shoe holds a card where the step
    /// draws one, and the doubled stake fits 64 bits where it doubles one.
    pub open spec fn can_step(self, action: Option<PlayerAction>) -> bool {
        &&& self.state != GameState::GameOver
        &&& (self.state == GameState::PlayerTurn ==> action.is_some() && self.is_allowed(
            action.unwrap(),
        ))
        &&& (self.draws(action) ==> self.shoe.len() > 0)
        &&& (self.doubles(action) ==> 2 * self.bets[self.hand_index as int] <= u64::MAX)
    }
}

/// A card for the hand in play: the cards stay in order, stakes that were
/// in order stay so, no hand gets shorter, and a hand that held a card keeps
/// its first.
proof fn lemma_give_player(t: Table)
    requires
        t.cards_ok(),
        low_sum(t.active_hand()) <= 21,
    ensures
        t.give_player().cards_ok(),
        t.stakes_ok() ==> t.give_player().stakes_ok(),
        all_dealt(t.player_hands) ==> all_dealt(t.give_player().player_hands),
        forall|i: int|
            0 <= i < t.player_hands.len() ==> (#[trigger] t.give_player().player_hands[i]).len()
                >= t.player_hands[i].len(),
        t.active_hand().len() >= 1 || t.player_hands.len() == 1 ==> t.give_player().split_aces()
            == t.split_aces(),
        low_sum(t.give_player().active_hand()) <= 31,
{
    let d = t.give_player();
    lemma_low_sum_push(t.active_hand(), t.shoe.last());
    if t.active_hand().len() >= 1 && d.split_aces() {
        assert forall|i: int| 0 <= i < t.player_hands.len() implies {
            let hand = #[trigger] t.player_hands[i];
            hand.len() > 0 && hand[0].face_value == FaceValue::Ace
        } by {
            assert(d.player_hands[i].len() > 0);
        }
    }
}

/// Once the opening deal is complete, sending play on gives a well-formed
/// round.
proof fn lemma_resume(t: Table)
    requires
        t.cards_ok(),
        t.seated(),
    ensures
        t.resume().wf(),
{
    lemma_first_undealt(t.player_hands, t.hand_index as int + 1);
}

/// Standing once the opening deal is complete gives a well-formed round,
/// in which the dealer or the next split hand is up.
proof fn lemma_stand(t: Table)
    requires
        t.cards_ok(),
        t.seated(),
    ensures
        t.stand().wf(),
        t.stand().state == GameState::Dealing || t.stand().state == GameState::DealerTurn,
{
    lemma_first_undealt(t.player_hands, t.hand_index as int + 1);
}

/// Hitting keeps a round well formed.
proof fn lemma_hit(t: Table)
    requires
        t.wf(),
        t.state == GameState::PlayerTurn,
    ensures
        t.hit().wf(),
{
    lemma_give_player(t);
    lemma_resume(t.give_player());
}

/// Doubling down keeps a round well formed.
proof fn lemma_double_down(t: Table)
    requires
        t.wf(),
        t.state == GameState::PlayerTurn,
    ensures
        t.double_down().wf(),
{
    let idx = t.hand_index as int;
    let raised = Table { bets: t.bets.update(idx, 2 * t.bets[idx]), ..t };
    lemma_give_player(raised);
    lemma_stand(raised.give_player());
}

/// Splitting keeps a round well formed: both hands hold one card and wait
/// for their second.
proof fn lemma_split(t: Table)
    requires
        t.wf(),
        t.state == GameState::PlayerTurn,
        t.can_split(),
    ensures
        t.split().wf(),
{
    let s = t.split();
    assert forall|i: int| 0 <= i < s.player_hands.len() implies {
        let hand = #[trigger] s.player_hands[i];
        low_sum(hand) <= u8::MAX && hand.len() >= 1
    } by {
        if i >= t.player_hands.len() {
            lemma_low_sum_bound(s.player_hands[i]);
        }
    }
}

/// A step of the opening deal keeps a round well formed.
proof fn lemma_opening_step(t: Table)
    requires
        t.wf(),
        t.state == GameState::Dealing,
        t.opening(),
    ensures
        t.opening_step().wf(),
        t.dealer_hand.len() == 1 ==> low_sum(t.give_dealer(true).reveal_hole().dealer_hand)
            <= u8::MAX,
{
    let card = t.shoe.last();
    lemma_low_sum_bound(t.player_hands[0]);
    lemma_low_sum_bound(t.dealer_hand);
    lemma_low_sum_bound(t.give_dealer(true).reveal_hole().dealer_hand);
    lemma_low_sum_push(t.dealer_hand, card);
    lemma_low_sum_push(t.dealer_hand, Card { face_down: true, ..card });
    if t.dealer_hand.len() == t.player_hands[0].len() {
        lemma_give_player(t);
    }
}

/// The card for a split hand keeps a round well formed.
proof fn lemma_split_deal_step(t: Table)
    requires
        t.wf(),
        t.state == GameState::Dealing,
        !t.opening(),
    ensures
        t.split_deal_step().wf(),
{
    lemma_low_sum_bound(t.active_hand());
    lemma_give_player(t);
    lemma_resume(t.give_player());
}

/// A step of the dealer keeps a round well formed: a dealer who acts holds
/// less than 17, and the hole card is turned while only two cards are held.
proof fn lemma_dealer_step(t: Table)
    requires
        t.wf(),
        t.state == GameState::DealerTurn,
    ensures
        t.dealer_step().wf(),
        !t.dealer_should_stand() && t.dealer_hand[1].face_down ==> low_sum(
            t.reveal_hole().dealer_hand,
        ) <= u8::MAX,
        !t.dealer_should_stand() ==> low_sum(t.give_dealer(false).dealer_hand) <= u8::MAX,
{
    if !t.dealer_should_stand() {
        lemma_low_sum_push(t.dealer_hand, t.shoe.last());
        if t.dealer_hand[1].face_down {
            lemma_low_sum_bound(t.reveal_hole().dealer_hand);
        }
    }
}

impl Table {
    /// Every step keeps a round well formed.
    pub proof fn lemma_step_wf(self, action: Option<PlayerAction>)
        requires
            self.wf(),
            self.can_step(action),
        ensures
            self.step(action).wf(),
    {
        match self.state {
            GameState::Dealing => {
                if self.opening() {
                    lemma_opening_step(self);
                } else {
                    lemma_split_deal_step(self);
                }
            },
            GameState::PlayerTurn => {
                match action.unwrap() {
                    PlayerAction::Hit => lemma_hit(self),
                    PlayerAction::Stand => lemma_stand(self),
                    PlayerAction::DoubleDown => lemma_double_down(self),
                    PlayerAction::Split => lemma_split(self),
                    PlayerAction::Surrender => {},
                }
            },
            GameState::DealerTurn => lemma_dealer_step(self),
            GameState::GameOver => {},
        }
    }

    /// Every step keeps the stakes as play leaves them: a card dealt makes
    /// no hand shorter, a split adds a single stake for a hand of one card,
    /// and a double down doubles a single stake on a hand that then holds
    /// three cards.
    pub proof fn lemma_step_stakes(self, action: Option<PlayerAction>)
        requires
            self.wf(),
            self.can_step(action),
            self.stakes_ok(),
        ensures
            self.step(action).stakes_ok(),
    {
        let idx = self.hand_index as int;
        lemma_low_sum_bound(self.active_hand());
        if self.doubles(action) {
            lemma_give_player(Table { bets: self.bets.update(idx, 2 * self.bets[idx]), ..self });
        } else if self.draws(action) && self.state != GameState::DealerTurn {
            lemma_low_sum_bound(self.player_hands[0]);
            lemma_give_player(self);
        }
    }

    /// While the stakes are as play leaves them, the stake on a two-card
    /// hand is single, and its double fits 64 bits.
    pub proof fn lemma_stake_doubles(self)
        requires
            self.cards_ok(),
            self.stakes_ok(),
            self.active_hand().len() == 2,
        ensures
            self.bets[self.hand_index as int] == self.starting_bet,
            2 * self.bets[self.hand_index as int] <= u64::MAX,
    {
    }

    /// Each deal shortens the shoe by its top card, and nothing else ever
    /// touches the shoe; the rules and the starting bet stay as they are.
    pub proof fn lemma_step_shoe(self, action: Option<PlayerAction>)
        requires
            self.wf(),
            self.can_step(action),
        ensures
            self.step(action).shoe == if self.draws(action) {
                self.shoe.drop_last()
            } else {
                self.shoe
            },
            self.draws(action) ==> self.step(action).shoe.len() == self.shoe.len() - 1,
            self.step(action).rules == self.rules,
            self.step(action).starting_bet == self.starting_bet,
    {
    }
}

impl BlackjackState {
    /// Moves the top card of the shoe to the hand in play.
    fn draw_to_player(&mut self)
        requires
            old(self).shoe.len() > 0,
            old(self).hand_index < old(self).player_hands.len(),
        ensures
            final(self)@ == old(self)@.give_player(),
    {
        let card = self.shoe.pop().unwrap();
        self.player_hands[self.hand_index].push(card);
    }

    /// Moves the top card of the shoe to the dealer, face down where it is
    /// the hole card.
    fn draw_to_dealer(&mut self, hole: bool)
        requires
            old(self).shoe.len() > 0,
        ensures
            final(self)@ == old(self)@.give_dealer(hole),
    {
        let card = self.shoe.pop().unwrap();
        if hole {
            self.dealer_hand.push(Card { face_down: true, ..card });
        } else {
            self.dealer_hand.push(card);
        }
    }

    /// Turns the dealer's hole card face up or down.
    fn turn_hole_card(&mut self, face_down: bool)
        requires
            old(self).dealer_hand.len() >= 2,
        ensures
            final(self)@ == (Table {
                dealer_hand: old(self)@.dealer_hand.update(
                    1,
                    Card { face_down, ..old(self)@.dealer_hand[1] },
                ),
                ..old(self)@
            }),
    {
        self.dealer_hand[1].face_down = face_down;
    }

    /// Sets the phase and the hand in play.
    fn move_to(&mut self, hand_index: usize, state: GameState)
        ensures
            final(self)@ == (Table { hand_index: hand_index as nat, state, ..old(self)@ }),
    {
        self.hand_index = hand_index;
        self.state = state;
    }

    /// Whether every player hand is bust.
    fn all_hands_bust(&self) -> (b: bool)
        ensures
            b == self@.all_bust(),
    {
        let mut i: usize = 0;
        while i < self.player_hands.len()
            invariant
                i <= self.player_hands.len(),
                forall|k: int| 0 <= k < i ==> is_bust(#[trigger] self@.player_hands[k]),
            decreases self.player_hands.len() - i,
        {
            assert(self@.player_hands[i as int] == self.player_hands@[i as int]@);
            if !bust(&self.player_hands[i]) {
                return false;
            }
            i = i + 1;
        }
        true
    }

    /// Whether every player hand is a natural.
    fn all_hands_blackjack(&self) -> (b: bool)
        requires
            all_fit(self@.player_hands),
        ensures
            b == self@.all_blackjack(),
    {
        let split_aces = self.player_split_aces();
        let mut i: usize = 0;
        while i < self.player_hands.len()
            invariant
                i <= self.player_hands.len(),
                all_fit(self@.player_hands),
                split_aces == self@.split_aces(),
                forall|k: int|
                    0 <= k < i ==> hand_value(
                        #[trigger] self@.player_hands[k],
                        self.rules,
                        split_aces,
                    ) == HandValue::Blackjack,
            decreases self.player_hands.len() - i,
        {
            assert(self@.player_hands[i as int] == self.player_hands@[i as int]@);
            let value = self.player_hand_value(&self.player_hands[i], split_aces);
            if value != HandValue::Blackjack {
                return false;
            }
            i = i + 1;
        }
        true
    }

    /// Whether the dealer should stand; see [`Table::dealer_should_stand`].
    pub fn dealer_should_stand(&self) -> (b: bool)
        requires
            low_sum(self@.dealer_hand) <= u8::MAX,
        ensures
            b == self@.dealer_should_stand(),
    {
        match self.dealer_hand_value(&self.dealer_hand) {
            HandValue::Soft(n) => n >= 17 && self.rules.dealer_stands_on_all_17,
            HandValue::Hard(n) => n >= 17,
            HandValue::Blackjack => true,
        }
    }

    /// Sends play on after the hand in play has changed.
    fn resume_play(&mut self)
        requires
            old(self)@.cards_ok(),
        ensures
            final(self)@ == old(self)@.resume(),
    {
        let player_hand_finished = self.player_hand_finished();
        let hand_index = if player_hand_finished {
            self.next_split_hand_index()
        } else {
            self.hand_index
        };
        let switching_to_split_hand = hand_index != self.hand_index;
        let state = if switching_to_split_hand {
            GameState::Dealing
        } else if player_hand_finished {
            GameState::DealerTurn
        } else {
            GameState::PlayerTurn
        };
        self.move_to(hand_index, state);
    }

    /// Stands on the hand in play.
    fn play_stand(&mut self)
        requires
            old(self).hand_index < old(self).player_hands.len(),
        ensures
            final(self)@ == old(self)@.stand(),
    {
        let hand_index = self.next_split_hand_index();
        let switching_to_split_hand = hand_index != self.hand_index;
        if switching_to_split_hand {
            self.move_to(hand_index, GameState::Dealing);
        } else {
            self.move_to(hand_index, GameState::DealerTurn);
        }
    }

    /// Ends the round where every hand is bust.
    fn end_if_all_bust(&mut self, all_bust: bool)
        ensures
            final(self)@ == if all_bust {
                Table { state: GameState::GameOver, ..old(self)@ }
            } else {
                old(self)@
            },
    {
        if all_bust {
            self.move_to(self.hand_index, GameState::GameOver);
        }
    }

    /// One step of the opening deal; see [`Table::opening_step`].
    fn deal_opening(&mut self)
        requires
            old(self)@.wf(),
            old(self)@.state == GameState::Dealing,
            old(self)@.opening(),
            old(self).shoe.len() > 0,
        ensures
            final(self)@ == old(self)@.opening_step(),
    {
        proof {
            lemma_opening_step(self@);
        }
        match (self.dealer_hand.len(), self.player_hands[0].len()) {
            (0, 0) | (1, 1) => {
                // deal a card to the player
                self.draw_to_player();
            },
            (0, 1) => {
                // deal the upcard to the dealer
                self.draw_to_dealer(false);
            },
            _ => {
                // deal the hole card to the dealer, face down
                self.draw_to_dealer(true);
                let natural = if self.rules.dealer_peeks {
                    self.turn_hole_card(false);
                    let found = self.dealer_hand_value(&self.dealer_hand) == HandValue::Blackjack;
                    if !found {
                        self.turn_hole_card(true);
                    }
                    found
                } else {
                    false
                };
                if natural {
                    self.move_to(self.hand_index, GameState::GameOver);
                } else {
                    proof {
                        lemma_low_sum_bound(self@.player_hands[0]);
                    }
                    let twenty_one = match self.player_hand_value(&self.player_hands[0], false) {
                        HandValue::Hard(n) => n == 21,
                        HandValue::Soft(n) => n == 21,
                        HandValue::Blackjack => true,
                    };
                    if twenty_one {
                        self.move_to(self.hand_index, GameState::DealerTurn);
                    } else {
                        self.move_to(self.hand_index, GameState::PlayerTurn);
                    }
                }
            },
        }
    }

    /// One step of the dealer's turn; see [`Table::dealer_step`].
    fn play_dealer(&mut self)
        requires
            old(self)@.wf(),
            old(self)@.state == GameState::DealerTurn,
            old(self)@.draws(None) ==> old(self).shoe.len() > 0,
        ensures
            final(self)@ == old(self)@.dealer_step(),
    {
        proof {
            lemma_dealer_step(self@);
        }
        if self.dealer_should_stand() {
            self.move_to(self.hand_index, GameState::GameOver);
        } else {
            // dealer hits
            if self.dealer_hand[1].face_down {
                self.turn_hole_card(false);
            } else {
                self.draw_to_dealer(false);
            }
            let all_blackjacks = self.all_hands_blackjack();
            if all_blackjacks {
                // the dealer is up against naturals only: no need to play out the hand
                self.move_to(self.hand_index, GameState::GameOver);
            } else if self.dealer_should_stand() {
                self.move_to(self.hand_index, GameState::GameOver);
            } else {
                self.move_to(self.hand_index, GameState::DealerTurn);
            }
        }
    }

    /// Advances the round by one step.
    ///
    /// While dealing, one card goes out. In the player's turn, `player_action`
    /// is carried out on the hand in play; it must be one of the allowed
    /// actions. In the dealer's turn, the dealer stands, turns the hole card
    /// or draws. In the other phases `player_action` is not looked at. No
    /// step leads out of a round that is over, and a step that draws needs a
    /// card in the shoe: see [`Table::can_step`]. The round stays well
    /// formed.
    pub fn next_state(&mut self, player_action: Option<PlayerAction>)
        requires
            old(self)@.wf(),
            old(self)@.can_step(player_action),
        ensures
            final(self)@ == old(self)@.step(player_action),
            final(self)@.wf(),
    {
        proof {
            self@.lemma_step_wf(player_action);
        }
        match self.state {
            GameState::Dealing => {
                if self.player_hands.len() == 1 && self.dealer_hand.len() < 2 {
                    self.deal_opening();
                } else {
                    // the player just split: deal one card to the hand in play
                    proof {
                        lemma_low_sum_bound(self@.active_hand());
                        lemma_give_player(self@);
                    }
                    self.draw_to_player();
                    self.resume_play();
                }
            },
            GameState::PlayerTurn => {
                match player_action {
                    Some(PlayerAction::Hit) => {
                        proof {
                            lemma_give_player(self@);
                        }
                        self.draw_to_player();
                        let all_bust = self.all_hands_bust();
                        self.resume_play();
                        self.end_if_all_bust(all_bust);
                    },
                    Some(PlayerAction::Stand) => {
                        self.play_stand();
                    },
                    Some(PlayerAction::DoubleDown) => {
                        let stake = self.bets[self.hand_index];
                        self.bets[self.hand_index] = 2 * stake;
                        proof {
                            lemma_give_player(self@);
                        }
                        self.draw_to_player();
                        let all_bust = self.all_hands_bust();
                        self.play_stand();
                        self.end_if_all_bust(all_bust);
                    },
                    Some(PlayerAction::Split) => {
                        self.bets.push(self.starting_bet as u64);
                        let card2 = self.player_hands[self.hand_index].pop().unwrap();
                        let mut new_hand: Vec<Card> = Vec::with_capacity(8);
                        new_hand.push(card2);
                        self.player_hands.push(new_hand);
                        self.state = GameState::Dealing;
                    },
                    Some(PlayerAction::Surrender) => {
                        self.move_to(self.hand_index, GameState::GameOver);
                    },
                    None => {},
                }
            },
            GameState::DealerTurn => self.play_dealer(),
            GameState::GameOver => {},
        }
    }
}

} // verus!
