//! The persisted record of one hand at a table.
use vstd::prelude::*;
use crate::card::Card;

verus! {

/// The flop: three community cards, their unlock secret, and when they were revealed.
#[derive(Clone, Debug, PartialEq, Eq)]
pub struct Flop {
    pub cards: Vec<Card>,
    pub secret: u64,
    pub retrieved_at: Option<u64>,
}

/// The turn: one community card, its unlock secret, and when it was revealed.
#[derive(Clone, Debug, PartialEq, Eq)]
pub struct Turn {
    pub card: Card,
    pub secret: u64,
    pub retrieved_at: Option<u64>,
}

/// The river: one community card, its unlock secret, and when it was revealed.
#[derive(Clone, Debug, PartialEq, Eq)]
pub struct River {
    pub card: Card,
    pub secret: u64,
    pub retrieved_at: Option<u64>,
}

#[derive(Clone, Debug, PartialEq, Eq)]
pub struct CommunityCards {
    pub flop: Flop,
    pub turn: Turn,
    pub river: River,
}

/// A seated player: identity, hole cards, the secret that unlocks the hand, and one
/// share of each community-card secret.
#[derive(Clone, Debug, PartialEq, Eq)]
pub struct Player {
    pub username: String,
    pub player_id: u128,
    pub public_key: String,
    pub hand: Vec<Card>,
    pub hand_secret: u64,
    pub flop_secret_share: u64,
    pub turn_secret_share: u64,
    pub river_secret_share: u64,
}

/// One hand at a table. Timestamps are nanoseconds; each one is written at most once.
#[derive(Clone, Debug, PartialEq, Eq)]
pub struct PokerTable {
    pub hand_ref: u32,
    pub players: Vec<Player>,
    pub community_cards: CommunityCards,
    pub showdown_retrieved_at: Option<u64>,
}

/// Every card of the player's hand is valid.
pub open spec fn hand_is_valid(p: Player) -> bool {
    forall|k: int| 0 <= k < p.hand@.len() ==> (#[trigger] p.hand@[k]).is_valid()
}

impl PokerTable {
    /// Every card on the table, in the hands and among the community cards, is valid.
    pub open spec fn cards_valid(&self) -> bool {
        &&& forall|i: int| 0 <= i < self.players@.len() ==> hand_is_valid(#[trigger] self.players@[i])
        &&& forall|k: int|
            0 <= k < self.community_cards.flop.cards@.len()
                ==> (#[trigger] self.community_cards.flop.cards@[k]).is_valid()
        &&& self.community_cards.turn.card.is_valid()
        &&& self.community_cards.river.card.is_valid()
    }

    /// Whether every card on the table is valid.
    pub fn has_valid_cards(&self) -> (r: bool)
        ensures
            r == self.cards_valid(),
    {
        let mut i: usize = 0;
        while i < self.players.len()
            invariant
                i <= self.players@.len(),
                forall|m: int| 0 <= m < i ==> hand_is_valid(#[trigger] self.players@[m]),
            decreases self.players@.len() - i,
        {
            if !cards_are_valid(&self.players[i].hand) {
                return false;
            }
            i = i + 1;
        }
        cards_are_valid(&self.community_cards.flop.cards) && card_is_valid(
            self.community_cards.turn.card,
        ) && card_is_valid(self.community_cards.river.card)
    }
}

fn card_is_valid(c: Card) -> (r: bool)
    ensures
        r == c.is_valid(),
{
    let suit = c.suit();
    let rank = c.rank();
    suit < 4 && 1 <= rank && rank <= 13
}

fn cards_are_valid(cards: &Vec<Card>) -> (r: bool)
    ensures
        r == forall|k: int| 0 <= k < cards@.len() ==> (#[trigger] cards@[k]).is_valid(),
{
    let mut k: usize = 0;
    while k < cards.len()
        invariant
            k <= cards@.len(),
            forall|m: int| 0 <= m < k ==> (#[trigger] cards@[m]).is_valid(),
        decreases cards@.len() - k,
    {
        if !card_is_valid(cards[k]) {
            return false;
        }
        k = k + 1;
    }
    true
}

} // verus!
