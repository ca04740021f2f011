//! Messages and responses of the dealing engine.
use vstd::prelude::*;
use vstd::string::*;
use crate::card::{Card, GameState};

verus! {

#[derive(Clone, Debug, PartialEq, Eq)]
pub struct InstantiateMsg {}

/// A player as the operator seats them at the start of a hand.
#[derive(Clone, Debug, PartialEq, Eq)]
pub struct StartGamePlayer {
    pub username: String,
    pub player_id: u128,
    pub public_key: String,
}

/// Queries that need the caller's proven public key.
#[derive(Clone, Debug, PartialEq, Eq)]
pub enum QueryWithPermit {
    PlayerPrivateData { table_id: u32 },
}

/// A player's private data. The 64-bit values are decimal strings.
#[derive(Clone, Debug, PartialEq, Eq)]
pub struct PlayerDataResponse {
    pub table_id: u32,
    pub hand_ref: u32,
    pub hand: Vec<Card>,
    pub hand_secret: String,
    pub flop_secret_share: String,
    pub turn_secret_share: String,
    pub river_secret_share: String,
}

/// The public payloads that the operations emit.
#[derive(Clone, Debug, PartialEq, Eq)]
pub enum ResponsePayload {
    StartGame(StartGameResponse),
    LastHand(LastHandLogResponse),
    CommunityCards(CommunityCardsResponse),
    Showdown(ShowdownResponse),
}

#[derive(Clone, Debug, PartialEq, Eq)]
pub struct StartGameResponse {
    pub table_id: u32,
    pub hand_ref: u32,
    pub players: Vec<String>,
}

#[derive(Clone, Debug, PartialEq, Eq)]
pub struct CommunityCardsResponse {
    pub table_id: u32,
    pub hand_ref: u32,
    pub game_state: GameState,
    pub community_cards: Vec<Card>,
}

#[derive(Clone, Debug, PartialEq, Eq)]
pub struct ShowdownResponse {
    pub table_id: u32,
    pub hand_ref: u32,
    pub players_cards: Vec<(u128, Vec<Card>)>,
    pub community_cards: Option<Vec<Card>>,
}

/// A player who showed their hand, with the cards rendered as text.
#[derive(Clone, Debug, PartialEq, Eq)]
pub struct ShowdownPlayer {
    pub username: String,
    pub hand: Vec<String>,
}

/// The audit record of a finished hand.
#[derive(Clone, Debug, PartialEq, Eq)]
pub struct LastHandLogResponse {
    pub showdown_players: Vec<ShowdownPlayer>,
    pub community_cards: Vec<String>,
    pub flop_retrieved_at: Option<u64>,
    pub turn_retrieved_at: Option<u64>,
    pub river_retrieved_at: Option<u64>,
    pub showdown_retrieved_at: Option<u64>,
}

/// The decimal digit characters.
pub open spec fn decimal_digits() -> Seq<char> {
    seq!['0', '1', '2', '3', '4', '5', '6', '7', '8', '9']
}

/// The decimal form of `n`, without leading zeros.
pub open spec fn decimal(n: nat) -> Seq<char>
    decreases n,
{
    if n < 10 {
        seq![decimal_digits()[n as int]]
    } else {
        decimal(n / 10).push(decimal_digits()[(n % 10) as int])
    }
}

fn digit_str(d: u64) -> (r: &'static str)
    requires
        d < 10,
    ensures
        r@ == seq![decimal_digits()[d as int]],
{
    proof {
        reveal_strlit("0");
        reveal_strlit("1");
        reveal_strlit("2");
        reveal_strlit("3");
        reveal_strlit("4");
        reveal_strlit("5");
        reveal_strlit("6");
        reveal_strlit("7");
        reveal_strlit("8");
        reveal_strlit("9");
    }
    if d == 0 {
        "0"
    } else if d == 1 {
        "1"
    } else if d == 2 {
        "2"
    } else if d == 3 {
        "3"
    } else if d == 4 {
        "4"
    } else if d == 5 {
        "5"
    } else if d == 6 {
        "6"
    } else if d == 7 {
        "7"
    } else if d == 8 {
        "8"
    } else {
        "9"
    }
}

/// The decimal form of `n`.
pub fn decimal_string(n: u64) -> (r: String)
    ensures
        r@ == decimal(n as nat),
    decreases n,
{
    if n < 10 {
        String::from_str(digit_str(n))
    } else {
        let mut s = decimal_string(n / 10);
        let d = digit_str(n % 10);
        s.append(d);
        assert(s@ =~= decimal(n as nat));
        s
    }
}

} // verus!
