//! Deals cards for a multi-player poker hand from public, deterministic randomness,
//! keeping hole cards and unrevealed community cards secret until a one-time reveal.

pub mod bytes;
pub mod card;
pub mod error;
pub mod game;
pub mod msg;
pub mod query;
pub mod random;
pub mod shuffle;
pub mod state;

pub use card::{Card, Deck, GameState};
pub use error::ContractError;
pub use game::{
    check_operator, collect_cards, handle_community_cards, handle_showdown, handle_start_game, load_table_or_error,
    StartGameOutcome,
};
pub use msg::{
    CommunityCardsResponse, InstantiateMsg, LastHandLogResponse, PlayerDataResponse,
    QueryWithPermit, ResponsePayload, ShowdownPlayer, ShowdownResponse, StartGamePlayer,
    StartGameResponse,
};
pub use query::{query_community_cards, query_player_private_data, query_showdown};
pub use random::{additive_secret_sharing, generate_random_number, init_counter};
pub use shuffle::shuffle_deck;
pub use state::{CommunityCards, Flop, Player, PokerTable, River, Turn};
