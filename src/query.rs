//! Read-only disclosure of cards and secrets: to a player by their public key, and to
//! anyone who holds the right secrets.
use vstd::prelude::*;
use vstd::string::*;
use crate::card::{Card, GameState};
use crate::error::ContractError;
use crate::game::{cards_view, is_dealt_table, lemma_dealt_table_shape, phase_cards, players_check};
use crate::msg::StartGamePlayer;
use crate::msg::{decimal, decimal_string, CommunityCardsResponse, PlayerDataResponse, ShowdownResponse};
use crate::state::{Player, PokerTable};

verus! {

/// `r` failed with a passthrough error carrying message `msg`.
pub open spec fn fails_with<T>(r: Result<T, ContractError>, msg: Seq<char>) -> bool {
    r matches Err(ContractError::Std(m)) && m@ == msg
}

/// `j` is the first position of `ps` whose player has public key `key`.
pub open spec fn is_first_with_key(ps: Seq<Player>, key: Seq<char>, j: int) -> bool {
    &&& 0 <= j < ps.len()
    &&& ps[j].public_key@ == key
    &&& forall|m: int| 0 <= m < j ==> (#[trigger] ps[m]).public_key@ != key
}

/// Some player of `ps` has public key `key`.
pub open spec fn has_key(ps: Seq<Player>, key: Seq<char>) -> bool {
    exists|j: int| 0 <= j < ps.len() && (#[trigger] ps[j]).public_key@ == key
}

fn failure(msg: &str) -> (e: ContractError)
    ensures
        e matches ContractError::Std(m) && m@ == msg@,
{
    ContractError::Std(String::from_str(msg))
}

/// The private data of the player with public key `pub_key`, the caller having proven
/// that key: hole cards, and the hand secret and the three shares as decimal strings.
#[verifier::loop_isolation(false)]
pub fn query_player_private_data(table: Option<PokerTable>, table_id: u32, pub_key: &String) -> (r: Result<PlayerDataResponse, ContractError>)
    ensures
        match table {
            None => fails_with(r, "No table found"@),
            Some(t) => if !has_key(t.players@, pub_key@) {
                fails_with(r, "No player found"@)
            } else {
                r matches Ok(d) && exists|j: int|
                    is_first_with_key(t.players@, pub_key@, j) && {
                        let p = t.players@[j];
                        &&& d.table_id == table_id
                        &&& d.hand_ref == t.hand_ref
                        &&& d.hand@ == p.hand@
                        &&& d.hand_secret@ == decimal(p.hand_secret as nat)
                        &&& d.flop_secret_share@ == decimal(p.flop_secret_share as nat)
                        &&& d.turn_secret_share@ == decimal(p.turn_secret_share as nat)
                        &&& d.river_secret_share@ == decimal(p.river_secret_share as nat)
                    }
            },
        },
{
    let table = match table {
        Some(t) => t,
        None => {
            return Err(failure("No table found"));
        },
    };
    let mut j: usize = 0;
    while j < table.players.len()
        invariant
            j <= table.players@.len(),
            forall|m: int| 0 <= m < j ==> (#[trigger] table.players@[m]).public_key@ != pub_key@,
        decreases table.players@.len() - j,
    {
        if table.players[j].public_key == *pub_key {
            let player = &table.players[j];
            let hand = player.hand.clone();
            assert(hand@ =~= player.hand@);
            let data = PlayerDataResponse {
                table_id,
                hand_ref: table.hand_ref,
                hand,
                hand_secret: decimal_string(player.hand_secret),
                flop_secret_share: decimal_string(player.flop_secret_share),
                turn_secret_share: decimal_string(player.turn_secret_share),
                river_secret_share: decimal_string(player.river_secret_share),
            };
            assert(is_first_with_key(table.players@, pub_key@, j as int));
            return Ok(data);
        }
        j = j + 1;
    }
    Err(failure("No player found"))
}

/// The unlock secret of a community phase.
pub open spec fn phase_key(t: PokerTable, phase: GameState) -> u64 {
    match phase {
        GameState::Flop => t.community_cards.flop.secret,
        GameState::Turn => t.community_cards.turn.secret,
        GameState::River => t.community_cards.river.secret,
        GameState::PreFlop => 0,
    }
}

/// The cards of a community phase, to whoever presents its secret (as reconstructed
/// from the players' shares); no reveal is recorded.
pub fn query_community_cards(table: Option<PokerTable>, table_id: u32, game_state: GameState, secret_key: u64) -> (r: Result<CommunityCardsResponse, ContractError>)
    ensures
        match table {
            None => fails_with(r, "No table found"@),
            Some(t) => if game_state == GameState::PreFlop {
                fails_with(r, "Invalid game state"@)
            } else if phase_key(t, game_state) != secret_key {
                fails_with(r, "Invalid viewing key"@)
            } else {
                r matches Ok(resp) && resp.table_id == table_id && resp.hand_ref == t.hand_ref
                    && resp.game_state == game_state && resp.community_cards@ == phase_cards(
                    t,
                    game_state,
                )
            },
        },
{
    let table = match table {
        Some(t) => t,
        None => {
            return Err(failure("No table found"));
        },
    };
    let (stored_key, cards) = match game_state {
        GameState::Flop => {
            let cards = table.community_cards.flop.cards.clone();
            assert(cards@ =~= table.community_cards.flop.cards@);
            (table.community_cards.flop.secret, cards)
        },
        GameState::Turn => {
            let mut cards: Vec<Card> = Vec::new();
            cards.push(table.community_cards.turn.card);
            assert(cards@ =~= seq![table.community_cards.turn.card]);
            (table.community_cards.turn.secret, cards)
        },
        GameState::River => {
            let mut cards: Vec<Card> = Vec::new();
            cards.push(table.community_cards.river.card);
            assert(cards@ =~= seq![table.community_cards.river.card]);
            (table.community_cards.river.secret, cards)
        },
        GameState::PreFlop => {
            return Err(failure("Invalid game state"));
        },
    };
    if stored_key != secret_key {
        return Err(failure("Invalid viewing key"));
    }
    Ok(CommunityCardsResponse { table_id, hand_ref: table.hand_ref, game_state, community_cards: cards })
}

/// Each phase secret that is given matches the table's.
pub open spec fn phase_keys_match(
    t: PokerTable,
    flop_secret: Option<u64>,
    turn_secret: Option<u64>,
    river_secret: Option<u64>,
) -> bool {
    &&& flop_secret matches Some(s) ==> s == t.community_cards.flop.secret
    &&& turn_secret matches Some(s) ==> s == t.community_cards.turn.secret
    &&& river_secret matches Some(s) ==> s == t.community_cards.river.secret
}

/// The community cards unlocked by the given phase secrets, flop first.
pub open spec fn unlocked_cards(
    t: PokerTable,
    flop_secret: Option<u64>,
    turn_secret: Option<u64>,
    river_secret: Option<u64>,
) -> Seq<Card> {
    let cc = t.community_cards;
    let f = if flop_secret is Some {
        cc.flop.cards@
    } else {
        Seq::empty()
    };
    let tu = if turn_secret is Some {
        seq![cc.turn.card]
    } else {
        Seq::empty()
    };
    let ri = if river_secret is Some {
        seq![cc.river.card]
    } else {
        Seq::empty()
    };
    f + tu + ri
}

/// `j` is the first position of `ps` whose player has hand secret `secret`.
pub open spec fn is_first_with_secret(ps: Seq<Player>, secret: u64, j: int) -> bool {
    &&& 0 <= j < ps.len()
    &&& ps[j].hand_secret == secret
    &&& forall|m: int| 0 <= m < j ==> (#[trigger] ps[m]).hand_secret != secret
}

/// Some player of `ps` has hand secret `secret`.
pub open spec fn has_secret(ps: Seq<Player>, secret: u64) -> bool {
    exists|j: int| 0 <= j < ps.len() && (#[trigger] ps[j]).hand_secret == secret
}

/// The first player with the given hand secret, if any.
fn find_player_by_secret(players: &Vec<Player>, secret: u64) -> (r: Option<usize>)
    ensures
        r matches Some(j) ==> is_first_with_secret(players@, secret, j as int),
        r is None ==> !has_secret(players@, secret),
{
    let mut j: usize = 0;
    while j < players.len()
        invariant
            j <= players@.len(),
            forall|m: int| 0 <= m < j ==> (#[trigger] players@[m]).hand_secret != secret,
        decreases players@.len() - j,
    {
        if players[j].hand_secret == secret {
            return Some(j);
        }
        j = j + 1;
    }
    None
}

/// `entry` is the id and hand of the first player of `ps` with hand secret `secret`.
pub open spec fn unlocks_hand(entry: (u128, Vec<Card>), ps: Seq<Player>, secret: u64) -> bool {
    exists|j: int|
        is_first_with_secret(ps, secret, j) && entry.0 == ps[j].player_id && entry.1@ == ps[j].hand@
}

/// The showdown as whoever holds the secrets can see it: the community cards of each
/// phase whose secret is given, and the hand of each player whose hand secret is given.
#[verifier::loop_isolation(false)]
pub fn query_showdown(
    table: Option<PokerTable>,
    table_id: u32,
    flop_secret: Option<u64>,
    turn_secret: Option<u64>,
    river_secret: Option<u64>,
    players_secrets: &Vec<u64>,
) -> (r: Result<ShowdownResponse, ContractError>)
    ensures
        match table {
            None => fails_with(r, "No table found"@),
            Some(t) => if !phase_keys_match(t, flop_secret, turn_secret, river_secret) {
                fails_with(r, "Invalid secret key"@)
            } else if exists|k: int|
                0 <= k < players_secrets@.len() && !has_secret(
                    t.players@,
                    #[trigger] players_secrets@[k],
                ) {
                fails_with(r, "Player not found"@)
            } else {
                r matches Ok(resp) && resp.table_id == table_id && resp.hand_ref == t.hand_ref
                    && cards_view(resp.community_cards) == Some(
                    unlocked_cards(t, flop_secret, turn_secret, river_secret),
                ) && resp.players_cards@.len() == players_secrets@.len() && forall|k: int|
                    0 <= k < players_secrets@.len() ==> unlocks_hand(
                        #[trigger] resp.players_cards@[k],
                        t.players@,
                        players_secrets@[k],
                    )
            },
        },
{
    let table = match table {
        Some(t) => t,
        None => {
            return Err(failure("No table found"));
        },
    };
    let ghost t = table;
    let cc = &table.community_cards;
    let mut community_cards: Vec<Card> = Vec::new();
    if let Some(secret) = flop_secret {
        if cc.flop.secret != secret {
            return Err(failure("Invalid secret key"));
        }
        community_cards = cc.flop.cards.clone();
        assert(community_cards@ =~= cc.flop.cards@);
    }
    if let Some(secret) = turn_secret {
        if cc.turn.secret != secret {
            return Err(failure("Invalid secret key"));
        }
        community_cards.push(cc.turn.card);
    }
    if let Some(secret) = river_secret {
        if cc.river.secret != secret {
            return Err(failure("Invalid secret key"));
        }
        community_cards.push(cc.river.card);
    }
    assert(community_cards@ =~= unlocked_cards(t, flop_secret, turn_secret, river_secret));
    let mut players_cards: Vec<(u128, Vec<Card>)> = Vec::new();
    let mut k: usize = 0;
    while k < players_secrets.len()
        invariant
            table == t,
            k <= players_secrets@.len(),
            players_cards@.len() == k,
            forall|m: int| 0 <= m < k ==> has_secret(t.players@, #[trigger] players_secrets@[m]),
            forall|m: int|
                0 <= m < k ==> unlocks_hand(#[trigger] players_cards@[m], t.players@, players_secrets@[m]),
        decreases players_secrets@.len() - k,
    {
        match find_player_by_secret(&table.players, players_secrets[k]) {
            Some(j) => {
                let hand = table.players[j].hand.clone();
                assert(hand@ =~= t.players@[j as int].hand@);
                players_cards.push((table.players[j].player_id, hand));
                assert(unlocks_hand(players_cards@[k as int], t.players@, players_secrets@[k as int]));
            },
            None => {
                return Err(failure("Player not found"));
            },
        }
        k = k + 1;
    }
    Ok(ShowdownResponse {
        table_id,
        hand_ref: table.hand_ref,
        players_cards,
        community_cards: Some(community_cards),
    })
}

/// In a dealt hand, each player's own public key finds that player, who holds two cards:
/// the private query by that key returns exactly their hand and shares.
pub proof fn lemma_dealt_player_found_by_key(
    t: PokerTable,
    entropy: Seq<u8>,
    counter: u128,
    hand_ref: u32,
    infos: Seq<StartGamePlayer>,
)
    requires
        is_dealt_table(t, entropy, counter, hand_ref, infos),
        players_check(infos) is Ok,
    ensures
        forall|i: int|
            0 <= i < infos.len() ==> is_first_with_key(t.players@, (#[trigger] infos[i]).public_key@, i)
                && t.players@[i].hand@.len() == 2,
{
    lemma_dealt_table_shape(t, entropy, counter, hand_ref, infos);
    assert forall|i: int| 0 <= i < infos.len() implies is_first_with_key(
        t.players@,
        (#[trigger] infos[i]).public_key@,
        i,
    ) && t.players@[i].hand@.len() == 2 by {
        assert(crate::game::is_dealt_player(t.players@[i], infos[i], entropy, counter, infos.len(), i));
        assert forall|m: int| 0 <= m < i implies (#[trigger] t.players@[m]).public_key@ != infos[i].public_key@ by {
            assert(crate::game::is_dealt_player(t.players@[m], infos[m], entropy, counter, infos.len(), m));
        }
    }
}

} // verus!
