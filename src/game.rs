//! The hand lifecycle: dealing a hand, one-time reveals, showdown, and the queries
//! that disclose cards to holders of the right secrets.
use vstd::prelude::*;
use vstd::string::*;
use crate::card::{canonical_deck, card_text, Card, Deck, GameState};
use crate::error::{uuid_string, uuid_text, ContractError};
use crate::msg::{
    CommunityCardsResponse, LastHandLogResponse, ShowdownPlayer, ShowdownResponse, StartGamePlayer,
    StartGameResponse,
};
use crate::random::{
    additive_secret_sharing, derived_value, generate_random_number, lemma_shares_reconstruct,
    random_shares, shares_of, wrapping_sum,
};
use crate::state::{hand_is_valid, CommunityCards, Flop, Player, PokerTable, River, Turn};
use crate::shuffle::{lemma_shuffle_is_permutation, shuffle_deck, shuffled};

verus! {

pub const MIN_PLAYERS: usize = 2;

pub const MAX_PLAYERS: usize = 9;

pub const COMMUNITY_CARD_PHASES: usize = 3;

/// Only the configured operator may start hands, reveal cards or hold a showdown.
pub fn check_operator(sender: &String, owner: &String) -> (r: Result<(), ContractError>)
    ensures
        r == if sender@ == owner@ {
            Ok(())
        } else {
            Err(ContractError::Unauthorized {  })
        },
{
    if *sender == *owner {
        Ok(())
    } else {
        Err(ContractError::Unauthorized {  })
    }
}

/// No two players share a public key.
pub open spec fn keys_distinct(ps: Seq<StartGamePlayer>) -> bool {
    forall|i: int, j: int|
        0 <= i < j < ps.len() ==> (#[trigger] ps[i]).public_key@ != (#[trigger] ps[j]).public_key@
}

/// The outcome of checking the seated players: a count from 2 to 9, then distinct keys.
pub open spec fn players_check(ps: Seq<StartGamePlayer>) -> Result<(), ContractError> {
    if ps.len() < 2 || ps.len() > 9 {
        Err(ContractError::InvalidPlayerCount { count: ps.len() as usize })
    } else if !keys_distinct(ps) {
        Err(ContractError::DuplicatePublicKeys {  })
    } else {
        Ok(())
    }
}

/// The first `count` cards dealt from the end of `s`, in dealing order.
pub open spec fn dealt_from(s: Seq<Card>, count: int) -> Seq<Card> {
    Seq::new(count as nat, |k: int| s[s.len() - 1 - k])
}

/// The deck of a hand started at counter value `counter`: the canonical deck shuffled
/// with the first derived value.
pub open spec fn dealt_deck(entropy: Seq<u8>, counter: u128) -> Seq<Card> {
    shuffled(canonical_deck(), derived_value(entropy, counter))
}

fn validate_players(players_info: &[StartGamePlayer]) -> (r: Result<(), ContractError>)
    ensures
        r == players_check(players_info@),
{
    let n = players_info.len();
    if n < MIN_PLAYERS || n > MAX_PLAYERS {
        return Err(ContractError::InvalidPlayerCount { count: n });
    }
    let mut i: usize = 0;
    while i < n
        invariant
            n == players_info@.len(),
            2 <= n <= 9,
            i <= n,
            forall|a: int, b: int|
                0 <= a < b < n && a < i ==> (#[trigger] players_info@[a]).public_key@
                    != (#[trigger] players_info@[b]).public_key@,
        decreases n - i,
    {
        let mut j: usize = i + 1;
        while j < n
            invariant
                n == players_info@.len(),
                2 <= n <= 9,
                i < n,
                i + 1 <= j <= n,
                forall|b: int| i < b < j ==> players_info@[i as int].public_key@
                    != (#[trigger] players_info@[b]).public_key@,
            decreases n - j,
        {
            if players_info[i].public_key == players_info[j].public_key {
                proof {
                    let a = players_info@[i as int];
                    let b = players_info@[j as int];
                    assert(a.public_key@ == b.public_key@);
                    assert(!keys_distinct(players_info@));
                }
                return Err(ContractError::DuplicatePublicKeys {  });
            }
            j = j + 1;
        }
        i = i + 1;
    }
    Ok(())
}

/// Deals `count` cards from the end of the deck.
pub fn collect_cards(deck: &mut Deck, count: usize) -> (r: Vec<Card>)
    requires
        count <= old(deck).cards@.len(),
    ensures
        r@ == dealt_from(old(deck).cards@, count as int),
        final(deck).cards@ == old(deck).cards@.subrange(0, old(deck).cards@.len() - count),
{
    let mut r: Vec<Card> = Vec::new();
    let mut k: usize = 0;
    while k < count
        invariant
            k <= count <= old(deck).cards@.len(),
            r@ == dealt_from(old(deck).cards@, k as int),
            deck.cards@ == old(deck).cards@.subrange(0, old(deck).cards@.len() - k),
        decreases count - k,
    {
        let c = deck.cards.pop().unwrap();
        proof {
            assert(r@.push(c) =~= dealt_from(old(deck).cards@, k + 1));
        }
        r.push(c);
        k = k + 1;
    }
    r
}

fn initialize_deck(entropy: &[u8], counter: &mut u128) -> (d: Deck)
    requires
        *old(counter) < u128::MAX,
    ensures
        d.cards@ == dealt_deck(entropy@, *old(counter)),
        *final(counter) == *old(counter) + 1,
{
    let mut deck = Deck::new();
    let seed = generate_random_number(entropy, counter);
    shuffle_deck(&mut deck, seed);
    deck
}

/// Deals two cards to each player in turn, from the end of the deck.
fn distribute_player_cards(deck: &mut Deck, players: &[StartGamePlayer]) -> (r: Vec<(String, Vec<Card>)>)
    requires
        2 * players@.len() <= old(deck).cards@.len(),
    ensures
        r@.len() == players@.len(),
        forall|i: int|
            0 <= i < players@.len() ==> (#[trigger] r@[i]).0 == players@[i].public_key
                && r@[i].1@ == dealt_from(old(deck).cards@, 2 * i + 2).subrange(2 * i, 2 * i + 2),
        final(deck).cards@ == old(deck).cards@.subrange(
            0,
            old(deck).cards@.len() - 2 * players@.len(),
        ),
{
    let ghost d0 = old(deck).cards@;
    let mut r: Vec<(String, Vec<Card>)> = Vec::new();
    let mut i: usize = 0;
    while i < players.len()
        invariant
            2 * players@.len() <= d0.len(),
            d0 == old(deck).cards@,
            i <= players@.len(),
            r@.len() == i,
            forall|m: int|
                0 <= m < i ==> (#[trigger] r@[m]).0 == players@[m].public_key
                    && r@[m].1@ == dealt_from(d0, 2 * m + 2).subrange(2 * m, 2 * m + 2),
            deck.cards@ == d0.subrange(0, d0.len() - 2 * i),
        decreases players@.len() - i,
    {
        let first = deck.cards.pop().unwrap();
        let second = deck.cards.pop().unwrap();
        let mut cards: Vec<Card> = Vec::new();
        cards.push(first);
        cards.push(second);
        proof {
            assert(cards@ =~= dealt_from(d0, 2 * i + 2).subrange(2 * i, 2 * i + 2));
            assert(deck.cards@ =~= d0.subrange(0, d0.len() - 2 * (i + 1)));
        }
        r.push((players[i].public_key.clone(), cards));
        i = i + 1;
    }
    r
}

/// The secret of community phase `p` (0 flop, 1 turn, 2 river) for `n` players, when
/// the phases draw from counter value `c` on.
pub open spec fn phase_secret(entropy: Seq<u8>, c: u128, n: nat, p: int) -> u64 {
    derived_value(entropy, (c + p * n) as u128)
}

/// The players' shares of the secret of community phase `p`.
pub open spec fn phase_shares(entropy: Seq<u8>, c: u128, n: nat, p: int) -> Seq<u64> {
    shares_of(entropy, (c + p * n + 1) as u128, n, phase_secret(entropy, c, n, p))
}

/// Draws the three phase secrets and their shares, then deals three cards for the flop,
/// one for the turn and one for the river.
fn generate_community_cards(
    entropy: &[u8],
    counter: &mut u128,
    secrets: &mut Vec<(u64, Vec<u64>)>,
    deck: &mut Deck,
    player_count: usize,
) -> (cc: CommunityCards)
    requires
        old(secrets)@.len() == 0,
        old(deck).cards@.len() >= 5,
        1 <= player_count,
        *old(counter) + 3 * player_count <= u128::MAX,
    ensures
        final(secrets)@.len() == 3,
        forall|p: int|
            0 <= p < 3 ==> (#[trigger] final(secrets)@[p]).0 == phase_secret(
                entropy@,
                *old(counter),
                player_count as nat,
                p,
            ) && final(secrets)@[p].1@ == phase_shares(entropy@, *old(counter), player_count as nat, p),
        *final(counter) == *old(counter) + 3 * player_count,
        cc.flop.cards@ == dealt_from(old(deck).cards@, 3),
        cc.turn.card == dealt_from(old(deck).cards@, 5)[3],
        cc.river.card == dealt_from(old(deck).cards@, 5)[4],
        cc.flop.secret == phase_secret(entropy@, *old(counter), player_count as nat, 0),
        cc.turn.secret == phase_secret(entropy@, *old(counter), player_count as nat, 1),
        cc.river.secret == phase_secret(entropy@, *old(counter), player_count as nat, 2),
        cc.flop.retrieved_at is None,
        cc.turn.retrieved_at is None,
        cc.river.retrieved_at is None,
        final(deck).cards@ == old(deck).cards@.subrange(0, old(deck).cards@.len() - 5),
{
    let ghost c0 = *old(counter);
    let ghost n = player_count as nat;
    let mut p: usize = 0;
    while p < COMMUNITY_CARD_PHASES
        invariant
            p <= 3,
            1 <= player_count,
            n == player_count,
            c0 + 3 * player_count <= u128::MAX,
            *counter == c0 + p * player_count,
            secrets@.len() == p,
            forall|q: int|
                0 <= q < p ==> (#[trigger] secrets@[q]).0 == phase_secret(entropy@, c0, n, q)
                    && secrets@[q].1@ == phase_shares(entropy@, c0, n, q),
        decreases 3 - p,
    {
        assert(*counter + player_count <= u128::MAX) by (nonlinear_arith)
            requires
                *counter == c0 + p * player_count,
                c0 + 3 * player_count <= u128::MAX,
                p < 3,
        ;
        let secret = generate_random_number(entropy, counter);
        let shares = additive_secret_sharing(entropy, player_count, secret, counter);
        assert((p + 1) * player_count == p * player_count + player_count) by (nonlinear_arith);
        secrets.push((secret, shares));
        p = p + 1;
    }
    let ghost d0 = deck.cards@;
    let flop_cards = collect_cards(deck, 3);
    let turn_card = deck.cards.pop().unwrap();
    let river_card = deck.cards.pop().unwrap();
    proof {
        assert(deck.cards@ =~= d0.subrange(0, d0.len() - 5));
    }
    CommunityCards {
        flop: Flop { cards: flop_cards, secret: secrets[0].0, retrieved_at: None },
        turn: Turn { card: turn_card, secret: secrets[1].0, retrieved_at: None },
        river: River { card: river_card, secret: secrets[2].0, retrieved_at: None },
    }
}

/// Seats the players: each gets their dealt cards, a freshly derived hand secret and
/// their share of each phase secret.
fn create_players(
    players_info: Vec<StartGamePlayer>,
    player_cards: Vec<(String, Vec<Card>)>,
    secrets: &Vec<(u64, Vec<u64>)>,
    entropy: &[u8],
    counter: &mut u128,
) -> (r: Vec<Player>)
    requires
        player_cards@.len() == players_info@.len(),
        secrets@.len() == 3,
        forall|p: int| 0 <= p < 3 ==> (#[trigger] secrets@[p]).1@.len() == players_info@.len(),
        *old(counter) + players_info@.len() <= u128::MAX,
    ensures
        r@.len() == players_info@.len(),
        forall|i: int|
            0 <= i < r@.len() ==> {
                let p = #[trigger] r@[i];
                let info = players_info@[i];
                &&& p.username == info.username
                &&& p.player_id == info.player_id
                &&& p.public_key == info.public_key
                &&& p.hand@ == player_cards@[i].1@
                &&& p.hand_secret == derived_value(entropy@, (*old(counter) + i) as u128)
                &&& p.flop_secret_share == secrets@[0].1@[i]
                &&& p.turn_secret_share == secrets@[1].1@[i]
                &&& p.river_secret_share == secrets@[2].1@[i]
            },
        *final(counter) == *old(counter) + players_info@.len(),
{
    let ghost c0 = *old(counter);
    let n = players_info.len();
    let mut r: Vec<Player> = Vec::with_capacity(n);
    let mut i: usize = 0;
    while i < n
        invariant
            n == players_info@.len(),
            player_cards@.len() == n,
            secrets@.len() == 3,
            forall|p: int| 0 <= p < 3 ==> (#[trigger] secrets@[p]).1@.len() == n,
            c0 + n <= u128::MAX,
            i <= n,
            *counter == c0 + i,
            r@.len() == i,
            forall|m: int|
                0 <= m < i ==> {
                    let p = #[trigger] r@[m];
                    let info = players_info@[m];
                    &&& p.username == info.username
                    &&& p.player_id == info.player_id
                    &&& p.public_key == info.public_key
                    &&& p.hand@ == player_cards@[m].1@
                    &&& p.hand_secret == derived_value(entropy@, (c0 + m) as u128)
                    &&& p.flop_secret_share == secrets@[0].1@[m]
                    &&& p.turn_secret_share == secrets@[1].1@[m]
                    &&& p.river_secret_share == secrets@[2].1@[m]
                },
        decreases n - i,
    {
        let hand = player_cards[i].1.clone();
        proof {
            assert(hand@ =~= player_cards@[i as int].1@);
        }
        let hand_secret = generate_random_number(entropy, counter);
        let player = Player {
            username: players_info[i].username.clone(),
            player_id: players_info[i].player_id,
            public_key: players_info[i].public_key.clone(),
            hand,
            hand_secret,
            flop_secret_share: secrets[0].1[i],
            turn_secret_share: secrets[1].1[i],
            river_secret_share: secrets[2].1[i],
        };
        r.push(player);
        i = i + 1;
    }
    r
}

/// Some player of `ps` has id `id`.
pub open spec fn has_player(ps: Seq<Player>, id: u128) -> bool {
    exists|j: int| 0 <= j < ps.len() && (#[trigger] ps[j]).player_id == id
}

/// `j` is the first position of `ps` whose player has id `id`.
pub open spec fn is_first_with_id(ps: Seq<Player>, id: u128, j: int) -> bool {
    &&& 0 <= j < ps.len()
    &&& ps[j].player_id == id
    &&& forall|m: int| 0 <= m < j ==> (#[trigger] ps[m]).player_id != id
}

/// Every id of `ids` belongs to some player of `ps`.
pub open spec fn all_found(ps: Seq<Player>, ids: Seq<u128>) -> bool {
    forall|k: int| 0 <= k < ids.len() ==> has_player(ps, #[trigger] ids[k])
}

/// `ids[k]` is the first id of `ids` that no player of `ps` has.
pub open spec fn is_first_missing(ps: Seq<Player>, ids: Seq<u128>, k: int) -> bool {
    &&& 0 <= k < ids.len()
    &&& !has_player(ps, ids[k])
    &&& forall|m: int| 0 <= m < k ==> has_player(ps, #[trigger] ids[m])
}

/// `texts` renders `cards`, one string per card.
pub open spec fn renders(texts: Seq<String>, cards: Seq<Card>) -> bool {
    &&& texts.len() == cards.len()
    &&& forall|k: int| 0 <= k < cards.len() ==> (#[trigger] texts[k])@ == card_text(cards[k])
}

/// The five community cards of a table: flop, turn, river.
pub open spec fn board(t: PokerTable) -> Seq<Card> {
    t.community_cards.flop.cards@.push(t.community_cards.turn.card).push(
        t.community_cards.river.card,
    )
}

/// `sp` is what the first player of `ps` with id `id` shows: their name and their
/// hand as text.
pub open spec fn shows(sp: ShowdownPlayer, ps: Seq<Player>, id: u128) -> bool {
    exists|j: int|
        is_first_with_id(ps, id, j) && sp.username == ps[j].username && renders(sp.hand@, ps[j].hand@)
}

/// `log` is the audit record of the outgoing hand `t` for the players `ids` who showed.
pub open spec fn is_hand_log(log: LastHandLogResponse, t: PokerTable, ids: Seq<u128>) -> bool {
    &&& log.showdown_players@.len() == ids.len()
    &&& forall|k: int|
        0 <= k < ids.len() ==> shows(#[trigger] log.showdown_players@[k], t.players@, ids[k])
    &&& renders(log.community_cards@, board(t))
    &&& log.flop_retrieved_at == t.community_cards.flop.retrieved_at
    &&& log.turn_retrieved_at == t.community_cards.turn.retrieved_at
    &&& log.river_retrieved_at == t.community_cards.river.retrieved_at
    &&& log.showdown_retrieved_at == t.showdown_retrieved_at
}

/// The first player with the given id, if any.
pub fn find_player_by_id(players: &Vec<Player>, id: u128) -> (r: Option<usize>)
    ensures
        r matches Some(j) ==> is_first_with_id(players@, id, j as int),
        r is None ==> !has_player(players@, id),
{
    let mut j: usize = 0;
    while j < players.len()
        invariant
            j <= players@.len(),
            forall|m: int| 0 <= m < j ==> (#[trigger] players@[m]).player_id != id,
        decreases players@.len() - j,
    {
        if players[j].player_id == id {
            return Some(j);
        }
        j = j + 1;
    }
    None
}

/// Renders each card as text.
fn cards_text(cards: &Vec<Card>) -> (r: Vec<String>)
    requires
        forall|k: int| 0 <= k < cards@.len() ==> (#[trigger] cards@[k]).is_valid(),
    ensures
        renders(r@, cards@),
{
    let mut r: Vec<String> = Vec::new();
    let mut k: usize = 0;
    while k < cards.len()
        invariant
            k <= cards@.len(),
            forall|m: int| 0 <= m < cards@.len() ==> (#[trigger] cards@[m]).is_valid(),
            r@.len() == k,
            forall|m: int| 0 <= m < k ==> (#[trigger] r@[m])@ == card_text(cards@[m]),
        decreases cards@.len() - k,
    {
        r.push(cards[k].to_string());
        k = k + 1;
    }
    r
}

/// The audit record of the outgoing hand, if a table is being replaced. Fails when a
/// player who showed is not at the outgoing table.
fn create_previous_hand_log(previous: &Option<PokerTable>, table_id: u32, showdown_player_ids: &Vec<u128>) -> (r: Result<Option<LastHandLogResponse>, ContractError>)
    requires
        previous matches Some(t) ==> t.cards_valid(),
    ensures
        match *previous {
            None => r == Ok::<Option<LastHandLogResponse>, ContractError>(None),
            Some(t) => if all_found(t.players@, showdown_player_ids@) {
                r matches Ok(Some(log)) && is_hand_log(log, t, showdown_player_ids@)
            } else {
                r matches Err(ContractError::PlayerNotFound { table_id: tid, player }) && tid
                    == table_id && exists|k: int|
                    is_first_missing(t.players@, showdown_player_ids@, k) && player@ == uuid_text(
                        showdown_player_ids@[k],
                    )
            },
        },
{
    match previous {
        None => Ok(None),
        Some(table) => {
            let mut showdown_players: Vec<ShowdownPlayer> = Vec::new();
            let mut k: usize = 0;
            while k < showdown_player_ids.len()
                invariant
                    *previous == Some(*table),
                    table.cards_valid(),
                    k <= showdown_player_ids@.len(),
                    showdown_players@.len() == k,
                    forall|m: int| 0 <= m < k ==> has_player(table.players@, #[trigger] showdown_player_ids@[m]),
                    forall|m: int|
                        0 <= m < k ==> shows(#[trigger] showdown_players@[m], table.players@, showdown_player_ids@[m]),
                decreases showdown_player_ids@.len() - k,
            {
                match find_player_by_id(&table.players, showdown_player_ids[k]) {
                    None => {
                        let player = uuid_string(showdown_player_ids[k]);
                        proof {
                            assert(is_first_missing(table.players@, showdown_player_ids@, k as int));
                            assert(!all_found(table.players@, showdown_player_ids@));
                            assert(*previous matches Some(t) && t == *table);
                            assert(player@ == uuid_text(showdown_player_ids@[k as int]));
                        }
                        return Err(ContractError::PlayerNotFound { table_id, player });
                    }
                    Some(j) => {
                        let player = &table.players[j];
                        proof {
                            assert(hand_is_valid(table.players@[j as int]));
                        }
                        let hand = cards_text(&player.hand);
                        showdown_players.push(ShowdownPlayer { username: player.username.clone(), hand });
                        proof {
                            assert(shows(showdown_players@[k as int], table.players@, showdown_player_ids@[k as int]));
                        }
                    }
                }
                k = k + 1;
            }
            let cc = &table.community_cards;
            let mut community_cards = cards_text(&cc.flop.cards);
            community_cards.push(cc.turn.card.to_string());
            community_cards.push(cc.river.card.to_string());
            proof {
                assert(renders(community_cards@, board(*table)));
            }
            Ok(Some(LastHandLogResponse {
                showdown_players,
                community_cards,
                flop_retrieved_at: cc.flop.retrieved_at,
                turn_retrieved_at: cc.turn.retrieved_at,
                river_retrieved_at: cc.river.retrieved_at,
                showdown_retrieved_at: table.showdown_retrieved_at,
            }))
        }
    }
}

/// The order in which the cards of a hand leave its deck: the last card first.
pub open spec fn deal_order(entropy: Seq<u8>, counter: u128) -> Seq<Card> {
    dealt_from(dealt_deck(entropy, counter), 52)
}

/// `p` is the `i`-th of `n` players seated from `info` in a hand started at counter
/// value `counter`: the shuffle seed comes first, then the three phase secrets with
/// their shares, then one hand secret per player.
pub open spec fn is_dealt_player(
    p: Player,
    info: StartGamePlayer,
    entropy: Seq<u8>,
    counter: u128,
    n: nat,
    i: int,
) -> bool {
    &&& p.username == info.username
    &&& p.player_id == info.player_id
    &&& p.public_key == info.public_key
    &&& p.hand@ == deal_order(entropy, counter).subrange(2 * i, 2 * i + 2)
    &&& p.hand_secret == derived_value(entropy, (counter + 1 + 3 * n + i) as u128)
    &&& p.flop_secret_share == phase_shares(entropy, (counter + 1) as u128, n, 0)[i]
    &&& p.turn_secret_share == phase_shares(entropy, (counter + 1) as u128, n, 1)[i]
    &&& p.river_secret_share == phase_shares(entropy, (counter + 1) as u128, n, 2)[i]
}

/// `t` is the table that a hand started at counter value `counter` deals to `infos`:
/// two cards to each player in turn, then three for the flop, one for the turn and one
/// for the river, nothing revealed yet.
pub open spec fn is_dealt_table(
    t: PokerTable,
    entropy: Seq<u8>,
    counter: u128,
    hand_ref: u32,
    infos: Seq<StartGamePlayer>,
) -> bool {
    let n = infos.len() as int;
    let order = deal_order(entropy, counter);
    let cc = t.community_cards;
    &&& t.hand_ref == hand_ref
    &&& t.players@.len() == n
    &&& forall|i: int|
        0 <= i < n ==> is_dealt_player(
            #[trigger] t.players@[i],
            infos[i],
            entropy,
            counter,
            n as nat,
            i,
        )
    &&& cc.flop.cards@ == order.subrange(2 * n, 2 * n + 3)
    &&& cc.turn.card == order[2 * n + 3]
    &&& cc.river.card == order[2 * n + 4]
    &&& cc.flop.secret == phase_secret(entropy, (counter + 1) as u128, n as nat, 0)
    &&& cc.turn.secret == phase_secret(entropy, (counter + 1) as u128, n as nat, 1)
    &&& cc.river.secret == phase_secret(entropy, (counter + 1) as u128, n as nat, 2)
    &&& cc.flop.retrieved_at is None
    &&& cc.turn.retrieved_at is None
    &&& cc.river.retrieved_at is None
    &&& t.showdown_retrieved_at is None
}

/// The usernames of `ps`, in order.
pub open spec fn usernames(ps: Seq<Player>) -> Seq<String> {
    ps.map_values(|p: Player| p.username)
}

/// What a successful start of a hand produces: the new table, the public response,
/// and the audit record of the hand it replaces, if any.
#[derive(Clone, Debug, PartialEq, Eq)]
pub struct StartGameOutcome {
    pub table: PokerTable,
    pub response: StartGameResponse,
    pub previous_hand_log: Option<LastHandLogResponse>,
}

/// The public response to a start of a hand: the table, the hand and the usernames.
fn create_start_game_response(table_id: u32, hand_ref: u32, players: &Vec<Player>) -> (r: StartGameResponse)
    ensures
        r.table_id == table_id,
        r.hand_ref == hand_ref,
        r.players@ == usernames(players@),
{
    let mut names: Vec<String> = Vec::new();
    let mut i: usize = 0;
    while i < players.len()
        invariant
            i <= players@.len(),
            names@ == usernames(players@).subrange(0, i as int),
        decreases players@.len() - i,
    {
        proof {
            assert(names@.push(players@[i as int].username) =~= usernames(players@).subrange(0, i + 1));
        }
        names.push(players[i].username.clone());
        i = i + 1;
    }
    assert(names@ =~= usernames(players@));
    StartGameResponse { table_id, hand_ref, players: names }
}

/// Starts a hand at a table, from the table now stored there (if any), the entropy of
/// this operation and the counter. Checks the players, records the outgoing hand,
/// shuffles a fresh deck, deals, and draws every secret and share. The counter moves
/// only on success; the caller stores the new table and the counter together.
pub fn handle_start_game(
    previous: Option<PokerTable>,
    entropy: &[u8],
    counter: &mut u128,
    table_id: u32,
    hand_ref: u32,
    players_info: Vec<StartGamePlayer>,
    prev_hand_showdown_players: Vec<u128>,
) -> (r: Result<StartGameOutcome, ContractError>)
    requires
        *old(counter) + 4 * MAX_PLAYERS + 1 <= u128::MAX,
        previous matches Some(t) ==> t.cards_valid(),
    ensures
        r is Err ==> *final(counter) == *old(counter),
        players_check(players_info@) matches Err(e) ==> r == Err::<StartGameOutcome, ContractError>(e),
        players_check(players_info@) is Ok ==> match previous {
            Some(t) => if all_found(t.players@, prev_hand_showdown_players@) {
                r matches Ok(out) && out.previous_hand_log matches Some(log) && is_hand_log(
                    log,
                    t,
                    prev_hand_showdown_players@,
                )
            } else {
                r matches Err(ContractError::PlayerNotFound { table_id: tid, player }) && tid
                    == table_id && exists|k: int|
                    is_first_missing(t.players@, prev_hand_showdown_players@, k) && player@
                        == uuid_text(prev_hand_showdown_players@[k])
            },
            None => r matches Ok(out) && out.previous_hand_log is None,
        },
        r matches Ok(out) ==> {
            &&& is_dealt_table(out.table, entropy@, *old(counter), hand_ref, players_info@)
            &&& out.response.table_id == table_id
            &&& out.response.hand_ref == hand_ref
            &&& out.response.players@ == players_info@.map_values(|p: StartGamePlayer| p.username)
            &&& *final(counter) == *old(counter) + 4 * players_info@.len() + 1
        },
{
    match validate_players(players_info.as_slice()) {
        Ok(()) => {},
        Err(e) => {
            return Err(e);
        },
    }
    let previous_hand_log = match create_previous_hand_log(
        &previous,
        table_id,
        &prev_hand_showdown_players,
    ) {
        Ok(log) => log,
        Err(e) => {
            return Err(e);
        },
    };
    let ghost c0 = *counter;
    let n = players_info.len();
    let mut deck = initialize_deck(entropy, counter);
    proof {
        lemma_shuffle_is_permutation(canonical_deck(), derived_value(entropy@, c0));
    }
    let player_cards = distribute_player_cards(&mut deck, players_info.as_slice());
    let mut secrets: Vec<(u64, Vec<u64>)> = Vec::with_capacity(COMMUNITY_CARD_PHASES);
    let community_cards = generate_community_cards(entropy, counter, &mut secrets, &mut deck, n);
    let ghost info_seq = players_info@;
    let ghost cards_seq = player_cards@;
    let players = create_players(players_info, player_cards, &secrets, entropy, counter);
    let response = create_start_game_response(table_id, hand_ref, &players);
    let table = PokerTable { hand_ref, players, community_cards, showdown_retrieved_at: None };
    proof {
        let order = deal_order(entropy@, c0);
        assert forall|i: int| 0 <= i < n implies is_dealt_player(
            #[trigger] table.players@[i],
            info_seq[i],
            entropy@,
            c0,
            n as nat,
            i,
        ) by {
            assert(cards_seq[i].1@ =~= order.subrange(2 * i, 2 * i + 2));
        }
        assert(table.community_cards.flop.cards@ =~= order.subrange(2 * n, 2 * n + 3));
        assert(response.players@ =~= info_seq.map_values(|p: StartGamePlayer| p.username));
    }
    Ok(StartGameOutcome { table, response, previous_hand_log })
}

/// In a dealt hand every player holds two cards, the flop has three, and the players'
/// shares of each phase secret sum, modulo 2^64, to that secret.
pub proof fn lemma_dealt_table_shape(
    t: PokerTable,
    entropy: Seq<u8>,
    counter: u128,
    hand_ref: u32,
    infos: Seq<StartGamePlayer>,
)
    requires
        is_dealt_table(t, entropy, counter, hand_ref, infos),
        2 <= infos.len() <= 9,
    ensures
        forall|i: int| 0 <= i < t.players@.len() ==> (#[trigger] t.players@[i]).hand@.len() == 2,
        t.community_cards.flop.cards@.len() == 3,
        wrapping_sum(t.players@.map_values(|p: Player| p.flop_secret_share))
            == t.community_cards.flop.secret,
        wrapping_sum(t.players@.map_values(|p: Player| p.turn_secret_share))
            == t.community_cards.turn.secret,
        wrapping_sum(t.players@.map_values(|p: Player| p.river_secret_share))
            == t.community_cards.river.secret,
{
    let n = infos.len();
    let c = (counter + 1) as u128;
    lemma_shuffle_is_permutation(canonical_deck(), derived_value(entropy, counter));
    assert forall|i: int| 0 <= i < t.players@.len() implies (#[trigger] t.players@[i]).hand@.len()
        == 2 by {
        assert(is_dealt_player(t.players@[i], infos[i], entropy, counter, n, i));
    }
    assert forall|p: int| 0 <= p < 3 implies wrapping_sum(#[trigger] phase_shares(entropy, c, n, p))
        == phase_secret(entropy, c, n, p) by {
        lemma_shares_reconstruct(
            random_shares(entropy, (c + p * n + 1) as u128, n),
            phase_secret(entropy, c, n, p),
        );
    }
    assert forall|i: int| 0 <= i < n implies is_dealt_player(
        #[trigger] t.players@[i],
        infos[i],
        entropy,
        counter,
        n,
        i,
    ) by {}
    assert(t.players@.map_values(|p: Player| p.flop_secret_share) =~= phase_shares(entropy, c, n, 0));
    assert(t.players@.map_values(|p: Player| p.turn_secret_share) =~= phase_shares(entropy, c, n, 1));
    assert(t.players@.map_values(|p: Player| p.river_secret_share) =~= phase_shares(
        entropy,
        c,
        n,
        2,
    ));
}

/// The table stored under `table_id`, or `TableNotFound`.
pub fn load_table_or_error(table: Option<PokerTable>, table_id: u32) -> (r: Result<PokerTable, ContractError>)
    ensures
        r == match table {
            Some(t) => Ok(t),
            None => Err(ContractError::TableNotFound { table_id }),
        },
{
    match table {
        Some(t) => Ok(t),
        None => Err(ContractError::TableNotFound { table_id }),
    }
}

/// When the cards of a community phase were revealed; never for `PreFlop`.
pub open spec fn phase_retrieved_at(t: PokerTable, phase: GameState) -> Option<u64> {
    match phase {
        GameState::Flop => t.community_cards.flop.retrieved_at,
        GameState::Turn => t.community_cards.turn.retrieved_at,
        GameState::River => t.community_cards.river.retrieved_at,
        GameState::PreFlop => None,
    }
}

/// The community cards of a phase.
pub open spec fn phase_cards(t: PokerTable, phase: GameState) -> Seq<Card> {
    match phase {
        GameState::Flop => t.community_cards.flop.cards@,
        GameState::Turn => seq![t.community_cards.turn.card],
        GameState::River => seq![t.community_cards.river.card],
        GameState::PreFlop => Seq::empty(),
    }
}

/// `t` with the cards of `phase` marked revealed at `now`.
pub open spec fn revealed(t: PokerTable, phase: GameState, now: u64) -> PokerTable {
    let cc = t.community_cards;
    match phase {
        GameState::Flop => PokerTable {
            community_cards: CommunityCards {
                flop: Flop { retrieved_at: Some(now), ..cc.flop },
                ..cc
            },
            ..t
        },
        GameState::Turn => PokerTable {
            community_cards: CommunityCards {
                turn: Turn { retrieved_at: Some(now), ..cc.turn },
                ..cc
            },
            ..t
        },
        GameState::River => PokerTable {
            community_cards: CommunityCards {
                river: River { retrieved_at: Some(now), ..cc.river },
                ..cc
            },
            ..t
        },
        GameState::PreFlop => t,
    }
}

/// Reveals the community cards of a phase, once. `PreFlop` is refused, and so is a
/// phase that was already revealed; either way the table is left as it was.
pub fn handle_community_cards(table: &mut PokerTable, now: u64, table_id: u32, game_state: GameState) -> (r: Result<CommunityCardsResponse, ContractError>)
    ensures
        game_state == GameState::PreFlop ==> *final(table) == *old(table) && (r matches Err(
            ContractError::GameStateError { method, table_id: tid, game_state: gs },
        ) && method@ == "distribute_community_cards"@ && tid == table_id && gs == Some(
            GameState::PreFlop,
        )),
        game_state != GameState::PreFlop && phase_retrieved_at(*old(table), game_state) is Some
            ==> *final(table) == *old(table) && r == Err::<CommunityCardsResponse, ContractError>(
            ContractError::CardsAlreadyRetrieved {  },
        ),
        game_state != GameState::PreFlop && phase_retrieved_at(*old(table), game_state) is None
            ==> *final(table) == revealed(*old(table), game_state, now) && (r matches Ok(resp)
            && resp.table_id == table_id && resp.hand_ref == old(table).hand_ref && resp.game_state
            == game_state && resp.community_cards@ == phase_cards(*old(table), game_state)),
{
    let cards = match game_state {
        GameState::Flop => {
            if table.community_cards.flop.retrieved_at.is_some() {
                return Err(ContractError::CardsAlreadyRetrieved {  });
            }
            table.community_cards.flop.retrieved_at = Some(now);
            let cards = table.community_cards.flop.cards.clone();
            assert(cards@ =~= table.community_cards.flop.cards@);
            cards
        },
        GameState::Turn => {
            if table.community_cards.turn.retrieved_at.is_some() {
                return Err(ContractError::CardsAlreadyRetrieved {  });
            }
            table.community_cards.turn.retrieved_at = Some(now);
            let mut cards: Vec<Card> = Vec::new();
            cards.push(table.community_cards.turn.card);
            cards
        },
        GameState::River => {
            if table.community_cards.river.retrieved_at.is_some() {
                return Err(ContractError::CardsAlreadyRetrieved {  });
            }
            table.community_cards.river.retrieved_at = Some(now);
            let mut cards: Vec<Card> = Vec::new();
            cards.push(table.community_cards.river.card);
            cards
        },
        GameState::PreFlop => {
            let method = String::from_str("distribute_community_cards");
            return Err(
                ContractError::GameStateError { method, table_id, game_state: Some(game_state) },
            );
        },
    };
    Ok(
        CommunityCardsResponse {
            table_id,
            hand_ref: table.hand_ref,
            game_state,
            community_cards: cards,
        },
    )
}

/// A reveal is one-shot: after a phase is revealed, revealing it again is refused,
/// and the other phases are untouched.
pub proof fn lemma_reveal_is_one_shot(t: PokerTable, phase: GameState, other: GameState, now: u64)
    requires
        phase != GameState::PreFlop,
    ensures
        phase_retrieved_at(revealed(t, phase, now), phase) == Some(now),
        other != phase ==> phase_retrieved_at(revealed(t, phase, now), other)
            == phase_retrieved_at(t, other),
        phase_cards(revealed(t, phase, now), other) == phase_cards(t, other),
        revealed(t, phase, now).players == t.players,
        revealed(t, phase, now).showdown_retrieved_at == t.showdown_retrieved_at,
{
}

/// The community cards still unseen when everyone is all-in at `phase`: after the
/// pre-flop all five, after the flop the turn and river, after the turn the river,
/// after the river none.
pub open spec fn all_in_cards(cc: CommunityCards, phase: GameState) -> Option<Seq<Card>> {
    match phase {
        GameState::PreFlop => Some(cc.flop.cards@.push(cc.turn.card).push(cc.river.card)),
        GameState::Flop => Some(seq![cc.turn.card, cc.river.card]),
        GameState::Turn => Some(seq![cc.river.card]),
        GameState::River => None,
    }
}

/// The view of an optional list of cards.
pub open spec fn cards_view(o: Option<Vec<Card>>) -> Option<Seq<Card>> {
    match o {
        Some(v) => Some(v@),
        None => None,
    }
}

/// The community cards to publish at an all-in showdown reached at `game_state`.
fn handle_all_in_showdown(community_cards: &CommunityCards, game_state: GameState) -> (r: Option<Vec<Card>>)
    ensures
        cards_view(r) == all_in_cards(*community_cards, game_state),
{
    match game_state {
        GameState::PreFlop => {
            let mut cards = community_cards.flop.cards.clone();
            assert(cards@ =~= community_cards.flop.cards@);
            cards.push(community_cards.turn.card);
            cards.push(community_cards.river.card);
            Some(cards)
        },
        GameState::Flop => {
            let mut cards: Vec<Card> = Vec::new();
            cards.push(community_cards.turn.card);
            cards.push(community_cards.river.card);
            assert(cards@ =~= seq![community_cards.turn.card, community_cards.river.card]);
            Some(cards)
        },
        GameState::Turn => {
            let mut cards: Vec<Card> = Vec::new();
            cards.push(community_cards.river.card);
            assert(cards@ =~= seq![community_cards.river.card]);
            Some(cards)
        },
        GameState::River => None,
    }
}

/// `entry` is the id `id` with the hand of the first player of `ps` who has it.
pub open spec fn shows_hand(entry: (u128, Vec<Card>), ps: Seq<Player>, id: u128) -> bool {
    entry.0 == id && exists|j: int| is_first_with_id(ps, id, j) && entry.1@ == ps[j].hand@
}

/// `t` with its showdown marked revealed at `now`.
pub open spec fn with_showdown(t: PokerTable, now: u64) -> PokerTable {
    PokerTable { showdown_retrieved_at: Some(now), ..t }
}

/// Discloses the hands of the given players, and the community cards not yet seen when
/// the hand went all-in at `game_state`. One-shot; fails on the first id that is not
/// at the table. On failure the table is left as it was.
pub fn handle_showdown(
    table: &mut PokerTable,
    now: u64,
    table_id: u32,
    game_state: GameState,
    showdown_player_ids: &Vec<u128>,
) -> (r: Result<ShowdownResponse, ContractError>)
    ensures
        r is Err ==> *final(table) == *old(table),
        old(table).showdown_retrieved_at is Some ==> r == Err::<ShowdownResponse, ContractError>(
            ContractError::CardsAlreadyRetrieved {  },
        ),
        old(table).showdown_retrieved_at is None && !all_found(old(table).players@, showdown_player_ids@)
            ==> (r matches Err(ContractError::PlayerNotFound { table_id: tid, player }) && tid
            == table_id && exists|k: int|
            is_first_missing(old(table).players@, showdown_player_ids@, k) && player@ == uuid_text(
                showdown_player_ids@[k],
            )),
        old(table).showdown_retrieved_at is None && all_found(old(table).players@, showdown_player_ids@)
            ==> *final(table) == with_showdown(*old(table), now) && (r matches Ok(resp)
            && resp.table_id == table_id && resp.hand_ref == old(table).hand_ref
            && resp.players_cards@.len() == showdown_player_ids@.len() && (forall|k: int|
            0 <= k < showdown_player_ids@.len() ==> shows_hand(
                #[trigger] resp.players_cards@[k],
                old(table).players@,
                showdown_player_ids@[k],
            )) && cards_view(resp.community_cards) == all_in_cards(
            old(table).community_cards,
            game_state,
        )),
{
    if table.showdown_retrieved_at.is_some() {
        return Err(ContractError::CardsAlreadyRetrieved {  });
    }
    let mut player_hands: Vec<(u128, Vec<Card>)> = Vec::new();
    let mut k: usize = 0;
    while k < showdown_player_ids.len()
        invariant
            *table == *old(table),
            old(table).showdown_retrieved_at is None,
            k <= showdown_player_ids@.len(),
            player_hands@.len() == k,
            forall|m: int|
                0 <= m < k ==> has_player(table.players@, #[trigger] showdown_player_ids@[m]),
            forall|m: int|
                0 <= m < k ==> shows_hand(
                    #[trigger] player_hands@[m],
                    table.players@,
                    showdown_player_ids@[m],
                ),
        decreases showdown_player_ids@.len() - k,
    {
        match find_player_by_id(&table.players, showdown_player_ids[k]) {
            Some(j) => {
                let hand = table.players[j].hand.clone();
                assert(hand@ =~= table.players@[j as int].hand@);
                player_hands.push((table.players[j].player_id, hand));
                assert(shows_hand(player_hands@[k as int], table.players@, showdown_player_ids@[k as int]));
            },
            None => {
                let player = uuid_string(showdown_player_ids[k]);
                proof {
                    assert(is_first_missing(table.players@, showdown_player_ids@, k as int));
                    assert(player@ == uuid_text(showdown_player_ids@[k as int]));
                }
                return Err(ContractError::PlayerNotFound { table_id, player });
            },
        }
        k = k + 1;
    }
    let community_cards = handle_all_in_showdown(&table.community_cards, game_state);
    let response = ShowdownResponse {
        table_id,
        hand_ref: table.hand_ref,
        players_cards: player_hands,
        community_cards,
    };
    table.showdown_retrieved_at = Some(now);
    Ok(response)
}

/// A showdown is one-shot: once it succeeded, a second one is refused; it changes
/// nothing but the showdown time.
pub proof fn lemma_showdown_is_one_shot(t: PokerTable, now: u64)
    ensures
        with_showdown(t, now).showdown_retrieved_at == Some(now),
        with_showdown(t, now).players == t.players,
        with_showdown(t, now).community_cards == t.community_cards,
        with_showdown(t, now).hand_ref == t.hand_ref,
{
}

/// A freshly dealt flop is revealed exactly once: it is unrevealed, it holds three
/// cards, and after its reveal a second reveal is refused.
pub proof fn lemma_dealt_flop_reveals_once(
    t: PokerTable,
    entropy: Seq<u8>,
    counter: u128,
    hand_ref: u32,
    infos: Seq<StartGamePlayer>,
    now: u64,
)
    requires
        is_dealt_table(t, entropy, counter, hand_ref, infos),
        2 <= infos.len() <= 9,
    ensures
        phase_retrieved_at(t, GameState::Flop) is None,
        phase_cards(t, GameState::Flop).len() == 3,
        phase_retrieved_at(revealed(t, GameState::Flop, now), GameState::Flop) is Some,
        phase_cards(revealed(t, GameState::Flop, now), GameState::Flop).len() == 3,
{
    lemma_dealt_table_shape(t, entropy, counter, hand_ref, infos);
}

/// A freshly dealt table allows one showdown. At the river it publishes no community
/// card; before the flop it publishes all five; after it, a second one is refused.
pub proof fn lemma_dealt_showdown(
    t: PokerTable,
    entropy: Seq<u8>,
    counter: u128,
    hand_ref: u32,
    infos: Seq<StartGamePlayer>,
    now: u64,
)
    requires
        is_dealt_table(t, entropy, counter, hand_ref, infos),
        2 <= infos.len() <= 9,
    ensures
        t.showdown_retrieved_at is None,
        all_in_cards(t.community_cards, GameState::River) is None,
        all_in_cards(t.community_cards, GameState::PreFlop) == Some(board(t)),
        board(t).len() == 5,
        with_showdown(t, now).showdown_retrieved_at is Some,
{
    lemma_dealt_table_shape(t, entropy, counter, hand_ref, infos);
}

} // verus!
