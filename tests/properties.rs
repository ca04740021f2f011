use cosmwasm_std::testing::mock_env;
use poker_dealer::{
    additive_secret_sharing, check_operator, generate_random_number, handle_community_cards, handle_showdown,
    handle_start_game, init_counter, load_table_or_error, query_community_cards,
    query_player_private_data, query_showdown, shuffle_deck, Card, ContractError, Deck, GameState,
    PokerTable, StartGamePlayer,
};
use secret_cosmwasm_std as cosmwasm_std;

fn entropy() -> Vec<u8> {
    mock_env().block.random.unwrap().0
}

fn seat(n: usize) -> Vec<StartGamePlayer> {
    (0..n)
        .map(|i| StartGamePlayer {
            username: format!("player{}", i + 1),
            player_id: 1000 + i as u128,
            public_key: format!("key{}", i + 1),
        })
        .collect()
}

fn deal(n: usize) -> PokerTable {
    let e = entropy();
    let mut counter = init_counter(&e).unwrap();
    handle_start_game(None, &e, &mut counter, 7, 3, seat(n), vec![]).unwrap().table
}

fn cards(bytes: &[u8]) -> Vec<Card> {
    bytes.iter().map(|&b| Card::from_bytes(b)).collect()
}

#[test]
fn shuffle_is_permutation_of_canonical_deck() {
    let canonical = Deck::new().to_bytes();
    for seed in [0u64, 1, 12345, u64::MAX, 0xdead_beef] {
        let mut deck = Deck::new();
        shuffle_deck(&mut deck, seed);
        let mut bytes = deck.to_bytes();
        assert_eq!(bytes.len(), 52);
        assert_ne!(bytes, canonical);
        bytes.sort();
        assert_eq!(bytes, canonical);
    }
}

#[test]
fn shuffle_is_deterministic() {
    let mut a = Deck::new();
    let mut b = Deck::new();
    shuffle_deck(&mut a, 987_654_321);
    shuffle_deck(&mut b, 987_654_321);
    assert_eq!(a, b);
    let mut c = Deck::new();
    shuffle_deck(&mut c, 987_654_322);
    assert_ne!(a, c);
}

#[test]
fn shuffle_golden_seed_12345() {
    let mut deck = Deck::new();
    shuffle_deck(&mut deck, 12345);
    let expected = [
        1, 44, 42, 2, 41, 22, 54, 3, 11, 5, 7, 61, 34, 53, 35, 43, 36, 39, 57, 59, 40, 6, 56, 4, 12,
        17, 18, 37, 8, 55, 24, 58, 21, 20, 26, 28, 23, 10, 52, 38, 50, 27, 60, 33, 13, 19, 29, 51,
        49, 45, 9, 25,
    ];
    assert_eq!(deck.to_bytes(), expected.to_vec());
}

#[test]
fn shuffle_golden_seed_zero() {
    let mut deck = Deck::new();
    shuffle_deck(&mut deck, 0);
    let expected = [
        27, 59, 21, 24, 33, 40, 11, 60, 61, 7, 3, 23, 17, 19, 13, 25, 52, 37, 55, 57, 5, 4, 34, 50,
        51, 38, 22, 10, 53, 49, 42, 8, 29, 36, 35, 45, 41, 54, 18, 9, 26, 2, 6, 28, 39, 58, 20, 56,
        1, 43, 12, 44,
    ];
    assert_eq!(deck.to_bytes(), expected.to_vec());
}

#[test]
fn shuffle_marginals_are_uniform() {
    const SHUFFLES: usize = 10_000;
    let positions = [0usize, 25, 51];
    let mut counts = vec![[0usize; 64]; positions.len()];
    for seed in 0..SHUFFLES {
        let mut deck = Deck::new();
        shuffle_deck(&mut deck, seed as u64);
        for (k, &pos) in positions.iter().enumerate() {
            counts[k][deck.cards[pos].to_bytes() as usize] += 1;
        }
    }
    let expected = SHUFFLES as f64 / 52.0;
    for row in counts.iter() {
        let mut chi_squared = 0.0;
        for suit in 0..4u8 {
            for rank in 1..=13u8 {
                let observed = row[(suit * 16 + rank) as usize] as f64;
                chi_squared += (observed - expected) * (observed - expected) / expected;
            }
        }
        assert!(chi_squared < 77.38, "chi-squared {}", chi_squared);
    }
}

#[test]
fn derived_values_are_hkdf_outputs() {
    let e = entropy();
    let mut counter = 0u128;
    assert_eq!(generate_random_number(&e, &mut counter), 1927778977517114458);
    assert_eq!(counter, 1);
    assert_eq!(generate_random_number(&e, &mut counter), 6880229108835313023);
    assert_eq!(counter, 2);
}

#[test]
fn counter_seed_is_little_endian() {
    let e = entropy();
    assert_eq!(init_counter(&e), Some(189506621604243771124594892932779785152));
    let mut seed = vec![0u8; 16];
    seed[0] = 1;
    seed[15] = 2;
    assert_eq!(init_counter(&seed), Some(1 + (2u128 << 120)));
    assert_eq!(init_counter(&[1, 2, 3]), None);
}

#[test]
fn shares_sum_to_secret() {
    let e = entropy();
    for n in 2..=9usize {
        for secret in [0u64, 1, u64::MAX, 14151497078262209000] {
            let mut counter = 40u128;
            let shares = additive_secret_sharing(&e, n, secret, &mut counter);
            assert_eq!(shares.len(), n);
            assert_eq!(counter, 40 + n as u128 - 1);
            assert_eq!(shares.iter().copied().fold(0u64, u64::wrapping_add), secret);
            let mut c = 40u128;
            assert_eq!(shares[0], generate_random_number(&e, &mut c));
        }
    }
}

#[test]
fn start_game_checks_player_count() {
    let e = entropy();
    for n in [0usize, 1, 10] {
        let mut counter = 5u128;
        let res = handle_start_game(None, &e, &mut counter, 1, 1, seat(n), vec![]);
        assert_eq!(res, Err(ContractError::InvalidPlayerCount { count: n }));
        assert_eq!(counter, 5);
    }
    for n in 2..=9usize {
        let mut counter = 5u128;
        let out = handle_start_game(None, &e, &mut counter, 1, 1, seat(n), vec![]).unwrap();
        assert_eq!(out.table.players.len(), n);
        assert_eq!(counter, 5 + 4 * n as u128 + 1);
    }
}

#[test]
fn start_game_rejects_duplicate_keys() {
    let e = entropy();
    let mut players = seat(4);
    players[3].public_key = "key2".to_string();
    let mut counter = 5u128;
    let res = handle_start_game(None, &e, &mut counter, 1, 1, players, vec![]);
    assert_eq!(res, Err(ContractError::DuplicatePublicKeys {}));
    assert_eq!(counter, 5);
}

#[test]
fn start_game_deals_from_the_end_of_the_shuffled_deck() {
    let e = entropy();
    let c0 = init_counter(&e).unwrap();
    let mut counter = c0;
    let out = handle_start_game(None, &e, &mut counter, 1, 1, seat(2), vec![]).unwrap();
    let t = &out.table;
    assert_eq!(counter, c0 + 9);
    assert_eq!(t.players[0].hand, cards(&[26, 58]));
    assert_eq!(t.players[1].hand, cards(&[12, 10]));
    assert_eq!(t.community_cards.flop.cards, cards(&[59, 41, 18]));
    assert_eq!(t.community_cards.turn.card, Card::from_bytes(38));
    assert_eq!(t.community_cards.river.card, Card::from_bytes(28));
    assert_eq!(t.community_cards.flop.secret, 3183760344012270711);
    assert_eq!(t.community_cards.turn.secret, 5167956777027895687);
    assert_eq!(t.community_cards.river.secret, 6484259933443500077);
    assert_eq!(t.players[0].flop_secret_share, 11022852049251232765);
    assert_eq!(t.players[0].hand_secret, 15629284709943294619);
    assert_eq!(t.players[1].hand_secret, 12167834611595390102);
    assert_eq!(t.players[0].username, "player1");
    assert_eq!(t.players[1].player_id, 1001);
    assert!(t.community_cards.flop.retrieved_at.is_none());
    assert!(t.showdown_retrieved_at.is_none());
}

#[test]
fn two_player_response_lists_names_in_order() {
    let e = entropy();
    let mut counter = 0u128;
    let out = handle_start_game(None, &e, &mut counter, 4, 9, seat(2), vec![]).unwrap();
    assert_eq!(out.response.players, vec!["player1".to_string(), "player2".to_string()]);
    assert_eq!(out.response.table_id, 4);
    assert_eq!(out.response.hand_ref, 9);
}

#[test]
fn private_shares_reconstruct_phase_secrets() {
    for n in [2usize, 3, 9] {
        let t = deal(n);
        let mut sums = [0u64; 3];
        for i in 0..n {
            let key = format!("key{}", i + 1);
            let data = query_player_private_data(Some(t.clone()), 7, &key).unwrap();
            assert_eq!(data.hand.len(), 2);
            assert_eq!(data.hand, t.players[i].hand);
            assert_eq!(data.hand_secret, t.players[i].hand_secret.to_string());
            sums[0] = sums[0].wrapping_add(data.flop_secret_share.parse::<u64>().unwrap());
            sums[1] = sums[1].wrapping_add(data.turn_secret_share.parse::<u64>().unwrap());
            sums[2] = sums[2].wrapping_add(data.river_secret_share.parse::<u64>().unwrap());
        }
        assert_eq!(sums[0], t.community_cards.flop.secret);
        assert_eq!(sums[1], t.community_cards.turn.secret);
        assert_eq!(sums[2], t.community_cards.river.secret);
        let flop = query_community_cards(Some(t.clone()), 7, GameState::Flop, sums[0]).unwrap();
        assert_eq!(flop.community_cards, t.community_cards.flop.cards);
    }
}

#[test]
fn private_data_failures() {
    let t = deal(2);
    let none = query_player_private_data(None, 7, &"key1".to_string());
    assert_eq!(none, Err(ContractError::Std("No table found".to_string())));
    let stranger = query_player_private_data(Some(t), 7, &"key9".to_string());
    assert_eq!(stranger, Err(ContractError::Std("No player found".to_string())));
}

#[test]
fn community_query_failures() {
    let t = deal(2);
    let flop_secret = t.community_cards.flop.secret;
    assert_eq!(
        query_community_cards(None, 7, GameState::Flop, flop_secret),
        Err(ContractError::Std("No table found".to_string()))
    );
    assert_eq!(
        query_community_cards(Some(t.clone()), 7, GameState::PreFlop, flop_secret),
        Err(ContractError::Std("Invalid game state".to_string()))
    );
    assert_eq!(
        query_community_cards(Some(t.clone()), 7, GameState::Turn, flop_secret),
        Err(ContractError::Std("Invalid viewing key".to_string()))
    );
}

#[test]
fn flop_reveal_happens_once() {
    let mut t = deal(3);
    let flop = t.community_cards.flop.cards.clone();
    let res = handle_community_cards(&mut t, 42, 7, GameState::Flop).unwrap();
    assert_eq!(res.community_cards.len(), 3);
    assert_eq!(res.community_cards, flop);
    assert_eq!(res.hand_ref, 3);
    assert_eq!(t.community_cards.flop.retrieved_at, Some(42));
    assert_eq!(t.community_cards.turn.retrieved_at, None);

    let before = t.clone();
    let again = handle_community_cards(&mut t, 43, 7, GameState::Flop);
    assert_eq!(again, Err(ContractError::CardsAlreadyRetrieved {}));
    assert_eq!(t, before);

    let river = handle_community_cards(&mut t, 44, 7, GameState::River).unwrap();
    assert_eq!(river.community_cards, vec![t.community_cards.river.card]);
}

#[test]
fn preflop_reveal_is_always_rejected() {
    let mut t = deal(2);
    let before = t.clone();
    for _ in 0..2 {
        let res = handle_community_cards(&mut t, 1, 7, GameState::PreFlop);
        assert!(matches!(res, Err(ContractError::GameStateError { .. })));
        assert_eq!(t, before);
    }
}

#[test]
fn showdown_at_river_shows_hands_only() {
    let mut t = deal(3);
    let ids = vec![1000u128, 1002];
    let res = handle_showdown(&mut t, 99, 7, GameState::River, &ids).unwrap();
    assert_eq!(res.players_cards.len(), 2);
    assert_eq!(res.players_cards[0], (1000, t.players[0].hand.clone()));
    assert_eq!(res.players_cards[1], (1002, t.players[2].hand.clone()));
    assert_eq!(res.community_cards, None);
    assert_eq!(t.showdown_retrieved_at, Some(99));

    let again = handle_showdown(&mut t, 100, 7, GameState::River, &ids);
    assert_eq!(again, Err(ContractError::CardsAlreadyRetrieved {}));
    assert_eq!(t.showdown_retrieved_at, Some(99));
}

#[test]
fn showdown_all_in_publishes_remaining_cards() {
    let t0 = deal(2);
    let cc = &t0.community_cards;
    let mut all = cc.flop.cards.clone();
    all.push(cc.turn.card);
    all.push(cc.river.card);
    let cases = [
        (GameState::PreFlop, Some(all)),
        (GameState::Flop, Some(vec![cc.turn.card, cc.river.card])),
        (GameState::Turn, Some(vec![cc.river.card])),
        (GameState::River, None),
    ];
    for (phase, expected) in cases {
        let mut t = t0.clone();
        let res = handle_showdown(&mut t, 5, 7, phase, &vec![1001]).unwrap();
        assert_eq!(res.community_cards, expected);
    }
}

#[test]
fn showdown_names_the_missing_player() {
    let mut t = deal(2);
    let before = t.clone();
    let missing = 0xaaaaaaaa_bbbb_cccc_dddd_eeeeeeeeeeeeu128;
    let res = handle_showdown(&mut t, 5, 7, GameState::Turn, &vec![1000, missing, 5]);
    assert_eq!(
        res,
        Err(ContractError::PlayerNotFound {
            table_id: 7,
            player: "aaaaaaaa-bbbb-cccc-dddd-eeeeeeeeeeee".to_string()
        })
    );
    assert_eq!(t, before);
}

#[test]
fn next_hand_logs_the_outgoing_one() {
    let e = entropy();
    let mut counter = 11u128;
    let mut t = handle_start_game(None, &e, &mut counter, 1, 1, seat(2), vec![]).unwrap().table;
    handle_community_cards(&mut t, 70, 1, GameState::Flop).unwrap();
    handle_showdown(&mut t, 80, 1, GameState::Flop, &vec![1001]).unwrap();

    let out =
        handle_start_game(Some(t.clone()), &e, &mut counter, 1, 2, seat(3), vec![1001]).unwrap();
    let log = out.previous_hand_log.unwrap();
    assert_eq!(log.showdown_players.len(), 1);
    assert_eq!(log.showdown_players[0].username, "player2");
    let hand: Vec<String> = t.players[1].hand.iter().map(|c| c.to_string()).collect();
    assert_eq!(log.showdown_players[0].hand, hand);
    assert_eq!(log.community_cards.len(), 5);
    assert_eq!(log.community_cards[3], t.community_cards.turn.card.to_string());
    assert_eq!(log.flop_retrieved_at, Some(70));
    assert_eq!(log.turn_retrieved_at, None);
    assert_eq!(log.river_retrieved_at, None);
    assert_eq!(log.showdown_retrieved_at, Some(80));
    assert_eq!(out.table.hand_ref, 2);

    let saved = counter;
    let res = handle_start_game(Some(t), &e, &mut counter, 1, 3, seat(2), vec![1000, 77]);
    assert_eq!(
        res,
        Err(ContractError::PlayerNotFound {
            table_id: 1,
            player: "00000000-0000-0000-0000-00000000004d".to_string()
        })
    );
    assert_eq!(counter, saved);
}

#[test]
fn showdown_query_by_secrets() {
    let t = deal(3);
    let cc = &t.community_cards;
    let hand_secret = t.players[1].hand_secret;
    let res = query_showdown(
        Some(t.clone()),
        7,
        Some(cc.flop.secret),
        None,
        Some(cc.river.secret),
        &vec![hand_secret],
    )
    .unwrap();
    let mut expected = cc.flop.cards.clone();
    expected.push(cc.river.card);
    assert_eq!(res.community_cards, Some(expected));
    assert_eq!(res.players_cards, vec![(1001, t.players[1].hand.clone())]);

    let wrong = query_showdown(Some(t.clone()), 7, None, Some(cc.turn.secret ^ 1), None, &vec![]);
    assert_eq!(wrong, Err(ContractError::Std("Invalid secret key".to_string())));
    let unknown =
        query_showdown(Some(t.clone()), 7, None, None, None, &vec![hand_secret ^ 1]);
    assert_eq!(unknown, Err(ContractError::Std("Player not found".to_string())));
    let none = query_showdown(None, 7, None, None, None, &vec![]);
    assert_eq!(none, Err(ContractError::Std("No table found".to_string())));
}

#[test]
fn missing_table_is_reported() {
    assert_eq!(load_table_or_error(None, 12), Err(ContractError::TableNotFound { table_id: 12 }));
    let t = deal(2);
    assert_eq!(load_table_or_error(Some(t.clone()), 12), Ok(t));
}

#[test]
fn table_card_check() {
    let mut t = deal(2);
    assert!(t.has_valid_cards());
    t.players[1].hand[0] = Card::from_bytes(0x4e);
    assert!(!t.has_valid_cards());
}

#[test]
fn only_the_operator_may_act() {
    assert_eq!(check_operator(&"owner".to_string(), &"owner".to_string()), Ok(()));
    assert_eq!(
        check_operator(&"intruder".to_string(), &"owner".to_string()),
        Err(ContractError::Unauthorized {})
    );
}
