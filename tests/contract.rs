use cosmwasm_std::testing::mock_env;
use poker_dealer::{
    additive_secret_sharing, handle_community_cards, handle_showdown, handle_start_game,
    init_counter, query_community_cards, query_player_private_data, ContractError, GameState,
    PokerTable, StartGameOutcome, StartGamePlayer,
};
use secret_cosmwasm_std as cosmwasm_std;
use uuid::Uuid;

fn entropy() -> Vec<u8> {
    mock_env().block.random.unwrap().0
}

fn now() -> u64 {
    mock_env().block.time.nanos()
}

fn player(username: &str, id: &str, key: &str) -> StartGamePlayer {
    StartGamePlayer {
        username: username.to_string(),
        player_id: Uuid::parse_str(id).unwrap().as_u128(),
        public_key: key.to_string(),
    }
}

fn start(players: Vec<StartGamePlayer>) -> StartGameOutcome {
    let entropy = entropy();
    let mut counter = init_counter(&entropy).unwrap();
    handle_start_game(None, &entropy, &mut counter, 1, 1, players, vec![]).unwrap()
}

fn addition_shares(shares: Vec<u64>) -> u64 {
    shares.iter().copied().fold(0u64, u64::wrapping_add)
}

fn private_share(table: &PokerTable, key: &str) -> poker_dealer::PlayerDataResponse {
    query_player_private_data(Some(table.clone()), 1, &key.to_string()).unwrap()
}

#[test]
fn test_start_game() {
    let players = vec![
        player("player1", "2928c53b-5d14-4a7c-b56e-83ef56a0644e", "key1"),
        player("player2", "8f204fcc-54a5-4473-8ac3-4845bff291ab", "key2"),
    ];
    let out = start(players);
    assert_eq!(out.response.players, vec!["player1".to_string(), "player2".to_string()]);
    assert_eq!(out.response.table_id, 1);
    assert_eq!(out.response.hand_ref, 1);
    assert!(out.previous_hand_log.is_none());

    let player_info1 = private_share(&out.table, "key1");
    let player_info2 = private_share(&out.table, "key2");

    assert_eq!(player_info1.table_id, 1);
    assert_eq!(player_info1.hand_ref, 1);
    assert_eq!(player_info1.hand.len(), 2);
    assert!(player_info1.flop_secret_share.parse::<u64>().is_ok());

    assert_eq!(player_info2.table_id, 1);
    assert_eq!(player_info2.hand_ref, 1);
    assert_eq!(player_info2.hand.len(), 2);
    assert!(player_info2.flop_secret_share.parse::<u64>().is_ok());

    let flop_secret = addition_shares(vec![
        player_info1.flop_secret_share.parse::<u64>().unwrap(),
        player_info2.flop_secret_share.parse::<u64>().unwrap(),
    ]);
    let turn_secret = addition_shares(vec![
        player_info1.turn_secret_share.parse::<u64>().unwrap(),
        player_info2.turn_secret_share.parse::<u64>().unwrap(),
    ]);
    let river_secret = addition_shares(vec![
        player_info1.river_secret_share.parse::<u64>().unwrap(),
        player_info2.river_secret_share.parse::<u64>().unwrap(),
    ]);

    let flop_response =
        query_community_cards(Some(out.table.clone()), 1, GameState::Flop, flop_secret).unwrap();
    assert_eq!(flop_response.table_id, 1);
    assert_eq!(flop_response.hand_ref, 1);
    assert_eq!(flop_response.game_state, GameState::Flop);
    assert_eq!(flop_response.community_cards.len(), 3);

    let turn_response =
        query_community_cards(Some(out.table.clone()), 1, GameState::Turn, turn_secret).unwrap();
    assert_eq!(turn_response.table_id, 1);
    assert_eq!(turn_response.hand_ref, 1);
    assert_eq!(turn_response.game_state, GameState::Turn);
    assert_eq!(turn_response.community_cards.len(), 1);

    let river_response =
        query_community_cards(Some(out.table.clone()), 1, GameState::River, river_secret).unwrap();
    assert_eq!(river_response.table_id, 1);
    assert_eq!(river_response.hand_ref, 1);
    assert_eq!(river_response.game_state, GameState::River);
    assert_eq!(river_response.community_cards.len(), 1);

    let res = query_community_cards(
        Some(out.table.clone()),
        1,
        GameState::Flop,
        flop_secret.wrapping_add(1),
    );
    assert!(res.is_err());
}

#[test]
fn test_community_cards() {
    let players = vec![
        player("player1", "2928c53b-5d14-4a7c-b56e-83ef56a0644e", "key1"),
        player("player2", "8f204fcc-54a5-4473-8ac3-4845bff291ab", "key2"),
    ];
    let mut table = start(players).table;

    let res = handle_community_cards(&mut table, now(), 1, GameState::Flop).unwrap();
    println!("{:?}", res);
    assert_eq!(res.game_state, GameState::Flop);

    let res = handle_community_cards(&mut table, now(), 1, GameState::Turn).unwrap();
    assert_eq!(res.game_state, GameState::Turn);
    assert_eq!(res.community_cards.len(), 1);
}

#[test]
fn test_invalid_game_state() {
    let players = vec![
        player("player1", "2928c53b-5d14-4a7c-b56e-83ef56a0644e", "key1"),
        player("player2", "8f204fcc-54a5-4473-8ac3-4845bff291ab", "key2"),
    ];
    let mut table = start(players).table;

    let res = handle_community_cards(&mut table, now(), 1, GameState::PreFlop);
    assert!(res.is_err());
    match res.unwrap_err() {
        ContractError::GameStateError { method, table_id, game_state } => {
            assert_eq!(method, "distribute_community_cards");
            assert_eq!(table_id, 1);
            assert_eq!(game_state, Some(GameState::PreFlop));
        }
        _ => panic!("Expected GameStateError"),
    }
}

#[test]
fn test_showdown() {
    let player1_id = Uuid::parse_str("2928c53b-5d14-4a7c-b56e-83ef56a0644e").unwrap();
    let player2_id = Uuid::parse_str("8f204fcc-54a5-4473-8ac3-4845bff291ab").unwrap();
    let players = vec![
        player("player1", "2928c53b-5d14-4a7c-b56e-83ef56a0644e", "key1"),
        player("player2", "8f204fcc-54a5-4473-8ac3-4845bff291ab", "key2"),
    ];
    let mut table = start(players).table;

    let ids = vec![player1_id.as_u128(), player2_id.as_u128()];
    let res = handle_showdown(&mut table, now(), 1, GameState::River, &ids).unwrap();
    assert_eq!(res.players_cards.len(), 2);
}

#[test]
fn test_player_not_found() {
    let players = vec![
        player("player1", "2928c53b-5d14-4a7c-b56e-83ef56a0644e", "key1"),
        player("player2", "e6799ecf-f202-418a-a535-0b42509f69f7", "key2"),
    ];
    let mut table = start(players).table;

    let non_existent_player = Uuid::parse_str("aaaaaaaa-bbbb-cccc-dddd-eeeeeeeeeeee").unwrap();
    let ids = vec![non_existent_player.as_u128()];
    let res = handle_showdown(&mut table, now(), 1, GameState::River, &ids);

    assert!(res.is_err());
    match res.unwrap_err() {
        ContractError::PlayerNotFound { table_id, player } => {
            assert_eq!(table_id, 1);
            assert_eq!(player, non_existent_player.to_string());
        }
        _ => panic!("Expected PlayerNotFound error"),
    }
}

#[test]
fn test_additive_sharing() {
    let secret = 14151497078262209000u64;
    let mut counter = 0;
    let _shares = additive_secret_sharing(&entropy(), 2, secret, &mut counter);
    let shares = [8676118583430535000u64, 5475378494831674000];
    let sum = shares.iter().copied().fold(0u64, u64::wrapping_add);
    println!("{:?}", sum);
    assert_eq!(sum, secret);
}
