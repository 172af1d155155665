use std::collections::HashMap;
use werewolf::types::{Game, Player, Role, Status};
use werewolf::util::{assign_card, deal_cards};

/// A game dealt along a fixed order: 1 villager, 1 wolf, then seer, witch, hunter.
fn fixed_game() -> Game {
    // positions: 0 villager, 1 wolf, 2 seer, 3 witch, 4 hunter
    let order: Vec<u8> = vec![3, 1, 2, 5, 4];
    Game { v_num: 1, w_num: 1, p_num: 5, players: deal_cards(1, 1, 5, &order) }
}

fn role_of(game: &Game, n: u8) -> Role {
    game.players.get(&n).unwrap().role
}

fn status_of(game: &Game, n: u8) -> Status {
    game.players.get(&n).unwrap().status
}

#[test]
fn test_game() {
    let game = Game::new(3, 3, 9);
    println!("{:?}", game);
}

#[test]
fn test_get_hunter() {
    let game = Game::new(3, 3, 9);

    println!("{:?}", game.get_hunter());
}

#[test]
fn test_player_status_change() {
    let mut game = Game::new(3, 3, 9);
    game.player_status_change(4, Status::KILLED);
    println!("{:?}", game);
}

#[test]
fn test_witch_action() {
    let mut game = Game::new(3, 3, 9);
    let witch = game.get_witch().unwrap().clone();
    game.player_status_change(witch.number, Status::KILLED);
    game.witch_action(witch.number, Status::LIVED);

    println!("{:?}", game);
}

#[test]
fn test_hunter_action() {
    let mut game = Game::new(3, 3, 9);
    let _hunter = game.get_hunter().unwrap().clone();
    // game.player_status_change(hunter.number, Status::POISONED);
    game.hunter_action(9, Status::KILLED);

    println!("{:?}", game);
}

#[test]
fn new_game_seats_everybody_alive_with_the_right_cards() {
    let game = Game::new(3, 3, 9);
    assert_eq!((game.v_num, game.w_num, game.p_num), (3, 3, 9));
    assert_eq!(game.players.len(), 9);
    let mut counts = [0u8; 5];
    for n in 1..=9u8 {
        let p = game.players.get(&n).unwrap();
        assert_eq!(p.number, n);
        assert_eq!(p.status, Status::LIVED);
        let slot = match p.role {
            Role::Villager => 0,
            Role::Wolf => 1,
            Role::Seer => 2,
            Role::Witch => 3,
            Role::Hunter => 4,
        };
        counts[slot] += 1;
    }
    assert_eq!(counts, [3, 3, 1, 1, 1]);
}

#[test]
fn deal_cards_follows_the_order() {
    let game = fixed_game();
    assert_eq!(role_of(&game, 3), Role::Villager);
    assert_eq!(role_of(&game, 1), Role::Wolf);
    assert_eq!(role_of(&game, 2), Role::Seer);
    assert_eq!(role_of(&game, 5), Role::Witch);
    assert_eq!(role_of(&game, 4), Role::Hunter);
    assert_eq!(game.players.len(), 5);
    assert_eq!(
        *game.players.get(&5).unwrap(),
        Player { number: 5, status: Status::LIVED, role: Role::Witch }
    );
}

#[test]
fn assign_card_shuffles_the_seats() {
    // With the numbers left in order, seat 1 would always be a villager.
    let mut seat_one_not_villager = false;
    for _ in 0..64 {
        let players = assign_card(1, 1, 5);
        let mut keys: Vec<u8> = players.keys().copied().collect();
        keys.sort();
        assert_eq!(keys, vec![1, 2, 3, 4, 5]);
        if players.get(&1).unwrap().role != Role::Villager {
            seat_one_not_villager = true;
        }
    }
    assert!(seat_one_not_villager);
}

#[test]
fn getters_find_the_single_holders() {
    let game = fixed_game();
    assert_eq!(game.get_seer().unwrap().number, 2);
    assert_eq!(game.get_witch().unwrap().number, 5);
    assert_eq!(game.get_hunter().unwrap().number, 4);
}

#[test]
fn getters_report_a_missing_role() {
    let mut players = HashMap::new();
    players.insert(1u8, Player { number: 1, status: Status::LIVED, role: Role::Villager });
    let game = Game { v_num: 1, w_num: 0, p_num: 1, players };
    assert!(game.get_seer().is_none());
    assert!(game.get_witch().is_none());
    assert!(game.get_hunter().is_none());
}

#[test]
fn status_change_of_an_absent_player_does_nothing() {
    let mut game = fixed_game();
    game.player_status_change(9, Status::KILLED);
    for n in 1..=5u8 {
        assert_eq!(status_of(&game, n), Status::LIVED);
    }
    assert_eq!(game.players.len(), 5);
}

#[test]
fn last_status_wins() {
    let mut game = fixed_game();
    game.player_status_change(3, Status::KILLED);
    game.player_status_change(3, Status::POISONED);
    assert_eq!(status_of(&game, 3), Status::POISONED);
    assert_eq!(role_of(&game, 3), Role::Villager);
}

#[test]
fn wolves_kill() {
    let mut game = fixed_game();
    game.wolf_action(2);
    assert_eq!(status_of(&game, 2), Status::KILLED);
    assert_eq!(status_of(&game, 3), Status::LIVED);
}

#[test]
fn witch_cannot_treat_herself() {
    let mut game = fixed_game();
    game.player_status_change(5, Status::KILLED);
    game.witch_action(5, Status::LIVED);
    assert_eq!(status_of(&game, 5), Status::KILLED);
    game.witch_action(1, Status::POISONED);
    assert_eq!(status_of(&game, 1), Status::POISONED);
}

#[test]
fn poisoned_hunter_cannot_shoot() {
    let mut game = fixed_game();
    game.hunter_action(1, Status::KILLED);
    assert_eq!(status_of(&game, 1), Status::KILLED);
    game.player_status_change(4, Status::POISONED);
    game.hunter_action(3, Status::KILLED);
    assert_eq!(status_of(&game, 3), Status::LIVED);
}

#[test]
fn hunter_missing_still_shoots() {
    let mut players = HashMap::new();
    players.insert(1u8, Player { number: 1, status: Status::LIVED, role: Role::Villager });
    let mut game = Game { v_num: 1, w_num: 0, p_num: 1, players };
    game.hunter_action(1, Status::KILLED);
    assert_eq!(status_of(&game, 1), Status::KILLED);
}

#[test]
fn seer_sees_wolves_only() {
    let mut game = fixed_game();
    assert!(game.seer_action(1));
    assert!(!game.seer_action(3));
    assert!(!game.seer_action(2));
    assert!(!game.seer_action(7));
    for n in 1..=5u8 {
        assert_eq!(status_of(&game, n), Status::LIVED);
    }
}

#[test]
fn death_info_lists_the_fallen_by_number() {
    let mut game = fixed_game();
    assert!(game.get_death_info().is_empty());
    game.wolf_action(4);
    game.witch_action(1, Status::POISONED);
    let fallen = game.get_death_info();
    assert_eq!(
        fallen,
        vec![
            Player { number: 1, status: Status::POISONED, role: Role::Wolf },
            Player { number: 4, status: Status::KILLED, role: Role::Hunter },
        ]
    );
}

#[test]
fn the_reported_hunter_decides_the_shot() {
    for _ in 0..8 {
        let mut players = HashMap::new();
        players.insert(1u8, Player { number: 1, status: Status::POISONED, role: Role::Hunter });
        players.insert(2u8, Player { number: 2, status: Status::KILLED, role: Role::Hunter });
        players.insert(3u8, Player { number: 3, status: Status::LIVED, role: Role::Villager });
        let mut game = Game { v_num: 1, w_num: 0, p_num: 3, players };
        let reported = *game.get_hunter().unwrap();
        game.hunter_action(3, Status::KILLED);
        let expected =
            if reported.status == Status::POISONED { Status::LIVED } else { Status::KILLED };
        assert_eq!(status_of(&game, 3), expected);
    }
}
