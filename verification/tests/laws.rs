use werewolf::types::{Game, Role, Status};
use werewolf::util::deal_cards;

fn fixed_game() -> Game {
    let order: Vec<u8> = vec![3, 1, 2, 5, 4];
    Game { v_num: 1, w_num: 1, p_num: 5, players: deal_cards(1, 1, 5, &order) }
}

#[test]
fn status_changes_of_different_players_commute() {
    let mut a = fixed_game();
    a.player_status_change(1, Status::KILLED);
    a.player_status_change(2, Status::POISONED);
    let mut b = fixed_game();
    b.player_status_change(2, Status::POISONED);
    b.player_status_change(1, Status::KILLED);
    assert_eq!(a.players, b.players);
}

#[test]
fn actions_keep_every_role() {
    let mut game = fixed_game();
    let before: Vec<(u8, Role)> = (1..=5u8).map(|n| (n, game.players[&n].role)).collect();
    game.wolf_action(5);
    game.witch_action(2, Status::POISONED);
    game.hunter_action(3, Status::KILLED);
    game.seer_action(1);
    let after: Vec<(u8, Role)> = (1..=5u8).map(|n| (n, game.players[&n].role)).collect();
    assert_eq!(before, after);
    assert_eq!(game.players.len(), 5);
}

#[test]
fn role_census_of_a_random_game() {
    for _ in 0..16 {
        let game = Game::new(2, 2, 7);
        let count = |r: Role| game.players.values().filter(|p| p.role == r).count();
        assert_eq!(count(Role::Villager), 2);
        assert_eq!(count(Role::Wolf), 2);
        assert_eq!(count(Role::Seer), 1);
        assert_eq!(count(Role::Witch), 1);
        assert_eq!(count(Role::Hunter), 1);
    }
}
