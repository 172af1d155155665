use werewolf::game::{parse_u8, Action, Night, Note, Phase, Sound};
use werewolf::types::{Game, Msg, Role, Status};
use werewolf::util::deal_cards;

/// Seats: 3 villager, 1 wolf, 2 seer, 5 witch, 4 hunter.
fn fixed_night() -> Night {
    let order: Vec<u8> = vec![3, 1, 2, 5, 4];
    let game = Game { v_num: 1, w_num: 1, p_num: 5, players: deal_cards(1, 1, 5, &order) };
    Night::new(game)
}

fn say(night: &mut Night, text: &str) -> Vec<Action> {
    night.step(&Msg { user_id: 1, user_msg: text.to_string() })
}

fn status_of(night: &Night, n: u8) -> Status {
    night.game.players.get(&n).unwrap().status
}

#[test]
fn parse_u8_agrees_with_std() {
    let cases = [
        "0", "7", "12", "255", "256", "+7", "+", "", "-1", "-0", " 1", "1 ", "007", "00000000000255",
        "99999999999", "1a", "a", "++1", "+0",
    ];
    for text in cases {
        assert_eq!(parse_u8(text), text.parse::<u8>().ok(), "text {:?}", text);
    }
    assert_eq!(parse_u8("20"), Some(20));
    assert_eq!(parse_u8("256"), None);
}

#[test]
fn night_without_ready_is_over() {
    let mut night = fixed_night();
    assert!(say(&mut night, "hello").is_empty());
    assert_eq!(night.phase, Phase::Over);
    assert!(say(&mut night, "ready").is_empty());
    assert_eq!(night.phase, Phase::Over);
}

#[test]
fn a_full_night_with_the_antidote() {
    let mut night = fixed_night();
    let acts = say(&mut night, "ready");
    assert_eq!(
        acts,
        vec![
            Action::Tell { to: 1, note: Note::YourCard { number: 1, role: Role::Wolf } },
            Action::Tell { to: 2, note: Note::YourCard { number: 2, role: Role::Seer } },
            Action::Tell { to: 3, note: Note::YourCard { number: 3, role: Role::Villager } },
            Action::Tell { to: 4, note: Note::YourCard { number: 4, role: Role::Hunter } },
            Action::Tell { to: 5, note: Note::YourCard { number: 5, role: Role::Witch } },
            Action::Play(Sound::CheckRole),
        ]
    );
    let acts = say(&mut night, "anything");
    assert_eq!(
        acts,
        vec![
            Action::Play(Sound::PlayersCloseEyes),
            Action::Pause(3),
            Action::Play(Sound::SeerOpenEye),
            Action::Play(Sound::SeerVerify),
            Action::Tell { to: 2, note: Note::SeerPrompt },
        ]
    );
    assert_eq!(night.phase, Phase::AwaitSeerTarget { seer: 2 });
    let acts = say(&mut night, "1");
    assert_eq!(acts[0], Action::Tell { to: 2, note: Note::SeerVerdict { wolf: true } });
    assert_eq!(acts[4], Action::Play(Sound::WolfKill));
    let acts = say(&mut night, "3");
    assert_eq!(
        acts,
        vec![
            Action::Play(Sound::WolfCloseEye),
            Action::Pause(3),
            Action::Play(Sound::WitchOpenEye),
            Action::Tell { to: 5, note: Note::Fallen { number: 3 } },
            Action::Tell { to: 5, note: Note::AntidoteQuestion },
        ]
    );
    assert_eq!(status_of(&night, 3), Status::KILLED);
    assert_eq!(
        night.phase,
        Phase::AwaitAntidote { witch: 5, fallen: 3, witch_status: Status::LIVED }
    );
    let acts = say(&mut night, "20");
    assert_eq!(status_of(&night, 3), Status::LIVED);
    assert_eq!(
        acts,
        vec![
            Action::Play(Sound::WitchCloseEye),
            Action::Pause(6),
            Action::Play(Sound::HunterOpenEye),
            Action::Tell { to: 4, note: Note::HunterGun { can_shoot: true } },
        ]
    );
    let acts = say(&mut night, "ok");
    assert_eq!(
        acts,
        vec![
            Action::Play(Sound::HunterCloseEye),
            Action::Pause(3),
            Action::Play(Sound::PlayersOpenEye),
        ]
    );
    assert_eq!(say(&mut night, "ok"), vec![Action::AnnounceDeaths]);
    assert_eq!(night.phase, Phase::Over);
    assert!(night.game.get_death_info().is_empty());
    assert!(say(&mut night, "ok").is_empty());
}

#[test]
fn killed_witch_cannot_use_the_antidote_and_poisons_the_hunter() {
    let mut night = fixed_night();
    say(&mut night, "ready");
    say(&mut night, "go");
    say(&mut night, "3");
    say(&mut night, "5");
    assert_eq!(
        night.phase,
        Phase::AwaitAntidote { witch: 5, fallen: 5, witch_status: Status::KILLED }
    );
    let acts = say(&mut night, "20");
    assert_eq!(acts, vec![Action::Tell { to: 5, note: Note::PoisonQuestion }]);
    assert_eq!(status_of(&night, 5), Status::KILLED);
    let acts = say(&mut night, "20");
    assert_eq!(acts, vec![Action::Tell { to: 5, note: Note::PoisonRange { last: 5 } }]);
    let acts = say(&mut night, "4");
    assert_eq!(status_of(&night, 4), Status::POISONED);
    assert_eq!(acts[3], Action::Tell { to: 4, note: Note::HunterGun { can_shoot: false } });
    assert_eq!(night.phase, Phase::AwaitHunterDone);
}

#[test]
fn declining_both_potions() {
    let mut night = fixed_night();
    say(&mut night, "ready");
    say(&mut night, "go");
    say(&mut night, "3");
    say(&mut night, "3");
    say(&mut night, "21");
    let acts = say(&mut night, "21");
    assert_eq!(acts.len(), 4);
    assert_eq!(night.phase, Phase::AwaitHunterDone);
    assert_eq!(status_of(&night, 3), Status::KILLED);
}

#[test]
fn a_reply_that_is_not_a_number_aborts() {
    let mut night = fixed_night();
    say(&mut night, "ready");
    say(&mut night, "go");
    assert!(say(&mut night, "one").is_empty());
    assert_eq!(night.phase, Phase::Aborted);
    assert!(say(&mut night, "1").is_empty());
    assert_eq!(night.phase, Phase::Aborted);
}
