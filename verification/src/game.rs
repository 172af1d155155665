use vstd::prelude::*;
use crate::types::{Game, Msg, Player, Role, Status, holder, with_status};
use crate::actions::{after_potion, lemma_single_holder};

verus! {

broadcast use vstd::std_specs::hash::group_hash_axioms;

// ---------------------------------------------------------------------
// Reading a number out of a chat line, as `str::parse::<u8>` does.
// ---------------------------------------------------------------------

/// `c` is one of the ASCII digits `0`..`9`.
pub open spec fn is_digit(c: char) -> bool {
    48 <= (c as u32) <= 57
}

/// Every character of `s` is a digit.
pub open spec fn all_digits(s: Seq<char>) -> bool {
    forall|i: int| 0 <= i < s.len() ==> #[trigger] is_digit(s[i])
}

/// The number written by the decimal digits `s` (0 for no digits).
pub open spec fn decimal_value(s: Seq<char>) -> int
    decreases s.len(),
{
    if s.len() == 0 {
        0
    } else {
        10 * decimal_value(s.drop_last()) + ((s.last() as u32) - 48)
    }
}

/// Where the digits of `s` start: after one leading `+`, if there is one.
pub open spec fn digits_start(s: Seq<char>) -> int {
    if s.len() > 0 && s[0] == '+' {
        1
    } else {
        0
    }
}

/// What `u8` the text `s` spells: an optional `+`, then at least one digit,
/// and nothing else, with a value of at most 255.
pub open spec fn parsed_u8(s: Seq<char>) -> Option<u8> {
    let d = s.subrange(digits_start(s), s.len() as int);
    if d.len() > 0 && all_digits(d) && decimal_value(d) <= 255 {
        Some(decimal_value(d) as u8)
    } else {
        None
    }
}

/// More digits never make a smaller number.
proof fn lemma_decimal_prefix(s: Seq<char>, j: int)
    requires
        all_digits(s),
        0 <= j <= s.len(),
    ensures
        0 <= decimal_value(s.subrange(0, j)) <= decimal_value(s),
    decreases s.len(),
{
    if s.len() > 0 {
        if j == s.len() {
            assert(s.subrange(0, j) =~= s);
            lemma_decimal_prefix(s.drop_last(), j - 1);
            assert(s.drop_last().subrange(0, j - 1) =~= s.drop_last());
            assert(is_digit(s[s.len() - 1]));
        } else {
            lemma_decimal_prefix(s.drop_last(), j);
            assert(s.drop_last().subrange(0, j) =~= s.subrange(0, j));
            lemma_decimal_prefix(s.drop_last(), s.len() - 1);
            assert(s.drop_last().subrange(0, s.len() - 1) =~= s.drop_last());
            assert(is_digit(s[s.len() - 1]));
        }
    } else {
        assert(s.subrange(0, j) =~= s);
    }
}

/// Reads a `u8` from `text` the way `str::parse::<u8>` does: an optional
/// leading `+` and one to any number of decimal digits whose value fits.
pub fn parse_u8(text: &str) -> (n: Option<u8>)
    ensures
        n == parsed_u8(text@),
{
    broadcast use vstd::string::axiom_spec_iter;

    let ghost s = text@;
    let ghost head = digits_start(s);
    let mut value: u16 = 0;
    let mut first = true;
    let mut any_digit = false;
    for c in it: text.chars()
        invariant
            s == text@,
            it.seq() == s,
            head == digits_start(s),
            first == (it.index() == 0),
            it.index() < head ==> value == 0 && !any_digit,
            head <= it.index() ==> {
                &&& all_digits(s.subrange(head, it.index() as int))
                &&& value == decimal_value(s.subrange(head, it.index() as int))
                &&& value <= 255
                &&& any_digit == (it.index() > head)
            },
    {
        let ghost idx = it.index() as int;
        assert(c == s[idx]);
        if first && c == '+' {
            assert(head == 1);
        } else {
            assert(idx >= head);
            let code = c as u32;
            if code < 48 || code > 57 {
                proof {
                    let d = s.subrange(head, s.len() as int);
                    assert(d[idx - head] == c);
                    assert(!is_digit(d[idx - head]));
                }
                return None;
            }
            let ghost prev = s.subrange(head, idx);
            let ghost next = s.subrange(head, idx + 1);
            assert(next.drop_last() =~= prev);
            assert(next.last() == c);
            value = value * 10 + ((code - 48) as u16);
            if value > 255 {
                proof {
                    let d = s.subrange(head, s.len() as int);
                    if all_digits(d) {
                        lemma_decimal_prefix(d, idx + 1 - head);
                        assert(d.subrange(0, idx + 1 - head) =~= next);
                    }
                }
                return None;
            }
            any_digit = true;
        }
        first = false;
    }
    if any_digit {
        Some(value as u8)
    } else {
        None
    }
}

// ---------------------------------------------------------------------
// The narrator's script for the first night.
// ---------------------------------------------------------------------

/// The recorded announcements the narrator plays.
#[derive(Debug, Clone, Copy, PartialEq, Eq, Structural)]
pub enum Sound {
    CheckRole,
    PlayersCloseEyes,
    SeerOpenEye,
    SeerVerify,
    SeerCloseEye,
    WolfKill,
    WolfCloseEye,
    WitchOpenEye,
    WitchCloseEye,
    HunterOpenEye,
    HunterCloseEye,
    PlayersOpenEye,
}

/// What the narrator tells one player in private.
#[derive(Debug, Clone, Copy, PartialEq, Eq, Structural)]
pub enum Note {
    /// Your number and your card.
    YourCard { number: u8, role: Role },
    /// Seer, choose a player to check.
    SeerPrompt,
    /// The checked player is a wolf, or is not.
    SeerVerdict { wolf: bool },
    /// This player fell tonight.
    Fallen { number: u8 },
    /// Use the antidote? 20 for yes, 21 for no.
    AntidoteQuestion,
    /// Use the poison? 20 for yes, 21 for no.
    PoisonQuestion,
    /// Choose a number from 1 to `last`.
    PoisonRange { last: u8 },
    /// Whether the hunter may shoot.
    HunterGun { can_shoot: bool },
}

/// One thing for the narrator to do, in order.
#[derive(Debug, Clone, Copy, PartialEq, Eq, Structural)]
pub enum Action {
    Play(Sound),
    /// Wait this many seconds.
    Pause(u64),
    Tell { to: u8, note: Note },
    /// Tell everybody who died in the night.
    AnnounceDeaths,
}

/// Where the night stands: which reply the narrator waits for next.
#[derive(Debug, Clone, Copy, PartialEq, Eq, Structural)]
pub enum Phase {
    /// Waiting for the word `ready`.
    AwaitReady,
    /// The cards are out; waiting for anybody to go on.
    AwaitRolesSeen,
    /// Waiting for the number the seer checks.
    AwaitSeerTarget { seer: u8 },
    /// Waiting for the number the wolves kill.
    AwaitWolfTarget,
    /// Waiting for the witch's answer about the antidote.
    AwaitAntidote { witch: u8, fallen: u8, witch_status: Status },
    /// Waiting for the witch's answer about the poison.
    AwaitPoisonChoice { witch: u8 },
    /// Waiting for the number the witch poisons.
    AwaitPoisonTarget,
    /// Waiting for anybody to go on after the hunter's turn.
    AwaitHunterDone,
    /// Waiting for anybody to go on at dawn.
    AwaitDawn,
    /// The night ended normally.
    Over,
    /// A reply that should have been a number was not one.
    Aborted,
}

/// The first night of a game.
#[derive(Debug)]
pub struct Night {
    pub phase: Phase,
    pub game: Game,
}

/// Each player, in increasing order of number below `n`, is told its number and card.
pub open spec fn card_notes(players: Map<u8, Player>, n: int) -> Seq<Action>
    decreases n,
{
    if n <= 0 {
        Seq::empty()
    } else {
        let earlier = card_notes(players, n - 1);
        let k = (n - 1) as u8;
        if players.contains_key(k) {
            earlier.push(
                Action::Tell {
                    to: k,
                    note: Note::YourCard { number: players[k].number, role: players[k].role },
                },
            )
        } else {
            earlier
        }
    }
}

/// The witch closes her eyes and the hunter learns whether he may shoot.
pub open spec fn hunter_turn(players: Map<u8, Player>) -> Seq<Action> {
    let hunter = holder(players, Role::Hunter);
    seq![
        Action::Play(Sound::WitchCloseEye),
        Action::Pause(6),
        Action::Play(Sound::HunterOpenEye),
        Action::Tell {
            to: hunter,
            note: Note::HunterGun { can_shoot: players[hunter].status != Status::POISONED },
        },
    ]
}

/// One step of the night: from the phase, the players, the number of
/// players and the text of the reply, the next phase, the players after it
/// and what the narrator does.
pub open spec fn night_step(phase: Phase, players: Map<u8, Player>, p_num: u8, text: Seq<char>) -> (
    Phase,
    Map<u8, Player>,
    Seq<Action>,
) {
    match phase {
        Phase::AwaitReady => {
            if text == "ready"@ {
                (
                    Phase::AwaitRolesSeen,
                    players,
                    card_notes(players, 256).push(Action::Play(Sound::CheckRole)),
                )
            } else {
                (Phase::Over, players, Seq::empty())
            }
        },
        Phase::AwaitRolesSeen => {
            let seer = holder(players, Role::Seer);
            (
                Phase::AwaitSeerTarget { seer },
                players,
                seq![
                    Action::Play(Sound::PlayersCloseEyes),
                    Action::Pause(3),
                    Action::Play(Sound::SeerOpenEye),
                    Action::Play(Sound::SeerVerify),
                    Action::Tell { to: seer, note: Note::SeerPrompt },
                ],
            )
        },
        Phase::AwaitSeerTarget { seer } => match parsed_u8(text) {
            None => (Phase::Aborted, players, Seq::empty()),
            Some(target) => (
                Phase::AwaitWolfTarget,
                players,
                seq![
                    Action::Tell {
                        to: seer,
                        note: Note::SeerVerdict {
                            wolf: players.contains_key(target) && players[target].role == Role::Wolf,
                        },
                    },
                    Action::Pause(3),
                    Action::Play(Sound::SeerCloseEye),
                    Action::Pause(3),
                    Action::Play(Sound::WolfKill),
                ],
            ),
        },
        Phase::AwaitWolfTarget => match parsed_u8(text) {
            None => (Phase::Aborted, players, Seq::empty()),
            Some(target) => {
                let after = with_status(players, target, Status::KILLED);
                let witch = holder(after, Role::Witch);
                (
                    Phase::AwaitAntidote { witch, fallen: target, witch_status: after[witch].status },
                    after,
                    seq![
                        Action::Play(Sound::WolfCloseEye),
                        Action::Pause(3),
                        Action::Play(Sound::WitchOpenEye),
                        Action::Tell { to: witch, note: Note::Fallen { number: target } },
                        Action::Tell { to: witch, note: Note::AntidoteQuestion },
                    ],
                )
            },
        },
        Phase::AwaitAntidote { witch, fallen, witch_status } => match parsed_u8(text) {
            None => (Phase::Aborted, players, Seq::empty()),
            Some(answer) => {
                if answer == 20 && witch_status != Status::KILLED {
                    let after = after_potion(players, fallen, Status::LIVED);
                    (Phase::AwaitHunterDone, after, hunter_turn(after))
                } else {
                    (
                        Phase::AwaitPoisonChoice { witch },
                        players,
                        seq![Action::Tell { to: witch, note: Note::PoisonQuestion }],
                    )
                }
            },
        },
        Phase::AwaitPoisonChoice { witch } => match parsed_u8(text) {
            None => (Phase::Aborted, players, Seq::empty()),
            Some(answer) => {
                if answer == 20 {
                    (
                        Phase::AwaitPoisonTarget,
                        players,
                        seq![Action::Tell { to: witch, note: Note::PoisonRange { last: p_num } }],
                    )
                } else {
                    (Phase::AwaitHunterDone, players, hunter_turn(players))
                }
            },
        },
        Phase::AwaitPoisonTarget => match parsed_u8(text) {
            None => (Phase::Aborted, players, Seq::empty()),
            Some(target) => {
                let after = after_potion(players, target, Status::POISONED);
                (Phase::AwaitHunterDone, after, hunter_turn(after))
            },
        },
        Phase::AwaitHunterDone => (
            Phase::AwaitDawn,
            players,
            seq![
                Action::Play(Sound::HunterCloseEye),
                Action::Pause(3),
                Action::Play(Sound::PlayersOpenEye),
            ],
        ),
        Phase::AwaitDawn => (Phase::Over, players, seq![Action::AnnounceDeaths]),
        Phase::Over => (Phase::Over, players, Seq::empty()),
        Phase::Aborted => (Phase::Aborted, players, Seq::empty()),
    }
}

impl Night {
    /// The night of `game`, before anybody said `ready`.
    pub fn new(game: Game) -> (night: Night)
        requires
            game.well_formed(),
        ensures
            night.phase == Phase::AwaitReady,
            night.game == game,
    {
        Night { phase: Phase::AwaitReady, game }
    }

    /// Each player, in increasing order of number, is told its number and card.
    fn card_notes(&self) -> (notes: Vec<Action>)
        ensures
            notes@ == card_notes(self.game.players@, 256),
    {
        let mut notes: Vec<Action> = Vec::new();
        let mut n: u16 = 0;
        while n < 256
            invariant
                n <= 256,
                notes@ == card_notes(self.game.players@, n as int),
            decreases 256 - n,
        {
            let k: u8 = n as u8;
            if let Some(player) = self.game.players.get(&k) {
                notes.push(
                    Action::Tell {
                        to: k,
                        note: Note::YourCard { number: player.number, role: player.role },
                    },
                );
            }
            n = n + 1;
        }
        notes
    }

    /// The witch closes her eyes and the hunter learns whether he may shoot.
    fn hunter_turn(&self) -> (acts: Vec<Action>)
        requires
            self.game.well_formed(),
        ensures
            acts@ == hunter_turn(self.game.players@),
    {
        proof {
            lemma_single_holder(&self.game, Role::Hunter);
        }
        let mut acts: Vec<Action> = Vec::new();
        acts.push(Action::Play(Sound::WitchCloseEye));
        acts.push(Action::Pause(6));
        acts.push(Action::Play(Sound::HunterOpenEye));
        match self.game.get_hunter() {
            Some(hunter) => {
                acts.push(
                    Action::Tell {
                        to: hunter.number,
                        note: Note::HunterGun { can_shoot: hunter.status != Status::POISONED },
                    },
                );
            },
            None => {},
        }
        acts
    }

    /// Takes the reply `msg` and moves the night on: the phase advances, the
    /// game changes as the night's actions say, and the narrator's next
    /// actions come back in order (see `night_step`).
    pub fn step(&mut self, msg: &Msg) -> (acts: Vec<Action>)
        requires
            old(self).game.well_formed(),
        ensures
            ({
                let (phase, players, expected) = night_step(
                    old(self).phase,
                    old(self).game.players@,
                    old(self).game.p_num,
                    msg.user_msg@,
                );
                &&& final(self).phase == phase
                &&& final(self).game.players@ == players
                &&& acts@ == expected
            }),
            final(self).game.v_num == old(self).game.v_num,
            final(self).game.w_num == old(self).game.w_num,
            final(self).game.p_num == old(self).game.p_num,
            final(self).game.well_formed(),
    {
        let mut acts: Vec<Action> = Vec::new();
        match self.phase {
            Phase::AwaitReady => {
                let ready: String = "ready".to_owned();
                if msg.user_msg == ready {
                    acts = self.card_notes();
                    acts.push(Action::Play(Sound::CheckRole));
                    self.phase = Phase::AwaitRolesSeen;
                } else {
                    self.phase = Phase::Over;
                }
            },
            Phase::AwaitRolesSeen => {
                proof {
                    lemma_single_holder(&self.game, Role::Seer);
                }
                acts.push(Action::Play(Sound::PlayersCloseEyes));
                acts.push(Action::Pause(3));
                acts.push(Action::Play(Sound::SeerOpenEye));
                acts.push(Action::Play(Sound::SeerVerify));
                let seer = match self.game.get_seer() {
                    Some(player) => player.number,
                    None => 0,
                };
                acts.push(Action::Tell { to: seer, note: Note::SeerPrompt });
                self.phase = Phase::AwaitSeerTarget { seer };
            },
            Phase::AwaitSeerTarget { seer } => {
                match parse_u8(msg.user_msg.as_str()) {
                    None => {
                        self.phase = Phase::Aborted;
                    },
                    Some(target) => {
                        let wolf = self.game.seer_action(target);
                        acts.push(Action::Tell { to: seer, note: Note::SeerVerdict { wolf } });
                        acts.push(Action::Pause(3));
                        acts.push(Action::Play(Sound::SeerCloseEye));
                        acts.push(Action::Pause(3));
                        acts.push(Action::Play(Sound::WolfKill));
                        self.phase = Phase::AwaitWolfTarget;
                    },
                }
            },
            Phase::AwaitWolfTarget => {
                match parse_u8(msg.user_msg.as_str()) {
                    None => {
                        self.phase = Phase::Aborted;
                    },
                    Some(target) => {
                        self.game.wolf_action(target);
                        proof {
                            lemma_single_holder(&self.game, Role::Witch);
                        }
                        acts.push(Action::Play(Sound::WolfCloseEye));
                        acts.push(Action::Pause(3));
                        acts.push(Action::Play(Sound::WitchOpenEye));
                        let (witch, witch_status) = match self.game.get_witch() {
                            Some(player) => (player.number, player.status),
                            None => (0, Status::LIVED),
                        };
                        acts.push(Action::Tell { to: witch, note: Note::Fallen { number: target } });
                        acts.push(Action::Tell { to: witch, note: Note::AntidoteQuestion });
                        self.phase = Phase::AwaitAntidote { witch, fallen: target, witch_status };
                    },
                }
            },
            Phase::AwaitAntidote { witch, fallen, witch_status } => {
                match parse_u8(msg.user_msg.as_str()) {
                    None => {
                        self.phase = Phase::Aborted;
                    },
                    Some(answer) => {
                        if answer == 20 && witch_status != Status::KILLED {
                            self.game.witch_action(fallen, Status::LIVED);
                            acts = self.hunter_turn();
                            self.phase = Phase::AwaitHunterDone;
                        } else {
                            acts.push(Action::Tell { to: witch, note: Note::PoisonQuestion });
                            self.phase = Phase::AwaitPoisonChoice { witch };
                        }
                    },
                }
            },
            Phase::AwaitPoisonChoice { witch } => {
                match parse_u8(msg.user_msg.as_str()) {
                    None => {
                        self.phase = Phase::Aborted;
                    },
                    Some(answer) => {
                        if answer == 20 {
                            acts.push(
                                Action::Tell {
                                    to: witch,
                                    note: Note::PoisonRange { last: self.game.p_num },
                                },
                            );
                            self.phase = Phase::AwaitPoisonTarget;
                        } else {
                            acts = self.hunter_turn();
                            self.phase = Phase::AwaitHunterDone;
                        }
                    },
                }
            },
            Phase::AwaitPoisonTarget => {
                match parse_u8(msg.user_msg.as_str()) {
                    None => {
                        self.phase = Phase::Aborted;
                    },
                    Some(target) => {
                        self.game.witch_action(target, Status::POISONED);
                        acts = self.hunter_turn();
                        self.phase = Phase::AwaitHunterDone;
                    },
                }
            },
            Phase::AwaitHunterDone => {
                acts.push(Action::Play(Sound::HunterCloseEye));
                acts.push(Action::Pause(3));
                acts.push(Action::Play(Sound::PlayersOpenEye));
                self.phase = Phase::AwaitDawn;
            },
            Phase::AwaitDawn => {
                acts.push(Action::AnnounceDeaths);
                self.phase = Phase::Over;
            },
            Phase::Over => {},
            Phase::Aborted => {},
        }
        proof {
            let (phase, players, expected) = night_step(
                old(self).phase,
                old(self).game.players@,
                old(self).game.p_num,
                msg.user_msg@,
            );
            assert(acts@ =~= expected);
        }
        acts
    }
}

} // verus!
