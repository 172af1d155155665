use vstd::prelude::*;
use crate::types::{Game, Player, Role, Status, role_at, is_seating, dealt_by, holder, with_status};
use crate::actions::{after_potion, fallen_below};
use crate::game::{
    Action, Note, Phase, card_notes, hunter_turn, night_step, parsed_u8, is_digit, all_digits,
    decimal_value, digits_start,
};
use crate::chat::{digit_char, decimal_text};

verus! {

/// The numbers of the players holding `role`.
pub open spec fn seats_of(players: Map<u8, Player>, role: Role) -> Set<u8> {
    players.dom().filter(|k: u8| players[k].role == role)
}

/// The players holding the role dealt to positions `lo..hi` of a seating,
/// and no other position, are `hi - lo` in number.
proof fn lemma_seats_of_positions(
    players: Map<u8, Player>,
    order: Seq<u8>,
    v: int,
    w: int,
    p: int,
    role: Role,
    lo: int,
    hi: int,
)
    requires
        is_seating(order, p),
        dealt_by(players, order, v, w),
        0 <= lo <= hi <= p,
        forall|i: int| 0 <= i < p ==> (role_at(v, w, i) == role <==> lo <= i < hi),
    ensures
        seats_of(players, role).len() == hi - lo,
{
    let part = order.subrange(lo, hi);
    assert(part.no_duplicates()) by {
        assert forall|i: int, j: int| 0 <= i < part.len() && 0 <= j < part.len() && i != j
            implies part[i] != part[j] by {
            assert(part[i] == order[lo + i] && part[j] == order[lo + j]);
        }
    }
    part.unique_seq_to_set();
    assert forall|k: u8| #[trigger] seats_of(players, role).contains(k) <==> part.to_set().contains(
        k,
    ) by {
        if seats_of(players, role).contains(k) {
            assert(players.contains_key(k));
            assert(order.contains(k));
            let i = choose|i: int| 0 <= i < order.len() && order[i] == k;
            assert(players[order[i]].role == role_at(v, w, i));
            assert(part[i - lo] == k);
            assert(part.contains(k));
        }
        if part.to_set().contains(k) {
            assert(part.contains(k));
            let j = choose|j: int| 0 <= j < part.len() && part[j] == k;
            assert(order[lo + j] == k);
            assert(order.contains(k));
            assert(players[order[lo + j]].role == role_at(v, w, lo + j));
        }
    }
    assert(seats_of(players, role) =~= part.to_set());
}

/// A well-formed game seats exactly the numbers `1..=p_num` and holds
/// `v_num` villagers, `w_num` wolves, one seer, one witch and one hunter.
pub proof fn law_role_census(game: &Game)
    requires
        game.well_formed(),
    ensures
        forall|k: u8| #[trigger] game.players@.contains_key(k) <==> 1 <= k <= game.p_num,
        forall|k: u8| #[trigger]
            game.players@.contains_key(k) ==> game.players@[k].number == k,
        game.players@.dom().len() == game.p_num,
        seats_of(game.players@, Role::Villager).len() == game.v_num,
        seats_of(game.players@, Role::Wolf).len() == game.w_num,
        seats_of(game.players@, Role::Seer).len() == 1,
        seats_of(game.players@, Role::Witch).len() == 1,
        seats_of(game.players@, Role::Hunter).len() == 1,
{
    let m = game.players@;
    let v = game.v_num as int;
    let w = game.w_num as int;
    let p = game.p_num as int;
    let order = choose|order: Seq<u8>| #[trigger] is_seating(order, p) && dealt_by(m, order, v, w);
    assert forall|k: u8| #[trigger] m.contains_key(k) implies m[k].number == k by {
        assert(order.contains(k));
        let i = choose|i: int| 0 <= i < order.len() && order[i] == k;
        assert(m[order[i]].number == order[i]);
    }
    order.unique_seq_to_set();
    assert(m.dom() =~= order.to_set());
    lemma_seats_of_positions(m, order, v, w, p, Role::Villager, 0, v);
    lemma_seats_of_positions(m, order, v, w, p, Role::Wolf, v, v + w);
    lemma_seats_of_positions(m, order, v, w, p, Role::Seer, v + w, v + w + 1);
    lemma_seats_of_positions(m, order, v, w, p, Role::Witch, v + w + 1, v + w + 2);
    lemma_seats_of_positions(m, order, v, w, p, Role::Hunter, v + w + 2, v + w + 3);
}

/// A status change never adds or removes a player, and never changes a
/// player's number or role; only the named player's status changes.
pub proof fn law_status_change_keeps_cast(players: Map<u8, Player>, n: u8, status: Status)
    ensures
        with_status(players, n, status).dom() == players.dom(),
        forall|k: u8| #[trigger]
            players.contains_key(k) ==> with_status(players, n, status)[k].number
                == players[k].number && with_status(players, n, status)[k].role
                == players[k].role,
        forall|k: u8| #[trigger]
            players.contains_key(k) && k != n ==> with_status(players, n, status)[k]
                == players[k],
        players.contains_key(n) ==> with_status(players, n, status)[n].status == status,
{
    assert(with_status(players, n, status).dom() =~= players.dom());
}

/// Of two status changes of the same player, the later one wins.
pub proof fn law_last_status_wins(players: Map<u8, Player>, n: u8, first: Status, second: Status)
    ensures
        with_status(with_status(players, n, first), n, second) == with_status(players, n, second),
{
    assert(with_status(with_status(players, n, first), n, second) =~= with_status(
        players,
        n,
        second,
    ));
}

/// Status changes of two different players can be made in either order.
pub proof fn law_status_changes_commute(
    players: Map<u8, Player>,
    n1: u8,
    s1: Status,
    n2: u8,
    s2: Status,
)
    requires
        n1 != n2,
    ensures
        with_status(with_status(players, n1, s1), n2, s2) == with_status(
            with_status(players, n2, s2),
            n1,
            s1,
        ),
{
    assert(with_status(with_status(players, n1, s1), n2, s2) =~= with_status(
        with_status(players, n2, s2),
        n1,
        s1,
    ));
}

/// The witch's potion never acts on a witch.
pub proof fn law_potion_spares_witch(players: Map<u8, Player>, n: u8, status: Status)
    requires
        players.contains_key(n),
        players[n].role == Role::Witch,
    ensures
        after_potion(players, n, status) == players,
{
}

/// A step of the night never adds or removes a player and never changes a
/// player's number or role.
pub proof fn law_night_keeps_cast(phase: Phase, players: Map<u8, Player>, p_num: u8, text: Seq<char>)
    ensures
        night_step(phase, players, p_num, text).1.dom() == players.dom(),
        forall|k: u8| #[trigger]
            players.contains_key(k) ==> night_step(phase, players, p_num, text).1[k].number
                == players[k].number && night_step(phase, players, p_num, text).1[k].role
                == players[k].role,
{
    let after = night_step(phase, players, p_num, text).1;
    match parsed_u8(text) {
        Some(n) => {
            law_status_change_keeps_cast(players, n, Status::KILLED);
            law_status_change_keeps_cast(players, n, Status::POISONED);
            match phase {
                Phase::AwaitAntidote { witch, fallen, witch_status } => {
                    law_status_change_keeps_cast(players, fallen, Status::LIVED);
                },
                _ => {},
            }
        },
        None => {},
    }
    assert(after.dom() =~= players.dom());
}

/// Once the night is over or aborted, replies change nothing and the
/// narrator does nothing more.
pub proof fn law_night_settles(phase: Phase, players: Map<u8, Player>, p_num: u8, text: Seq<char>)
    requires
        phase == Phase::Over || phase == Phase::Aborted,
    ensures
        night_step(phase, players, p_num, text) == (phase, players, Seq::<crate::game::Action>::empty()),
{
}

/// Where the narrator waits for a number, a reply that is not one aborts
/// the night, leaving the players as they were, and nothing more is done.
pub proof fn law_night_aborts_on_garbage(
    phase: Phase,
    players: Map<u8, Player>,
    p_num: u8,
    text: Seq<char>,
)
    requires
        parsed_u8(text) is None,
        phase is AwaitSeerTarget || phase is AwaitWolfTarget || phase is AwaitAntidote
            || phase is AwaitPoisonChoice || phase is AwaitPoisonTarget,
    ensures
        night_step(phase, players, p_num, text) == (
            Phase::Aborted,
            players,
            Seq::<crate::game::Action>::empty(),
        ),
{
}


/// The witch's potion aimed at any player other than a witch gives that
/// player the potion's status and touches nobody else.
pub proof fn law_potion_reaches_others(players: Map<u8, Player>, n: u8, status: Status)
    requires
        players.contains_key(n),
        players[n].role != Role::Witch,
    ensures
        after_potion(players, n, status).dom() == players.dom(),
        after_potion(players, n, status)[n] == (Player { status, ..players[n] }),
        forall|k: u8| #[trigger]
            players.contains_key(k) && k != n ==> after_potion(players, n, status)[k]
                == players[k],
{
    assert(after_potion(players, n, status).dom() =~= players.dom());
}

/// On the hunter's turn the hunter is told he may shoot unless he is
/// poisoned: alive or killed by the wolves, he still shoots.
pub proof fn law_hunter_may_shoot_unless_poisoned(players: Map<u8, Player>)
    ensures
        hunter_turn(players).len() == 4,
        (hunter_turn(players)[3] matches Action::Tell { to, note: Note::HunterGun { can_shoot } }
            && to == holder(players, Role::Hunter) && (can_shoot <==> (players[holder(
            players,
            Role::Hunter,
        )].status == Status::LIVED || players[holder(players, Role::Hunter)].status
            == Status::KILLED))),
{
}

/// The seer's verdict in the night says "wolf" exactly for a seated wolf:
/// a villager, the seer, the witch, the hunter or an empty seat is "not a wolf".
pub proof fn law_seer_verdict(seer: u8, players: Map<u8, Player>, p_num: u8, text: Seq<char>)
    requires
        parsed_u8(text) is Some,
    ensures
        ({
            let target = parsed_u8(text)->0;
            let acts = night_step(Phase::AwaitSeerTarget { seer }, players, p_num, text).2;
            &&& acts.len() > 0
            &&& acts[0] matches Action::Tell { to, note: Note::SeerVerdict { wolf } }
            &&& acts[0]->to == seer
            &&& (players.contains_key(target) && players[target].role == Role::Wolf
                ==> acts[0]->note == Note::SeerVerdict { wolf: true })
            &&& (!players.contains_key(target) || players[target].role == Role::Villager
                || players[target].role == Role::Seer || players[target].role == Role::Witch
                || players[target].role == Role::Hunter ==> acts[0]->note == Note::SeerVerdict {
                wolf: false,
            })
        }),
{
}

/// The keys below `n` whose players are not alive, in increasing order, and
/// the fallen list is their players.
proof fn lemma_fallen_keys(players: Map<u8, Player>, n: int) -> (keys: Seq<u8>)
    requires
        0 <= n <= 256,
    ensures
        keys.len() == fallen_below(players, n).len(),
        forall|i: int|
            0 <= i < keys.len() ==> players.contains_key(#[trigger] keys[i]) && players[keys[i]]
                == fallen_below(players, n)[i] && players[keys[i]].status != Status::LIVED
                && keys[i] < n,
        forall|i: int, j: int| 0 <= i < j < keys.len() ==> keys[i] < keys[j],
        forall|k: u8|
            k < n && #[trigger] players.contains_key(k) && players[k].status != Status::LIVED
                ==> fallen_below(players, n).contains(players[k]),
    decreases n,
{
    if n <= 0 {
        Seq::empty()
    } else {
        let prev = lemma_fallen_keys(players, n - 1);
        let earlier = fallen_below(players, n - 1);
        let k0 = (n - 1) as u8;
        if players.contains_key(k0) && players[k0].status != Status::LIVED {
            let keys = prev.push(k0);
            let now = earlier.push(players[k0]);
            assert forall|k: u8|
                k < n && #[trigger] players.contains_key(k) && players[k].status
                    != Status::LIVED implies now.contains(players[k]) by {
                if k == k0 {
                    assert(now[now.len() - 1] == players[k]);
                } else {
                    assert(earlier.contains(players[k]));
                    let i = choose|i: int| 0 <= i < earlier.len() && earlier[i] == players[k];
                    assert(now[i] == players[k]);
                }
            }
            keys
        } else {
            prev
        }
    }
}

/// At dawn the fallen are announced: every player who is not alive (killed
/// or poisoned, whatever the card) is in the list, the list holds nobody
/// else, and it goes in increasing order of seat, each seat once.
pub proof fn law_death_list(players: Map<u8, Player>)
    ensures
        forall|k: u8| #[trigger]
            players.contains_key(k) && (players[k].status == Status::KILLED || players[k].status
                == Status::POISONED) ==> fallen_below(players, 256).contains(players[k]),
        exists|keys: Seq<u8>|
            #[trigger] keys.len() == fallen_below(players, 256).len() && (forall|i: int|
                0 <= i < keys.len() ==> players.contains_key(#[trigger] keys[i])
                    && players[keys[i]] == fallen_below(players, 256)[i] && (players[keys[i]].status
                    == Status::KILLED || players[keys[i]].status == Status::POISONED)) && (forall|
                i: int,
                j: int,
            | 0 <= i < j < keys.len() ==> keys[i] < keys[j]),
{
    let keys = lemma_fallen_keys(players, 256);
    assert forall|i: int| 0 <= i < keys.len() implies players.contains_key(#[trigger] keys[i])
        && players[keys[i]] == fallen_below(players, 256)[i] && (players[keys[i]].status
        == Status::KILLED || players[keys[i]].status == Status::POISONED) by {
        assert(players[keys[i]].status != Status::LIVED);
    }
}

/// The card note due to seat `k`: its number and its role.
pub open spec fn card_note(players: Map<u8, Player>, k: u8) -> Action {
    Action::Tell { to: k, note: Note::YourCard { number: players[k].number, role: players[k].role } }
}

/// The seated keys below `n`, in increasing order, and the notes are theirs.
proof fn lemma_card_keys(players: Map<u8, Player>, n: int) -> (keys: Seq<u8>)
    requires
        0 <= n <= 256,
    ensures
        keys.len() == card_notes(players, n).len(),
        forall|i: int|
            0 <= i < keys.len() ==> players.contains_key(#[trigger] keys[i]) && card_notes(
                players,
                n,
            )[i] == card_note(players, keys[i]) && keys[i] < n,
        forall|i: int, j: int| 0 <= i < j < keys.len() ==> keys[i] < keys[j],
        forall|k: u8|
            k < n && #[trigger] players.contains_key(k) ==> card_notes(players, n).contains(
                card_note(players, k),
            ),
    decreases n,
{
    if n <= 0 {
        Seq::empty()
    } else {
        let prev = lemma_card_keys(players, n - 1);
        let earlier = card_notes(players, n - 1);
        let k0 = (n - 1) as u8;
        if players.contains_key(k0) {
            let keys = prev.push(k0);
            let now = earlier.push(card_note(players, k0));
            assert(card_notes(players, n) == now);
            assert forall|k: u8| k < n && #[trigger] players.contains_key(k) implies now.contains(
                card_note(players, k),
            ) by {
                if k == k0 {
                    assert(now[now.len() - 1] == card_note(players, k));
                } else {
                    assert(earlier.contains(card_note(players, k)));
                    let i = choose|i: int|
                        0 <= i < earlier.len() && earlier[i] == card_note(players, k);
                    assert(now[i] == card_note(players, k));
                }
            }
            keys
        } else {
            prev
        }
    }
}

/// When everybody is ready, every seated player is told its own number and
/// card, once, in increasing order of seat; then the narrator plays the
/// card-check announcement. Nobody else is told anything.
pub proof fn law_everybody_learns_their_card(players: Map<u8, Player>, p_num: u8)
    ensures
        ({
            let acts = night_step(Phase::AwaitReady, players, p_num, "ready"@).2;
            &&& acts.len() >= 1
            &&& acts.last() == Action::Play(crate::game::Sound::CheckRole)
            &&& forall|k: u8| #[trigger]
                players.contains_key(k) ==> acts.contains(
                    Action::Tell {
                        to: k,
                        note: Note::YourCard { number: players[k].number, role: players[k].role },
                    },
                )
            &&& exists|keys: Seq<u8>|
                #[trigger] keys.len() == acts.len() - 1 && (forall|i: int|
                    0 <= i < keys.len() ==> players.contains_key(#[trigger] keys[i]) && acts[i]
                        == Action::Tell {
                        to: keys[i],
                        note: Note::YourCard {
                            number: players[keys[i]].number,
                            role: players[keys[i]].role,
                        },
                    }) && (forall|i: int, j: int| 0 <= i < j < keys.len() ==> keys[i] < keys[j])
        }),
{
    let notes = card_notes(players, 256);
    let acts = notes.push(Action::Play(crate::game::Sound::CheckRole));
    assert(night_step(Phase::AwaitReady, players, p_num, "ready"@).2 == acts);
    let keys = lemma_card_keys(players, 256);
    assert forall|k: u8| #[trigger] players.contains_key(k) implies acts.contains(
        Action::Tell {
            to: k,
            note: Note::YourCard { number: players[k].number, role: players[k].role },
        },
    ) by {
        assert(notes.contains(card_note(players, k)));
        let i = choose|i: int| 0 <= i < notes.len() && notes[i] == card_note(players, k);
        assert(acts[i] == card_note(players, k));
    }
    assert forall|i: int| 0 <= i < keys.len() implies players.contains_key(#[trigger] keys[i])
        && acts[i] == Action::Tell {
        to: keys[i],
        note: Note::YourCard { number: players[keys[i]].number, role: players[keys[i]].role },
    } by {
        assert(acts[i] == notes[i]);
    }
}

/// The wolves' choice kills exactly that player (if seated), and the witch,
/// asked next, is told that number and asked about the antidote.
pub proof fn law_wolves_kill(players: Map<u8, Player>, p_num: u8, text: Seq<char>)
    requires
        parsed_u8(text) is Some,
    ensures
        ({
            let target = parsed_u8(text)->0;
            let (phase, after, acts) = night_step(Phase::AwaitWolfTarget, players, p_num, text);
            &&& after.dom() == players.dom()
            &&& players.contains_key(target) ==> after[target].status == Status::KILLED
                && after[target].role == players[target].role
            &&& forall|k: u8| #[trigger]
                players.contains_key(k) && k != target ==> after[k] == players[k]
            &&& phase matches Phase::AwaitAntidote { witch, fallen, witch_status }
            &&& phase->AwaitAntidote_fallen == target
            &&& acts.contains(
                Action::Tell { to: phase->AwaitAntidote_witch, note: Note::Fallen { number: target } },
            )
            &&& acts.contains(Action::Tell { to: phase->AwaitAntidote_witch, note: Note::AntidoteQuestion })
        }),
{
    let target = parsed_u8(text)->0;
    let (phase, after, acts) = night_step(Phase::AwaitWolfTarget, players, p_num, text);
    law_status_change_keeps_cast(players, target, Status::KILLED);
    assert(acts[3] == Action::Tell { to: phase->AwaitAntidote_witch, note: Note::Fallen { number: target } });
    assert(acts[4] == Action::Tell { to: phase->AwaitAntidote_witch, note: Note::AntidoteQuestion });
}

/// Saying 20 to the antidote, while the witch is not killed, brings the
/// fallen player (other than a witch) back to life; a killed witch, or any
/// other answer, leaves everybody as they were and moves on to the poison.
pub proof fn law_antidote(
    witch: u8,
    fallen: u8,
    witch_status: Status,
    players: Map<u8, Player>,
    p_num: u8,
    text: Seq<char>,
)
    requires
        parsed_u8(text) is Some,
    ensures
        ({
            let answer = parsed_u8(text)->0;
            let (phase, after, acts) = night_step(
                Phase::AwaitAntidote { witch, fallen, witch_status },
                players,
                p_num,
                text,
            );
            &&& answer == 20 && witch_status != Status::KILLED && players.contains_key(fallen)
                && players[fallen].role != Role::Witch ==> after[fallen].status == Status::LIVED
                && phase == Phase::AwaitHunterDone
            &&& (answer != 20 || witch_status == Status::KILLED) ==> after == players && phase
                == Phase::AwaitPoisonChoice { witch } && acts == seq![
                Action::Tell { to: witch, note: Note::PoisonQuestion },
            ]
        }),
{
}

/// The poison sets the chosen player (other than a witch) to poisoned and
/// leaves everybody else as they were.
pub proof fn law_poison(players: Map<u8, Player>, p_num: u8, text: Seq<char>)
    requires
        parsed_u8(text) is Some,
    ensures
        ({
            let target = parsed_u8(text)->0;
            let (phase, after, acts) = night_step(Phase::AwaitPoisonTarget, players, p_num, text);
            &&& phase == Phase::AwaitHunterDone
            &&& players.contains_key(target) && players[target].role != Role::Witch
                ==> after[target].status == Status::POISONED
            &&& forall|k: u8| #[trigger]
                players.contains_key(k) && k != target ==> after[k] == players[k]
        }),
{
}

/// Each digit character is a digit and stands for its own value.
proof fn lemma_digit_char(d: int)
    requires
        0 <= d < 10,
    ensures
        is_digit(digit_char(d)),
        (digit_char(d) as u32) - 48 == d,
        digit_char(d) != '+',
{
    assert(('0' as u32) == 48 && ('1' as u32) == 49 && ('2' as u32) == 50 && ('3' as u32) == 51);
    assert(('4' as u32) == 52 && ('5' as u32) == 53 && ('6' as u32) == 54 && ('7' as u32) == 55);
    assert(('8' as u32) == 56 && ('9' as u32) == 57);
}

/// The decimal writing of `n` is all digits, at least one, and reads back as `n`.
proof fn lemma_decimal_text(n: nat)
    ensures
        decimal_text(n).len() > 0,
        all_digits(decimal_text(n)),
        decimal_value(decimal_text(n)) == n,
    decreases n,
{
    let t = decimal_text(n);
    if n < 10 {
        lemma_digit_char(n as int);
        assert(t.drop_last() =~= Seq::<char>::empty());
        assert(t.last() == digit_char(n as int));
        assert(decimal_value(Seq::<char>::empty()) == 0);
    } else {
        lemma_decimal_text(n / 10);
        lemma_digit_char((n % 10) as int);
        let head = decimal_text(n / 10);
        assert(t.drop_last() =~= head);
        assert(t.last() == digit_char((n % 10) as int));
        assert(10 * (n / 10) + n % 10 == n);
        assert forall|i: int| 0 <= i < t.len() implies #[trigger] is_digit(t[i]) by {
            if i < head.len() {
                assert(t[i] == head[i]);
            }
        }
    }
}

/// Reading back a number the library writes gives the number again, with
/// or without a leading `+`.
pub proof fn law_decimal_round_trip(n: u8)
    ensures
        parsed_u8(decimal_text(n as nat)) == Some(n),
        parsed_u8(seq!['+'] + decimal_text(n as nat)) == Some(n),
{
    let t = decimal_text(n as nat);
    lemma_decimal_text(n as nat);
    assert(is_digit(t[0]));
    assert(t[0] != '+') by {
        assert(('+' as u32) == 43);
    }
    assert(digits_start(t) == 0);
    assert(t.subrange(0, t.len() as int) =~= t);
    let plus = seq!['+'] + t;
    assert(digits_start(plus) == 1);
    assert(plus.subrange(1, plus.len() as int) =~= t);
}
} // verus!
