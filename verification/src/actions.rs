use std::collections::HashMap;
use vstd::prelude::*;
use vstd::std_specs::iter::IteratorSpec;
use crate::types::{
    Game, Player, Role, Status, role_at, is_seating, dealt_by, has_role, holder, with_status,
};
use crate::util::assign_card;

verus! {

broadcast use vstd::std_specs::hash::group_hash_axioms;

impl Game {
    /// A fresh game with `v_num` villagers, `w_num` wolves and `p_num`
    /// players in all, dealt at random; everybody is alive.
    pub fn new(v_num: u8, w_num: u8, p_num: u8) -> (game: Self)
        requires
            v_num + w_num + 3 == p_num,
        ensures
            game.v_num == v_num,
            game.w_num == w_num,
            game.p_num == p_num,
            game.well_formed(),
            forall|k: u8| #[trigger] game.players@.contains_key(k) ==> game.players@[k].status
                == Status::LIVED,
    {
        let players = assign_card(v_num, w_num, p_num);
        let game = Game { v_num, w_num, p_num, players };
        proof {
            let order = choose|order: Seq<u8>|
                #[trigger] is_seating(order, p_num as int) && crate::util::fresh_deal(
                    order,
                    v_num as int,
                    w_num as int,
                ) == game.players@;
            crate::util::lemma_fresh_deal(order, v_num as int, w_num as int);
        }
        game
    }

    /// The first player holding `role` on the walk of the table.
    fn find_role(&self, role: Role) -> (found: Option<&Player>)
        ensures
            match found {
                Some(p) => first_in_walk(&self.players, role) == Some(*p),
                None => first_in_walk(&self.players, role) is None,
            },
            match found {
                Some(p) => p.role == role && exists|k: u8|
                    #[trigger] self.players@.contains_key(k) && self.players@[k] == *p,
                None => !has_role(self.players@, role),
            },
    {
        let ghost s = vstd::std_specs::hash::spec_hash_map_iter(&self.players).remaining();
        let walk = self.players.iter();
        let ghost entries = vstd::std_specs::hash::into_iter(walk);
        assert(entries == s.unref());
        for entry in it: walk
            invariant
                it.seq() == s,
                s == vstd::std_specs::hash::spec_hash_map_iter(&self.players).remaining(),
                entries == s.unref(),
                entries == vstd::std_specs::hash::into_iter(
                    vstd::std_specs::hash::spec_hash_map_iter(&self.players),
                ),
                forall|j: int| 0 <= j < it.index() ==> (#[trigger] s[j]).1.role != role,
        {
            let (_key, player) = entry;
            if player.role == role {
                proof {
                    let j = it.index() as int;
                    assert(entry == s[j]);
                    assert(self.players@.contains_key(*s[j].0));
                    assert forall|i: int| 0 <= i < j implies (#[trigger] entries[i]).1.role
                        != role by {
                        assert(entries[i].1 == *s[i].1);
                    }
                    assert(entries[j].1 == *s[j].1);
                    lemma_first_with_role(entries, role, j);
                }
                return Some(player);
            }
        }
        proof {
            assert forall|i: int| 0 <= i < entries.len() implies (#[trigger] entries[i]).1.role
                != role by {
                assert(entries[i].1 == *s[i].1);
            }
            lemma_first_with_role(entries, role, s.len() as int);
            assert forall|k: u8| #[trigger]
                self.players@.contains_key(k) implies self.players@[k].role != role by {
                assert(s.contains((&k, &self.players@[k])));
                let j = choose|j: int| 0 <= j < s.len() && s[j] == (&k, &self.players@[k]);
                assert(s[j].1.role != role);
            }
        }
        None
    }
}


/// The dead or dying players among the numbers below `n`, in increasing order of number.
pub open spec fn fallen_below(players: Map<u8, Player>, n: int) -> Seq<Player>
    decreases n,
{
    if n <= 0 {
        Seq::empty()
    } else {
        let earlier = fallen_below(players, n - 1);
        let k = (n - 1) as u8;
        if players.contains_key(k) && players[k].status != Status::LIVED {
            earlier.push(players[k])
        } else {
            earlier
        }
    }
}

/// The first player holding `role` among `entries`, in their order.
pub open spec fn first_with_role(entries: Seq<(u8, Player)>, role: Role) -> Option<Player>
    decreases entries.len(),
{
    if entries.len() == 0 {
        None
    } else if entries[0].1.role == role {
        Some(entries[0].1)
    } else {
        first_with_role(entries.drop_first(), role)
    }
}

/// The first player holding `role` in the order in which the table's map is
/// walked (the order of `HashMap::iter`, a function of the map).
pub open spec fn first_in_walk(players: &HashMap<u8, Player>, role: Role) -> Option<Player> {
    first_with_role(
        vstd::std_specs::hash::into_iter(vstd::std_specs::hash::spec_hash_map_iter(players)),
        role,
    )
}

/// Whether the hunter's shot is blocked: the hunter found first on the walk
/// of the table is poisoned.
pub open spec fn hunter_blocked(players: &HashMap<u8, Player>) -> bool {
    first_in_walk(players, Role::Hunter) matches Some(h) && h.status == Status::POISONED
}

/// When the entries before position `i` do not hold `role`, the first holder
/// is found at `i` or later.
proof fn lemma_first_with_role(entries: Seq<(u8, Player)>, role: Role, i: int)
    requires
        0 <= i <= entries.len(),
        forall|j: int| 0 <= j < i ==> (#[trigger] entries[j]).1.role != role,
    ensures
        i < entries.len() && entries[i].1.role == role ==> first_with_role(entries, role) == Some(
            entries[i].1,
        ),
        i == entries.len() ==> first_with_role(entries, role) is None,
    decreases i,
{
    if i > 0 {
        let rest = entries.drop_first();
        assert forall|j: int| 0 <= j < i - 1 implies (#[trigger] rest[j]).1.role != role by {
            assert(rest[j] == entries[j + 1]);
        }
        lemma_first_with_role(rest, role, i - 1);
        if i < entries.len() {
            assert(rest[i - 1] == entries[i]);
        }
    }
}

/// What the witch's potion does to the table: nothing when it is aimed at a
/// witch, else the target takes `status`.
pub open spec fn after_potion(players: Map<u8, Player>, n: u8, status: Status) -> Map<u8, Player> {
    if players.contains_key(n) && players[n].role == Role::Witch {
        players
    } else {
        with_status(players, n, status)
    }
}

/// Changing a status keeps the seating and every role.
pub proof fn lemma_with_status_dealt(
    players: Map<u8, Player>,
    order: Seq<u8>,
    v: int,
    w: int,
    n: u8,
    status: Status,
)
    requires
        dealt_by(players, order, v, w),
    ensures
        dealt_by(with_status(players, n, status), order, v, w),
{
    let after = with_status(players, n, status);
    assert forall|i: int| 0 <= i < order.len() implies (#[trigger] after[order[i]]).number
        == order[i] && after[order[i]].role == role_at(v, w, i) by {
        assert(players[order[i]].number == order[i]);
    }
}

/// A status change keeps a game well-formed.
pub proof fn lemma_with_status_well_formed(before: &Game, after: &Game, n: u8, status: Status)
    requires
        before.well_formed(),
        after.v_num == before.v_num,
        after.w_num == before.w_num,
        after.p_num == before.p_num,
        after.players@ == with_status(before.players@, n, status),
    ensures
        after.well_formed(),
{
    let order = choose|order: Seq<u8>|
        #[trigger] is_seating(order, before.p_num as int) && dealt_by(
            before.players@,
            order,
            before.v_num as int,
            before.w_num as int,
        );
    lemma_with_status_dealt(before.players@, order, before.v_num as int, before.w_num as int, n, status);
    assert(is_seating(order, after.p_num as int));
}

/// In a well-formed game each of the seer, the witch and the hunter is held
/// by exactly one player, whose number is its key.
pub proof fn lemma_single_holder(game: &Game, role: Role)
    requires
        game.well_formed(),
        role == Role::Seer || role == Role::Witch || role == Role::Hunter,
    ensures
        has_role(game.players@, role),
        game.players@.contains_key(holder(game.players@, role)),
        game.players@[holder(game.players@, role)].role == role,
        game.players@[holder(game.players@, role)].number == holder(game.players@, role),
        forall|k: u8| #[trigger]
            game.players@.contains_key(k) && game.players@[k].role == role ==> k == holder(
                game.players@,
                role,
            ),
{
    let m = game.players@;
    let v = game.v_num as int;
    let w = game.w_num as int;
    let order = choose|order: Seq<u8>|
        #[trigger] is_seating(order, game.p_num as int) && dealt_by(m, order, v, w);
    let idx = if role == Role::Seer {
        v + w
    } else if role == Role::Witch {
        v + w + 1
    } else {
        v + w + 2
    };
    let k0 = order[idx];
    assert(order.contains(k0));
    assert(m.contains_key(k0));
    assert(m[order[idx]].role == role_at(v, w, idx));
    assert forall|k: u8| #[trigger] m.contains_key(k) && m[k].role == role implies k == k0 by {
        assert(order.contains(k));
        let i = choose|i: int| 0 <= i < order.len() && order[i] == k;
        assert(m[order[i]].role == role_at(v, w, i));
    }
    assert(m[order[idx]].number == order[idx]);
}

impl Game {
    /// The hunter: `None` when nobody holds that card.
    pub fn get_hunter(&self) -> (found: Option<&Player>)
        ensures
            match found {
                Some(p) => first_in_walk(&self.players, Role::Hunter) == Some(*p),
                None => first_in_walk(&self.players, Role::Hunter) is None,
            },
            match found {
                Some(p) => p.role == Role::Hunter && exists|k: u8|
                    #[trigger] self.players@.contains_key(k) && self.players@[k] == *p,
                None => !has_role(self.players@, Role::Hunter),
            },
            self.well_formed() ==> found == Some(
                &self.players@[holder(self.players@, Role::Hunter)],
            ),
    {
        let found = self.find_role(Role::Hunter);
        proof {
            if self.well_formed() {
                lemma_single_holder(self, Role::Hunter);
            }
        }
        found
    }

    /// The witch: `None` when nobody holds that card.
    pub fn get_witch(&self) -> (found: Option<&Player>)
        ensures
            match found {
                Some(p) => first_in_walk(&self.players, Role::Witch) == Some(*p),
                None => first_in_walk(&self.players, Role::Witch) is None,
            },
            match found {
                Some(p) => p.role == Role::Witch && exists|k: u8|
                    #[trigger] self.players@.contains_key(k) && self.players@[k] == *p,
                None => !has_role(self.players@, Role::Witch),
            },
            self.well_formed() ==> found == Some(
                &self.players@[holder(self.players@, Role::Witch)],
            ),
    {
        let found = self.find_role(Role::Witch);
        proof {
            if self.well_formed() {
                lemma_single_holder(self, Role::Witch);
            }
        }
        found
    }

    /// The seer: `None` when nobody holds that card.
    pub fn get_seer(&self) -> (found: Option<&Player>)
        ensures
            match found {
                Some(p) => first_in_walk(&self.players, Role::Seer) == Some(*p),
                None => first_in_walk(&self.players, Role::Seer) is None,
            },
            match found {
                Some(p) => p.role == Role::Seer && exists|k: u8|
                    #[trigger] self.players@.contains_key(k) && self.players@[k] == *p,
                None => !has_role(self.players@, Role::Seer),
            },
            self.well_formed() ==> found == Some(
                &self.players@[holder(self.players@, Role::Seer)],
            ),
    {
        let found = self.find_role(Role::Seer);
        proof {
            if self.well_formed() {
                lemma_single_holder(self, Role::Seer);
            }
        }
        found
    }

    /// The player numbered `p_num`, if there is one, takes `status`;
    /// nothing else changes.
    pub fn player_status_change(&mut self, p_num: u8, status: Status)
        ensures
            final(self).players@ == with_status(old(self).players@, p_num, status),
            final(self).v_num == old(self).v_num,
            final(self).w_num == old(self).w_num,
            final(self).p_num == old(self).p_num,
            old(self).well_formed() ==> final(self).well_formed(),
    {
        let current = self.players.get(&p_num);
        match current {
            Some(player) => {
                let changed = Player { status, ..*player };
                self.players.insert(p_num, changed);
            },
            None => {},
        }
        proof {
            if old(self).well_formed() {
                lemma_with_status_well_formed(old(self), self, p_num, status);
            }
        }
    }

    /// The wolves kill player `p_num`.
    pub fn wolf_action(&mut self, p_num: u8)
        ensures
            final(self).players@ == with_status(old(self).players@, p_num, Status::KILLED),
            final(self).v_num == old(self).v_num,
            final(self).w_num == old(self).w_num,
            final(self).p_num == old(self).p_num,
            old(self).well_formed() ==> final(self).well_formed(),
    {
        self.player_status_change(p_num, Status::KILLED);
    }

    /// The witch gives player `p_num` a potion that sets its status to
    /// `status`; a potion aimed at the witch herself does nothing.
    pub fn witch_action(&mut self, p_num: u8, status: Status)
        ensures
            final(self).players@ == after_potion(old(self).players@, p_num, status),
            final(self).v_num == old(self).v_num,
            final(self).w_num == old(self).w_num,
            final(self).p_num == old(self).p_num,
            old(self).well_formed() ==> final(self).well_formed(),
    {
        if let Some(player) = self.players.get(&p_num) {
            if player.role == Role::Witch {
                return;
            }
        }
        self.player_status_change(p_num, status);
    }

    /// The hunter shoots player `p_num`, setting its status to `status`,
    /// unless the hunter that `get_hunter` reports has been poisoned.
    pub fn hunter_action(&mut self, p_num: u8, status: Status)
        ensures
            final(self).players@ == (if hunter_blocked(&old(self).players) {
                old(self).players@
            } else {
                with_status(old(self).players@, p_num, status)
            }),
            old(self).well_formed() ==> final(self).players@ == (if old(self).players@[holder(
                old(self).players@,
                Role::Hunter,
            )].status == Status::POISONED {
                old(self).players@
            } else {
                with_status(old(self).players@, p_num, status)
            }),
            final(self).v_num == old(self).v_num,
            final(self).w_num == old(self).w_num,
            final(self).p_num == old(self).p_num,
            old(self).well_formed() ==> final(self).well_formed(),
    {
        proof {
            if old(self).well_formed() {
                lemma_single_holder(old(self), Role::Hunter);
            }
        }
        if let Some(player) = self.get_hunter() {
            if player.status == Status::POISONED {
                return;
            }
        }
        self.player_status_change(p_num, status);
    }

    /// The seer checks player `p_num`: `true` exactly when it is a wolf.
    /// The game is unchanged.
    pub fn seer_action(&mut self, p_num: u8) -> (is_wolf: bool)
        ensures
            is_wolf == (old(self).players@.contains_key(p_num) && old(self).players@[p_num].role
                == Role::Wolf),
            final(self).players@ == old(self).players@,
            final(self).v_num == old(self).v_num,
            final(self).w_num == old(self).w_num,
            final(self).p_num == old(self).p_num,
    {
        if let Some(player) = self.players.get(&p_num) {
            if player.role == Role::Wolf {
                return true;
            }
        }
        return false;
    }

    /// The players who are not alive, in increasing order of number.
    pub fn get_death_info(&self) -> (fallen: Vec<Player>)
        ensures
            fallen@ == fallen_below(self.players@, 256),
    {
        let mut fallen: Vec<Player> = Vec::new();
        let mut n: u16 = 0;
        while n < 256
            invariant
                n <= 256,
                fallen@ == fallen_below(self.players@, n as int),
            decreases 256 - n,
        {
            let k: u8 = n as u8;
            if let Some(player) = self.players.get(&k) {
                if player.status != Status::LIVED {
                    fallen.push(*player);
                }
            }
            n = n + 1;
        }
        fallen
    }
}

} // verus!
