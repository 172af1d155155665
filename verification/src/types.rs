use std::collections::HashMap;
use vstd::prelude::*;

verus! {

/// A line of chat text sent by (or to) the user with the given id.
#[derive(Debug, Clone, PartialEq, Eq)]
pub struct Msg {
    pub user_id: u8,
    pub user_msg: String,
}

/// Whether a player is alive, was killed by the wolves, or was poisoned by the witch.
#[derive(Debug, PartialEq, Eq, Clone, Copy, Structural)]
pub enum Status {
    LIVED,
    KILLED,
    POISONED,
}

/// The role card a player holds.
#[derive(Debug, PartialEq, Eq, Clone, Copy, Structural)]
pub enum Role {
    Villager,
    Wolf,
    Seer,
    Witch,
    Hunter,
}

/// A seat at the table: its number, its current status and its role.
#[derive(Debug, PartialEq, Eq, Clone, Copy, Structural)]
pub struct Player {
    pub number: u8,
    pub status: Status,
    pub role: Role,
}

/// A game: how many villagers, wolves and players in all, and the players by number.
#[derive(Debug)]
pub struct Game {
    pub v_num: u8,
    pub w_num: u8,
    pub p_num: u8,
    pub players: HashMap<u8, Player>,
}

/// The role dealt to the seat at position `i` of the shuffled order: first
/// `v` villagers, then `w` wolves, then the seer, the witch and the hunter.
pub open spec fn role_at(v: int, w: int, i: int) -> Role {
    if i < v {
        Role::Villager
    } else if i < v + w {
        Role::Wolf
    } else if i == v + w {
        Role::Seer
    } else if i == v + w + 1 {
        Role::Witch
    } else {
        Role::Hunter
    }
}

/// `order` lists each of the numbers `1..=p` exactly once.
pub open spec fn is_seating(order: Seq<u8>, p: int) -> bool {
    &&& order.len() == p
    &&& order.no_duplicates()
    &&& forall|k: u8| #[trigger] order.contains(k) <==> 1 <= k <= p
}

/// The players are exactly the numbers of `order`, each keyed by its own
/// number, and the player at position `i` of `order` holds `role_at(v, w, i)`.
pub open spec fn dealt_by(players: Map<u8, Player>, order: Seq<u8>, v: int, w: int) -> bool {
    &&& forall|k: u8| #[trigger] players.contains_key(k) <==> order.contains(k)
    &&& forall|i: int|
        0 <= i < order.len() ==> (#[trigger] players[order[i]]).number == order[i]
            && players[order[i]].role == role_at(v, w, i)
}

/// Some player holds `role`.
pub open spec fn has_role(players: Map<u8, Player>, role: Role) -> bool {
    exists|k: u8| #[trigger] players.contains_key(k) && players[k].role == role
}

/// The number of a player holding `role` (the only one in a well-formed game).
pub open spec fn holder(players: Map<u8, Player>, role: Role) -> u8 {
    choose|k: u8| #[trigger] players.contains_key(k) && players[k].role == role
}

/// The players after the one numbered `n`, if there is one, takes `status`.
pub open spec fn with_status(players: Map<u8, Player>, n: u8, status: Status) -> Map<u8, Player> {
    if players.contains_key(n) {
        players.insert(n, Player { status, ..players[n] })
    } else {
        players
    }
}

impl Game {
    /// The game was dealt as the rules say: `v_num` villagers, `w_num` wolves,
    /// one seer, one witch and one hunter, seated at the numbers `1..=p_num`.
    pub open spec fn well_formed(&self) -> bool {
        &&& self.v_num + self.w_num + 3 == self.p_num
        &&& exists|order: Seq<u8>|
            #[trigger] is_seating(order, self.p_num as int) && dealt_by(
                self.players@,
                order,
                self.v_num as int,
                self.w_num as int,
            )
    }
}

} // verus!
