use std::collections::HashMap;
use rand::rngs::ThreadRng;
use rand::seq::SliceRandom;
use vstd::prelude::*;
use crate::types::{Player, Role, Status, role_at, is_seating, dealt_by};

verus! {

broadcast use vstd::std_specs::hash::group_hash_axioms;

/// The fresh player seated at `n` holding `role`.
pub open spec fn fresh_player(n: u8, role: Role) -> Player {
    Player { number: n, status: Status::LIVED, role }
}

/// The players dealt along `order`: position `i` gets `role_at(v, w, i)`,
/// a later position overriding an earlier one with the same number.
pub open spec fn fresh_deal(order: Seq<u8>, v: int, w: int) -> Map<u8, Player>
    decreases order.len(),
{
    if order.len() == 0 {
        Map::empty()
    } else {
        fresh_deal(order.drop_last(), v, w).insert(
            order.last(),
            fresh_player(order.last(), role_at(v, w, order.len() - 1)),
        )
    }
}

/// The numbers `1..=p` in increasing order.
pub open spec fn numbers_up_to(p: int) -> Seq<u8> {
    Seq::new(p as nat, |i: int| (i + 1) as u8)
}

/// Dealing along an order without repeated numbers seats each number once,
/// position `i` holding `role_at(v, w, i)`, everybody alive.
pub proof fn lemma_fresh_deal(order: Seq<u8>, v: int, w: int)
    requires
        order.no_duplicates(),
    ensures
        dealt_by(fresh_deal(order, v, w), order, v, w),
        forall|k: u8| #[trigger] fresh_deal(order, v, w).contains_key(k)
            ==> fresh_deal(order, v, w)[k].status == Status::LIVED,
    decreases order.len(),
{
    if order.len() > 0 {
        let prefix = order.drop_last();
        assert(prefix.no_duplicates());
        lemma_fresh_deal(prefix, v, w);
        let m = fresh_deal(order, v, w);
        assert forall|k: u8| #[trigger] m.contains_key(k) <==> order.contains(k) by {
            if order.contains(k) {
                let i = choose|i: int| 0 <= i < order.len() && order[i] == k;
                if i < order.len() - 1 {
                    assert(prefix[i] == k);
                }
            }
            if prefix.contains(k) {
                let i = choose|i: int| 0 <= i < prefix.len() && prefix[i] == k;
                assert(order[i] == k);
            }
            if k == order.last() {
                assert(order[order.len() - 1] == k);
            }
        }
        assert forall|i: int| 0 <= i < order.len() implies (#[trigger] m[order[i]]).number
            == order[i] && m[order[i]].role == role_at(v, w, i) by {
            if i < order.len() - 1 {
                assert(prefix[i] == order[i]);
                assert(order[i] != order.last());
            }
        }
    }
}

/// The numbers of a shuffle of `numbers_up_to(p)` form a seating.
proof fn lemma_shuffled_seating(order: Seq<u8>, p: int)
    requires
        0 <= p <= 255,
        order.to_multiset() == numbers_up_to(p).to_multiset(),
    ensures
        is_seating(order, p),
{
    broadcast use vstd::seq_lib::group_to_multiset_ensures;

    let base = numbers_up_to(p);
    assert forall|k: u8| #[trigger] base.contains(k) <==> 1 <= k <= p by {
        if 1 <= k <= p {
            assert(base[k - 1] == k);
        }
    }
    assert(base.no_duplicates());
    base.lemma_multiset_has_no_duplicates();
    assert(order.len() == order.to_multiset().len());
    assert(base.len() == base.to_multiset().len());
    order.lemma_multiset_has_no_duplicates_conv();
    assert forall|k: u8| #[trigger] order.contains(k) <==> 1 <= k <= p by {
        assert(order.contains(k) <==> order.to_multiset().count(k) > 0);
        assert(base.contains(k) <==> base.to_multiset().count(k) > 0);
    }
}

#[verifier::external_type_specification]
#[verifier::external_body]
pub struct ExThreadRng(ThreadRng);

/// `rand::thread_rng`: a handle to this thread's random generator. Nothing
/// is stated of it: it only feeds `shuffle`.
#[verifier::external_body]
fn thread_rng() -> ThreadRng {
    rand::thread_rng()
}

/// `SliceRandom::shuffle` on the vector: rand's Fisher-Yates loop only swaps
/// elements, so the result holds the same numbers, each as often as before.
/// Which permutation comes out rests on the generator and is not stated.
#[verifier::external_body]
fn shuffle(v: &mut Vec<u8>, rng: &mut ThreadRng)
    ensures
        final(v)@.to_multiset() == old(v)@.to_multiset(),
{
    v.shuffle(rng);
}

/// Deals the role cards along `player_num`: the first `v_num` positions are
/// villagers, the next `w_num` wolves, then the seer, the witch and the hunter.
pub fn deal_cards(v_num: u8, w_num: u8, p_num: u8, player_num: &Vec<u8>) -> (players: HashMap<
    u8,
    Player,
>)
    requires
        v_num + w_num + 3 == p_num,
        player_num@.len() == p_num,
    ensures
        players@ == fresh_deal(player_num@, v_num as int, w_num as int),
{
    let ghost order = player_num@;
    let ghost v = v_num as int;
    let ghost w = w_num as int;
    let mut players: HashMap<u8, Player> = HashMap::new();
    assert(order.take(0) =~= Seq::<u8>::empty());
    let mut i: u8 = 0;
    while i < v_num
        invariant
            v_num + w_num + 3 == p_num,
            order == player_num@,
            order.len() == p_num,
            v == v_num,
            w == w_num,
            i <= v_num,
            players@ == fresh_deal(order.take(i as int), v, w),
        decreases v_num - i,
    {
        let n = player_num[i as usize];
        players.insert(n, Player { number: n, status: Status::LIVED, role: Role::Villager });
        assert(order.take(i + 1).drop_last() =~= order.take(i as int));
        i = i + 1;
    }
    while i < v_num + w_num
        invariant
            v_num + w_num + 3 == p_num,
            order == player_num@,
            order.len() == p_num,
            v == v_num,
            w == w_num,
            v_num <= i <= v_num + w_num,
            players@ == fresh_deal(order.take(i as int), v, w),
        decreases v_num + w_num - i,
    {
        let n = player_num[i as usize];
        players.insert(n, Player { number: n, status: Status::LIVED, role: Role::Wolf });
        assert(order.take(i + 1).drop_last() =~= order.take(i as int));
        i = i + 1;
    }
    let seer = player_num[i as usize];
    players.insert(seer, Player { number: seer, status: Status::LIVED, role: Role::Seer });
    assert(order.take(i + 1).drop_last() =~= order.take(i as int));
    assert(players@ == fresh_deal(order.take(i + 1), v, w));
    let witch = player_num[(i + 1) as usize];
    players.insert(witch, Player { number: witch, status: Status::LIVED, role: Role::Witch });
    assert(order.take(i + 2).drop_last() =~= order.take(i + 1));
    assert(players@ == fresh_deal(order.take(i + 2), v, w));
    let hunter = player_num[(i + 2) as usize];
    players.insert(hunter, Player { number: hunter, status: Status::LIVED, role: Role::Hunter });
    assert(order.take(i + 3).drop_last() =~= order.take(i + 2));
    assert(players@ == fresh_deal(order.take(i + 3), v, w));
    assert(order.take(i + 3) =~= order);
    players
}

/// Deals a fresh game at random: the numbers `1..=p_num` are shuffled and
/// the cards dealt along the shuffled order (see `deal_cards`).
pub fn assign_card(v_num: u8, w_num: u8, p_num: u8) -> (players: HashMap<u8, Player>)
    requires
        v_num + w_num + 3 == p_num,
    ensures
        exists|order: Seq<u8>|
            #[trigger] is_seating(order, p_num as int) && fresh_deal(order, v_num as int, w_num as int)
                == players@,
{
    let mut player_num: Vec<u8> = Vec::new();
    let mut a: u8 = 0;
    while a < p_num
        invariant
            a <= p_num,
            player_num@ == numbers_up_to(a as int),
        decreases p_num - a,
    {
        player_num.push(a + 1);
        a = a + 1;
        assert(player_num@ =~= numbers_up_to(a as int));
    }
    let mut rng = thread_rng();
    shuffle(&mut player_num, &mut rng);
    proof {
        lemma_shuffled_seating(player_num@, p_num as int);
    }
    deal_cards(v_num, w_num, p_num, &player_num)
}

} // verus!
