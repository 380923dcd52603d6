//! Every card is in exactly one place, and it is the place its zone names.
use vstd::prelude::*;

use crate::command::CommandView;
use crate::model::{CardInstanceView, GameStateView, PlayerView, Zone};
use crate::rules::{
    attack_unit_engages, cards_placed, cards_placed_in, damage_unit, lists_registered,
    zone_counted, all_registered, dispatch, initial_state, is_current_player,
    move_unit_to_graveyard, other_than, played_instance, player_after_play, player_index,
    same_as, times_listed, zone_list,
};

verus! {

proof fn lemma_times_empty(k: Seq<char>)
    ensures
        times_listed(Seq::<Seq<char>>::empty(), k) == 0,
{
    reveal(Seq::filter);
}

proof fn lemma_times_push(l: Seq<Seq<char>>, x: Seq<char>, k: Seq<char>)
    ensures
        times_listed(l.push(x), k) == times_listed(l, k) + if x == k { 1nat } else { 0nat },
{
    l.lemma_filter_push(x, same_as(k));
}

proof fn lemma_times_concat(a: Seq<Seq<char>>, b: Seq<Seq<char>>, k: Seq<char>)
    ensures
        times_listed(a + b, k) == times_listed(a, k) + times_listed(b, k),
{
    Seq::filter_distributes_over_add(a, b, same_as(k));
}

proof fn lemma_times_remove(l: Seq<Seq<char>>, i: int, k: Seq<char>)
    requires
        0 <= i < l.len(),
    ensures
        times_listed(l.remove(i), k) + if l[i] == k { 1nat } else { 0nat } == times_listed(l, k),
{
    let one = Seq::<Seq<char>>::empty().push(l[i]);
    assert(l =~= l.take(i) + one + l.skip(i + 1));
    assert(l.remove(i) =~= l.take(i) + l.skip(i + 1));
    lemma_times_concat(l.take(i), one, k);
    lemma_times_concat(l.take(i) + one, l.skip(i + 1), k);
    lemma_times_concat(l.take(i), l.skip(i + 1), k);
    lemma_times_empty(k);
    lemma_times_push(Seq::<Seq<char>>::empty(), l[i], k);
}

proof fn lemma_times_without(l: Seq<Seq<char>>, x: Seq<char>, k: Seq<char>)
    ensures
        times_listed(l.filter(other_than(x)), k) == if k == x { 0nat } else { times_listed(l, k) },
    decreases l.len(),
{
    reveal(Seq::filter);
    if l.len() == 0 {
        lemma_times_empty(k);
    } else {
        let d = l.drop_last();
        lemma_times_without(d, x, k);
        assert(l =~= d.push(l.last()));
        lemma_times_push(d, l.last(), k);
        if l.last() != x {
            lemma_times_push(d.filter(other_than(x)), l.last(), k);
        }
    }
}

proof fn lemma_times_contains(l: Seq<Seq<char>>, k: Seq<char>)
    ensures
        times_listed(l, k) > 0 <==> l.contains(k),
{
    broadcast use vstd::seq_lib::group_filter_ensures;

    if l.contains(k) {
        let i = choose|i: int| 0 <= i < l.len() && l[i] == k;
        l.lemma_filter_contains(same_as(k), i);
    }
    if times_listed(l, k) > 0 {
        let f = l.filter(same_as(k));
        l.lemma_filter_pred(same_as(k), 0);
        assert(f.contains(f[0]));
        l.lemma_filter_contains_rev(same_as(k), f[0]);
    }
}

/// Two players with the same identifier and the same card lists.
pub open spec fn same_lists(p: PlayerView, q: PlayerView) -> bool {
    &&& p.id == q.id
    &&& p.deck == q.deck
    &&& p.hand == q.hand
    &&& p.field == q.field
    &&& p.graveyard == q.graveyard
}

/// Placement depends only on the players' identifiers and lists and on each card's owner,
/// controller and zone.
proof fn lemma_placed_frame(s: GameStateView, t: GameStateView, with_deck: bool)
    requires
        cards_placed_in(s, with_deck),
        t.players.len() == s.players.len(),
        forall|i: int| 0 <= i < s.players.len() ==> same_lists(#[trigger] t.players[i], s.players[i]),
        t.instances.dom() == s.instances.dom(),
        forall|k: Seq<char>| #[trigger] s.instances.contains_key(k) ==> {
            &&& t.instances[k].owner_id == s.instances[k].owner_id
            &&& t.instances[k].controller_id == s.instances[k].controller_id
            &&& t.instances[k].zone == s.instances[k].zone
        },
    ensures
        cards_placed_in(t, with_deck),
{
    assert forall|i: int, z: Zone| 0 <= i < t.players.len() implies #[trigger] zone_list(t.players[i], z)
        == zone_list(s.players[i], z) by {
        assert(same_lists(t.players[i], s.players[i]));
    }
    assert forall|i: int, j: int| 0 <= i < j < t.players.len() implies (#[trigger] t.players[i]).id
        != (#[trigger] t.players[j]).id by {
        assert(same_lists(t.players[i], s.players[i]));
        assert(same_lists(t.players[j], s.players[j]));
    }
    assert forall|k: Seq<char>| #[trigger] t.instances.contains_key(k) implies {
        let c = t.instances[k];
        &&& c.controller_id == c.owner_id
        &&& zone_counted(c.zone, with_deck)
        &&& exists|i: int| 0 <= i < t.players.len() && (#[trigger] t.players[i]).id == c.owner_id
        &&& forall|i: int, z: Zone|
            0 <= i < t.players.len() && zone_counted(z, with_deck) ==> times_listed(#[trigger] zone_list(t.players[i], z), k) == if t.players[i].id
                == c.owner_id && z == c.zone {
                1nat
            } else {
                0nat
            }
    } by {
        assert(s.instances.contains_key(k));
        let i = choose|i: int| 0 <= i < s.players.len() && (#[trigger] s.players[i]).id == s.instances[k].owner_id;
        assert(same_lists(t.players[i], s.players[i]));
        assert forall|i: int, z: Zone| 0 <= i < t.players.len() && zone_counted(z, with_deck) implies times_listed(
            #[trigger] zone_list(t.players[i], z),
            k,
        ) == if t.players[i].id == t.instances[k].owner_id && z == t.instances[k].zone {
            1nat
        } else {
            0nat
        } by {
            assert(same_lists(t.players[i], s.players[i]));
            assert(zone_list(t.players[i], z) == zone_list(s.players[i], z));
        }
    }
}

/// The owner of a placed card is found among the players.
proof fn lemma_owner_found(s: GameStateView, k: Seq<char>, with_deck: bool)
    requires
        cards_placed_in(s, with_deck),
        s.instances.contains_key(k),
    ensures
        player_index(s, s.instances[k].owner_id) matches Some(oi) && 0 <= oi < s.players.len()
            && s.players[oi].id == s.instances[k].owner_id,
{
    let owner = s.instances[k].owner_id;
    let ids = s.players.map_values(|p: PlayerView| p.id);
    let i = choose|i: int| 0 <= i < s.players.len() && (#[trigger] s.players[i]).id == owner;
    assert(ids[i] == owner);
    ids.index_of_first_ensures(owner);
}

/// A card on the field that goes to the graveyard stays placed.
proof fn lemma_graveyard_placed(s: GameStateView, k: Seq<char>, with_deck: bool)
    requires
        cards_placed_in(s, with_deck),
        s.instances.contains_key(k),
        s.instances[k].zone == Zone::Field,
    ensures
        cards_placed_in(move_unit_to_graveyard(s, k).0, with_deck),
        move_unit_to_graveyard(s, k).1 is Ok,
        forall|k2: Seq<char>| k2 != k ==> move_unit_to_graveyard(s, k).0.instances[k2] == s.instances[k2],
        move_unit_to_graveyard(s, k).0.instances.dom() == s.instances.dom(),
        move_unit_to_graveyard(s, k).0.players.len() == s.players.len(),
        forall|i: int| 0 <= i < s.players.len() ==> (#[trigger] move_unit_to_graveyard(s, k).0.players[i]).id == s.players[i].id,
{
    lemma_owner_found(s, k, with_deck);
    let t = move_unit_to_graveyard(s, k).0;
    let c = s.instances[k];
    let oi = player_index(s, c.owner_id)->0;
    let p = s.players[oi];
    assert(times_listed(zone_list(p, Zone::Graveyard), k) == 0);
    lemma_times_contains(p.graveyard, k);
    assert(t.instances.dom() =~= s.instances.dom());
    assert forall|i: int, j: int| 0 <= i < j < t.players.len() implies (#[trigger] t.players[i]).id
        != (#[trigger] t.players[j]).id by {
        assert(t.players[i].id == s.players[i].id);
        assert(t.players[j].id == s.players[j].id);
    }
    assert forall|k2: Seq<char>| #[trigger] t.instances.contains_key(k2) implies {
        let c2 = t.instances[k2];
        &&& c2.controller_id == c2.owner_id
        &&& zone_counted(c2.zone, with_deck)
        &&& exists|i: int| 0 <= i < t.players.len() && (#[trigger] t.players[i]).id == c2.owner_id
        &&& forall|i: int, z: Zone|
            0 <= i < t.players.len() && zone_counted(z, with_deck) ==> times_listed(#[trigger] zone_list(t.players[i], z), k2) == if t.players[i].id
                == c2.owner_id && z == c2.zone {
                1nat
            } else {
                0nat
            }
    } by {
        let c2 = t.instances[k2];
        let w = choose|i: int| 0 <= i < s.players.len() && (#[trigger] s.players[i]).id == s.instances[k2].owner_id;
        assert(t.players[w].id == s.players[w].id);
        assert forall|i: int, z: Zone| 0 <= i < t.players.len() && zone_counted(z, with_deck) implies times_listed(
            #[trigger] zone_list(t.players[i], z),
            k2,
        ) == if t.players[i].id == c2.owner_id && z == c2.zone {
            1nat
        } else {
            0nat
        } by {
            assert(times_listed(zone_list(s.players[i], z), k2) == if s.players[i].id == s.instances[k2].owner_id
                && z == s.instances[k2].zone {
                1nat
            } else {
                0nat
            });
            if i == oi {
                lemma_times_without(p.field, k, k2);
                lemma_times_push(p.graveyard, k, k2);
                if k2 == k {
                    assert(times_listed(zone_list(s.players[i], Zone::Field), k) == 1);
                }
            }
        }
    }
}

/// Damage to a card on the field keeps every card placed, and touches no other card.
proof fn lemma_damage_placed(s: GameStateView, k: Seq<char>, damage: i32, with_deck: bool)
    requires
        cards_placed_in(s, with_deck),
        s.instances.contains_key(k),
        s.instances[k].zone == Zone::Field,
    ensures
        cards_placed_in(damage_unit(s, k, damage).0, with_deck),
        forall|k2: Seq<char>| k2 != k ==> damage_unit(s, k, damage).0.instances[k2] == s.instances[k2],
        damage_unit(s, k, damage).0.instances.dom() == s.instances.dom(),
        damage_unit(s, k, damage).0.players.len() == s.players.len(),
        forall|i: int| 0 <= i < s.players.len() ==> (#[trigger] damage_unit(s, k, damage).0.players[i]).id == s.players[i].id,
{
    let u = s.instances[k];
    if let Some(h) = u.health {
        let s1 = s.with_instance(k, CardInstanceView { health: Some((h - damage) as i32), ..u });
        assert(s1.instances.dom() =~= s.instances.dom());
        lemma_placed_frame(s, s1, with_deck);
        if (h - damage) as i32 <= 0 {
            lemma_graveyard_placed(s1, k, with_deck);
        }
    }
}

/// Playing a card from the hand keeps every card placed.
proof fn lemma_play_placed(s: GameStateView, player_id: Seq<char>, k: Seq<char>, with_deck: bool)
    requires
        cards_placed_in(s, with_deck),
    ensures
        cards_placed_in(dispatch(s, CommandView::PlayCard { player_id, card_instance_id: k }).0, with_deck),
{
    let t = dispatch(s, CommandView::PlayCard { player_id, card_instance_id: k }).0;
    if let Some(pi) = player_index(s, player_id) {
        s.players.map_values(|p: PlayerView| p.id).index_of_first_ensures(player_id);
        let p = s.players[pi];
        if let Some(hi) = p.hand.index_of_first(k) {
            p.hand.index_of_first_ensures(k);
            if s.instances.contains_key(k) && s.definitions.contains_key(s.instances[k].definition_id) {
                let c = s.instances[k];
                let d = s.definitions[c.definition_id];
                if is_current_player(s, player_id) == Ok::<bool, Seq<char>>(true) && c.controller_id
                    == player_id && s.players[pi].mana >= d.cost {
                    assert(c.controller_id == player_id);
                    lemma_times_contains(p.hand, k);
                    assert(times_listed(zone_list(p, Zone::Hand), k) > 0);
                    assert(p.id == c.owner_id && c.zone == Zone::Hand);
                    let p2 = player_after_play(p, hi, k, d);
                    let c2 = played_instance(c, d);
                    assert(t.players == s.players.update(pi, p2));
                    assert(t.instances == s.instances.insert(k, c2));
                    assert(t.instances.dom() =~= s.instances.dom());
                    assert forall|i: int, j: int| 0 <= i < j < t.players.len() implies (#[trigger] t.players[i]).id
                        != (#[trigger] t.players[j]).id by {
                        assert(t.players[i].id == s.players[i].id);
                        assert(t.players[j].id == s.players[j].id);
                    }
                    assert forall|k2: Seq<char>| #[trigger] t.instances.contains_key(k2) implies {
                        let c3 = t.instances[k2];
                        &&& c3.controller_id == c3.owner_id
                        &&& zone_counted(c3.zone, with_deck)
                        &&& exists|i: int| 0 <= i < t.players.len() && (#[trigger] t.players[i]).id == c3.owner_id
                        &&& forall|i: int, z: Zone|
                            0 <= i < t.players.len() && zone_counted(z, with_deck) ==> times_listed(#[trigger] zone_list(t.players[i], z), k2)
                                == if t.players[i].id == c3.owner_id && z == c3.zone {
                                1nat
                            } else {
                                0nat
                            }
                    } by {
                        let c3 = t.instances[k2];
                        let w = choose|i: int| 0 <= i < s.players.len() && (#[trigger] s.players[i]).id == s.instances[k2].owner_id;
                        assert(t.players[w].id == s.players[w].id);
                        assert forall|i: int, z: Zone| 0 <= i < t.players.len() && zone_counted(z, with_deck) implies times_listed(
                            #[trigger] zone_list(t.players[i], z),
                            k2,
                        ) == if t.players[i].id == c3.owner_id && z == c3.zone {
                            1nat
                        } else {
                            0nat
                        } by {
                            assert(times_listed(zone_list(s.players[i], z), k2) == if s.players[i].id
                                == s.instances[k2].owner_id && z == s.instances[k2].zone {
                                1nat
                            } else {
                                0nat
                            });
                            if i == pi {
                                lemma_times_remove(p.hand, hi, k2);
                                lemma_times_push(p.field, k, k2);
                                lemma_times_push(p.graveyard, k, k2);
                                if k2 == k {
                                    assert(times_listed(zone_list(s.players[i], Zone::Field), k) == 0);
                                    assert(times_listed(zone_list(s.players[i], Zone::Graveyard), k) == 0);
                                }
                            }
                        }
                    }
                }
            }
        }
    }
}

/// Every command keeps every card in exactly one place, the one its zone names.
pub proof fn commands_keep_cards_placed(s: GameStateView, c: CommandView)
    requires
        cards_placed(s),
    ensures
        cards_placed(dispatch(s, c).0),
{
    lemma_commands_keep_placed_in(s, c, true);
}

proof fn lemma_commands_keep_placed_in(s: GameStateView, c: CommandView, with_deck: bool)
    requires
        cards_placed_in(s, with_deck),
    ensures
        cards_placed_in(dispatch(s, c).0, with_deck),
{
    let t = dispatch(s, c).0;
    match c {
        CommandView::PlayCard { player_id, card_instance_id } => {
            lemma_play_placed(s, player_id, card_instance_id, with_deck);
        },
        CommandView::EndTurn { player_id } => {
            assert(t.instances.dom() =~= s.instances.dom());
            lemma_placed_frame(s, t, with_deck);
        },
        CommandView::AttackUnit { player_id, attacker_id, target_id } => {
            if attack_unit_engages(s, player_id, attacker_id, target_id) {
                let aa = s.instances[attacker_id].attack->0;
                let ta = s.instances[target_id].attack->0;
                lemma_damage_placed(s, target_id, aa, with_deck);
                let s1 = damage_unit(s, target_id, aa).0;
                assert(attacker_id != target_id);
                lemma_damage_placed(s1, attacker_id, ta, with_deck);
                let s2 = damage_unit(s1, attacker_id, ta).0;
                if damage_unit(s, target_id, aa).1 is Ok && damage_unit(s1, attacker_id, ta).1 is Ok {
                    assert(t.instances.dom() =~= s2.instances.dom());
                    lemma_placed_frame(s2, t, with_deck);
                }
            }
        },
        CommandView::AttackPlayer { player_id, attacker_id, target_player_id } => {
            if let Some(ti) = player_index(s, target_player_id) {
                s.players.map_values(|p: PlayerView| p.id).index_of_first_ensures(target_player_id);
            }
            assert(t.instances.dom() =~= s.instances.dom());
            lemma_placed_frame(s, t, with_deck);
        },
    }
}

proof fn lemma_times_three(a: Seq<char>, b: Seq<char>, c: Seq<char>, k: Seq<char>)
    ensures
        times_listed(seq![a, b, c], k) == (if a == k { 1nat } else { 0nat }) + (if b == k {
            1nat
        } else {
            0nat
        }) + (if c == k { 1nat } else { 0nat }),
{
    let e = Seq::<Seq<char>>::empty();
    lemma_times_empty(k);
    lemma_times_push(e, a, k);
    lemma_times_push(e.push(a), b, k);
    lemma_times_push(e.push(a).push(b), c, k);
    assert(seq![a, b, c] =~= e.push(a).push(b).push(c));
}

/// The game starts with every card in its owner's hand, once.
pub proof fn initial_cards_are_placed()
    ensures
        cards_placed(initial_state()),
{
    lemma_initial_placed_in(true);
}

proof fn lemma_initial_placed_in(with_deck: bool)
    ensures
        cards_placed_in(initial_state(), with_deck),
{
    reveal_strlit("p1_c1");
    reveal_strlit("p1_c2");
    reveal_strlit("p1_c3");
    reveal_strlit("p2_c1");
    reveal_strlit("p2_c2");
    reveal_strlit("p2_c3");
    reveal_strlit("p1");
    reveal_strlit("p2");
    assert("p1"@[1] != "p2"@[1]);
    assert("p1_c1"@[4] != "p1_c2"@[4]);
    assert("p1_c1"@[4] != "p1_c3"@[4]);
    assert("p1_c1"@[1] != "p2_c1"@[1]);
    assert("p1_c1"@[1] != "p2_c2"@[1]);
    assert("p1_c1"@[1] != "p2_c3"@[1]);
    assert("p1_c2"@[4] != "p1_c3"@[4]);
    assert("p1_c2"@[1] != "p2_c1"@[1]);
    assert("p1_c2"@[1] != "p2_c2"@[1]);
    assert("p1_c2"@[1] != "p2_c3"@[1]);
    assert("p1_c3"@[1] != "p2_c1"@[1]);
    assert("p1_c3"@[1] != "p2_c2"@[1]);
    assert("p1_c3"@[1] != "p2_c3"@[1]);
    assert("p2_c1"@[4] != "p2_c2"@[4]);
    assert("p2_c1"@[4] != "p2_c3"@[4]);
    assert("p2_c2"@[4] != "p2_c3"@[4]);
    let s = initial_state();
    assert forall|k: Seq<char>| #[trigger] s.instances.contains_key(k) implies {
        let c = s.instances[k];
        &&& c.controller_id == c.owner_id
        &&& zone_counted(c.zone, with_deck)
        &&& exists|i: int| 0 <= i < s.players.len() && (#[trigger] s.players[i]).id == c.owner_id
        &&& forall|i: int, z: Zone|
            0 <= i < s.players.len() && zone_counted(z, with_deck) ==> times_listed(#[trigger] zone_list(s.players[i], z), k) == if s.players[i].id
                == c.owner_id && z == c.zone {
                1nat
            } else {
                0nat
            }
    } by {
        lemma_times_empty(k);
        lemma_times_three("p1_c1"@, "p1_c2"@, "p1_c3"@, k);
        lemma_times_three("p2_c1"@, "p2_c2"@, "p2_c3"@, k);
        let c = s.instances[k];
        if c.owner_id == "p1"@ {
            assert(s.players[0].id == c.owner_id);
        } else {
            assert(s.players[1].id == c.owner_id);
        }
    }
}

/// The cards in play are consistent: the turn belongs to one of the players, whose
/// identifiers are distinct; every card that a player's hand, field or graveyard lists is
/// a card instance of the game; and every card instance is owned and controlled by the
/// same player and listed exactly once over all the players' hands, fields and
/// graveyards, in its owner's list for its zone.
pub open spec fn cards_in_play_consistent(s: GameStateView) -> bool {
    &&& s.current_player < s.players.len()
    &&& lists_registered(s, false)
    &&& cards_placed_in(s, false)
}

/// In a consistent game, a card listed in player `i`'s hand, field or graveyard is a card
/// instance in that zone, owned and controlled by that player, and listed nowhere else
/// among the hands, fields and graveyards.
pub proof fn listed_card_is_in_that_zone(s: GameStateView, i: int, z: Zone, j: int)
    requires
        cards_in_play_consistent(s),
        0 <= i < s.players.len(),
        z != Zone::Deck,
        0 <= j < zone_list(s.players[i], z).len(),
    ensures
        ({
            let k = zone_list(s.players[i], z)[j];
            &&& s.instances.contains_key(k)
            &&& s.instances[k].zone == z
            &&& s.instances[k].owner_id == s.players[i].id
            &&& s.instances[k].controller_id == s.players[i].id
            &&& forall|i2: int, z2: Zone|
                0 <= i2 < s.players.len() && z2 != Zone::Deck ==> times_listed(
                    #[trigger] zone_list(s.players[i2], z2),
                    k,
                ) == if i2 == i && z2 == z {
                    1nat
                } else {
                    0nat
                }
        }),
{
    let l = zone_list(s.players[i], z);
    let k = l[j];
    assert(s.instances.contains_key(k));
    assert(l.contains(k));
    lemma_times_contains(l, k);
    assert(zone_counted(z, false));
    assert forall|i2: int, z2: Zone| 0 <= i2 < s.players.len() && z2 != Zone::Deck implies times_listed(
        #[trigger] zone_list(s.players[i2], z2),
        k,
    ) == if i2 == i && z2 == z {
        1nat
    } else {
        0nat
    } by {
        assert(zone_counted(z2, false));
        if i2 < i {
            assert(s.players[i2].id != s.players[i].id);
        } else if i < i2 {
            assert(s.players[i].id != s.players[i2].id);
        }
    }
}

/// The game starts with its cards in play consistent.
pub proof fn initial_cards_in_play_consistent()
    ensures
        cards_in_play_consistent(initial_state()),
{
    lemma_initial_placed_in(false);
    crate::laws::initial_state_is_valid();
}

/// Every command keeps the cards in play consistent, keeps the players, their number and
/// identifiers, keeps the set of card instances, and keeps the card definitions.
pub proof fn commands_keep_cards_in_play_consistent(s: GameStateView, c: CommandView)
    requires
        cards_in_play_consistent(s),
    ensures
        cards_in_play_consistent(dispatch(s, c).0),
        dispatch(s, c).0.players.len() == s.players.len(),
        forall|i: int| 0 <= i < s.players.len() ==> (#[trigger] dispatch(s, c).0.players[i]).id == s.players[i].id,
        dispatch(s, c).0.instances.dom() == s.instances.dom(),
        dispatch(s, c).0.definitions == s.definitions,
{
    lemma_commands_keep_placed_in(s, c, false);
    crate::laws::lemma_commands_keep_registered(s, c, false);
    crate::laws::lemma_dispatch_frame(s, c);
    if let CommandView::EndTurn { player_id } = c {
        if is_current_player(s, player_id) == Ok::<bool, Seq<char>>(true) {
            vstd::arithmetic::div_mod::lemma_mod_pos_bound(s.current_player + 1, s.players.len() as int);
        }
    }
}

} // verus!
