//! What each command does, stated by its effect on the game: who survives damage, what an
//! attack on a player takes, what playing a card and ending a turn leave alone, and the
//! starting position as printed.
use vstd::prelude::*;

use crate::command::CommandView;
use crate::event::GameEventView;
use crate::model::{
    CardDefinitionView, CardInstanceView, CardType, EffectDefinition, GameStateView, PlayerView,
    UnitStats, Zone,
};
use crate::rules::{damage_unit, dispatch, initial_state, move_unit_to_graveyard, other_than, player_index};

verus! {

/// The game starts with two players, "p1" to move, on turn 1, each at 20 life and 3 of 3
/// mana with three cards in hand; the cards are a soldier (cost 1, 1/2), a knight (cost 2,
/// 2/3), an archer (cost 1, 2/1), a guard (cost 2, 1/4) and a fireball (cost 3, a spell
/// that deals 3 damage); every card starts ready, in its owner's hand, without stats.
pub proof fn starting_position()
    ensures
        initial_state().current_player == 0,
        initial_state().turn == 1,
        initial_state().events == seq![GameEventView::GameStarted],
        initial_state().players == seq![
        PlayerView {
            id: "p1"@,
            hp: 20,
            mana: 3,
            max_mana: 3,
            deck: Seq::empty(),
            hand: seq!["p1_c1"@, "p1_c2"@, "p1_c3"@],
            field: Seq::empty(),
            graveyard: Seq::empty(),
        },
        PlayerView {
            id: "p2"@,
            hp: 20,
            mana: 3,
            max_mana: 3,
            deck: Seq::empty(),
            hand: seq!["p2_c1"@, "p2_c2"@, "p2_c3"@],
            field: Seq::empty(),
            graveyard: Seq::empty(),
        },
        ],
        initial_state().definitions == map![
            "soldier"@ => CardDefinitionView {
                id: "soldier"@,
                name: "Soldier"@,
                cost: 1,
                card_type: CardType::Unit,
                unit_stats: Some(UnitStats { attack: 1, health: 2 }),
                effects: Seq::empty(),
            },
            "knight"@ => CardDefinitionView {
                id: "knight"@,
                name: "Knight"@,
                cost: 2,
                card_type: CardType::Unit,
                unit_stats: Some(UnitStats { attack: 2, health: 3 }),
                effects: Seq::empty(),
            },
            "archer"@ => CardDefinitionView {
                id: "archer"@,
                name: "Archer"@,
                cost: 1,
                card_type: CardType::Unit,
                unit_stats: Some(UnitStats { attack: 2, health: 1 }),
                effects: Seq::empty(),
            },
            "guard"@ => CardDefinitionView {
                id: "guard"@,
                name: "Guard"@,
                cost: 2,
                card_type: CardType::Unit,
                unit_stats: Some(UnitStats { attack: 1, health: 4 }),
                effects: Seq::empty(),
            },
            "fireball"@ => CardDefinitionView {
                id: "fireball"@,
                name: "Fireball"@,
                cost: 3,
                card_type: CardType::Spell,
                unit_stats: None,
                effects: seq![EffectDefinition::Damage { amount: 3 }],
            },
        ],
        initial_state().instances == map![
            "p1_c1"@ => CardInstanceView {
                id: "p1_c1"@,
                definition_id: "soldier"@,
                owner_id: "p1"@,
                controller_id: "p1"@,
                zone: Zone::Hand,
                attack: None,
                health: None,
                max_health: None,
                exhausted: false,
            },
            "p1_c2"@ => CardInstanceView {
                id: "p1_c2"@,
                definition_id: "knight"@,
                owner_id: "p1"@,
                controller_id: "p1"@,
                zone: Zone::Hand,
                attack: None,
                health: None,
                max_health: None,
                exhausted: false,
            },
            "p1_c3"@ => CardInstanceView {
                id: "p1_c3"@,
                definition_id: "fireball"@,
                owner_id: "p1"@,
                controller_id: "p1"@,
                zone: Zone::Hand,
                attack: None,
                health: None,
                max_health: None,
                exhausted: false,
            },
            "p2_c1"@ => CardInstanceView {
                id: "p2_c1"@,
                definition_id: "archer"@,
                owner_id: "p2"@,
                controller_id: "p2"@,
                zone: Zone::Hand,
                attack: None,
                health: None,
                max_health: None,
                exhausted: false,
            },
            "p2_c2"@ => CardInstanceView {
                id: "p2_c2"@,
                definition_id: "guard"@,
                owner_id: "p2"@,
                controller_id: "p2"@,
                zone: Zone::Hand,
                attack: None,
                health: None,
                max_health: None,
                exhausted: false,
            },
            "p2_c3"@ => CardInstanceView {
                id: "p2_c3"@,
                definition_id: "fireball"@,
                owner_id: "p2"@,
                controller_id: "p2"@,
                zone: Zone::Hand,
                attack: None,
                health: None,
                max_health: None,
                exhausted: false,
            },
        ],
{
    let s = initial_state();
    assert(s.players =~= seq![
        PlayerView {
            id: "p1"@,
            hp: 20,
            mana: 3,
            max_mana: 3,
            deck: Seq::empty(),
            hand: seq!["p1_c1"@, "p1_c2"@, "p1_c3"@],
            field: Seq::empty(),
            graveyard: Seq::empty(),
        },
        PlayerView {
            id: "p2"@,
            hp: 20,
            mana: 3,
            max_mana: 3,
            deck: Seq::empty(),
            hand: seq!["p2_c1"@, "p2_c2"@, "p2_c3"@],
            field: Seq::empty(),
            graveyard: Seq::empty(),
        },
        ]);
    assert(s.definitions =~= map![
            "soldier"@ => CardDefinitionView {
                id: "soldier"@,
                name: "Soldier"@,
                cost: 1,
                card_type: CardType::Unit,
                unit_stats: Some(UnitStats { attack: 1, health: 2 }),
                effects: Seq::empty(),
            },
            "knight"@ => CardDefinitionView {
                id: "knight"@,
                name: "Knight"@,
                cost: 2,
                card_type: CardType::Unit,
                unit_stats: Some(UnitStats { attack: 2, health: 3 }),
                effects: Seq::empty(),
            },
            "archer"@ => CardDefinitionView {
                id: "archer"@,
                name: "Archer"@,
                cost: 1,
                card_type: CardType::Unit,
                unit_stats: Some(UnitStats { attack: 2, health: 1 }),
                effects: Seq::empty(),
            },
            "guard"@ => CardDefinitionView {
                id: "guard"@,
                name: "Guard"@,
                cost: 2,
                card_type: CardType::Unit,
                unit_stats: Some(UnitStats { attack: 1, health: 4 }),
                effects: Seq::empty(),
            },
            "fireball"@ => CardDefinitionView {
                id: "fireball"@,
                name: "Fireball"@,
                cost: 3,
                card_type: CardType::Spell,
                unit_stats: None,
                effects: seq![EffectDefinition::Damage { amount: 3 }],
            },
        ]);
    assert(s.instances =~= map![
            "p1_c1"@ => CardInstanceView {
                id: "p1_c1"@,
                definition_id: "soldier"@,
                owner_id: "p1"@,
                controller_id: "p1"@,
                zone: Zone::Hand,
                attack: None,
                health: None,
                max_health: None,
                exhausted: false,
            },
            "p1_c2"@ => CardInstanceView {
                id: "p1_c2"@,
                definition_id: "knight"@,
                owner_id: "p1"@,
                controller_id: "p1"@,
                zone: Zone::Hand,
                attack: None,
                health: None,
                max_health: None,
                exhausted: false,
            },
            "p1_c3"@ => CardInstanceView {
                id: "p1_c3"@,
                definition_id: "fireball"@,
                owner_id: "p1"@,
                controller_id: "p1"@,
                zone: Zone::Hand,
                attack: None,
                health: None,
                max_health: None,
                exhausted: false,
            },
            "p2_c1"@ => CardInstanceView {
                id: "p2_c1"@,
                definition_id: "archer"@,
                owner_id: "p2"@,
                controller_id: "p2"@,
                zone: Zone::Hand,
                attack: None,
                health: None,
                max_health: None,
                exhausted: false,
            },
            "p2_c2"@ => CardInstanceView {
                id: "p2_c2"@,
                definition_id: "guard"@,
                owner_id: "p2"@,
                controller_id: "p2"@,
                zone: Zone::Hand,
                attack: None,
                health: None,
                max_health: None,
                exhausted: false,
            },
            "p2_c3"@ => CardInstanceView {
                id: "p2_c3"@,
                definition_id: "fireball"@,
                owner_id: "p2"@,
                controller_id: "p2"@,
                zone: Zone::Hand,
                attack: None,
                health: None,
                max_health: None,
                exhausted: false,
            },
        ]);
}

/// The first player whose identifier is `id` is player `i`.
pub open spec fn first_player_named(s: GameStateView, id: Seq<char>, i: int) -> bool {
    &&& 0 <= i < s.players.len()
    &&& s.players[i].id == id
    &&& forall|j: int| 0 <= j < i ==> s.players[j].id != id
}

proof fn lemma_first_player_named(s: GameStateView, id: Seq<char>, i: int)
    requires
        first_player_named(s, id, i),
    ensures
        player_index(s, id) == Some(i),
{
    let ids = s.players.map_values(|p: PlayerView| p.id);
    assert(ids[i] == id);
    ids.index_of_first_ensures(id);
    let f = ids.index_of_first(id)->0;
    if f < i {
        assert(ids[f] == s.players[f].id);
    }
    if i < f {
        assert(ids[i] == id);
    }
}

/// A unit whose health stays above zero after a blow survives it: it keeps its place and
/// everything else, with its health lowered by the damage, no player changes, and the
/// only event is the damage.
pub proof fn surviving_damage_keeps_the_unit(s: GameStateView, id: Seq<char>, damage: i32)
    requires
        s.instances.contains_key(id),
        s.instances[id].health matches Some(h) && h - damage > 0 && h - damage <= i32::MAX,
    ensures
        ({
            let h = s.instances[id].health->0;
            let (t, r) = damage_unit(s, id, damage);
            &&& r == Ok::<Seq<GameEventView>, Seq<char>>(
                seq![GameEventView::UnitDamaged { card_instance_id: id, damage, remaining_health: (h - damage) as i32 }],
            )
            &&& t.instances[id] == CardInstanceView { health: Some((h - damage) as i32), ..s.instances[id] }
            &&& t.instances.dom() == s.instances.dom()
            &&& forall|k: Seq<char>| k != id ==> t.instances[k] == s.instances[k]
            &&& t.players == s.players
            &&& t.events == s.events
        }),
{
    let t = damage_unit(s, id, damage);
    assert(t.0.instances.dom() =~= s.instances.dom());
}

/// A unit left at zero health or below by a blow dies: the damage and the death are
/// reported, in that order; the unit is in the graveyard zone with its lowered health,
/// off its owner's field and in its owner's graveyard; no other card changes, and the
/// players keep their number, names and life.
pub proof fn lethal_damage_sends_the_unit_to_its_graveyard(
    s: GameStateView,
    id: Seq<char>,
    damage: i32,
    owner: int,
)
    requires
        s.instances.contains_key(id),
        s.instances[id].health matches Some(h) && h - damage <= 0 && i32::MIN <= h - damage,
        first_player_named(s, s.instances[id].owner_id, owner),
    ensures
        ({
            let h = s.instances[id].health->0;
            let (t, r) = damage_unit(s, id, damage);
            &&& r == Ok::<Seq<GameEventView>, Seq<char>>(
                seq![
                    GameEventView::UnitDamaged { card_instance_id: id, damage, remaining_health: (h - damage) as i32 },
                    GameEventView::UnitDied { card_instance_id: id, owner_id: s.instances[id].owner_id },
                ],
            )
            &&& t.instances[id] == CardInstanceView {
                health: Some((h - damage) as i32),
                zone: Zone::Graveyard,
                exhausted: true,
                ..s.instances[id]
            }
            &&& !t.players[owner].field.contains(id)
            &&& t.players[owner].graveyard.contains(id)
            &&& t.instances.dom() == s.instances.dom()
            &&& forall|k: Seq<char>| k != id ==> t.instances[k] == s.instances[k]
            &&& t.players.len() == s.players.len()
            &&& forall|i: int| 0 <= i < s.players.len() ==> (#[trigger] t.players[i]).id == s.players[i].id
                && t.players[i].hp == s.players[i].hp
            &&& t.events == s.events
        }),
{
    broadcast use vstd::seq_lib::group_filter_ensures;

    let h = s.instances[id].health->0;
    let u = s.instances[id];
    let s1 = s.with_instance(id, CardInstanceView { health: Some((h - damage) as i32), ..u });
    lemma_first_player_named(s1, u.owner_id, owner);
    let t = damage_unit(s, id, damage).0;
    assert(t.instances.dom() =~= s.instances.dom());
    let f = s.players[owner].field.filter(other_than(id));
    if f.contains(id) {
        let j = choose|j: int| 0 <= j < f.len() && f[j] == id;
        s.players[owner].field.lemma_filter_pred(other_than(id), j);
    }
    let g = s.players[owner].graveyard;
    if !g.contains(id) {
        assert(g.push(id)[g.len() as int] == id);
    }
}

/// It is player `player_id`'s turn.
pub open spec fn turn_of(s: GameStateView, player_id: Seq<char>) -> bool {
    s.current_player < s.players.len() && s.players[s.current_player as int].id == player_id
}

/// Instance `id` is a ready unit on the field under player `player_id`'s control.
pub open spec fn ready_unit_of(s: GameStateView, player_id: Seq<char>, id: Seq<char>) -> bool {
    &&& s.instances.contains_key(id)
    &&& s.instances[id].zone == Zone::Field
    &&& s.instances[id].controller_id == player_id
    &&& !s.instances[id].exhausted
    &&& s.instances[id].attack is Some
    &&& s.instances[id].health is Some
}

/// On its controller's turn, a ready unit that attacks another player takes exactly its
/// attack off that player's life; the attack is reported, the unit is exhausted, and
/// nothing else changes.
pub proof fn attack_on_a_player_takes_the_attack(
    s: GameStateView,
    player_id: Seq<char>,
    attacker_id: Seq<char>,
    target_player_id: Seq<char>,
    target: int,
)
    requires
        turn_of(s, player_id),
        ready_unit_of(s, player_id, attacker_id),
        player_id != target_player_id,
        first_player_named(s, target_player_id, target),
        i32::MIN <= s.players[target].hp - s.instances[attacker_id].attack->0 <= i32::MAX,
    ensures
        ({
            let damage = s.instances[attacker_id].attack->0;
            let remaining_hp = (s.players[target].hp - damage) as i32;
            let e = GameEventView::UnitAttackedPlayer { attacker_id, target_player_id, damage, remaining_hp };
            let (t, r) = dispatch(s, CommandView::AttackPlayer { player_id, attacker_id, target_player_id });
            &&& r == Ok::<Seq<GameEventView>, Seq<char>>(seq![e])
            &&& t.players[target].hp == s.players[target].hp - damage
            &&& t.players == s.players.update(target, PlayerView { hp: remaining_hp, ..s.players[target] })
            &&& t.instances == s.instances.insert(
                attacker_id,
                CardInstanceView { exhausted: true, ..s.instances[attacker_id] },
            )
            &&& t.events == s.events.push(e)
            &&& t.turn == s.turn && t.current_player == s.current_player
            &&& t.definitions == s.definitions
        }),
{
    lemma_first_player_named(s, target_player_id, target);
}

/// Playing a card touches no card instance but the played one, and no player but the one
/// who plays it.
pub proof fn playing_touches_only_the_played_card(s: GameStateView, player_id: Seq<char>, card_instance_id: Seq<char>)
    ensures
        ({
            let t = dispatch(s, CommandView::PlayCard { player_id, card_instance_id }).0;
            &&& t.instances.dom() == s.instances.dom()
            &&& forall|k: Seq<char>| k != card_instance_id ==> t.instances[k] == s.instances[k]
            &&& t.players.len() == s.players.len()
            &&& forall|i: int| 0 <= i < s.players.len() && s.players[i].id != player_id ==> t.players[i] == s.players[i]
            &&& t.turn == s.turn && t.current_player == s.current_player
            &&& t.definitions == s.definitions
        }),
{
    let t = dispatch(s, CommandView::PlayCard { player_id, card_instance_id }).0;
    if let Some(pi) = player_index(s, player_id) {
        s.players.map_values(|p: PlayerView| p.id).index_of_first_ensures(player_id);
        assert(s.players.map_values(|p: PlayerView| p.id)[pi] == player_id);
    }
    assert(t.instances.dom() =~= s.instances.dom());
}

/// On their turn, a player who holds a card they control, and has the mana for it, plays
/// it: they pay its cost and it leaves their hand; a unit joins their field exhausted with
/// its printed stats, a spell goes to their graveyard; the play is reported with the
/// card's name and cost.
pub proof fn playing_a_card(
    s: GameStateView,
    player_id: Seq<char>,
    card_instance_id: Seq<char>,
    player: int,
    hand_index: int,
)
    requires
        turn_of(s, player_id),
        first_player_named(s, player_id, player),
        0 <= hand_index < s.players[player].hand.len(),
        s.players[player].hand[hand_index] == card_instance_id,
        forall|j: int| 0 <= j < hand_index ==> s.players[player].hand[j] != card_instance_id,
        s.instances.contains_key(card_instance_id),
        s.instances[card_instance_id].controller_id == player_id,
        s.definitions.contains_key(s.instances[card_instance_id].definition_id),
        s.players[player].mana >= s.definitions[s.instances[card_instance_id].definition_id].cost,
    ensures
        ({
            let c = s.instances[card_instance_id];
            let d = s.definitions[c.definition_id];
            let p = s.players[player];
            let e = GameEventView::CardPlayed {
                player_id,
                card_instance_id,
                card_definition_id: d.id,
                card_name: d.name,
                cost: d.cost,
            };
            let (t, r) = dispatch(s, CommandView::PlayCard { player_id, card_instance_id });
            let q = t.players[player];
            let n = t.instances[card_instance_id];
            &&& r == Ok::<Seq<GameEventView>, Seq<char>>(seq![e])
            &&& t.events == s.events.push(e)
            &&& q.mana == p.mana - d.cost
            &&& q.hand == p.hand.remove(hand_index)
            &&& q.id == p.id && q.hp == p.hp && q.max_mana == p.max_mana && q.deck == p.deck
            &&& n.id == c.id && n.definition_id == c.definition_id && n.owner_id == c.owner_id
                && n.controller_id == c.controller_id
            &&& d.card_type == CardType::Unit ==> {
                &&& q.field == p.field.push(card_instance_id)
                &&& q.graveyard == p.graveyard
                &&& n.zone == Zone::Field
                &&& n.exhausted
                &&& (d.unit_stats matches Some(st) ==> n.attack == Some(st.attack) && n.health == Some(
                    st.health,
                ) && n.max_health == Some(st.health))
            }
            &&& d.card_type == CardType::Spell ==> {
                &&& q.field == p.field
                &&& q.graveyard == p.graveyard.push(card_instance_id)
                &&& n.zone == Zone::Graveyard
                &&& n.exhausted == c.exhausted
                &&& n.attack == c.attack && n.health == c.health && n.max_health == c.max_health
            }
        }),
{
    lemma_first_player_named(s, player_id, player);
    let h = s.players[player].hand;
    h.index_of_first_ensures(card_instance_id);
    let f = h.index_of_first(card_instance_id)->0;
    if f < hand_index {
        assert(h[f] == card_instance_id);
    }
}

/// Ending a turn touches no card but to ready it, and readies only units on the field of
/// the player whose turn it now is; players keep everything but mana.
pub proof fn ending_a_turn_only_readies_and_refills(s: GameStateView, player_id: Seq<char>)
    ensures
        ({
            let t = dispatch(s, CommandView::EndTurn { player_id }).0;
            &&& t.instances.dom() == s.instances.dom()
            &&& forall|k: Seq<char>| #[trigger] s.instances.contains_key(k) ==> t.instances[k] == (CardInstanceView {
                exhausted: t.instances[k].exhausted,
                ..s.instances[k]
            })
            &&& forall|k: Seq<char>| #[trigger] s.instances.contains_key(k) && t.instances[k].exhausted
                != s.instances[k].exhausted ==> !t.instances[k].exhausted && t.players[t.current_player as int].field.contains(k)
            &&& t.players.len() == s.players.len()
            &&& forall|i: int| 0 <= i < s.players.len() ==> #[trigger] t.players[i] == (PlayerView {
                mana: t.players[i].mana,
                ..s.players[i]
            })
            &&& t.definitions == s.definitions
        }),
{
    let t = dispatch(s, CommandView::EndTurn { player_id }).0;
    assert(t.instances.dom() =~= s.instances.dom());
}

/// On their turn, the player to move who ends it hands the turn to the next player in
/// order, whose mana is refilled to their maximum; the turn counter goes up by one, and
/// the end of turn is reported with the next player's name and the new turn number.
pub proof fn ending_a_turn(s: GameStateView, player_id: Seq<char>)
    requires
        turn_of(s, player_id),
        s.turn < u32::MAX,
        s.players.len() <= usize::MAX,
    ensures
        ({
            let next = (s.current_player + 1) % (s.players.len() as int);
            let e = GameEventView::TurnEnded {
                player_id,
                next_player_id: s.players[next].id,
                turn: (s.turn + 1) as u32,
            };
            let (t, r) = dispatch(s, CommandView::EndTurn { player_id });
            &&& r == Ok::<Seq<GameEventView>, Seq<char>>(seq![e])
            &&& t.current_player == next
            &&& t.turn == s.turn + 1
            &&& t.players[next].mana == s.players[next].max_mana
            &&& forall|i: int| 0 <= i < s.players.len() && i != next ==> #[trigger] t.players[i] == s.players[i]
            &&& t.events == s.events.push(e)
        }),
{
    vstd::arithmetic::div_mod::lemma_mod_pos_bound(s.current_player + 1, s.players.len() as int);
}

/// What a unit's blow reports: the damage, and the death where the unit is left at zero
/// health or below.
pub open spec fn blow_events(id: Seq<char>, damage: i32, health: i32, owner_id: Seq<char>) -> Seq<GameEventView> {
    let damaged = GameEventView::UnitDamaged { card_instance_id: id, damage, remaining_health: (health - damage) as i32 };
    if health - damage > 0 {
        seq![damaged]
    } else {
        seq![damaged, GameEventView::UnitDied { card_instance_id: id, owner_id }]
    }
}

/// On its controller's turn, a ready unit that attacks an enemy unit on the field trades
/// blows with it: the target loses the attacker's attack, then the attacker loses the
/// target's; each stays on the field exactly when its health is still above zero, and
/// goes to the graveyard otherwise; the attacker is exhausted; the fight, the damage and
/// the deaths are reported in that order.
pub proof fn fight_exchanges_blows(
    s: GameStateView,
    player_id: Seq<char>,
    attacker_id: Seq<char>,
    target_id: Seq<char>,
    attacker_owner: int,
    target_owner: int,
)
    requires
        turn_of(s, player_id),
        ready_unit_of(s, player_id, attacker_id),
        s.instances.contains_key(target_id),
        s.instances[target_id].zone == Zone::Field,
        s.instances[target_id].controller_id != player_id,
        s.instances[target_id].attack is Some,
        s.instances[target_id].health is Some,
        first_player_named(s, s.instances[attacker_id].owner_id, attacker_owner),
        first_player_named(s, s.instances[target_id].owner_id, target_owner),
        i32::MIN <= s.instances[target_id].health->0 - s.instances[attacker_id].attack->0 <= i32::MAX,
        i32::MIN <= s.instances[attacker_id].health->0 - s.instances[target_id].attack->0 <= i32::MAX,
    ensures
        ({
            let a = s.instances[attacker_id];
            let b = s.instances[target_id];
            let aa = a.attack->0;
            let ta = b.attack->0;
            let ha = a.health->0;
            let ht = b.health->0;
            let (t, r) = dispatch(s, CommandView::AttackUnit { player_id, attacker_id, target_id });
            let evs = seq![
                GameEventView::UnitAttackedUnit {
                    attacker_id,
                    target_id,
                    attacker_damage: ta,
                    target_damage: aa,
                },
            ] + blow_events(target_id, aa, ht, b.owner_id) + blow_events(attacker_id, ta, ha, a.owner_id);
            &&& r == Ok::<Seq<GameEventView>, Seq<char>>(evs)
            &&& t.events == s.events + evs
            &&& t.instances[target_id].health == Some((ht - aa) as i32)
            &&& t.instances[attacker_id].health == Some((ha - ta) as i32)
            &&& t.instances[target_id].zone == if ht - aa > 0 { Zone::Field } else { Zone::Graveyard }
            &&& t.instances[attacker_id].zone == if ha - ta > 0 { Zone::Field } else { Zone::Graveyard }
            &&& t.instances[attacker_id].exhausted
            &&& t.instances.dom() == s.instances.dom()
            &&& forall|k: Seq<char>| k != attacker_id && k != target_id ==> t.instances[k] == s.instances[k]
        }),
{
    let a = s.instances[attacker_id];
    let b = s.instances[target_id];
    let aa = a.attack->0;
    let ta = b.attack->0;
    let ha = a.health->0;
    let ht = b.health->0;
    assert(attacker_id != target_id);
    if ht - aa > 0 {
        surviving_damage_keeps_the_unit(s, target_id, aa);
    } else {
        lethal_damage_sends_the_unit_to_its_graveyard(s, target_id, aa, target_owner);
    }
    let s1 = damage_unit(s, target_id, aa).0;
    assert(s1.instances[attacker_id] == a);
    if ha - ta > 0 {
        surviving_damage_keeps_the_unit(s1, attacker_id, ta);
    } else {
        assert(first_player_named(s1, a.owner_id, attacker_owner));
        lethal_damage_sends_the_unit_to_its_graveyard(s1, attacker_id, ta, attacker_owner);
    }
    let s2 = damage_unit(s1, attacker_id, ta).0;
    let t = dispatch(s, CommandView::AttackUnit { player_id, attacker_id, target_id }).0;
    assert(t.instances.dom() =~= s2.instances.dom());
}

/// The player a command is made for.
pub open spec fn command_player(c: CommandView) -> Seq<char> {
    match c {
        CommandView::PlayCard { player_id, .. } => player_id,
        CommandView::EndTurn { player_id } => player_id,
        CommandView::AttackUnit { player_id, .. } => player_id,
        CommandView::AttackPlayer { player_id, .. } => player_id,
    }
}

/// A refusal with `reason`: only the refusal is logged, and it is the whole answer.
pub open spec fn refused_with(s: GameStateView, c: CommandView, reason: Seq<char>) -> bool {
    let e = GameEventView::CommandRejected { reason };
    dispatch(s, c) == (
        GameStateView { events: s.events.push(e), ..s },
        Ok::<Seq<GameEventView>, Seq<char>>(seq![e]),
    )
}

/// A command from a player whose turn it is not is refused: ending the turn with "Only
/// the current player can end the turn", anything else with "It is not this player's
/// turn".
pub proof fn commands_out_of_turn_are_refused(s: GameStateView, c: CommandView)
    requires
        s.current_player < s.players.len(),
        s.players[s.current_player as int].id != command_player(c),
    ensures
        refused_with(
            s,
            c,
            if c is EndTurn {
                "Only the current player can end the turn"@
            } else {
                "It is not this player's turn"@
            },
        ),
{
    assert(dispatch(s, c).0 =~= GameStateView {
        events: dispatch(s, c).0.events,
        ..s
    });
}

/// An attack made with anything but a ready unit of the attacking player on the field
/// fails, and changes nothing.
pub proof fn only_ready_units_attack(s: GameStateView, c: CommandView)
    requires
        turn_of(s, command_player(c)),
        c matches CommandView::AttackUnit { player_id, attacker_id, .. } ==> !ready_unit_of(s, player_id, attacker_id),
        c matches CommandView::AttackPlayer { player_id, attacker_id, .. } ==> !ready_unit_of(s, player_id, attacker_id),
        c is AttackUnit || c is AttackPlayer,
    ensures
        dispatch(s, c).1 is Err,
        dispatch(s, c).0 == s,
{
}

/// An attack on oneself is refused with "Cannot attack yourself", and changes nothing else.
pub proof fn attacking_oneself_is_refused(s: GameStateView, player_id: Seq<char>, attacker_id: Seq<char>)
    requires
        turn_of(s, player_id),
        ready_unit_of(s, player_id, attacker_id),
    ensures
        refused_with(
            s,
            CommandView::AttackPlayer { player_id, attacker_id, target_player_id: player_id },
            "Cannot attack yourself"@,
        ),
{
}

/// An attack on a unit that is not on the field is refused with "Target is not on the
/// field", and one on a unit of one's own with "Cannot attack your own unit"; neither
/// changes anything else.
pub proof fn attacks_on_wrong_units_are_refused(
    s: GameStateView,
    player_id: Seq<char>,
    attacker_id: Seq<char>,
    target_id: Seq<char>,
)
    requires
        turn_of(s, player_id),
        ready_unit_of(s, player_id, attacker_id),
        s.instances.contains_key(target_id),
        s.instances[target_id].zone != Zone::Field || s.instances[target_id].controller_id == player_id,
    ensures
        refused_with(
            s,
            CommandView::AttackUnit { player_id, attacker_id, target_id },
            if s.instances[target_id].zone != Zone::Field {
                "Target is not on the field"@
            } else {
                "Cannot attack your own unit"@
            },
        ),
{
}

/// On their turn, a player who plays a card that is not in their hand fails with "Card is
/// not in player's hand", and nothing changes.
pub proof fn playing_a_card_not_in_hand_fails(s: GameStateView, player_id: Seq<char>, card_instance_id: Seq<char>, player: int)
    requires
        turn_of(s, player_id),
        first_player_named(s, player_id, player),
        !s.players[player].hand.contains(card_instance_id),
    ensures
        dispatch(s, CommandView::PlayCard { player_id, card_instance_id }) == (
            s,
            Err::<Seq<GameEventView>, Seq<char>>("Card is not in player's hand"@),
        ),
{
    lemma_first_player_named(s, player_id, player);
    s.players[player].hand.index_of_first_ensures(card_instance_id);
}

/// On their turn, a player who plays a card from their hand that they do not control is
/// refused with "Player does not control this card"; one who lacks the mana for it is
/// refused with "Not enough mana"; neither changes anything else.
pub proof fn playing_a_card_without_control_or_mana_is_refused(
    s: GameStateView,
    player_id: Seq<char>,
    card_instance_id: Seq<char>,
    player: int,
)
    requires
        turn_of(s, player_id),
        first_player_named(s, player_id, player),
        s.players[player].hand.contains(card_instance_id),
        s.instances.contains_key(card_instance_id),
        s.instances[card_instance_id].controller_id != player_id || (s.definitions.contains_key(
            s.instances[card_instance_id].definition_id,
        ) && s.players[player].mana < s.definitions[s.instances[card_instance_id].definition_id].cost),
    ensures
        refused_with(
            s,
            CommandView::PlayCard { player_id, card_instance_id },
            if s.instances[card_instance_id].controller_id != player_id {
                "Player does not control this card"@
            } else {
                "Not enough mana"@
            },
        ),
{
    lemma_first_player_named(s, player_id, player);
    s.players[player].hand.index_of_first_ensures(card_instance_id);
}

} // verus!
