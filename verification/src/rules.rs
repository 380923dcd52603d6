//! The rules of the game, as functions from a game state and a command to the next
//! game state and the command's result.
use vstd::prelude::*;

use crate::command::CommandView;
use crate::event::GameEventView;
use crate::model::{
    CardDefinitionView, CardInstanceView, CardType, EffectDefinition, GameStateView, PlayerView,
    UnitStats, Zone,
};

verus! {

/// The state a command leaves behind, and what it returns: the events it caused, or the
/// reason it failed.
pub type Outcome = (GameStateView, Result<Seq<GameEventView>, Seq<char>>);

impl GameStateView {
    pub open spec fn with_events(self, es: Seq<GameEventView>) -> GameStateView {
        GameStateView { events: self.events + es, ..self }
    }

    pub open spec fn with_event(self, e: GameEventView) -> GameStateView {
        GameStateView { events: self.events.push(e), ..self }
    }

    pub open spec fn with_player(self, i: int, p: PlayerView) -> GameStateView {
        GameStateView { players: self.players.update(i, p), ..self }
    }

    pub open spec fn with_instance(self, id: Seq<char>, c: CardInstanceView) -> GameStateView {
        GameStateView { instances: self.instances.insert(id, c), ..self }
    }
}

/// The position of the first player whose identifier is `id`.
pub open spec fn player_index(s: GameStateView, id: Seq<char>) -> Option<int> {
    s.players.map_values(|p: PlayerView| p.id).index_of_first(id)
}

/// Whether `id` names the player whose turn it is; an error where the turn points at no
/// player.
pub open spec fn is_current_player(s: GameStateView, id: Seq<char>) -> Result<bool, Seq<char>> {
    if s.current_player < s.players.len() {
        Ok(s.players[s.current_player as int].id == id)
    } else {
        Err("Invalid current player index"@)
    }
}

/// A refused command: the refusal is recorded and reported, and nothing else changes.
pub open spec fn rejected(s: GameStateView, reason: Seq<char>) -> Outcome {
    let e = GameEventView::CommandRejected { reason };
    (s.with_event(e), Ok(seq![e]))
}

/// The reason, if any, why instance `attacker_id` cannot attack for player `player_id`.
pub open spec fn validate_attacker(s: GameStateView, player_id: Seq<char>, attacker_id: Seq<char>) -> Result<(), Seq<char>> {
    if !s.instances.contains_key(attacker_id) {
        Err("Attacker not found"@)
    } else {
        let a = s.instances[attacker_id];
        if a.zone != Zone::Field {
            Err("Attacker is not on the field"@)
        } else if a.controller_id != player_id {
            Err("Player does not control attacker"@)
        } else if a.exhausted {
            Err("Attacker is exhausted"@)
        } else if a.attack is None || a.health is None {
            Err("Attacker is not a unit"@)
        } else {
            Ok(())
        }
    }
}

/// Holds of every identifier but `id`.
pub open spec fn other_than(id: Seq<char>) -> spec_fn(Seq<char>) -> bool {
    |x: Seq<char>| x != id
}

/// Instance `id` goes to its owner's graveyard: it leaves the owner's field, joins the
/// owner's graveyard unless it is there already, and is exhausted.
pub open spec fn move_unit_to_graveyard(s: GameStateView, id: Seq<char>) -> (GameStateView, Result<(), Seq<char>>) {
    if !s.instances.contains_key(id) {
        (s, Err("Card instance not found"@))
    } else {
        let c = s.instances[id];
        match player_index(s, c.owner_id) {
            None => (s, Err("Player not found"@)),
            Some(oi) => {
                let p = s.players[oi];
                let graveyard = if p.graveyard.contains(id) {
                    p.graveyard
                } else {
                    p.graveyard.push(id)
                };
                let p2 = PlayerView {
                    field: p.field.filter(other_than(id)),
                    graveyard,
                    ..p
                };
                let c2 = CardInstanceView { zone: Zone::Graveyard, exhausted: true, ..c };
                (s.with_player(oi, p2).with_instance(id, c2), Ok(()))
            },
        }
    }
}

/// Whether dealing `damage` to instance `id` takes its health out of the range of `i32`.
pub open spec fn damage_overflows(s: GameStateView, id: Seq<char>, damage: i32) -> bool {
    &&& s.instances.contains_key(id)
    &&& s.instances[id].health matches Some(h)
    &&& !(i32::MIN <= h - damage <= i32::MAX)
}

/// Instance `id` loses `damage` health; at zero or below it dies and goes to the graveyard.
pub open spec fn damage_unit(s: GameStateView, id: Seq<char>, damage: i32) -> Outcome {
    if !s.instances.contains_key(id) {
        (s, Err("Unit not found"@))
    } else {
        let u = s.instances[id];
        match u.health {
            None => (s, Err("Unit has no health"@)),
            Some(h) => {
                let remaining = (h - damage) as i32;
                let s1 = s.with_instance(id, CardInstanceView { health: Some(remaining), ..u });
                let damaged = GameEventView::UnitDamaged {
                    card_instance_id: id,
                    damage,
                    remaining_health: remaining,
                };
                if remaining <= 0 {
                    let (s2, r) = move_unit_to_graveyard(s1, id);
                    match r {
                        Err(e) => (s2, Err(e)),
                        Ok(_) => (
                            s2,
                            Ok(
                                seq![
                                    damaged,
                                    GameEventView::UnitDied {
                                        card_instance_id: id,
                                        owner_id: u.owner_id,
                                    },
                                ],
                            ),
                        ),
                    }
                } else {
                    (s1, Ok(seq![damaged]))
                }
            },
        }
    }
}

/// Instance `id`, if it exists, is marked as having acted this turn.
pub open spec fn exhaust(s: GameStateView, id: Seq<char>) -> GameStateView {
    if s.instances.contains_key(id) {
        s.with_instance(id, CardInstanceView { exhausted: true, ..s.instances[id] })
    } else {
        s
    }
}

/// What a played card becomes: a unit enters the field with its printed stats and
/// exhausted; a spell goes to the graveyard.
pub open spec fn played_instance(c: CardInstanceView, d: CardDefinitionView) -> CardInstanceView {
    match d.card_type {
        CardType::Unit => match d.unit_stats {
            Some(st) => CardInstanceView {
                zone: Zone::Field,
                attack: Some(st.attack),
                health: Some(st.health),
                max_health: Some(st.health),
                exhausted: true,
                ..c
            },
            None => CardInstanceView { zone: Zone::Field, exhausted: true, ..c },
        },
        CardType::Spell => CardInstanceView { zone: Zone::Graveyard, ..c },
    }
}

/// The player after paying for `d` and moving card `id` from the hand at `hand_index`
/// to the field (a unit) or the graveyard (a spell).
pub open spec fn player_after_play(p: PlayerView, hand_index: int, id: Seq<char>, d: CardDefinitionView) -> PlayerView {
    let paid = PlayerView { mana: (p.mana - d.cost) as u32, hand: p.hand.remove(hand_index), ..p };
    match d.card_type {
        CardType::Unit => PlayerView { field: p.field.push(id), ..paid },
        CardType::Spell => PlayerView { graveyard: p.graveyard.push(id), ..paid },
    }
}

/// Player `player_id` plays card instance `id` from their hand.
pub open spec fn play_card(s: GameStateView, player_id: Seq<char>, id: Seq<char>) -> Outcome {
    match is_current_player(s, player_id) {
        Err(e) => (s, Err(e)),
        Ok(false) => rejected(s, "It is not this player's turn"@),
        Ok(true) => match player_index(s, player_id) {
            None => (s, Err("Player not found"@)),
            Some(pi) => match s.players[pi].hand.index_of_first(id) {
                None => (s, Err("Card is not in player's hand"@)),
                Some(hi) => if !s.instances.contains_key(id) {
                    (s, Err("Card instance not found"@))
                } else {
                    let c = s.instances[id];
                    if c.controller_id != player_id {
                        rejected(s, "Player does not control this card"@)
                    } else if !s.definitions.contains_key(c.definition_id) {
                        (s, Err("Card definition not found"@))
                    } else {
                        let d = s.definitions[c.definition_id];
                        if s.players[pi].mana < d.cost {
                            rejected(s, "Not enough mana"@)
                        } else {
                            let e = GameEventView::CardPlayed {
                                player_id,
                                card_instance_id: id,
                                card_definition_id: d.id,
                                card_name: d.name,
                                cost: d.cost,
                            };
                            (
                                s.with_player(pi, player_after_play(s.players[pi], hi, id, d))
                                    .with_instance(id, played_instance(c, d)).with_event(e),
                                Ok(seq![e]),
                            )
                        }
                    }
                },
            },
        },
    }
}

/// Whether an attack of unit `attacker_id` on unit `target_id` passes every check and
/// comes to blows.
pub open spec fn attack_unit_engages(
    s: GameStateView,
    player_id: Seq<char>,
    attacker_id: Seq<char>,
    target_id: Seq<char>,
) -> bool {
    &&& is_current_player(s, player_id) == Ok::<bool, Seq<char>>(true)
    &&& validate_attacker(s, player_id, attacker_id) is Ok
    &&& s.instances.contains_key(target_id)
    &&& s.instances[target_id].zone == Zone::Field
    &&& s.instances[target_id].controller_id != player_id
    &&& s.instances[attacker_id].attack is Some
    &&& s.instances[target_id].attack is Some
}

/// Unit `attacker_id` of player `player_id` attacks unit `target_id`: each deals its attack
/// to the other, the target first, and the attacker is exhausted.
pub open spec fn attack_unit(
    s: GameStateView,
    player_id: Seq<char>,
    attacker_id: Seq<char>,
    target_id: Seq<char>,
) -> Outcome {
    match is_current_player(s, player_id) {
        Err(e) => (s, Err(e)),
        Ok(false) => rejected(s, "It is not this player's turn"@),
        Ok(true) => match validate_attacker(s, player_id, attacker_id) {
            Err(e) => (s, Err(e)),
            Ok(_) => if !s.instances.contains_key(target_id) {
                (s, Err("Target not found"@))
            } else {
                let a = s.instances[attacker_id];
                let t = s.instances[target_id];
                if t.zone != Zone::Field {
                    rejected(s, "Target is not on the field"@)
                } else if t.controller_id == player_id {
                    rejected(s, "Cannot attack your own unit"@)
                } else {
                    match a.attack {
                        None => (s, Err("Attacker has no attack value"@)),
                        Some(aa) => match t.attack {
                            None => (s, Err("Target has no attack value"@)),
                            Some(ta) => {
                                let first = GameEventView::UnitAttackedUnit {
                                    attacker_id,
                                    target_id,
                                    attacker_damage: ta,
                                    target_damage: aa,
                                };
                                let (s1, r1) = damage_unit(s, target_id, aa);
                                match r1 {
                                    Err(e) => (s1, Err(e)),
                                    Ok(ev1) => {
                                        let (s2, r2) = damage_unit(s1, attacker_id, ta);
                                        match r2 {
                                            Err(e) => (s2, Err(e)),
                                            Ok(ev2) => {
                                                let evs = seq![first] + ev1 + ev2;
                                                (exhaust(s2, attacker_id).with_events(evs), Ok(evs))
                                            },
                                        }
                                    },
                                }
                            },
                        },
                    }
                }
            },
        },
    }
}

/// Whether an attack of unit `attacker_id` on player `target_player_id` passes every
/// check and deals its damage.
pub open spec fn attack_player_engages(
    s: GameStateView,
    player_id: Seq<char>,
    attacker_id: Seq<char>,
    target_player_id: Seq<char>,
) -> bool {
    &&& is_current_player(s, player_id) == Ok::<bool, Seq<char>>(true)
    &&& validate_attacker(s, player_id, attacker_id) is Ok
    &&& player_id != target_player_id
    &&& s.instances[attacker_id].attack is Some
    &&& player_index(s, target_player_id) is Some
}

/// Unit `attacker_id` of player `player_id` attacks player `target_player_id`, who loses
/// as much life as the unit's attack; the attacker is exhausted.
pub open spec fn attack_player(
    s: GameStateView,
    player_id: Seq<char>,
    attacker_id: Seq<char>,
    target_player_id: Seq<char>,
) -> Outcome {
    match is_current_player(s, player_id) {
        Err(e) => (s, Err(e)),
        Ok(false) => rejected(s, "It is not this player's turn"@),
        Ok(true) => match validate_attacker(s, player_id, attacker_id) {
            Err(e) => (s, Err(e)),
            Ok(_) => if player_id == target_player_id {
                rejected(s, "Cannot attack yourself"@)
            } else {
                match s.instances[attacker_id].attack {
                    None => (s, Err("Attacker has no attack value"@)),
                    Some(damage) => match player_index(s, target_player_id) {
                        None => (s, Err("Player not found"@)),
                        Some(ti) => {
                            let p = s.players[ti];
                            let remaining_hp = (p.hp - damage) as i32;
                            let e = GameEventView::UnitAttackedPlayer {
                                attacker_id,
                                target_player_id,
                                damage,
                                remaining_hp,
                            };
                            (
                                exhaust(s.with_player(ti, PlayerView { hp: remaining_hp, ..p }), attacker_id)
                                    .with_event(e),
                                Ok(seq![e]),
                            )
                        },
                    },
                }
            },
        },
    }
}

/// The instances after every instance listed in `ids` is readied.
pub open spec fn ready_all(m: Map<Seq<char>, CardInstanceView>, ids: Seq<Seq<char>>) -> Map<Seq<char>, CardInstanceView> {
    Map::new(
        |k: Seq<char>| m.contains_key(k),
        |k: Seq<char>| if ids.contains(k) {
            CardInstanceView { exhausted: false, ..m[k] }
        } else {
            m[k]
        },
    )
}

/// Player `player_id` ends their turn: the turn passes to the next player in order, the
/// turn counter goes up by one, and the next player's mana is refilled and the units on
/// their field are readied.
pub open spec fn end_turn(s: GameStateView, player_id: Seq<char>) -> Outcome {
    match is_current_player(s, player_id) {
        Err(e) => (s, Err(e)),
        Ok(false) => rejected(s, "Only the current player can end the turn"@),
        Ok(true) => {
            let next = ((s.current_player + 1) % (s.players.len() as int)) as usize;
            let turn = (s.turn + 1) as u32;
            let p = s.players[next as int];
            let e = GameEventView::TurnEnded { player_id, next_player_id: p.id, turn };
            let s2 = GameStateView {
                current_player: next,
                turn,
                players: s.players.update(next as int, PlayerView { mana: p.max_mana, ..p }),
                instances: ready_all(s.instances, p.field),
                ..s
            };
            (s2.with_event(e), Ok(seq![e]))
        },
    }
}

/// Any command, by kind.
pub open spec fn dispatch(s: GameStateView, c: CommandView) -> Outcome {
    match c {
        CommandView::PlayCard { player_id, card_instance_id } => play_card(s, player_id, card_instance_id),
        CommandView::EndTurn { player_id } => end_turn(s, player_id),
        CommandView::AttackUnit { player_id, attacker_id, target_id } => attack_unit(
            s,
            player_id,
            attacker_id,
            target_id,
        ),
        CommandView::AttackPlayer { player_id, attacker_id, target_player_id } => attack_player(
            s,
            player_id,
            attacker_id,
            target_player_id,
        ),
    }
}

/// Whether a command would take a counter out of the range of its machine integer: the
/// turn counter, a player's life, or a unit's health.
pub open spec fn dispatch_overflows(s: GameStateView, c: CommandView) -> bool {
    match c {
        CommandView::PlayCard { .. } => false,
        CommandView::EndTurn { player_id } => is_current_player(s, player_id) == Ok::<
            bool,
            Seq<char>,
        >(true) && s.turn == u32::MAX,
        CommandView::AttackUnit { player_id, attacker_id, target_id } => {
            &&& attack_unit_engages(s, player_id, attacker_id, target_id)
            &&& {
                let aa = s.instances[attacker_id].attack->0;
                let ta = s.instances[target_id].attack->0;
                ||| damage_overflows(s, target_id, aa)
                ||| damage_unit(s, target_id, aa).1 is Ok && damage_overflows(
                    damage_unit(s, target_id, aa).0,
                    attacker_id,
                    ta,
                )
            }
        },
        CommandView::AttackPlayer { player_id, attacker_id, target_player_id } => {
            &&& attack_player_engages(s, player_id, attacker_id, target_player_id)
            &&& {
                let hp = s.players[player_index(s, target_player_id)->0].hp;
                !(i32::MIN <= hp - s.instances[attacker_id].attack->0 <= i32::MAX)
            }
        },
    }
}

/// A unit card's definition.
pub open spec fn unit_definition(id: Seq<char>, name: Seq<char>, cost: u32, attack: i32, health: i32) -> CardDefinitionView {
    CardDefinitionView {
        id,
        name,
        cost,
        card_type: CardType::Unit,
        unit_stats: Some(UnitStats { attack, health }),
        effects: Seq::empty(),
    }
}

/// A card instance as it is dealt: in `zone`, owned and controlled by `owner_id`, with
/// no stats yet and ready.
pub open spec fn dealt_instance(id: Seq<char>, definition_id: Seq<char>, owner_id: Seq<char>, zone: Zone) -> CardInstanceView {
    CardInstanceView {
        id,
        definition_id,
        owner_id,
        controller_id: owner_id,
        zone,
        attack: None,
        health: None,
        max_health: None,
        exhausted: false,
    }
}

/// A player at the start of a game: 20 life, 3 of 3 mana, and `hand` in hand.
pub open spec fn starting_player(id: Seq<char>, hand: Seq<Seq<char>>) -> PlayerView {
    PlayerView {
        id,
        hp: 20,
        mana: 3,
        max_mana: 3,
        deck: Seq::empty(),
        hand,
        field: Seq::empty(),
        graveyard: Seq::empty(),
    }
}

/// The game as it starts: two players with three cards each, the first player to move,
/// turn 1, and one event, the start of the game.
pub open spec fn initial_state() -> GameStateView {
    GameStateView {
        current_player: 0,
        players: seq![
            starting_player("p1"@, seq!["p1_c1"@, "p1_c2"@, "p1_c3"@]),
            starting_player("p2"@, seq!["p2_c1"@, "p2_c2"@, "p2_c3"@]),
        ],
        turn: 1,
        definitions: map![
            "soldier"@ => unit_definition("soldier"@, "Soldier"@, 1, 1, 2),
            "knight"@ => unit_definition("knight"@, "Knight"@, 2, 2, 3),
            "archer"@ => unit_definition("archer"@, "Archer"@, 1, 2, 1),
            "guard"@ => unit_definition("guard"@, "Guard"@, 2, 1, 4),
            "fireball"@ => CardDefinitionView {
                id: "fireball"@,
                name: "Fireball"@,
                cost: 3,
                card_type: CardType::Spell,
                unit_stats: None,
                effects: seq![EffectDefinition::Damage { amount: 3 }],
            },
        ],
        instances: map![
            "p1_c1"@ => dealt_instance("p1_c1"@, "soldier"@, "p1"@, Zone::Hand),
            "p1_c2"@ => dealt_instance("p1_c2"@, "knight"@, "p1"@, Zone::Hand),
            "p1_c3"@ => dealt_instance("p1_c3"@, "fireball"@, "p1"@, Zone::Hand),
            "p2_c1"@ => dealt_instance("p2_c1"@, "archer"@, "p2"@, Zone::Hand),
            "p2_c2"@ => dealt_instance("p2_c2"@, "guard"@, "p2"@, Zone::Hand),
            "p2_c3"@ => dealt_instance("p2_c3"@, "fireball"@, "p2"@, Zone::Hand),
        ],
        events: seq![GameEventView::GameStarted],
    }
}

/// Every identifier in `ids` names a card instance of `m`.
pub open spec fn all_registered(ids: Seq<Seq<char>>, m: Map<Seq<char>, CardInstanceView>) -> bool {
    forall|j: int| 0 <= j < ids.len() ==> m.contains_key(#[trigger] ids[j])
}

/// Every card that a player's hand, field or graveyard lists, and their deck too where
/// `with_deck` holds, is a card instance of the game.
pub open spec fn lists_registered(s: GameStateView, with_deck: bool) -> bool {
    forall|i: int| 0 <= i < s.players.len() ==> {
        &&& with_deck ==> all_registered((#[trigger] s.players[i]).deck, s.instances)
        &&& all_registered(s.players[i].hand, s.instances)
        &&& all_registered(s.players[i].field, s.instances)
        &&& all_registered(s.players[i].graveyard, s.instances)
    }
}

/// No player has more mana than their maximum.
pub open spec fn mana_in_range(s: GameStateView) -> bool {
    forall|i: int| 0 <= i < s.players.len() ==> (#[trigger] s.players[i]).mana <= s.players[i].max_mana
}

/// The turn belongs to one of the players, and no player has more mana than their
/// maximum.
pub open spec fn turn_and_mana_in_range(s: GameStateView) -> bool {
    &&& s.current_player < s.players.len()
    &&& mana_in_range(s)
}

/// Every card instance's owner is one of the game's players.
pub open spec fn owners_are_players(s: GameStateView) -> bool {
    forall|k: Seq<char>| #[trigger] s.instances.contains_key(k) ==> exists|i: int|
        0 <= i < s.players.len() && (#[trigger] s.players[i]).id == s.instances[k].owner_id
}

/// Every unit card's definition prints stats with an attack of at least zero and a health
/// above zero.
pub open spec fn unit_definitions_sound(s: GameStateView) -> bool {
    forall|k: Seq<char>| #[trigger] s.definitions.contains_key(k) && s.definitions[k].card_type
        == CardType::Unit ==> (s.definitions[k].unit_stats matches Some(st) && st.attack >= 0
        && st.health > 0)
}

/// A card on the field has an attack of at least zero, and a health above zero and at
/// most its maximum health.
pub open spec fn fit_for_field(c: CardInstanceView) -> bool {
    &&& c.attack matches Some(a) && a >= 0
    &&& c.health matches Some(h) && c.max_health matches Some(m) && 0 < h <= m
}

/// Every card on the field is fit for it.
pub open spec fn field_units_sound(s: GameStateView) -> bool {
    forall|k: Seq<char>| #[trigger] s.instances.contains_key(k) && s.instances[k].zone == Zone::Field
        ==> fit_for_field(s.instances[k])
}

/// A well-formed game: the turn belongs to one of the players, no player has more mana
/// than their maximum, and every card a player's deck, hand, field or graveyard lists
/// is a card instance of the game.
pub open spec fn valid_state(s: GameStateView) -> bool {
    &&& turn_and_mana_in_range(s)
    &&& lists_registered(s, true)
}

/// Holds of `id` alone.
pub open spec fn same_as(id: Seq<char>) -> spec_fn(Seq<char>) -> bool {
    |x: Seq<char>| x == id
}

/// How many times `id` is listed in `ids`.
pub open spec fn times_listed(ids: Seq<Seq<char>>, id: Seq<char>) -> nat {
    ids.filter(same_as(id)).len()
}

/// The list in which player `p` keeps the cards that are in `zone`.
pub open spec fn zone_list(p: PlayerView, zone: Zone) -> Seq<Seq<char>> {
    match zone {
        Zone::Deck => p.deck,
        Zone::Hand => p.hand,
        Zone::Field => p.field,
        Zone::Graveyard => p.graveyard,
    }
}

/// Whether zone `z` is one that placement counts: every zone, or every zone but the deck.
pub open spec fn zone_counted(z: Zone, with_deck: bool) -> bool {
    with_deck || z != Zone::Deck
}

/// Every card is where its zone says, over the counted zones: players have distinct
/// identifiers, and each card instance is owned and controlled by the same player, one of
/// the game's, is in a counted zone, and is listed exactly once over all the players'
/// lists for counted zones, in its owner's list for its zone.
pub open spec fn cards_placed_in(s: GameStateView, with_deck: bool) -> bool {
    &&& forall|i: int, j: int|
        0 <= i < j < s.players.len() ==> (#[trigger] s.players[i]).id != (#[trigger] s.players[j]).id
    &&& forall|k: Seq<char>| #[trigger] s.instances.contains_key(k) ==> {
        let c = s.instances[k];
        &&& c.controller_id == c.owner_id
        &&& zone_counted(c.zone, with_deck)
        &&& exists|i: int| 0 <= i < s.players.len() && (#[trigger] s.players[i]).id == c.owner_id
        &&& forall|i: int, z: Zone|
            0 <= i < s.players.len() && zone_counted(z, with_deck) ==> times_listed(
                #[trigger] zone_list(s.players[i], z),
                k,
            ) == if s.players[i].id == c.owner_id && z == c.zone {
                1nat
            } else {
                0nat
            }
    }
}

/// Every card is where its zone says: players have distinct identifiers, each card
/// instance is owned and controlled by the same player, one of the game's, and is listed
/// exactly once over all the players' lists, in its owner's list for its zone.
pub open spec fn cards_placed(s: GameStateView) -> bool {
    cards_placed_in(s, true)
}

} // verus!
