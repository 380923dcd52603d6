use tcg_core::{CardInstance, Command, CoreEngine, GameEvent, Zone};

fn s(x: &str) -> String {
    x.to_string()
}

fn play(e: &mut CoreEngine, player: &str, card: &str) -> Result<Vec<GameEvent>, String> {
    e.dispatch(Command::PlayCard { player_id: s(player), card_instance_id: s(card) })
}

fn end_turn(e: &mut CoreEngine, player: &str) -> Result<Vec<GameEvent>, String> {
    e.dispatch(Command::EndTurn { player_id: s(player) })
}

fn attack_unit(e: &mut CoreEngine, player: &str, attacker: &str, target: &str) -> Result<Vec<GameEvent>, String> {
    e.dispatch(Command::AttackUnit {
        player_id: s(player),
        attacker_id: s(attacker),
        target_id: s(target),
    })
}

fn attack_player(e: &mut CoreEngine, player: &str, attacker: &str, target: &str) -> Result<Vec<GameEvent>, String> {
    e.dispatch(Command::AttackPlayer {
        player_id: s(player),
        attacker_id: s(attacker),
        target_player_id: s(target),
    })
}

fn rejected(reason: &str) -> Result<Vec<GameEvent>, String> {
    Ok(vec![GameEvent::CommandRejected { reason: s(reason) }])
}

fn instance<'a>(e: &'a CoreEngine, id: &str) -> &'a CardInstance {
    e.state.card_instances.get(&s(id)).unwrap()
}

/// p1 plays a soldier, p2 plays an archer, and it is p1's turn again (turn 3).
fn units_facing_each_other() -> CoreEngine {
    let mut e = CoreEngine::new();
    play(&mut e, "p1", "p1_c1").unwrap();
    end_turn(&mut e, "p1").unwrap();
    play(&mut e, "p2", "p2_c1").unwrap();
    end_turn(&mut e, "p2").unwrap();
    e
}

fn plain_instance(id: &str, definition: &str, owner: &str, zone: Zone) -> CardInstance {
    CardInstance {
        id: s(id),
        definition_id: s(definition),
        owner_id: s(owner),
        controller_id: s(owner),
        zone,
        attack: None,
        health: None,
        max_health: None,
        exhausted: false,
    }
}

#[test]
fn new_game_starting_position() {
    let e = CoreEngine::new();
    assert_eq!(e.state.current_player, 0);
    assert_eq!(e.state.turn, 1);
    assert_eq!(e.state.events, vec![GameEvent::GameStarted]);
    assert_eq!(e.state.players.len(), 2);
    let p1 = &e.state.players[0];
    assert_eq!(p1.id, "p1");
    assert_eq!((p1.hp, p1.mana, p1.max_mana), (20, 3, 3));
    assert_eq!(p1.hand, vec![s("p1_c1"), s("p1_c2"), s("p1_c3")]);
    assert!(p1.deck.is_empty() && p1.field.is_empty() && p1.graveyard.is_empty());
    let p2 = &e.state.players[1];
    assert_eq!(p2.id, "p2");
    assert_eq!(p2.hand, vec![s("p2_c1"), s("p2_c2"), s("p2_c3")]);
    assert_eq!(e.state.card_definitions.entries().len(), 5);
    assert_eq!(e.state.card_instances.entries().len(), 6);
    let knight = e.state.card_definitions.get(&s("knight")).unwrap();
    assert_eq!((knight.name.as_str(), knight.cost), ("Knight", 2));
    assert_eq!(knight.unit_stats.map(|u| (u.attack, u.health)), Some((2, 3)));
    let fireball = e.state.card_definitions.get(&s("fireball")).unwrap();
    assert_eq!(fireball.card_type, tcg_core::CardType::Spell);
    assert!(fireball.unit_stats.is_none());
    assert_eq!(fireball.effects, vec![tcg_core::EffectDefinition::Damage { amount: 3 }]);
    let c = instance(&e, "p2_c2");
    assert_eq!((c.definition_id.as_str(), c.owner_id.as_str(), c.controller_id.as_str()), ("guard", "p2", "p2"));
    assert_eq!(c.zone, Zone::Hand);
    assert_eq!((c.attack, c.health, c.max_health, c.exhausted), (None, None, None, false));
}

#[test]
fn play_unit_card_enters_field_exhausted() {
    let mut e = CoreEngine::new();
    let r = play(&mut e, "p1", "p1_c1");
    let played = GameEvent::CardPlayed {
        player_id: s("p1"),
        card_instance_id: s("p1_c1"),
        card_definition_id: s("soldier"),
        card_name: s("Soldier"),
        cost: 1,
    };
    assert_eq!(r, Ok(vec![played.clone()]));
    let p1 = &e.state.players[0];
    assert_eq!(p1.mana, 2);
    assert_eq!(p1.hand, vec![s("p1_c2"), s("p1_c3")]);
    assert_eq!(p1.field, vec![s("p1_c1")]);
    let c = instance(&e, "p1_c1");
    assert_eq!(c.zone, Zone::Field);
    assert_eq!((c.attack, c.health, c.max_health, c.exhausted), (Some(1), Some(2), Some(2), true));
    assert_eq!(e.state.events, vec![GameEvent::GameStarted, played]);
}

#[test]
fn play_spell_card_goes_to_graveyard() {
    let mut e = CoreEngine::new();
    let r = play(&mut e, "p1", "p1_c3");
    assert_eq!(
        r,
        Ok(vec![GameEvent::CardPlayed {
            player_id: s("p1"),
            card_instance_id: s("p1_c3"),
            card_definition_id: s("fireball"),
            card_name: s("Fireball"),
            cost: 3,
        }])
    );
    let p1 = &e.state.players[0];
    assert_eq!(p1.mana, 0);
    assert_eq!(p1.graveyard, vec![s("p1_c3")]);
    assert!(p1.field.is_empty());
    let c = instance(&e, "p1_c3");
    assert_eq!(c.zone, Zone::Graveyard);
    assert_eq!((c.attack, c.health, c.exhausted), (None, None, false));
}

#[test]
fn playing_without_enough_mana_is_refused() {
    let mut e = CoreEngine::new();
    play(&mut e, "p1", "p1_c2").unwrap();
    assert_eq!(e.state.players[0].mana, 1);
    let before_hand = e.state.players[0].hand.clone();
    let r = play(&mut e, "p1", "p1_c3");
    assert_eq!(r, rejected("Not enough mana"));
    assert_eq!(e.state.players[0].mana, 1);
    assert_eq!(e.state.players[0].hand, before_hand);
    assert_eq!(instance(&e, "p1_c3").zone, Zone::Hand);
    assert_eq!(
        e.state.events.last(),
        Some(&GameEvent::CommandRejected { reason: s("Not enough mana") })
    );
}

#[test]
fn playing_out_of_turn_is_refused() {
    let mut e = CoreEngine::new();
    let r = play(&mut e, "p2", "p2_c1");
    assert_eq!(r, rejected("It is not this player's turn"));
    assert_eq!(e.state.players[1].hand.len(), 3);
    assert_eq!(e.state.events.len(), 2);
}

#[test]
fn playing_a_card_not_in_hand_fails() {
    let mut e = CoreEngine::new();
    assert_eq!(play(&mut e, "p1", "p2_c1"), Err(s("Card is not in player's hand")));
    assert_eq!(play(&mut e, "p1", "nothing"), Err(s("Card is not in player's hand")));
    assert_eq!(e.state.events, vec![GameEvent::GameStarted]);
}

#[test]
fn playing_a_card_that_does_not_exist_fails() {
    let mut e = CoreEngine::new();
    e.state.players[0].hand.push(s("ghost"));
    assert_eq!(play(&mut e, "p1", "ghost"), Err(s("Card instance not found")));
    assert_eq!(e.state.events.len(), 1);
}

#[test]
fn playing_a_card_of_unknown_definition_fails() {
    let mut e = CoreEngine::new();
    e.state.players[0].hand.push(s("p1_c9"));
    e.state
        .card_instances
        .insert(s("p1_c9"), plain_instance("p1_c9", "dragon", "p1", Zone::Hand));
    assert_eq!(play(&mut e, "p1", "p1_c9"), Err(s("Card definition not found")));
    assert_eq!(e.state.players[0].mana, 3);
}

#[test]
fn playing_another_players_card_is_refused() {
    let mut e = CoreEngine::new();
    e.state.players[0].hand.push(s("p2_c1"));
    assert_eq!(play(&mut e, "p1", "p2_c1"), rejected("Player does not control this card"));
    assert_eq!(e.state.players[0].hand.len(), 4);
}

#[test]
fn unknown_current_player_index_fails() {
    let mut e = CoreEngine::new();
    e.state.current_player = 5;
    assert_eq!(play(&mut e, "p1", "p1_c1"), Err(s("Invalid current player index")));
    assert_eq!(end_turn(&mut e, "p1"), Err(s("Invalid current player index")));
    assert_eq!(attack_player(&mut e, "p1", "p1_c1", "p2"), Err(s("Invalid current player index")));
    assert_eq!(attack_unit(&mut e, "p1", "p1_c1", "p2_c1"), Err(s("Invalid current player index")));
}

#[test]
fn end_turn_passes_to_next_player() {
    let mut e = CoreEngine::new();
    play(&mut e, "p1", "p1_c1").unwrap();
    let r = end_turn(&mut e, "p1");
    assert_eq!(
        r,
        Ok(vec![GameEvent::TurnEnded { player_id: s("p1"), next_player_id: s("p2"), turn: 2 }])
    );
    assert_eq!(e.state.current_player, 1);
    assert_eq!(e.state.turn, 2);
    assert_eq!(e.state.players[1].mana, 3);
    // p1's soldier stays exhausted until p1's own turn comes round
    assert!(instance(&e, "p1_c1").exhausted);
    assert_eq!(e.state.players[0].mana, 2);
    let r = end_turn(&mut e, "p2");
    assert_eq!(
        r,
        Ok(vec![GameEvent::TurnEnded { player_id: s("p2"), next_player_id: s("p1"), turn: 3 }])
    );
    assert_eq!(e.state.current_player, 0);
    assert_eq!(e.state.players[0].mana, 3);
    assert!(!instance(&e, "p1_c1").exhausted);
}

#[test]
fn end_turn_by_other_player_is_refused() {
    let mut e = CoreEngine::new();
    assert_eq!(end_turn(&mut e, "p2"), rejected("Only the current player can end the turn"));
    assert_eq!(e.state.turn, 1);
    assert_eq!(e.state.current_player, 0);
}

#[test]
fn just_played_unit_cannot_attack() {
    let mut e = CoreEngine::new();
    play(&mut e, "p1", "p1_c1").unwrap();
    assert_eq!(attack_player(&mut e, "p1", "p1_c1", "p2"), Err(s("Attacker is exhausted")));
    assert_eq!(attack_unit(&mut e, "p1", "p1_c1", "p2_c1"), Err(s("Attacker is exhausted")));
}

#[test]
fn just_played_spell_cannot_attack() {
    let mut e = CoreEngine::new();
    play(&mut e, "p1", "p1_c3").unwrap();
    assert_eq!(attack_player(&mut e, "p1", "p1_c3", "p2"), Err(s("Attacker is not on the field")));
}

#[test]
fn unit_attacks_player() {
    let mut e = units_facing_each_other();
    let r = attack_player(&mut e, "p1", "p1_c1", "p2");
    let ev = GameEvent::UnitAttackedPlayer {
        attacker_id: s("p1_c1"),
        target_player_id: s("p2"),
        damage: 1,
        remaining_hp: 19,
    };
    assert_eq!(r, Ok(vec![ev.clone()]));
    assert_eq!(e.state.players[1].hp, 19);
    assert!(instance(&e, "p1_c1").exhausted);
    assert_eq!(e.state.events.last(), Some(&ev));
}

#[test]
fn unit_cannot_attack_twice_in_a_turn() {
    let mut e = units_facing_each_other();
    attack_player(&mut e, "p1", "p1_c1", "p2").unwrap();
    assert_eq!(attack_player(&mut e, "p1", "p1_c1", "p2"), Err(s("Attacker is exhausted")));
    assert_eq!(attack_unit(&mut e, "p1", "p1_c1", "p2_c1"), Err(s("Attacker is exhausted")));
    assert_eq!(e.state.players[1].hp, 19);
}

#[test]
fn units_trade_and_both_die() {
    let mut e = units_facing_each_other();
    let r = attack_unit(&mut e, "p1", "p1_c1", "p2_c1");
    let expected = vec![
        GameEvent::UnitAttackedUnit {
            attacker_id: s("p1_c1"),
            target_id: s("p2_c1"),
            attacker_damage: 2,
            target_damage: 1,
        },
        GameEvent::UnitDamaged { card_instance_id: s("p2_c1"), damage: 1, remaining_health: 0 },
        GameEvent::UnitDied { card_instance_id: s("p2_c1"), owner_id: s("p2") },
        GameEvent::UnitDamaged { card_instance_id: s("p1_c1"), damage: 2, remaining_health: 0 },
        GameEvent::UnitDied { card_instance_id: s("p1_c1"), owner_id: s("p1") },
    ];
    assert_eq!(r, Ok(expected.clone()));
    assert!(e.state.players[0].field.is_empty());
    assert!(e.state.players[1].field.is_empty());
    assert_eq!(e.state.players[0].graveyard, vec![s("p1_c1")]);
    assert_eq!(e.state.players[1].graveyard, vec![s("p2_c1")]);
    let a = instance(&e, "p1_c1");
    assert_eq!((a.zone, a.health, a.exhausted), (Zone::Graveyard, Some(0), true));
    let t = instance(&e, "p2_c1");
    assert_eq!((t.zone, t.health, t.exhausted), (Zone::Graveyard, Some(0), true));
    let n = e.state.events.len();
    assert_eq!(e.state.events[n - 5..].to_vec(), expected);
}

#[test]
fn surviving_units_keep_their_damage() {
    let mut e = CoreEngine::new();
    play(&mut e, "p1", "p1_c2").unwrap(); // knight 2/3
    end_turn(&mut e, "p1").unwrap();
    play(&mut e, "p2", "p2_c2").unwrap(); // guard 1/4
    end_turn(&mut e, "p2").unwrap();
    let r = attack_unit(&mut e, "p1", "p1_c2", "p2_c2").unwrap();
    assert_eq!(
        r,
        vec![
            GameEvent::UnitAttackedUnit {
                attacker_id: s("p1_c2"),
                target_id: s("p2_c2"),
                attacker_damage: 1,
                target_damage: 2,
            },
            GameEvent::UnitDamaged { card_instance_id: s("p2_c2"), damage: 2, remaining_health: 2 },
            GameEvent::UnitDamaged { card_instance_id: s("p1_c2"), damage: 1, remaining_health: 2 },
        ]
    );
    let knight = instance(&e, "p1_c2");
    assert_eq!((knight.zone, knight.health, knight.max_health, knight.exhausted), (Zone::Field, Some(2), Some(3), true));
    let guard = instance(&e, "p2_c2");
    assert_eq!((guard.zone, guard.health, guard.exhausted), (Zone::Field, Some(2), true));
    assert_eq!(e.state.players[1].field, vec![s("p2_c2")]);
}

#[test]
fn attacking_yourself_is_refused() {
    let mut e = units_facing_each_other();
    assert_eq!(attack_player(&mut e, "p1", "p1_c1", "p1"), rejected("Cannot attack yourself"));
    assert!(!instance(&e, "p1_c1").exhausted);
    assert_eq!(e.state.players[0].hp, 20);
}

#[test]
fn attacking_own_unit_is_refused() {
    let mut e = CoreEngine::new();
    play(&mut e, "p1", "p1_c1").unwrap();
    play(&mut e, "p1", "p1_c2").unwrap();
    end_turn(&mut e, "p1").unwrap();
    end_turn(&mut e, "p2").unwrap();
    assert_eq!(attack_unit(&mut e, "p1", "p1_c1", "p1_c2"), rejected("Cannot attack your own unit"));
    assert_eq!(instance(&e, "p1_c2").health, Some(3));
}

#[test]
fn attacking_a_unit_in_hand_is_refused() {
    let mut e = units_facing_each_other();
    assert_eq!(attack_unit(&mut e, "p1", "p1_c1", "p2_c2"), rejected("Target is not on the field"));
}

#[test]
fn attacking_a_missing_target_fails() {
    let mut e = units_facing_each_other();
    assert_eq!(attack_unit(&mut e, "p1", "p1_c1", "nobody"), Err(s("Target not found")));
    assert_eq!(attack_player(&mut e, "p1", "p1_c1", "p3"), Err(s("Player not found")));
    assert!(!instance(&e, "p1_c1").exhausted);
}

#[test]
fn invalid_attackers_fail() {
    let mut e = units_facing_each_other();
    assert_eq!(attack_player(&mut e, "p1", "nobody", "p2"), Err(s("Attacker not found")));
    assert_eq!(attack_player(&mut e, "p1", "p1_c2", "p2"), Err(s("Attacker is not on the field")));
    assert_eq!(attack_player(&mut e, "p1", "p2_c1", "p2"), Err(s("Player does not control attacker")));
    let mut odd = plain_instance("p1_c7", "soldier", "p1", Zone::Field);
    odd.attack = Some(3);
    e.state.card_instances.insert(s("p1_c7"), odd);
    assert_eq!(attack_unit(&mut e, "p1", "p1_c7", "p2_c1"), Err(s("Attacker is not a unit")));
}

#[test]
fn attacking_out_of_turn_is_refused() {
    let mut e = units_facing_each_other();
    assert_eq!(attack_player(&mut e, "p2", "p2_c1", "p1"), rejected("It is not this player's turn"));
    assert_eq!(attack_unit(&mut e, "p2", "p2_c1", "p1_c1"), rejected("It is not this player's turn"));
}

#[test]
fn target_without_attack_or_health_fails() {
    let mut e = units_facing_each_other();
    let wall = plain_instance("p2_c8", "guard", "p2", Zone::Field);
    e.state.card_instances.insert(s("p2_c8"), wall);
    assert_eq!(attack_unit(&mut e, "p1", "p1_c1", "p2_c8"), Err(s("Target has no attack value")));
    let mut ghost = plain_instance("p2_c9", "guard", "p2", Zone::Field);
    ghost.attack = Some(1);
    e.state.card_instances.insert(s("p2_c9"), ghost);
    assert_eq!(attack_unit(&mut e, "p1", "p1_c1", "p2_c9"), Err(s("Unit has no health")));
    assert!(!instance(&e, "p1_c1").exhausted);
}

#[test]
fn failed_death_of_ownerless_unit_keeps_damage() {
    let mut e = units_facing_each_other();
    let mut stray = plain_instance("x_c1", "archer", "nobody", Zone::Field);
    stray.controller_id = s("p2");
    stray.attack = Some(1);
    stray.health = Some(1);
    e.state.card_instances.insert(s("x_c1"), stray);
    let events_before = e.state.events.len();
    assert_eq!(attack_unit(&mut e, "p1", "p1_c1", "x_c1"), Err(s("Player not found")));
    assert_eq!(instance(&e, "x_c1").health, Some(0));
    assert_eq!(instance(&e, "x_c1").zone, Zone::Field);
    assert!(!instance(&e, "p1_c1").exhausted);
    assert_eq!(e.state.events.len(), events_before);
}

#[test]
fn overflowing_commands_are_detected() {
    let mut e = units_facing_each_other();
    let attack = Command::AttackPlayer {
        player_id: s("p1"),
        attacker_id: s("p1_c1"),
        target_player_id: s("p2"),
    };
    assert!(!e.command_overflows(&attack));
    e.state.players[1].hp = i32::MIN;
    assert!(e.command_overflows(&attack));
    let hit = Command::AttackUnit { player_id: s("p1"), attacker_id: s("p1_c1"), target_id: s("p2_c1") };
    assert!(!e.command_overflows(&hit));
    let mut archer = e.state.card_instances.get(&s("p2_c1")).unwrap().clone();
    archer.health = Some(i32::MIN);
    e.state.card_instances.insert(s("p2_c1"), archer);
    assert!(e.command_overflows(&hit));
    let end = Command::EndTurn { player_id: s("p1") };
    assert!(!e.command_overflows(&end));
    e.state.turn = u32::MAX;
    assert!(e.command_overflows(&end));
    assert!(!e.command_overflows(&Command::EndTurn { player_id: s("p2") }));
    assert!(!e.command_overflows(&Command::PlayCard { player_id: s("p1"), card_instance_id: s("p1_c2") }));
}

#[test]
fn attacker_health_overflow_is_detected() {
    let mut e = units_facing_each_other();
    let mut soldier = e.state.card_instances.get(&s("p1_c1")).unwrap().clone();
    soldier.health = Some(i32::MIN + 1);
    e.state.card_instances.insert(s("p1_c1"), soldier);
    let hit = Command::AttackUnit { player_id: s("p1"), attacker_id: s("p1_c1"), target_id: s("p2_c1") };
    assert!(e.command_overflows(&hit));
}

#[test]
fn event_log_holds_every_returned_event() {
    let mut e = CoreEngine::new();
    let mut expected = vec![GameEvent::GameStarted];
    let commands = vec![
        Command::PlayCard { player_id: s("p1"), card_instance_id: s("p1_c1") },
        Command::PlayCard { player_id: s("p2"), card_instance_id: s("p2_c1") },
        Command::EndTurn { player_id: s("p1") },
        Command::PlayCard { player_id: s("p2"), card_instance_id: s("p2_c1") },
        Command::AttackUnit { player_id: s("p2"), attacker_id: s("p2_c1"), target_id: s("p1_c1") },
        Command::EndTurn { player_id: s("p2") },
        Command::AttackUnit { player_id: s("p1"), attacker_id: s("p1_c1"), target_id: s("p2_c1") },
        Command::PlayCard { player_id: s("p1"), card_instance_id: s("zzz") },
    ];
    for c in commands {
        match e.dispatch(c) {
            Ok(evs) => expected.extend(evs),
            Err(_) => {},
        }
        assert_eq!(e.state.events, expected);
    }
    assert_eq!(e.state.events.len(), 11);
}

#[test]
fn commands_keep_every_listed_card_registered() {
    let mut e = units_facing_each_other();
    attack_unit(&mut e, "p1", "p1_c1", "p2_c1").unwrap();
    play(&mut e, "p1", "p1_c2").unwrap();
    end_turn(&mut e, "p1").unwrap();
    assert_eq!(e.state.card_instances.entries().len(), 6);
    assert_eq!(e.state.card_definitions.entries().len(), 5);
    assert!(e.state.current_player < e.state.players.len());
    for p in e.state.players.iter() {
        assert!(p.mana <= p.max_mana);
        for id in p.deck.iter().chain(p.hand.iter()).chain(p.field.iter()).chain(p.graveyard.iter()) {
            assert!(e.state.card_instances.get(id).is_some());
        }
    }
}

#[test]
fn turn_counter_counts_only_ended_turns() {
    let mut e = CoreEngine::new();
    play(&mut e, "p1", "p1_c1").unwrap();
    end_turn(&mut e, "p2").unwrap();
    assert_eq!(e.state.turn, 1);
    for t in 2..6u32 {
        let who = if t % 2 == 0 { "p1" } else { "p2" };
        end_turn(&mut e, who).unwrap();
        assert_eq!(e.state.turn, t);
    }
}

#[test]
fn clones_are_equal() {
    let e = CoreEngine::new();
    let c = instance(&e, "p1_c2").clone();
    assert_eq!(c.id, "p1_c2");
    assert_eq!(c.definition_id, "knight");
    assert_eq!(c.zone, Zone::Hand);
    let ev = GameEvent::UnitBuffed {
        card_instance_id: s("p1_c2"),
        attack_delta: 1,
        health_delta: 2,
        new_attack: 3,
        new_health: 5,
    };
    assert_eq!(ev.clone(), ev);
    let ev = GameEvent::PlayerHealed { player_id: s("p1"), amount: 2, new_hp: 22 };
    assert_eq!(ev.clone(), ev);
}

#[test]
fn every_card_is_in_exactly_one_place() {
    let mut e = units_facing_each_other();
    play(&mut e, "p1", "p1_c3").unwrap();
    attack_unit(&mut e, "p1", "p1_c1", "p2_c1").unwrap();
    end_turn(&mut e, "p1").unwrap();
    play(&mut e, "p2", "p2_c2").unwrap();
    for (id, c) in e.state.card_instances.entries().iter() {
        assert_eq!(&c.owner_id, &c.controller_id);
        let mut places = Vec::new();
        for p in e.state.players.iter() {
            let lists = [
                (Zone::Deck, &p.deck),
                (Zone::Hand, &p.hand),
                (Zone::Field, &p.field),
                (Zone::Graveyard, &p.graveyard),
            ];
            for (zone, list) in lists.iter() {
                for listed in list.iter() {
                    if listed == id {
                        places.push((p.id.clone(), *zone));
                    }
                }
            }
        }
        assert_eq!(places, vec![(c.owner_id.clone(), c.zone)]);
    }
    assert_eq!(instance(&e, "p1_c3").zone, Zone::Graveyard);
    assert_eq!(instance(&e, "p2_c2").zone, Zone::Field);
}

#[test]
fn field_units_stay_fit() {
    let mut e = CoreEngine::new();
    play(&mut e, "p1", "p1_c2").unwrap(); // knight 2/3
    end_turn(&mut e, "p1").unwrap();
    play(&mut e, "p2", "p2_c1").unwrap(); // archer 2/1
    play(&mut e, "p2", "p2_c3").unwrap_or_default();
    end_turn(&mut e, "p2").unwrap();
    attack_unit(&mut e, "p1", "p1_c2", "p2_c1").unwrap();
    for (_, c) in e.state.card_instances.entries().iter() {
        if c.zone == Zone::Field {
            let (a, h, m) = (c.attack.unwrap(), c.health.unwrap(), c.max_health.unwrap());
            assert!(a >= 0 && 0 < h && h <= m);
        }
    }
    assert_eq!(instance(&e, "p1_c2").health, Some(1));
    assert_eq!(instance(&e, "p2_c1").zone, Zone::Graveyard);
    for p in e.state.players.iter() {
        assert!(p.mana <= p.max_mana);
        assert_eq!(p.max_mana, 3);
    }
}

#[test]
fn dying_unit_is_not_listed_twice_in_graveyard() {
    let mut e = units_facing_each_other();
    e.state.players[1].graveyard.push(s("p2_c1"));
    attack_unit(&mut e, "p1", "p1_c1", "p2_c1").unwrap();
    assert_eq!(e.state.players[1].graveyard, vec![s("p2_c1")]);
    assert!(e.state.players[1].field.is_empty());
}

#[test]
fn failed_commands_leave_state_unchanged() {
    let mut e = units_facing_each_other();
    let before = format!("{:?}", e.state);
    assert!(attack_unit(&mut e, "p1", "p1_c1", "nobody").is_err());
    assert!(attack_player(&mut e, "p1", "p1_c2", "p2").is_err());
    assert!(play(&mut e, "p1", "p2_c2").is_err());
    assert_eq!(format!("{:?}", e.state), before);
}

#[test]
fn equal_games_given_equal_commands_stay_equal() {
    let mut a = CoreEngine::new();
    let mut b = CoreEngine { state: a.state.clone() };
    let commands = vec![
        Command::PlayCard { player_id: s("p1"), card_instance_id: s("p1_c1") },
        Command::EndTurn { player_id: s("p1") },
        Command::PlayCard { player_id: s("p2"), card_instance_id: s("p2_c1") },
        Command::EndTurn { player_id: s("p2") },
        Command::AttackUnit { player_id: s("p1"), attacker_id: s("p1_c1"), target_id: s("p2_c1") },
    ];
    for c in commands {
        let ra = a.dispatch(c.clone());
        let rb = b.dispatch(c);
        assert_eq!(ra, rb);
        assert_eq!(format!("{:?}", a.state), format!("{:?}", b.state));
    }
}

#[test]
fn life_never_rises_and_log_never_shrinks() {
    let mut e = units_facing_each_other();
    let hp = |e: &CoreEngine| e.state.players.iter().map(|p| p.hp).collect::<Vec<i32>>();
    let mut last_hp = hp(&e);
    let mut last_len = e.state.events.len();
    let commands = vec![
        Command::AttackPlayer { player_id: s("p1"), attacker_id: s("p1_c1"), target_player_id: s("p2") },
        Command::EndTurn { player_id: s("p1") },
        Command::AttackPlayer { player_id: s("p2"), attacker_id: s("p2_c1"), target_player_id: s("p1") },
        Command::EndTurn { player_id: s("p2") },
        Command::AttackPlayer { player_id: s("p1"), attacker_id: s("p1_c1"), target_player_id: s("p2") },
    ];
    for c in commands {
        let _ = e.dispatch(c);
        let now = hp(&e);
        for (x, y) in now.iter().zip(last_hp.iter()) {
            assert!(x <= y);
        }
        assert!(e.state.events.len() >= last_len);
        last_hp = now;
        last_len = e.state.events.len();
    }
    assert_eq!(last_hp, vec![18, 18]);
}

#[test]
fn cloned_state_and_maps_are_equal() {
    let e = CoreEngine::new();
    let copy = e.state.clone();
    assert_eq!(format!("{:?}", copy), format!("{:?}", e.state));
    let defs = e.state.card_definitions.clone();
    assert_eq!(defs.entries().len(), 5);
    assert_eq!(defs.get(&s("guard")).unwrap().cost, 2);
}
