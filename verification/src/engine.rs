use vstd::prelude::*;

use crate::command::{Command, CommandView};
use crate::event::{GameEvent, GameEventView};
use crate::id_map::IdMap;
use crate::model::{
    ids_view, CardDefinitionView, EffectDefinition,
    CardDefinition, CardInstance, CardInstanceView, CardType, GameState, GameStateView,
    PlayerState, PlayerView, UnitStats, Zone,
};
use crate::rules;

verus! {

/// What a command returned, as events and reasons.
pub open spec fn result_view(r: Result<Vec<GameEvent>, String>) -> Result<Seq<GameEventView>, Seq<char>> {
    match r {
        Ok(v) => Ok(v@.map_values(|e: GameEvent| e@)),
        Err(e) => Err(e@),
    }
}

/// Whether `id` is listed in `ids`.
fn contains_id(ids: &Vec<String>, id: &String) -> (r: bool)
    ensures
        r == ids_view(ids@).contains(id@),
{
    let mut i: usize = 0;
    while i < ids.len()
        invariant
            i <= ids@.len(),
            forall|j: int| 0 <= j < i ==> ids@[j]@ != id@,
        decreases ids@.len() - i,
    {
        if ids[i] == *id {
            assert(ids_view(ids@)[i as int] == id@);
            return true;
        }
        i = i + 1;
    }
    assert(!ids_view(ids@).contains(id@)) by {
        if ids_view(ids@).contains(id@) {
            let j = choose|j: int| 0 <= j < ids_view(ids@).len() && ids_view(ids@)[j] == id@;
            assert(ids@[j]@ == id@);
        }
    }
    false
}

/// The position of the first listing of `id` in `ids`.
fn position_of_id(ids: &Vec<String>, id: &String) -> (r: Option<usize>)
    ensures
        match r {
            Some(i) => ids_view(ids@).index_of_first(id@) == Some(i as int) && i < ids@.len(),
            None => ids_view(ids@).index_of_first(id@) is None,
        },
{
    let ghost v = ids_view(ids@);
    let mut i: usize = 0;
    while i < ids.len()
        invariant
            i <= ids@.len(),
            v == ids_view(ids@),
            forall|j: int| 0 <= j < i ==> v[j] != id@,
        decreases ids@.len() - i,
    {
        if ids[i] == *id {
            proof {
                assert(v[i as int] == id@);
                v.index_of_first_ensures(id@);
                let idx = v.index_of_first(id@)->0;
                if idx > i {
                    assert(v[i as int] != id@);
                }
            }
            return Some(i);
        }
        i = i + 1;
    }
    proof {
        v.index_of_first_ensures(id@);
        if v.index_of_first(id@) is Some {
            let idx = v.index_of_first(id@)->0;
            assert(v[idx] == id@);
        }
    }
    None
}

/// The identifiers in `ids` other than `id`, in their order.
fn without_id(ids: &Vec<String>, id: &String) -> (r: Vec<String>)
    ensures
        ids_view(r@) == ids_view(ids@).filter(rules::other_than(id@)),
{
    let mut kept: Vec<String> = Vec::new();
    let mut i: usize = 0;
    while i < ids.len()
        invariant
            i <= ids@.len(),
            ids_view(kept@) == ids_view(ids@).take(i as int).filter(rules::other_than(id@)),
        decreases ids@.len() - i,
    {
        proof {
            assert(ids_view(ids@).take(i + 1) =~= ids_view(ids@).take(i as int).push(ids@[i as int]@));
            ids_view(ids@).take(i as int).lemma_filter_push(ids@[i as int]@, rules::other_than(id@));
        }
        if ids[i] != *id {
            kept.push(ids[i].clone());
            assert(ids_view(kept@) =~= ids_view(kept@).drop_last().push(ids@[i as int]@));
        }
        i = i + 1;
    }
    assert(ids_view(ids@).take(ids@.len() as int) =~= ids_view(ids@));
    kept
}

/// A list of one event.
fn single_event(e: GameEvent) -> (v: Vec<GameEvent>)
    ensures
        v@.map_values(|x: GameEvent| x@) == seq![e@],
{
    let v = vec![e];
    assert(v@.map_values(|x: GameEvent| x@) =~= seq![e@]);
    v
}

/// The game engine: a game state that commands act on.
pub struct CoreEngine {
    pub state: GameState,
}

/// The view of a map of card instances.
pub open spec fn instance_views(m: Map<Seq<char>, CardInstance>) -> Map<Seq<char>, CardInstanceView> {
    m.map_values(|c: CardInstance| c@)
}

/// The view of a map of card definitions.
pub open spec fn definition_views(m: Map<Seq<char>, CardDefinition>) -> Map<Seq<char>, CardDefinitionView> {
    m.map_values(|d: CardDefinition| d@)
}

/// Stores `def` under its own identifier.
fn define_card(card_definitions: &mut IdMap<CardDefinition>, def: CardDefinition)
    ensures
        definition_views(final(card_definitions)@) == definition_views(old(card_definitions)@).insert(def.id@, def@),
{
    let id = def.id.clone();
    card_definitions.insert(id, def);
    assert(definition_views(card_definitions@) =~= definition_views(old(card_definitions)@).insert(def.id@, def@));
}

/// A unit card's definition.
fn unit_definition(id: &str, name: &str, cost: u32, attack: i32, health: i32) -> (d: CardDefinition)
    ensures
        d@ == rules::unit_definition(id@, name@, cost, attack, health),
{
    let d = CardDefinition {
        id: id.to_string(),
        name: name.to_string(),
        cost,
        card_type: CardType::Unit,
        unit_stats: Some(UnitStats { attack, health }),
        effects: Vec::new(),
    };
    assert(d@ =~= rules::unit_definition(id@, name@, cost, attack, health));
    d
}

/// A player at the start of a game.
fn starting_player(id: &str, hand: Vec<String>) -> (p: PlayerState)
    ensures
        p@ == rules::starting_player(id@, ids_view(hand@)),
{
    let p = PlayerState {
        id: id.to_string(),
        hp: 20,
        mana: 3,
        max_mana: 3,
        deck: Vec::new(),
        hand,
        field: Vec::new(),
        graveyard: Vec::new(),
    };
    assert(p@ =~= rules::starting_player(id@, ids_view(hand@)));
    p
}

impl CoreEngine {
    /// A new game in its starting position.
    pub fn new() -> (e: Self)
        ensures
            e.state@ == rules::initial_state(),
    {
        let mut card_definitions: IdMap<CardDefinition> = IdMap::new();
        define_card(&mut card_definitions, unit_definition("soldier", "Soldier", 1, 1, 2));
        define_card(&mut card_definitions, unit_definition("knight", "Knight", 2, 2, 3));
        define_card(&mut card_definitions, unit_definition("archer", "Archer", 1, 2, 1));
        define_card(&mut card_definitions, unit_definition("guard", "Guard", 2, 1, 4));
        let effects = vec![EffectDefinition::Damage { amount: 3 }];
        assert(effects@ =~= seq![EffectDefinition::Damage { amount: 3 }]);
        define_card(
            &mut card_definitions,
            CardDefinition {
                id: "fireball".to_string(),
                name: "Fireball".to_string(),
                cost: 3,
                card_type: CardType::Spell,
                unit_stats: None,
                effects,
            },
        );

        let mut card_instances: IdMap<CardInstance> = IdMap::new();
        let mut p1_hand: Vec<String> = Vec::new();
        p1_hand.push(Self::create_card_instance(&mut card_instances, "p1_c1", "soldier", "p1", Zone::Hand));
        p1_hand.push(Self::create_card_instance(&mut card_instances, "p1_c2", "knight", "p1", Zone::Hand));
        p1_hand.push(Self::create_card_instance(&mut card_instances, "p1_c3", "fireball", "p1", Zone::Hand));
        let mut p2_hand: Vec<String> = Vec::new();
        p2_hand.push(Self::create_card_instance(&mut card_instances, "p2_c1", "archer", "p2", Zone::Hand));
        p2_hand.push(Self::create_card_instance(&mut card_instances, "p2_c2", "guard", "p2", Zone::Hand));
        p2_hand.push(Self::create_card_instance(&mut card_instances, "p2_c3", "fireball", "p2", Zone::Hand));
        assert(ids_view(p1_hand@) =~= seq!["p1_c1"@, "p1_c2"@, "p1_c3"@]);
        assert(ids_view(p2_hand@) =~= seq!["p2_c1"@, "p2_c2"@, "p2_c3"@]);

        let player1 = starting_player("p1", p1_hand);
        let player2 = starting_player("p2", p2_hand);
        let mut players: Vec<PlayerState> = Vec::new();
        players.push(player1);
        players.push(player2);
        let mut events: Vec<GameEvent> = Vec::new();
        events.push(GameEvent::GameStarted);
        let e = CoreEngine {
            state: GameState {
                current_player: 0,
                players,
                turn: 1,
                card_definitions,
                card_instances,
                events,
            },
        };
        assert(e.state@.players =~= rules::initial_state().players);
        assert(e.state@.events =~= rules::initial_state().events);
        assert(e.state@.definitions =~= rules::initial_state().definitions);
        assert(e.state@.instances =~= rules::initial_state().instances);
        e
    }

    fn create_card_instance(
        card_instances: &mut IdMap<CardInstance>,
        instance_id: &str,
        definition_id: &str,
        owner_id: &str,
        zone: Zone,
    ) -> (r: String)
        ensures
            r@ == instance_id@,
            instance_views(final(card_instances)@) == instance_views(old(card_instances)@).insert(
                instance_id@,
                rules::dealt_instance(instance_id@, definition_id@, owner_id@, zone),
            ),
    {
        let instance = CardInstance {
            id: instance_id.to_string(),
            definition_id: definition_id.to_string(),
            owner_id: owner_id.to_string(),
            controller_id: owner_id.to_string(),
            zone,
            attack: None,
            health: None,
            max_health: None,
            exhausted: false,
        };
        let ghost v = instance@;
        card_instances.insert(instance.id.clone(), instance);
        assert(instance_views(card_instances@) =~= instance_views(old(card_instances)@).insert(
            instance_id@,
            v,
        ));
        instance_id.to_string()
    }

    /// Carries out `command`, returning the events it caused, or the reason it failed.
    pub fn dispatch(&mut self, command: Command) -> (r: Result<Vec<GameEvent>, String>)
        requires
            !rules::dispatch_overflows(old(self).state@, command@),
        ensures
            (final(self).state@, result_view(r)) == rules::dispatch(old(self).state@, command@),
    {
        match command {
            Command::PlayCard { player_id, card_instance_id } => self.handle_play_card(
                player_id,
                card_instance_id,
            ),
            Command::EndTurn { player_id } => self.handle_end_turn(player_id),
            Command::AttackUnit { player_id, attacker_id, target_id } => self.handle_attack_unit(
                player_id,
                attacker_id,
                target_id,
            ),
            Command::AttackPlayer { player_id, attacker_id, target_player_id } =>
                self.handle_attack_player(player_id, attacker_id, target_player_id),
        }
    }

    fn is_current_player(&self, player_id: &String) -> (r: Result<bool, String>)
        ensures
            match r {
                Ok(b) => rules::is_current_player(self.state@, player_id@) == Ok::<bool, Seq<char>>(b),
                Err(e) => rules::is_current_player(self.state@, player_id@) == Err::<bool, Seq<char>>(e@),
            },
    {
        if self.state.current_player < self.state.players.len() {
            Ok(self.state.players[self.state.current_player].id == *player_id)
        } else {
            Err("Invalid current player index".to_string())
        }
    }

    fn get_player_index(&self, player_id: &String) -> (r: Result<usize, String>)
        ensures
            match r {
                Ok(i) => rules::player_index(self.state@, player_id@) == Some(i as int) && i
                    < self.state.players@.len() && self.state.players@[i as int].id@ == player_id@,
                Err(e) => rules::player_index(self.state@, player_id@) is None && e@ == "Player not found"@,
            },
    {
        let ghost ids = self.state@.players.map_values(|p: PlayerView| p.id);
        proof {
            ids.index_of_first_ensures(player_id@);
        }
        let mut i: usize = 0;
        while i < self.state.players.len()
            invariant
                i <= self.state.players@.len(),
                ids == self.state@.players.map_values(|p: PlayerView| p.id),
                forall|j: int| 0 <= j < i ==> ids[j] != player_id@,
            decreases self.state.players@.len() - i,
        {
            if self.state.players[i].id == *player_id {
                proof {
                    assert(ids[i as int] == player_id@);
                    assert(ids.contains(player_id@));
                    ids.index_of_first_ensures(player_id@);
                    let idx = ids.index_of_first(player_id@)->0;
                    assert(ids[idx] == player_id@);
                    if idx > i {
                        assert(ids[i as int] != player_id@);
                    }
                }
                return Ok(i);
            }
            i = i + 1;
        }
        Err("Player not found".to_string())
    }

    fn reject(&mut self, reason: &str) -> (e: GameEvent)
        ensures
            e@ == (GameEventView::CommandRejected { reason: reason@ }),
            final(self).state@ == old(self).state@.with_event(e@),
    {
        let event = GameEvent::CommandRejected { reason: reason.to_string() };
        self.state.events.push(event.clone());
        event
    }

    fn validate_attacker(&self, player_id: &String, attacker_id: &String) -> (r: Result<(), String>)
        ensures
            match r {
                Ok(_) => rules::validate_attacker(self.state@, player_id@, attacker_id@) is Ok,
                Err(e) => rules::validate_attacker(self.state@, player_id@, attacker_id@) == Err::<(), Seq<char>>(e@),
            },
    {
        let attacker = match self.state.card_instances.get(attacker_id) {
            Some(a) => a,
            None => return Err("Attacker not found".to_string()),
        };
        if attacker.zone != Zone::Field {
            return Err("Attacker is not on the field".to_string());
        }
        if attacker.controller_id != *player_id {
            return Err("Player does not control attacker".to_string());
        }
        if attacker.exhausted {
            return Err("Attacker is exhausted".to_string());
        }
        if attacker.attack.is_none() || attacker.health.is_none() {
            return Err("Attacker is not a unit".to_string());
        }
        Ok(())
    }

    fn move_unit_to_graveyard(&mut self, card_instance_id: &String) -> (r: Result<(), String>)
        ensures
            (final(self).state@, match r {
                Ok(_) => Ok::<(), Seq<char>>(()),
                Err(e) => Err(e@),
            }) == rules::move_unit_to_graveyard(old(self).state@, card_instance_id@),
    {
        let ghost s = self.state@;
        let owner_id = match self.state.card_instances.get(card_instance_id) {
            Some(c) => c.owner_id.clone(),
            None => return Err("Card instance not found".to_string()),
        };
        let owner_index = match self.get_player_index(&owner_id) {
            Ok(i) => i,
            Err(e) => return Err(e),
        };
        let kept = without_id(&self.state.players[owner_index].field, card_instance_id);
        self.state.players[owner_index].field = kept;
        if !contains_id(&self.state.players[owner_index].graveyard, card_instance_id) {
            self.state.players[owner_index].graveyard.push(card_instance_id.clone());
        }
        let ghost s1 = self.state@;
        match self.state.card_instances.get(card_instance_id) {
            Some(c) => {
                let mut instance = c.clone();
                instance.zone = Zone::Graveyard;
                instance.exhausted = true;
                self.state.card_instances.insert(card_instance_id.clone(), instance);
            },
            None => {},
        }
        proof {
            let oi = owner_index as int;
            let id = card_instance_id@;
            let p = s.players[oi];
            let c = s.instances[id];
            let graveyard = if p.graveyard.contains(id) {
                p.graveyard
            } else {
                p.graveyard.push(id)
            };
            assert(s1.players[oi].graveyard =~= graveyard);
            let p2 = PlayerView { field: p.field.filter(rules::other_than(id)), graveyard, ..p };
            assert(s1.players =~= s.players.update(oi, p2));
            assert(self.state@.instances =~= s.instances.insert(
                id,
                CardInstanceView { zone: Zone::Graveyard, exhausted: true, ..c },
            ));
            assert(self.state@ =~= s.with_player(oi, p2).with_instance(
                id,
                CardInstanceView { zone: Zone::Graveyard, exhausted: true, ..c },
            ));
        }
        Ok(())
    }

    fn damage_unit(&mut self, card_instance_id: &String, damage: i32) -> (r: Result<Vec<GameEvent>, String>)
        requires
            !rules::damage_overflows(old(self).state@, card_instance_id@, damage),
        ensures
            (final(self).state@, result_view(r)) == rules::damage_unit(old(self).state@, card_instance_id@, damage),
    {
        let ghost s = self.state@;
        let mut events: Vec<GameEvent> = Vec::new();
        let mut unit = match self.state.card_instances.get(card_instance_id) {
            Some(u) => u.clone(),
            None => return Err("Unit not found".to_string()),
        };
        let current_health = match unit.health {
            Some(h) => h,
            None => return Err("Unit has no health".to_string()),
        };
        let remaining_health = current_health - damage;
        let owner_id = unit.owner_id.clone();
        unit.health = Some(remaining_health);
        self.state.card_instances.insert(card_instance_id.clone(), unit);
        let ghost s1 = self.state@;
        proof {
            let u = s.instances[card_instance_id@];
            assert(s1 =~= s.with_instance(
                card_instance_id@,
                CardInstanceView { health: Some(remaining_health), ..u },
            ));
        }
        events.push(
            GameEvent::UnitDamaged {
                card_instance_id: card_instance_id.clone(),
                damage,
                remaining_health,
            },
        );
        if remaining_health <= 0 {
            match self.move_unit_to_graveyard(card_instance_id) {
                Ok(()) => {},
                Err(e) => return Err(e),
            }
            events.push(
                GameEvent::UnitDied { card_instance_id: card_instance_id.clone(), owner_id },
            );
        }
        proof {
            let damaged = GameEventView::UnitDamaged {
                card_instance_id: card_instance_id@,
                damage,
                remaining_health,
            };
            if remaining_health <= 0 {
                let died = GameEventView::UnitDied {
                    card_instance_id: card_instance_id@,
                    owner_id: s.instances[card_instance_id@].owner_id,
                };
                assert(events@.map_values(|e: GameEvent| e@) =~= seq![damaged, died]);
            } else {
                assert(events@.map_values(|e: GameEvent| e@) =~= seq![damaged]);
            }
        }
        Ok(events)
    }

    fn handle_play_card(&mut self, player_id: String, card_instance_id: String) -> (r: Result<Vec<GameEvent>, String>)
        ensures
            (final(self).state@, result_view(r)) == rules::play_card(old(self).state@, player_id@, card_instance_id@),
    {
        let ghost s = self.state@;
        let ghost id = card_instance_id@;
        let ghost player_id_view = player_id@;
        match self.is_current_player(&player_id) {
            Err(e) => return Err(e),
            Ok(false) => return Ok(single_event(self.reject("It is not this player's turn"))),
            Ok(true) => {},
        }
        let player_index = match self.get_player_index(&player_id) {
            Ok(i) => i,
            Err(e) => return Err(e),
        };
        let hand_index = match position_of_id(&self.state.players[player_index].hand, &card_instance_id) {
            Some(i) => i,
            None => return Err("Card is not in player's hand".to_string()),
        };
        let card_instance = match self.state.card_instances.get(&card_instance_id) {
            Some(c) => c.clone(),
            None => return Err("Card instance not found".to_string()),
        };
        if card_instance.controller_id != player_id {
            return Ok(single_event(self.reject("Player does not control this card")));
        }
        let (definition_id, name, cost, card_type, unit_stats) = match self.state.card_definitions.get(
            &card_instance.definition_id,
        ) {
            Some(d) => (d.id.clone(), d.name.clone(), d.cost, d.card_type, d.unit_stats),
            None => return Err("Card definition not found".to_string()),
        };
        if self.state.players[player_index].mana < cost {
            return Ok(single_event(self.reject("Not enough mana")));
        }
        let ghost hand0 = self.state.players[player_index as int].hand@;
        let mana = self.state.players[player_index].mana - cost;
        self.state.players[player_index].mana = mana;
        self.state.players[player_index].hand.remove(hand_index);
        let mut instance = card_instance;
        match card_type {
            CardType::Unit => {
                self.state.players[player_index].field.push(card_instance_id.clone());
                instance.zone = Zone::Field;
                match unit_stats {
                    Some(stats) => {
                        instance.attack = Some(stats.attack);
                        instance.health = Some(stats.health);
                        instance.max_health = Some(stats.health);
                    },
                    None => {},
                }
                instance.exhausted = true;
            },
            CardType::Spell => {
                self.state.players[player_index].graveyard.push(card_instance_id.clone());
                instance.zone = Zone::Graveyard;
            },
        }
        self.state.card_instances.insert(card_instance_id.clone(), instance);
        let event = GameEvent::CardPlayed {
            player_id,
            card_instance_id,
            card_definition_id: definition_id,
            card_name: name,
            cost,
        };
        self.state.events.push(event.clone());
        let events = vec![event];
        proof {
            let pi = player_index as int;
            let id = card_instance_id@;
            let c = s.instances[id];
            let d = s.definitions[c.definition_id];
            let hi = hand_index as int;
            let p = s.players[pi];
            assert(ids_view(hand0.remove(hi)) =~= p.hand.remove(hi));
            let p2 = rules::player_after_play(p, hi, id, d);
            assert(self.state@.players[pi] =~= p2);
            assert(self.state@.players =~= s.players.update(pi, p2));
            assert(self.state@.instances =~= s.instances.insert(id, rules::played_instance(c, d)));
            let e = GameEventView::CardPlayed {
                player_id: player_id_view,
                card_instance_id: id,
                card_definition_id: d.id,
                card_name: d.name,
                cost: d.cost,
            };
            assert(self.state@.events =~= s.events.push(e));
            assert(events@.map_values(|e: GameEvent| e@) =~= seq![e]);
        }
        Ok(events)
    }

    /// Appends `events`, in order, to the game's event log.
    fn record_events(&mut self, events: &Vec<GameEvent>)
        ensures
            final(self).state@ == old(self).state@.with_events(events@.map_values(|e: GameEvent| e@)),
    {
        let ghost s = self.state@;
        let mut i: usize = 0;
        while i < events.len()
            invariant
                i <= events@.len(),
                self.state@ == s.with_events(events@.take(i as int).map_values(|e: GameEvent| e@)),
            decreases events@.len() - i,
        {
            let ghost before = self.state@;
            self.state.events.push(events[i].clone());
            proof {
                assert(self.state@.events =~= before.events.push(events@[i as int]@));
                assert(events@.take(i + 1).map_values(|e: GameEvent| e@) =~= events@.take(
                    i as int,
                ).map_values(|e: GameEvent| e@).push(events@[i as int]@));
                assert(self.state@.events =~= s.events + events@.take(i + 1).map_values(
                    |e: GameEvent| e@,
                ));
            }
            i = i + 1;
        }
        assert(events@.take(events@.len() as int) =~= events@);
    }

    /// Marks instance `card_instance_id`, if it exists, as having acted this turn.
    fn exhaust(&mut self, card_instance_id: &String)
        ensures
            final(self).state@ == rules::exhaust(old(self).state@, card_instance_id@),
    {
        let ghost s = self.state@;
        match self.state.card_instances.get(card_instance_id) {
            Some(c) => {
                let mut instance = c.clone();
                instance.exhausted = true;
                self.state.card_instances.insert(card_instance_id.clone(), instance);
                assert(self.state@ =~= rules::exhaust(s, card_instance_id@));
            },
            None => {},
        }
    }

    fn handle_attack_unit(&mut self, player_id: String, attacker_id: String, target_id: String) -> (r: Result<Vec<GameEvent>, String>)
        requires
            !rules::dispatch_overflows(
                old(self).state@,
                CommandView::AttackUnit {
                    player_id: player_id@,
                    attacker_id: attacker_id@,
                    target_id: target_id@,
                },
            ),
        ensures
            (final(self).state@, result_view(r)) == rules::attack_unit(
                old(self).state@,
                player_id@,
                attacker_id@,
                target_id@,
            ),
    {
        let ghost s = self.state@;
        match self.is_current_player(&player_id) {
            Err(e) => return Err(e),
            Ok(false) => return Ok(single_event(self.reject("It is not this player's turn"))),
            Ok(true) => {},
        }
        match self.validate_attacker(&player_id, &attacker_id) {
            Ok(()) => {},
            Err(e) => return Err(e),
        }
        let attacker = match self.state.card_instances.get(&attacker_id) {
            Some(a) => a.clone(),
            None => return Err("Attacker not found".to_string()),
        };
        let target = match self.state.card_instances.get(&target_id) {
            Some(t) => t.clone(),
            None => return Err("Target not found".to_string()),
        };
        if target.zone != Zone::Field {
            return Ok(single_event(self.reject("Target is not on the field")));
        }
        if target.controller_id == player_id {
            return Ok(single_event(self.reject("Cannot attack your own unit")));
        }
        let attacker_attack = match attacker.attack {
            Some(a) => a,
            None => return Err("Attacker has no attack value".to_string()),
        };
        let target_attack = match target.attack {
            Some(a) => a,
            None => return Err("Target has no attack value".to_string()),
        };
        let mut events = single_event(
            GameEvent::UnitAttackedUnit {
                attacker_id: attacker_id.clone(),
                target_id: target_id.clone(),
                attacker_damage: target_attack,
                target_damage: attacker_attack,
            },
        );
        let ghost first = events@.map_values(|e: GameEvent| e@);
        let mut target_damage_events = match self.damage_unit(&target_id, attacker_attack) {
            Ok(evs) => evs,
            Err(e) => return Err(e),
        };
        let mut attacker_damage_events = match self.damage_unit(&attacker_id, target_attack) {
            Ok(evs) => evs,
            Err(e) => return Err(e),
        };
        let ghost ev1 = target_damage_events@.map_values(|e: GameEvent| e@);
        let ghost ev2 = attacker_damage_events@.map_values(|e: GameEvent| e@);
        events.append(&mut target_damage_events);
        events.append(&mut attacker_damage_events);
        assert(events@.map_values(|e: GameEvent| e@) =~= first + ev1 + ev2);
        self.exhaust(&attacker_id);
        self.record_events(&events);
        Ok(events)
    }

    fn handle_attack_player(
        &mut self,
        player_id: String,
        attacker_id: String,
        target_player_id: String,
    ) -> (r: Result<Vec<GameEvent>, String>)
        requires
            !rules::dispatch_overflows(
                old(self).state@,
                CommandView::AttackPlayer {
                    player_id: player_id@,
                    attacker_id: attacker_id@,
                    target_player_id: target_player_id@,
                },
            ),
        ensures
            (final(self).state@, result_view(r)) == rules::attack_player(
                old(self).state@,
                player_id@,
                attacker_id@,
                target_player_id@,
            ),
    {
        let ghost s = self.state@;
        match self.is_current_player(&player_id) {
            Err(e) => return Err(e),
            Ok(false) => return Ok(single_event(self.reject("It is not this player's turn"))),
            Ok(true) => {},
        }
        match self.validate_attacker(&player_id, &attacker_id) {
            Ok(()) => {},
            Err(e) => return Err(e),
        }
        if player_id == target_player_id {
            return Ok(single_event(self.reject("Cannot attack yourself")));
        }
        let attacker = match self.state.card_instances.get(&attacker_id) {
            Some(a) => a.clone(),
            None => return Err("Attacker not found".to_string()),
        };
        let damage = match attacker.attack {
            Some(d) => d,
            None => return Err("Attacker has no attack value".to_string()),
        };
        let target_player_index = match self.get_player_index(&target_player_id) {
            Ok(i) => i,
            Err(e) => return Err(e),
        };
        let hp = self.state.players[target_player_index].hp - damage;
        self.state.players[target_player_index].hp = hp;
        let remaining_hp = self.state.players[target_player_index].hp;
        proof {
            let ti = target_player_index as int;
            assert(self.state@ =~= s.with_player(ti, PlayerView { hp: remaining_hp, ..s.players[ti] }));
        }
        self.exhaust(&attacker_id);
        let event = GameEvent::UnitAttackedPlayer {
            attacker_id,
            target_player_id,
            damage,
            remaining_hp,
        };
        self.state.events.push(event.clone());
        Ok(single_event(event))
    }

    fn handle_end_turn(&mut self, player_id: String) -> (r: Result<Vec<GameEvent>, String>)
        requires
            !rules::dispatch_overflows(old(self).state@, CommandView::EndTurn { player_id: player_id@ }),
        ensures
            (final(self).state@, result_view(r)) == rules::end_turn(old(self).state@, player_id@),
    {
        let ghost s = self.state@;
        match self.is_current_player(&player_id) {
            Err(e) => return Err(e),
            Ok(false) => return Ok(single_event(self.reject("Only the current player can end the turn"))),
            Ok(true) => {},
        }
        assert(self.state.current_player < self.state.players.len());
        self.state.current_player = (self.state.current_player + 1) % self.state.players.len();
        self.state.turn = self.state.turn + 1;
        let next_player_index = self.state.current_player;
        let max_mana = self.state.players[next_player_index].max_mana;
        self.state.players[next_player_index].mana = max_mana;
        let ghost mid = self.state@;
        let ghost field = mid.players[next_player_index as int].field;
        let mut i: usize = 0;
        while i < self.state.players[next_player_index].field.len()
            invariant
                next_player_index < self.state.players@.len(),
                field == self.state@.players[next_player_index as int].field,
                i <= field.len(),
                self.state@ == (GameStateView {
                    instances: rules::ready_all(mid.instances, field.take(i as int)),
                    ..mid
                }),
            decreases field.len() - i,
        {
            let card_id = self.state.players[next_player_index].field[i].clone();
            assert(card_id@ == field[i as int]);
            let ghost before = self.state@;
            match self.state.card_instances.get(&card_id) {
                Some(c) => {
                    let mut instance = c.clone();
                    instance.exhausted = false;
                    self.state.card_instances.insert(card_id, instance);
                    assert(self.state@.instances =~= before.instances.insert(
                        field[i as int],
                        CardInstanceView { exhausted: false, ..before.instances[field[i as int]] },
                    ));
                },
                None => {
                    assert(self.state@ == before);
                },
            }
            proof {
                let k = field[i as int];
                assert(field.take(i + 1) =~= field.take(i as int).push(k));
                assert forall|x: Seq<char>| #[trigger] field.take(i + 1).contains(x) == (field.take(
                    i as int,
                ).contains(x) || x == k) by {
                    if field.take(i as int).contains(x) {
                        let j = choose|j: int| 0 <= j < i && field.take(i as int)[j] == x;
                        assert(field.take(i + 1)[j] == x);
                    }
                    if x == k {
                        assert(field.take(i + 1)[i as int] == x);
                    }
                }
                let target = rules::ready_all(mid.instances, field.take(i + 1));
                assert forall|x: Seq<char>| #[trigger] target.contains_key(x) implies self.state@.instances.contains_key(x)
                    && self.state@.instances[x] == target[x] by {
                    if x != k {
                        assert(self.state@.instances[x] == before.instances[x]);
                    }
                }
                assert(self.state@.instances =~= target);
            }
            i = i + 1;
        }
        assert(field.take(field.len() as int) =~= field);
        let next_player_id = self.state.players[next_player_index].id.clone();
        let event = GameEvent::TurnEnded {
            player_id,
            next_player_id,
            turn: self.state.turn,
        };
        self.state.events.push(event.clone());
        proof {
            let next = next_player_index as int;
            let p = s.players[next];
            assert(mid.players =~= s.players.update(next, PlayerView { mana: p.max_mana, ..p }));
        }
        Ok(single_event(event))
    }

    /// Whether carrying out `command` would take the turn counter, a player's life or a
    /// unit's health out of the range of its machine integer.
    pub fn command_overflows(&self, command: &Command) -> (b: bool)
        ensures
            b == rules::dispatch_overflows(self.state@, command@),
    {
        match command {
            Command::PlayCard { .. } => false,
            Command::EndTurn { player_id } => match self.is_current_player(player_id) {
                Ok(true) => self.state.turn == u32::MAX,
                _ => false,
            },
            Command::AttackUnit { player_id, attacker_id, target_id } => self.attack_unit_overflows(
                player_id,
                attacker_id,
                target_id,
            ),
            Command::AttackPlayer { player_id, attacker_id, target_player_id } =>
                self.attack_player_overflows(player_id, attacker_id, target_player_id),
        }
    }

    fn attack_player_overflows(&self, player_id: &String, attacker_id: &String, target_player_id: &String) -> (b: bool)
        ensures
            b == rules::dispatch_overflows(
                self.state@,
                CommandView::AttackPlayer {
                    player_id: player_id@,
                    attacker_id: attacker_id@,
                    target_player_id: target_player_id@,
                },
            ),
    {
        match self.is_current_player(player_id) {
            Ok(true) => {},
            _ => return false,
        }
        if self.validate_attacker(player_id, attacker_id).is_err() {
            return false;
        }
        if *player_id == *target_player_id {
            return false;
        }
        let damage = match self.state.card_instances.get(attacker_id) {
            Some(a) => match a.attack {
                Some(d) => d,
                None => return false,
            },
            None => return false,
        };
        let target_player_index = match self.get_player_index(target_player_id) {
            Ok(i) => i,
            Err(_) => return false,
        };
        let remaining = self.state.players[target_player_index].hp as i64 - damage as i64;
        remaining < i32::MIN as i64 || remaining > i32::MAX as i64
    }

    fn attack_unit_overflows(&self, player_id: &String, attacker_id: &String, target_id: &String) -> (b: bool)
        ensures
            b == rules::dispatch_overflows(
                self.state@,
                CommandView::AttackUnit {
                    player_id: player_id@,
                    attacker_id: attacker_id@,
                    target_id: target_id@,
                },
            ),
    {
        let ghost s = self.state@;
        match self.is_current_player(player_id) {
            Ok(true) => {},
            _ => return false,
        }
        if self.validate_attacker(player_id, attacker_id).is_err() {
            return false;
        }
        let attacker = match self.state.card_instances.get(attacker_id) {
            Some(a) => a,
            None => return false,
        };
        let target = match self.state.card_instances.get(target_id) {
            Some(t) => t,
            None => return false,
        };
        if target.zone != Zone::Field || target.controller_id == *player_id {
            return false;
        }
        let attacker_attack = match attacker.attack {
            Some(a) => a,
            None => return false,
        };
        let target_attack = match target.attack {
            Some(a) => a,
            None => return false,
        };
        let target_health = match target.health {
            Some(h) => h,
            None => return false,
        };
        let remaining = target_health as i64 - attacker_attack as i64;
        if remaining < i32::MIN as i64 || remaining > i32::MAX as i64 {
            return true;
        }
        if remaining <= 0 {
            if self.get_player_index(&target.owner_id).is_err() {
                return false;
            }
        }
        proof {
            let s1 = rules::damage_unit(s, target_id@, attacker_attack).0;
            assert(attacker_id@ != target_id@);
            assert(s1.instances[attacker_id@] == s.instances[attacker_id@]);
        }
        match attacker.health {
            Some(h) => {
                let left = h as i64 - target_attack as i64;
                left < i32::MIN as i64 || left > i32::MAX as i64
            },
            None => false,
        }
    }
}

} // verus!
