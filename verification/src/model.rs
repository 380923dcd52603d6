use vstd::prelude::*;

use crate::event::{GameEvent, GameEventView};
use crate::id_map::IdMap;

verus! {

/// A card as shown to a player: its identifier, its name and its mana cost.
#[derive(Clone, Debug)]
pub struct Card {
    pub id: String,
    pub name: String,
    pub cost: u32,
}

/// Whether a card stays on the field as a unit or resolves as a spell.
#[derive(Clone, Copy, Debug, PartialEq, Eq, Structural)]
pub enum CardType {
    Unit,
    Spell,
}

/// The attack and health that a unit card enters the field with.
#[derive(Clone, Copy, Debug, PartialEq, Eq, Structural)]
pub struct UnitStats {
    pub attack: i32,
    pub health: i32,
}

/// What a card does besides entering play.
#[derive(Clone, Copy, Debug, PartialEq, Eq, Structural)]
pub enum EffectDefinition {
    Damage { amount: i32 },
}

/// Where a card instance currently is.
#[derive(Clone, Copy, Debug, PartialEq, Eq, Structural)]
pub enum Zone {
    Deck,
    Hand,
    Field,
    Graveyard,
}

/// The printed definition of a card, shared by all its instances.
#[derive(Clone, Debug)]
pub struct CardDefinition {
    pub id: String,
    pub name: String,
    pub cost: u32,
    pub card_type: CardType,
    pub unit_stats: Option<UnitStats>,
    pub effects: Vec<EffectDefinition>,
}

#[verifier::ext_equal]
pub struct CardDefinitionView {
    pub id: Seq<char>,
    pub name: Seq<char>,
    pub cost: u32,
    pub card_type: CardType,
    pub unit_stats: Option<UnitStats>,
    pub effects: Seq<EffectDefinition>,
}

impl View for CardDefinition {
    type V = CardDefinitionView;

    open spec fn view(&self) -> CardDefinitionView {
        CardDefinitionView {
            id: self.id@,
            name: self.name@,
            cost: self.cost,
            card_type: self.card_type,
            unit_stats: self.unit_stats,
            effects: self.effects@,
        }
    }
}

/// One physical copy of a card in a game.
#[derive(Debug)]
pub struct CardInstance {
    pub id: String,
    pub definition_id: String,
    pub owner_id: String,
    pub controller_id: String,
    pub zone: Zone,
    pub attack: Option<i32>,
    pub health: Option<i32>,
    pub max_health: Option<i32>,
    pub exhausted: bool,
}

#[verifier::ext_equal]
pub struct CardInstanceView {
    pub id: Seq<char>,
    pub definition_id: Seq<char>,
    pub owner_id: Seq<char>,
    pub controller_id: Seq<char>,
    pub zone: Zone,
    pub attack: Option<i32>,
    pub health: Option<i32>,
    pub max_health: Option<i32>,
    pub exhausted: bool,
}

impl View for CardInstance {
    type V = CardInstanceView;

    open spec fn view(&self) -> CardInstanceView {
        CardInstanceView {
            id: self.id@,
            definition_id: self.definition_id@,
            owner_id: self.owner_id@,
            controller_id: self.controller_id@,
            zone: self.zone,
            attack: self.attack,
            health: self.health,
            max_health: self.max_health,
            exhausted: self.exhausted,
        }
    }
}

impl Clone for CardInstance {
    fn clone(&self) -> (r: Self)
        ensures
            r@ == self@,
    {
        CardInstance {
            id: self.id.clone(),
            definition_id: self.definition_id.clone(),
            owner_id: self.owner_id.clone(),
            controller_id: self.controller_id.clone(),
            zone: self.zone,
            attack: self.attack,
            health: self.health,
            max_health: self.max_health,
            exhausted: self.exhausted,
        }
    }
}

/// The identifiers of a list of card instances, as character sequences.
pub open spec fn ids_view(ids: Seq<String>) -> Seq<Seq<char>> {
    ids.map_values(|s: String| s@)
}

/// A player's life, mana and the card instances in each of their zones.
#[derive(Clone, Debug)]
pub struct PlayerState {
    pub id: String,
    pub hp: i32,
    pub mana: u32,
    pub max_mana: u32,
    pub deck: Vec<String>,
    pub hand: Vec<String>,
    pub field: Vec<String>,
    pub graveyard: Vec<String>,
}

#[verifier::ext_equal]
pub struct PlayerView {
    pub id: Seq<char>,
    pub hp: i32,
    pub mana: u32,
    pub max_mana: u32,
    pub deck: Seq<Seq<char>>,
    pub hand: Seq<Seq<char>>,
    pub field: Seq<Seq<char>>,
    pub graveyard: Seq<Seq<char>>,
}

impl View for PlayerState {
    type V = PlayerView;

    open spec fn view(&self) -> PlayerView {
        PlayerView {
            id: self.id@,
            hp: self.hp,
            mana: self.mana,
            max_mana: self.max_mana,
            deck: ids_view(self.deck@),
            hand: ids_view(self.hand@),
            field: ids_view(self.field@),
            graveyard: ids_view(self.graveyard@),
        }
    }
}

/// The whole state of a game.
#[derive(Clone, Debug)]
pub struct GameState {
    /// The position in `players` of the player whose turn it is.
    pub current_player: usize,
    pub players: Vec<PlayerState>,
    pub turn: u32,
    /// Card definitions, by definition identifier.
    pub card_definitions: IdMap<CardDefinition>,
    /// Card instances, by instance identifier.
    pub card_instances: IdMap<CardInstance>,
    /// Every event of the game so far, oldest first.
    pub events: Vec<GameEvent>,
}

#[verifier::ext_equal]
pub struct GameStateView {
    pub current_player: usize,
    pub players: Seq<PlayerView>,
    pub turn: u32,
    pub definitions: Map<Seq<char>, CardDefinitionView>,
    pub instances: Map<Seq<char>, CardInstanceView>,
    pub events: Seq<GameEventView>,
}

impl View for GameState {
    type V = GameStateView;

    open spec fn view(&self) -> GameStateView {
        GameStateView {
            current_player: self.current_player,
            players: self.players@.map_values(|p: PlayerState| p@),
            turn: self.turn,
            definitions: self.card_definitions@.map_values(|d: CardDefinition| d@),
            instances: self.card_instances@.map_values(|c: CardInstance| c@),
            events: self.events@.map_values(|e: GameEvent| e@),
        }
    }
}

} // verus!
