use vstd::prelude::*;

verus! {

/// Something that happened in a game, as reported to the players.
#[derive(Debug, PartialEq, Eq)]
pub enum GameEvent {
    GameStarted,
    CardPlayed {
        player_id: String,
        card_instance_id: String,
        card_definition_id: String,
        card_name: String,
        cost: u32,
    },
    UnitAttackedUnit {
        attacker_id: String,
        target_id: String,
        attacker_damage: i32,
        target_damage: i32,
    },
    UnitAttackedPlayer {
        attacker_id: String,
        target_player_id: String,
        damage: i32,
        remaining_hp: i32,
    },
    UnitDamaged {
        card_instance_id: String,
        damage: i32,
        remaining_health: i32,
    },
    UnitDied {
        card_instance_id: String,
        owner_id: String,
    },
    TurnEnded {
        player_id: String,
        next_player_id: String,
        turn: u32,
    },
    CommandRejected {
        reason: String,
    },
    CardDrawn {
        player_id: String,
        card_instance_id: String,
    },
    UnitSummoned {
        player_id: String,
        card_instance_id: String,
        card_definition_id: String,
    },
    UnitBuffed {
        card_instance_id: String,
        attack_delta: i32,
        health_delta: i32,
        new_attack: i32,
        new_health: i32,
    },
    UnitHealed {
        card_instance_id: String,
        amount: i32,
        new_health: i32,
    },
    PlayerDamaged {
        player_id: String,
        damage: i32,
        remaining_hp: i32,
    },
    PlayerHealed {
        player_id: String,
        amount: i32,
        new_hp: i32,
    },
}

pub enum GameEventView {
    GameStarted,
    CardPlayed {
        player_id: Seq<char>,
        card_instance_id: Seq<char>,
        card_definition_id: Seq<char>,
        card_name: Seq<char>,
        cost: u32,
    },
    UnitAttackedUnit {
        attacker_id: Seq<char>,
        target_id: Seq<char>,
        attacker_damage: i32,
        target_damage: i32,
    },
    UnitAttackedPlayer {
        attacker_id: Seq<char>,
        target_player_id: Seq<char>,
        damage: i32,
        remaining_hp: i32,
    },
    UnitDamaged {
        card_instance_id: Seq<char>,
        damage: i32,
        remaining_health: i32,
    },
    UnitDied {
        card_instance_id: Seq<char>,
        owner_id: Seq<char>,
    },
    TurnEnded {
        player_id: Seq<char>,
        next_player_id: Seq<char>,
        turn: u32,
    },
    CommandRejected {
        reason: Seq<char>,
    },
    CardDrawn {
        player_id: Seq<char>,
        card_instance_id: Seq<char>,
    },
    UnitSummoned {
        player_id: Seq<char>,
        card_instance_id: Seq<char>,
        card_definition_id: Seq<char>,
    },
    UnitBuffed {
        card_instance_id: Seq<char>,
        attack_delta: i32,
        health_delta: i32,
        new_attack: i32,
        new_health: i32,
    },
    UnitHealed {
        card_instance_id: Seq<char>,
        amount: i32,
        new_health: i32,
    },
    PlayerDamaged {
        player_id: Seq<char>,
        damage: i32,
        remaining_hp: i32,
    },
    PlayerHealed {
        player_id: Seq<char>,
        amount: i32,
        new_hp: i32,
    },
}

impl View for GameEvent {
    type V = GameEventView;

    open spec fn view(&self) -> GameEventView {
        match self {
            Self::GameStarted => GameEventView::GameStarted,
            Self::CardPlayed { player_id, card_instance_id, card_definition_id, card_name, cost } => GameEventView::CardPlayed {
                player_id: player_id@,
                card_instance_id: card_instance_id@,
                card_definition_id: card_definition_id@,
                card_name: card_name@,
                cost: *cost,
            },
            Self::UnitAttackedUnit { attacker_id, target_id, attacker_damage, target_damage } => GameEventView::UnitAttackedUnit {
                attacker_id: attacker_id@,
                target_id: target_id@,
                attacker_damage: *attacker_damage,
                target_damage: *target_damage,
            },
            Self::UnitAttackedPlayer { attacker_id, target_player_id, damage, remaining_hp } => GameEventView::UnitAttackedPlayer {
                attacker_id: attacker_id@,
                target_player_id: target_player_id@,
                damage: *damage,
                remaining_hp: *remaining_hp,
            },
            Self::UnitDamaged { card_instance_id, damage, remaining_health } => GameEventView::UnitDamaged {
                card_instance_id: card_instance_id@,
                damage: *damage,
                remaining_health: *remaining_health,
            },
            Self::UnitDied { card_instance_id, owner_id } => GameEventView::UnitDied {
                card_instance_id: card_instance_id@,
                owner_id: owner_id@,
            },
            Self::TurnEnded { player_id, next_player_id, turn } => GameEventView::TurnEnded {
                player_id: player_id@,
                next_player_id: next_player_id@,
                turn: *turn,
            },
            Self::CommandRejected { reason } => GameEventView::CommandRejected {
                reason: reason@,
            },
            Self::CardDrawn { player_id, card_instance_id } => GameEventView::CardDrawn {
                player_id: player_id@,
                card_instance_id: card_instance_id@,
            },
            Self::UnitSummoned { player_id, card_instance_id, card_definition_id } => GameEventView::UnitSummoned {
                player_id: player_id@,
                card_instance_id: card_instance_id@,
                card_definition_id: card_definition_id@,
            },
            Self::UnitBuffed { card_instance_id, attack_delta, health_delta, new_attack, new_health } => GameEventView::UnitBuffed {
                card_instance_id: card_instance_id@,
                attack_delta: *attack_delta,
                health_delta: *health_delta,
                new_attack: *new_attack,
                new_health: *new_health,
            },
            Self::UnitHealed { card_instance_id, amount, new_health } => GameEventView::UnitHealed {
                card_instance_id: card_instance_id@,
                amount: *amount,
                new_health: *new_health,
            },
            Self::PlayerDamaged { player_id, damage, remaining_hp } => GameEventView::PlayerDamaged {
                player_id: player_id@,
                damage: *damage,
                remaining_hp: *remaining_hp,
            },
            Self::PlayerHealed { player_id, amount, new_hp } => GameEventView::PlayerHealed {
                player_id: player_id@,
                amount: *amount,
                new_hp: *new_hp,
            },
        }
    }
}

impl Clone for GameEvent {
    fn clone(&self) -> (r: Self)
        ensures
            r@ == self@,
    {
        match self {
            Self::GameStarted => GameEvent::GameStarted,
            Self::CardPlayed { player_id, card_instance_id, card_definition_id, card_name, cost } => GameEvent::CardPlayed {
                player_id: player_id.clone(),
                card_instance_id: card_instance_id.clone(),
                card_definition_id: card_definition_id.clone(),
                card_name: card_name.clone(),
                cost: *cost,
            },
            Self::UnitAttackedUnit { attacker_id, target_id, attacker_damage, target_damage } => GameEvent::UnitAttackedUnit {
                attacker_id: attacker_id.clone(),
                target_id: target_id.clone(),
                attacker_damage: *attacker_damage,
                target_damage: *target_damage,
            },
            Self::UnitAttackedPlayer { attacker_id, target_player_id, damage, remaining_hp } => GameEvent::UnitAttackedPlayer {
                attacker_id: attacker_id.clone(),
                target_player_id: target_player_id.clone(),
                damage: *damage,
                remaining_hp: *remaining_hp,
            },
            Self::UnitDamaged { card_instance_id, damage, remaining_health } => GameEvent::UnitDamaged {
                card_instance_id: card_instance_id.clone(),
                damage: *damage,
                remaining_health: *remaining_health,
            },
            Self::UnitDied { card_instance_id, owner_id } => GameEvent::UnitDied {
                card_instance_id: card_instance_id.clone(),
                owner_id: owner_id.clone(),
            },
            Self::TurnEnded { player_id, next_player_id, turn } => GameEvent::TurnEnded {
                player_id: player_id.clone(),
                next_player_id: next_player_id.clone(),
                turn: *turn,
            },
            Self::CommandRejected { reason } => GameEvent::CommandRejected {
                reason: reason.clone(),
            },
            Self::CardDrawn { player_id, card_instance_id } => GameEvent::CardDrawn {
                player_id: player_id.clone(),
                card_instance_id: card_instance_id.clone(),
            },
            Self::UnitSummoned { player_id, card_instance_id, card_definition_id } => GameEvent::UnitSummoned {
                player_id: player_id.clone(),
                card_instance_id: card_instance_id.clone(),
                card_definition_id: card_definition_id.clone(),
            },
            Self::UnitBuffed { card_instance_id, attack_delta, health_delta, new_attack, new_health } => GameEvent::UnitBuffed {
                card_instance_id: card_instance_id.clone(),
                attack_delta: *attack_delta,
                health_delta: *health_delta,
                new_attack: *new_attack,
                new_health: *new_health,
            },
            Self::UnitHealed { card_instance_id, amount, new_health } => GameEvent::UnitHealed {
                card_instance_id: card_instance_id.clone(),
                amount: *amount,
                new_health: *new_health,
            },
            Self::PlayerDamaged { player_id, damage, remaining_hp } => GameEvent::PlayerDamaged {
                player_id: player_id.clone(),
                damage: *damage,
                remaining_hp: *remaining_hp,
            },
            Self::PlayerHealed { player_id, amount, new_hp } => GameEvent::PlayerHealed {
                player_id: player_id.clone(),
                amount: *amount,
                new_hp: *new_hp,
            },
        }
    }
}

} // verus!
