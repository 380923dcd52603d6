use vstd::prelude::*;

verus! {

/// A request that a player makes of the game.
#[derive(Clone, Debug, PartialEq, Eq)]
pub enum Command {
    PlayCard { player_id: String, card_instance_id: String },
    EndTurn { player_id: String },
    AttackUnit { player_id: String, attacker_id: String, target_id: String },
    AttackPlayer { player_id: String, attacker_id: String, target_player_id: String },
}

pub enum CommandView {
    PlayCard { player_id: Seq<char>, card_instance_id: Seq<char> },
    EndTurn { player_id: Seq<char> },
    AttackUnit { player_id: Seq<char>, attacker_id: Seq<char>, target_id: Seq<char> },
    AttackPlayer { player_id: Seq<char>, attacker_id: Seq<char>, target_player_id: Seq<char> },
}

impl View for Command {
    type V = CommandView;

    open spec fn view(&self) -> CommandView {
        match self {
            Command::PlayCard { player_id, card_instance_id } => CommandView::PlayCard {
                player_id: player_id@,
                card_instance_id: card_instance_id@,
            },
            Command::EndTurn { player_id } => CommandView::EndTurn { player_id: player_id@ },
            Command::AttackUnit { player_id, attacker_id, target_id } => CommandView::AttackUnit {
                player_id: player_id@,
                attacker_id: attacker_id@,
                target_id: target_id@,
            },
            Command::AttackPlayer { player_id, attacker_id, target_player_id } =>
                CommandView::AttackPlayer {
                player_id: player_id@,
                attacker_id: attacker_id@,
                target_player_id: target_player_id@,
            },
        }
    }
}

} // verus!
