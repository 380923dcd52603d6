//! Properties that hold of every command the engine carries out.
use vstd::prelude::*;

use crate::command::CommandView;
use crate::model::{CardInstanceView, CardType, GameStateView, PlayerView, Zone};
use crate::rules::{
    all_registered, attack_unit_engages, damage_unit, dispatch, dispatch_overflows,
    initial_state, is_current_player, move_unit_to_graveyard, other_than, player_index,
    field_units_sound, fit_for_field, lists_registered, mana_in_range, owners_are_players,
    unit_definitions_sound, valid_state,
};

verus! {

/// Every command appends exactly the events it returns to the game's event log, in the
/// order it returns them; a command that fails appends nothing.
pub proof fn event_log_records_results(s: GameStateView, c: CommandView)
    ensures
        match dispatch(s, c).1 {
            Ok(evs) => evs.len() >= 1 && dispatch(s, c).0.events == s.events + evs,
            Err(_) => dispatch(s, c).0.events == s.events,
        },
{
    match c {
        CommandView::AttackUnit { player_id, attacker_id, target_id } => {
            lemma_combat_keeps_frame(s, player_id, attacker_id, target_id);
        },
        _ => {},
    }
}

/// The two blows of a fight keep what `keeps_frame` names.
proof fn lemma_combat_keeps_frame(
    s: GameStateView,
    player_id: Seq<char>,
    attacker_id: Seq<char>,
    target_id: Seq<char>,
)
    ensures
        ({
            let aa = s.instances[attacker_id].attack->0;
            let ta = s.instances[target_id].attack->0;
            let s1 = damage_unit(s, target_id, aa).0;
            let s2 = damage_unit(s1, attacker_id, ta).0;
            &&& keeps_frame(s, s1)
            &&& keeps_frame(s1, s2)
        }),
{
    let aa = s.instances[attacker_id].attack->0;
    let ta = s.instances[target_id].attack->0;
    lemma_damage_keeps_frame(s, target_id, aa);
    let s1 = damage_unit(s, target_id, aa).0;
    lemma_damage_keeps_frame(s1, attacker_id, ta);
}

/// What damage never touches: the log, the turn, whose turn it is, the players' number,
/// names, life and mana, and the definitions.
pub open spec fn keeps_frame(s: GameStateView, t: GameStateView) -> bool {
    &&& t.events == s.events
    &&& t.turn == s.turn
    &&& t.current_player == s.current_player
    &&& t.definitions == s.definitions
    &&& t.players.len() == s.players.len()
    &&& forall|i: int| 0 <= i < s.players.len() ==> {
        &&& (#[trigger] t.players[i]).id == s.players[i].id
        &&& t.players[i].hp == s.players[i].hp
        &&& t.players[i].mana == s.players[i].mana
        &&& t.players[i].max_mana == s.players[i].max_mana
    }
    &&& t.instances.dom() == s.instances.dom()
}

proof fn lemma_damage_keeps_frame(s: GameStateView, id: Seq<char>, damage: i32)
    ensures
        keeps_frame(s, damage_unit(s, id, damage).0),
{
    if s.instances.contains_key(id) && s.instances[id].health is Some {
        let h = s.instances[id].health->0;
        let u = s.instances[id];
        let s1 = s.with_instance(id, CardInstanceView { health: Some((h - damage) as i32), ..u });
        assert(s1.instances.dom() =~= s.instances.dom());
        lemma_graveyard_keeps_frame(s1, id);
    }
}

proof fn lemma_graveyard_keeps_frame(s: GameStateView, id: Seq<char>)
    ensures
        keeps_frame(s, move_unit_to_graveyard(s, id).0),
{
    let t = move_unit_to_graveyard(s, id).0;
    if s.instances.contains_key(id) {
        let c = s.instances[id];
        if let Some(oi) = player_index(s, c.owner_id) {
            s.players.map_values(|p: PlayerView| p.id).index_of_first_ensures(c.owner_id);
            assert(t.instances.dom() =~= s.instances.dom());
            assert forall|i: int| 0 <= i < s.players.len() implies (#[trigger] t.players[i]).id == s.players[i].id
                && t.players[i].hp == s.players[i].hp && t.players[i].mana == s.players[i].mana
                && t.players[i].max_mana == s.players[i].max_mana by {
            }
        }
    }
}

/// A command that is refused changes nothing but the event log, where the refusal is
/// recorded.
pub proof fn refusal_changes_nothing_else(s: GameStateView, c: CommandView)
    ensures
        ({
            let (t, r) = dispatch(s, c);
            r is Ok && r->Ok_0.len() == 1 && r->Ok_0[0] is CommandRejected ==> t == s.with_event(
                r->Ok_0[0],
            )
        }),
{
}

/// A command that fails leaves the game as it was, with one exception: an attack on a
/// unit that has passed every check and come to blows, where the damage dealt before
/// the failure stands. That exception needs a dying unit whose owner is none of the
/// players: where every owner is a player, a failed command changes nothing at all.
pub proof fn failure_changes_nothing(s: GameStateView, c: CommandView)
    ensures
        dispatch(s, c).1 is Err ==> dispatch(s, c).0 == s || (c matches CommandView::AttackUnit {
            player_id,
            attacker_id,
            target_id,
        } && attack_unit_engages(s, player_id, attacker_id, target_id)),
        owners_are_players(s) && dispatch(s, c).1 is Err ==> dispatch(s, c).0 == s,
{
    if let CommandView::AttackUnit { player_id, attacker_id, target_id } = c {
        if owners_are_players(s) && attack_unit_engages(s, player_id, attacker_id, target_id) {
            let aa = s.instances[attacker_id].attack->0;
            let ta = s.instances[target_id].attack->0;
            lemma_damage_fails_only_without_health(s, target_id, aa);
            let s1 = damage_unit(s, target_id, aa).0;
            if damage_unit(s, target_id, aa).1 is Ok {
                lemma_combat_keeps_frame(s, player_id, attacker_id, target_id);
                assert forall|k: Seq<char>| #[trigger] s1.instances.contains_key(k) implies exists|i: int|
                    0 <= i < s1.players.len() && (#[trigger] s1.players[i]).id == s1.instances[k].owner_id by {
                    let w = choose|i: int| 0 <= i < s.players.len() && (#[trigger] s.players[i]).id == s.instances[k].owner_id;
                    assert(s1.players[w].id == s.players[w].id);
                    lemma_damage_keeps_owner(s, target_id, aa, k);
                }
                assert(attacker_id != target_id);
                lemma_damage_fails_only_without_health(s1, attacker_id, ta);
            }
        }
    }
}

/// Where every owner is a player, damage to a card fails only where the card is missing
/// or has no health, and then changes nothing.
proof fn lemma_damage_fails_only_without_health(s: GameStateView, k: Seq<char>, damage: i32)
    requires
        owners_are_players(s),
    ensures
        damage_unit(s, k, damage).1 is Err ==> damage_unit(s, k, damage).0 == s && (!s.instances.contains_key(k)
            || s.instances[k].health is None),
{
    if s.instances.contains_key(k) && s.instances[k].health is Some {
        let u = s.instances[k];
        let w = choose|i: int| 0 <= i < s.players.len() && (#[trigger] s.players[i]).id == u.owner_id;
        let remaining = (u.health->0 - damage) as i32;
        let s1 = s.with_instance(k, CardInstanceView { health: Some(remaining), ..u });
        let ids = s1.players.map_values(|p: PlayerView| p.id);
        assert(ids[w] == u.owner_id);
        ids.index_of_first_ensures(u.owner_id);
    }
}

/// The next state and the result depend on nothing but the state and the command: two
/// games in the same state given the same command end in the same state with the same
/// result.
pub proof fn dispatch_is_deterministic(s1: GameStateView, s2: GameStateView, c1: CommandView, c2: CommandView)
    requires
        s1 == s2,
        c1 == c2,
    ensures
        dispatch(s1, c1) == dispatch(s2, c2),
{
}

/// Each kind of command is carried out by its own rule.
pub proof fn dispatch_follows_each_command_kind(s: GameStateView, c: CommandView)
    ensures
        match c {
            CommandView::PlayCard { player_id, card_instance_id } => dispatch(s, c)
                == crate::rules::play_card(s, player_id, card_instance_id),
            CommandView::EndTurn { player_id } => dispatch(s, c) == crate::rules::end_turn(s, player_id),
            CommandView::AttackUnit { player_id, attacker_id, target_id } => dispatch(s, c)
                == crate::rules::attack_unit(s, player_id, attacker_id, target_id),
            CommandView::AttackPlayer { player_id, attacker_id, target_player_id } => dispatch(s, c)
                == crate::rules::attack_player(s, player_id, attacker_id, target_player_id),
        },
{
}

/// Given attacks of at least zero, no command raises a player's life, and no command
/// shortens the event log.
pub proof fn life_never_rises(s: GameStateView, c: CommandView)
    requires
        !dispatch_overflows(s, c),
        forall|k: Seq<char>| #[trigger] s.instances.contains_key(k) ==> (s.instances[k].attack matches Some(a)
            ==> a >= 0),
    ensures
        forall|i: int| 0 <= i < s.players.len() ==> (#[trigger] dispatch(s, c).0.players[i]).hp <= s.players[i].hp,
        dispatch(s, c).0.events.len() >= s.events.len(),
{
    event_log_records_results(s, c);
    lemma_dispatch_frame(s, c);
    match c {
        CommandView::AttackUnit { player_id, attacker_id, target_id } => {
            lemma_combat_keeps_frame(s, player_id, attacker_id, target_id);
        },
        CommandView::PlayCard { player_id, card_instance_id } => {
            if let Some(pi) = player_index(s, player_id) {
                s.players.map_values(|p: PlayerView| p.id).index_of_first_ensures(player_id);
            }
        },
        CommandView::AttackPlayer { player_id, attacker_id, target_player_id } => {
            if let Some(ti) = player_index(s, target_player_id) {
                s.players.map_values(|p: PlayerView| p.id).index_of_first_ensures(target_player_id);
            }
        },
        CommandView::EndTurn { player_id } => {
            if is_current_player(s, player_id) == Ok::<bool, Seq<char>>(true) {
                vstd::arithmetic::div_mod::lemma_mod_pos_bound(
                    s.current_player + 1,
                    s.players.len() as int,
                );
            }
        },
    }
}

/// No command changes the card definitions or the set of card instances.
pub proof fn cards_are_never_created_or_destroyed(s: GameStateView, c: CommandView)
    ensures
        dispatch(s, c).0.definitions == s.definitions,
        dispatch(s, c).0.instances.dom() == s.instances.dom(),
{
    lemma_dispatch_frame(s, c);
}

/// The turn counter goes up by one when the current player ends their turn, and no
/// command changes it otherwise.
pub proof fn turn_counts_ended_turns(s: GameStateView, c: CommandView)
    requires
        !dispatch_overflows(s, c),
    ensures
        dispatch(s, c).0.turn == if c matches CommandView::EndTurn { player_id }
            && is_current_player(s, player_id) == Ok::<bool, Seq<char>>(true) {
            s.turn + 1
        } else {
            s.turn as int
        },
{
    lemma_dispatch_frame(s, c);
}

/// After the current player ends their turn, the next player in order has the turn, with
/// full mana and every unit on their field ready to act.
pub proof fn new_turn_refreshes_next_player(s: GameStateView, player_id: Seq<char>)
    requires
        is_current_player(s, player_id) == Ok::<bool, Seq<char>>(true),
        s.players.len() <= usize::MAX,
    ensures
        ({
            let t = dispatch(s, CommandView::EndTurn { player_id }).0;
            let p = t.players[t.current_player as int];
            &&& t.current_player == (s.current_player + 1) % (s.players.len() as int)
            &&& p.mana == p.max_mana
            &&& forall|i: int| 0 <= i < p.field.len() && t.instances.contains_key(#[trigger] p.field[i])
                ==> !t.instances[p.field[i]].exhausted
        }),
{
    let t = dispatch(s, CommandView::EndTurn { player_id }).0;
    vstd::arithmetic::div_mod::lemma_mod_pos_bound(
        s.current_player + 1,
        s.players.len() as int,
    );
    let p = t.players[t.current_player as int];
    assert forall|i: int| 0 <= i < p.field.len() && t.instances.contains_key(#[trigger] p.field[i])
        implies !t.instances[p.field[i]].exhausted by {
        assert(p.field.contains(p.field[i]));
    }
}

/// The player and the unit that act in an attack command.
pub open spec fn attacker_of(c: CommandView) -> Option<(Seq<char>, Seq<char>)> {
    match c {
        CommandView::AttackUnit { player_id, attacker_id, .. } => Some((player_id, attacker_id)),
        CommandView::AttackPlayer { player_id, attacker_id, .. } => Some((player_id, attacker_id)),
        _ => None,
    }
}

/// A unit that has attacked cannot attack again until its controller's next turn: any
/// further attack with it, on a unit or on a player, fails.
pub proof fn attacker_cannot_strike_twice(s: GameStateView, first: CommandView, second: CommandView)
    requires
        attacker_of(first) is Some,
        attacker_of(second) == attacker_of(first),
        dispatch(s, first).1 matches Ok(evs) && !(evs[0] is CommandRejected),
    ensures
        dispatch(dispatch(s, first).0, second).1 is Err,
{
    let (player_id, attacker_id) = attacker_of(first)->0;
    let t = dispatch(s, first).0;
    lemma_dispatch_frame(s, first);
    match first {
        CommandView::AttackUnit { player_id, attacker_id, target_id } => {
            lemma_combat_keeps_frame(s, player_id, attacker_id, target_id);
        },
        _ => {},
    }
    assert(t.instances.contains_key(attacker_id));
    assert(t.instances[attacker_id].exhausted);
    assert(is_current_player(t, player_id) == Ok::<bool, Seq<char>>(true));
}

/// A card that has just been played cannot attack in the same turn: a unit enters the
/// field exhausted, and a spell goes to the graveyard.
pub proof fn played_card_cannot_attack(s: GameStateView, player_id: Seq<char>, card_instance_id: Seq<char>, next: CommandView)
    requires
        dispatch(s, CommandView::PlayCard { player_id, card_instance_id }).1 matches Ok(evs)
            && evs[0] is CardPlayed,
        attacker_of(next) == Some((player_id, card_instance_id)),
    ensures
        dispatch(dispatch(s, CommandView::PlayCard { player_id, card_instance_id }).0, next).1 is Err,
{
    let t = dispatch(s, CommandView::PlayCard { player_id, card_instance_id }).0;
    let pi = player_index(s, player_id)->0;
    s.players.map_values(|p: PlayerView| p.id).index_of_first_ensures(player_id);
    assert(t.players[s.current_player as int].id == s.players[s.current_player as int].id);
    assert(is_current_player(t, player_id) == Ok::<bool, Seq<char>>(true));
}

/// What every command keeps: the definitions, the set of instances, whose turn it is
/// unless the turn ends, the players' number and names.
pub(crate) proof fn lemma_dispatch_frame(s: GameStateView, c: CommandView)
    ensures
        ({
            let t = dispatch(s, c).0;
            &&& t.definitions == s.definitions
            &&& t.instances.dom() == s.instances.dom()
            &&& t.players.len() == s.players.len()
            &&& forall|i: int| 0 <= i < s.players.len() ==> (#[trigger] t.players[i]).id == s.players[i].id
            &&& !(c is EndTurn) ==> t.turn == s.turn && t.current_player == s.current_player
            &&& (c is EndTurn && is_current_player(s, c->EndTurn_player_id) != Ok::<bool, Seq<char>>(true))
                ==> t.turn == s.turn && t.current_player == s.current_player
        }),
{
    let t = dispatch(s, c).0;
    match c {
        CommandView::AttackUnit { player_id, attacker_id, target_id } => {
            lemma_combat_keeps_frame(s, player_id, attacker_id, target_id);
        },
        CommandView::PlayCard { player_id, card_instance_id } => {
            if let Some(pi) = player_index(s, player_id) {
                s.players.map_values(|p: PlayerView| p.id).index_of_first_ensures(player_id);
            }
        },
        CommandView::AttackPlayer { player_id, attacker_id, target_player_id } => {
            if let Some(ti) = player_index(s, target_player_id) {
                s.players.map_values(|p: PlayerView| p.id).index_of_first_ensures(target_player_id);
            }
        },
        CommandView::EndTurn { player_id } => {
        },
    }
    assert(t.instances.dom() =~= s.instances.dom());
}

/// The game starts well-formed.
pub proof fn initial_state_is_valid()
    ensures
        valid_state(initial_state()),
{
    let s = initial_state();
    assert(all_registered(s.players[0].hand, s.instances));
    assert(all_registered(s.players[1].hand, s.instances));
}

/// Every command keeps the game well-formed.
pub proof fn commands_keep_state_valid(s: GameStateView, c: CommandView)
    requires
        valid_state(s),
    ensures
        valid_state(dispatch(s, c).0),
{
    lemma_commands_keep_turn_and_mana(s, c);
    lemma_commands_keep_registered(s, c, true);
}

/// Every command keeps the turn with one of the players and each player's mana within
/// their maximum.
proof fn lemma_commands_keep_turn_and_mana(s: GameStateView, c: CommandView)
    requires
        mana_in_range(s),
    ensures
        mana_in_range(dispatch(s, c).0),
        s.current_player < s.players.len() ==> dispatch(s, c).0.current_player < dispatch(s, c).0.players.len(),
        forall|i: int| 0 <= i < s.players.len() ==> (#[trigger] dispatch(s, c).0.players[i]).max_mana == s.players[i].max_mana,
{
    lemma_dispatch_frame(s, c);
    match c {
        CommandView::PlayCard { player_id, card_instance_id } => {
            if let Some(pi) = player_index(s, player_id) {
                s.players.map_values(|p: PlayerView| p.id).index_of_first_ensures(player_id);
            }
        },
        CommandView::EndTurn { player_id } => {
            if is_current_player(s, player_id) == Ok::<bool, Seq<char>>(true) {
                vstd::arithmetic::div_mod::lemma_mod_pos_bound(
                    s.current_player + 1,
                    s.players.len() as int,
                );
            }
        },
        CommandView::AttackUnit { player_id, attacker_id, target_id } => {
            lemma_combat_keeps_frame(s, player_id, attacker_id, target_id);
        },
        CommandView::AttackPlayer { player_id, attacker_id, target_player_id } => {
            if let Some(ti) = player_index(s, target_player_id) {
                s.players.map_values(|p: PlayerView| p.id).index_of_first_ensures(target_player_id);
            }
        },
    }
}

/// Every command keeps every card that the players' lists name a card instance of the
/// game; decks included or not.
pub(crate) proof fn lemma_commands_keep_registered(s: GameStateView, c: CommandView, with_deck: bool)
    requires
        lists_registered(s, with_deck),
    ensures
        lists_registered(dispatch(s, c).0, with_deck),
{
    lemma_dispatch_frame(s, c);
    let t = dispatch(s, c).0;
    match c {
        CommandView::PlayCard { player_id, card_instance_id } => {
            if let Some(pi) = player_index(s, player_id) {
                s.players.map_values(|p: PlayerView| p.id).index_of_first_ensures(player_id);
                let p = s.players[pi];
                if let Some(hi) = p.hand.index_of_first(card_instance_id) {
                    p.hand.index_of_first_ensures(card_instance_id);
                    let h = p.hand.remove(hi);
                    assert forall|j: int| 0 <= j < h.len() implies s.instances.contains_key(#[trigger] h[j]) by {
                        if j < hi {
                            assert(h[j] == p.hand[j]);
                        } else {
                            assert(h[j] == p.hand[j + 1]);
                        }
                    }
                }
            }
            lemma_registered_by_players(s, t, with_deck);
        },
        CommandView::EndTurn { player_id } => {
            if is_current_player(s, player_id) == Ok::<bool, Seq<char>>(true) {
                vstd::arithmetic::div_mod::lemma_mod_pos_bound(
                    s.current_player + 1,
                    s.players.len() as int,
                );
            }
            lemma_registered_by_players(s, t, with_deck);
        },
        CommandView::AttackUnit { player_id, attacker_id, target_id } => {
            if attack_unit_engages(s, player_id, attacker_id, target_id) {
                let aa = s.instances[attacker_id].attack->0;
                let ta = s.instances[target_id].attack->0;
                lemma_damage_keeps_registered(s, target_id, aa, with_deck);
                let s1 = damage_unit(s, target_id, aa).0;
                lemma_damage_keeps_registered(s1, attacker_id, ta, with_deck);
                let s2 = damage_unit(s1, attacker_id, ta).0;
                if damage_unit(s, target_id, aa).1 is Ok && damage_unit(s1, attacker_id, ta).1 is Ok {
                    assert(t.instances.dom() =~= s2.instances.dom());
                    lemma_registered_by_players(s2, t, with_deck);
                }
            }
        },
        CommandView::AttackPlayer { player_id, attacker_id, target_player_id } => {
            if let Some(ti) = player_index(s, target_player_id) {
                s.players.map_values(|p: PlayerView| p.id).index_of_first_ensures(target_player_id);
            }
            lemma_registered_by_players(s, t, with_deck);
        },
    }
}

/// The players' lists stay registered when the instances keep their identifiers and
/// every list names only cards the old state had.
proof fn lemma_registered_by_players(s: GameStateView, t: GameStateView, with_deck: bool)
    requires
        lists_registered(s, with_deck),
        t.instances.dom() == s.instances.dom(),
        forall|i: int| 0 <= i < t.players.len() ==> {
            &&& with_deck ==> all_registered((#[trigger] t.players[i]).deck, s.instances)
            &&& all_registered(t.players[i].hand, s.instances)
            &&& all_registered(t.players[i].field, s.instances)
            &&& all_registered(t.players[i].graveyard, s.instances)
        },
    ensures
        lists_registered(t, with_deck),
{
    assert forall|i: int| 0 <= i < t.players.len() implies {
        &&& with_deck ==> all_registered((#[trigger] t.players[i]).deck, t.instances)
        &&& all_registered(t.players[i].hand, t.instances)
        &&& all_registered(t.players[i].field, t.instances)
        &&& all_registered(t.players[i].graveyard, t.instances)
    } by {
        let p = t.players[i];
        if with_deck {
            assert forall|j: int| 0 <= j < p.deck.len() implies t.instances.contains_key(#[trigger] p.deck[j]) by {
                assert(s.instances.contains_key(p.deck[j]));
            }
        }
        assert forall|j: int| 0 <= j < p.hand.len() implies t.instances.contains_key(#[trigger] p.hand[j]) by {
            assert(s.instances.contains_key(p.hand[j]));
        }
        assert forall|j: int| 0 <= j < p.field.len() implies t.instances.contains_key(#[trigger] p.field[j]) by {
            assert(s.instances.contains_key(p.field[j]));
        }
        assert forall|j: int| 0 <= j < p.graveyard.len() implies t.instances.contains_key(#[trigger] p.graveyard[j]) by {
            assert(s.instances.contains_key(p.graveyard[j]));
        }
    }
}

proof fn lemma_damage_keeps_registered(s: GameStateView, id: Seq<char>, damage: i32, with_deck: bool)
    requires
        lists_registered(s, with_deck),
    ensures
        lists_registered(damage_unit(s, id, damage).0, with_deck),
{
    if s.instances.contains_key(id) && s.instances[id].health is Some {
        let h = s.instances[id].health->0;
        let u = s.instances[id];
        let s1 = s.with_instance(id, CardInstanceView { health: Some((h - damage) as i32), ..u });
        assert(s1.instances.dom() =~= s.instances.dom());
        lemma_registered_by_players(s, s1, with_deck);
        lemma_graveyard_keeps_registered(s1, id, with_deck);
    }
}

proof fn lemma_graveyard_keeps_registered(s: GameStateView, id: Seq<char>, with_deck: bool)
    requires
        lists_registered(s, with_deck),
    ensures
        lists_registered(move_unit_to_graveyard(s, id).0, with_deck),
{
    let t = move_unit_to_graveyard(s, id).0;
    if s.instances.contains_key(id) {
        let c = s.instances[id];
        if let Some(oi) = player_index(s, c.owner_id) {
            s.players.map_values(|p: PlayerView| p.id).index_of_first_ensures(c.owner_id);
            assert(t.instances.dom() =~= s.instances.dom());
            let p = s.players[oi];
            let f = p.field.filter(other_than(id));
            assert forall|j: int| 0 <= j < f.len() implies s.instances.contains_key(#[trigger] f[j]) by {
                assert(f.contains(f[j]));
                p.field.lemma_filter_contains_rev(other_than(id), f[j]);
            }
            lemma_registered_by_players(s, t, with_deck);
        }
    }
}

/// Playing a card takes exactly its cost from the player's mana and one card out of
/// their hand.
pub proof fn playing_pays_the_cost(s: GameStateView, player_id: Seq<char>, card_instance_id: Seq<char>)
    requires
        dispatch(s, CommandView::PlayCard { player_id, card_instance_id }).1 matches Ok(evs)
            && evs[0] is CardPlayed,
    ensures
        ({
            let t = dispatch(s, CommandView::PlayCard { player_id, card_instance_id }).0;
            let evs = dispatch(s, CommandView::PlayCard { player_id, card_instance_id }).1->Ok_0;
            let pi = player_index(s, player_id)->0;
            &&& t.players[pi].mana == s.players[pi].mana - evs[0]->CardPlayed_cost
            &&& t.players[pi].hand.len() == s.players[pi].hand.len() - 1
        }),
{
    let pi = player_index(s, player_id)->0;
    s.players.map_values(|p: PlayerView| p.id).index_of_first_ensures(player_id);
    let p = s.players[pi];
    p.hand.index_of_first_ensures(card_instance_id);
}

/// Damage of at least zero to a unit on the field leaves every card on the field fit for
/// it: a unit left above zero health stays with less, one at zero or below goes to the
/// graveyard. No other card changes, and the players keep their number and names.
proof fn lemma_damage_keeps_units_sound(s: GameStateView, k: Seq<char>, damage: i32)
    requires
        field_units_sound(s),
        owners_are_players(s),
        s.instances.contains_key(k),
        s.instances[k].zone == Zone::Field,
        damage >= 0,
    ensures
        field_units_sound(damage_unit(s, k, damage).0),
        damage_unit(s, k, damage).1 is Ok,
        forall|k2: Seq<char>| k2 != k ==> damage_unit(s, k, damage).0.instances[k2] == s.instances[k2],
        damage_unit(s, k, damage).0.instances.dom() == s.instances.dom(),
        damage_unit(s, k, damage).0.players.len() == s.players.len(),
        forall|i: int| 0 <= i < s.players.len() ==> (#[trigger] damage_unit(s, k, damage).0.players[i]).id == s.players[i].id,
{
    let u = s.instances[k];
    assert(fit_for_field(u));
    let h = u.health->0;
    let remaining = (h - damage) as i32;
    let s1 = s.with_instance(k, CardInstanceView { health: Some(remaining), ..u });
    assert(s1.instances.dom() =~= s.instances.dom());
    if remaining <= 0 {
        let w = choose|i: int| 0 <= i < s.players.len() && (#[trigger] s.players[i]).id == u.owner_id;
        let ids = s1.players.map_values(|p: PlayerView| p.id);
        assert(ids[w] == u.owner_id);
        ids.index_of_first_ensures(u.owner_id);
        let t = move_unit_to_graveyard(s1, k).0;
        assert(t.instances.dom() =~= s1.instances.dom());
    }
}

/// Every command keeps each card on the field fit for it (an attack of at least zero,
/// a health above zero and at most its maximum), keeps each player's mana within their
/// maximum and the maximum as it was, and keeps every owner one of the players; given
/// unit definitions with such stats, which no command changes.
pub proof fn commands_keep_units_sound(s: GameStateView, c: CommandView)
    requires
        owners_are_players(s),
        mana_in_range(s),
        field_units_sound(s),
        unit_definitions_sound(s),
    ensures
        owners_are_players(dispatch(s, c).0),
        mana_in_range(dispatch(s, c).0),
        field_units_sound(dispatch(s, c).0),
        unit_definitions_sound(dispatch(s, c).0),
        forall|i: int| 0 <= i < s.players.len() ==> (#[trigger] dispatch(s, c).0.players[i]).max_mana == s.players[i].max_mana,
{
    lemma_dispatch_frame(s, c);
    lemma_commands_keep_turn_and_mana(s, c);
    let t = dispatch(s, c).0;
    assert forall|k: Seq<char>| #[trigger] t.instances.contains_key(k) implies exists|i: int|
        0 <= i < t.players.len() && (#[trigger] t.players[i]).id == t.instances[k].owner_id by {
        assert(s.instances.contains_key(k));
        let w = choose|i: int| 0 <= i < s.players.len() && (#[trigger] s.players[i]).id == s.instances[k].owner_id;
        assert(t.players[w].id == s.players[w].id);
        lemma_dispatch_keeps_owner(s, c, k);
    }
    match c {
        CommandView::PlayCard { player_id, card_instance_id } => {
            if let Some(pi) = player_index(s, player_id) {
                s.players.map_values(|p: PlayerView| p.id).index_of_first_ensures(player_id);
            }
            if s.instances.contains_key(card_instance_id) && s.definitions.contains_key(
                s.instances[card_instance_id].definition_id,
            ) {
                let d = s.definitions[s.instances[card_instance_id].definition_id];
                assert(d.card_type == CardType::Unit ==> (d.unit_stats matches Some(st) && st.attack >= 0
                    && st.health > 0));
            }
        },
        CommandView::EndTurn { player_id } => {
            assert forall|k: Seq<char>| #[trigger] t.instances.contains_key(k) && t.instances[k].zone == Zone::Field
                implies fit_for_field(t.instances[k]) by {
                assert(fit_for_field(s.instances[k]));
            }
        },
        CommandView::AttackUnit { player_id, attacker_id, target_id } => {
            if attack_unit_engages(s, player_id, attacker_id, target_id) {
                let aa = s.instances[attacker_id].attack->0;
                let ta = s.instances[target_id].attack->0;
                assert(fit_for_field(s.instances[attacker_id]));
                assert(fit_for_field(s.instances[target_id]));
                lemma_damage_keeps_units_sound(s, target_id, aa);
                let s1 = damage_unit(s, target_id, aa).0;
                assert(attacker_id != target_id);
                assert(s1.instances.contains_key(attacker_id));
                assert forall|k: Seq<char>| #[trigger] s1.instances.contains_key(k) implies exists|i: int|
                    0 <= i < s1.players.len() && (#[trigger] s1.players[i]).id == s1.instances[k].owner_id by {
                    let w = choose|i: int| 0 <= i < s.players.len() && (#[trigger] s.players[i]).id == s.instances[k].owner_id;
                    assert(s1.players[w].id == s.players[w].id);
                    if k == target_id {
                        assert(s1.instances[k].owner_id == s.instances[k].owner_id);
                    }
                }
                lemma_damage_keeps_units_sound(s1, attacker_id, ta);
                let s2 = damage_unit(s1, attacker_id, ta).0;
                assert forall|k: Seq<char>| #[trigger] t.instances.contains_key(k) && t.instances[k].zone == Zone::Field
                    implies fit_for_field(t.instances[k]) by {
                    assert(fit_for_field(s2.instances[k]));
                }
            }
        },
        CommandView::AttackPlayer { player_id, attacker_id, target_player_id } => {
            if let Some(ti) = player_index(s, target_player_id) {
                s.players.map_values(|p: PlayerView| p.id).index_of_first_ensures(target_player_id);
            }
            assert forall|k: Seq<char>| #[trigger] t.instances.contains_key(k) && t.instances[k].zone == Zone::Field
                implies fit_for_field(t.instances[k]) by {
                assert(fit_for_field(s.instances[k]));
            }
        },
    }
}

/// No command changes who owns a card.
proof fn lemma_dispatch_keeps_owner(s: GameStateView, c: CommandView, k: Seq<char>)
    requires
        s.instances.contains_key(k),
    ensures
        dispatch(s, c).0.instances[k].owner_id == s.instances[k].owner_id,
{
    match c {
        CommandView::AttackUnit { player_id, attacker_id, target_id } => {
            let aa = s.instances[attacker_id].attack->0;
            let ta = s.instances[target_id].attack->0;
            lemma_damage_keeps_owner(s, target_id, aa, k);
            let s1 = damage_unit(s, target_id, aa).0;
            lemma_damage_keeps_owner(s1, attacker_id, ta, k);
        },
        _ => {},
    }
}

proof fn lemma_damage_keeps_owner(s: GameStateView, id: Seq<char>, damage: i32, k: Seq<char>)
    ensures
        damage_unit(s, id, damage).0.instances[k].owner_id == s.instances[k].owner_id,
{
}

/// A list that holds only elements a predicate accepts is left as it is by filtering with
/// that predicate.
proof fn lemma_filter_keeps_all(l: Seq<Seq<char>>, p: spec_fn(Seq<char>) -> bool)
    requires
        forall|j: int| 0 <= j < l.len() ==> p(#[trigger] l[j]),
    ensures
        l.filter(p) == l,
    decreases l.len(),
{
    reveal(Seq::filter);
    if l.len() > 0 {
        let d = l.drop_last();
        assert forall|j: int| 0 <= j < d.len() implies p(#[trigger] d[j]) by {
            assert(d[j] == l[j]);
        }
        lemma_filter_keeps_all(d, p);
        assert(l =~= d.push(l.last()));
    }
}

/// Moving a unit to the graveyard a second time succeeds and changes nothing: the unit is
/// not listed in the graveyard twice.
pub proof fn graveyard_move_is_idempotent(s: GameStateView, id: Seq<char>)
    requires
        move_unit_to_graveyard(s, id).1 is Ok,
    ensures
        move_unit_to_graveyard(move_unit_to_graveyard(s, id).0, id) == (
            move_unit_to_graveyard(s, id).0,
            Ok::<(), Seq<char>>(()),
        ),
{
    broadcast use vstd::seq_lib::group_filter_ensures;

    let s1 = move_unit_to_graveyard(s, id).0;
    let c = s.instances[id];
    let oi = player_index(s, c.owner_id)->0;
    s.players.map_values(|p: PlayerView| p.id).index_of_first_ensures(c.owner_id);
    assert(s1.players.map_values(|p: PlayerView| p.id) =~= s.players.map_values(|p: PlayerView| p.id));
    assert(player_index(s1, c.owner_id) == Some(oi));
    let p1 = s1.players[oi];
    let f = s.players[oi].field.filter(other_than(id));
    assert forall|j: int| 0 <= j < f.len() implies other_than(id)(#[trigger] f[j]) by {
        s.players[oi].field.lemma_filter_pred(other_than(id), j);
    }
    lemma_filter_keeps_all(f, other_than(id));
    assert(p1.graveyard.contains(id)) by {
        if !s.players[oi].graveyard.contains(id) {
            assert(p1.graveyard[p1.graveyard.len() - 1] == id);
        }
    }
    let s2 = move_unit_to_graveyard(s1, id).0;
    assert(s2.players =~= s1.players);
    assert(s2.instances =~= s1.instances);
}

} // verus!
