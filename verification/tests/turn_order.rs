use game_test::action_menu::{show_button_state, ActionMenu, ButtonLook, ButtonState, Interaction};
use game_test::characters::{
    CharacterName, CharacterSkills, IconName, Initiative, PlayerCharacter, PortraitAtlasId,
    Vitality,
};
use game_test::roster::{Character, Roster};
use game_test::turns::{show_initiative, turn_order, Action, TurnController, TurnState};

fn roster_with(initiatives: &[Option<u8>]) -> Roster {
    let mut roster = Roster::new();
    for (at, value) in initiatives.iter().enumerate() {
        let slug = format!("c{at}");
        let mut character = Character::from_player(PlayerCharacter {
            name: CharacterName::new(&slug, &slug, &slug, &slug),
            icon: IconName::new(&slug),
            portrait: PortraitAtlasId::default(),
            skills: CharacterSkills::new(15, 15, 15),
            vitality: Vitality::new(5),
        });
        character.initiative = value.map(Initiative::new);
        roster.add(character);
    }
    roster
}

const ALL: [Action; 6] = [
    Action::Move,
    Action::ExtraMove,
    Action::Attack,
    Action::Switch,
    Action::GetUp,
    Action::EndTurn,
];

#[test]
fn the_order_is_by_initiative_and_then_by_place() {
    let roster = roster_with(&[Some(5), Some(0), Some(12), Some(12)]);
    assert_eq!(turn_order(&roster), vec![2, 3, 0, 1]);
    let roster = roster_with(&[Some(1), None, Some(9), Some(1), None, Some(28), Some(9)]);
    assert_eq!(turn_order(&roster), vec![5, 2, 6, 0, 3]);
    assert!(turn_order(&Roster::new()).is_empty());
    assert!(turn_order(&roster_with(&[None, None])).is_empty());
}

#[test]
fn the_first_of_the_tied_leaders_takes_the_first_turn() {
    let roster = roster_with(&[Some(5), Some(0), Some(12), Some(12)]);
    let mut turn = TurnController::new();
    assert_eq!(turn.state, TurnState::Setup);
    assert_eq!(turn.current_actor(), None);
    turn.start(&roster);
    assert_eq!(turn.state, TurnState::ActorTurn(2));
    assert_eq!(turn.current_actor(), Some(2));
    assert_eq!(turn.order, vec![2, 3, 0, 1]);
}

#[test]
fn end_turn_goes_down_the_order_and_wraps() {
    let roster = roster_with(&[Some(5), Some(0), Some(12), Some(12)]);
    let mut turn = TurnController::new();
    turn.start(&roster);
    let mut seen = vec![turn.current_actor().unwrap()];
    for _ in 0..8 {
        turn.end_turn();
        seen.push(turn.current_actor().unwrap());
    }
    assert_eq!(seen, vec![2, 3, 0, 1, 2, 3, 0, 1, 2]);
}

#[test]
fn nobody_acts_when_all_initiatives_are_zero() {
    let roster = roster_with(&[Some(0), Some(0), None]);
    let mut turn = TurnController::new();
    turn.start(&roster);
    assert_eq!(turn.state, TurnState::Setup);
    assert_eq!(turn.current_actor(), None);
    turn.end_turn();
    assert_eq!(turn.state, TurnState::Setup);
    assert!(!turn.press(Action::EndTurn));
    assert!(ALL.iter().all(|action| !turn.is_enabled(*action)));
}

#[test]
fn only_move_and_end_turn_are_open_to_the_actor() {
    let roster = roster_with(&[Some(3), Some(7)]);
    let mut turn = TurnController::new();
    assert!(ALL.iter().all(|action| !turn.is_enabled(*action)));
    turn.start(&roster);
    let open: Vec<Action> = ALL.iter().copied().filter(|action| turn.is_enabled(*action)).collect();
    assert_eq!(open, vec![Action::Move, Action::EndTurn]);
    assert!(turn.press(Action::Move));
    assert_eq!(turn.current_actor(), Some(1));
    assert!(!turn.press(Action::Attack));
    assert!(!turn.press(Action::ExtraMove));
    assert!(!turn.press(Action::Switch));
    assert!(!turn.press(Action::GetUp));
    assert_eq!(turn.current_actor(), Some(1));
    assert!(turn.press(Action::EndTurn));
    assert_eq!(turn.current_actor(), Some(0));
    assert!(turn.press(Action::EndTurn));
    assert_eq!(turn.current_actor(), Some(1));
}

#[test]
fn a_started_controller_is_not_started_again() {
    let roster = roster_with(&[Some(3), Some(7)]);
    let mut turn = TurnController::new();
    turn.start(&roster);
    turn.end_turn();
    turn.start(&roster_with(&[Some(9), Some(9), Some(9)]));
    assert_eq!(turn.current_actor(), Some(0));
    assert_eq!(turn.order, vec![1, 0]);
}

#[test]
fn a_finished_combat_has_no_actor() {
    let roster = roster_with(&[Some(3)]);
    let mut turn = TurnController::new();
    turn.start(&roster);
    turn.end_turn();
    assert_eq!(turn.current_actor(), Some(0));
    turn.finish();
    assert_eq!(turn.state, TurnState::Ended);
    assert_eq!(turn.current_actor(), None);
    turn.end_turn();
    turn.start(&roster);
    assert_eq!(turn.state, TurnState::Ended);
    assert!(!turn.press(Action::Move));
}

#[test]
fn buttons_follow_the_turn_loop() {
    let mut menu = ActionMenu::new();
    assert!(ALL.iter().all(|action| !menu.get(*action).enabled));
    let mut turn = TurnController::new();
    menu.enable_buttons(&turn);
    assert!(ALL.iter().all(|action| !menu.get(*action).enabled));
    turn.start(&roster_with(&[Some(4)]));
    menu.enable_buttons(&turn);
    let enabled: Vec<Action> =
        ALL.iter().copied().filter(|action| menu.get(*action).enabled).collect();
    assert_eq!(enabled, vec![Action::Move, Action::EndTurn]);
}

#[test]
fn one_button_is_held_at_a_time() {
    let mut menu = ActionMenu::new();
    let mut turn = TurnController::new();
    turn.start(&roster_with(&[Some(4)]));
    menu.enable_buttons(&turn);
    assert!(!menu.button_interaction_system(Action::Move, Interaction::Hovered));
    assert!(menu.get(Action::Move).hover);
    assert!(!menu.any_pressed());
    assert!(menu.button_interaction_system(Action::Move, Interaction::Pressed));
    assert!(menu.any_pressed());
    assert_eq!(
        menu.get(Action::Move),
        ButtonState { enabled: true, pressed: true, hover: false }
    );
    assert!(!menu.button_interaction_system(Action::EndTurn, Interaction::Pressed));
    assert!(!menu.get(Action::EndTurn).pressed);
    assert!(!menu.button_interaction_system(Action::Move, Interaction::Hovered));
    assert!(!menu.get(Action::Move).hover);
    assert!(!menu.button_interaction_system(Action::EndTurn, Interaction::Hovered));
    assert!(menu.get(Action::EndTurn).hover);
    assert!(!menu.button_interaction_system(Action::EndTurn, Interaction::Idle));
    assert!(!menu.get(Action::EndTurn).hover);
    menu.release_all();
    assert!(!menu.any_pressed());
    assert!(menu.button_interaction_system(Action::EndTurn, Interaction::Pressed));
    assert!(menu.get(Action::EndTurn).pressed);
}

#[test]
fn a_disabled_button_does_not_answer() {
    let mut menu = ActionMenu::new();
    let mut turn = TurnController::new();
    turn.start(&roster_with(&[Some(4)]));
    menu.enable_buttons(&turn);
    let before = menu;
    assert!(!menu.button_interaction_system(Action::Attack, Interaction::Pressed));
    assert!(!menu.button_interaction_system(Action::Attack, Interaction::Hovered));
    assert!(!menu.button_interaction_system(Action::GetUp, Interaction::Idle));
    assert_eq!(menu, before);
}

#[test]
fn the_look_follows_the_marks() {
    let state = |enabled, pressed, hover| ButtonState { enabled, pressed, hover };
    assert_eq!(show_button_state(state(false, false, false)), Some(ButtonLook::Disabled));
    assert_eq!(show_button_state(state(false, true, true)), Some(ButtonLook::Disabled));
    assert_eq!(show_button_state(state(true, false, false)), Some(ButtonLook::Normal));
    assert_eq!(show_button_state(state(true, false, true)), Some(ButtonLook::Hovered));
    assert_eq!(show_button_state(state(true, true, false)), Some(ButtonLook::Pressed));
    assert_eq!(show_button_state(state(true, true, true)), None);
}

#[test]
fn the_portrait_of_the_actor_is_shown() {
    let mut roster = roster_with(&[Some(5), Some(0), Some(12), Some(12)]);
    for (at, character) in roster.characters.iter_mut().enumerate() {
        character.portrait.index = 30 + at;
    }
    let mut turn = TurnController::new();
    assert_eq!(show_initiative(&turn, &roster), None);
    turn.start(&roster);
    assert_eq!(show_initiative(&turn, &roster), Some(32));
    turn.end_turn();
    assert_eq!(show_initiative(&turn, &roster), Some(33));
    assert_eq!(show_initiative(&turn, &Roster::new()), None);
    turn.finish();
    assert_eq!(show_initiative(&turn, &roster), None);
}
