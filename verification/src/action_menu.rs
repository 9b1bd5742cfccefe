//! The action menu: one button for each action, and what pointing at a
//! button and pressing it do to the buttons.

use crate::turns::{Action, TurnController};
use vstd::prelude::*;

verus! {

/// What the pointer does to a button.
#[derive(Debug, Clone, Copy, PartialEq, Eq, Structural)]
pub enum Interaction {
    /// The button is pressed.
    Pressed,
    /// The pointer is over the button.
    Hovered,
    /// The pointer has left the button.
    Idle,
}

/// The marks that a button carries.
#[derive(Debug, Clone, Copy, PartialEq, Eq, Structural)]
pub struct ButtonState {
    pub enabled: bool,
    pub pressed: bool,
    pub hover: bool,
}

/// How a button is to be shown.
#[derive(Debug, Clone, Copy, PartialEq, Eq, Structural)]
pub enum ButtonLook {
    Pressed,
    Hovered,
    Normal,
    Disabled,
}

/// The look that a button's marks call for. A button that is pressed and
/// still under the pointer keeps the look it has.
pub open spec fn look_of(state: ButtonState) -> Option<ButtonLook> {
    if !state.enabled {
        Some(ButtonLook::Disabled)
    } else if state.pressed {
        if state.hover {
            None
        } else {
            Some(ButtonLook::Pressed)
        }
    } else if state.hover {
        Some(ButtonLook::Hovered)
    } else {
        Some(ButtonLook::Normal)
    }
}

pub fn show_button_state(state: ButtonState) -> (look: Option<ButtonLook>)
    ensures
        look == look_of(state),
{
    if !state.enabled {
        Some(ButtonLook::Disabled)
    } else if state.pressed {
        if state.hover {
            None
        } else {
            Some(ButtonLook::Pressed)
        }
    } else if state.hover {
        Some(ButtonLook::Hovered)
    } else {
        Some(ButtonLook::Normal)
    }
}

/// The buttons of the action menu.
#[derive(Debug, Clone, Copy, PartialEq, Eq, Structural)]
pub struct ActionMenu {
    pub move_button: ButtonState,
    pub extra_move_button: ButtonState,
    pub attack_button: ButtonState,
    pub switch_button: ButtonState,
    pub get_up_button: ButtonState,
    pub end_turn_button: ButtonState,
}

impl ActionMenu {
    /// The button for an action.
    pub open spec fn button(self, action: Action) -> ButtonState {
        match action {
            Action::Move => self.move_button,
            Action::ExtraMove => self.extra_move_button,
            Action::Attack => self.attack_button,
            Action::Switch => self.switch_button,
            Action::GetUp => self.get_up_button,
            Action::EndTurn => self.end_turn_button,
        }
    }

    /// The menu with the button for an action replaced.
    pub open spec fn with_button(self, action: Action, state: ButtonState) -> ActionMenu {
        match action {
            Action::Move => ActionMenu { move_button: state, ..self },
            Action::ExtraMove => ActionMenu { extra_move_button: state, ..self },
            Action::Attack => ActionMenu { attack_button: state, ..self },
            Action::Switch => ActionMenu { switch_button: state, ..self },
            Action::GetUp => ActionMenu { get_up_button: state, ..self },
            Action::EndTurn => ActionMenu { end_turn_button: state, ..self },
        }
    }

    /// Whether the button for an action is held down and counts: a
    /// disabled button does not.
    pub open spec fn holds(self, action: Action) -> bool {
        self.button(action).enabled && self.button(action).pressed
    }

    /// Whether any button is held down.
    pub open spec fn any_held(self) -> bool {
        exists|action: Action| self.holds(action)
    }

    /// No two buttons are held down at once.
    pub open spec fn one_at_a_time(self) -> bool {
        forall|a: Action, b: Action| self.holds(a) && self.holds(b) ==> a == b
    }

    /// The menu after the pointer did something to a button. Only a button
    /// that is enabled and not held down answers. It is pressed only while
    /// no button is held down, and pressing it ends the hover.
    pub open spec fn interacted(self, action: Action, interaction: Interaction) -> ActionMenu {
        let state = self.button(action);
        if !state.enabled || state.pressed {
            self
        } else {
            match interaction {
                Interaction::Pressed => if self.any_held() {
                    self
                } else {
                    self.with_button(action, ButtonState { pressed: true, hover: false, ..state })
                },
                Interaction::Hovered => self.with_button(
                    action,
                    ButtonState { hover: true, ..state },
                ),
                Interaction::Idle => self.with_button(action, ButtonState { hover: false, ..state }),
            }
        }
    }

    /// The menu after the buttons were enabled for the state of the turn
    /// loop: a button is enabled exactly if its action is open.
    pub open spec fn enabled_for(self, turn: TurnController) -> ActionMenu {
        ActionMenu {
            move_button: ButtonState { enabled: turn.enabled(Action::Move), ..self.move_button },
            extra_move_button: ButtonState {
                enabled: turn.enabled(Action::ExtraMove),
                ..self.extra_move_button
            },
            attack_button: ButtonState {
                enabled: turn.enabled(Action::Attack),
                ..self.attack_button
            },
            switch_button: ButtonState {
                enabled: turn.enabled(Action::Switch),
                ..self.switch_button
            },
            get_up_button: ButtonState {
                enabled: turn.enabled(Action::GetUp),
                ..self.get_up_button
            },
            end_turn_button: ButtonState {
                enabled: turn.enabled(Action::EndTurn),
                ..self.end_turn_button
            },
        }
    }

    /// A menu whose buttons carry no mark.
    pub fn new() -> (menu: Self)
        ensures
            forall|action: Action|
                #[trigger] menu.button(action) == (ButtonState {
                    enabled: false,
                    pressed: false,
                    hover: false,
                }),
    {
        let bare = ButtonState { enabled: false, pressed: false, hover: false };
        ActionMenu {
            move_button: bare,
            extra_move_button: bare,
            attack_button: bare,
            switch_button: bare,
            get_up_button: bare,
            end_turn_button: bare,
        }
    }

    pub fn get(&self, action: Action) -> (state: ButtonState)
        ensures
            state == self.button(action),
    {
        match action {
            Action::Move => self.move_button,
            Action::ExtraMove => self.extra_move_button,
            Action::Attack => self.attack_button,
            Action::Switch => self.switch_button,
            Action::GetUp => self.get_up_button,
            Action::EndTurn => self.end_turn_button,
        }
    }

    fn set(&mut self, action: Action, state: ButtonState)
        ensures
            *final(self) == old(self).with_button(action, state),
    {
        match action {
            Action::Move => {
                self.move_button = state;
            },
            Action::ExtraMove => {
                self.extra_move_button = state;
            },
            Action::Attack => {
                self.attack_button = state;
            },
            Action::Switch => {
                self.switch_button = state;
            },
            Action::GetUp => {
                self.get_up_button = state;
            },
            Action::EndTurn => {
                self.end_turn_button = state;
            },
        }
    }

    fn is_held(state: ButtonState) -> (held: bool)
        ensures
            held == (state.enabled && state.pressed),
    {
        state.enabled && state.pressed
    }

    /// Whether any button is held down.
    pub fn any_pressed(&self) -> (held: bool)
        ensures
            held == self.any_held(),
    {
        let held = Self::is_held(self.move_button) || Self::is_held(self.extra_move_button)
            || Self::is_held(self.attack_button) || Self::is_held(self.switch_button)
            || Self::is_held(self.get_up_button) || Self::is_held(self.end_turn_button);
        proof {
            if held {
                assert(self.holds(Action::Move) || self.holds(Action::ExtraMove) || self.holds(
                    Action::Attack,
                ) || self.holds(Action::Switch) || self.holds(Action::GetUp) || self.holds(
                    Action::EndTurn,
                ));
            }
        }
        held
    }

    /// Enables the buttons of the actions that are open in the turn loop
    /// and disables the others. The other marks stay.
    pub fn enable_buttons(&mut self, turn: &TurnController)
        ensures
            *final(self) == old(self).enabled_for(*turn),
    {
        self.move_button.enabled = turn.is_enabled(Action::Move);
        self.extra_move_button.enabled = turn.is_enabled(Action::ExtraMove);
        self.attack_button.enabled = turn.is_enabled(Action::Attack);
        self.switch_button.enabled = turn.is_enabled(Action::Switch);
        self.get_up_button.enabled = turn.is_enabled(Action::GetUp);
        self.end_turn_button.enabled = turn.is_enabled(Action::EndTurn);
    }

    /// Takes what the pointer did to a button, and says whether the button
    /// was pressed by it.
    pub fn button_interaction_system(&mut self, action: Action, interaction: Interaction) -> (pressed:
        bool)
        ensures
            *final(self) == old(self).interacted(action, interaction),
            pressed == (final(self).button(action).pressed && !old(self).button(action).pressed),
    {
        let state = self.get(action);
        if !state.enabled || state.pressed {
            return false;
        }
        match interaction {
            Interaction::Pressed => {
                if self.any_pressed() {
                    false
                } else {
                    self.set(action, ButtonState { enabled: state.enabled, pressed: true, hover: false });
                    true
                }
            },
            Interaction::Hovered => {
                self.set(action, ButtonState { enabled: state.enabled, pressed: state.pressed, hover: true });
                false
            },
            Interaction::Idle => {
                self.set(action, ButtonState { enabled: state.enabled, pressed: state.pressed, hover: false });
                false
            },
        }
    }

    /// Lets go of every button, as when the turn passes on.
    pub fn release_all(&mut self)
        ensures
            forall|action: Action|
                #[trigger] final(self).button(action) == (ButtonState {
                    pressed: false,
                    ..old(self).button(action)
                }),
    {
        self.move_button.pressed = false;
        self.extra_move_button.pressed = false;
        self.attack_button.pressed = false;
        self.switch_button.pressed = false;
        self.get_up_button.pressed = false;
        self.end_turn_button.pressed = false;
    }
}

/// Replacing one button leaves the others as they were.
pub proof fn lemma_button_replaced(
    menu: ActionMenu,
    action: Action,
    state: ButtonState,
    other: Action,
)
    ensures
        menu.with_button(action, state).button(other) == if other == action {
            state
        } else {
            menu.button(other)
        },
{
}

/// What the pointer does to one button changes no other button, and of the
/// button itself never whether it is enabled.
pub proof fn lemma_interaction_is_local(
    menu: ActionMenu,
    action: Action,
    interaction: Interaction,
    other: Action,
)
    ensures
        other != action ==> menu.interacted(action, interaction).button(other) == menu.button(
            other,
        ),
        menu.interacted(action, interaction).button(action).enabled == menu.button(action).enabled,
{
    let state = menu.button(action);
    lemma_button_replaced(
        menu,
        action,
        ButtonState { pressed: true, hover: false, ..state },
        other,
    );
    lemma_button_replaced(menu, action, ButtonState { hover: true, ..state }, other);
    lemma_button_replaced(menu, action, ButtonState { hover: false, ..state }, other);
    lemma_button_replaced(
        menu,
        action,
        ButtonState { pressed: true, hover: false, ..state },
        action,
    );
    lemma_button_replaced(menu, action, ButtonState { hover: true, ..state }, action);
    lemma_button_replaced(menu, action, ButtonState { hover: false, ..state }, action);
}

/// Whatever the pointer does, no second button comes to be held down
/// beside one that is.
pub proof fn lemma_one_at_a_time(menu: ActionMenu, action: Action, interaction: Interaction)
    requires
        menu.one_at_a_time(),
    ensures
        menu.interacted(action, interaction).one_at_a_time(),
{
    let after = menu.interacted(action, interaction);
    let state = menu.button(action);
    assert forall|a: Action, b: Action| after.holds(a) && after.holds(b) implies a == b by {
        lemma_interaction_is_local(menu, action, interaction, a);
        lemma_interaction_is_local(menu, action, interaction, b);
        lemma_held_after(menu, action, interaction);
        if a != action && b != action {
            assert(menu.holds(a) && menu.holds(b));
        } else if a == action && b != action {
            assert(menu.holds(b));
        } else if b == action && a != action {
            assert(menu.holds(a));
        }
    }
}

/// The button that the pointer touched is held down afterwards only if it
/// was before, or if no button was.
pub proof fn lemma_held_after(menu: ActionMenu, action: Action, interaction: Interaction)
    ensures
        menu.interacted(action, interaction).holds(action) ==> menu.holds(action)
            || !menu.any_held(),
{
    let state = menu.button(action);
    lemma_button_replaced(
        menu,
        action,
        ButtonState { pressed: true, hover: false, ..state },
        action,
    );
    lemma_button_replaced(menu, action, ButtonState { hover: true, ..state }, action);
    lemma_button_replaced(menu, action, ButtonState { hover: false, ..state }, action);
}

/// A button that is disabled or held down does not answer the pointer.
pub proof fn lemma_deaf_button(menu: ActionMenu, action: Action, interaction: Interaction)
    requires
        !menu.button(action).enabled || menu.button(action).pressed,
    ensures
        menu.interacted(action, interaction) == menu,
{
}

} // verus!
