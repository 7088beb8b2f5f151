use vstd::prelude::*;

verus! {

/// A direction in which the player can steer.
#[derive(Debug, Copy, Clone, PartialEq, Eq, Structural, Hash)]
pub enum InputAxis {
    PaletteLeft,
    PaletteRight,
}

/// A key of the keyboard, as far as the game tells keys apart.
#[derive(Debug, Copy, Clone, PartialEq, Eq, Structural, Hash)]
pub enum KeyCode {
    A,
    D,
    Other,
}

/// Whether a key went down or came up.
#[derive(Debug, Copy, Clone, PartialEq, Eq, Structural, Hash)]
pub enum ElementState {
    Pressed,
    Released,
}

/// An event of the window, as far as the game reads it.
#[derive(Debug, Copy, Clone, PartialEq, Eq, Structural, Hash)]
pub enum WindowEvent {
    /// A key changed its state; the key is unknown where the keyboard did not name it.
    KeyboardInput { virtual_keycode: Option<KeyCode>, state: ElementState },
    /// Anything else.
    Other,
}

impl InputAxis {
    /// The axis that a key steers, if it steers one.
    pub open spec fn of_keycode(keycode: KeyCode) -> Option<InputAxis> {
        match keycode {
            KeyCode::A => Some(InputAxis::PaletteLeft),
            KeyCode::D => Some(InputAxis::PaletteRight),
            KeyCode::Other => None,
        }
    }

    /// All the axes.
    pub fn axes_list() -> (axes: Vec<InputAxis>)
        ensures
            axes@ == seq![InputAxis::PaletteLeft, InputAxis::PaletteRight],
    {
        let mut axes: Vec<InputAxis> = Vec::new();
        axes.push(InputAxis::PaletteLeft);
        axes.push(InputAxis::PaletteRight);
        axes
    }

    pub fn map_keycode(keycode: &KeyCode) -> (axis: Option<InputAxis>)
        ensures
            axis == InputAxis::of_keycode(*keycode),
    {
        match keycode {
            KeyCode::A => Some(InputAxis::PaletteLeft),
            KeyCode::D => Some(InputAxis::PaletteRight),
            KeyCode::Other => None,
        }
    }
}

/// Which axes are held at the moment.
#[derive(Debug, Copy, Clone, PartialEq, Eq)]
pub struct Input {
    palette_left: bool,
    palette_right: bool,
}

/// The axis and the state that an event sets it to, if the event is of a key that
/// steers an axis.
pub open spec fn steering(event: WindowEvent) -> Option<(InputAxis, bool)> {
    match event {
        WindowEvent::KeyboardInput { virtual_keycode: Some(keycode), state } => match InputAxis::of_keycode(
            keycode,
        ) {
            Some(axis) => Some((axis, state == ElementState::Pressed)),
            None => None,
        },
        _ => None,
    }
}

impl Input {
    /// Whether each axis is held.
    pub closed spec fn axes(self) -> Map<InputAxis, bool> {
        map![
            InputAxis::PaletteLeft => self.palette_left,
            InputAxis::PaletteRight => self.palette_right,
        ]
    }

    /// Every axis has a state.
    pub proof fn lemma_axes_total(self, axis: InputAxis)
        ensures
            self.axes().contains_key(axis),
    {
    }

    /// The input in which no axis is held.
    pub fn new() -> (input: Input)
        ensures
            input.axes() == map![
                InputAxis::PaletteLeft => false,
                InputAxis::PaletteRight => false,
            ],
    {
        Input { palette_left: false, palette_right: false }
    }

    /// Takes note of an event. Says whether the event was of a key that steers an
    /// axis; if so, the axis is held from now on if the key went down and free if it
    /// came up.
    pub fn handle_event(&mut self, event: &WindowEvent) -> (handled: bool)
        ensures
            handled == steering(*event).is_some(),
            final(self).axes() == match steering(*event) {
                Some((axis, held)) => old(self).axes().insert(axis, held),
                None => old(self).axes(),
            },
    {
        match event {
            WindowEvent::KeyboardInput { virtual_keycode: Some(keycode), state } => {
                match InputAxis::map_keycode(keycode) {
                    Some(axis) => {
                        let held = match state {
                            ElementState::Pressed => true,
                            ElementState::Released => false,
                        };
                        match axis {
                            InputAxis::PaletteLeft => {
                                self.palette_left = held;
                            },
                            InputAxis::PaletteRight => {
                                self.palette_right = held;
                            },
                        }
                        true
                    },
                    None => false,
                }
            },
            _ => false,
        }
    }

    /// Whether the axis is held.
    pub fn get_axis(&self, axis: &InputAxis) -> (held: bool)
        ensures
            held == self.axes()[*axis],
    {
        match axis {
            InputAxis::PaletteLeft => self.palette_left,
            InputAxis::PaletteRight => self.palette_right,
        }
    }
}

} // verus!
