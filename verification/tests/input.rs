use arkanoid::input::{ElementState, Input, InputAxis, KeyCode, WindowEvent};

fn key(code: KeyCode, state: ElementState) -> WindowEvent {
    WindowEvent::KeyboardInput { virtual_keycode: Some(code), state }
}

#[test]
fn no_axis_is_held_at_first() {
    let input = Input::new();
    assert!(!input.get_axis(&InputAxis::PaletteLeft));
    assert!(!input.get_axis(&InputAxis::PaletteRight));
}

#[test]
fn axes_list_names_both_axes() {
    assert_eq!(InputAxis::axes_list(), vec![InputAxis::PaletteLeft, InputAxis::PaletteRight]);
}

#[test]
fn keys_a_and_d_steer() {
    assert_eq!(InputAxis::map_keycode(&KeyCode::A), Some(InputAxis::PaletteLeft));
    assert_eq!(InputAxis::map_keycode(&KeyCode::D), Some(InputAxis::PaletteRight));
    assert_eq!(InputAxis::map_keycode(&KeyCode::Other), None);
}

#[test]
fn pressed_key_holds_its_axis_until_released() {
    let mut input = Input::new();
    assert!(input.handle_event(&key(KeyCode::A, ElementState::Pressed)));
    assert!(input.get_axis(&InputAxis::PaletteLeft));
    assert!(!input.get_axis(&InputAxis::PaletteRight));
    assert!(input.handle_event(&key(KeyCode::D, ElementState::Pressed)));
    assert!(input.get_axis(&InputAxis::PaletteLeft));
    assert!(input.get_axis(&InputAxis::PaletteRight));
    assert!(input.handle_event(&key(KeyCode::A, ElementState::Released)));
    assert!(!input.get_axis(&InputAxis::PaletteLeft));
    assert!(input.get_axis(&InputAxis::PaletteRight));
}

#[test]
fn other_events_are_not_handled_and_change_nothing() {
    let mut input = Input::new();
    input.handle_event(&key(KeyCode::D, ElementState::Pressed));
    let before = input;
    assert!(!input.handle_event(&key(KeyCode::Other, ElementState::Pressed)));
    assert!(!input.handle_event(&WindowEvent::Other));
    assert!(!input.handle_event(&WindowEvent::KeyboardInput {
        virtual_keycode: None,
        state: ElementState::Released,
    }));
    assert_eq!(input, before);
}
