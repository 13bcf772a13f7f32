use pac_window::{ElementState, InputEvent, InputState, MouseButton};
use winit::keyboard::KeyCode;

type Input = InputState<(f64, f64), (f32, f32)>;
type Event = InputEvent<(f64, f64), (f32, f32)>;

#[test]
fn test_key_press_and_release() {
    let mut input = Input::new();

    // Simulate pressing a key
    input.handle_key(KeyCode::KeyW as u32, ElementState::Pressed);
    assert!(input.is_key_pressed(KeyCode::KeyW as u32));
    assert!(input.is_key_just_pressed(KeyCode::KeyW as u32));

    // Update clears "just" states
    input.update();
    assert!(input.is_key_pressed(KeyCode::KeyW as u32));
    assert!(!input.is_key_just_pressed(KeyCode::KeyW as u32));

    // Simulate releasing the key
    input.handle_key(KeyCode::KeyW as u32, ElementState::Released);
    assert!(!input.is_key_pressed(KeyCode::KeyW as u32));
    assert!(input.is_key_just_released(KeyCode::KeyW as u32));

    // Update clears "just" states
    input.update();
    assert!(!input.is_key_just_released(KeyCode::KeyW as u32));
}

#[test]
fn test_mouse_button_tracking() {
    let mut input = Input::new();

    input.handle_mouse_button(MouseButton::Left, ElementState::Pressed);
    assert!(input.is_mouse_button_pressed(MouseButton::Left));
    assert!(input.is_mouse_button_just_pressed(MouseButton::Left));

    input.update();
    assert!(!input.is_mouse_button_just_pressed(MouseButton::Left));

    input.handle_mouse_button(MouseButton::Left, ElementState::Released);
    assert!(!input.is_mouse_button_pressed(MouseButton::Left));
    assert!(input.is_mouse_button_just_released(MouseButton::Left));
}

#[test]
fn new_state_holds_nothing() {
    let input = Input::new();
    assert!(input.pressed_keys().is_empty());
    assert!(input.pressed_mouse_buttons().is_empty());
    assert!(!input.is_cursor_in_window());
    assert!(!input.is_key_pressed(0));
    assert!(!input.is_key_just_pressed(0));
    assert!(!input.is_key_just_released(0));
    assert!(!input.is_mouse_button_pressed(MouseButton::Left));
}

#[test]
fn default_state_is_the_new_state() {
    let input = Input::default();
    assert!(input.pressed_keys().is_empty());
    assert!(input.pressed_mouse_buttons().is_empty());
    assert!(!input.is_cursor_in_window());
}

#[test]
fn repeated_press_is_not_a_new_press() {
    let mut input = Input::new();
    input.handle_key(30, ElementState::Pressed);
    input.update();
    input.handle_key(30, ElementState::Pressed);
    assert!(input.is_key_pressed(30));
    assert!(!input.is_key_just_pressed(30));
}

#[test]
fn press_and_release_in_one_frame_leaves_both_marks() {
    let mut input = Input::new();
    input.handle_key(12, ElementState::Pressed);
    input.handle_key(12, ElementState::Released);
    assert!(!input.is_key_pressed(12));
    assert!(input.is_key_just_pressed(12));
    assert!(input.is_key_just_released(12));
    input.update();
    assert!(!input.is_key_just_pressed(12));
    assert!(!input.is_key_just_released(12));
}

#[test]
fn release_of_a_key_that_was_not_held_is_recorded() {
    let mut input = Input::new();
    input.handle_key(5, ElementState::Released);
    assert!(!input.is_key_pressed(5));
    assert!(input.is_key_just_released(5));
    assert!(!input.is_key_just_pressed(5));
}

#[test]
fn keys_are_tracked_one_by_one() {
    let mut input = Input::new();
    input.handle_key(KeyCode::KeyA as u32, ElementState::Pressed);
    input.handle_key(KeyCode::KeyD as u32, ElementState::Pressed);
    input.handle_key(KeyCode::KeyA as u32, ElementState::Released);
    assert!(!input.is_key_pressed(KeyCode::KeyA as u32));
    assert!(input.is_key_pressed(KeyCode::KeyD as u32));
    assert!(!input.is_key_pressed(KeyCode::KeyW as u32));
    let held = input.pressed_keys();
    assert_eq!(held.len(), 1);
    assert!(held.contains(&(KeyCode::KeyD as u32)));
}

#[test]
fn update_keeps_what_is_held() {
    let mut input = Input::new();
    input.handle_key(1, ElementState::Pressed);
    input.handle_mouse_button(MouseButton::Right, ElementState::Pressed);
    input.handle_event(&Event::CursorEntered);
    input.update();
    input.update();
    assert!(input.is_key_pressed(1));
    assert!(input.is_mouse_button_pressed(MouseButton::Right));
    assert!(input.is_cursor_in_window());
}

#[test]
fn events_are_dispatched_by_kind() {
    let mut input = Input::new();
    input.handle_event(&Event::Key { code: 44, state: ElementState::Pressed });
    assert!(input.is_key_pressed(44));
    assert!(input.is_key_just_pressed(44));
    assert!(!input.is_mouse_button_pressed(MouseButton::Left));

    input.handle_event(&Event::MouseButton {
        button: MouseButton::Middle,
        state: ElementState::Pressed,
    });
    assert!(input.is_mouse_button_pressed(MouseButton::Middle));
    assert!(input.is_mouse_button_just_pressed(MouseButton::Middle));

    input.handle_event(&Event::Key { code: 44, state: ElementState::Released });
    assert!(!input.is_key_pressed(44));
    assert!(input.is_key_just_released(44));

    input.handle_event(&Event::MouseButton {
        button: MouseButton::Middle,
        state: ElementState::Released,
    });
    assert!(!input.is_mouse_button_pressed(MouseButton::Middle));
    assert!(input.is_mouse_button_just_released(MouseButton::Middle));
}

#[test]
fn cursor_enters_and_leaves() {
    let mut input = Input::new();
    assert!(!input.is_cursor_in_window());
    input.handle_event(&Event::CursorEntered);
    assert!(input.is_cursor_in_window());
    input.handle_event(&Event::CursorLeft);
    assert!(!input.is_cursor_in_window());
}

#[test]
fn a_key_and_a_button_with_one_number_do_not_mix() {
    let mut input = Input::new();
    input.handle_key(0, ElementState::Pressed);
    assert!(!input.is_mouse_button_pressed(MouseButton::Left));
    input.handle_mouse_button(MouseButton::Right, ElementState::Pressed);
    assert!(!input.is_key_pressed(1));
}

#[test]
fn pressed_mouse_buttons_lists_each_held_button_once() {
    let mut input = Input::new();
    input.handle_mouse_button(MouseButton::Left, ElementState::Pressed);
    input.handle_mouse_button(MouseButton::Other(7), ElementState::Pressed);
    input.handle_mouse_button(MouseButton::Left, ElementState::Pressed);
    input.handle_mouse_button(MouseButton::Forward, ElementState::Pressed);
    input.handle_mouse_button(MouseButton::Forward, ElementState::Released);
    let held = input.pressed_mouse_buttons();
    assert_eq!(held.len(), 2);
    assert!(held.contains(&MouseButton::Left));
    assert!(held.contains(&MouseButton::Other(7)));
}

#[test]
fn a_clone_holds_the_same_state_and_changes_apart() {
    let mut input = Input::new();
    input.handle_key(9, ElementState::Pressed);
    input.handle_mouse_button(MouseButton::Back, ElementState::Pressed);
    let mut copy = input.clone();
    assert!(copy.is_key_pressed(9));
    assert!(copy.is_key_just_pressed(9));
    assert!(copy.is_mouse_button_pressed(MouseButton::Back));
    copy.handle_key(9, ElementState::Released);
    assert!(!copy.is_key_pressed(9));
    assert!(input.is_key_pressed(9));
}

#[test]
fn button_codes_round_trip() {
    let buttons = [
        MouseButton::Left,
        MouseButton::Right,
        MouseButton::Middle,
        MouseButton::Back,
        MouseButton::Forward,
        MouseButton::Other(0),
        MouseButton::Other(1),
        MouseButton::Other(65535),
    ];
    let codes = [0u32, 1, 2, 3, 4, 5, 6, 65540];
    for i in 0..buttons.len() {
        assert_eq!(buttons[i].code(), codes[i]);
        assert_eq!(MouseButton::from_code(codes[i]), Some(buttons[i]));
    }
    assert_eq!(MouseButton::from_code(65541), None);
    assert_eq!(MouseButton::from_code(u32::MAX), None);
}

#[test]
fn cursor_position_follows_the_moves() {
    let mut input = Input::new();
    assert_eq!(input.mouse_position(), None);
    input.handle_event(&Event::CursorMoved { position: (10.0, 20.0) });
    assert_eq!(input.mouse_position(), Some((10.0, 20.0)));
    input.handle_event(&Event::CursorMoved { position: (12.5, 18.0) });
    assert_eq!(input.mouse_position(), Some((12.5, 18.0)));
}

#[test]
fn cursor_motion_needs_a_position_at_both_ends_of_the_frame() {
    let mut input = Input::new();
    assert_eq!(input.mouse_delta(), None);
    input.handle_event(&Event::CursorMoved { position: (10.0, 20.0) });
    assert_eq!(input.mouse_delta(), None);
    input.update();
    assert_eq!(input.mouse_delta(), Some(((10.0, 20.0), (10.0, 20.0))));
    input.handle_event(&Event::CursorMoved { position: (13.0, 16.0) });
    assert_eq!(input.mouse_delta(), Some(((10.0, 20.0), (13.0, 16.0))));
    input.update();
    assert_eq!(input.mouse_delta(), Some(((13.0, 16.0), (13.0, 16.0))));
}

#[test]
fn a_cursor_that_left_has_no_position() {
    let mut input = Input::new();
    input.handle_event(&Event::CursorEntered);
    input.handle_event(&Event::CursorMoved { position: (1.0, 2.0) });
    input.update();
    input.handle_event(&Event::CursorLeft);
    assert_eq!(input.mouse_position(), None);
    assert_eq!(input.mouse_delta(), None);
    assert!(!input.is_cursor_in_window());
    input.update();
    input.handle_event(&Event::CursorEntered);
    assert_eq!(input.mouse_position(), None);
    input.handle_event(&Event::CursorMoved { position: (3.0, 4.0) });
    assert_eq!(input.mouse_position(), Some((3.0, 4.0)));
    assert_eq!(input.mouse_delta(), None);
}

#[test]
fn wheel_steps_are_kept_in_order_for_one_frame() {
    let mut input = Input::new();
    assert!(input.mouse_wheel_delta().is_empty());
    input.handle_event(&Event::MouseWheel { delta: (0.0, 1.0) });
    input.handle_event(&Event::MouseWheel { delta: (0.5, -2.0) });
    assert_eq!(input.mouse_wheel_delta(), &vec![(0.0f32, 1.0f32), (0.5, -2.0)]);
    input.update();
    assert!(input.mouse_wheel_delta().is_empty());
}

#[test]
fn moves_and_wheel_turns_leave_keys_and_buttons_alone() {
    let mut input = Input::new();
    input.handle_key(7, ElementState::Pressed);
    input.handle_mouse_button(MouseButton::Left, ElementState::Pressed);
    input.handle_event(&Event::CursorMoved { position: (1.0, 1.0) });
    input.handle_event(&Event::MouseWheel { delta: (0.0, 3.0) });
    input.handle_event(&Event::CursorLeft);
    assert!(input.is_key_pressed(7));
    assert!(input.is_key_just_pressed(7));
    assert!(input.is_mouse_button_pressed(MouseButton::Left));
    assert_eq!(input.pressed_keys().len(), 1);
}

#[test]
fn a_clone_carries_cursor_and_wheel() {
    let mut input = Input::new();
    input.handle_event(&Event::CursorMoved { position: (4.0, 5.0) });
    input.update();
    input.handle_event(&Event::CursorMoved { position: (6.0, 7.0) });
    input.handle_event(&Event::MouseWheel { delta: (0.0, 1.0) });
    input.handle_event(&Event::CursorEntered);
    let copy = input.clone();
    assert_eq!(copy.mouse_position(), Some((6.0, 7.0)));
    assert_eq!(copy.mouse_delta(), Some(((4.0, 5.0), (6.0, 7.0))));
    assert_eq!(copy.mouse_wheel_delta(), &vec![(0.0f32, 1.0f32)]);
    assert!(copy.is_cursor_in_window());
}

#[test]
fn what_went_down_is_held_or_came_up_again() {
    let mut input = Input::new();
    let events = [
        Event::Key { code: 1, state: ElementState::Pressed },
        Event::Key { code: 2, state: ElementState::Pressed },
        Event::Key { code: 1, state: ElementState::Released },
        Event::Key { code: 1, state: ElementState::Pressed },
        Event::Key { code: 3, state: ElementState::Released },
        Event::Key { code: 2, state: ElementState::Released },
    ];
    for event in events.iter() {
        input.handle_event(event);
        for code in 0..5u32 {
            if input.is_key_just_pressed(code) {
                assert!(input.is_key_pressed(code) || input.is_key_just_released(code));
            }
        }
    }
    assert!(input.is_key_pressed(1));
    assert!(!input.is_key_pressed(2));
    assert!(input.is_key_just_pressed(2));
    assert!(input.is_key_just_released(2));
    assert!(input.is_key_just_released(3));
    assert!(!input.is_key_just_pressed(3));
}

#[test]
fn a_second_update_changes_nothing() {
    let mut input = Input::new();
    input.handle_key(1, ElementState::Pressed);
    input.handle_event(&Event::CursorMoved { position: (2.0, 3.0) });
    input.handle_event(&Event::MouseWheel { delta: (0.0, 1.0) });
    input.update();
    let held: Vec<u32> = input.pressed_keys().iter().copied().collect();
    let motion = input.mouse_delta();
    input.update();
    assert_eq!(input.pressed_keys().iter().copied().collect::<Vec<u32>>(), held);
    assert_eq!(input.mouse_delta(), motion);
    assert!(input.mouse_wheel_delta().is_empty());
    assert!(!input.is_key_just_pressed(1));
}

#[test]
fn every_other_button_has_its_own_code() {
    let mut input = Input::new();
    input.handle_mouse_button(MouseButton::Other(0), ElementState::Pressed);
    input.handle_mouse_button(MouseButton::Other(65535), ElementState::Pressed);
    assert!(input.is_mouse_button_pressed(MouseButton::Other(0)));
    assert!(input.is_mouse_button_pressed(MouseButton::Other(65535)));
    assert!(!input.is_mouse_button_pressed(MouseButton::Other(1)));
    assert!(!input.is_mouse_button_pressed(MouseButton::Forward));
    assert!(!input.is_mouse_button_pressed(MouseButton::Left));
    let mut held = input.pressed_mouse_buttons();
    held.sort_by_key(|button| button.code());
    assert_eq!(held, vec![MouseButton::Other(0), MouseButton::Other(65535)]);
}

#[test]
fn handle_mouse_wheel_adds_one_step() {
    let mut input = Input::new();
    input.handle_mouse_wheel((1.0, 0.0));
    input.handle_mouse_wheel((0.0, -1.0));
    assert_eq!(input.mouse_wheel_delta(), &vec![(1.0f32, 0.0f32), (0.0, -1.0)]);
    assert_eq!(input.mouse_position(), None);
    assert!(input.pressed_keys().is_empty());
}
