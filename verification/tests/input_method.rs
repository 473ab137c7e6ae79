use ime_bridge::event::{Action, InputMethodEvent};
use ime_bridge::input_method::{Departure, InputMethodHandle, KeyForwardMode};
use ime_bridge::keyboard::{KeyRecord, KeyState, ModifiersState};
use ime_bridge::object::{ObjectId, Surface};
use ime_bridge::text_input::TextInputHandle;
use xkeysym::KeyCode;

fn object(client: u64, id: u64) -> ObjectId {
    ObjectId { client, id }
}

fn to_im(instance: ObjectId, event: InputMethodEvent) -> Action {
    Action::InputMethod { instance, event }
}

fn key_action(instance: ObjectId, serial: u32, time: u32, key: u32, state: KeyState) -> Action {
    to_im(instance, InputMethodEvent::Key { serial, time, key, state })
}

fn forward(keycode: u32, state: KeyState, serial: u32, time: u32) -> Action {
    Action::ForwardKey { keycode: KeyCode::new(keycode), state, serial, time }
}

const MODIFIERS: ModifiersState =
    ModifiersState { depressed: 1, latched: 2, locked: 4, layout_effective: 3 };

fn press(handle: &mut InputMethodHandle, text_input: &TextInputHandle, serial: u32) -> (bool, Vec<Action>) {
    handle.input_intercept(text_input, KeyCode::new(38), KeyState::Pressed, serial, 500 + serial, None)
}

#[test]
fn new_handle_has_no_object() {
    let handle = InputMethodHandle::new();
    assert!(!handle.has_instance());
    assert_eq!(handle.currently_set_input_method(), None);
    assert_eq!(handle.with_instance(&"keyboard".to_string()), None);
    assert!(!handle.serves(&"keyboard".to_string()));
    assert!(handle.keys().is_empty());
    assert!(!InputMethodHandle::default().has_instance());
}

#[test]
fn first_object_becomes_the_current_input_method() {
    let mut handle = InputMethodHandle::new();
    assert!(handle.add_instance(object(7, 1), "keyboard".to_string()));
    assert!(handle.add_instance(object(8, 2), "pinyin".to_string()));
    assert!(handle.has_instance());
    assert_eq!(handle.currently_set_input_method(), Some("keyboard".to_string()));
    assert_eq!(handle.with_instance(&"keyboard".to_string()), Some(object(7, 1)));
    assert_eq!(handle.with_instance(&"pinyin".to_string()), Some(object(8, 2)));
    assert_eq!(handle.with_instance(&"other".to_string()), None);
}

#[test]
fn routing_id_in_use_is_rejected() {
    let mut handle = InputMethodHandle::new();
    let text_input = TextInputHandle::new();
    assert!(handle.add_instance(object(7, 1), "keyboard".to_string()));
    press(&mut handle, &text_input, 1);
    assert!(!handle.add_instance(object(8, 2), "keyboard".to_string()));
    assert_eq!(handle.with_instance(&"keyboard".to_string()), Some(object(7, 1)));
    assert_eq!(handle.keys().len(), 1);
}

#[test]
fn adding_an_object_keeps_the_log() {
    let mut handle = InputMethodHandle::new();
    let text_input = TextInputHandle::new();
    handle.add_instance(object(7, 1), "keyboard".to_string());
    press(&mut handle, &text_input, 1);
    press(&mut handle, &text_input, 2);
    let before = handle.keys();
    assert_eq!(before.len(), 2);
    assert!(handle.add_instance(object(8, 2), "pinyin".to_string()));
    assert_eq!(handle.keys(), before);
    assert_eq!(handle.keys()[0].serial, 1);
    assert_eq!(handle.keys()[1].serial, 2);
    assert_eq!(handle.currently_set_input_method(), Some("keyboard".to_string()));
}

#[test]
fn first_activation_sends_the_keyboard_snapshot() {
    let mut handle = InputMethodHandle::new();
    handle.add_instance(object(7, 1), "keyboard".to_string());
    handle.add_instance(object(8, 2), "pinyin".to_string());
    assert_eq!(
        handle.activate_input_method("pinyin".to_string()),
        vec![
            to_im(object(8, 2), InputMethodEvent::Activate { app_id: "pinyin".to_string() }),
            to_im(object(8, 2), InputMethodEvent::KeyboardSnapshot),
        ]
    );
    assert_eq!(handle.currently_set_input_method(), Some("pinyin".to_string()));
    assert_eq!(
        handle.activate_input_method("pinyin".to_string()),
        vec![to_im(object(8, 2), InputMethodEvent::Activate { app_id: "pinyin".to_string() })]
    );
}

#[test]
fn activating_an_unknown_input_method_only_sets_current() {
    let mut handle = InputMethodHandle::new();
    handle.add_instance(object(7, 1), "keyboard".to_string());
    assert!(handle.activate_input_method("ghost".to_string()).is_empty());
    assert_eq!(handle.currently_set_input_method(), Some("ghost".to_string()));
}

#[test]
fn deactivate_sends_done_only_when_asked() {
    let mut handle = InputMethodHandle::new();
    handle.add_instance(object(7, 1), "keyboard".to_string());
    assert_eq!(
        handle.deactivate_input_method(false, &"keyboard".to_string()),
        vec![to_im(object(7, 1), InputMethodEvent::Deactivate)]
    );
    assert_eq!(handle.currently_set_input_method(), None);
    assert_eq!(
        handle.deactivate_input_method(true, &"keyboard".to_string()),
        vec![to_im(object(7, 1), InputMethodEvent::Deactivate), to_im(object(7, 1), InputMethodEvent::Done)]
    );
}

#[test]
fn deactivate_clears_current_only_if_it_matches() {
    let mut handle = InputMethodHandle::new();
    handle.add_instance(object(7, 1), "keyboard".to_string());
    handle.add_instance(object(8, 2), "pinyin".to_string());
    handle.deactivate_input_method(false, &"pinyin".to_string());
    assert_eq!(handle.currently_set_input_method(), Some("keyboard".to_string()));
    assert!(handle.deactivate_input_method(true, &"ghost".to_string()).is_empty());
    assert_eq!(handle.currently_set_input_method(), Some("keyboard".to_string()));
    handle.deactivate_input_method(false, &"keyboard".to_string());
    assert_eq!(handle.currently_set_input_method(), None);
}

#[test]
fn deactivate_dismisses_the_popup() {
    let mut handle = InputMethodHandle::new();
    handle.add_instance(object(7, 1), "keyboard".to_string());
    assert_eq!(
        handle.set_popup(object(7, 1), object(7, 50), object(1, 100)),
        vec![Action::SetPopupParent { popup: object(7, 50), parent: Some(object(1, 100)) }]
    );
    assert_eq!(
        handle.deactivate_input_method(true, &"keyboard".to_string()),
        vec![
            to_im(object(7, 1), InputMethodEvent::Deactivate),
            to_im(object(7, 1), InputMethodEvent::Done),
            Action::PopupDone { popup: object(7, 50) },
            Action::SetPopupParent { popup: object(7, 50), parent: None },
        ]
    );
    assert_eq!(
        handle.deactivate_input_method(false, &"keyboard".to_string()),
        vec![to_im(object(7, 1), InputMethodEvent::Deactivate)]
    );
}

#[test]
fn replaced_popup_loses_its_parent() {
    let mut handle = InputMethodHandle::new();
    handle.add_instance(object(7, 1), "keyboard".to_string());
    handle.set_popup(object(7, 1), object(7, 50), object(1, 100));
    assert_eq!(
        handle.set_popup(object(7, 1), object(7, 51), object(1, 101)),
        vec![
            Action::SetPopupParent { popup: object(7, 50), parent: None },
            Action::SetPopupParent { popup: object(7, 51), parent: Some(object(1, 101)) },
        ]
    );
    assert!(handle.set_popup(object(9, 9), object(7, 52), object(1, 101)).is_empty());
}

#[test]
fn intercept_without_input_method_only_forwards() {
    let mut handle = InputMethodHandle::new();
    let text_input = TextInputHandle::new();
    let (shown, actions) = press(&mut handle, &text_input, 3);
    assert!(!shown);
    assert_eq!(actions, vec![forward(38, KeyState::Pressed, 3, 503)]);
    assert!(handle.keys().is_empty());
}

#[test]
fn intercept_without_an_object_for_current_only_forwards() {
    let mut handle = InputMethodHandle::new();
    let text_input = TextInputHandle::new();
    handle.add_instance(object(7, 1), "keyboard".to_string());
    handle.activate_input_method("ghost".to_string());
    let (shown, actions) = press(&mut handle, &text_input, 3);
    assert!(!shown);
    assert_eq!(actions, vec![forward(38, KeyState::Pressed, 3, 503)]);
    assert!(handle.keys().is_empty());
}

#[test]
fn intercept_shows_the_key_records_it_and_forwards_it() {
    let mut handle = InputMethodHandle::new();
    let text_input = TextInputHandle::new();
    handle.add_instance(object(7, 1), "keyboard".to_string());
    let (shown, actions) = handle.input_intercept(
        &text_input,
        KeyCode::new(38),
        KeyState::Released,
        11,
        700,
        Some(MODIFIERS),
    );
    assert!(shown);
    assert_eq!(
        actions,
        vec![
            key_action(object(7, 1), 11, 700, 30, KeyState::Released),
            to_im(
                object(7, 1),
                InputMethodEvent::Modifiers { serial: 11, depressed: 1, latched: 2, locked: 4, group: 3 }
            ),
            forward(38, KeyState::Released, 11, 700),
        ]
    );
    assert_eq!(
        handle.keys(),
        vec![KeyRecord {
            keycode: KeyCode::new(38),
            state: KeyState::Released,
            modifiers: Some(MODIFIERS),
            serial: 11,
            time: 700,
        }]
    );
}

#[test]
fn intercept_uses_the_serial_of_the_active_text_field() {
    let mut handle = InputMethodHandle::new();
    let mut text_input = TextInputHandle::new();
    text_input.add_instance(object(1, 1), "app".to_string(), None);
    text_input.increment_serial(object(1, 1));
    text_input.increment_serial(object(1, 1));
    text_input.set_focus(Some(Surface { id: object(1, 100), alive: true }));
    text_input.set_active_text_input(Some(object(1, 1)));
    handle.add_instance(object(7, 1), "keyboard".to_string());
    let (shown, actions) = press(&mut handle, &text_input, 40);
    assert!(shown);
    assert_eq!(
        actions,
        vec![
            key_action(object(7, 1), 2, 540, 30, KeyState::Pressed),
            forward(38, KeyState::Pressed, 40, 540),
        ]
    );
    assert_eq!(handle.keys()[0].serial, 40);
}

#[test]
fn try_intercept_refuses_a_key_without_wire_code() {
    let mut handle = InputMethodHandle::new();
    let text_input = TextInputHandle::new();
    handle.add_instance(object(7, 1), "keyboard".to_string());
    assert_eq!(
        handle.try_input_intercept(&text_input, KeyCode::new(7), KeyState::Pressed, 1, 2, None),
        None
    );
    assert!(handle.keys().is_empty());
    let taken =
        handle.try_input_intercept(&text_input, KeyCode::new(8), KeyState::Pressed, 1, 2, None);
    assert_eq!(
        taken,
        Some((true, vec![key_action(object(7, 1), 1, 2, 0, KeyState::Pressed), forward(8, KeyState::Pressed, 1, 2)]))
    );
    assert_eq!(handle.keys().len(), 1);
}

#[test]
fn any_key_passes_where_no_input_method_is_current() {
    let mut handle = InputMethodHandle::new();
    let text_input = TextInputHandle::new();
    assert_eq!(
        handle.input_intercept(&text_input, KeyCode::new(7), KeyState::Pressed, 1, 2, None),
        (false, vec![forward(7, KeyState::Pressed, 1, 2)])
    );
    assert_eq!(
        handle.try_input_intercept(&text_input, KeyCode::new(0), KeyState::Released, 3, 4, None),
        Some((false, vec![forward(0, KeyState::Released, 3, 4)]))
    );
    handle.add_instance(object(7, 1), "keyboard".to_string());
    handle.deactivate_input_method(false, &"keyboard".to_string());
    assert_eq!(
        handle.try_input_intercept(&text_input, KeyCode::new(7), KeyState::Pressed, 5, 6, None),
        Some((false, vec![forward(7, KeyState::Pressed, 5, 6)]))
    );
    assert!(handle.keys().is_empty());
}

#[test]
fn log_of_keys_keeps_the_last_ten() {
    let mut handle = InputMethodHandle::new();
    let text_input = TextInputHandle::new();
    handle.add_instance(object(7, 1), "keyboard".to_string());
    for serial in 1..=12 {
        press(&mut handle, &text_input, serial);
    }
    let serials: Vec<u32> = handle.keys().iter().map(|record| record.serial).collect();
    assert_eq!(serials, (3..=12).collect::<Vec<u32>>());
    assert!(handle.process_keys(1, 99).is_empty());
    assert!(handle.process_keys(2, 99).is_empty());
    assert_eq!(handle.process_keys(3, 99).len(), 10);
}

#[test]
fn process_keys_replays_from_the_serial_in_order() {
    let mut handle = InputMethodHandle::new();
    let text_input = TextInputHandle::new();
    handle.add_instance(object(7, 1), "keyboard".to_string());
    for serial in 1..=4 {
        press(&mut handle, &text_input, serial);
    }
    handle.input_intercept(&text_input, KeyCode::new(40), KeyState::Released, 5, 900, Some(MODIFIERS));
    assert_eq!(
        handle.process_keys(3, 77),
        vec![
            key_action(object(7, 1), 77, 503, 30, KeyState::Pressed),
            key_action(object(7, 1), 77, 504, 30, KeyState::Pressed),
            key_action(object(7, 1), 77, 900, 32, KeyState::Released),
            to_im(
                object(7, 1),
                InputMethodEvent::Modifiers { serial: 77, depressed: 1, latched: 2, locked: 4, group: 3 }
            ),
        ]
    );
    assert!(handle.process_keys(6, 77).is_empty());
}

#[test]
fn process_keys_goes_to_the_current_input_method() {
    let mut handle = InputMethodHandle::new();
    let text_input = TextInputHandle::new();
    handle.add_instance(object(7, 1), "keyboard".to_string());
    handle.add_instance(object(8, 2), "pinyin".to_string());
    press(&mut handle, &text_input, 1);
    handle.activate_input_method("pinyin".to_string());
    assert_eq!(
        handle.process_keys(1, 5),
        vec![key_action(object(8, 2), 5, 501, 30, KeyState::Pressed)]
    );
    handle.deactivate_input_method(false, &"pinyin".to_string());
    assert!(handle.process_keys(1, 5).is_empty());
}

#[test]
fn key_forward_delivers_the_recorded_key() {
    let mut handle = InputMethodHandle::new();
    let text_input = TextInputHandle::new();
    handle.add_instance(object(7, 1), "keyboard".to_string());
    press(&mut handle, &text_input, 1);
    press(&mut handle, &text_input, 2);
    assert_eq!(
        handle.key_forward(2, KeyForwardMode::Once),
        vec![forward(38, KeyState::Pressed, 2, 502)]
    );
    assert_eq!(
        handle.key_forward(1, KeyForwardMode::Repeating),
        vec![forward(38, KeyState::Pressed, 1, 501), forward(38, KeyState::Released, 1, 501)]
    );
    assert!(handle.key_forward(3, KeyForwardMode::Repeating).is_empty());
}

#[test]
fn destroyed_tells_what_was_known_of_the_object() {
    let mut handle = InputMethodHandle::new();
    handle.add_instance(object(7, 1), "keyboard".to_string());
    handle.add_instance(object(8, 2), "pinyin".to_string());
    handle.set_popup(object(8, 2), object(8, 50), object(1, 100));
    assert_eq!(
        handle.destroyed(object(8, 2)),
        Some(Departure { app_id: "pinyin".to_string(), was_current: false, popup: Some(object(8, 50)) })
    );
    assert_eq!(handle.currently_set_input_method(), Some("keyboard".to_string()));
    assert_eq!(handle.with_instance(&"pinyin".to_string()), None);
    assert_eq!(
        handle.destroyed(object(7, 1)),
        Some(Departure { app_id: "keyboard".to_string(), was_current: true, popup: None })
    );
    assert_eq!(handle.currently_set_input_method(), None);
    assert!(!handle.has_instance());
    assert_eq!(handle.destroyed(object(7, 1)), None);
}

#[test]
fn routing_id_is_free_again_after_destruction() {
    let mut handle = InputMethodHandle::new();
    handle.add_instance(object(7, 1), "keyboard".to_string());
    handle.destroyed(object(7, 1));
    assert!(handle.add_instance(object(7, 2), "keyboard".to_string()));
    assert_eq!(handle.currently_set_input_method(), Some("keyboard".to_string()));
}
