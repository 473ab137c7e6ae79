use ime_bridge::coordinator::{
    commit, focus_changed, get_input_method, get_text_input, input_method_destroyed,
    input_method_request, process_keys, text_input_destroyed, text_input_request,
};
use ime_bridge::event::{Action, InputMethodEvent, TextInputEvent};
use ime_bridge::input_method::{InputMethodHandle, InputMethodRequest, KeyForwardMode};
use ime_bridge::keyboard::KeyState;
use ime_bridge::object::{ObjectId, Surface};
use ime_bridge::text_input::{TextInputHandle, TextInputRequest};
use xkeysym::KeyCode;

const X: u64 = 1;
const Y: u64 = 2;
const IM: u64 = 9;

fn object(client: u64, id: u64) -> ObjectId {
    ObjectId { client, id }
}

fn surface(client: u64) -> Surface {
    Surface { id: object(client, 1000 + client), alive: true }
}

fn to_im(instance: ObjectId, event: InputMethodEvent) -> Action {
    Action::InputMethod { instance, event }
}

fn to_ti(instance: ObjectId, event: TextInputEvent) -> Action {
    Action::TextInput { instance, event }
}

fn keyboard() -> ObjectId {
    object(IM, 1)
}

fn t1() -> ObjectId {
    object(X, 11)
}

fn t2() -> ObjectId {
    object(Y, 22)
}

/// A seat with the input method "keyboard", the text fields T1 (client X)
/// and T2 (client Y), and the focus on a surface of `focus`.
fn seat(focus: u64) -> (TextInputHandle, InputMethodHandle) {
    let mut text_input = TextInputHandle::new();
    let mut input_method = InputMethodHandle::new();
    assert_eq!(
        get_input_method(&mut text_input, &mut input_method, keyboard(), "keyboard".to_string()),
        vec![to_im(keyboard(), InputMethodEvent::KeyboardSnapshot)]
    );
    get_text_input(&mut text_input, &input_method, t1(), "editor".to_string());
    get_text_input(&mut text_input, &input_method, t2(), "terminal".to_string());
    focus_changed(&mut text_input, &mut input_method, Some(surface(focus)));
    (text_input, input_method)
}

fn enable(text_input: &mut TextInputHandle, input_method: &mut InputMethodHandle, id: ObjectId) -> Vec<Action> {
    assert!(text_input_request(text_input, input_method, id, TextInputRequest::Enable).is_empty());
    commit(text_input, input_method, id)
}

fn disable(text_input: &mut TextInputHandle, input_method: &mut InputMethodHandle, id: ObjectId) -> Vec<Action> {
    assert!(text_input_request(text_input, input_method, id, TextInputRequest::Disable).is_empty());
    text_input_request(text_input, input_method, id, TextInputRequest::Commit)
}

#[test]
fn scenario_enable_then_disable() {
    let (mut text_input, mut input_method) = seat(X);
    assert_eq!(
        enable(&mut text_input, &mut input_method, t1()),
        vec![
            to_im(keyboard(), InputMethodEvent::Activate { app_id: "keyboard".to_string() }),
            to_im(keyboard(), InputMethodEvent::KeyboardSnapshot),
            to_im(keyboard(), InputMethodEvent::Done),
        ]
    );
    assert_eq!(text_input.active_text_input(), Some(t1()));
    assert_eq!(text_input.instance_serial(t1()), Some(1));
    assert_eq!(
        disable(&mut text_input, &mut input_method, t1()),
        vec![to_im(keyboard(), InputMethodEvent::Deactivate)]
    );
    assert_eq!(text_input.active_text_input(), None);
    assert_eq!(text_input.instance_serial(t1()), Some(2));
    assert_eq!(input_method.currently_set_input_method(), None);
}

#[test]
fn scenario_second_enable_is_discarded() {
    let mut text_input = TextInputHandle::new();
    let mut input_method = InputMethodHandle::new();
    get_input_method(&mut text_input, &mut input_method, keyboard(), "keyboard".to_string());
    get_text_input(&mut text_input, &input_method, t1(), "editor".to_string());
    // T2 belongs to the focused client too, so that only the enabled T1 stands in its way.
    let other = object(X, 12);
    get_text_input(&mut text_input, &input_method, other, "editor".to_string());
    focus_changed(&mut text_input, &mut input_method, Some(surface(X)));
    enable(&mut text_input, &mut input_method, t1());
    assert_eq!(enable(&mut text_input, &mut input_method, other), vec![]);
    assert_eq!(text_input.active_text_input(), Some(t1()));
    assert_eq!(text_input.instance_serial(other), Some(1));
    assert_eq!(text_input.instance_serial(t1()), Some(1));
}

#[test]
fn scenario_enable_from_another_client_is_discarded() {
    let (mut text_input, mut input_method) = seat(X);
    enable(&mut text_input, &mut input_method, t1());
    assert_eq!(enable(&mut text_input, &mut input_method, t2()), vec![]);
    assert_eq!(text_input.active_text_input(), Some(t1()));
    assert_eq!(text_input.instance_serial(t2()), Some(1));
}

#[test]
fn scenario_current_input_method_destroyed() {
    let (mut text_input, mut input_method) = seat(X);
    enable(&mut text_input, &mut input_method, t1());
    assert_eq!(
        input_method_destroyed(&mut text_input, &mut input_method, keyboard()),
        vec![to_ti(t1(), TextInputEvent::Leave { surface: surface(X).id })]
    );
    assert_eq!(input_method.currently_set_input_method(), None);
    assert!(!input_method.has_instance());
    assert_eq!(text_input.active_text_input(), None);
    assert_eq!(text_input.get_input_method(&t1()), None);
    assert_eq!(text_input.get_input_method(&t2()), None);
}

#[test]
fn scenario_twelve_keys_into_ten_places() {
    let (mut text_input, mut input_method) = seat(X);
    enable(&mut text_input, &mut input_method, t1());
    for serial in 101..=112 {
        let (shown, actions) = input_method.input_intercept(
            &text_input,
            KeyCode::new(30 + serial),
            KeyState::Pressed,
            serial,
            serial * 10,
            None,
        );
        assert!(shown);
        assert_eq!(
            actions,
            vec![
                to_im(
                    keyboard(),
                    InputMethodEvent::Key { serial: 1, time: serial * 10, key: 22 + serial, state: KeyState::Pressed }
                ),
                Action::ForwardKey {
                    keycode: KeyCode::new(30 + serial),
                    state: KeyState::Pressed,
                    serial,
                    time: serial * 10
                },
            ]
        );
    }
    let serials: Vec<u32> = input_method.keys().iter().map(|record| record.serial).collect();
    assert_eq!(serials, (103..=112).collect::<Vec<u32>>());
    for evicted in [101, 102] {
        assert_eq!(
            text_input_request(
                &mut text_input,
                &mut input_method,
                t1(),
                TextInputRequest::ProcessKeys { serial: evicted }
            ),
            vec![]
        );
    }
    let replayed = text_input_request(
        &mut text_input,
        &mut input_method,
        t1(),
        TextInputRequest::ProcessKeys { serial: 110 },
    );
    let expected: Vec<Action> = (110..=112)
        .map(|serial| {
            to_im(
                keyboard(),
                InputMethodEvent::Key { serial: 1, time: serial * 10, key: 22 + serial, state: KeyState::Pressed },
            )
        })
        .collect();
    assert_eq!(replayed, expected);
    assert_eq!(process_keys(&text_input, &input_method, 112).len(), 1);
}

#[test]
fn serial_counts_every_commit_whatever_becomes_of_it() {
    let mut text_input = TextInputHandle::new();
    let mut input_method = InputMethodHandle::new();
    get_text_input(&mut text_input, &input_method, t1(), "editor".to_string());
    // No input method: every commit is discarded.
    for n in 1..=3 {
        assert!(commit(&mut text_input, &mut input_method, t1()).is_empty());
        assert_eq!(text_input.instance_serial(t1()), Some(n));
    }
    get_input_method(&mut text_input, &mut input_method, keyboard(), "keyboard".to_string());
    text_input.set_input_method(t1(), "keyboard".to_string());
    // No focus: discarded.
    assert!(commit(&mut text_input, &mut input_method, t1()).is_empty());
    assert_eq!(text_input.instance_serial(t1()), Some(4));
    focus_changed(&mut text_input, &mut input_method, Some(surface(Y)));
    assert!(commit(&mut text_input, &mut input_method, t1()).is_empty());
    assert_eq!(text_input.instance_serial(t1()), Some(5));
    focus_changed(&mut text_input, &mut input_method, Some(surface(X)));
    // Not enabled: discarded.
    assert!(commit(&mut text_input, &mut input_method, t1()).is_empty());
    assert_eq!(text_input.instance_serial(t1()), Some(6));
    assert!(!enable(&mut text_input, &mut input_method, t1()).is_empty());
    assert_eq!(text_input.instance_serial(t1()), Some(7));
    // A commit of an object that does not exist changes nothing.
    assert!(commit(&mut text_input, &mut input_method, object(X, 99)).is_empty());
    assert_eq!(text_input.instance_serial(t1()), Some(7));
}

#[test]
fn other_requests_do_not_count() {
    let (mut text_input, mut input_method) = seat(X);
    text_input_request(&mut text_input, &mut input_method, t1(), TextInputRequest::Enable);
    text_input_request(&mut text_input, &mut input_method, t1(), TextInputRequest::Destroy);
    text_input_request(&mut text_input, &mut input_method, t1(), TextInputRequest::ProcessKeys { serial: 1 });
    assert_eq!(text_input.instance_serial(t1()), Some(0));
}

#[test]
fn at_most_one_object_is_enabled_at_any_point() {
    let (mut text_input, mut input_method) = seat(X);
    let objects = [t1(), object(X, 12), object(X, 13), t2()];
    get_text_input(&mut text_input, &input_method, objects[1], "editor".to_string());
    get_text_input(&mut text_input, &input_method, objects[2], "editor".to_string());
    let mut enabled: Option<ObjectId> = None;
    for step in 0..40usize {
        let id = objects[(step * 7 + step / 3) % 4];
        if step % 5 == 4 {
            disable(&mut text_input, &mut input_method, id);
            if id.client == X {
                enabled = None;
            }
        } else {
            enable(&mut text_input, &mut input_method, id);
            if id.client == X && enabled.is_none() {
                enabled = Some(id);
            }
        }
        assert_eq!(text_input.active_text_input(), enabled);
    }
}

#[test]
fn commit_without_enable_needs_the_object_to_be_enabled() {
    let (mut text_input, mut input_method) = seat(X);
    text_input_request(
        &mut text_input,
        &mut input_method,
        t1(),
        TextInputRequest::SetContentType { hint: 1, purpose: 2 },
    );
    assert_eq!(commit(&mut text_input, &mut input_method, t1()), vec![]);
    // What was asked for went with the discarded commit.
    assert_eq!(
        enable(&mut text_input, &mut input_method, t1()),
        vec![
            to_im(keyboard(), InputMethodEvent::Activate { app_id: "keyboard".to_string() }),
            to_im(keyboard(), InputMethodEvent::KeyboardSnapshot),
            to_im(keyboard(), InputMethodEvent::Done),
        ]
    );
}

#[test]
fn commit_pushes_each_field_once_and_then_done() {
    let (mut text_input, mut input_method) = seat(X);
    enable(&mut text_input, &mut input_method, t1());
    for request in [
        TextInputRequest::SetCursorRectangle { x: 1, y: 2, width: 3, height: 4 },
        TextInputRequest::SetContentType { hint: 5, purpose: 6 },
        TextInputRequest::SetTextChangeCause { cause: 1 },
        TextInputRequest::SetSurroundingText { text: "old".to_string(), cursor: 0, anchor: 0 },
        TextInputRequest::SetSurroundingText { text: "hello".to_string(), cursor: 2, anchor: 3 },
    ] {
        assert!(text_input_request(&mut text_input, &mut input_method, t1(), request).is_empty());
    }
    assert_eq!(
        commit(&mut text_input, &mut input_method, t1()),
        vec![
            to_im(
                keyboard(),
                InputMethodEvent::SurroundingText { text: "hello".to_string(), cursor: 2, anchor: 3 }
            ),
            to_im(keyboard(), InputMethodEvent::TextChangeCause { cause: 1 }),
            to_im(keyboard(), InputMethodEvent::ContentType { hint: 5, purpose: 6 }),
            to_im(keyboard(), InputMethodEvent::CursorRectangle { x: 1, y: 2, width: 3, height: 4 }),
            to_im(keyboard(), InputMethodEvent::Done),
        ]
    );
    // Nothing is sent again.
    assert_eq!(
        commit(&mut text_input, &mut input_method, t1()),
        vec![to_im(keyboard(), InputMethodEvent::Done)]
    );
    assert_eq!(text_input.instance_serial(t1()), Some(3));
}

#[test]
fn enable_with_fields_activates_then_pushes() {
    let (mut text_input, mut input_method) = seat(X);
    text_input_request(&mut text_input, &mut input_method, t1(), TextInputRequest::Enable);
    text_input_request(
        &mut text_input,
        &mut input_method,
        t1(),
        TextInputRequest::SetContentType { hint: 0, purpose: 13 },
    );
    assert_eq!(
        commit(&mut text_input, &mut input_method, t1()),
        vec![
            to_im(keyboard(), InputMethodEvent::Activate { app_id: "keyboard".to_string() }),
            to_im(keyboard(), InputMethodEvent::KeyboardSnapshot),
            to_im(keyboard(), InputMethodEvent::ContentType { hint: 0, purpose: 13 }),
            to_im(keyboard(), InputMethodEvent::Done),
        ]
    );
    // Enabling again sends no second snapshot.
    assert_eq!(
        enable(&mut text_input, &mut input_method, t1()),
        vec![
            to_im(keyboard(), InputMethodEvent::Activate { app_id: "keyboard".to_string() }),
            to_im(keyboard(), InputMethodEvent::Done),
        ]
    );
}

#[test]
fn requests_of_an_unfocused_client_are_dropped() {
    let (mut text_input, mut input_method) = seat(Y);
    assert!(text_input_request(&mut text_input, &mut input_method, t1(), TextInputRequest::Enable).is_empty());
    focus_changed(&mut text_input, &mut input_method, Some(surface(X)));
    // The request to enable was never noted.
    assert!(commit(&mut text_input, &mut input_method, t1()).is_empty());
    assert_eq!(text_input.active_text_input(), None);
}

#[test]
fn requests_without_input_method_are_dropped() {
    let mut text_input = TextInputHandle::new();
    let mut input_method = InputMethodHandle::new();
    get_text_input(&mut text_input, &input_method, t1(), "editor".to_string());
    text_input.set_focus(Some(surface(X)));
    assert!(text_input_request(&mut text_input, &mut input_method, t1(), TextInputRequest::Enable).is_empty());
    assert!(text_input_request(
        &mut text_input,
        &mut input_method,
        t1(),
        TextInputRequest::SetAvailableActions { available_actions: vec![1, 0, 0, 0] }
    )
    .is_empty());
    text_input.set_input_method(t1(), "ghost".to_string());
    assert!(text_input_request(&mut text_input, &mut input_method, t1(), TextInputRequest::Enable).is_empty());
    assert!(commit(&mut text_input, &mut input_method, t1()).is_empty());
    assert_eq!(text_input.active_text_input(), None);
}

#[test]
fn available_actions_go_to_the_input_method_at_once() {
    let (mut text_input, mut input_method) = seat(X);
    assert_eq!(
        text_input_request(
            &mut text_input,
            &mut input_method,
            t1(),
            TextInputRequest::SetAvailableActions { available_actions: vec![1, 0, 0, 0, 2, 0, 0, 0] }
        ),
        vec![to_im(
            keyboard(),
            InputMethodEvent::AvailableActions { available_actions: vec![1, 0, 0, 0, 2, 0, 0, 0] }
        )]
    );
}

#[test]
fn new_text_input_takes_the_current_input_method() {
    let mut text_input = TextInputHandle::new();
    let mut input_method = InputMethodHandle::new();
    assert!(get_text_input(&mut text_input, &input_method, t1(), "editor".to_string()).is_empty());
    assert_eq!(text_input.get_input_method(&t1()), None);
    get_input_method(&mut text_input, &mut input_method, keyboard(), "keyboard".to_string());
    text_input.set_focus(Some(surface(Y)));
    assert_eq!(
        get_text_input(&mut text_input, &input_method, t2(), "terminal".to_string()),
        vec![to_ti(t2(), TextInputEvent::Enter { surface: surface(Y).id })]
    );
    assert_eq!(text_input.get_input_method(&t2()), Some("keyboard".to_string()));
    assert_eq!(text_input.instance_serial(t2()), Some(0));
}

#[test]
fn new_input_method_adopts_the_focused_text_fields() {
    let mut text_input = TextInputHandle::new();
    let mut input_method = InputMethodHandle::new();
    get_text_input(&mut text_input, &input_method, t1(), "editor".to_string());
    get_text_input(&mut text_input, &input_method, t2(), "terminal".to_string());
    text_input.set_focus(Some(surface(X)));
    assert_eq!(
        get_input_method(&mut text_input, &mut input_method, keyboard(), "keyboard".to_string()),
        vec![
            to_ti(t1(), TextInputEvent::Enter { surface: surface(X).id }),
            to_im(keyboard(), InputMethodEvent::KeyboardSnapshot),
        ]
    );
    assert_eq!(text_input.get_input_method(&t1()), Some("keyboard".to_string()));
    assert_eq!(text_input.get_input_method(&t2()), None);
    assert_eq!(input_method.currently_set_input_method(), Some("keyboard".to_string()));
    // A second object under the same routing id is rejected and changes nothing.
    assert!(get_input_method(&mut text_input, &mut input_method, object(IM, 2), "keyboard".to_string()).is_empty());
    assert_eq!(input_method.with_instance(&"keyboard".to_string()), Some(keyboard()));
}

#[test]
fn focus_change_leaves_then_deactivates_then_enters() {
    let (mut text_input, mut input_method) = seat(X);
    get_text_input(&mut text_input, &input_method, object(X, 12), "editor".to_string());
    get_text_input(&mut text_input, &input_method, object(Y, 23), "terminal".to_string());
    get_text_input(&mut text_input, &input_method, object(Y, 24), "terminal".to_string());
    enable(&mut text_input, &mut input_method, t1());
    assert_eq!(
        focus_changed(&mut text_input, &mut input_method, Some(surface(Y))),
        vec![
            to_ti(t1(), TextInputEvent::Leave { surface: surface(X).id }),
            to_ti(object(X, 12), TextInputEvent::Leave { surface: surface(X).id }),
            to_im(keyboard(), InputMethodEvent::Deactivate),
            to_im(keyboard(), InputMethodEvent::Done),
            to_ti(t2(), TextInputEvent::Enter { surface: surface(Y).id }),
            to_ti(object(Y, 23), TextInputEvent::Enter { surface: surface(Y).id }),
            to_ti(object(Y, 24), TextInputEvent::Enter { surface: surface(Y).id }),
        ]
    );
    assert_eq!(text_input.active_text_input(), None);
    assert_eq!(text_input.focus(), Some(surface(Y)));
    assert_eq!(input_method.currently_set_input_method(), None);
    assert_eq!(
        focus_changed(&mut text_input, &mut input_method, None),
        vec![
            to_ti(t2(), TextInputEvent::Leave { surface: surface(Y).id }),
            to_ti(object(Y, 23), TextInputEvent::Leave { surface: surface(Y).id }),
            to_ti(object(Y, 24), TextInputEvent::Leave { surface: surface(Y).id }),
        ]
    );
    assert_eq!(focus_changed(&mut text_input, &mut input_method, None), vec![]);
}

#[test]
fn destroying_the_last_focused_text_field_deactivates_with_done() {
    let (mut text_input, mut input_method) = seat(X);
    enable(&mut text_input, &mut input_method, t1());
    assert_eq!(
        text_input_destroyed(&mut text_input, &mut input_method, t1()),
        vec![to_im(keyboard(), InputMethodEvent::Deactivate), to_im(keyboard(), InputMethodEvent::Done)]
    );
    assert!(!text_input.has_instance(t1()));
    assert_eq!(text_input.active_text_input(), None);
    assert_eq!(text_input_destroyed(&mut text_input, &mut input_method, t2()), vec![]);
    assert!(!text_input.has_instance(t2()));
}

#[test]
fn destroying_one_of_two_text_fields_keeps_the_input_method() {
    let (mut text_input, mut input_method) = seat(X);
    get_text_input(&mut text_input, &input_method, object(X, 12), "editor".to_string());
    enable(&mut text_input, &mut input_method, t1());
    assert_eq!(text_input_destroyed(&mut text_input, &mut input_method, object(X, 12)), vec![]);
    assert_eq!(text_input.active_text_input(), Some(t1()));
    assert_eq!(input_method.currently_set_input_method(), Some("keyboard".to_string()));
}

#[test]
fn destroying_an_input_method_that_is_not_current_sends_no_leave() {
    let (mut text_input, mut input_method) = seat(X);
    get_input_method(&mut text_input, &mut input_method, object(IM, 2), "pinyin".to_string());
    input_method_request(
        &text_input,
        &mut input_method,
        object(IM, 2),
        InputMethodRequest::GetInputMethodPopup { popup: object(IM, 50) },
    );
    assert_eq!(
        input_method_destroyed(&mut text_input, &mut input_method, object(IM, 2)),
        vec![Action::SetPopupParent { popup: object(IM, 50), parent: None }]
    );
    assert_eq!(input_method.currently_set_input_method(), Some("keyboard".to_string()));
    assert_eq!(text_input.get_input_method(&t1()), Some("keyboard".to_string()));
    assert_eq!(input_method_destroyed(&mut text_input, &mut input_method, object(IM, 2)), vec![]);
}

#[test]
fn input_method_text_goes_to_every_focused_text_field() {
    let (mut text_input, mut input_method) = seat(X);
    get_text_input(&mut text_input, &input_method, object(X, 12), "editor".to_string());
    text_input.increment_serial(object(X, 12));
    let both = |event: TextInputEvent| vec![to_ti(t1(), event.clone()), to_ti(object(X, 12), event)];
    let send = |input_method: &mut InputMethodHandle, request| {
        input_method_request(&text_input, input_method, keyboard(), request)
    };
    assert_eq!(
        send(&mut input_method, InputMethodRequest::SetString { text: "你好".to_string() }),
        both(TextInputEvent::CommitString { text: Some("你好".to_string()) })
    );
    assert_eq!(
        send(
            &mut input_method,
            InputMethodRequest::SetPreeditString { text: "ni".to_string(), cursor_begin: -1, cursor_end: 2 }
        ),
        both(TextInputEvent::PreeditString { text: Some("ni".to_string()), cursor_begin: -1, cursor_end: 2 })
    );
    assert_eq!(
        send(&mut input_method, InputMethodRequest::DeleteSurroundingText { before_length: 3, after_length: 4 }),
        both(TextInputEvent::DeleteSurroundingText { before_length: 3, after_length: 4 })
    );
    assert_eq!(
        send(&mut input_method, InputMethodRequest::SetLanguage { language: "zh".to_string() }),
        both(TextInputEvent::Language { language: "zh".to_string() })
    );
    assert_eq!(
        send(&mut input_method, InputMethodRequest::SetPreeditCommitMode { mode: 1 }),
        both(TextInputEvent::PreeditCommitMode { mode: 1 })
    );
    assert_eq!(
        send(
            &mut input_method,
            InputMethodRequest::SetPreeditStyle { begin: 1, end: 2, underline: 3, style: 4, color: 5 }
        ),
        both(TextInputEvent::PreeditStyle { begin: 1, end: 2, underline: 3, style: 4, color: 5 })
    );
    assert_eq!(
        send(&mut input_method, InputMethodRequest::SetAction { action: 6 }),
        vec![
            to_ti(t1(), TextInputEvent::Action { action: 6, serial: 0 }),
            to_ti(object(X, 12), TextInputEvent::Action { action: 6, serial: 1 }),
        ]
    );
    assert_eq!(send(&mut input_method, InputMethodRequest::Destroy), vec![]);
}

#[test]
fn input_method_commit_is_answered_with_done() {
    let (mut text_input, mut input_method) = seat(X);
    enable(&mut text_input, &mut input_method, t1());
    commit(&mut text_input, &mut input_method, t1());
    assert_eq!(
        input_method_request(&text_input, &mut input_method, keyboard(), InputMethodRequest::Commit { serial: 2 }),
        vec![to_ti(t1(), TextInputEvent::Done { serial: 2 })]
    );
    assert_eq!(
        input_method_request(&text_input, &mut input_method, keyboard(), InputMethodRequest::Commit { serial: 1 }),
        vec![to_ti(t1(), TextInputEvent::Done { serial: 0 })]
    );
    disable(&mut text_input, &mut input_method, t1());
    assert_eq!(
        input_method_request(&text_input, &mut input_method, keyboard(), InputMethodRequest::Commit { serial: 3 }),
        vec![]
    );
}

#[test]
fn popup_is_anchored_to_the_focus() {
    let (mut text_input, mut input_method) = seat(X);
    assert_eq!(
        input_method_request(
            &text_input,
            &mut input_method,
            keyboard(),
            InputMethodRequest::GetInputMethodPopup { popup: object(IM, 50) }
        ),
        vec![Action::SetPopupParent { popup: object(IM, 50), parent: Some(surface(X).id) }]
    );
    focus_changed(&mut text_input, &mut input_method, None);
    assert_eq!(
        input_method_request(
            &text_input,
            &mut input_method,
            keyboard(),
            InputMethodRequest::GetInputMethodPopup { popup: object(IM, 51) }
        ),
        vec![]
    );
}

#[test]
fn key_forward_request_delivers_the_key() {
    let (text_input, mut input_method) = seat(X);
    input_method.input_intercept(&text_input, KeyCode::new(38), KeyState::Pressed, 5, 50, None);
    assert_eq!(
        input_method_request(
            &text_input,
            &mut input_method,
            keyboard(),
            InputMethodRequest::KeyForward { serial: 5, mode: KeyForwardMode::Repeating }
        ),
        vec![
            Action::ForwardKey { keycode: KeyCode::new(38), state: KeyState::Pressed, serial: 5, time: 50 },
            Action::ForwardKey { keycode: KeyCode::new(38), state: KeyState::Released, serial: 5, time: 50 },
        ]
    );
    assert_eq!(
        input_method_request(
            &text_input,
            &mut input_method,
            keyboard(),
            InputMethodRequest::KeyForward { serial: 6, mode: KeyForwardMode::Once }
        ),
        vec![]
    );
}

#[test]
fn disable_of_any_focused_object_leaves_none_enabled() {
    let (mut text_input, mut input_method) = seat(X);
    get_text_input(&mut text_input, &input_method, object(X, 12), "editor".to_string());
    enable(&mut text_input, &mut input_method, t1());
    assert_eq!(
        disable(&mut text_input, &mut input_method, object(X, 12)),
        vec![to_im(keyboard(), InputMethodEvent::Deactivate)]
    );
    assert_eq!(text_input.active_text_input(), None);
}

#[test]
fn discarded_commit_still_takes_what_was_asked_for() {
    let (mut text_input, mut input_method) = seat(X);
    text_input_request(&mut text_input, &mut input_method, t1(), TextInputRequest::Enable);
    focus_changed(&mut text_input, &mut input_method, Some(surface(Y)));
    // Discarded for want of the focus, but counted, and the request to enable is gone.
    assert_eq!(commit(&mut text_input, &mut input_method, t1()), vec![]);
    assert_eq!(text_input.instance_serial(t1()), Some(1));
    focus_changed(&mut text_input, &mut input_method, Some(surface(X)));
    assert_eq!(commit(&mut text_input, &mut input_method, t1()), vec![]);
    assert_eq!(text_input.active_text_input(), None);
    assert_eq!(text_input.instance_serial(t1()), Some(2));
}

#[test]
fn commit_goes_to_the_input_method_that_the_object_is_bound_to() {
    let (mut text_input, mut input_method) = seat(X);
    let pinyin = object(IM, 2);
    get_input_method(&mut text_input, &mut input_method, pinyin, "pinyin".to_string());
    assert!(text_input.set_input_method(t1(), "pinyin".to_string()));
    assert_eq!(input_method.currently_set_input_method(), Some("keyboard".to_string()));
    assert_eq!(
        enable(&mut text_input, &mut input_method, t1()),
        vec![
            to_im(pinyin, InputMethodEvent::Activate { app_id: "pinyin".to_string() }),
            to_im(pinyin, InputMethodEvent::KeyboardSnapshot),
            to_im(pinyin, InputMethodEvent::Done),
        ]
    );
    assert_eq!(input_method.currently_set_input_method(), Some("pinyin".to_string()));
    assert_eq!(text_input.get_active_input_method(), Some("pinyin".to_string()));
    text_input_request(
        &mut text_input,
        &mut input_method,
        t1(),
        TextInputRequest::SetTextChangeCause { cause: 0 },
    );
    assert_eq!(
        commit(&mut text_input, &mut input_method, t1()),
        vec![
            to_im(pinyin, InputMethodEvent::TextChangeCause { cause: 0 }),
            to_im(pinyin, InputMethodEvent::Done),
        ]
    );
    assert_eq!(
        disable(&mut text_input, &mut input_method, t1()),
        vec![to_im(pinyin, InputMethodEvent::Deactivate)]
    );
    assert_eq!(input_method.currently_set_input_method(), None);
}

#[test]
fn a_further_input_method_keeps_the_keys_that_were_logged() {
    let (mut text_input, mut input_method) = seat(X);
    input_method.input_intercept(&text_input, KeyCode::new(38), KeyState::Pressed, 5, 50, None);
    input_method.input_intercept(&text_input, KeyCode::new(39), KeyState::Pressed, 6, 60, None);
    let before = input_method.keys();
    get_input_method(&mut text_input, &mut input_method, object(IM, 2), "pinyin".to_string());
    assert_eq!(input_method.keys(), before);
    assert_eq!(process_keys(&text_input, &input_method, 5).len(), 2);
}
