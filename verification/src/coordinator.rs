//! What a request of a client, the end of an object or a change of the focus
//! does to both sides at once: the text-input objects and the input-method
//! objects of the seat.

use crate::event::{to_input_method, to_text_input, Action, InputMethodEvent, TextInputEvent};
use crate::input_method::{InputMethod, InputMethodHandle, InputMethodRequest};
use crate::object::{ObjectId, Surface};
use crate::text_input::{Instance, TextInput, TextInputHandle, TextInputRequest, TextInputState};
use vstd::prelude::*;

verus! {

/// Both sides of the seat after an operation, and what the operation asks
/// the caller to do.
pub struct Outcome {
    pub text_input: TextInput,
    pub input_method: InputMethod,
    pub actions: Seq<Action>,
}

/// The outcome that asks for nothing.
pub open spec fn silent(text_input: TextInput, input_method: InputMethod) -> Outcome {
    Outcome { text_input, input_method, actions: Seq::empty() }
}

/// Whether `text_input`, `input_method` and `actions` are what `outcome` says.
pub open spec fn is_outcome(
    outcome: Outcome,
    text_input: TextInput,
    input_method: InputMethod,
    actions: Seq<Action>,
) -> bool {
    &&& text_input == outcome.text_input
    &&& input_method == outcome.input_method
    &&& actions == outcome.actions
}

/// The event that tells the input-method object `target` the text around the
/// cursor, where the text field has told it.
pub open spec fn surrounding_text_actions(target: ObjectId, pending_state: TextInputState) -> Seq<
    Action,
> {
    match pending_state.surrounding_text {
        Some((text, cursor, anchor)) => seq![
            to_input_method(target, InputMethodEvent::SurroundingText { text, cursor, anchor }),
        ],
        None => Seq::empty(),
    }
}

/// The event that tells the input-method object `target` who changed the
/// text, where the text field has told it.
pub open spec fn text_change_cause_actions(target: ObjectId, pending_state: TextInputState) -> Seq<
    Action,
> {
    match pending_state.text_change_cause {
        Some(cause) => seq![to_input_method(target, InputMethodEvent::TextChangeCause { cause })],
        None => Seq::empty(),
    }
}

/// The event that tells the input-method object `target` what the text field
/// expects, where the text field has told it.
pub open spec fn content_type_actions(target: ObjectId, pending_state: TextInputState) -> Seq<
    Action,
> {
    match pending_state.content_type {
        Some((hint, purpose)) => seq![
            to_input_method(target, InputMethodEvent::ContentType { hint, purpose }),
        ],
        None => Seq::empty(),
    }
}

/// The event that tells the input-method object `target` where the cursor
/// is, where the text field has told it.
pub open spec fn cursor_rectangle_actions(target: ObjectId, pending_state: TextInputState) -> Seq<
    Action,
> {
    match pending_state.cursor_rectangle {
        Some(rectangle) => seq![
            to_input_method(
                target,
                InputMethodEvent::CursorRectangle {
                    x: rectangle.x,
                    y: rectangle.y,
                    width: rectangle.width,
                    height: rectangle.height,
                },
            ),
        ],
        None => Seq::empty(),
    }
}

/// The events that tell the input-method object `target` what a text field
/// has asked for: one event for each thing that it has asked for.
pub open spec fn field_actions(target: ObjectId, pending_state: TextInputState) -> Seq<Action> {
    surrounding_text_actions(target, pending_state) + text_change_cause_actions(
        target,
        pending_state,
    ) + content_type_actions(target, pending_state) + cursor_rectangle_actions(
        target,
        pending_state,
    )
}

/// What a commit that leaves its text field enabled sends to the input
/// method `app_id`: the things asked for, and one `done` after them.
pub open spec fn field_push(
    input_method: InputMethod,
    app_id: Seq<char>,
    pending_state: TextInputState,
) -> Seq<Action> {
    match input_method.instance_of(app_id) {
        Some(instance) => field_actions(instance.object, pending_state) + seq![
            to_input_method(instance.object, InputMethodEvent::Done),
        ],
        None => Seq::empty(),
    }
}

/// What a commit of the object `resource` does once it is known to come from
/// the client that has the focus and to have the input method `app_id`.
pub open spec fn evaluated(
    text_input: TextInput,
    input_method: InputMethod,
    resource: ObjectId,
    app_id: String,
    pending_state: TextInputState,
) -> Outcome {
    match pending_state.enable {
        Some(true) => if text_input.active_text_input_id is None || text_input.is_active(resource) {
            Outcome {
                text_input: text_input.with_active(Some(resource)),
                input_method: input_method.activated(app_id),
                actions: input_method.activate_actions(app_id) + field_push(
                    input_method,
                    app_id@,
                    pending_state,
                ),
            }
        } else {
            silent(text_input, input_method)
        },
        Some(false) => Outcome {
            text_input: text_input.with_active(None),
            input_method: input_method.deactivated(app_id@),
            actions: input_method.deactivate_actions(false, app_id@),
        },
        None => if text_input.is_active(resource) {
            Outcome {
                text_input,
                input_method,
                actions: field_push(input_method, app_id@, pending_state),
            }
        } else {
            silent(text_input, input_method)
        },
    }
}

/// What a commit of the object `resource` does. The commit is counted and
/// what the object has asked for is taken from it in any case. The rest
/// happens only where the object has an input method that exists, and the
/// focus lies with its client.
pub open spec fn committed(text_input: TextInput, input_method: InputMethod, resource: ObjectId) -> Outcome {
    let counted = text_input.counted(resource);
    let cleared = counted.with_pending(resource, TextInputState::empty());
    match (counted.pending_of(resource), cleared.input_method_of(resource)) {
        (Some(pending_state), Some(app_id)) if input_method.serves(app_id@)
            && cleared.focus_is_with(resource) => evaluated(
            cleared,
            input_method,
            resource,
            app_id,
            pending_state,
        ),
        _ => silent(cleared, input_method),
    }
}

/// What a request of the text-input object `resource` does.
pub open spec fn requested(
    text_input: TextInput,
    input_method: InputMethod,
    resource: ObjectId,
    request: TextInputRequest,
) -> Outcome {
    match request {
        TextInputRequest::Commit => committed(text_input, input_method, resource),
        _ => match text_input.input_method_of(resource) {
            Some(app_id) if input_method.serves(app_id@) && text_input.focus_is_with(resource) => {
                match request {
                    TextInputRequest::ProcessKeys { serial } => Outcome {
                        text_input,
                        input_method,
                        actions: input_method.process_keys_actions(
                            serial,
                            text_input.serial_or(serial),
                        ),
                    },
                    TextInputRequest::SetAvailableActions { available_actions } => Outcome {
                        text_input,
                        input_method,
                        actions: match input_method.instance_of(app_id@) {
                            Some(instance) => seq![
                                to_input_method(
                                    instance.object,
                                    InputMethodEvent::AvailableActions { available_actions },
                                ),
                            ],
                            None => Seq::empty(),
                        },
                    },
                    TextInputRequest::Destroy => silent(text_input, input_method),
                    _ => silent(text_input.staged(resource, request), input_method),
                }
            },
            _ => silent(text_input, input_method),
        },
    }
}

/// What the end of the text-input object `resource` does: where it was the
/// last object of the client that has the focus, its input method is
/// deactivated and told `done`.
pub open spec fn text_input_gone(
    text_input: TextInput,
    input_method: InputMethod,
    resource: ObjectId,
) -> Outcome {
    match text_input.deactivated_with(resource) {
        Some(app_id) => Outcome {
            text_input: text_input.without(resource),
            input_method: input_method.deactivated(app_id@),
            actions: input_method.deactivate_actions(true, app_id@),
        },
        None => silent(text_input.without(resource), input_method),
    }
}

/// What a new text-input object does: it is bound to the current input
/// method, and where an input method exists at all the objects of the client
/// that has the focus are told `enter`.
pub open spec fn text_input_bound(
    text_input: TextInput,
    input_method: InputMethod,
    id: ObjectId,
    app_id: String,
) -> Outcome {
    let added = text_input.added(id, app_id, input_method.current);
    Outcome {
        text_input: added,
        input_method,
        actions: if input_method.instances.len() > 0 {
            added.enter_actions()
        } else {
            Seq::empty()
        },
    }
}

/// What a new input-method object does, unless its routing id is taken: the
/// text fields of the client that has the focus take it as their input method
/// where they have none, those that it serves are told `enter`, and the
/// object is sent the state of the keyboard.
pub open spec fn input_method_bound(
    text_input: TextInput,
    input_method: InputMethod,
    object: ObjectId,
    app_id: String,
) -> Outcome {
    if input_method.serves(app_id@) {
        silent(text_input, input_method)
    } else {
        Outcome {
            text_input: text_input.adopted(&app_id),
            input_method: input_method.added(object, app_id),
            actions: text_input.adopted(&app_id).welcome_actions(app_id@) + seq![
                to_input_method(object, InputMethodEvent::KeyboardSnapshot),
            ],
        }
    }
}

/// `event` for each of the objects.
pub open spec fn sending(event: TextInputEvent) -> spec_fn(Instance) -> Action {
    |instance: Instance| to_text_input(instance.instance, event)
}

/// For each of the objects the action `action` of the input method, under the
/// number of the commits of the object.
pub open spec fn acting(action: u32) -> spec_fn(Instance) -> Action {
    |instance: Instance|
        to_text_input(
            instance.instance,
            TextInputEvent::Action { action, serial: instance.serial },
        )
}

/// The event for a text field that a request of an input method turns into,
/// where it turns into one that is the same for every text field.
pub open spec fn relayed(request: InputMethodRequest) -> Option<TextInputEvent> {
    match request {
        InputMethodRequest::SetString { text } => Some(
            TextInputEvent::CommitString { text: Some(text) },
        ),
        InputMethodRequest::SetPreeditString { text, cursor_begin, cursor_end } => Some(
            TextInputEvent::PreeditString { text: Some(text), cursor_begin, cursor_end },
        ),
        InputMethodRequest::DeleteSurroundingText { before_length, after_length } => Some(
            TextInputEvent::DeleteSurroundingText { before_length, after_length },
        ),
        InputMethodRequest::SetLanguage { language } => Some(TextInputEvent::Language { language }),
        InputMethodRequest::SetPreeditCommitMode { mode } => Some(
            TextInputEvent::PreeditCommitMode { mode },
        ),
        InputMethodRequest::SetPreeditStyle { begin, end, underline, style, color } => Some(
            TextInputEvent::PreeditStyle { begin, end, underline, style, color },
        ),
        _ => None,
    }
}

/// What a request of the input-method object `object` does.
pub open spec fn input_method_requested(
    text_input: TextInput,
    input_method: InputMethod,
    object: ObjectId,
    request: InputMethodRequest,
) -> Outcome {
    match request {
        InputMethodRequest::Commit { serial } => Outcome {
            text_input,
            input_method,
            actions: text_input.done_actions(serial != text_input.serial()),
        },
        InputMethodRequest::GetInputMethodPopup { popup } => match text_input.focus {
            Some(parent) => Outcome {
                text_input,
                input_method: input_method.with_popup(object, popup),
                actions: input_method.popup_actions(object, popup, parent.id),
            },
            None => silent(text_input, input_method),
        },
        InputMethodRequest::SetAction { action } => Outcome {
            text_input,
            input_method,
            actions: text_input.focused().map_values(acting(action)),
        },
        InputMethodRequest::KeyForward { serial, mode } => Outcome {
            text_input,
            input_method,
            actions: input_method.key_forward_actions(serial, mode),
        },
        InputMethodRequest::Destroy => silent(text_input, input_method),
        _ => match relayed(request) {
            Some(event) => Outcome {
                text_input,
                input_method,
                actions: text_input.focused().map_values(sending(event)),
            },
            None => silent(text_input, input_method),
        },
    }
}

/// What the end of the input-method object `object` does: no text field
/// stays bound to it and its popup loses its parent. Where it was the current
/// input method, the text fields of the client that has the focus are told
/// `leave`, and none of them is enabled afterwards.
pub open spec fn input_method_gone(
    text_input: TextInput,
    input_method: InputMethod,
    object: ObjectId,
) -> Outcome {
    match input_method.departure(object) {
        Some(departure) => Outcome {
            text_input: text_input.without_input_method(departure.app_id@, departure.was_current),
            input_method: input_method.without(object),
            actions: (match departure.popup {
                Some(popup) => seq![Action::SetPopupParent { popup, parent: None }],
                None => Seq::empty(),
            }) + (if departure.was_current {
                text_input.without_input_method(
                    departure.app_id@,
                    departure.was_current,
                ).leave_actions()
            } else {
                Seq::empty()
            }),
        },
        None => silent(text_input, input_method.without(object)),
    }
}

/// What moving the focus to `focus` does: the text fields of the client that
/// had it are told `leave` and none is enabled any more, the input method of
/// the text field that was enabled is deactivated and told `done`, and only
/// then the text fields of the client that has the focus now are told
/// `enter`.
pub open spec fn focus_moved(
    text_input: TextInput,
    input_method: InputMethod,
    focus: Option<Surface>,
) -> Outcome {
    let moved = text_input.with_active(None).focused_on(focus);
    match text_input.active_input_method() {
        Some(app_id) => Outcome {
            text_input: moved,
            input_method: input_method.deactivated(app_id@),
            actions: text_input.leave_actions() + input_method.deactivate_actions(true, app_id@)
                + moved.enter_actions(),
        },
        None => Outcome {
            text_input: moved,
            input_method,
            actions: text_input.leave_actions() + moved.enter_actions(),
        },
    }
}

/// Appends to `actions` the events that tell the input-method object
/// `target` what a text field has asked for, and `done` after them.
fn push_fields(actions: &mut Vec<Action>, target: ObjectId, pending_state: TextInputState)
    ensures
        final(actions)@ == old(actions)@ + field_actions(target, pending_state) + seq![
            to_input_method(target, InputMethodEvent::Done),
        ],
{
    let ghost start = actions@;
    let ghost first = surrounding_text_actions(target, pending_state);
    let ghost second = text_change_cause_actions(target, pending_state);
    let ghost third = content_type_actions(target, pending_state);
    let TextInputState {
        enable: _,
        surrounding_text,
        content_type,
        cursor_rectangle,
        text_change_cause,
    } = pending_state;
    match surrounding_text {
        Some((text, cursor, anchor)) => {
            actions.push(
                Action::InputMethod {
                    instance: target,
                    event: InputMethodEvent::SurroundingText { text, cursor, anchor },
                },
            );
        },
        None => {},
    }
    assert(actions@ =~= start + first);
    match text_change_cause {
        Some(cause) => {
            actions.push(
                Action::InputMethod {
                    instance: target,
                    event: InputMethodEvent::TextChangeCause { cause },
                },
            );
        },
        None => {},
    }
    assert(actions@ =~= start + (first + second));
    match content_type {
        Some((hint, purpose)) => {
            actions.push(
                Action::InputMethod {
                    instance: target,
                    event: InputMethodEvent::ContentType { hint, purpose },
                },
            );
        },
        None => {},
    }
    assert(actions@ =~= start + (first + second + third));
    match cursor_rectangle {
        Some(rectangle) => {
            actions.push(
                Action::InputMethod {
                    instance: target,
                    event: InputMethodEvent::CursorRectangle {
                        x: rectangle.x,
                        y: rectangle.y,
                        width: rectangle.width,
                        height: rectangle.height,
                    },
                },
            );
        },
        None => {},
    }
    assert(actions@ =~= start + field_actions(target, pending_state));
    actions.push(Action::InputMethod { instance: target, event: InputMethodEvent::Done });
    assert(actions@ =~= start + field_actions(target, pending_state) + seq![
        to_input_method(target, InputMethodEvent::Done),
    ]);
}

/// Handles a commit of the text-input object `resource`.
///
/// The commit is counted and what the object has asked for since its last
/// commit is taken from it, whatever follows. The rest is dropped where the
/// object has no input method that exists or the focus lies with another
/// client. Otherwise: an object that asked to be enabled becomes the enabled
/// one and its input method is activated, unless another object is enabled;
/// an object that asked to be disabled leaves no object enabled and has its
/// input method deactivated, without `done`; an object that asked for
/// neither goes on only if it is the enabled one. An object that is enabled
/// after its commit has each thing that it asked for sent to its input
/// method, and `done` after them.
pub fn commit(
    text_input: &mut TextInputHandle,
    input_method: &mut InputMethodHandle,
    resource: ObjectId,
) -> (actions: Vec<Action>)
    requires
        old(text_input)@.wf(),
        old(input_method)@.wf(),
        old(text_input)@.can_count_commit(resource),
    ensures
        is_outcome(
            committed(old(text_input)@, old(input_method)@, resource),
            final(text_input)@,
            final(input_method)@,
            actions@,
        ),
        final(text_input)@.wf(),
        final(input_method)@.wf(),
{
    text_input.increment_serial(resource);
    let pending_state: TextInputState = match text_input.take_pending(resource) {
        Some(pending_state) => pending_state,
        None => {
            return Vec::new();
        },
    };
    let app_id: String = match text_input.get_input_method(&resource) {
        Some(app_id) => app_id,
        None => {
            return Vec::new();
        },
    };
    let target: ObjectId = match input_method.with_instance(&app_id) {
        Some(target) => target,
        None => {
            return Vec::new();
        },
    };
    let focused: bool = match text_input.focus() {
        Some(surface) => surface.id.same_client_as(&resource),
        None => false,
    };
    if !focused {
        return Vec::new();
    }
    let enabled: bool = match text_input.active_text_input() {
        Some(active) => active == resource,
        None => false,
    };
    match pending_state.enable {
        Some(true) => {
            if text_input.active_text_input().is_some() && !enabled {
                return Vec::new();
            }
            text_input.set_active_text_input(Some(resource));
            let mut actions: Vec<Action> = input_method.activate_input_method(app_id);
            push_fields(&mut actions, target, pending_state);
            assert(actions@ =~= old(input_method)@.activate_actions(app_id) + field_push(
                old(input_method)@,
                app_id@,
                pending_state,
            ));
            actions
        },
        Some(false) => {
            text_input.set_active_text_input(None);
            input_method.deactivate_input_method(false, &app_id)
        },
        None => {
            let mut actions: Vec<Action> = Vec::new();
            if enabled {
                push_fields(&mut actions, target, pending_state);
                assert(actions@ =~= field_push(old(input_method)@, app_id@, pending_state));
            }
            actions
        },
    }
}

/// Shows the current input method once more the key that arrived as `serial`
/// and every later key of the log, each under the serial of the active text
/// field, or under `serial` where no text field is active.
pub fn process_keys(
    text_input: &TextInputHandle,
    input_method: &InputMethodHandle,
    serial: u32,
) -> (actions: Vec<Action>)
    requires
        input_method@.wf(),
    ensures
        actions@ == input_method@.process_keys_actions(serial, text_input@.serial_or(serial)),
{
    input_method.process_keys(serial, text_input.active_text_input_serial_or_default(serial))
}

/// Handles a request of the text-input object `resource`.
///
/// A commit is handled as [`commit`] says. Every other request is dropped
/// where the object has no input method that exists or the focus lies with
/// another client. Otherwise a request that asks for something is noted
/// until the next commit, the keys of the log are shown again, or the input
/// method is told at once which actions the text field can perform.
pub fn text_input_request(
    text_input: &mut TextInputHandle,
    input_method: &mut InputMethodHandle,
    resource: ObjectId,
    request: TextInputRequest,
) -> (actions: Vec<Action>)
    requires
        old(text_input)@.wf(),
        old(input_method)@.wf(),
        request is Commit ==> old(text_input)@.can_count_commit(resource),
    ensures
        is_outcome(
            requested(old(text_input)@, old(input_method)@, resource, request),
            final(text_input)@,
            final(input_method)@,
            actions@,
        ),
        final(text_input)@.wf(),
        final(input_method)@.wf(),
{
    if let TextInputRequest::Commit = request {
        return commit(text_input, input_method, resource);
    }
    let app_id: String = match text_input.get_input_method(&resource) {
        Some(app_id) => app_id,
        None => {
            return Vec::new();
        },
    };
    let target: ObjectId = match input_method.with_instance(&app_id) {
        Some(target) => target,
        None => {
            return Vec::new();
        },
    };
    let focused: bool = match text_input.focus() {
        Some(surface) => surface.id.same_client_as(&resource),
        None => false,
    };
    if !focused {
        return Vec::new();
    }
    match request {
        TextInputRequest::ProcessKeys { serial } => process_keys(text_input, input_method, serial),
        TextInputRequest::SetAvailableActions { available_actions } => {
            let mut actions: Vec<Action> = Vec::new();
            actions.push(
                Action::InputMethod {
                    instance: target,
                    event: InputMethodEvent::AvailableActions { available_actions },
                },
            );
            assert(actions@ =~= requested(
                old(text_input)@,
                old(input_method)@,
                resource,
                request,
            ).actions);
            actions
        },
        TextInputRequest::Destroy => Vec::new(),
        TextInputRequest::Commit => Vec::new(),
        other => {
            text_input.stage(resource, other);
            Vec::new()
        },
    }
}

/// Handles the end of the text-input object `text_input_id`: the object is
/// forgotten, and where it was the last object of the client that has the
/// focus, its input method is deactivated and told `done`.
pub fn text_input_destroyed(
    text_input: &mut TextInputHandle,
    input_method: &mut InputMethodHandle,
    text_input_id: ObjectId,
) -> (actions: Vec<Action>)
    requires
        old(text_input)@.wf(),
        old(input_method)@.wf(),
    ensures
        is_outcome(
            text_input_gone(old(text_input)@, old(input_method)@, text_input_id),
            final(text_input)@,
            final(input_method)@,
            actions@,
        ),
        final(text_input)@.wf(),
        final(input_method)@.wf(),
{
    match text_input.destroyed(text_input_id) {
        Some(app_id) => input_method.deactivate_input_method(true, &app_id),
        None => Vec::new(),
    }
}

/// Handles the arrival of the text-input object `id` of the application
/// `app_id`: it is registered with the current input method as its own, and
/// where an input method exists at all, the objects of the client that has
/// the focus are told `enter`.
pub fn get_text_input(
    text_input: &mut TextInputHandle,
    input_method: &InputMethodHandle,
    id: ObjectId,
    app_id: String,
) -> (actions: Vec<Action>)
    requires
        old(text_input)@.wf(),
    ensures
        is_outcome(
            text_input_bound(old(text_input)@, input_method@, id, app_id),
            final(text_input)@,
            input_method@,
            actions@,
        ),
        final(text_input)@.wf(),
{
    text_input.add_instance(id, app_id, input_method.currently_set_input_method());
    if input_method.has_instance() {
        text_input.enter()
    } else {
        Vec::new()
    }
}

/// Handles the arrival of the input-method object `object` with the routing
/// id `app_id`. Nothing happens where an object has that routing id already.
/// Otherwise the object is registered, the text fields of the client that
/// has the focus take it as their input method where they have none, those
/// that it serves are told `enter`, and the object is sent the state of the
/// keyboard.
pub fn get_input_method(
    text_input: &mut TextInputHandle,
    input_method: &mut InputMethodHandle,
    object: ObjectId,
    app_id: String,
) -> (actions: Vec<Action>)
    requires
        old(text_input)@.wf(),
        old(input_method)@.wf(),
    ensures
        is_outcome(
            input_method_bound(old(text_input)@, old(input_method)@, object, app_id),
            final(text_input)@,
            final(input_method)@,
            actions@,
        ),
        final(text_input)@.wf(),
        final(input_method)@.wf(),
{
    if input_method.serves(&app_id) {
        return Vec::new();
    }
    let mut actions: Vec<Action> = text_input.adopt_input_method(&app_id);
    input_method.add_instance(object, app_id);
    actions.push(Action::InputMethod { instance: object, event: InputMethodEvent::KeyboardSnapshot });
    assert(actions@ =~= final(text_input)@.welcome_actions(app_id@) + seq![
        to_input_method(object, InputMethodEvent::KeyboardSnapshot),
    ]);
    actions
}

/// `event` for each text field of the client that has the focus.
fn send_to_focused(text_input: &TextInputHandle, event: TextInputEvent) -> (actions: Vec<Action>)
    ensures
        actions@ == text_input@.focused().map_values(sending(event)),
{
    let targets: Vec<(ObjectId, u32)> = text_input.with_focused_instance();
    let mut actions: Vec<Action> = Vec::new();
    let mut index: usize = 0;
    while index < targets.len()
        invariant
            index <= targets.len(),
            targets@ == text_input@.focused().map_values(crate::text_input::target_of()),
            actions@.len() == index,
            forall|place: int|
                0 <= place < index ==> actions@[place] == sending(event)(
                    text_input@.focused()[place],
                ),
        decreases targets.len() - index,
    {
        actions.push(Action::TextInput { instance: targets[index].0, event: event.clone() });
        index = index + 1;
    }
    assert(actions@ =~= text_input@.focused().map_values(sending(event)));
    actions
}

/// The action `action` of the input method for each text field of the
/// client that has the focus, under the number of the commits of the field.
fn act_on_focused(text_input: &TextInputHandle, action: u32) -> (actions: Vec<Action>)
    ensures
        actions@ == text_input@.focused().map_values(acting(action)),
{
    let targets: Vec<(ObjectId, u32)> = text_input.with_focused_instance();
    let mut actions: Vec<Action> = Vec::new();
    let mut index: usize = 0;
    while index < targets.len()
        invariant
            index <= targets.len(),
            targets@ == text_input@.focused().map_values(crate::text_input::target_of()),
            actions@.len() == index,
            forall|place: int|
                0 <= place < index ==> actions@[place] == acting(action)(
                    text_input@.focused()[place],
                ),
        decreases targets.len() - index,
    {
        actions.push(
            Action::TextInput {
                instance: targets[index].0,
                event: TextInputEvent::Action { action, serial: targets[index].1 },
            },
        );
        index = index + 1;
    }
    assert(actions@ =~= text_input@.focused().map_values(acting(action)));
    actions
}

/// Handles a request of the input-method object `object`.
///
/// Text, composed text, deletions, the language and the styles go to every
/// text field of the client that has the focus. A commit is answered with
/// `done` for the active text field, which carries serial 0 unless the
/// commit names the number of commits of the first text field of that
/// client. A popup is anchored to the surface that has the focus. A request
/// to forward a key delivers the key of the log to the keyboard focus.
pub fn input_method_request(
    text_input: &TextInputHandle,
    input_method: &mut InputMethodHandle,
    object: ObjectId,
    request: InputMethodRequest,
) -> (actions: Vec<Action>)
    requires
        old(input_method)@.wf(),
    ensures
        is_outcome(
            input_method_requested(text_input@, old(input_method)@, object, request),
            text_input@,
            final(input_method)@,
            actions@,
        ),
        final(input_method)@.wf(),
{
    match request {
        InputMethodRequest::SetString { text } => send_to_focused(
            text_input,
            TextInputEvent::CommitString { text: Some(text) },
        ),
        InputMethodRequest::SetPreeditString { text, cursor_begin, cursor_end } => send_to_focused(
            text_input,
            TextInputEvent::PreeditString { text: Some(text), cursor_begin, cursor_end },
        ),
        InputMethodRequest::DeleteSurroundingText { before_length, after_length } => {
            send_to_focused(
                text_input,
                TextInputEvent::DeleteSurroundingText { before_length, after_length },
            )
        },
        InputMethodRequest::Commit { serial } => {
            let current_serial: u32 = text_input.serial();
            text_input.done(serial != current_serial)
        },
        InputMethodRequest::GetInputMethodPopup { popup } => match text_input.focus() {
            Some(parent) => input_method.set_popup(object, popup, parent.id),
            None => Vec::new(),
        },
        InputMethodRequest::SetAction { action } => act_on_focused(text_input, action),
        InputMethodRequest::SetLanguage { language } => send_to_focused(
            text_input,
            TextInputEvent::Language { language },
        ),
        InputMethodRequest::SetPreeditCommitMode { mode } => send_to_focused(
            text_input,
            TextInputEvent::PreeditCommitMode { mode },
        ),
        InputMethodRequest::SetPreeditStyle { begin, end, underline, style, color } => {
            send_to_focused(
                text_input,
                TextInputEvent::PreeditStyle { begin, end, underline, style, color },
            )
        },
        InputMethodRequest::KeyForward { serial, mode } => input_method.key_forward(serial, mode),
        InputMethodRequest::Destroy => Vec::new(),
    }
}

/// Handles the end of the input-method object `object`: it is forgotten, no
/// text field stays bound to it, and its popup loses its parent. Where it
/// was the current input method, the text fields of the client that has the
/// focus are told `leave`, and there is no current input method afterwards.
pub fn input_method_destroyed(
    text_input: &mut TextInputHandle,
    input_method: &mut InputMethodHandle,
    object: ObjectId,
) -> (actions: Vec<Action>)
    requires
        old(text_input)@.wf(),
        old(input_method)@.wf(),
    ensures
        is_outcome(
            input_method_gone(old(text_input)@, old(input_method)@, object),
            final(text_input)@,
            final(input_method)@,
            actions@,
        ),
        final(text_input)@.wf(),
        final(input_method)@.wf(),
{
    match input_method.destroyed(object) {
        Some(departure) => {
            let mut actions: Vec<Action> = Vec::new();
            match departure.popup {
                Some(popup) => {
                    actions.push(Action::SetPopupParent { popup, parent: None });
                },
                None => {},
            }
            let mut left: Vec<Action> = text_input.input_method_destroyed(
                &departure.app_id,
                departure.was_current,
            );
            let ghost first = actions@;
            let ghost second = left@;
            actions.append(&mut left);
            assert(actions@ =~= first + second);
            actions
        },
        None => Vec::new(),
    }
}

/// Moves the focus of the seat to `focus`, in this order: the text fields of
/// the client that had the focus are told `leave`, which leaves none of them
/// enabled; the input method of the text field that was enabled is
/// deactivated and told `done`; the focus moves; the text fields of the
/// client that has the focus now are told `enter`.
pub fn focus_changed(
    text_input: &mut TextInputHandle,
    input_method: &mut InputMethodHandle,
    focus: Option<Surface>,
) -> (actions: Vec<Action>)
    requires
        old(text_input)@.wf(),
        old(input_method)@.wf(),
    ensures
        is_outcome(
            focus_moved(old(text_input)@, old(input_method)@, focus),
            final(text_input)@,
            final(input_method)@,
            actions@,
        ),
        final(text_input)@.wf(),
        final(input_method)@.wf(),
{
    let bound: Option<String> = text_input.get_active_input_method();
    let mut actions: Vec<Action> = text_input.leave();
    let ghost left = actions@;
    let ghost told = if bound is Some {
        old(input_method)@.deactivate_actions(true, bound.unwrap()@)
    } else {
        Seq::empty()
    };
    match bound {
        Some(app_id) => {
            let mut deactivated: Vec<Action> = input_method.deactivate_input_method(true, &app_id);
            actions.append(&mut deactivated);
        },
        None => {},
    }
    assert(actions@ =~= left + told);
    text_input.set_focus(focus);
    let mut entered: Vec<Action> = text_input.enter();
    let ghost greeted = entered@;
    actions.append(&mut entered);
    assert(actions@ =~= left + told + greeted);
    assert(left + Seq::<Action>::empty() =~= left);
    actions
}

} // verus!
