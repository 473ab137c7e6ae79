//! What the bridge asks its caller to do: events for the clients of both
//! protocols, keys for the keyboard pipeline and updates of popup parents.

use crate::keyboard::{has_wire_code, wire_code, KeyRecord, KeyState, ModifiersState};
use crate::object::ObjectId;
use vstd::prelude::*;
use xkeysym::KeyCode;

verus! {

/// An event for a text-input object.
#[derive(Debug, PartialEq, Eq)]
pub enum TextInputEvent {
    /// The surface gained the focus.
    Enter { surface: ObjectId },
    /// The surface lost the focus.
    Leave { surface: ObjectId },
    /// The requests up to `serial` were applied. Serial 0 tells the client to
    /// discard what it assumed.
    Done { serial: u32 },
    /// Text to insert.
    CommitString { text: Option<String> },
    /// Text being composed.
    PreeditString { text: Option<String>, cursor_begin: i32, cursor_end: i32 },
    /// Text around the cursor to delete.
    DeleteSurroundingText { before_length: u32, after_length: u32 },
    /// An action to perform on the text field.
    Action { action: u32, serial: u32 },
    /// The language of the input method.
    Language { language: String },
    /// What becomes of the composed text when the focus is lost.
    PreeditCommitMode { mode: u32 },
    /// How to draw a part of the composed text.
    PreeditStyle { begin: u32, end: u32, underline: u32, style: u32, color: u32 },
}

/// An event for an input-method object.
#[derive(Debug, PartialEq, Eq)]
pub enum InputMethodEvent {
    /// A text field asks for input.
    Activate { app_id: String },
    /// The text field no longer asks for input.
    Deactivate,
    /// The events since the last `Done` belong together.
    Done,
    /// The keyboard as it is now: keymap, repeat rate and delay, modifiers.
    KeyboardSnapshot,
    /// A key went down or came up.
    Key { serial: u32, time: u32, key: u32, state: KeyState },
    /// The modifiers changed.
    Modifiers { serial: u32, depressed: u32, latched: u32, locked: u32, group: u32 },
    /// The text around the cursor.
    SurroundingText { text: String, cursor: u32, anchor: u32 },
    /// Who changed the text.
    TextChangeCause { cause: u32 },
    /// What the text field expects.
    ContentType { hint: u32, purpose: u32 },
    /// Where the cursor is on the surface.
    CursorRectangle { x: i32, y: i32, width: i32, height: i32 },
    /// The actions that the text field can perform.
    AvailableActions { available_actions: Vec<u8> },
}

/// One thing for the caller to do.
#[allow(inconsistent_fields)]
#[derive(Debug, PartialEq, Eq)]
pub enum Action {
    /// Send `event` to the text-input object `instance`.
    TextInput { instance: ObjectId, event: TextInputEvent },
    /// Send `event` to the input-method object `instance`.
    InputMethod { instance: ObjectId, event: InputMethodEvent },
    /// Tell the popup that it was dismissed.
    PopupDone { popup: ObjectId },
    /// Record `parent` as the surface that the popup belongs to.
    SetPopupParent { popup: ObjectId, parent: Option<ObjectId> },
    /// Hand the key to the keyboard pipeline, which delivers it to the
    /// keyboard focus.
    ForwardKey { keycode: KeyCode, state: KeyState, serial: u32, time: u32 },
}

/// A copy of a string where there is one.
pub fn clone_optional(text: &Option<String>) -> (copy: Option<String>)
    ensures
        copy == *text,
{
    match text {
        Some(text) => Some(text.clone()),
        None => None,
    }
}

impl Clone for TextInputEvent {
    fn clone(&self) -> (copy: TextInputEvent)
        ensures
            copy == *self,
    {
        match self {
            TextInputEvent::Enter { surface } => TextInputEvent::Enter { surface: *surface },
            TextInputEvent::Leave { surface } => TextInputEvent::Leave { surface: *surface },
            TextInputEvent::Done { serial } => TextInputEvent::Done { serial: *serial },
            TextInputEvent::CommitString { text } => TextInputEvent::CommitString {
                text: clone_optional(text),
            },
            TextInputEvent::PreeditString {
                text,
                cursor_begin,
                cursor_end,
            } => TextInputEvent::PreeditString {
                text: clone_optional(text),
                cursor_begin: *cursor_begin,
                cursor_end: *cursor_end,
            },
            TextInputEvent::DeleteSurroundingText {
                before_length,
                after_length,
            } => TextInputEvent::DeleteSurroundingText {
                before_length: *before_length,
                after_length: *after_length,
            },
            TextInputEvent::Action { action, serial } => TextInputEvent::Action {
                action: *action,
                serial: *serial,
            },
            TextInputEvent::Language { language } => TextInputEvent::Language {
                language: language.clone(),
            },
            TextInputEvent::PreeditCommitMode { mode } => TextInputEvent::PreeditCommitMode {
                mode: *mode,
            },
            TextInputEvent::PreeditStyle {
                begin,
                end,
                underline,
                style,
                color,
            } => TextInputEvent::PreeditStyle {
                begin: *begin,
                end: *end,
                underline: *underline,
                style: *style,
                color: *color,
            },
        }
    }
}

/// `event` for the text-input object `instance`.
pub open spec fn to_text_input(instance: ObjectId, event: TextInputEvent) -> Action {
    Action::TextInput { instance, event }
}

/// `event` for the input-method object `instance`.
pub open spec fn to_input_method(instance: ObjectId, event: InputMethodEvent) -> Action {
    Action::InputMethod { instance, event }
}

/// The key event that shows `record` to an input method under `serial`.
pub open spec fn key_event(record: KeyRecord, serial: u32) -> InputMethodEvent {
    InputMethodEvent::Key {
        serial,
        time: record.time,
        key: wire_code(record.keycode),
        state: record.state,
    }
}

/// The modifiers event that goes with a key event under `serial`.
pub open spec fn modifiers_event(modifiers: ModifiersState, serial: u32) -> InputMethodEvent {
    InputMethodEvent::Modifiers {
        serial,
        depressed: modifiers.depressed,
        latched: modifiers.latched,
        locked: modifiers.locked,
        group: modifiers.layout_effective,
    }
}

/// What shows `record` to the input-method object `instance` under
/// `serial`: the key, then the modifiers where the record has them.
pub open spec fn key_actions(instance: ObjectId, record: KeyRecord, serial: u32) -> Seq<Action> {
    match record.modifiers {
        Some(modifiers) => seq![
            to_input_method(instance, key_event(record, serial)),
            to_input_method(instance, modifiers_event(modifiers, serial)),
        ],
        None => seq![to_input_method(instance, key_event(record, serial))],
    }
}

/// What shows each of `records` in turn to `instance` under `serial`.
pub open spec fn replay_actions(instance: ObjectId, records: Seq<KeyRecord>, serial: u32) -> Seq<
    Action,
>
    decreases records.len(),
{
    if records.len() == 0 {
        Seq::empty()
    } else {
        replay_actions(instance, records.drop_last(), serial) + key_actions(
            instance,
            records.last(),
            serial,
        )
    }
}

/// Appends to `actions` what shows `record` to `instance` under `serial`.
pub(crate) fn push_key_actions(actions: &mut Vec<Action>, instance: ObjectId, record: KeyRecord, serial: u32)
    requires
        has_wire_code(record.keycode),
    ensures
        final(actions)@ == old(actions)@ + key_actions(instance, record, serial),
{
    let key: u32 = match crate::keyboard::checked_wire_code(record.keycode) {
        Some(key) => key,
        None => 0,
    };
    actions.push(
        Action::InputMethod {
            instance,
            event: InputMethodEvent::Key { serial, time: record.time, key, state: record.state },
        },
    );
    match record.modifiers {
        Some(modifiers) => {
            actions.push(
                Action::InputMethod {
                    instance,
                    event: InputMethodEvent::Modifiers {
                        serial,
                        depressed: modifiers.depressed,
                        latched: modifiers.latched,
                        locked: modifiers.locked,
                        group: modifiers.layout_effective,
                    },
                },
            );
        },
        None => {},
    }
    assert(actions@ =~= old(actions)@ + key_actions(instance, record, serial));
}

} // verus!
