//! The input-method objects of one seat: which of them exist, which one is
//! the current one, and the log of the key events that they were shown.

use crate::event::{
    key_actions, push_key_actions, replay_actions, to_input_method, Action, InputMethodEvent,
};
use crate::keyboard::{
    has_wire_code, recorded, replayed, tagged, KeyEventLog, KeyRecord, KeyState, ModifiersState,
    BUFFERSIZE,
};
use crate::object::ObjectId;
use crate::search::{
    first_index, first_match, is_first, lemma_first_index_is, lemma_first_index_none,
    lemma_first_index_sound,
};
use crate::text_input::TextInputHandle;
use vstd::prelude::*;
use xkeysym::KeyCode;

verus! {

/// One input-method object.
#[derive(Debug, PartialEq, Eq)]
pub struct Instance {
    /// The object.
    pub object: ObjectId,
    /// The routing id under which text-input objects find the input method.
    pub app_id: String,
    /// The popup surface of the input method, while it is anchored.
    pub popup: Option<ObjectId>,
    /// Whether the object has been activated before.
    pub activated: bool,
}

/// How an input method wants a key to be delivered.
#[derive(Clone, Copy, Debug, PartialEq, Eq, Structural)]
pub enum KeyForwardMode {
    /// As the key event that was recorded.
    Once,
    /// As a key that is pressed and released at once.
    Repeating,
}

/// A request of an input-method object.
#[allow(inconsistent_fields)]
#[derive(Debug, PartialEq, Eq)]
pub enum InputMethodRequest {
    SetString { text: String },
    SetPreeditString { text: String, cursor_begin: i32, cursor_end: i32 },
    DeleteSurroundingText { before_length: u32, after_length: u32 },
    Commit { serial: u32 },
    GetInputMethodPopup { popup: ObjectId },
    SetAction { action: u32 },
    SetLanguage { language: String },
    SetPreeditCommitMode { mode: u32 },
    SetPreeditStyle { begin: u32, end: u32, underline: u32, style: u32, color: u32 },
    KeyForward { serial: u32, mode: KeyForwardMode },
    Destroy,
}

/// What is known of an input-method object that has just gone.
#[derive(Debug, PartialEq, Eq)]
pub struct Departure {
    /// Its routing id.
    pub app_id: String,
    /// Whether it was the current input method.
    pub was_current: bool,
    /// The popup that was anchored for it.
    pub popup: Option<ObjectId>,
}

/// The objects whose routing id reads `app_id`.
pub open spec fn routed(app_id: Seq<char>) -> spec_fn(Instance) -> bool {
    |instance: Instance| instance.app_id@ == app_id
}

/// The objects that are `id`.
pub open spec fn is_object(id: ObjectId) -> spec_fn(Instance) -> bool {
    |instance: Instance| instance.object == id
}

/// The objects that are not `id`.
pub open spec fn not_object(id: ObjectId) -> spec_fn(Instance) -> bool {
    |instance: Instance| instance.object != id
}

/// Whether no two of the objects have the same routing id.
pub open spec fn distinct(instances: Seq<Instance>) -> bool {
    forall|one: int, other: int|
        0 <= one < other < instances.len() ==> (#[trigger] instances[one]).app_id@ != (
        #[trigger] instances[other]).app_id@
}

/// What dismisses the popup of an input method and forgets its parent.
pub open spec fn dismissal(popup: Option<ObjectId>) -> Seq<Action> {
    match popup {
        Some(popup) => seq![
            Action::PopupDone { popup },
            Action::SetPopupParent { popup, parent: None },
        ],
        None => Seq::empty(),
    }
}

/// What hands the key of `record` to the keyboard pipeline under `serial`.
pub open spec fn forward(record: KeyRecord, state: KeyState, serial: u32) -> Action {
    Action::ForwardKey { keycode: record.keycode, state, serial, time: record.time }
}

/// The input-method objects of a seat as a value.
pub struct InputMethod {
    /// The objects, in the order in which they were added.
    pub instances: Seq<Instance>,
    /// Routing id of the current input method.
    pub current: Option<String>,
    /// The most recent key events that the current input method was shown,
    /// oldest first.
    pub keys: Seq<KeyRecord>,
}

impl InputMethod {
    /// No object, no current input method, no key.
    pub open spec fn empty() -> InputMethod {
        InputMethod { instances: Seq::empty(), current: None, keys: Seq::empty() }
    }

    /// No two objects share a routing id, and the log holds at most
    /// [`BUFFERSIZE`] keys, each of which has a code on the wire.
    pub open spec fn wf(self) -> bool {
        &&& distinct(self.instances)
        &&& self.keys.len() <= BUFFERSIZE
        &&& forall|place: int|
            0 <= place < self.keys.len() ==> has_wire_code((#[trigger] self.keys[place]).keycode)
    }

    /// Place of the object with the routing id `app_id`.
    pub open spec fn index_of(self, app_id: Seq<char>) -> Option<int> {
        first_index(self.instances, routed(app_id))
    }

    /// The object with the routing id `app_id`.
    pub open spec fn instance_of(self, app_id: Seq<char>) -> Option<Instance> {
        first_match(self.instances, routed(app_id))
    }

    /// Whether an object has the routing id `app_id`.
    pub open spec fn serves(self, app_id: Seq<char>) -> bool {
        self.index_of(app_id) is Some
    }

    /// Whether `app_id` is the routing id of the current input method.
    pub open spec fn is_current(self, app_id: Seq<char>) -> bool {
        self.current matches Some(current) && current@ == app_id
    }

    /// The object of the current input method.
    pub open spec fn current_instance(self) -> Option<Instance> {
        match self.current {
            Some(current) => self.instance_of(current@),
            None => None,
        }
    }

    /// With the objects replaced.
    pub open spec fn with_instances(self, instances: Seq<Instance>) -> InputMethod {
        InputMethod { instances, ..self }
    }

    /// With a new object under the routing id `app_id`, unless an object has
    /// that routing id already. The new object becomes the current input
    /// method where there was none. The log of keys stays as it is.
    pub open spec fn added(self, object: ObjectId, app_id: String) -> InputMethod {
        if self.serves(app_id@) {
            self
        } else {
            InputMethod {
                instances: self.instances.push(
                    Instance { object, app_id, popup: None, activated: false },
                ),
                current: if self.current is None {
                    Some(app_id)
                } else {
                    self.current
                },
                keys: self.keys,
            }
        }
    }

    /// With `app_id` as the current input method, whose object counts as
    /// activated from now on.
    pub open spec fn activated(self, app_id: String) -> InputMethod {
        InputMethod {
            instances: match self.index_of(app_id@) {
                Some(index) => self.instances.update(
                    index,
                    Instance { activated: true, ..self.instances[index] },
                ),
                None => self.instances,
            },
            current: Some(app_id),
            keys: self.keys,
        }
    }

    /// `activate` for the object with the routing id `app_id`, followed by
    /// the state of the keyboard where the object is activated for the first
    /// time.
    pub open spec fn activate_actions(self, app_id: String) -> Seq<Action> {
        match self.instance_of(app_id@) {
            Some(instance) => if instance.activated {
                seq![to_input_method(instance.object, InputMethodEvent::Activate { app_id })]
            } else {
                seq![
                    to_input_method(instance.object, InputMethodEvent::Activate { app_id }),
                    to_input_method(instance.object, InputMethodEvent::KeyboardSnapshot),
                ]
            },
            None => Seq::empty(),
        }
    }

    /// With the popup of the object `app_id` forgotten, and without a current
    /// input method where `app_id` was it.
    pub open spec fn deactivated(self, app_id: Seq<char>) -> InputMethod {
        InputMethod {
            instances: match self.index_of(app_id) {
                Some(index) => self.instances.update(
                    index,
                    Instance { popup: None, ..self.instances[index] },
                ),
                None => self.instances,
            },
            current: if self.is_current(app_id) {
                None
            } else {
                self.current
            },
            keys: self.keys,
        }
    }

    /// `deactivate` for the object with the routing id `app_id`, `done` where
    /// it is asked for, and the dismissal of its popup where it has one.
    pub open spec fn deactivate_actions(self, done: bool, app_id: Seq<char>) -> Seq<Action> {
        match self.instance_of(app_id) {
            Some(instance) => seq![
                to_input_method(instance.object, InputMethodEvent::Deactivate),
            ] + (if done {
                seq![to_input_method(instance.object, InputMethodEvent::Done)]
            } else {
                Seq::empty()
            }) + dismissal(instance.popup),
            None => Seq::empty(),
        }
    }

    /// The object `input_method`.
    pub open spec fn object_of(self, input_method: ObjectId) -> Option<Instance> {
        first_match(self.instances, is_object(input_method))
    }

    /// With `popup` as the popup of the object `input_method`.
    pub open spec fn with_popup(self, input_method: ObjectId, popup: ObjectId) -> InputMethod {
        match first_index(self.instances, is_object(input_method)) {
            Some(index) => self.with_instances(
                self.instances.update(
                    index,
                    Instance { popup: Some(popup), ..self.instances[index] },
                ),
            ),
            None => self,
        }
    }

    /// What anchors `popup` to `parent` for the object `input_method`: the
    /// popup that it replaces loses its parent first.
    pub open spec fn popup_actions(
        self,
        input_method: ObjectId,
        popup: ObjectId,
        parent: ObjectId,
    ) -> Seq<Action> {
        match self.object_of(input_method) {
            Some(instance) => (match instance.popup {
                Some(replaced) => seq![Action::SetPopupParent { popup: replaced, parent: None }],
                None => Seq::empty(),
            }) + seq![Action::SetPopupParent { popup, parent: Some(parent) }],
            None => Seq::empty(),
        }
    }

    /// Whether a key event is shown to an input method: whether there is a
    /// current one and an object for it.
    pub open spec fn intercepts(self) -> bool {
        self.current_instance() is Some
    }

    /// With `record` in the log, where key events are shown to an input
    /// method.
    pub open spec fn intercepted(self, record: KeyRecord) -> InputMethod {
        if self.intercepts() {
            InputMethod { keys: recorded(self.keys, record), ..self }
        } else {
            self
        }
    }

    /// What becomes of a key event: the current input method is shown it
    /// under `serial`, and the keyboard pipeline gets it in any case, as it
    /// arrived.
    pub open spec fn intercept_actions(self, record: KeyRecord, serial: u32) -> Seq<Action> {
        (match self.current_instance() {
            Some(instance) => key_actions(instance.object, record, serial),
            None => Seq::empty(),
        }) + seq![forward(record, record.state, record.serial)]
    }

    /// What shows the current input method, under `serial`, the key that
    /// arrived as `from_serial` and all later ones.
    pub open spec fn process_keys_actions(self, from_serial: u32, serial: u32) -> Seq<Action> {
        match self.current_instance() {
            Some(instance) => replay_actions(
                instance.object,
                replayed(self.keys, from_serial),
                serial,
            ),
            None => Seq::empty(),
        }
    }

    /// What delivers the key that arrived as `serial` to the keyboard focus:
    /// the key as it was recorded, and its release where the input method
    /// asks for both.
    pub open spec fn key_forward_actions(self, serial: u32, mode: KeyForwardMode) -> Seq<Action> {
        match first_match(self.keys, tagged(serial)) {
            Some(record) => if mode == KeyForwardMode::Repeating {
                seq![
                    forward(record, record.state, serial),
                    forward(record, KeyState::Released, serial),
                ]
            } else {
                seq![forward(record, record.state, serial)]
            },
            None => Seq::empty(),
        }
    }

    /// What is known of the object `input_method` when it goes.
    pub open spec fn departure(self, input_method: ObjectId) -> Option<Departure> {
        match self.object_of(input_method) {
            Some(instance) => Some(
                Departure {
                    app_id: instance.app_id,
                    was_current: self.is_current(instance.app_id@),
                    popup: instance.popup,
                },
            ),
            None => None,
        }
    }

    /// Without the object `input_method`, and without a current input method
    /// where that object was it.
    pub open spec fn without(self, input_method: ObjectId) -> InputMethod {
        InputMethod {
            instances: self.instances.filter(not_object(input_method)),
            current: match self.departure(input_method) {
                Some(departure) if departure.was_current => None,
                _ => self.current,
            },
            keys: self.keys,
        }
    }
}

/// Handle to the input-method objects of a seat.
#[derive(Debug)]
pub struct InputMethodHandle {
    instances: Vec<Instance>,
    current: Option<String>,
    keys: KeyEventLog,
}

impl View for InputMethodHandle {
    type V = InputMethod;

    closed spec fn view(&self) -> InputMethod {
        InputMethod { instances: self.instances@, current: self.current, keys: self.keys@ }
    }
}

impl InputMethodHandle {
    /// A handle with no object.
    pub fn new() -> (handle: InputMethodHandle)
        ensures
            handle@ == InputMethod::empty(),
            handle@.wf(),
    {
        InputMethodHandle { instances: Vec::new(), current: None, keys: KeyEventLog::new() }
    }

    /// Place of the object with the routing id `app_id`.
    fn position(&self, app_id: &String) -> (index: Option<usize>)
        ensures
            match index {
                Some(index) => index < self@.instances.len() && self@.index_of(app_id@) == Some(
                    index as int,
                ) && self@.instance_of(app_id@) == Some(self@.instances[index as int])
                    && self@.instances[index as int].app_id@ == app_id@,
                None => self@.index_of(app_id@) is None && self@.instance_of(app_id@) is None,
            },
    {
        let len: usize = self.instances.len();
        let mut index: usize = 0;
        while index < len
            invariant
                len == self.instances@.len(),
                index <= len,
                forall|earlier: int|
                    0 <= earlier < index ==> !routed(app_id@)(#[trigger] self.instances@[earlier]),
            decreases len - index,
        {
            if self.instances[index].app_id == *app_id {
                proof {
                    assert(is_first(self.instances@, routed(app_id@), index as int));
                    lemma_first_index_is(self.instances@, routed(app_id@), index as int);
                }
                return Some(index);
            }
            index = index + 1;
        }
        proof {
            lemma_first_index_none(self.instances@, routed(app_id@));
        }
        None
    }

    /// Place of the object `input_method`.
    fn position_of_object(&self, input_method: ObjectId) -> (index: Option<usize>)
        ensures
            match index {
                Some(index) => index < self@.instances.len() && first_index(
                    self@.instances,
                    is_object(input_method),
                ) == Some(index as int) && self@.object_of(input_method) == Some(
                    self@.instances[index as int],
                ),
                None => first_index(self@.instances, is_object(input_method)) is None
                    && self@.object_of(input_method) is None,
            },
    {
        let len: usize = self.instances.len();
        let mut index: usize = 0;
        while index < len
            invariant
                len == self.instances@.len(),
                index <= len,
                forall|earlier: int|
                    0 <= earlier < index ==> !is_object(input_method)(
                        #[trigger] self.instances@[earlier],
                    ),
            decreases len - index,
        {
            if self.instances[index].object == input_method {
                proof {
                    assert(is_first(self.instances@, is_object(input_method), index as int));
                    lemma_first_index_is(self.instances@, is_object(input_method), index as int);
                }
                return Some(index);
            }
            index = index + 1;
        }
        proof {
            lemma_first_index_none(self.instances@, is_object(input_method));
        }
        None
    }

    /// Place of the object of the current input method.
    fn position_of_current(&self) -> (index: Option<usize>)
        ensures
            match index {
                Some(index) => index < self@.instances.len() && self@.current_instance() == Some(
                    self@.instances[index as int],
                ),
                None => self@.current_instance() is None,
            },
    {
        match &self.current {
            Some(current) => self.position(current),
            None => None,
        }
    }

    /// Registers a new object under the routing id `app_id`, unless an object
    /// has that routing id already. The object becomes the current input
    /// method where there was none; the log of keys is not touched. Tells
    /// whether the object was registered.
    pub fn add_instance(&mut self, instance: ObjectId, app_id: String) -> (added: bool)
        requires
            old(self)@.wf(),
        ensures
            added == !old(self)@.serves(app_id@),
            final(self)@ == old(self)@.added(instance, app_id),
            final(self)@.wf(),
    {
        if self.position(&app_id).is_some() {
            return false;
        }
        proof {
            lemma_first_index_sound(self.instances@, routed(app_id@));
        }
        if self.current.is_none() {
            self.current = Some(app_id.clone());
        }
        self.instances.push(Instance { object: instance, app_id, popup: None, activated: false });
        proof {
            assert forall|one: int, other: int|
                0 <= one < other < self.instances@.len() implies (
            #[trigger] self.instances@[one]).app_id@ != (#[trigger] self.instances@[other]).app_id@ by {
                if other == self.instances@.len() - 1 {
                    assert(!routed(app_id@)(old(self).instances@[one]));
                } else {
                    assert(old(self).instances@[one].app_id@ != old(self).instances@[other].app_id@);
                }
            }
        }
        true
    }

    /// Whether there is any input-method object.
    pub fn has_instance(&self) -> (any: bool)
        ensures
            any == (self@.instances.len() > 0),
    {
        self.instances.len() > 0
    }

    /// Whether an object has the routing id `app_id`.
    pub fn serves(&self, app_id: &String) -> (served: bool)
        ensures
            served == self@.serves(app_id@),
    {
        self.position(app_id).is_some()
    }

    /// The object with the routing id `app_id`, which is the one to send an
    /// event for that input method to. There may be none.
    pub fn with_instance(&self, app_id: &String) -> (target: Option<ObjectId>)
        ensures
            target == match self@.instance_of(app_id@) {
                Some(instance) => Some(instance.object),
                None => None,
            },
    {
        match self.position(app_id) {
            Some(index) => Some(self.instances[index].object),
            None => None,
        }
    }

    /// Makes `app_id` the current input method and tells its object
    /// `activate`. An object that is activated for the first time is sent
    /// the state of the keyboard as well.
    pub fn activate_input_method(&mut self, app_id: String) -> (actions: Vec<Action>)
        requires
            old(self)@.wf(),
        ensures
            actions@ == old(self)@.activate_actions(app_id),
            final(self)@ == old(self)@.activated(app_id),
            final(self)@.wf(),
    {
        let mut actions: Vec<Action> = Vec::new();
        match self.position(&app_id) {
            Some(index) => {
                let object: ObjectId = self.instances[index].object;
                actions.push(
                    Action::InputMethod {
                        instance: object,
                        event: InputMethodEvent::Activate { app_id: app_id.clone() },
                    },
                );
                if !self.instances[index].activated {
                    actions.push(
                        Action::InputMethod {
                            instance: object,
                            event: InputMethodEvent::KeyboardSnapshot,
                        },
                    );
                    self.instances[index].activated = true;
                }
                proof {
                    assert(actions@ =~= old(self)@.activate_actions(app_id));
                    assert(self.instances@ =~= old(self)@.activated(app_id).instances);
                    lemma_same_routes_stay_distinct(old(self).instances@, self.instances@);
                }
            },
            None => {},
        }
        self.current = Some(app_id);
        actions
    }

    /// Tells the object with the routing id `app_id` `deactivate`, and `done`
    /// where the change does not come from a commit of the text field.
    /// Its popup is dismissed, and `app_id` is no longer the current input
    /// method, if it was.
    pub fn deactivate_input_method(&mut self, done: bool, app_id: &String) -> (actions: Vec<Action>)
        requires
            old(self)@.wf(),
        ensures
            actions@ == old(self)@.deactivate_actions(done, app_id@),
            final(self)@ == old(self)@.deactivated(app_id@),
            final(self)@.wf(),
    {
        let mut actions: Vec<Action> = Vec::new();
        match self.position(app_id) {
            Some(index) => {
                let object: ObjectId = self.instances[index].object;
                actions.push(
                    Action::InputMethod { instance: object, event: InputMethodEvent::Deactivate },
                );
                if done {
                    actions.push(
                        Action::InputMethod { instance: object, event: InputMethodEvent::Done },
                    );
                }
                match self.instances[index].popup {
                    Some(popup) => {
                        actions.push(Action::PopupDone { popup });
                        actions.push(Action::SetPopupParent { popup, parent: None });
                    },
                    None => {},
                }
                self.instances[index].popup = None;
                proof {
                    assert(actions@ =~= old(self)@.deactivate_actions(done, app_id@));
                    assert(self.instances@ =~= old(self)@.deactivated(app_id@).instances);
                    lemma_same_routes_stay_distinct(old(self).instances@, self.instances@);
                }
            },
            None => {},
        }
        let is_current: bool = match &self.current {
            Some(current) => *current == *app_id,
            None => false,
        };
        if is_current {
            self.current = None;
        }
        actions
    }

    /// Routing id of the current input method.
    pub fn currently_set_input_method(&self) -> (current: Option<String>)
        ensures
            current == self@.current,
    {
        crate::event::clone_optional(&self.current)
    }

    /// Anchors `popup` to the surface `parent` for the object `input_method`.
    /// A popup that it replaces loses its parent. Nothing happens where there
    /// is no such object.
    pub fn set_popup(&mut self, input_method: ObjectId, popup: ObjectId, parent: ObjectId) -> (actions:
        Vec<Action>)
        requires
            old(self)@.wf(),
        ensures
            actions@ == old(self)@.popup_actions(input_method, popup, parent),
            final(self)@ == old(self)@.with_popup(input_method, popup),
            final(self)@.wf(),
    {
        let mut actions: Vec<Action> = Vec::new();
        match self.position_of_object(input_method) {
            Some(index) => {
                match self.instances[index].popup {
                    Some(replaced) => {
                        actions.push(Action::SetPopupParent { popup: replaced, parent: None });
                    },
                    None => {},
                }
                actions.push(Action::SetPopupParent { popup, parent: Some(parent) });
                self.instances[index].popup = Some(popup);
                proof {
                    assert(actions@ =~= old(self)@.popup_actions(input_method, popup, parent));
                    assert(self.instances@ =~= old(self)@.with_popup(input_method, popup).instances);
                    lemma_same_routes_stay_distinct(old(self).instances@, self.instances@);
                }
            },
            None => {},
        }
        actions
    }

    /// Takes a key event ahead of its delivery. Where there is a current
    /// input method, it is shown the key and the modifiers, under the serial
    /// of the active text field (under `serial` where no text field is
    /// active), and the event goes into the log. Where there is none, nothing
    /// changes, whatever the key. The last action always hands the event on
    /// to the keyboard pipeline as it arrived. Tells whether an input method
    /// was shown the key.
    ///
    /// A key that is shown needs a code on the wire.
    pub fn input_intercept(
        &mut self,
        text_input: &TextInputHandle,
        keycode: KeyCode,
        state: KeyState,
        serial: u32,
        time: u32,
        modifiers: Option<ModifiersState>,
    ) -> (out: (bool, Vec<Action>))
        requires
            old(self)@.wf(),
            old(self)@.intercepts() ==> has_wire_code(keycode),
        ensures
            out.0 == old(self)@.intercepts(),
            out.1@ == old(self)@.intercept_actions(
                KeyRecord { keycode, state, modifiers, serial, time },
                text_input@.serial_or(serial),
            ),
            final(self)@ == old(self)@.intercepted(
                KeyRecord { keycode, state, modifiers, serial, time },
            ),
            final(self)@.wf(),
    {
        let record: KeyRecord = KeyRecord { keycode, state, modifiers, serial, time };
        let mut actions: Vec<Action> = Vec::new();
        let mut shown: bool = false;
        match self.position_of_current() {
            Some(index) => {
                let shown_as: u32 = text_input.active_text_input_serial_or_default(serial);
                push_key_actions(&mut actions, self.instances[index].object, record, shown_as);
                self.keys.record(record);
                shown = true;
            },
            None => {},
        }
        actions.push(Action::ForwardKey { keycode, state, serial, time });
        proof {
            assert(actions@ =~= old(self)@.intercept_actions(record, text_input@.serial_or(serial)));
        }
        (shown, actions)
    }

    /// Takes a key event ahead of its delivery, as [`Self::input_intercept`]
    /// does, unless the key would have to be shown to an input method and has
    /// no code on the wire. Such a key is not taken: nothing changes and
    /// nothing is handed back.
    pub fn try_input_intercept(
        &mut self,
        text_input: &TextInputHandle,
        keycode: KeyCode,
        state: KeyState,
        serial: u32,
        time: u32,
        modifiers: Option<ModifiersState>,
    ) -> (out: Option<(bool, Vec<Action>)>)
        requires
            old(self)@.wf(),
        ensures
            final(self)@.wf(),
            out is None == (old(self)@.intercepts() && !has_wire_code(keycode)),
            match out {
                Some(taken) => {
                    &&& taken.0 == old(self)@.intercepts()
                    &&& taken.1@ == old(self)@.intercept_actions(
                        KeyRecord { keycode, state, modifiers, serial, time },
                        text_input@.serial_or(serial),
                    )
                    &&& final(self)@ == old(self)@.intercepted(
                        KeyRecord { keycode, state, modifiers, serial, time },
                    )
                },
                None => final(self)@ == old(self)@,
            },
    {
        if self.position_of_current().is_some() && crate::keyboard::checked_wire_code(
            keycode,
        ).is_none() {
            None
        } else {
            Some(self.input_intercept(text_input, keycode, state, serial, time, modifiers))
        }
    }

    /// Shows the current input method once more the key that arrived as
    /// `from_serial` and every later key of the log, oldest first, each under
    /// `serial`. Nothing is shown where the log has no such key.
    pub fn process_keys(&self, from_serial: u32, serial: u32) -> (actions: Vec<Action>)
        requires
            self@.wf(),
        ensures
            actions@ == self@.process_keys_actions(from_serial, serial),
    {
        let mut actions: Vec<Action> = Vec::new();
        let object: ObjectId = match self.position_of_current() {
            Some(index) => self.instances[index].object,
            None => {
                return actions;
            },
        };
        let records: Vec<KeyRecord> = self.keys.replay_from(from_serial);
        proof {
            lemma_first_index_sound(self@.keys, tagged(from_serial));
        }
        let mut index: usize = 0;
        assert(records@.take(0) =~= Seq::<KeyRecord>::empty());
        while index < records.len()
            invariant
                index <= records.len(),
                forall|place: int|
                    0 <= place < records@.len() ==> has_wire_code(
                        (#[trigger] records@[place]).keycode,
                    ),
                actions@ == replay_actions(object, records@.take(index as int), serial),
            decreases records.len() - index,
        {
            proof {
                let next = records@.take(index + 1);
                assert(next.drop_last() =~= records@.take(index as int));
                assert(next.last() == records@[index as int]);
            }
            push_key_actions(&mut actions, object, records[index], serial);
            index = index + 1;
        }
        assert(records@.take(records@.len() as int) =~= records@);
        actions
    }

    /// Delivers the key that arrived as `serial` to the keyboard focus, as if
    /// it had been typed: the key as it was recorded, followed at once by its
    /// release where `mode` is [`KeyForwardMode::Repeating`]. Nothing is
    /// delivered where the log has no such key.
    pub fn key_forward(&self, serial: u32, mode: KeyForwardMode) -> (actions: Vec<Action>)
        ensures
            actions@ == self@.key_forward_actions(serial, mode),
    {
        let mut actions: Vec<Action> = Vec::new();
        match self.keys.find(serial) {
            Some(record) => {
                actions.push(
                    Action::ForwardKey {
                        keycode: record.keycode,
                        state: record.state,
                        serial,
                        time: record.time,
                    },
                );
                match mode {
                    KeyForwardMode::Repeating => {
                        actions.push(
                            Action::ForwardKey {
                                keycode: record.keycode,
                                state: KeyState::Released,
                                serial,
                                time: record.time,
                            },
                        );
                    },
                    KeyForwardMode::Once => {},
                }
                assert(actions@ =~= self@.key_forward_actions(serial, mode));
            },
            None => {},
        }
        actions
    }

    /// The keys of the log, oldest first.
    pub fn keys(&self) -> (keys: Vec<KeyRecord>)
        ensures
            keys@ == self@.keys,
    {
        let mut keys: Vec<KeyRecord> = Vec::new();
        let len: usize = self.keys.len();
        let mut index: usize = 0;
        while index < len
            invariant
                len == self.keys@.len(),
                index <= len,
                keys@ == self.keys@.take(index as int),
            decreases len - index,
        {
            match self.keys.get(index) {
                Some(record) => {
                    keys.push(record);
                },
                None => {},
            }
            index = index + 1;
            assert(keys@ =~= self.keys@.take(index as int));
        }
        assert(self.keys@.take(len as int) =~= self.keys@);
        keys
    }

    /// Forgets the object `input_method`, which is then not the current input
    /// method either. Hands back what was known of it.
    pub fn destroyed(&mut self, input_method: ObjectId) -> (departure: Option<Departure>)
        requires
            old(self)@.wf(),
        ensures
            departure == old(self)@.departure(input_method),
            final(self)@ == old(self)@.without(input_method),
            final(self)@.wf(),
    {
        let departure: Option<Departure> = match self.position_of_object(input_method) {
            Some(index) => {
                let was_current: bool = match &self.current {
                    Some(current) => *current == self.instances[index].app_id,
                    None => false,
                };
                Some(
                    Departure {
                        app_id: self.instances[index].app_id.clone(),
                        was_current,
                        popup: self.instances[index].popup,
                    },
                )
            },
            None => None,
        };
        let ghost all = self.instances@;
        let ghost keep = not_object(input_method);
        let mut index: usize = 0;
        let mut seen: Ghost<int> = Ghost(0);
        assert(all.take(0) =~= Seq::<Instance>::empty());
        assert(self.instances@.take(0) =~= Seq::<Instance>::empty());
        assert(self.instances@.skip(0) =~= all.skip(0));
        while index < self.instances.len()
            invariant
                all == old(self).instances@,
                keep == not_object(input_method),
                self.current == old(self).current,
                self.keys == old(self).keys,
                index <= self.instances@.len(),
                0 <= seen@ <= all.len(),
                self.instances@.len() - index == all.len() - seen@,
                self.instances@.take(index as int) == all.take(seen@).filter(keep),
                self.instances@.skip(index as int) == all.skip(seen@),
            decreases self.instances@.len() - index,
        {
            let ghost kept = all.take(seen@).filter(keep);
            let ghost next = all[seen@];
            proof {
                assert(self.instances@.skip(index as int)[0] == next);
                assert(all.take(seen@ + 1) =~= all.take(seen@).push(next));
                all.take(seen@).lemma_filter_push(next, keep);
            }
            if self.instances[index].object == input_method {
                let ghost held = self.instances@;
                self.instances.remove(index);
                proof {
                    assert(self.instances@.take(index as int) =~= held.take(index as int));
                    assert forall|k: int| 0 <= k < all.len() - seen@ - 1 implies (
                    #[trigger] self.instances@.skip(index as int)[k]) == all.skip(seen@ + 1)[k] by {
                        assert(held.skip(index as int)[k + 1] == all.skip(seen@)[k + 1]);
                    }
                    assert(self.instances@.skip(index as int) =~= all.skip(seen@ + 1));
                }
            } else {
                proof {
                    assert(self.instances@.take(index + 1) =~= kept.push(next));
                    assert forall|k: int| 0 <= k < all.len() - seen@ - 1 implies (
                    #[trigger] self.instances@.skip(index + 1)[k]) == all.skip(seen@ + 1)[k] by {
                        assert(self.instances@.skip(index as int)[k + 1] == all.skip(seen@)[k + 1]);
                    }
                    assert(self.instances@.skip(index + 1) =~= all.skip(seen@ + 1));
                }
                index = index + 1;
            }
            proof {
                seen@ = seen@ + 1;
            }
        }
        proof {
            assert(all.take(all.len() as int) =~= all);
            assert(self.instances@.take(index as int) =~= self.instances@);
            lemma_filter_stays_distinct(all, keep);
        }
        let clear: bool = match &departure {
            Some(departure) => departure.was_current,
            None => false,
        };
        if clear {
            self.current = None;
        }
        departure
    }
}

impl Default for InputMethodHandle {
    fn default() -> (handle: InputMethodHandle)
        ensures
            handle@ == InputMethod::empty(),
    {
        InputMethodHandle::new()
    }
}

/// Objects that keep their routing ids keep them apart.
pub proof fn lemma_same_routes_stay_distinct(before: Seq<Instance>, after: Seq<Instance>)
    requires
        distinct(before),
        after.len() == before.len(),
        forall|place: int|
            0 <= place < before.len() ==> (#[trigger] after[place]).app_id == before[place].app_id,
    ensures
        distinct(after),
        forall|app_id: Seq<char>|
            first_index(after, routed(app_id)) == first_index(before, routed(app_id)),
{
    assert forall|one: int, other: int| 0 <= one < other < after.len() implies (
    #[trigger] after[one]).app_id@ != (#[trigger] after[other]).app_id@ by {
        assert(before[one].app_id@ != before[other].app_id@);
    }
    assert forall|app_id: Seq<char>|
        first_index(after, routed(app_id)) == first_index(before, routed(app_id)) by {
        lemma_first_index_sound(before, routed(app_id));
        match first_index(before, routed(app_id)) {
            Some(place) => {
                assert(is_first(after, routed(app_id), place)) by {
                    assert forall|earlier: int| 0 <= earlier < place implies !routed(app_id)(
                        #[trigger] after[earlier],
                    ) by {
                        assert(!routed(app_id)(before[earlier]));
                    }
                }
                lemma_first_index_is(after, routed(app_id), place);
            },
            None => {
                assert forall|place: int| 0 <= place < after.len() implies !routed(app_id)(
                    #[trigger] after[place],
                ) by {
                    assert(!routed(app_id)(before[place]));
                }
                lemma_first_index_none(after, routed(app_id));
            },
        }
    }
}

/// Objects that are picked from objects with routing ids of their own have
/// routing ids of their own.
pub proof fn lemma_filter_stays_distinct(instances: Seq<Instance>, keep: spec_fn(Instance) -> bool)
    requires
        distinct(instances),
    ensures
        distinct(instances.filter(keep)),
    decreases instances.len(),
{
    reveal(Seq::filter);
    if instances.len() > 0 {
        let rest = instances.drop_last();
        let last = instances.last();
        assert(distinct(rest)) by {
            assert forall|one: int, other: int| 0 <= one < other < rest.len() implies (
            #[trigger] rest[one]).app_id@ != (#[trigger] rest[other]).app_id@ by {
                assert(instances[one].app_id@ != instances[other].app_id@);
            }
        }
        lemma_filter_stays_distinct(rest, keep);
        let kept = rest.filter(keep);
        if keep(last) {
            assert(instances.filter(keep) =~= kept.push(last));
            assert forall|one: int, other: int|
                0 <= one < other < kept.push(last).len() implies (#[trigger] kept.push(
                last,
            )[one]).app_id@ != (#[trigger] kept.push(last)[other]).app_id@ by {
                if other == kept.len() {
                    assert(kept.contains(kept[one]));
                    rest.lemma_filter_contains_rev(keep, kept[one]);
                    let place = choose|place: int|
                        0 <= place < rest.len() && rest[place] == kept[one];
                    assert(instances[place].app_id@ != instances[instances.len() - 1].app_id@);
                } else {
                    assert(kept[one].app_id@ != kept[other].app_id@);
                }
            }
        } else {
            assert(instances.filter(keep) =~= kept);
        }
    } else {
        assert(instances.filter(keep) =~= Seq::<Instance>::empty());
    }
}

} // verus!
