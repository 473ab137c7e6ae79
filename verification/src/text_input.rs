//! The text-input objects of one seat: which of them exist, what each has
//! asked for since its last commit, which surface has the focus and which
//! object is the active one.

use crate::event::{clone_optional, to_text_input, Action, TextInputEvent};
use crate::object::{live_surface, ObjectId, Surface};
use crate::search::{
    first_index, first_match, is_first, lemma_first_index_is, lemma_first_index_none,
    lemma_first_index_sound,
};
use vstd::prelude::*;

verus! {

/// A rectangle on a surface.
#[derive(Clone, Copy, Debug, PartialEq, Eq, Structural)]
pub struct Rectangle {
    pub x: i32,
    pub y: i32,
    pub width: i32,
    pub height: i32,
}

/// What a text-input object has asked for since its last commit.
#[derive(Debug, PartialEq, Eq)]
pub struct TextInputState {
    /// Whether the object wants to be enabled or disabled.
    pub enable: Option<bool>,
    /// The text around the cursor, the cursor and the anchor.
    pub surrounding_text: Option<(String, u32, u32)>,
    /// Hint and purpose of the content.
    pub content_type: Option<(u32, u32)>,
    /// Where the cursor is.
    pub cursor_rectangle: Option<Rectangle>,
    /// Who changed the text.
    pub text_change_cause: Option<u32>,
}

/// A request of a text-input object.
#[derive(Debug, PartialEq, Eq)]
pub enum TextInputRequest {
    Enable,
    Disable,
    SetSurroundingText { text: String, cursor: u32, anchor: u32 },
    SetTextChangeCause { cause: u32 },
    SetContentType { hint: u32, purpose: u32 },
    SetCursorRectangle { x: i32, y: i32, width: i32, height: i32 },
    Commit,
    ProcessKeys { serial: u32 },
    SetAvailableActions { available_actions: Vec<u8> },
    Destroy,
}

impl TextInputState {
    /// The state in which nothing has been asked for.
    pub open spec fn empty() -> TextInputState {
        TextInputState {
            enable: None,
            surrounding_text: None,
            content_type: None,
            cursor_rectangle: None,
            text_change_cause: None,
        }
    }

    /// The state after `request` was noted in it. Requests that set nothing
    /// leave it as it was.
    pub open spec fn staged(self, request: TextInputRequest) -> TextInputState {
        match request {
            TextInputRequest::Enable => TextInputState { enable: Some(true), ..self },
            TextInputRequest::Disable => TextInputState { enable: Some(false), ..self },
            TextInputRequest::SetSurroundingText { text, cursor, anchor } => TextInputState {
                surrounding_text: Some((text, cursor, anchor)),
                ..self
            },
            TextInputRequest::SetTextChangeCause { cause } => TextInputState {
                text_change_cause: Some(cause),
                ..self
            },
            TextInputRequest::SetContentType { hint, purpose } => TextInputState {
                content_type: Some((hint, purpose)),
                ..self
            },
            TextInputRequest::SetCursorRectangle { x, y, width, height } => TextInputState {
                cursor_rectangle: Some(Rectangle { x, y, width, height }),
                ..self
            },
            _ => self,
        }
    }

    /// A state in which nothing has been asked for.
    pub fn new() -> (state: TextInputState)
        ensures
            state == TextInputState::empty(),
    {
        TextInputState {
            enable: None,
            surrounding_text: None,
            content_type: None,
            cursor_rectangle: None,
            text_change_cause: None,
        }
    }

    /// Notes `request` in the state.
    pub fn stage(&mut self, request: TextInputRequest)
        ensures
            *final(self) == old(self).staged(request),
    {
        match request {
            TextInputRequest::Enable => {
                self.enable = Some(true);
            },
            TextInputRequest::Disable => {
                self.enable = Some(false);
            },
            TextInputRequest::SetSurroundingText { text, cursor, anchor } => {
                self.surrounding_text = Some((text, cursor, anchor));
            },
            TextInputRequest::SetTextChangeCause { cause } => {
                self.text_change_cause = Some(cause);
            },
            TextInputRequest::SetContentType { hint, purpose } => {
                self.content_type = Some((hint, purpose));
            },
            TextInputRequest::SetCursorRectangle { x, y, width, height } => {
                self.cursor_rectangle = Some(Rectangle { x, y, width, height });
            },
            _ => {},
        }
    }
}

impl Default for TextInputState {
    fn default() -> (state: TextInputState)
        ensures
            state == TextInputState::empty(),
    {
        TextInputState::new()
    }
}

/// One text-input object.
#[derive(Debug, PartialEq, Eq)]
pub struct Instance {
    /// The object, and with it the client that owns it.
    pub instance: ObjectId,
    /// Number of commits that the object has made.
    pub serial: u32,
    /// The application that the object belongs to.
    pub app_id: String,
    /// Routing id of the input method that serves the object.
    pub im_app_id: Option<String>,
    /// What the object has asked for since its last commit.
    pub pending_state: TextInputState,
}

/// The objects that are `id`.
pub open spec fn named(id: ObjectId) -> spec_fn(Instance) -> bool {
    |instance: Instance| instance.instance == id
}

/// The objects that are not `id`.
pub open spec fn not_named(id: ObjectId) -> spec_fn(Instance) -> bool {
    |instance: Instance| instance.instance != id
}

/// The objects of the client that owns `other`.
pub open spec fn of_client(other: ObjectId) -> spec_fn(Instance) -> bool {
    |instance: Instance| instance.instance.same_client(other)
}

/// The object `id`, provided that it belongs to the client that owns `surface`.
pub open spec fn named_in_client(id: ObjectId, surface: ObjectId) -> spec_fn(Instance) -> bool {
    |instance: Instance| instance.instance.same_client(surface) && instance.instance == id
}

/// The pairs of a table whose key reads `key`.
pub open spec fn keyed(key: Seq<char>) -> spec_fn((String, String)) -> bool {
    |pair: (String, String)| pair.0@ == key
}

/// `enter` for an object whose client owns `surface`.
pub open spec fn entering(surface: ObjectId) -> spec_fn(Instance) -> Action {
    |instance: Instance| to_text_input(instance.instance, TextInputEvent::Enter { surface })
}

/// `leave` for an object whose client owns `surface`.
pub open spec fn leaving(surface: ObjectId) -> spec_fn(Instance) -> Action {
    |instance: Instance| to_text_input(instance.instance, TextInputEvent::Leave { surface })
}

/// An object with the number of its commits.
pub open spec fn target_of() -> spec_fn(Instance) -> (ObjectId, u32) {
    |instance: Instance| (instance.instance, instance.serial)
}

/// An object.
pub open spec fn id_of() -> spec_fn(Instance) -> ObjectId {
    |instance: Instance| instance.instance
}

/// The object as `table` binds it: to the value of the first pair whose key
/// reads as the application of the object, and as before where there is none.
pub open spec fn rebound(table: Seq<(String, String)>) -> spec_fn(Instance) -> Instance {
    |instance: Instance|
        match first_match(table, keyed(instance.app_id@)) {
            Some(pair) => Instance { im_app_id: Some(pair.1), ..instance },
            None => instance,
        }
}

/// The object without its input method, where that reads `app_id`.
pub open spec fn unbound(app_id: Seq<char>) -> spec_fn(Instance) -> Instance {
    |instance: Instance|
        match instance.im_app_id {
            Some(bound) if bound@ == app_id => Instance { im_app_id: None, ..instance },
            _ => instance,
        }
}

/// The object with the input method `app_id`, where it belongs to the client
/// that owns `surface` and had none.
pub open spec fn adopting(surface: ObjectId, app_id: String) -> spec_fn(Instance) -> Instance {
    |instance: Instance|
        if instance.instance.same_client(surface) && instance.im_app_id is None {
            Instance { im_app_id: Some(app_id), ..instance }
        } else {
            instance
        }
}

/// The objects of the client that owns `surface` which the input method
/// `app_id` serves.
pub open spec fn served_in_client(surface: ObjectId, app_id: Seq<char>) -> spec_fn(Instance) -> bool {
    |instance: Instance|
        instance.instance.same_client(surface) && (instance.im_app_id matches Some(bound)
            && bound@ == app_id)
}

/// The text-input objects of a seat as a value.
pub struct TextInput {
    /// The objects, in the order in which they were added.
    pub instances: Seq<Instance>,
    /// The surface that has the focus.
    pub focus: Option<Surface>,
    /// The object that is enabled, of which there is one at most.
    pub active_text_input_id: Option<ObjectId>,
}

impl TextInput {
    /// No object, no focus.
    pub open spec fn empty() -> TextInput {
        TextInput { instances: Seq::empty(), focus: None, active_text_input_id: None }
    }

    /// Place of the object `id`.
    pub open spec fn index_of(self, id: ObjectId) -> Option<int> {
        first_index(self.instances, named(id))
    }

    /// The object `id`.
    pub open spec fn instance_of(self, id: ObjectId) -> Option<Instance> {
        first_match(self.instances, named(id))
    }

    /// Whether the object `id` is among the objects.
    pub open spec fn tracks(self, id: ObjectId) -> bool {
        self.index_of(id) is Some
    }

    /// The active object is one of the objects.
    pub open spec fn wf(self) -> bool {
        self.active_text_input_id matches Some(id) ==> self.tracks(id)
    }

    /// Whether the object `id` is the enabled one.
    pub open spec fn is_active(self, id: ObjectId) -> bool {
        self.active_text_input_id == Some(id)
    }

    /// Whether the focus lies with the client that owns `id`.
    pub open spec fn focus_is_with(self, id: ObjectId) -> bool {
        self.focus matches Some(surface) && surface.id.same_client(id)
    }

    /// The objects of the client that has the focus, in their order; none
    /// where there is no focus or its surface is gone.
    pub open spec fn focused(self) -> Seq<Instance> {
        match live_surface(self.focus) {
            Some(surface) => self.instances.filter(of_client(surface.id)),
            None => Seq::empty(),
        }
    }

    /// The enabled object, where the focus lies with its client and the
    /// surface of the focus still exists.
    pub open spec fn active(self) -> Option<Instance> {
        match (self.active_text_input_id, live_surface(self.focus)) {
            (Some(id), Some(surface)) => first_match(
                self.instances,
                named_in_client(id, surface.id),
            ),
            _ => None,
        }
    }

    /// The first object of the client that has the focus.
    pub open spec fn first_focused(self) -> Option<Instance> {
        match live_surface(self.focus) {
            Some(surface) => first_match(self.instances, of_client(surface.id)),
            None => None,
        }
    }

    /// Number of commits of the first object of the client that has the
    /// focus, 0 where there is none.
    pub open spec fn serial(self) -> u32 {
        match self.first_focused() {
            Some(instance) => instance.serial,
            None => 0,
        }
    }

    /// Input method of the first object of the client that has the focus.
    pub open spec fn im_app_id(self) -> Option<String> {
        match self.first_focused() {
            Some(instance) => instance.im_app_id,
            None => None,
        }
    }

    /// The serial for a key event: that of the active object, `default`
    /// where there is none.
    pub open spec fn serial_or(self, default: u32) -> u32 {
        match self.active() {
            Some(instance) => instance.serial,
            None => default,
        }
    }

    /// Input method of the object `id`.
    pub open spec fn input_method_of(self, id: ObjectId) -> Option<String> {
        match self.instance_of(id) {
            Some(instance) => instance.im_app_id,
            None => None,
        }
    }

    /// Input method of the enabled object.
    pub open spec fn active_input_method(self) -> Option<String> {
        match self.active_text_input_id {
            Some(id) => self.input_method_of(id),
            None => None,
        }
    }

    /// What the object `id` has asked for since its last commit.
    pub open spec fn pending_of(self, id: ObjectId) -> Option<TextInputState> {
        match self.instance_of(id) {
            Some(instance) => Some(instance.pending_state),
            None => None,
        }
    }

    /// Whether a commit of the object `id` can be counted.
    pub open spec fn can_count_commit(self, id: ObjectId) -> bool {
        self.instance_of(id) matches Some(instance) ==> instance.serial < u32::MAX
    }

    /// With the objects replaced.
    pub open spec fn with_instances(self, instances: Seq<Instance>) -> TextInput {
        TextInput { instances, ..self }
    }

    /// With a new object, which has made no commit and asked for nothing.
    pub open spec fn added(self, id: ObjectId, app_id: String, im_app_id: Option<String>) -> TextInput {
        self.with_instances(
            self.instances.push(
                Instance {
                    instance: id,
                    serial: 0,
                    app_id,
                    im_app_id,
                    pending_state: TextInputState::empty(),
                },
            ),
        )
    }

    /// With the object at `index` replaced.
    pub open spec fn updated(self, index: int, instance: Instance) -> TextInput {
        self.with_instances(self.instances.update(index, instance))
    }

    /// With one more commit counted for the object `id`.
    pub open spec fn counted(self, id: ObjectId) -> TextInput {
        match self.index_of(id) {
            Some(index) => self.updated(
                index,
                Instance {
                    serial: (self.instances[index].serial + 1) as u32,
                    ..self.instances[index]
                },
            ),
            None => self,
        }
    }

    /// With the object `id` bound to `im_app_id`.
    pub open spec fn bound(self, id: ObjectId, im_app_id: Option<String>) -> TextInput {
        match self.index_of(id) {
            Some(index) => self.updated(index, Instance { im_app_id, ..self.instances[index] }),
            None => self,
        }
    }

    /// With `pending_state` as what the object `id` has asked for.
    pub open spec fn with_pending(self, id: ObjectId, pending_state: TextInputState) -> TextInput {
        match self.index_of(id) {
            Some(index) => self.updated(
                index,
                Instance { pending_state, ..self.instances[index] },
            ),
            None => self,
        }
    }

    /// With `request` noted for the object `id`.
    pub open spec fn staged(self, id: ObjectId, request: TextInputRequest) -> TextInput {
        match self.instance_of(id) {
            Some(instance) => self.with_pending(id, instance.pending_state.staged(request)),
            None => self,
        }
    }

    /// With `focus` as the surface that has the focus.
    pub open spec fn focused_on(self, focus: Option<Surface>) -> TextInput {
        TextInput { focus, ..self }
    }

    /// With `active` as the enabled object.
    pub open spec fn with_active(self, active: Option<ObjectId>) -> TextInput {
        TextInput { active_text_input_id: active, ..self }
    }

    /// `enter` for each object of the client that has the focus.
    pub open spec fn enter_actions(self) -> Seq<Action> {
        match live_surface(self.focus) {
            Some(surface) => self.focused().map_values(entering(surface.id)),
            None => Seq::empty(),
        }
    }

    /// `leave` for each object of the client that has the focus.
    pub open spec fn leave_actions(self) -> Seq<Action> {
        match live_surface(self.focus) {
            Some(surface) => self.focused().map_values(leaving(surface.id)),
            None => Seq::empty(),
        }
    }

    /// `done` for the active object: with the number of its commits, or with
    /// 0 where the client is to discard what it assumed.
    pub open spec fn done_actions(self, discard_state: bool) -> Seq<Action> {
        match self.active() {
            Some(instance) => seq![
                to_text_input(
                    instance.instance,
                    TextInputEvent::Done {
                        serial: if discard_state {
                            0
                        } else {
                            instance.serial
                        },
                    },
                ),
            ],
            None => Seq::empty(),
        }
    }

    /// With each object bound as `table` says.
    pub open spec fn rebound(self, table: Seq<(String, String)>) -> TextInput {
        self.with_instances(self.instances.map_values(rebound(table)))
    }

    /// With no object bound to the input method `app_id` any more, and with
    /// no enabled object where that input method was the current one.
    pub open spec fn without_input_method(self, app_id: Seq<char>, was_current: bool) -> TextInput {
        TextInput {
            instances: self.instances.map_values(unbound(app_id)),
            focus: self.focus,
            active_text_input_id: if was_current {
                None
            } else {
                self.active_text_input_id
            },
        }
    }

    /// Without the object `id`, which is then not the enabled one either.
    pub open spec fn without(self, id: ObjectId) -> TextInput {
        TextInput {
            instances: self.instances.filter(not_named(id)),
            focus: self.focus,
            active_text_input_id: if self.active_text_input_id == Some(id) {
                None
            } else {
                self.active_text_input_id
            },
        }
    }

    /// With the input method `app_id` for each object of the client that has
    /// the focus and that had none.
    pub open spec fn adopted(self, app_id: &String) -> TextInput {
        match live_surface(self.focus) {
            Some(surface) => self.with_instances(
                self.instances.map_values(adopting(surface.id, *app_id)),
            ),
            None => self,
        }
    }

    /// `enter` for each object of the client that has the focus which the
    /// input method `app_id` serves.
    pub open spec fn welcome_actions(self, app_id: Seq<char>) -> Seq<Action> {
        match live_surface(self.focus) {
            Some(surface) => self.instances.filter(
                served_in_client(surface.id, app_id),
            ).map_values(entering(surface.id)),
            None => Seq::empty(),
        }
    }

    /// Whether the client that owns `id` holds the focus, or nobody does.
    pub open spec fn destroyed_focused(self, id: ObjectId) -> bool {
        match self.focus {
            Some(surface) => surface.id.same_client(id),
            None => true,
        }
    }

    /// The input method to deactivate when the object `id` goes: the one it
    /// was bound to, provided that its client holds the focus (or nobody
    /// does) and has no other object left.
    pub open spec fn deactivated_with(self, id: ObjectId) -> Option<String> {
        if self.destroyed_focused(id) && self.without(id).instances.filter(of_client(id)).len()
            == 0 {
            self.input_method_of(id)
        } else {
            None
        }
    }
}

/// Handle to the text-input objects of a seat.
#[derive(Debug)]
pub struct TextInputHandle {
    instances: Vec<Instance>,
    focus: Option<Surface>,
    active_text_input_id: Option<ObjectId>,
}

impl View for TextInputHandle {
    type V = TextInput;

    closed spec fn view(&self) -> TextInput {
        TextInput {
            instances: self.instances@,
            focus: self.focus,
            active_text_input_id: self.active_text_input_id,
        }
    }
}

impl TextInputHandle {
    /// A handle with no object and no focus.
    pub fn new() -> (handle: TextInputHandle)
        ensures
            handle@ == TextInput::empty(),
            handle@.wf(),
    {
        TextInputHandle { instances: Vec::new(), focus: None, active_text_input_id: None }
    }

    /// Place of the object `id`.
    fn position(&self, id: ObjectId) -> (index: Option<usize>)
        ensures
            match index {
                Some(index) => self@.index_of(id) == Some(index as int) && index
                    < self@.instances.len() && self@.instances[index as int].instance == id
                    && self@.instance_of(id) == Some(self@.instances[index as int]),
                None => self@.index_of(id) is None && self@.instance_of(id) is None,
            },
    {
        let len: usize = self.instances.len();
        let mut index: usize = 0;
        while index < len
            invariant
                len == self.instances@.len(),
                index <= len,
                forall|earlier: int|
                    0 <= earlier < index ==> !named(id)(#[trigger] self.instances@[earlier]),
            decreases len - index,
        {
            if self.instances[index].instance == id {
                proof {
                    assert(is_first(self.instances@, named(id), index as int));
                    lemma_first_index_is(self.instances@, named(id), index as int);
                }
                return Some(index);
            }
            index = index + 1;
        }
        proof {
            lemma_first_index_none(self.instances@, named(id));
        }
        None
    }

    /// Place of the first object of the client that owns `surface`.
    fn position_in_client(&self, surface: ObjectId) -> (index: Option<usize>)
        ensures
            match index {
                Some(index) => index < self@.instances.len() && first_match(
                    self@.instances,
                    of_client(surface),
                ) == Some(self@.instances[index as int]),
                None => first_match(self@.instances, of_client(surface)) is None,
            },
    {
        let len: usize = self.instances.len();
        let mut index: usize = 0;
        while index < len
            invariant
                len == self.instances@.len(),
                index <= len,
                forall|earlier: int|
                    0 <= earlier < index ==> !of_client(surface)(
                        #[trigger] self.instances@[earlier],
                    ),
            decreases len - index,
        {
            if self.instances[index].instance.same_client_as(&surface) {
                proof {
                    assert(is_first(self.instances@, of_client(surface), index as int));
                    lemma_first_index_is(self.instances@, of_client(surface), index as int);
                }
                return Some(index);
            }
            index = index + 1;
        }
        proof {
            lemma_first_index_none(self.instances@, of_client(surface));
        }
        None
    }

    /// Place of the enabled object, where the focus lies with its client and
    /// the surface of the focus still exists.
    fn position_of_active(&self) -> (index: Option<usize>)
        ensures
            match index {
                Some(index) => index < self@.instances.len() && self@.active() == Some(
                    self@.instances[index as int],
                ),
                None => self@.active() is None,
            },
    {
        let id: ObjectId = match self.active_text_input_id {
            Some(id) => id,
            None => {
                return None;
            },
        };
        let surface: Surface = match self.focus {
            Some(surface) => surface,
            None => {
                return None;
            },
        };
        if !surface.alive {
            return None;
        }
        let len: usize = self.instances.len();
        let mut index: usize = 0;
        while index < len
            invariant
                len == self.instances@.len(),
                index <= len,
                self.active_text_input_id == Some(id),
                self.focus == Some(surface),
                surface.alive,
                forall|earlier: int|
                    0 <= earlier < index ==> !named_in_client(id, surface.id)(
                        #[trigger] self.instances@[earlier],
                    ),
            decreases len - index,
        {
            if self.instances[index].instance.same_client_as(&surface.id)
                && self.instances[index].instance == id {
                proof {
                    assert(is_first(self.instances@, named_in_client(id, surface.id), index as int));
                    lemma_first_index_is(
                        self.instances@,
                        named_in_client(id, surface.id),
                        index as int,
                    );
                }
                return Some(index);
            }
            index = index + 1;
        }
        proof {
            lemma_first_index_none(self.instances@, named_in_client(id, surface.id));
        }
        None
    }

    /// Registers a new object, which has made no commit yet.
    pub fn add_instance(&mut self, instance: ObjectId, app_id: String, im_app_id: Option<String>)
        requires
            old(self)@.wf(),
        ensures
            final(self)@ == old(self)@.added(instance, app_id, im_app_id),
            final(self)@.wf(),
    {
        self.instances.push(
            Instance {
                instance,
                serial: 0,
                app_id,
                im_app_id,
                pending_state: TextInputState::new(),
            },
        );
        proof {
            lemma_push_keeps_places(old(self)@, final(self)@);
        }
    }

    /// Whether the object `id` is registered.
    pub fn has_instance(&self, id: ObjectId) -> (known: bool)
        ensures
            known == self@.tracks(id),
    {
        self.position(id).is_some()
    }

    /// Number of commits of the object `id`.
    pub fn instance_serial(&self, id: ObjectId) -> (serial: Option<u32>)
        ensures
            serial == match self@.instance_of(id) {
                Some(instance) => Some(instance.serial),
                None => None,
            },
    {
        match self.position(id) {
            Some(index) => Some(self.instances[index].serial),
            None => None,
        }
    }

    /// Counts a commit of the object `text_input`.
    pub fn increment_serial(&mut self, text_input: ObjectId)
        requires
            old(self)@.wf(),
            old(self)@.can_count_commit(text_input),
        ensures
            final(self)@ == old(self)@.counted(text_input),
            final(self)@.wf(),
    {
        match self.position(text_input) {
            Some(index) => {
                self.instances[index].serial = self.instances[index].serial + 1;
                proof {
                    lemma_same_objects_keep_places(old(self)@, final(self)@);
                }
            },
            None => {},
        }
    }

    /// Binds the object `text_input_id` to the input method `input_method`.
    /// Tells whether there is such an object.
    pub fn set_input_method(&mut self, text_input_id: ObjectId, input_method: String) -> (found: bool)
        requires
            old(self)@.wf(),
        ensures
            found == old(self)@.tracks(text_input_id),
            final(self)@ == old(self)@.bound(text_input_id, Some(input_method)),
            final(self)@.wf(),
    {
        match self.position(text_input_id) {
            Some(index) => {
                self.instances[index].im_app_id = Some(input_method);
                proof {
                    lemma_same_objects_keep_places(old(self)@, final(self)@);
                }
                true
            },
            None => false,
        }
    }

    /// The input method that the object `text_input_id` is bound to.
    pub fn get_input_method(&self, text_input_id: &ObjectId) -> (input_method: Option<String>)
        ensures
            input_method == self@.input_method_of(*text_input_id),
    {
        match self.position(*text_input_id) {
            Some(index) => clone_optional(&self.instances[index].im_app_id),
            None => None,
        }
    }

    /// The input method that the enabled object is bound to.
    pub fn get_active_input_method(&self) -> (input_method: Option<String>)
        ensures
            input_method == self@.active_input_method(),
    {
        match self.active_text_input_id {
            Some(id) => self.get_input_method(&id),
            None => None,
        }
    }

    /// The enabled object.
    pub fn active_text_input(&self) -> (active: Option<ObjectId>)
        ensures
            active == self@.active_text_input_id,
    {
        self.active_text_input_id
    }

    /// Makes `active` the enabled object.
    pub fn set_active_text_input(&mut self, active: Option<ObjectId>)
        requires
            old(self)@.wf(),
            active matches Some(id) ==> old(self)@.tracks(id),
        ensures
            final(self)@ == old(self)@.with_active(active),
            final(self)@.wf(),
    {
        self.active_text_input_id = active;
    }

    /// The surface that has the focus.
    pub fn focus(&self) -> (focus: Option<Surface>)
        ensures
            focus == self@.focus,
    {
        self.focus
    }

    /// Moves the focus to `surface`. Sends neither `enter` nor `leave`.
    pub fn set_focus(&mut self, surface: Option<Surface>)
        requires
            old(self)@.wf(),
        ensures
            final(self)@ == old(self)@.focused_on(surface),
            final(self)@.wf(),
    {
        self.focus = surface;
    }

    /// The objects of the client that has the focus, each with the number of
    /// its commits.
    pub fn with_focused_instance(&self) -> (targets: Vec<(ObjectId, u32)>)
        ensures
            targets@ == self@.focused().map_values(target_of()),
    {
        let mut targets: Vec<(ObjectId, u32)> = Vec::new();
        let surface: Surface = match self.focus {
            Some(surface) => surface,
            None => {
                assert(targets@ =~= self@.focused().map_values(target_of()));
                return targets;
            },
        };
        if !surface.alive {
            assert(targets@ =~= self@.focused().map_values(target_of()));
            return targets;
        }
        let len: usize = self.instances.len();
        let mut index: usize = 0;
        assert(self.instances@.take(0) =~= Seq::<Instance>::empty());
        assert(targets@ =~= self.instances@.take(0).filter(of_client(surface.id)).map_values(
            target_of(),
        ));
        while index < len
            invariant
                len == self.instances@.len(),
                index <= len,
                targets@ == self.instances@.take(index as int).filter(
                    of_client(surface.id),
                ).map_values(target_of()),
            decreases len - index,
        {
            let ghost before = self.instances@.take(index as int);
            let ghost next = self.instances@[index as int];
            proof {
                assert(self.instances@.take(index + 1) =~= before.push(next));
                before.lemma_filter_push(next, of_client(surface.id));
            }
            if self.instances[index].instance.same_client_as(&surface.id) {
                targets.push((self.instances[index].instance, self.instances[index].serial));
                proof {
                    before.filter(of_client(surface.id)).lemma_push_map_commute(target_of(), next);
                }
            }
            index = index + 1;
        }
        assert(self.instances@.take(len as int) =~= self.instances@);
        targets
    }

    /// The objects of the client that has the focus.
    pub fn with_focused_text_input(&self) -> (targets: Vec<ObjectId>)
        ensures
            targets@ == self@.focused().map_values(id_of()),
    {
        let found: Vec<(ObjectId, u32)> = self.with_focused_instance();
        let mut targets: Vec<ObjectId> = Vec::new();
        let mut index: usize = 0;
        while index < found.len()
            invariant
                index <= found.len(),
                found@ == self@.focused().map_values(target_of()),
                targets@.len() == index,
                forall|k: int| 0 <= k < index ==> targets@[k] == self@.focused()[k].instance,
            decreases found.len() - index,
        {
            targets.push(found[index].0);
            index = index + 1;
        }
        assert(targets@ =~= self@.focused().map_values(id_of()));
        targets
    }

    /// The enabled object, where the focus lies with its client and the
    /// surface of the focus still exists.
    pub fn with_active_text_input(&self) -> (target: Option<ObjectId>)
        ensures
            target == match self@.active() {
                Some(instance) => Some(instance.instance),
                None => None,
            },
    {
        match self.position_of_active() {
            Some(index) => Some(self.instances[index].instance),
            None => None,
        }
    }

    /// The serial for a key event: the number of commits of the active
    /// object, and `default` where there is none.
    pub fn active_text_input_serial_or_default(&self, default: u32) -> (serial: u32)
        ensures
            serial == self@.serial_or(default),
    {
        match self.position_of_active() {
            Some(index) => self.instances[index].serial,
            None => default,
        }
    }

    /// Number of commits of the first object of the client that has the
    /// focus, 0 where there is none.
    pub fn serial(&self) -> (serial: u32)
        ensures
            serial == self@.serial(),
    {
        match self.focus {
            Some(surface) => {
                if !surface.alive {
                    return 0;
                }
                match self.position_in_client(surface.id) {
                    Some(index) => self.instances[index].serial,
                    None => 0,
                }
            },
            None => 0,
        }
    }

    /// Input method of the first object of the client that has the focus.
    pub fn im_app_id(&self) -> (im_app_id: Option<String>)
        ensures
            im_app_id == self@.im_app_id(),
    {
        match self.focus {
            Some(surface) => {
                if !surface.alive {
                    return None;
                }
                match self.position_in_client(surface.id) {
                    Some(index) => clone_optional(&self.instances[index].im_app_id),
                    None => None,
                }
            },
            None => None,
        }
    }

    /// `enter` for each object of the client that has the focus.
    pub fn enter(&self) -> (actions: Vec<Action>)
        ensures
            actions@ == self@.enter_actions(),
    {
        let mut actions: Vec<Action> = Vec::new();
        let surface: Surface = match self.focus {
            Some(surface) => surface,
            None => {
                return actions;
            },
        };
        let found: Vec<(ObjectId, u32)> = self.with_focused_instance();
        let mut index: usize = 0;
        while index < found.len()
            invariant
                index <= found.len(),
                found@ == self@.focused().map_values(target_of()),
                actions@.len() == index,
                forall|k: int|
                    0 <= k < index ==> actions@[k] == entering(surface.id)(self@.focused()[k]),
            decreases found.len() - index,
        {
            actions.push(
                Action::TextInput {
                    instance: found[index].0,
                    event: TextInputEvent::Enter { surface: surface.id },
                },
            );
            index = index + 1;
        }
        assert(actions@ =~= self@.enter_actions());
        actions
    }

    /// `leave` for each object of the client that has the focus. No object
    /// is enabled afterwards.
    pub fn leave(&mut self) -> (actions: Vec<Action>)
        requires
            old(self)@.wf(),
        ensures
            actions@ == old(self)@.leave_actions(),
            final(self)@ == old(self)@.with_active(None),
            final(self)@.wf(),
    {
        self.active_text_input_id = None;
        let mut actions: Vec<Action> = Vec::new();
        let surface: Surface = match self.focus {
            Some(surface) => surface,
            None => {
                return actions;
            },
        };
        let found: Vec<(ObjectId, u32)> = self.with_focused_instance();
        let mut index: usize = 0;
        while index < found.len()
            invariant
                index <= found.len(),
                found@ == self@.focused().map_values(target_of()),
                actions@.len() == index,
                forall|k: int|
                    0 <= k < index ==> actions@[k] == leaving(surface.id)(self@.focused()[k]),
            decreases found.len() - index,
        {
            actions.push(
                Action::TextInput {
                    instance: found[index].0,
                    event: TextInputEvent::Leave { surface: surface.id },
                },
            );
            index = index + 1;
        }
        assert(actions@ =~= old(self)@.leave_actions());
        actions
    }

    /// `done` for the active object. With `discard_state` it carries serial
    /// 0, which makes the client discard what it assumed.
    pub fn done(&self, discard_state: bool) -> (actions: Vec<Action>)
        ensures
            actions@ == self@.done_actions(discard_state),
    {
        let mut actions: Vec<Action> = Vec::new();
        match self.position_of_active() {
            Some(index) => {
                let serial: u32 = if discard_state {
                    0
                } else {
                    self.instances[index].serial
                };
                actions.push(
                    Action::TextInput {
                        instance: self.instances[index].instance,
                        event: TextInputEvent::Done { serial },
                    },
                );
                assert(actions@ =~= self@.done_actions(discard_state));
            },
            None => {},
        }
        actions
    }
}

/// Appending an object keeps the enabled object among the objects.
pub proof fn lemma_push_keeps_places(before: TextInput, after: TextInput)
    requires
        before.wf(),
        after.instances.len() == before.instances.len() + 1,
        forall|index: int|
            0 <= index < before.instances.len() ==> after.instances[index]
                == before.instances[index],
        after.active_text_input_id == before.active_text_input_id,
    ensures
        after.wf(),
{
    if let Some(id) = before.active_text_input_id {
        lemma_first_index_sound(before.instances, named(id));
        let index = first_index(before.instances, named(id)).unwrap();
        assert(is_first(after.instances, named(id), index));
        lemma_first_index_is(after.instances, named(id), index);
    }
}

/// Where every place holds the same object as before, every object is found
/// at the place where it was.
pub proof fn lemma_same_objects_keep_places(before: TextInput, after: TextInput)
    requires
        after.instances.len() == before.instances.len(),
        forall|place: int|
            0 <= place < before.instances.len() ==> (#[trigger] after.instances[place]).instance
                == before.instances[place].instance,
    ensures
        forall|id: ObjectId| after.index_of(id) == before.index_of(id),
        before.wf() && after.active_text_input_id == before.active_text_input_id ==> after.wf(),
{
    assert forall|id: ObjectId| after.index_of(id) == before.index_of(id) by {
        lemma_first_index_sound(before.instances, named(id));
        match first_index(before.instances, named(id)) {
            Some(place) => {
                assert(is_first(after.instances, named(id), place)) by {
                    assert forall|earlier: int| 0 <= earlier < place implies !named(id)(
                        #[trigger] after.instances[earlier],
                    ) by {
                        assert(!named(id)(before.instances[earlier]));
                    }
                }
                lemma_first_index_is(after.instances, named(id), place);
            },
            None => {
                assert forall|place: int| 0 <= place < after.instances.len() implies !named(id)(
                    #[trigger] after.instances[place],
                ) by {
                    assert(!named(id)(before.instances[place]));
                }
                lemma_first_index_none(after.instances, named(id));
            },
        }
    }
}

/// An object other than `id` that was among the objects still is when `id`
/// has gone.
pub proof fn lemma_without_keeps_others(before: TextInput, id: ObjectId, other: ObjectId)
    requires
        before.tracks(other),
        other != id,
    ensures
        before.without(id).tracks(other),
{
    lemma_first_index_sound(before.instances, named(other));
    let place = first_index(before.instances, named(other)).unwrap();
    let kept = before.instances.filter(not_named(id));
    before.instances.lemma_filter_contains(not_named(id), place);
    let at = choose|at: int| 0 <= at < kept.len() && kept[at] == before.instances[place];
    crate::search::lemma_some_match_has_first(kept, named(other), at);
    let first = choose|first: int| first <= at && is_first(kept, named(other), first);
    lemma_first_index_is(kept, named(other), first);
}

impl TextInputHandle {
    /// Notes `request` for the object `id`.
    pub fn stage(&mut self, id: ObjectId, request: TextInputRequest)
        requires
            old(self)@.wf(),
        ensures
            final(self)@ == old(self)@.staged(id, request),
            final(self)@.wf(),
    {
        match self.position(id) {
            Some(index) => {
                self.instances[index].pending_state.stage(request);
                proof {
                    lemma_same_objects_keep_places(old(self)@, final(self)@);
                    assert(final(self)@.instances =~= old(self)@.staged(id, request).instances);
                }
            },
            None => {},
        }
    }

    /// Takes what the object `id` has asked for since its last commit, and
    /// leaves it with nothing asked for.
    pub fn take_pending(&mut self, id: ObjectId) -> (pending_state: Option<TextInputState>)
        requires
            old(self)@.wf(),
        ensures
            pending_state == old(self)@.pending_of(id),
            final(self)@ == old(self)@.with_pending(id, TextInputState::empty()),
            final(self)@.wf(),
    {
        match self.position(id) {
            Some(index) => {
                let mut taken: TextInputState = TextInputState::new();
                std::mem::swap(&mut self.instances[index].pending_state, &mut taken);
                proof {
                    lemma_same_objects_keep_places(old(self)@, final(self)@);
                    assert(final(self)@.instances =~= old(self)@.with_pending(
                        id,
                        TextInputState::empty(),
                    ).instances);
                }
                Some(taken)
            },
            None => None,
        }
    }

    /// Binds each object as `ti_to_im_map` says: to the value of the first
    /// pair whose key is the application of the object. An object whose
    /// application has no pair stays as it is.
    pub fn set_im_app_id(&mut self, ti_to_im_map: Vec<(String, String)>)
        requires
            old(self)@.wf(),
        ensures
            final(self)@ == old(self)@.rebound(ti_to_im_map@),
            final(self)@.wf(),
    {
        let len: usize = self.instances.len();
        let mut index: usize = 0;
        while index < len
            invariant
                len == old(self).instances@.len(),
                len == self.instances@.len(),
                index <= len,
                self.focus == old(self).focus,
                self.active_text_input_id == old(self).active_text_input_id,
                forall|place: int|
                    0 <= place < index ==> self.instances@[place] == rebound(ti_to_im_map@)(
                        old(self).instances@[place],
                    ),
                forall|place: int|
                    index <= place < len ==> self.instances@[place] == old(self).instances@[place],
            decreases len - index,
        {
            let ghost key = self.instances@[index as int].app_id@;
            let pairs: usize = ti_to_im_map.len();
            let mut pair: usize = 0;
            let mut found: bool = false;
            while pair < pairs && !found
                invariant
                    pairs == ti_to_im_map@.len(),
                    pair <= pairs,
                    len == self.instances@.len(),
                    index < len,
                    key == self.instances@[index as int].app_id@,
                    !found ==> forall|earlier: int|
                        0 <= earlier < pair ==> !keyed(key)(#[trigger] ti_to_im_map@[earlier]),
                    found ==> pair < pairs && is_first(ti_to_im_map@, keyed(key), pair as int),
                decreases pairs - pair + (if found { 0int } else { 1int }),
            {
                if ti_to_im_map[pair].0 == self.instances[index].app_id {
                    found = true;
                } else {
                    pair = pair + 1;
                }
            }
            if found {
                proof {
                    lemma_first_index_is(ti_to_im_map@, keyed(key), pair as int);
                }
                self.instances[index].im_app_id = Some(ti_to_im_map[pair].1.clone());
            } else {
                proof {
                    lemma_first_index_none(ti_to_im_map@, keyed(key));
                }
            }
            index = index + 1;
        }
        proof {
            assert(final(self)@.instances =~= old(self)@.rebound(ti_to_im_map@).instances);
            lemma_same_objects_keep_places(old(self)@, final(self)@);
        }
    }

    /// Notes that the input method `app_id` is gone: no object stays bound
    /// to it. Where it was the current one, each object of the client that
    /// has the focus is told `leave`, and no object is enabled afterwards.
    pub fn input_method_destroyed(&mut self, app_id: &String, was_current: bool) -> (actions: Vec<
        Action,
    >)
        requires
            old(self)@.wf(),
        ensures
            final(self)@ == old(self)@.without_input_method(app_id@, was_current),
            actions@ == if was_current {
                final(self)@.leave_actions()
            } else {
                Seq::<Action>::empty()
            },
            final(self)@.wf(),
    {
        let len: usize = self.instances.len();
        let mut index: usize = 0;
        while index < len
            invariant
                len == old(self).instances@.len(),
                len == self.instances@.len(),
                index <= len,
                self.focus == old(self).focus,
                self.active_text_input_id == old(self).active_text_input_id,
                forall|place: int|
                    0 <= place < index ==> self.instances@[place] == unbound(app_id@)(
                        old(self).instances@[place],
                    ),
                forall|place: int|
                    index <= place < len ==> self.instances@[place] == old(self).instances@[place],
            decreases len - index,
        {
            let bound_here: bool = match &self.instances[index].im_app_id {
                Some(bound) => *bound == *app_id,
                None => false,
            };
            if bound_here {
                self.instances[index].im_app_id = None;
            }
            index = index + 1;
        }
        proof {
            assert(self@.instances =~= old(self)@.without_input_method(
                app_id@,
                was_current,
            ).instances);
            lemma_same_objects_keep_places(old(self)@, self@);
        }
        if was_current {
            self.leave()
        } else {
            Vec::new()
        }
    }

    /// Gives the objects of the client that has the focus, as far as they have
    /// no input method yet, the input method `app_id`, and tells `enter` to
    /// each object of that client that `app_id` then serves.
    pub fn adopt_input_method(&mut self, app_id: &String) -> (actions: Vec<Action>)
        requires
            old(self)@.wf(),
        ensures
            final(self)@ == old(self)@.adopted(app_id),
            actions@ == final(self)@.welcome_actions(app_id@),
            final(self)@.wf(),
    {
        let mut actions: Vec<Action> = Vec::new();
        let surface: Surface = match self.focus {
            Some(surface) => surface,
            None => {
                return actions;
            },
        };
        if !surface.alive {
            return actions;
        }
        let ghost adopt = adopting(surface.id, *app_id);
        let ghost served = served_in_client(surface.id, app_id@);
        let ghost welcome = entering(surface.id);
        let len: usize = self.instances.len();
        let mut index: usize = 0;
        assert(self.instances@.take(0) =~= Seq::<Instance>::empty());
        while index < len
            invariant
                len == old(self).instances@.len(),
                len == self.instances@.len(),
                index <= len,
                self.focus == old(self).focus,
                self.focus == Some(surface),
                surface.alive,
                self.active_text_input_id == old(self).active_text_input_id,
                adopt == adopting(surface.id, *app_id),
                served == served_in_client(surface.id, app_id@),
                welcome == entering(surface.id),
                forall|place: int|
                    0 <= place < index ==> self.instances@[place] == adopt(
                        old(self).instances@[place],
                    ),
                forall|place: int|
                    index <= place < len ==> self.instances@[place] == old(self).instances@[place],
                actions@ == self.instances@.take(index as int).filter(served).map_values(welcome),
            decreases len - index,
        {
            let ghost before = self.instances@.take(index as int);
            if self.instances[index].instance.same_client_as(&surface.id) {
                let serves: bool = match &self.instances[index].im_app_id {
                    Some(bound) => *bound == *app_id,
                    None => true,
                };
                if self.instances[index].im_app_id.is_none() {
                    self.instances[index].im_app_id = Some(app_id.clone());
                }
                if serves {
                    actions.push(
                        Action::TextInput {
                            instance: self.instances[index].instance,
                            event: TextInputEvent::Enter { surface: surface.id },
                        },
                    );
                }
            }
            proof {
                let next = self.instances@[index as int];
                assert(self.instances@.take(index as int) =~= before);
                assert(self.instances@.take(index + 1) =~= before.push(next));
                before.lemma_filter_push(next, served);
                if served(next) {
                    before.filter(served).lemma_push_map_commute(welcome, next);
                }
            }
            index = index + 1;
        }
        proof {
            assert(self.instances@.take(len as int) =~= self.instances@);
            assert(self@.instances =~= old(self)@.adopted(app_id).instances);
            lemma_same_objects_keep_places(old(self)@, self@);
        }
        actions
    }

    /// Forgets the object `text_input`. Hands back the input method to
    /// deactivate on that account: the one the object was bound to, where
    /// its client holds the focus (or nobody does) and has no other object
    /// left.
    pub fn destroyed(&mut self, text_input: ObjectId) -> (deactivate: Option<String>)
        requires
            old(self)@.wf(),
        ensures
            final(self)@ == old(self)@.without(text_input),
            deactivate == old(self)@.deactivated_with(text_input),
            final(self)@.wf(),
    {
        let bound: Option<String> = self.get_input_method(&text_input);
        let ghost all = self.instances@;
        let ghost keep = not_named(text_input);
        let ghost mates = of_client(text_input);
        let mut others: bool = false;
        let mut index: usize = 0;
        let mut seen: Ghost<int> = Ghost(0);
        assert(all.take(0) =~= Seq::<Instance>::empty());
        assert(self.instances@.take(0) =~= Seq::<Instance>::empty());
        assert(self.instances@.skip(0) =~= all.skip(0));
        while index < self.instances.len()
            invariant
                all == old(self).instances@,
                keep == not_named(text_input),
                mates == of_client(text_input),
                self.focus == old(self).focus,
                self.active_text_input_id == old(self).active_text_input_id,
                index <= self.instances@.len(),
                0 <= seen@ <= all.len(),
                self.instances@.len() - index == all.len() - seen@,
                self.instances@.take(index as int) == all.take(seen@).filter(keep),
                self.instances@.skip(index as int) == all.skip(seen@),
                others == (all.take(seen@).filter(keep).filter(mates).len() > 0),
            decreases self.instances@.len() - index,
        {
            let ghost kept = all.take(seen@).filter(keep);
            let ghost next = all[seen@];
            proof {
                assert(self.instances@.skip(index as int)[0] == next);
                assert(all.take(seen@ + 1) =~= all.take(seen@).push(next));
                all.take(seen@).lemma_filter_push(next, keep);
                kept.lemma_filter_push(next, mates);
            }
            if self.instances[index].instance == text_input {
                let ghost held = self.instances@;
                self.instances.remove(index);
                proof {
                    assert(self.instances@.take(index as int) =~= held.take(index as int));
                    assert forall|k: int| 0 <= k < all.len() - seen@ - 1 implies (
                    #[trigger] self.instances@.skip(index as int)[k]) == all.skip(seen@ + 1)[k] by {
                        assert(held.skip(index as int)[k + 1] == all.skip(seen@)[k + 1]);
                    }
                    assert(self.instances@.skip(index as int) =~= all.skip(seen@ + 1));
                }
            } else {
                if self.instances[index].instance.same_client_as(&text_input) {
                    others = true;
                }
                proof {
                    assert(self.instances@.take(index + 1) =~= kept.push(next));
                    assert forall|k: int| 0 <= k < all.len() - seen@ - 1 implies (
                    #[trigger] self.instances@.skip(index + 1)[k]) == all.skip(seen@ + 1)[k] by {
                        assert(self.instances@.skip(index as int)[k + 1] == all.skip(seen@)[k + 1]);
                    }
                    assert(self.instances@.skip(index + 1) =~= all.skip(seen@ + 1));
                }
                index = index + 1;
            }
            proof {
                seen@ = seen@ + 1;
            }
        }
        proof {
            assert(all.take(all.len() as int) =~= all);
            assert(self.instances@.take(index as int) =~= self.instances@);
        }
        let destroyed_focused: bool = match self.focus {
            Some(surface) => surface.id.same_client_as(&text_input),
            None => true,
        };
        let was_active: bool = match self.active_text_input_id {
            Some(active) => active == text_input,
            None => false,
        };
        if was_active {
            self.active_text_input_id = None;
        }
        proof {
            if let Some(active) = self.active_text_input_id {
                lemma_without_keeps_others(old(self)@, text_input, active);
            }
        }
        if destroyed_focused && !others {
            bound
        } else {
            None
        }
    }
}

impl Default for TextInputHandle {
    fn default() -> (handle: TextInputHandle)
        ensures
            handle@ == TextInput::empty(),
    {
        TextInputHandle::new()
    }
}

} // verus!
