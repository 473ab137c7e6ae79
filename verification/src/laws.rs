//! What holds of the bridge whatever its clients do.

use crate::coordinator::{
    committed, content_type_actions, cursor_rectangle_actions, evaluated, field_push, focus_moved,
    requested, silent, surrounding_text_actions, text_change_cause_actions, Outcome,
};
use crate::event::{
    key_actions, key_event, replay_actions, to_input_method, Action, InputMethodEvent,
};
use crate::input_method::{dismissal, InputMethod};
use crate::keyboard::{
    evicted, in_order_of_time, recorded, replayed, tagged, KeyRecord, BUFFERSIZE,
};
use crate::object::{ObjectId, Surface};
use crate::search::{first_index, is_first, lemma_first_index_is, lemma_first_index_sound};
use crate::text_input::{
    lemma_same_objects_keep_places, named, of_client, Instance, TextInput, TextInputRequest,
    TextInputState,
};
use vstd::prelude::*;

verus! {

/// Both sides of the seat after text-input objects have made `requests`, one
/// after another, and all that these asked the caller to do. Each request
/// comes with the object that makes it.
pub open spec fn run(
    text_input: TextInput,
    input_method: InputMethod,
    requests: Seq<(ObjectId, TextInputRequest)>,
) -> Outcome
    decreases requests.len(),
{
    if requests.len() == 0 {
        silent(text_input, input_method)
    } else {
        let before = run(text_input, input_method, requests.drop_last());
        let last = requested(
            before.text_input,
            before.input_method,
            requests.last().0,
            requests.last().1,
        );
        Outcome {
            text_input: last.text_input,
            input_method: last.input_method,
            actions: before.actions + last.actions,
        }
    }
}

/// Number of commits of the object `resource` among `requests`.
pub open spec fn commits(resource: ObjectId, requests: Seq<(ObjectId, TextInputRequest)>) -> nat
    decreases requests.len(),
{
    if requests.len() == 0 {
        0
    } else {
        commits(resource, requests.drop_last()) + if requests.last().0 == resource
            && requests.last().1 is Commit {
            1nat
        } else {
            0nat
        }
    }
}

/// Number of commits that the object `id` has made.
pub open spec fn serial_of(text_input: TextInput, id: ObjectId) -> int
    recommends
        text_input.tracks(id),
{
    text_input.instance_of(id).unwrap().serial as int
}

/// The log after each of `records` arrived in turn.
pub open spec fn recorded_all(log: Seq<KeyRecord>, records: Seq<KeyRecord>) -> Seq<KeyRecord>
    decreases records.len(),
{
    if records.len() == 0 {
        log
    } else {
        recorded(recorded_all(log, records.drop_last()), records.last())
    }
}

/// The last [`BUFFERSIZE`] of `records`, or all of them where they are fewer.
pub open spec fn latest(records: Seq<KeyRecord>) -> Seq<KeyRecord> {
    if records.len() > BUFFERSIZE {
        records.skip(records.len() - BUFFERSIZE)
    } else {
        records
    }
}

/// The actions that tell an input method `activate` or `deactivate`.
pub open spec fn activates_or_deactivates(action: Action) -> bool {
    action matches Action::InputMethod { event, .. } && (event is Activate || event is Deactivate)
}

/// The actions that show a key to an input method.
pub open spec fn shows_key() -> spec_fn(Action) -> bool {
    |action: Action|
        action matches Action::InputMethod { event, .. } && event is Key
}

/// What shows `record` to the input-method object `instance` under `serial`.
pub open spec fn showing(instance: ObjectId, serial: u32) -> spec_fn(KeyRecord) -> Action {
    |record: KeyRecord| to_input_method(instance, key_event(record, serial))
}

/// Replacing the object `id` by one of the same identity leaves it where it
/// was, and it is found as what it was replaced by. Every other object is
/// found as before.
proof fn lemma_replaced(text_input: TextInput, id: ObjectId, replacement: Instance)
    requires
        text_input.tracks(id),
        replacement.instance == id,
    ensures
        ({
            let index = text_input.index_of(id).unwrap();
            let after = text_input.updated(index, replacement);
            &&& 0 <= index < text_input.instances.len()
            &&& text_input.instance_of(id) == Some(text_input.instances[index])
            &&& after.index_of(id) == Some(index)
            &&& after.instance_of(id) == Some(replacement)
            &&& after.tracks(id)
            &&& forall|other: ObjectId|
                other != id ==> #[trigger] after.instance_of(other) == text_input.instance_of(other)
        }),
{
    lemma_first_index_sound(text_input.instances, named(id));
    let index = text_input.index_of(id).unwrap();
    let after = text_input.updated(index, replacement);
    lemma_same_objects_keep_places(text_input, after);
    assert forall|other: ObjectId| other != id implies #[trigger] after.instance_of(other)
        == text_input.instance_of(other) by {
        lemma_first_index_sound(text_input.instances, named(other));
        assert(after.index_of(other) == text_input.index_of(other));
        if let Some(place) = text_input.index_of(other) {
            assert(named(other)(text_input.instances[place]));
            assert(place != index);
        }
    }
}

/// What a commit does to its object before anything else is decided: the
/// commit is counted and what the object had asked for is taken from it.
/// Its input method stays, and so does every other object, the focus and the
/// enabled object.
proof fn lemma_commit_takes_pending(text_input: TextInput, resource: ObjectId)
    requires
        text_input.tracks(resource),
    ensures
        ({
            let instance = text_input.instance_of(resource).unwrap();
            let counted = text_input.counted(resource);
            let cleared = counted.with_pending(resource, TextInputState::empty());
            &&& counted.pending_of(resource) == Some(instance.pending_state)
            &&& cleared.tracks(resource)
            &&& cleared.input_method_of(resource) == instance.im_app_id
            &&& cleared.pending_of(resource) == Some(TextInputState::empty())
            &&& cleared.focus == text_input.focus
            &&& cleared.active_text_input_id == text_input.active_text_input_id
            &&& instance.serial < u32::MAX ==> serial_of(cleared, resource) == instance.serial + 1
            &&& forall|other: ObjectId|
                other != resource ==> #[trigger] cleared.instance_of(other)
                    == text_input.instance_of(other)
        }),
{
    let index = text_input.index_of(resource).unwrap();
    let instance = text_input.instances[index];
    lemma_replaced(text_input, resource, instance);
    let counted = text_input.counted(resource);
    let bumped = counted.instances[index];
    lemma_replaced(text_input, resource, bumped);
    let emptied = Instance { pending_state: TextInputState::empty(), ..bumped };
    lemma_replaced(counted, resource, emptied);
    let cleared = counted.with_pending(resource, TextInputState::empty());
    assert(cleared.instance_of(resource) == Some(emptied));
    assert forall|other: ObjectId| other != resource implies #[trigger] cleared.instance_of(other)
        == text_input.instance_of(other) by {
        assert(counted.instance_of(other) == text_input.instance_of(other));
    }
}

/// Whatever request a text-input object makes, the enabled object, of which
/// there is one at most, is afterwards one of the objects of the seat.
pub proof fn lemma_request_keeps_enabled_among_objects(
    text_input: TextInput,
    input_method: InputMethod,
    resource: ObjectId,
    request: TextInputRequest,
)
    requires
        text_input.wf(),
    ensures
        requested(text_input, input_method, resource, request).text_input.wf(),
{
    let after = requested(text_input, input_method, resource, request).text_input;
    if text_input.tracks(resource) {
        let instance = text_input.instance_of(resource).unwrap();
        lemma_commit_takes_pending(text_input, resource);
        let staged = Instance {
            pending_state: instance.pending_state.staged(request),
            ..instance
        };
        lemma_replaced(text_input, resource, staged);
        if let Some(enabled) = after.active_text_input_id {
            if enabled != resource {
                assert(text_input.active_text_input_id == Some(enabled));
                assert(after.instance_of(enabled) == text_input.instance_of(enabled));
            }
        }
    } else {
        assert(after == text_input);
    }
}

/// A request changes the number of commits of its object by one where it is
/// a commit, and not at all where it is not. It changes the number of
/// commits of no other object.
proof fn lemma_request_counts(
    text_input: TextInput,
    input_method: InputMethod,
    resource: ObjectId,
    request: TextInputRequest,
    counted: ObjectId,
)
    requires
        text_input.tracks(counted),
        counted == resource && request is Commit ==> serial_of(text_input, counted) < u32::MAX,
    ensures
        ({
            let after = requested(text_input, input_method, resource, request).text_input;
            &&& after.tracks(counted)
            &&& serial_of(after, counted) == serial_of(text_input, counted) + if counted
                == resource && request is Commit {
                1int
            } else {
                0int
            }
        }),
{
    let after = requested(text_input, input_method, resource, request).text_input;
    if text_input.tracks(resource) {
        let index = text_input.index_of(resource).unwrap();
        let instance = text_input.instances[index];
        lemma_replaced(text_input, resource, instance);
        if request is Commit {
            let once = text_input.counted(resource);
            let bumped = once.instances[index];
            lemma_replaced(text_input, resource, bumped);
            assert(once.instance_of(counted) == if counted == resource {
                Some(bumped)
            } else {
                text_input.instance_of(counted)
            });
            let cleared = once.with_pending(resource, TextInputState::empty());
            let emptied = Instance { pending_state: TextInputState::empty(), ..bumped };
            lemma_replaced(once, resource, emptied);
            assert(cleared.instance_of(counted) == if counted == resource {
                Some(emptied)
            } else {
                text_input.instance_of(counted)
            });
            assert(after.instances == cleared.instances);
            assert(after.instance_of(counted) == cleared.instance_of(counted));
        } else {
            let staged = Instance {
                pending_state: instance.pending_state.staged(request),
                ..instance
            };
            lemma_replaced(text_input, resource, staged);
            assert(after == text_input || after == text_input.staged(resource, request));
            assert(text_input.staged(resource, request).instance_of(counted) == if counted
                == resource {
                Some(staged)
            } else {
                text_input.instance_of(counted)
            });
        }
    } else {
        assert(after.instances == text_input.instances);
    }
}

/// Whatever requests the text-input objects of a seat make, and whatever
/// becomes of them, the number of commits of each object grows by the number
/// of its own commits among them.
pub proof fn lemma_serial_counts_commits(
    text_input: TextInput,
    input_method: InputMethod,
    resource: ObjectId,
    requests: Seq<(ObjectId, TextInputRequest)>,
)
    requires
        text_input.tracks(resource),
        serial_of(text_input, resource) + commits(resource, requests) <= u32::MAX,
    ensures
        run(text_input, input_method, requests).text_input.tracks(resource),
        serial_of(run(text_input, input_method, requests).text_input, resource) == serial_of(
            text_input,
            resource,
        ) + commits(resource, requests),
    decreases requests.len(),
{
    if requests.len() > 0 {
        lemma_serial_counts_commits(text_input, input_method, resource, requests.drop_last());
        let before = run(text_input, input_method, requests.drop_last());
        lemma_request_counts(
            before.text_input,
            before.input_method,
            requests.last().0,
            requests.last().1,
            resource,
        );
    }
}

/// An object that is new has made no commit, so that after any requests the
/// number of its commits is the number of its commits among them.
pub proof fn lemma_new_object_counts_commits(
    text_input: TextInput,
    input_method: InputMethod,
    resource: ObjectId,
    app_id: String,
    im_app_id: Option<String>,
    requests: Seq<(ObjectId, TextInputRequest)>,
)
    requires
        !text_input.tracks(resource),
        commits(resource, requests) <= u32::MAX,
    ensures
        serial_of(
            run(text_input.added(resource, app_id, im_app_id), input_method, requests).text_input,
            resource,
        ) == commits(resource, requests),
{
    let added = text_input.added(resource, app_id, im_app_id);
    let place = text_input.instances.len() as int;
    lemma_first_index_sound(text_input.instances, named(resource));
    assert(is_first(added.instances, named(resource), place));
    lemma_first_index_is(added.instances, named(resource), place);
    lemma_serial_counts_commits(added, input_method, resource, requests);
}

/// Two objects that are enabled are one object.
pub proof fn lemma_one_enabled(text_input: TextInput, one: ObjectId, other: ObjectId)
    requires
        text_input.is_active(one),
        text_input.is_active(other),
    ensures
        one == other,
{
}

/// While one object is enabled, a commit of another object that asks to be
/// enabled is dropped: the first object stays the enabled one, neither side
/// is told anything, and no other object is touched. The commit is counted
/// all the same, as far as the number of the commits can still grow.
pub proof fn lemma_enable_does_not_displace(
    text_input: TextInput,
    input_method: InputMethod,
    enabled: ObjectId,
    resource: ObjectId,
)
    requires
        text_input.is_active(enabled),
        resource != enabled,
        text_input.tracks(resource),
        text_input.pending_of(resource).unwrap().enable == Some(true),
    ensures
        committed(text_input, input_method, resource).text_input.is_active(enabled),
        committed(text_input, input_method, resource).input_method == input_method,
        committed(text_input, input_method, resource).actions == Seq::<Action>::empty(),
        forall|other: ObjectId|
            other != resource ==> #[trigger] committed(
                text_input,
                input_method,
                resource,
            ).text_input.instance_of(other) == text_input.instance_of(other),
        serial_of(text_input, resource) < u32::MAX ==> serial_of(
            committed(text_input, input_method, resource).text_input,
            resource,
        ) == serial_of(text_input, resource) + 1,
{
    lemma_commit_takes_pending(text_input, resource);
}

/// A commit of an object that asks to be enabled, while no object is enabled,
/// makes it the enabled one, provided that the focus lies with its client
/// and that its input method exists. That input method becomes the current
/// one. Its object is told `activate` first, and nothing that follows is
/// another `activate` or a `deactivate`.
pub proof fn lemma_enabling_commit_activates(
    text_input: TextInput,
    input_method: InputMethod,
    resource: ObjectId,
    app_id: String,
)
    requires
        text_input.tracks(resource),
        text_input.input_method_of(resource) == Some(app_id),
        input_method.serves(app_id@),
        text_input.focus_is_with(resource),
        text_input.active_text_input_id is None,
        text_input.pending_of(resource).unwrap().enable == Some(true),
    ensures
        ({
            let done = committed(text_input, input_method, resource);
            let target = input_method.instance_of(app_id@).unwrap().object;
            &&& done.text_input.active_text_input_id == Some(resource)
            &&& done.text_input.pending_of(resource) == Some(TextInputState::empty())
            &&& done.input_method.current == Some(app_id)
            &&& done.actions.len() >= 1
            &&& done.actions[0] == to_input_method(
                target,
                InputMethodEvent::Activate { app_id },
            )
            &&& forall|place: int|
                1 <= place < done.actions.len() ==> !activates_or_deactivates(
                    #[trigger] done.actions[place],
                )
        }),
{
    lemma_commit_takes_pending(text_input, resource);
    let instance = text_input.instance_of(resource).unwrap();
    let pending_state = instance.pending_state;
    let cleared = text_input.counted(resource).with_pending(resource, TextInputState::empty());
    let done = committed(text_input, input_method, resource);
    assert(done == evaluated(cleared, input_method, resource, app_id, pending_state));
    let target = input_method.instance_of(app_id@).unwrap().object;
    let told = input_method.activate_actions(app_id);
    let pushed = field_push(input_method, app_id@, pending_state);
    assert(done.actions == told + pushed);
    assert(told[0] == to_input_method(target, InputMethodEvent::Activate { app_id }));
    lemma_field_push_neither_activates_nor_deactivates(input_method, app_id@, pending_state);
    assert forall|place: int| 1 <= place < done.actions.len() implies !activates_or_deactivates(
        #[trigger] done.actions[place],
    ) by {
        if place < told.len() {
            assert(done.actions[place] == told[place]);
        } else {
            assert(done.actions[place] == pushed[place - told.len()]);
        }
    }
}

/// A commit of the enabled object that asks to be disabled leaves no object
/// enabled, provided that the focus lies with its client and that its input
/// method exists. The object of that input method is told `deactivate`, and
/// its popup is dismissed where it has one. It is told neither `done` nor
/// anything that the text field had asked for, and what the text field had
/// asked for is gone.
pub proof fn lemma_disabling_commit_deactivates(
    text_input: TextInput,
    input_method: InputMethod,
    resource: ObjectId,
    app_id: String,
)
    requires
        text_input.tracks(resource),
        text_input.is_active(resource),
        text_input.input_method_of(resource) == Some(app_id),
        input_method.serves(app_id@),
        text_input.focus_is_with(resource),
        text_input.pending_of(resource).unwrap().enable == Some(false),
    ensures
        ({
            let done = committed(text_input, input_method, resource);
            let instance = input_method.instance_of(app_id@).unwrap();
            &&& done.text_input.active_text_input_id is None
            &&& done.text_input.pending_of(resource) == Some(TextInputState::empty())
            &&& !done.input_method.is_current(app_id@)
            &&& done.actions == seq![
                to_input_method(instance.object, InputMethodEvent::Deactivate),
            ] + dismissal(instance.popup)
        }),
{
    lemma_commit_takes_pending(text_input, resource);
    let pending_state = text_input.instance_of(resource).unwrap().pending_state;
    let cleared = text_input.counted(resource).with_pending(resource, TextInputState::empty());
    let done = committed(text_input, input_method, resource);
    assert(done == evaluated(cleared, input_method, resource, app_id, pending_state));
    let instance = input_method.instance_of(app_id@).unwrap();
    assert(done.actions =~= seq![to_input_method(instance.object, InputMethodEvent::Deactivate)]
        + dismissal(instance.popup));
    assert(cleared.with_active(None).instance_of(resource) == cleared.instance_of(resource));
}

/// Among what a commit sends an input method of what its text field had
/// asked for, nothing is `activate` or `deactivate`.
proof fn lemma_field_push_neither_activates_nor_deactivates(
    input_method: InputMethod,
    app_id: Seq<char>,
    pending_state: TextInputState,
)
    ensures
        forall|place: int|
            0 <= place < field_push(input_method, app_id, pending_state).len()
                ==> !activates_or_deactivates(
                #[trigger] field_push(input_method, app_id, pending_state)[place],
            ),
{
    if let Some(instance) = input_method.instance_of(app_id) {
        let target = instance.object;
        let first = surrounding_text_actions(target, pending_state);
        let second = text_change_cause_actions(target, pending_state);
        let third = content_type_actions(target, pending_state);
        let fourth = cursor_rectangle_actions(target, pending_state);
        let last = seq![to_input_method(target, InputMethodEvent::Done)];
        let pushed = field_push(input_method, app_id, pending_state);
        assert(pushed == first + second + third + fourth + last);
        assert forall|place: int| 0 <= place < pushed.len() implies !activates_or_deactivates(
            #[trigger] pushed[place],
        ) by {
            let a = first.len() as int;
            let b = a + second.len();
            let c = b + third.len();
            let d = c + fourth.len();
            if place < a {
                assert(pushed[place] == first[place]);
            } else if place < b {
                assert(pushed[place] == second[place - a]);
            } else if place < c {
                assert(pushed[place] == third[place - b]);
            } else if place < d {
                assert(pushed[place] == fourth[place - c]);
            } else {
                assert(pushed[place] == last[place - d]);
            }
        }
    }
}

/// A request can enable no object but its own: afterwards no object is
/// enabled, or the object that was enabled before, or the object that made
/// the request.
pub proof fn lemma_request_enables_its_object_only(
    text_input: TextInput,
    input_method: InputMethod,
    resource: ObjectId,
    request: TextInputRequest,
)
    ensures
        ({
            let after = requested(text_input, input_method, resource, request).text_input;
            ||| after.active_text_input_id is None
            ||| after.active_text_input_id == text_input.active_text_input_id
            ||| after.active_text_input_id == Some(resource)
        }),
{
}

/// Whatever requests the text-input objects of a seat make, at no point two
/// of them are enabled.
pub proof fn lemma_one_enabled_throughout(
    text_input: TextInput,
    input_method: InputMethod,
    requests: Seq<(ObjectId, TextInputRequest)>,
    point: int,
    one: ObjectId,
    other: ObjectId,
)
    requires
        0 <= point <= requests.len(),
        run(text_input, input_method, requests.take(point)).text_input.is_active(one),
        run(text_input, input_method, requests.take(point)).text_input.is_active(other),
    ensures
        one == other,
{
}

/// A client is told `leave` when it loses the focus as many times as it has
/// text-input objects, and `enter` as many times when it gains the focus:
/// once for each object, in the order of the objects.
pub proof fn lemma_enter_leave_symmetry(text_input: TextInput, surface: Surface)
    requires
        text_input.focus == Some(surface),
        surface.alive,
    ensures
        text_input.enter_actions().len() == text_input.instances.filter(of_client(surface.id)).len(),
        text_input.leave_actions().len() == text_input.instances.filter(of_client(surface.id)).len(),
        forall|place: int|
            0 <= place < text_input.focused().len() ==> #[trigger] text_input.enter_actions()[place]
                == crate::text_input::entering(surface.id)(text_input.focused()[place]),
        forall|place: int|
            0 <= place < text_input.focused().len() ==> #[trigger] text_input.leave_actions()[place]
                == crate::text_input::leaving(surface.id)(text_input.focused()[place]),
{
}

/// When the focus moves, every `leave` comes before any `enter`: what the
/// caller is asked to do starts with the `leave` for each object of the
/// client that had the focus and ends with the `enter` for each object of the
/// client that has it now, and afterwards no object is enabled.
pub proof fn lemma_leave_precedes_enter(
    text_input: TextInput,
    input_method: InputMethod,
    focus: Option<Surface>,
)
    ensures
        ({
            let moved = focus_moved(text_input, input_method, focus);
            let left = text_input.leave_actions();
            let entered = moved.text_input.enter_actions();
            &&& moved.text_input.active_text_input_id is None
            &&& moved.text_input.focus == focus
            &&& left.len() + entered.len() <= moved.actions.len()
            &&& moved.actions.take(left.len() as int) == left
            &&& moved.actions.skip(moved.actions.len() - entered.len()) == entered
        }),
{
    let moved = focus_moved(text_input, input_method, focus);
    let left = text_input.leave_actions();
    let entered = moved.text_input.enter_actions();
    assert(moved.actions.take(left.len() as int) =~= left);
    assert(moved.actions.skip(moved.actions.len() - entered.len()) =~= entered);
}

/// However many records arrive, the log never holds more than
/// [`BUFFERSIZE`] of them: it holds the latest ones, in the order in which
/// they arrived.
pub proof fn lemma_log_keeps_latest(log: Seq<KeyRecord>, records: Seq<KeyRecord>)
    requires
        log.len() <= BUFFERSIZE,
    ensures
        recorded_all(log, records).len() <= BUFFERSIZE,
        recorded_all(log, records) == latest(log + records),
    decreases records.len(),
{
    if records.len() == 0 {
        assert(log + records =~= log);
    } else {
        lemma_log_keeps_latest(log, records.drop_last());
        let before = log + records.drop_last();
        assert(log + records =~= before.push(records.last()));
        assert(recorded(latest(before), records.last()) =~= latest(before.push(records.last())));
    }
}

/// The record that a full log gives up is the oldest one. Where the times of
/// the records never go back, no record of the log has a smaller time.
pub proof fn lemma_evicted_is_oldest(log: Seq<KeyRecord>, record: KeyRecord)
    requires
        in_order_of_time(log),
    ensures
        match evicted(log) {
            Some(gone) => {
                &&& gone == log[0]
                &&& recorded(log, record) == log.skip(1).push(record)
                &&& forall|place: int| 0 <= place < log.len() ==> gone.time <= (#[trigger] log[place]).time
            },
            None => recorded(log, record) == log.push(record),
        },
{
    if evicted(log) is Some {
        assert(log.drop_first() =~= log.skip(1));
    }
}

/// A key that is shown to an input method while the log is full takes the
/// place of the oldest record: the log is then the old one without its first
/// record, followed by the new record. Where the times of the records had
/// never gone back, no record of the old log has a smaller time than the one
/// that left.
pub proof fn lemma_intercept_evicts_oldest(input_method: InputMethod, record: KeyRecord)
    requires
        input_method.intercepts(),
        input_method.keys.len() == BUFFERSIZE,
        in_order_of_time(input_method.keys),
    ensures
        input_method.intercepted(record).keys == input_method.keys.skip(1).push(record),
        input_method.intercepted(record).keys.len() == BUFFERSIZE,
        forall|place: int|
            0 <= place < input_method.keys.len() ==> input_method.keys[0].time <= (
            #[trigger] input_method.keys[place]).time,
{
    lemma_evicted_is_oldest(input_method.keys, record);
}

/// Where no input method is current, or the current one has no object, a
/// key event changes nothing and is only handed on to the keyboard pipeline,
/// whatever the key.
pub proof fn lemma_unshown_key_is_only_forwarded(
    input_method: InputMethod,
    record: KeyRecord,
    serial: u32,
)
    requires
        !input_method.intercepts(),
    ensures
        input_method.intercepted(record) == input_method,
        input_method.intercept_actions(record, serial) == seq![
            crate::input_method::forward(record, record.state, record.serial),
        ],
{
    assert(input_method.intercept_actions(record, serial) =~= seq![
        crate::input_method::forward(record, record.state, record.serial),
    ]);
}

/// Registering an input-method object neither drops nor reorders the records
/// of the log.
pub proof fn lemma_registration_keeps_log(input_method: InputMethod, object: ObjectId, app_id: String)
    ensures
        input_method.added(object, app_id).keys == input_method.keys,
{
}

/// What is played again for `serial` is the log from the oldest record that
/// carries `serial` to its end, in the order of the log. Where no record
/// carries `serial`, nothing is played.
pub proof fn lemma_replay_is_tail_of_log(log: Seq<KeyRecord>, serial: u32)
    ensures
        match first_index(log, tagged(serial)) {
            Some(start) => {
                &&& 0 <= start < log.len()
                &&& log[start].serial == serial
                &&& forall|earlier: int| 0 <= earlier < start ==> (#[trigger] log[earlier]).serial != serial
                &&& replayed(log, serial).len() == log.len() - start
                &&& forall|place: int|
                    0 <= place < log.len() - start ==> #[trigger] replayed(log, serial)[place]
                        == log[start + place]
            },
            None => {
                &&& replayed(log, serial).len() == 0
                &&& forall|place: int| 0 <= place < log.len() ==> (#[trigger] log[place]).serial != serial
            },
        },
{
    lemma_first_index_sound(log, tagged(serial));
}

/// The key events among what shows `records` to an input method are the keys
/// of `records`, one for each record and in their order.
pub proof fn lemma_replay_shows_each_key_in_order(
    instance: ObjectId,
    records: Seq<KeyRecord>,
    serial: u32,
)
    ensures
        replay_actions(instance, records, serial).filter(shows_key()) == records.map_values(
            showing(instance, serial),
        ),
    decreases records.len(),
{
    reveal(Seq::filter);
    if records.len() == 0 {
        assert(replay_actions(instance, records, serial).filter(shows_key()) =~= records.map_values(
            showing(instance, serial),
        ));
    } else {
        let rest = records.drop_last();
        let last = records.last();
        lemma_replay_shows_each_key_in_order(instance, rest, serial);
        let shown = key_actions(instance, last, serial);
        Seq::filter_distributes_over_add(
            replay_actions(instance, rest, serial),
            shown,
            shows_key(),
        );
        let key = to_input_method(instance, key_event(last, serial));
        assert(shown.filter(shows_key()) =~= seq![key]) by {
            lemma_key_actions_show_one_key(instance, last, serial);
        }
        assert(records.map_values(showing(instance, serial)) =~= rest.map_values(
            showing(instance, serial),
        ).push(key));
    }
}

/// The key events that the current input method is sent when the keys are
/// processed again from `from_serial` are the keys of the log from the
/// oldest record that carries `from_serial` onward, that record included, in
/// the order of the log.
pub proof fn lemma_process_keys_shows_tail_of_log(
    input_method: InputMethod,
    from_serial: u32,
    serial: u32,
    start: int,
)
    requires
        input_method.current_instance() is Some,
        is_first(input_method.keys, tagged(from_serial), start),
    ensures
        input_method.process_keys_actions(from_serial, serial).filter(shows_key())
            == input_method.keys.skip(start).map_values(
            showing(input_method.current_instance().unwrap().object, serial),
        ),
{
    let instance = input_method.current_instance().unwrap().object;
    lemma_first_index_is(input_method.keys, tagged(from_serial), start);
    assert(replayed(input_method.keys, from_serial) =~= input_method.keys.skip(start));
    lemma_replay_shows_each_key_in_order(instance, input_method.keys.skip(start), serial);
}

/// Among what shows one record to an input method there is one key event.
proof fn lemma_key_actions_show_one_key(instance: ObjectId, record: KeyRecord, serial: u32)
    ensures
        key_actions(instance, record, serial).filter(shows_key()) == seq![
            to_input_method(instance, key_event(record, serial)),
        ],
{
    reveal(Seq::filter);
    let key = to_input_method(instance, key_event(record, serial));
    let shown = key_actions(instance, record, serial);
    assert(shows_key()(key));
    assert(Seq::<Action>::empty().filter(shows_key()) =~= Seq::<Action>::empty());
    assert(seq![key].drop_last() =~= Seq::<Action>::empty());
    assert(seq![key].filter(shows_key()) =~= seq![key]);
    match record.modifiers {
        Some(modifiers) => {
            let other = to_input_method(instance, crate::event::modifiers_event(modifiers, serial));
            assert(!shows_key()(other));
            assert(shown.drop_last() =~= seq![key]);
            assert(shown.last() == other);
            assert(shown.filter(shows_key()) =~= seq![key]);
        },
        None => {},
    }
}

} // verus!
