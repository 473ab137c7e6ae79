//! Physical key events and the bounded log that keeps the most recent ones.

use crate::search::{first_index, is_first, lemma_first_index_is, lemma_first_index_none};
use std::collections::VecDeque;
use vstd::prelude::*;
use xkeysym::KeyCode;

verus! {

/// `xkeysym::KeyCode`, the key code of a physical key. Nothing is known of a
/// value but what [`keycode_raw`] names.
#[verifier::external_type_specification]
#[verifier::external_body]
pub struct ExKeyCode(xkeysym::KeyCode);

/// The number that a key code was made from.
pub uninterp spec fn keycode_raw(keycode: KeyCode) -> u32;

/// `KeyCode::raw`: hands out the number that the key code was made from.
#[verifier::external_body]
pub(crate) fn raw_keycode(keycode: KeyCode) -> (raw: u32)
    ensures
        raw == keycode_raw(keycode),
{
    keycode.raw()
}

/// Number of key events that the log keeps.
pub const BUFFERSIZE: usize = 10;

/// What lies between the number of a key code and the code of the same key
/// on the wire.
pub const KEYCODE_OFFSET: u32 = 8;

/// Whether a key is going down or coming up.
#[derive(Clone, Copy, Debug, PartialEq, Eq, Structural)]
pub enum KeyState {
    /// The key came up.
    Released,
    /// The key went down.
    Pressed,
}

/// The modifiers of a keyboard in the form that goes over the wire.
#[derive(Clone, Copy, Debug, PartialEq, Eq, Structural)]
pub struct ModifiersState {
    /// Modifiers that are held down.
    pub depressed: u32,
    /// Modifiers that hold until the next key.
    pub latched: u32,
    /// Modifiers that hold until they are released by a key of their own.
    pub locked: u32,
    /// The layout in effect.
    pub layout_effective: u32,
}

/// One physical key event as the log keeps it.
#[derive(Clone, Copy, Debug, PartialEq, Eq)]
pub struct KeyRecord {
    /// The key.
    pub keycode: KeyCode,
    /// Whether it went down or came up.
    pub state: KeyState,
    /// The modifiers at that moment, where they were known.
    pub modifiers: Option<ModifiersState>,
    /// The serial that the event arrived with, by which it is found again.
    pub serial: u32,
    /// When the event happened.
    pub time: u32,
}

/// The code on the wire of the key whose key code was made from `raw`. The
/// numbers below [`KEYCODE_OFFSET`] stand for no key on the wire.
pub open spec fn wire_code_of_raw(raw: u32) -> Option<u32> {
    if raw >= KEYCODE_OFFSET {
        Some((raw - KEYCODE_OFFSET) as u32)
    } else {
        None
    }
}

/// Whether a key code has a code on the wire.
pub open spec fn has_wire_code(keycode: KeyCode) -> bool {
    wire_code_of_raw(keycode_raw(keycode)) is Some
}

/// The code of a key on the wire.
pub open spec fn wire_code(keycode: KeyCode) -> u32
    recommends
        has_wire_code(keycode),
{
    wire_code_of_raw(keycode_raw(keycode)).unwrap()
}

/// The code on the wire of the key whose key code was made from `raw`, where
/// it has one.
pub fn raw_to_wire_code(raw: u32) -> (code: Option<u32>)
    ensures
        code == wire_code_of_raw(raw),
{
    if raw >= KEYCODE_OFFSET {
        Some(raw - KEYCODE_OFFSET)
    } else {
        None
    }
}

/// The code of a key on the wire, where it has one.
pub fn checked_wire_code(keycode: KeyCode) -> (code: Option<u32>)
    ensures
        code == wire_code_of_raw(keycode_raw(keycode)),
        code is Some == has_wire_code(keycode),
        code matches Some(code) ==> code == wire_code(keycode),
{
    raw_to_wire_code(raw_keycode(keycode))
}

/// The records that carry `serial`.
pub open spec fn tagged(serial: u32) -> spec_fn(KeyRecord) -> bool {
    |record: KeyRecord| record.serial == serial
}

/// The log after `record` arrived: it goes to the end, and a full log first
/// gives up its oldest record.
pub open spec fn recorded(log: Seq<KeyRecord>, record: KeyRecord) -> Seq<KeyRecord> {
    if log.len() >= BUFFERSIZE {
        log.drop_first().push(record)
    } else {
        log.push(record)
    }
}

/// The record that leaves the log when another one arrives.
pub open spec fn evicted(log: Seq<KeyRecord>) -> Option<KeyRecord> {
    if log.len() >= BUFFERSIZE {
        Some(log[0])
    } else {
        None
    }
}

/// The records to play again for `serial`: the oldest one that carries it and
/// all that came after, oldest first; none where no record carries it.
pub open spec fn replayed(log: Seq<KeyRecord>, serial: u32) -> Seq<KeyRecord> {
    match first_index(log, tagged(serial)) {
        Some(index) => log.subrange(index, log.len() as int),
        None => Seq::empty(),
    }
}

/// Whether the times of the records never go back.
pub open spec fn in_order_of_time(log: Seq<KeyRecord>) -> bool {
    forall|earlier: int, later: int|
        0 <= earlier <= later < log.len() ==> log[earlier].time <= log[later].time
}

/// The most recent key events, oldest first, [`BUFFERSIZE`] at most.
#[derive(Debug)]
pub struct KeyEventLog {
    keys: VecDeque<KeyRecord>,
}

impl View for KeyEventLog {
    type V = Seq<KeyRecord>;

    closed spec fn view(&self) -> Seq<KeyRecord> {
        self.keys@
    }
}

impl KeyEventLog {
    /// The log never holds more than [`BUFFERSIZE`] records.
    pub open spec fn wf(&self) -> bool {
        self@.len() <= BUFFERSIZE
    }

    /// An empty log.
    pub fn new() -> (log: KeyEventLog)
        ensures
            log@ == Seq::<KeyRecord>::empty(),
            log.wf(),
    {
        KeyEventLog { keys: VecDeque::with_capacity(BUFFERSIZE) }
    }

    /// Number of records in the log.
    pub fn len(&self) -> (len: usize)
        ensures
            len == self@.len(),
    {
        self.keys.len()
    }

    /// The record at `index`, counted from the oldest.
    pub fn get(&self, index: usize) -> (record: Option<KeyRecord>)
        ensures
            record == if index < self@.len() {
                Some(self@[index as int])
            } else {
                None
            },
    {
        if index < self.keys.len() {
            Some(self.keys[index])
        } else {
            None
        }
    }

    /// Appends `record`. A full log first evicts its oldest record, which is
    /// handed back.
    pub fn record(&mut self, record: KeyRecord) -> (out: Option<KeyRecord>)
        requires
            old(self).wf(),
        ensures
            final(self).wf(),
            final(self)@ == recorded(old(self)@, record),
            out == evicted(old(self)@),
    {
        let mut out: Option<KeyRecord> = None;
        if self.keys.len() >= BUFFERSIZE {
            out = self.keys.pop_front();
        }
        self.keys.push_back(record);
        out
    }

    /// Place of the oldest record that carries `serial`.
    pub fn position(&self, serial: u32) -> (index: Option<usize>)
        ensures
            match index {
                Some(index) => first_index(self@, tagged(serial)) == Some(index as int),
                None => first_index(self@, tagged(serial)) is None,
            },
    {
        let len: usize = self.keys.len();
        let mut index: usize = 0;
        while index < len
            invariant
                len == self@.len(),
                index <= len,
                forall|earlier: int| 0 <= earlier < index ==> !tagged(serial)(#[trigger] self@[earlier]),
            decreases len - index,
        {
            if self.keys[index].serial == serial {
                proof {
                    assert(is_first(self@, tagged(serial), index as int));
                    lemma_first_index_is(self@, tagged(serial), index as int);
                }
                return Some(index);
            }
            index = index + 1;
        }
        proof {
            lemma_first_index_none(self@, tagged(serial));
        }
        None
    }

    /// The oldest record that carries `serial`.
    pub fn find(&self, serial: u32) -> (record: Option<KeyRecord>)
        ensures
            record == crate::search::first_match(self@, tagged(serial)),
    {
        match self.position(serial) {
            Some(index) => {
                proof {
                    crate::search::lemma_first_index_sound(self@, tagged(serial));
                }
                Some(self.keys[index])
            },
            None => None,
        }
    }

    /// The records to play again for `serial`, oldest first.
    pub fn replay_from(&self, serial: u32) -> (records: Vec<KeyRecord>)
        ensures
            records@ == replayed(self@, serial),
    {
        let mut records: Vec<KeyRecord> = Vec::new();
        match self.position(serial) {
            Some(start) => {
                proof {
                    crate::search::lemma_first_index_sound(self@, tagged(serial));
                }
                let len: usize = self.keys.len();
                let mut index: usize = start;
                while index < len
                    invariant
                        len == self@.len(),
                        start <= index <= len,
                        records@ == self@.subrange(start as int, index as int),
                    decreases len - index,
                {
                    records.push(self.keys[index]);
                    index = index + 1;
                    assert(records@ =~= self@.subrange(start as int, index as int));
                }
            },
            None => {},
        }
        records
    }
}

} // verus!
