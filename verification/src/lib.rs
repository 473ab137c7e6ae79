//! Bridge between the text-input clients and the input-method clients of one
//! seat.
//!
//! Application windows describe their editable text fields through text-input
//! objects; a virtual keyboard reads that description and answers through
//! input-method objects. This crate holds the state that keeps the two sides
//! consistent (keyboard focus, serial handshakes, the active text field, the
//! current input method and a bounded log of recent key events) and decides,
//! for every request and every key event, which protocol events leave the
//! compositor. It sends nothing itself: each operation returns the
//! [`Action`](event::Action)s that the caller has to perform, in order.
//!
//! - [`object`]: identities of protocol objects and surfaces.
//! - [`keyboard`]: key events and the log of the most recent ones.
//! - [`event`]: what an operation can ask the caller to do.
//! - [`text_input`]: the text-input objects, the focus and the active object.
//! - [`input_method`]: the input-method objects and the current one.
//! - [`coordinator`]: requests, destructions and focus changes, which touch
//!   both sides.
//! - [`laws`]: what holds of all of it, proved.
//! - [`search`]: the first item of a sequence with a given property.
//!
//! Every handle has a value as its view ([`text_input::TextInput`],
//! [`input_method::InputMethod`]); the contract of an operation says which
//! value the handle has afterwards and which actions are returned, as
//! functions of the value before.

pub mod coordinator;
pub mod event;
pub mod input_method;
pub mod keyboard;
pub mod laws;
pub mod object;
pub mod search;
pub mod text_input;
