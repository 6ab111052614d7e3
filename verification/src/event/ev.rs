//! Events.

use crate::event::{KeyCode, Message};
use vstd::prelude::*;

verus! {

/// Incoming events.
#[derive(Clone, Debug, PartialEq)]
pub enum In {
    Key(KeyCode),
    Message(Message),
    Redraw,
}

/// Outgoing events.
#[derive(Clone, Debug, PartialEq, PartialOrd)]
pub enum Send {
    Message(Message),
}

} // verus!
