//! The commands of the oracle's command line.
use vstd::prelude::*;
use crate::event::EventId;
use crate::time::Timestamp;

verus! {

/// An entity to add by hand.
#[derive(Debug)]
pub enum Entity {
    Event { event_id: EventId, expected_outcome_time: Option<Timestamp> },
    Outcome { event_id: EventId, outcome: String },
}

/// Database commands.
#[derive(Debug, Clone, Copy, PartialEq, Eq, Structural)]
pub enum Db {
    Init,
}

#[derive(Debug)]
pub enum Command {
    Add(Entity),
    Run,
    CheckConfig,
    Derive { event: String },
    /// Database commands
    Db(Db),
}

} // verus!
