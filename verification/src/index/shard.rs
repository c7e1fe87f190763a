use vstd::prelude::*;

use crate::clock::now_unix_timestamp;

verus! {

/// The serving state of a shard.
#[derive(Clone, Copy, Debug, PartialEq, Eq, Structural)]
pub enum State {
    Unknown,
    Serving,
    Draining,
    Drained,
}

/// The state a shard has when its description names none.
pub fn default_state() -> (state: State)
    ensures
        state == State::Unknown,
{
    State::Unknown
}

/// A shard of an index: its identifier, its state and the time it was made.
#[derive(Debug)]
pub struct Shard {
    pub id: String,
    pub state: State,
    pub version: i64,
}

impl Shard {
    /// A serving shard named `id`, stamped with the current time.
    pub fn new(id: String) -> (shard: Shard)
        ensures
            shard.id == id,
            shard.state == State::Serving,
    {
        Shard { id, state: State::Serving, version: now_unix_timestamp() }
    }

    /// The shard with the given identifier, state and version.
    pub fn from_parts(id: String, state: State, version: i64) -> (shard: Shard)
        ensures
            shard.id == id,
            shard.state == state,
            shard.version == version,
    {
        Shard { id, state, version }
    }
}

impl Clone for Shard {
    fn clone(&self) -> (shard: Shard)
        ensures
            shard == *self,
    {
        Shard { id: self.id.clone(), state: self.state, version: self.version }
    }
}

} // verus!
