//! Positions in the log of a shard.
use vstd::prelude::*;

verus! {

/// A position in the log of a shard.
#[derive(Clone, Copy, Debug, PartialEq, Eq, Structural)]
pub enum Position {
    /// Before the first record.
    Beginning,
    /// The position of a record.
    Offset(u64),
    /// The end of the shard: no record follows.
    Eof,
}

impl Position {
    /// Returns the offset of the position, if it is the position of a record.
    pub fn as_u64(&self) -> (offset: Option<u64>)
        ensures
            offset == self.spec_as_u64(),
    {
        match self {
            Position::Offset(offset) => Some(*offset),
            _ => None,
        }
    }

    /// The offset of the position, if it is the position of a record.
    pub open spec fn spec_as_u64(self) -> Option<u64> {
        match self {
            Position::Offset(offset) => Some(offset),
            _ => None,
        }
    }
}

impl Default for Position {
    /// A position that is left out stands for the beginning of the log.
    fn default() -> (position: Self)
        ensures
            position == Position::Beginning,
    {
        Position::Beginning
    }
}

impl From<u64> for Position {
    fn from(offset: u64) -> (position: Self) {
        Position::Offset(offset)
    }
}

impl vstd::std_specs::convert::FromSpecImpl<u64> for Position {
    open spec fn obeys_from_spec() -> bool {
        true
    }

    open spec fn from_spec(offset: u64) -> Self {
        Position::Offset(offset)
    }
}

/// The position just before the record at `offset`: what a stream that starts with that record is
/// asked for.
pub open spec fn position_before(offset: nat) -> Position {
    if offset == 0 {
        Position::Beginning
    } else {
        Position::Offset((offset - 1) as u64)
    }
}

/// The offset of the first record that follows `position`. Behind the end of the shard there is
/// none, and reading starts over.
pub open spec fn offset_after(position: Position) -> nat {
    match position {
        Position::Offset(offset) => offset as nat + 1,
        _ => 0,
    }
}

} // verus!
