//! The reasons for which an operation is refused.

use vstd::prelude::*;

verus! {

/// Why an operation left the tables untouched.
#[derive(Clone, Copy, Debug, PartialEq, Eq, Structural)]
pub enum ReducerError {
    /// No online player has the caller's identity.
    PlayerNotFound,
    /// An online character of the caller is bound to an entity that is gone.
    EntityNotFound,
    /// No online character has the given id.
    CharacterNotFound,
    /// A row with the same key is already stored, or a sequence of ids is
    /// used up.
    ConflictError,
}

impl ReducerError {
    /// The text of the message that stands for this error.
    pub open spec fn spec_message(self) -> Seq<char> {
        match self {
            ReducerError::PlayerNotFound => "Player not found"@,
            ReducerError::EntityNotFound => "Entity not found"@,
            ReducerError::CharacterNotFound => "Character not found"@,
            ReducerError::ConflictError => "Conflict"@,
        }
    }

    /// A short message for the caller.
    pub fn message(&self) -> (text: String)
        ensures
            text@ == self.spec_message(),
    {
        match self {
            ReducerError::PlayerNotFound => "Player not found".to_owned(),
            ReducerError::EntityNotFound => "Entity not found".to_owned(),
            ReducerError::CharacterNotFound => "Character not found".to_owned(),
            ReducerError::ConflictError => "Conflict".to_owned(),
        }
    }
}

} // verus!
