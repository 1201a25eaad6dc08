use vstd::prelude::*;

verus! {

/// The two teams of the game.
#[derive(Clone, Copy, Debug, PartialEq, Eq, Hash, Structural)]
pub enum Team {
    ONE,
    TWO,
}

impl Team {
    pub open spec fn opponent_spec(self) -> Team {
        match self {
            Team::ONE => Team::TWO,
            Team::TWO => Team::ONE,
        }
    }

    /// The other team.
    pub fn opponent(&self) -> (r: Team)
        ensures
            r == self.opponent_spec(),
            r != *self,
    {
        match self {
            Team::ONE => Team::TWO,
            Team::TWO => Team::ONE,
        }
    }
}

} // verus!
