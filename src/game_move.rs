use vstd::prelude::*;

use crate::coordinate::HexCoordinate;
use crate::team::Team;

verus! {

/// One action of a team: a placement when `from` is `None`, else a slide
/// of the penguin on `from`; in both cases onto `to`.
#[derive(Clone, Copy, Debug, PartialEq, Eq, Hash, Structural)]
pub struct Move {
    pub from: Option<HexCoordinate>,
    pub to: HexCoordinate,
    pub team: Team,
}

impl Move {
    pub fn new(from: Option<HexCoordinate>, to: HexCoordinate, team: Team) -> (r: Move)
        ensures
            r.from == from,
            r.to == to,
            r.team == team,
    {
        Move { from, to, team }
    }
}

} // verus!
