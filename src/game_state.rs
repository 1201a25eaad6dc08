use vstd::prelude::*;

use crate::board::{coords_of, lemma_coords_below, lemma_fish_bits, Board, Field};
use crate::coordinate::HexCoordinate;
use crate::game_move::Move;
use crate::team::Team;

verus! {

/// The number of penguins each team places before it starts to slide.
pub const PENGUINS_PER_TEAM: usize = 4;

/// Which team this side of the game plays.
#[derive(Clone, Copy, Debug, PartialEq, Eq, Hash, Structural)]
pub struct WelcomeMessage {
    pub team: Team,
}

impl WelcomeMessage {
    pub fn new(team: Team) -> (r: WelcomeMessage)
        ensures
            r.team == team,
    {
        WelcomeMessage { team }
    }
}

/// The move counter: `turn` counts the moves made, `round` groups two turns.
#[derive(Clone, Copy, Debug, PartialEq, Eq, Hash, Structural)]
pub struct Progress {
    pub round: i32,
    pub turn: i32,
}

impl Progress {
    pub fn new(round: i32, turn: i32) -> (r: Progress)
        ensures
            r.round == round,
            r.turn == turn,
    {
        Progress { round, turn }
    }
}

/// The fish each team has collected.
#[derive(Clone, Copy, Debug, PartialEq, Eq, Hash, Structural)]
pub struct Score {
    pub team_one: u32,
    pub team_two: u32,
}

impl Score {
    pub open spec fn tally(self, team: Team) -> u32 {
        match team {
            Team::ONE => self.team_one,
            Team::TWO => self.team_two,
        }
    }

    pub fn new(team_one: u32, team_two: u32) -> (r: Score)
        ensures
            r.team_one == team_one,
            r.team_two == team_two,
    {
        Score { team_one, team_two }
    }
}

/// A snapshot of the game between two moves.
#[derive(Clone, Copy, Debug, PartialEq, Eq, Hash, Structural)]
pub struct GameState {
    pub welcome_message: WelcomeMessage,
    pub start_team: Team,
    pub board: Board,
    pub progress: Progress,
    pub score: Score,
    pub last_move: Option<Move>,
}

impl GameState {
    /// The board is well formed and the turn counter is not negative.
    pub open spec fn wf(self) -> bool {
        self.board.wf() && self.progress.turn >= 0
    }

    /// The cells of the penguins of `team`.
    pub open spec fn penguin_cells(self, team: Team) -> Seq<HexCoordinate> {
        coords_of(self.board.penguins(team))
    }

    /// The legal moves of `team`: while it has placed fewer than four
    /// penguins, a placement onto each cell of the one-fish layer; after that,
    /// the slides of each of its penguins.
    pub open spec fn legal_moves(self, team: Team) -> Seq<Move> {
        if self.penguin_cells(team).len() < PENGUINS_PER_TEAM {
            coords_of(self.board.fish_1).map_values(
                |c: HexCoordinate| Move { from: None, to: c, team },
            )
        } else {
            self.board.moves_from_all(self.penguin_cells(team), team)
        }
    }

    /// `m` is among the legal moves of its own team.
    pub open spec fn is_legal(self, m: Move) -> bool {
        self.legal_moves(m.team).contains(m)
    }

    /// Whose turn it is: the only team with legal moves, if just one has any;
    /// else the start team on even turns and its opponent on odd ones.
    pub open spec fn current_team_spec(self) -> Team {
        let one_stuck = self.legal_moves(Team::ONE).len() == 0;
        let two_stuck = self.legal_moves(Team::TWO).len() == 0;
        if one_stuck && !two_stuck {
            Team::TWO
        } else if two_stuck && !one_stuck {
            Team::ONE
        } else if self.progress.turn % 2 == 0 {
            self.start_team
        } else {
            self.start_team.opponent_spec()
        }
    }

    pub fn new(
        welcome_message: WelcomeMessage,
        start_team: Team,
        board: Board,
        progress: Progress,
        score: Score,
        last_move: Option<Move>,
    ) -> (r: GameState)
        ensures
            r == (GameState { welcome_message, start_team, board, progress, score, last_move }),
    {
        GameState { welcome_message, start_team, board, progress, score, last_move }
    }

    /// The legal moves of `team`, in a fixed order: placements by ascending
    /// cell index, or slides penguin by penguin and direction by direction.
    pub fn possible_moves(&self, team: Team) -> (r: Vec<Move>)
        ensures
            r@ == self.legal_moves(team),
    {
        let penguins: u64 = match team {
            Team::ONE => self.board.one,
            Team::TWO => self.board.two,
        };
        let from = Board::get_coordinates(penguins);
        let mut moves: Vec<Move> = Vec::new();
        if from.len() < PENGUINS_PER_TEAM {
            let destinations = Board::get_coordinates(self.board.fish_1);
            let mut k: usize = 0;
            while k < destinations.len()
                invariant
                    k <= destinations@.len(),
                    moves@ == destinations@.take(k as int).map_values(
                        |c: HexCoordinate| Move { from: None, to: c, team },
                    ),
                decreases destinations@.len() - k,
            {
                let m = Move { from: None, to: destinations[k], team };
                moves.push(m);
                assert(destinations@.take(k as int + 1).map_values(
                    |c: HexCoordinate| Move { from: None, to: c, team },
                ) =~= destinations@.take(k as int).map_values(
                    |c: HexCoordinate| Move { from: None, to: c, team },
                ).push(m));
                k = k + 1;
            }
            assert(destinations@.take(k as int) =~= destinations@);
        } else {
            proof {
                lemma_coords_below(penguins, 64);
            }
            let mut k: usize = 0;
            while k < from.len()
                invariant
                    k <= from@.len(),
                    from@ == self.penguin_cells(team),
                    forall|j: int| 0 <= j < from@.len() ==> (#[trigger] from@[j]).is_valid(),
                    moves@ == self.board.moves_from_all(from@.take(k as int), team),
                decreases from@.len() - k,
            {
                let mut slides = self.board.possible_moves_from(from[k], team);
                assert(from@.take(k as int + 1).drop_last() =~= from@.take(k as int));
                moves.append(&mut slides);
                k = k + 1;
            }
            assert(from@.take(k as int) =~= from@);
        }
        moves
    }

    /// Whether `m` is among the legal moves of its team.
    pub fn is_valid_move(&self, m: &Move) -> (r: bool)
        ensures
            r == self.is_legal(*m),
    {
        let moves = self.possible_moves(m.team);
        let mut k: usize = 0;
        while k < moves.len()
            invariant
                k <= moves@.len(),
                moves@ == self.legal_moves(m.team),
                forall|j: int| 0 <= j < k ==> moves@[j] != *m,
            decreases moves@.len() - k,
        {
            if moves[k] == *m {
                return true;
            }
            k = k + 1;
        }
        false
    }

    /// Whose turn it is. A team without legal moves is skipped while the
    /// other has some; else turns alternate, the start team on even turns.
    pub fn current_team(&self) -> (r: Team)
        requires
            self.progress.turn >= 0,
        ensures
            r == self.current_team_spec(),
    {
        let team_one_moves = self.possible_moves(Team::ONE);
        let team_two_moves = self.possible_moves(Team::TWO);
        if team_one_moves.len() == 0 && team_two_moves.len() > 0 {
            Team::TWO
        } else if team_two_moves.len() == 0 && team_one_moves.len() > 0 {
            Team::ONE
        } else if (self.progress.turn as u32) % 2 == 0 {
            self.start_team
        } else {
            self.start_team.opponent()
        }
    }

    /// The team whose turn it is not.
    pub fn get_opponent(&self) -> (r: Team)
        requires
            self.progress.turn >= 0,
        ensures
            r == self.current_team_spec().opponent_spec(),
    {
        self.current_team().opponent()
    }

    /// The state after the legal move `m`: the board after the move, the fish
    /// of the destination added to the mover's score, the turn counter
    /// advanced, and `m` as the last move.
    pub fn perform_move(&self, m: Move) -> (r: GameState)
        requires
            self.wf(),
            self.is_legal(m),
            self.progress.turn < i32::MAX,
            self.score.tally(m.team) + self.board.field_spec(m.to).fish_spec() <= u32::MAX,
        ensures
            r.wf(),
            r.board == self.board.apply_spec(m),
            r.board.one & r.board.two == 0,
            r.board.field_spec(m.to) == Field::Penguin(m.team),
            r.score.tally(m.team) == self.score.tally(m.team) + self.board.field_spec(
                m.to,
            ).fish_spec(),
            r.score.tally(m.team.opponent_spec()) == self.score.tally(m.team.opponent_spec()),
            r.progress.turn == self.progress.turn + 1,
            r.progress.round == r.progress.turn / 2 + 1,
            r.last_move == Some(m),
            r.welcome_message == self.welcome_message,
            r.start_team == self.start_team,
    {
        proof {
            self.lemma_legal_lands_well(m);
            self.board.lemma_apply_wf(m);
        }
        let fish = self.board.get_field(&m.to).get_fish();
        let new_board = self.board._move(&m);
        let score = match m.team {
            Team::ONE => Score { team_one: self.score.team_one + fish as u32, team_two: self.score.team_two },
            Team::TWO => Score { team_one: self.score.team_one, team_two: self.score.team_two + fish as u32 },
        };
        let turn = self.progress.turn + 1;
        let progress = Progress { round: turn / 2 + 1, turn };
        GameState {
            welcome_message: self.welcome_message,
            start_team: self.start_team,
            board: new_board,
            progress,
            score,
            last_move: Some(m),
        }
    }

    /// Every legal move of `team` is a move of `team` onto an open cell of the
    /// board, from a cell of the board if it is a slide.
    pub proof fn lemma_legal_lands_well(self, m: Move)
        requires
            self.board.wf(),
            self.is_legal(m),
        ensures
            self.board.lands_well(m, m.team),
    {
        let team = m.team;
        let moves = self.legal_moves(team);
        let k = choose|k: int| 0 <= k < moves.len() && moves[k] == m;
        if self.penguin_cells(team).len() < PENGUINS_PER_TEAM {
            let fish = self.board.fish_1;
            lemma_coords_below(fish, 64);
            let c = coords_of(fish)[k];
            assert(m.to == c);
            let b = self.board;
            lemma_fish_bits(b.one, b.two, b.fish_1, b.fish_2, b.fish_3, c.index() as u64);
        } else {
            lemma_coords_below(self.board.penguins(team), 64);
            self.board.lemma_moves_from_all(self.penguin_cells(team), team);
        }
    }

    /// Each move that `possible_moves(team)` lists is a move of `team` that
    /// `perform_move` accepts as legal.
    pub proof fn lemma_possible_moves_are_legal(self, team: Team, k: int)
        requires
            0 <= k < self.legal_moves(team).len(),
        ensures
            self.legal_moves(team)[k].team == team,
            self.is_legal(self.legal_moves(team)[k]),
    {
        if self.penguin_cells(team).len() >= PENGUINS_PER_TEAM {
            lemma_coords_below(self.board.penguins(team), 64);
            self.board.lemma_moves_from_all(self.penguin_cells(team), team);
        }
        assert(self.legal_moves(team)[k].team == team);
    }

    /// While `team` has placed fewer than four penguins, its legal moves are
    /// placements, exactly one onto each cell that holds exactly one fish.
    pub proof fn lemma_placement_phase(self, team: Team)
        requires
            self.board.wf(),
            self.penguin_cells(team).len() < PENGUINS_PER_TEAM,
        ensures
            forall|k: int|
                0 <= k < self.legal_moves(team).len() ==> {
                    let m = #[trigger] self.legal_moves(team)[k];
                    &&& m.from is None
                    &&& m.team == team
                    &&& m.to.is_valid()
                    &&& self.board.field_spec(m.to) == Field::Fish(1)
                },
            forall|c: HexCoordinate|
                c.is_valid() && #[trigger] self.board.field_spec(c) == Field::Fish(1) ==> exists|
                    k: int,
                |
                    0 <= k < self.legal_moves(team).len() && (#[trigger] self.legal_moves(
                        team,
                    )[k]).to == c,
            forall|j: int, k: int|
                0 <= j < k < self.legal_moves(team).len() ==> (#[trigger] self.legal_moves(
                    team,
                )[j]).to != (#[trigger] self.legal_moves(team)[k]).to,
    {
        let b = self.board;
        let cells = coords_of(b.fish_1);
        let moves = self.legal_moves(team);
        lemma_coords_below(b.fish_1, 64);
        assert forall|k: int| 0 <= k < moves.len() implies {
            let m = #[trigger] moves[k];
            &&& m.from is None
            &&& m.team == team
            &&& m.to.is_valid()
            &&& b.field_spec(m.to) == Field::Fish(1)
        } by {
            let c = cells[k];
            lemma_fish_bits(b.one, b.two, b.fish_1, b.fish_2, b.fish_3, c.index() as u64);
        }
        assert forall|c: HexCoordinate|
            c.is_valid() && #[trigger] b.field_spec(c) == Field::Fish(1) implies exists|k: int|
                0 <= k < moves.len() && (#[trigger] moves[k]).to == c by {
            assert(cells.contains(c));
            let k = choose|k: int| 0 <= k < cells.len() && cells[k] == c;
            assert(moves[k].to == c);
        }
        assert forall|j: int, k: int| 0 <= j < k < moves.len() implies (#[trigger] moves[j]).to
            != (#[trigger] moves[k]).to by {
            assert(cells[j].index() < cells[k].index());
        }
    }

    /// A team without legal moves is skipped when the other team has some,
    /// whatever the parity of the turn.
    pub proof fn lemma_skip_rule(self, stuck: Team)
        requires
            self.legal_moves(stuck).len() == 0,
            self.legal_moves(stuck.opponent_spec()).len() > 0,
        ensures
            self.current_team_spec() == stuck.opponent_spec(),
    {
    }
}

} // verus!
