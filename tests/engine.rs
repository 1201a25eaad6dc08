use penguins::board::{Board, Field};
use penguins::coordinate::{Direction, HexCoordinate};
use penguins::game_move::Move;
use penguins::game_state::{GameState, Progress, Score, WelcomeMessage};
use penguins::team::Team;

fn hex(x: i32, y: i32) -> HexCoordinate {
    HexCoordinate::new(x, y)
}

fn mask(cells: &[(i32, i32)]) -> u64 {
    let coords: Vec<HexCoordinate> = cells.iter().map(|&(x, y)| hex(x, y)).collect();
    Board::mask_of(&coords)
}

fn state(board: Board, start_team: Team, turn: i32) -> GameState {
    GameState::new(
        WelcomeMessage::new(Team::ONE),
        start_team,
        board,
        Progress::new(turn / 2 + 1, turn),
        Score::new(0, 0),
        None,
    )
}

#[test]
fn opponent_swaps_teams() {
    assert_eq!(Team::ONE.opponent(), Team::TWO);
    assert_eq!(Team::TWO.opponent(), Team::ONE);
}

#[test]
fn coordinate_bounds_and_index() {
    assert!(hex(0, 0).is_in_bounds());
    assert!(hex(15, 7).is_in_bounds());
    assert!(!hex(1, 0).is_in_bounds());
    assert!(!hex(16, 0).is_in_bounds());
    assert!(!hex(0, 8).is_in_bounds());
    assert!(!hex(-2, 0).is_in_bounds());
    assert_eq!(hex(0, 0).to_index(), 0);
    assert_eq!(hex(14, 0).to_index(), 7);
    assert_eq!(hex(1, 1).to_index(), 8);
    assert_eq!(hex(15, 7).to_index(), 63);
    assert_eq!(HexCoordinate::from_index(9), hex(3, 1));
    assert_eq!(HexCoordinate::from_index(16), hex(0, 2));
}

#[test]
fn neighbors_stop_at_the_edge() {
    assert_eq!(hex(0, 0).neighbor(Direction::Right), Some(hex(2, 0)));
    assert_eq!(hex(0, 0).neighbor(Direction::DownRight), Some(hex(1, 1)));
    assert_eq!(hex(0, 0).neighbor(Direction::DownLeft), None);
    assert_eq!(hex(0, 0).neighbor(Direction::Left), None);
    assert_eq!(hex(0, 0).neighbor(Direction::UpLeft), None);
    assert_eq!(hex(0, 0).neighbor(Direction::UpRight), None);
    assert_eq!(hex(3, 1).neighbor(Direction::UpLeft), Some(hex(2, 0)));
    assert_eq!(hex(3, 1).neighbor(Direction::DownLeft), Some(hex(2, 2)));
}

#[test]
fn rays_run_to_the_edge() {
    let right = hex(0, 0).ray(Direction::Right);
    assert_eq!(right, vec![hex(2, 0), hex(4, 0), hex(6, 0), hex(8, 0), hex(10, 0), hex(12, 0), hex(14, 0)]);
    let diagonal = hex(0, 0).ray(Direction::DownRight);
    assert_eq!(diagonal.len(), 7);
    assert_eq!(diagonal[6], hex(7, 7));
    assert!(hex(0, 0).ray(Direction::UpLeft).is_empty());
    assert_eq!(hex(4, 2).ray(Direction::UpLeft), vec![hex(3, 1), hex(2, 0)]);
}

#[test]
fn coordinates_come_by_ascending_bit() {
    let m: u64 = (1 << 0) | (1 << 5) | (1 << 7) | (1 << 9) | (1 << 63);
    let coords = Board::get_coordinates(m);
    assert_eq!(coords, vec![hex(0, 0), hex(10, 0), hex(14, 0), hex(3, 1), hex(15, 7)]);
    assert!(Board::get_coordinates(0).is_empty());
    assert_eq!(Board::get_coordinates(u64::MAX).len(), 64);
}

#[test]
fn coordinates_round_trip_to_the_mask() {
    for m in [0u64, 1, 0x8000_0000_0000_0000, 0xdead_beef_0123_4567, u64::MAX] {
        assert_eq!(Board::mask_of(&Board::get_coordinates(m)), m);
    }
}

#[test]
fn fields_are_classified() {
    let b = Board::new(mask(&[(0, 0)]), mask(&[(2, 0)]), mask(&[(4, 0)]), mask(&[(6, 0)]), mask(&[(8, 0)]));
    assert_eq!(b.get_field(&hex(0, 0)), Field::Penguin(Team::ONE));
    assert_eq!(b.get_field(&hex(2, 0)), Field::Penguin(Team::TWO));
    assert_eq!(b.get_field(&hex(4, 0)), Field::Fish(1));
    assert_eq!(b.get_field(&hex(6, 0)), Field::Fish(2));
    assert_eq!(b.get_field(&hex(8, 0)), Field::Fish(3));
    assert_eq!(b.get_field(&hex(10, 0)), Field::Empty);
    assert_eq!(b.get_field(&hex(8, 0)).get_fish(), 3);
    assert_eq!(b.get_field(&hex(0, 0)).get_fish(), 0);
}

#[test]
fn slides_stop_before_blocked_cells() {
    let b = Board::new(
        mask(&[(0, 0)]),
        mask(&[(2, 2)]),
        0,
        mask(&[(2, 0), (4, 0)]),
        mask(&[(1, 1), (8, 0)]),
    );
    let moves = b.possible_moves_from(hex(0, 0), Team::ONE);
    let to: Vec<HexCoordinate> = moves.iter().map(|m| m.to).collect();
    assert_eq!(to, vec![hex(2, 0), hex(4, 0), hex(1, 1)]);
    assert!(moves.iter().all(|m| m.from == Some(hex(0, 0)) && m.team == Team::ONE));
}

#[test]
fn applying_a_move_takes_the_fish() {
    let b = Board::new(mask(&[(0, 0)]), 0, 0, 0, mask(&[(2, 0)]));
    let after = b._move(&Move::new(Some(hex(0, 0)), hex(2, 0), Team::ONE));
    assert_eq!(after.one, mask(&[(2, 0)]));
    assert_eq!(after.fish_3, 0);
    assert_eq!(after.get_field(&hex(0, 0)), Field::Empty);
    assert_eq!(after.get_field(&hex(2, 0)), Field::Penguin(Team::ONE));
}

#[test]
fn initial_placement_by_start_team() {
    let fish = mask(&[(0, 0), (2, 0), (5, 3)]);
    let s = state(Board::new(0, 0, fish, 0, 0), Team::ONE, 0);
    assert_eq!(s.current_team(), Team::ONE);
    assert_eq!(s.get_opponent(), Team::TWO);
    let m = Move::new(None, hex(5, 3), Team::ONE);
    assert!(s.is_valid_move(&m));
    let next = s.perform_move(m);
    assert_eq!(next.progress.turn, 1);
    assert_eq!(next.progress.round, 1);
    assert_eq!(next.score.team_one, 1);
    assert_eq!(next.score.team_two, 0);
    assert_eq!(next.board.get_field(&hex(5, 3)), Field::Penguin(Team::ONE));
    assert_eq!(next.board.get_field(&hex(5, 3)).get_fish(), 0);
    assert_eq!(next.last_move, Some(m));
    assert_eq!(next.start_team, Team::ONE);
    assert_eq!(next.current_team(), Team::TWO);
}

#[test]
fn boxed_in_team_is_skipped() {
    let one = mask(&[(0, 0), (2, 0), (4, 0), (6, 0)]);
    let fish = mask(&[(1, 5), (3, 5)]);
    let s = state(Board::new(one, 0, fish, 0, 0), Team::ONE, 0);
    assert!(s.possible_moves(Team::ONE).is_empty());
    assert_eq!(s.possible_moves(Team::TWO).len(), 2);
    assert_eq!(s.current_team(), Team::TWO);
    let s2 = state(Board::new(one, 0, fish, 0, 0), Team::TWO, 1);
    assert_eq!(s2.current_team(), Team::TWO);
}

#[test]
fn stuck_team_two_gives_the_turn_to_one() {
    let two = mask(&[(0, 0), (2, 0), (4, 0), (6, 0)]);
    let fish = mask(&[(1, 5)]);
    let s = state(Board::new(0, two, fish, 0, 0), Team::ONE, 1);
    assert_eq!(s.current_team(), Team::ONE);
}

#[test]
fn turns_alternate_by_parity() {
    let fish = mask(&[(0, 0), (2, 0)]);
    let board = Board::new(0, 0, fish, 0, 0);
    assert_eq!(state(board, Team::TWO, 0).current_team(), Team::TWO);
    assert_eq!(state(board, Team::TWO, 1).current_team(), Team::ONE);
    assert_eq!(state(board, Team::ONE, 3).current_team(), Team::TWO);
    // Neither team can move: parity decides.
    let empty = Board::new(0, 0, 0, 0, 0);
    assert_eq!(state(empty, Team::ONE, 2).current_team(), Team::ONE);
    assert_eq!(state(empty, Team::ONE, 5).current_team(), Team::TWO);
}

#[test]
fn placement_phase_lists_each_one_fish_cell_once() {
    let fish_1 = mask(&[(0, 0), (3, 1), (15, 7)]);
    let fish_2 = mask(&[(2, 0)]);
    let one = mask(&[(4, 0), (6, 0), (8, 0)]);
    let s = state(Board::new(one, 0, fish_1, fish_2, 0), Team::ONE, 0);
    let moves = s.possible_moves(Team::ONE);
    assert_eq!(
        moves,
        vec![
            Move::new(None, hex(0, 0), Team::ONE),
            Move::new(None, hex(3, 1), Team::ONE),
            Move::new(None, hex(15, 7), Team::ONE),
        ]
    );
    assert!(!s.is_valid_move(&Move::new(None, hex(2, 0), Team::ONE)));
    assert!(!s.is_valid_move(&Move::new(Some(hex(4, 0)), hex(0, 0), Team::ONE)));
}

#[test]
fn movement_phase_lists_slides_of_every_penguin() {
    let one = mask(&[(0, 0), (14, 0), (0, 2), (14, 2)]);
    let fish_1 = mask(&[(2, 0), (1, 1)]);
    let s = state(Board::new(one, 0, fish_1, 0, 0), Team::ONE, 0);
    let moves = s.possible_moves(Team::ONE);
    assert_eq!(
        moves,
        vec![
            Move::new(Some(hex(0, 0)), hex(2, 0), Team::ONE),
            Move::new(Some(hex(0, 0)), hex(1, 1), Team::ONE),
            Move::new(Some(hex(0, 2)), hex(1, 1), Team::ONE),
            Move::new(Some(hex(0, 2)), hex(2, 0), Team::ONE),
        ]
    );
    assert!(s.is_valid_move(&Move::new(Some(hex(0, 2)), hex(1, 1), Team::ONE)));
    assert!(!s.is_valid_move(&Move::new(Some(hex(0, 2)), hex(1, 1), Team::TWO)));
    assert!(!s.is_valid_move(&Move::new(None, hex(2, 0), Team::ONE)));
}

#[test]
fn slide_scores_destination_fish() {
    let one = mask(&[(0, 0), (14, 0), (0, 2), (14, 2)]);
    let two = mask(&[(1, 7)]);
    let fish_3 = mask(&[(2, 0)]);
    let mut s = state(Board::new(one, two, 0, 0, fish_3), Team::ONE, 4);
    s.score = Score::new(5, 7);
    let m = Move::new(Some(hex(0, 0)), hex(2, 0), Team::ONE);
    assert!(s.is_valid_move(&m));
    let next = s.perform_move(m);
    assert_eq!(next.score.team_one, 8);
    assert_eq!(next.score.team_two, 7);
    assert_eq!(next.progress.turn, 5);
    assert_eq!(next.progress.round, 3);
    assert_eq!(next.board.one, mask(&[(2, 0), (14, 0), (0, 2), (14, 2)]));
    assert_eq!(next.board.two, two);
    assert_eq!(next.board.one & next.board.two, 0);
    assert_eq!(next.board.fish_3, 0);
}

#[test]
fn placement_by_team_two_scores_for_team_two() {
    let fish_1 = mask(&[(2, 0), (4, 0)]);
    let s = state(Board::new(mask(&[(0, 0)]), 0, fish_1, 0, 0), Team::ONE, 1);
    let m = Move::new(None, hex(4, 0), Team::TWO);
    let next = s.perform_move(m);
    assert_eq!(next.score.team_one, 0);
    assert_eq!(next.score.team_two, 1);
    assert_eq!(next.board.two, mask(&[(4, 0)]));
    assert_eq!(next.board.one, mask(&[(0, 0)]));
    assert_eq!(next.board.fish_1, mask(&[(2, 0)]));
    assert_eq!(next.progress.turn, 2);
    assert_eq!(next.progress.round, 2);
}

#[test]
fn every_listed_move_can_be_performed() {
    let one = mask(&[(0, 0), (14, 0), (0, 2), (14, 2)]);
    let two = mask(&[(7, 7)]);
    let fish_1 = mask(&[(2, 0), (1, 1), (5, 5)]);
    let fish_2 = mask(&[(12, 0), (13, 1)]);
    let fish_3 = mask(&[(3, 3), (6, 6)]);
    let s = state(Board::new(one, two, fish_1, fish_2, fish_3), Team::ONE, 6);
    for team in [Team::ONE, Team::TWO] {
        let moves = s.possible_moves(team);
        assert!(!moves.is_empty());
        for m in moves {
            assert_eq!(m.team, team);
            assert!(s.is_valid_move(&m));
            let gained = s.board.get_field(&m.to).get_fish() as u32;
            let next = s.perform_move(m);
            assert_eq!(next.board.one & next.board.two, 0);
            assert_eq!(next.board.get_field(&m.to), Field::Penguin(team));
            match team {
                Team::ONE => assert_eq!(next.score.team_one, gained),
                Team::TWO => assert_eq!(next.score.team_two, gained),
            }
            assert_eq!(next.progress.turn, 7);
            assert_eq!(next.progress.round, 4);
        }
    }
}
