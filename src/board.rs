use vstd::prelude::*;

use crate::coordinate::{Direction, HexCoordinate, CELLS};
use crate::game_move::Move;
use crate::team::Team;

verus! {

/// Bit `i` of `mask` is set.
pub open spec fn bit(mask: u64, i: u64) -> bool {
    (mask >> i) & 1 == 1
}

/// The bit of `mask` that stands for cell `c` is set.
pub open spec fn cell_set(mask: u64, c: HexCoordinate) -> bool {
    bit(mask, c.index() as u64)
}

/// The cells whose bit is set among the first `n` bits of `mask`, by
/// ascending bit index.
pub open spec fn coords_below(mask: u64, n: nat) -> Seq<HexCoordinate>
    decreases n,
{
    if n == 0 {
        Seq::empty()
    } else {
        let i = (n - 1) as nat;
        let rest = coords_below(mask, i);
        if bit(mask, i as u64) {
            rest.push(HexCoordinate::of_index(i as int))
        } else {
            rest
        }
    }
}

/// The cells whose bit is set in `mask`, by ascending bit index.
pub open spec fn coords_of(mask: u64) -> Seq<HexCoordinate> {
    coords_below(mask, CELLS as nat)
}

/// The mask with exactly the bits of the cells in `s` set.
pub open spec fn mask_of_spec(s: Seq<HexCoordinate>) -> u64
    decreases s.len(),
{
    if s.len() == 0 {
        0
    } else {
        mask_of_spec(s.drop_last()) | (1u64 << (s.last().index() as u64))
    }
}

/// What a cell of the board holds.
#[derive(Clone, Copy, Debug, PartialEq, Eq, Hash, Structural)]
pub enum Field {
    Empty,
    Fish(u8),
    Penguin(Team),
}

impl Field {
    pub open spec fn fish_spec(self) -> nat {
        match self {
            Field::Fish(n) => n as nat,
            _ => 0,
        }
    }

    /// Number of fish on the cell; none where a penguin stands.
    pub fn get_fish(&self) -> (r: u8)
        ensures
            r == self.fish_spec(),
    {
        match self {
            Field::Fish(n) => *n,
            _ => 0,
        }
    }
}

/// The board as bit masks, one bit per cell: the cells of each team's
/// penguins, and the cells holding one, two and three fish.
#[derive(Clone, Copy, Debug, PartialEq, Eq, Hash, Structural)]
pub struct Board {
    pub one: u64,
    pub two: u64,
    pub fish_1: u64,
    pub fish_2: u64,
    pub fish_3: u64,
}

impl Board {
    /// No two penguins share a cell, no penguin stands on fish, and each cell
    /// holds at most one fish count.
    pub open spec fn wf(self) -> bool {
        &&& self.one & self.two == 0
        &&& (self.one | self.two) & (self.fish_1 | self.fish_2 | self.fish_3) == 0
        &&& self.fish_1 & self.fish_2 == 0
        &&& self.fish_1 & self.fish_3 == 0
        &&& self.fish_2 & self.fish_3 == 0
    }

    /// The mask of a team's penguins.
    pub open spec fn penguins(self, team: Team) -> u64 {
        match team {
            Team::ONE => self.one,
            Team::TWO => self.two,
        }
    }

    pub open spec fn field_spec(self, c: HexCoordinate) -> Field {
        if cell_set(self.one, c) {
            Field::Penguin(Team::ONE)
        } else if cell_set(self.two, c) {
            Field::Penguin(Team::TWO)
        } else if cell_set(self.fish_1, c) {
            Field::Fish(1)
        } else if cell_set(self.fish_2, c) {
            Field::Fish(2)
        } else if cell_set(self.fish_3, c) {
            Field::Fish(3)
        } else {
            Field::Empty
        }
    }

    /// A penguin may stop on `c`: a cell of the board, free of penguins, with fish.
    pub open spec fn is_open(self, c: HexCoordinate) -> bool {
        c.is_valid() && self.field_spec(c) is Fish
    }

    /// How many cells at the start of `s` are open.
    pub open spec fn open_len(self, s: Seq<HexCoordinate>) -> nat
        decreases s.len(),
    {
        if s.len() > 0 && self.is_open(s[0]) {
            1 + self.open_len(s.drop_first())
        } else {
            0
        }
    }

    /// The slides of the penguin of `team` on `c` in direction `d`: onto each
    /// cell of the ray up to the first one that is not open.
    pub open spec fn moves_in_direction(self, c: HexCoordinate, d: Direction, team: Team) -> Seq<
        Move,
    > {
        let ray = c.ray_spec(d);
        ray.take(self.open_len(ray) as int).map_values(
            |t: HexCoordinate| Move { from: Some(c), to: t, team },
        )
    }

    /// The slides from `c` in the first `n` directions.
    pub open spec fn moves_in_directions(self, c: HexCoordinate, team: Team, n: nat) -> Seq<Move>
        decreases n,
    {
        if n == 0 || n > 6 {
            Seq::empty()
        } else {
            let i = (n - 1) as nat;
            self.moves_in_directions(c, team, i) + self.moves_in_direction(
                c,
                Direction::all_spec()[i as int],
                team,
            )
        }
    }

    /// The slides of the penguin of `team` on `c`, direction by direction.
    pub open spec fn moves_from_spec(self, c: HexCoordinate, team: Team) -> Seq<Move> {
        self.moves_in_directions(c, team, 6)
    }

    /// The slides of the penguins of `team` on the cells of `s`, cell by cell.
    pub open spec fn moves_from_all(self, s: Seq<HexCoordinate>, team: Team) -> Seq<Move>
        decreases s.len(),
    {
        if s.len() == 0 {
            Seq::empty()
        } else {
            self.moves_from_all(s.drop_last(), team) + self.moves_from_spec(s.last(), team)
        }
    }

    /// `m` is a move of `team` onto an open cell, from a cell of the board if any.
    pub open spec fn lands_well(self, m: Move, team: Team) -> bool {
        &&& m.team == team
        &&& self.is_open(m.to)
        &&& m.from matches Some(c) ==> c.is_valid()
    }

    /// The board after `m`: the penguin leaves `from`, if any, stands on `to`,
    /// and the fish on `to` are taken.
    pub open spec fn apply_spec(self, m: Move) -> Board {
        let t = 1u64 << (m.to.index() as u64);
        let f = match m.from {
            Some(c) => 1u64 << (c.index() as u64),
            None => 0u64,
        };
        Board {
            one: if m.team == Team::ONE {
                (self.one & !f) | t
            } else {
                self.one
            },
            two: if m.team == Team::TWO {
                (self.two & !f) | t
            } else {
                self.two
            },
            fish_1: self.fish_1 & !t,
            fish_2: self.fish_2 & !t,
            fish_3: self.fish_3 & !t,
        }
    }

    pub fn new(one: u64, two: u64, fish_1: u64, fish_2: u64, fish_3: u64) -> (r: Board)
        ensures
            r == (Board { one, two, fish_1, fish_2, fish_3 }),
    {
        Board { one, two, fish_1, fish_2, fish_3 }
    }

    /// The cells whose bit is set in `mask`, by ascending bit index.
    pub fn get_coordinates(mask: u64) -> (r: Vec<HexCoordinate>)
        ensures
            r@ == coords_of(mask),
    {
        let mut r: Vec<HexCoordinate> = Vec::new();
        let mut i: u64 = 0;
        while i < CELLS
            invariant
                i <= CELLS,
                r@ == coords_below(mask, i as nat),
            decreases CELLS - i,
        {
            if (mask >> i) & 1 == 1 {
                r.push(HexCoordinate::from_index(i));
            }
            i = i + 1;
        }
        r
    }

    /// The mask with exactly the bits of the given cells set.
    pub fn mask_of(coords: &Vec<HexCoordinate>) -> (r: u64)
        requires
            forall|k: int| 0 <= k < coords@.len() ==> (#[trigger] coords@[k]).is_valid(),
        ensures
            r == mask_of_spec(coords@),
    {
        let mut r: u64 = 0;
        let mut k: usize = 0;
        while k < coords.len()
            invariant
                k <= coords@.len(),
                forall|j: int| 0 <= j < coords@.len() ==> (#[trigger] coords@[j]).is_valid(),
                r == mask_of_spec(coords@.take(k as int)),
            decreases coords@.len() - k,
        {
            assert(coords@.take(k as int + 1).drop_last() =~= coords@.take(k as int));
            r = r | (1u64 << coords[k].to_index());
            k = k + 1;
        }
        assert(coords@.take(k as int) =~= coords@);
        r
    }

    /// What cell `c` holds.
    pub fn get_field(&self, c: &HexCoordinate) -> (r: Field)
        requires
            c.is_valid(),
        ensures
            r == self.field_spec(*c),
    {
        let i = c.to_index();
        if (self.one >> i) & 1 == 1 {
            Field::Penguin(Team::ONE)
        } else if (self.two >> i) & 1 == 1 {
            Field::Penguin(Team::TWO)
        } else if (self.fish_1 >> i) & 1 == 1 {
            Field::Fish(1)
        } else if (self.fish_2 >> i) & 1 == 1 {
            Field::Fish(2)
        } else if (self.fish_3 >> i) & 1 == 1 {
            Field::Fish(3)
        } else {
            Field::Empty
        }
    }

    /// Whether a penguin may stop on cell `c`.
    pub fn is_open_cell(&self, c: &HexCoordinate) -> (r: bool)
        requires
            c.is_valid(),
        ensures
            r == self.is_open(*c),
    {
        match self.get_field(c) {
            Field::Fish(_) => true,
            _ => false,
        }
    }

    /// The slides of the penguin of `team` on `c`: in each direction, onto
    /// every cell of the straight line up to the first cell that is off the
    /// board, holds a penguin or has no fish.
    pub fn possible_moves_from(&self, c: HexCoordinate, team: Team) -> (r: Vec<Move>)
        requires
            c.is_valid(),
        ensures
            r@ == self.moves_from_spec(c, team),
    {
        let dirs = Direction::all();
        let mut r: Vec<Move> = Vec::new();
        let mut i: usize = 0;
        while i < 6
            invariant
                i <= 6,
                c.is_valid(),
                dirs@ == Direction::all_spec(),
                r@ == self.moves_in_directions(c, team, i as nat),
            decreases 6 - i,
        {
            let d = dirs[i];
            let ray = c.ray(d);
            let ghost start = r@;
            let mut j: usize = 0;
            loop
                invariant
                    j <= ray@.len(),
                    ray@ == c.ray_spec(d),
                    forall|k: int| 0 <= k < j ==> self.is_open(#[trigger] ray@[k]),
                    r@ == start + ray@.take(j as int).map_values(
                        |t: HexCoordinate| Move { from: Some(c), to: t, team },
                    ),
                ensures
                    j <= ray@.len(),
                    forall|k: int| 0 <= k < j ==> self.is_open(#[trigger] ray@[k]),
                    j == ray@.len() || !self.is_open(ray@[j as int]),
                    r@ == start + ray@.take(j as int).map_values(
                        |t: HexCoordinate| Move { from: Some(c), to: t, team },
                    ),
                decreases ray@.len() - j,
            {
                if j >= ray.len() {
                    break;
                }
                proof {
                    lemma_ray_valid(c, d);
                }
                if !self.is_open_cell(&ray[j]) {
                    break;
                }
                let m = Move { from: Some(c), to: ray[j], team };
                r.push(m);
                assert(ray@.take(j as int + 1).map_values(
                    |t: HexCoordinate| Move { from: Some(c), to: t, team },
                ) =~= ray@.take(j as int).map_values(
                    |t: HexCoordinate| Move { from: Some(c), to: t, team },
                ).push(m));
                j = j + 1;
            }
            proof {
                self.lemma_open_len(ray@, j as nat);
            }
            i = i + 1;
        }
        r
    }

    /// The board after `m`: the penguin leaves `from`, if any, stands on `to`,
    /// and the fish on `to` are taken. Legality is the caller's concern.
    pub fn _move(&self, m: &Move) -> (r: Board)
        requires
            m.to.is_valid(),
            m.from matches Some(c) ==> c.is_valid(),
        ensures
            r == self.apply_spec(*m),
    {
        let t = 1u64 << m.to.to_index();
        let f = match m.from {
            Some(c) => 1u64 << c.to_index(),
            None => 0u64,
        };
        let (one, two) = match m.team {
            Team::ONE => ((self.one & !f) | t, self.two),
            Team::TWO => (self.one, (self.two & !f) | t),
        };
        Board { one, two, fish_1: self.fish_1 & !t, fish_2: self.fish_2 & !t, fish_3: self.fish_3 & !t }
    }

    /// `open_len` counts the open cells at the start of `s`.
    proof fn lemma_open_len(self, s: Seq<HexCoordinate>, j: nat)
        requires
            j <= s.len(),
            forall|k: int| 0 <= k < j ==> self.is_open(#[trigger] s[k]),
            j == s.len() || !self.is_open(s[j as int]),
        ensures
            self.open_len(s) == j,
        decreases j,
    {
        if j > 0 {
            assert(self.is_open(s[0]));
            let rest = s.drop_first();
            assert forall|k: int| 0 <= k < j - 1 implies self.is_open(#[trigger] rest[k]) by {
                assert(rest[k] == s[k + 1]);
            }
            self.lemma_open_len(rest, (j - 1) as nat);
        }
    }

    /// The first `open_len(s)` cells of `s` are open.
    proof fn lemma_open_prefix(self, s: Seq<HexCoordinate>)
        ensures
            self.open_len(s) <= s.len(),
            forall|k: int| 0 <= k < self.open_len(s) ==> self.is_open(#[trigger] s[k]),
        decreases s.len(),
    {
        if s.len() > 0 && self.is_open(s[0]) {
            let rest = s.drop_first();
            self.lemma_open_prefix(rest);
            assert forall|k: int| 0 <= k < self.open_len(s) implies self.is_open(#[trigger] s[k]) by {
                if k > 0 {
                    assert(s[k] == rest[k - 1]);
                }
            }
        }
    }

    /// Every slide from cells of the board lands well.
    pub proof fn lemma_moves_from_all(self, s: Seq<HexCoordinate>, team: Team)
        requires
            forall|k: int| 0 <= k < s.len() ==> (#[trigger] s[k]).is_valid(),
        ensures
            forall|k: int|
                0 <= k < self.moves_from_all(s, team).len() ==> self.lands_well(
                    #[trigger] self.moves_from_all(s, team)[k],
                    team,
                ),
        decreases s.len(),
    {
        if s.len() > 0 {
            let p = s.drop_last();
            self.lemma_moves_from_all(p, team);
            self.lemma_moves_in_directions(s.last(), team, 6);
            let a = self.moves_from_all(p, team);
            let b = self.moves_from_spec(s.last(), team);
            assert forall|k: int| 0 <= k < a.len() + b.len() implies self.lands_well(
                #[trigger] (a + b)[k],
                team,
            ) by {
                if k >= a.len() {
                    assert((a + b)[k] == b[k - a.len()]);
                }
            }
        }
    }

    proof fn lemma_moves_in_directions(self, c: HexCoordinate, team: Team, n: nat)
        requires
            c.is_valid(),
        ensures
            forall|k: int|
                0 <= k < self.moves_in_directions(c, team, n).len() ==> self.lands_well(
                    #[trigger] self.moves_in_directions(c, team, n)[k],
                    team,
                ),
        decreases n,
    {
        if n > 0 && n <= 6 {
            let i = (n - 1) as nat;
            self.lemma_moves_in_directions(c, team, i);
            let d = Direction::all_spec()[i as int];
            let ray = c.ray_spec(d);
            self.lemma_open_prefix(ray);
            let a = self.moves_in_directions(c, team, i);
            let b = self.moves_in_direction(c, d, team);
            assert forall|k: int| 0 <= k < a.len() + b.len() implies self.lands_well(
                #[trigger] (a + b)[k],
                team,
            ) by {
                if k >= a.len() {
                    assert((a + b)[k] == b[k - a.len()]);
                    assert(self.is_open(ray[k - a.len()]));
                }
            }
        }
    }

    /// Applying a move onto an open cell keeps the board well formed, and
    /// leaves the mover's penguin on the destination.
    pub proof fn lemma_apply_wf(self, m: Move)
        requires
            self.wf(),
            self.is_open(m.to),
        ensures
            self.apply_spec(m).wf(),
            self.apply_spec(m).field_spec(m.to) == Field::Penguin(m.team),
    {
        let t = m.to.index() as u64;
        let f: u64 = match m.from {
            Some(c) => 1u64 << (c.index() as u64),
            None => 0u64,
        };
        let (a, b) = match m.team {
            Team::ONE => (self.one, self.two),
            Team::TWO => (self.two, self.one),
        };
        let (one, two) = (self.one, self.two);
        assert(one | two == two | one && one & two == two & one) by (bit_vector);
        lemma_place_bits(a, b, self.fish_1, self.fish_2, self.fish_3, t, f);
    }
}

/// Every cell of a ray lies on the board.
proof fn lemma_ray_valid(c: HexCoordinate, d: Direction)
    ensures
        forall|k: int| 0 <= k < c.ray_spec(d).len() ==> (#[trigger] c.ray_spec(d)[k]).is_valid(),
    decreases c.edge_distance(d),
{
    let n = c.step(d);
    if n.is_valid() && 0 <= n.edge_distance(d) < c.edge_distance(d) {
        lemma_ray_valid(n, d);
        let r = c.ray_spec(d);
        assert forall|k: int| 0 <= k < r.len() implies (#[trigger] r[k]).is_valid() by {
            if k > 0 {
                assert(r[k] == n.ray_spec(d)[k - 1]);
            }
        }
    }
}

/// Setting bit `t` of mask `a` after clearing the bits of `f`, and clearing
/// bit `t` of the fish masks, keeps the masks disjoint when bit `t` was free.
proof fn lemma_place_bits(a: u64, b: u64, f1: u64, f2: u64, f3: u64, t: u64, f: u64)
    by (bit_vector)
    requires
        a & b == 0,
        (a | b) & (f1 | f2 | f3) == 0,
        f1 & f2 == 0,
        f1 & f3 == 0,
        f2 & f3 == 0,
        t < 64,
        (a >> t) & 1 != 1,
        (b >> t) & 1 != 1,
    ensures
        ((a & !f) | (1u64 << t)) & b == 0,
        b & ((a & !f) | (1u64 << t)) == 0,
        (((a & !f) | (1u64 << t)) | b) & ((f1 & !(1u64 << t)) | (f2 & !(1u64 << t)) | (f3 & !(
        1u64 << t))) == 0,
        (b | ((a & !f) | (1u64 << t))) & ((f1 & !(1u64 << t)) | (f2 & !(1u64 << t)) | (f3 & !(
        1u64 << t))) == 0,
        (f1 & !(1u64 << t)) & (f2 & !(1u64 << t)) == 0,
        (f1 & !(1u64 << t)) & (f3 & !(1u64 << t)) == 0,
        (f2 & !(1u64 << t)) & (f3 & !(1u64 << t)) == 0,
        (((a & !f) | (1u64 << t)) >> t) & 1 == 1,
{
}

/// A cell in a fish mask of a well-formed board holds no penguin.
pub proof fn lemma_fish_bits(one: u64, two: u64, f1: u64, f2: u64, f3: u64, t: u64)
    by (bit_vector)
    requires
        (one | two) & (f1 | f2 | f3) == 0,
        t < 64,
        (f1 >> t) & 1 == 1,
    ensures
        (one >> t) & 1 != 1,
        (two >> t) & 1 != 1,
{
}

/// Bit `i` of a mask stands for a cell of the board, and each cell for its bit.
pub proof fn lemma_index(i: int, c: HexCoordinate)
    ensures
        0 <= i < CELLS ==> HexCoordinate::of_index(i).is_valid() && HexCoordinate::of_index(
            i,
        ).index() == i,
        c.is_valid() ==> 0 <= c.index() < CELLS && HexCoordinate::of_index(c.index()) == c,
{
}

/// The cells decoded from a mask lie on the board, have their bit set, and
/// come by strictly ascending bit index; every such cell is among them.
pub proof fn lemma_coords_below(mask: u64, n: nat)
    requires
        n <= CELLS,
    ensures
        forall|k: int|
            0 <= k < coords_below(mask, n).len() ==> {
                let c = #[trigger] coords_below(mask, n)[k];
                c.is_valid() && cell_set(mask, c) && c.index() < n
            },
        forall|j: int, k: int|
            0 <= j < k < coords_below(mask, n).len() ==> (#[trigger] coords_below(mask, n)[j]).index()
                < (#[trigger] coords_below(mask, n)[k]).index(),
        forall|c: HexCoordinate|
            c.is_valid() && cell_set(mask, c) && c.index() < n ==> #[trigger] coords_below(
                mask,
                n,
            ).contains(c),
    decreases n,
{
    if n > 0 {
        let i = (n - 1) as nat;
        lemma_coords_below(mask, i);
        lemma_index(i as int, HexCoordinate::of_index(i as int));
        let rest = coords_below(mask, i);
        let all = coords_below(mask, n);
        assert forall|c: HexCoordinate|
            c.is_valid() && cell_set(mask, c) && c.index() < n implies #[trigger] all.contains(c) by {
            lemma_index(0, c);
            if c.index() < i {
                assert(rest.contains(c));
                let k = choose|k: int| 0 <= k < rest.len() && rest[k] == c;
                assert(all[k] == c);
            } else {
                assert(all[all.len() - 1] == c);
            }
        }
    }
}

/// Decoding a mask into cells and encoding them again gives the mask back.
pub proof fn lemma_coordinates_round_trip(mask: u64)
    ensures
        mask_of_spec(coords_of(mask)) == mask,
{
    lemma_round_trip_below(mask, 64);
    lemma_low_bits_all(mask);
}

proof fn lemma_round_trip_below(mask: u64, n: u64)
    requires
        n <= 64,
    ensures
        mask_of_spec(coords_below(mask, n as nat)) == low_bits(mask, n),
    decreases n,
{
    if n > 0 {
        let i = (n - 1) as u64;
        lemma_round_trip_below(mask, i);
        lemma_index(i as int, HexCoordinate::of_index(i as int));
        let s = coords_below(mask, n as nat);
        if bit(mask, i) {
            assert(s.drop_last() == coords_below(mask, i as nat));
        }
        lemma_low_bits_step(mask, i);
    }
}

/// The bits of `mask` below bit `n`.
pub open spec fn low_bits(mask: u64, n: u64) -> u64 {
    if n >= 64 {
        mask
    } else if n == 0 {
        0
    } else {
        mask & (((1u64 << n) - 1) as u64)
    }
}

proof fn lemma_low_bits_step(mask: u64, n: u64)
    by (bit_vector)
    requires
        n < 64,
    ensures
        low_bits(mask, (n + 1) as u64) == (if (mask >> n) & 1 == 1 {
            low_bits(mask, n) | (1u64 << n)
        } else {
            low_bits(mask, n)
        }),
{
}

proof fn lemma_low_bits_all(mask: u64)
    ensures
        low_bits(mask, 64) == mask,
{
}

} // verus!
