//! The board state and the rules that change it.

use std::collections::HashMap;

use vstd::prelude::*;

use crate::dice::{count_true, draw_binary, sum_draws};
use crate::topology::{
    grid_table, grid_table_below, lemma_tables_grow, path_index_at, path_table, path_table_below,
    track_position,
};

verus! {

broadcast use vstd::std_specs::hash::group_hash_axioms;

/// Whose turn it is, and whose track a path index refers to.
#[derive(PartialEq, Eq, Structural, Clone, Copy, Debug)]
pub enum Player {
    First,
    Second,
}

impl Player {
    /// The other player.
    pub open spec fn other(self) -> Player {
        match self {
            Player::First => Player::Second,
            Player::Second => Player::First,
        }
    }
}

/// Number of checkers each player owns.
pub const CHECKERS: i8 = 7;

/// The sum of the counters of a track.
pub open spec fn total(t: Seq<i8>) -> int
    decreases t.len(),
{
    if t.len() == 0 {
        0
    } else {
        total(t.drop_last()) + t.last()
    }
}

/// A track is 16 non-negative counters that hold all 7 checkers.
pub open spec fn valid_track(t: Seq<i8>) -> bool {
    &&& t.len() == 16
    &&& forall|j: int| 0 <= j < 16 ==> #[trigger] t[j] >= 0
    &&& total(t) == CHECKERS as int
}

/// The board: each player's track of 16 counters (index 0 the reserve,
/// 15 home), whose turn it is, the pending roll, and the lookup tables
/// between grid cells (keyed by `row * 8 + col`) and path indices.
pub struct Gameboard {
    pub cells: [[u8; 8]; 3],
    pub player_1: [i8; 16],
    pub player_2: [i8; 16],
    pub active_player: Player,
    pub dice_roll: Option<i8>,
    pub grid_to_path_1: HashMap<i8, i8>,
    pub grid_to_path_2: HashMap<i8, i8>,
    pub path_to_grid_1: HashMap<i8, (i8, i8)>,
    pub path_to_grid_2: HashMap<i8, (i8, i8)>,
}


/// The track at the start of a game: every checker in reserve.
pub open spec fn start_track() -> Seq<i8> {
    seq![7i8, 0, 0, 0, 0, 0, 0, 0, 0, 0, 0, 0, 0, 0, 0, 0]
}

/// Moving a checker along a valid track keeps it valid: the checker leaves
/// one counter and joins another.
pub proof fn lemma_advance_conserves(t: Seq<i8>, i: int, d: int)
    requires
        valid_track(t),
        0 <= i < d < 16,
        t[i] >= 1,
    ensures
        valid_track(advanced(t, i, d)),
        total(advanced(t, i, d)) == total(t),
{
    lemma_counter_at_most_total(t, d);
    let u = t.update(i, (t[i] - 1) as i8);
    lemma_total_update(t, i, (t[i] - 1) as i8);
    lemma_total_update(u, d, (t[d] + 1) as i8);
}

/// Landing on a lone opposing checker in the shared lane sends it to its
/// reserve: the opponent's track stays valid and keeps all its checkers.
pub proof fn lemma_capture_conserves(opp: Seq<i8>, d: int)
    requires
        valid_track(opp),
        0 <= d < 16,
    ensures
        valid_track(after_landing(opp, d)),
        total(after_landing(opp, d)) == total(opp),
        captures(opp, d) ==> after_landing(opp, d)[d] == 0 && after_landing(opp, d)[0] == opp[0]
            + 1,
{
    if captures(opp, d) {
        lemma_counter_at_most_total(opp, 0);
        let u = opp.update(d, 0);
        lemma_total_update(opp, d, 0);
        lemma_total_update(u, 0, (opp[0] + 1) as i8);
    }
}

/// The starting track is valid.
pub proof fn lemma_start_track_valid()
    ensures
        valid_track(start_track()),
{
    reveal_with_fuel(total, 17);
    assert(start_track().len() == 16);
}

/// What became of a requested move.
#[derive(PartialEq, Eq, Structural, Clone, Copy, Debug)]
pub enum MoveOutcome {
    /// The checker moved and nothing was captured.
    Moved,
    /// The checker moved and sent a lone opposing checker back to its reserve.
    Captured,
    /// No roll is pending, or the pending roll is zero or less.
    RollExhausted,
    /// The destination lies beyond the end of the path.
    OutOfBounds,
    /// The active player has no checker at the source index.
    NoSourceChecker,
    /// The destination holds exactly one of the mover's own checkers and is
    /// not home.
    InvalidDestination,
}

impl MoveOutcome {
    /// Whether the move took place.
    pub open spec fn is_success(self) -> bool {
        self == MoveOutcome::Moved || self == MoveOutcome::Captured
    }
}

/// Moving a checker of track `t` from `i` by `r` is legal.
pub open spec fn move_is_legal(t: Seq<i8>, i: int, r: int) -> bool {
    &&& i + r < 16
    &&& (t[i + r] != 1 || i + r == 15)
    &&& t[i] >= 1
    &&& r > 0
}

/// Landing on `d` captures: `d` is in the shared lane and the opponent holds
/// exactly one checker there.
pub open spec fn captures(opp: Seq<i8>, d: int) -> bool {
    5 <= d <= 12 && opp[d] == 1
}

/// Track `t` after one of its checkers moved from `i` to `d`.
pub open spec fn advanced(t: Seq<i8>, i: int, d: int) -> Seq<i8> {
    t.update(i, (t[i] - 1) as i8).update(d, (t[d] + 1) as i8)
}

/// The opponent's track after the mover landed on `d`.
pub open spec fn after_landing(opp: Seq<i8>, d: int) -> Seq<i8> {
    if captures(opp, d) {
        opp.update(d, 0).update(0, (opp[0] + 1) as i8)
    } else {
        opp
    }
}

/// The outcome of moving from `i` for the owner of track `own`, against the
/// track `opp`, with pending roll `roll`.
pub open spec fn outcome(own: Seq<i8>, opp: Seq<i8>, roll: Option<i8>, i: int) -> MoveOutcome {
    match roll {
        None => MoveOutcome::RollExhausted,
        Some(r) => if r <= 0 {
            MoveOutcome::RollExhausted
        } else if i + r >= 16 {
            MoveOutcome::OutOfBounds
        } else if own[i] < 1 {
            MoveOutcome::NoSourceChecker
        } else if own[i + r] == 1 && i + r != 15 {
            MoveOutcome::InvalidDestination
        } else if captures(opp, i + r) {
            MoveOutcome::Captured
        } else {
            MoveOutcome::Moved
        },
    }
}

/// Changing one counter changes the total by the difference.
pub proof fn lemma_total_update(t: Seq<i8>, j: int, v: i8)
    requires
        0 <= j < t.len(),
    ensures
        total(t.update(j, v)) == total(t) - t[j] + v,
    decreases t.len(),
{
    let u = t.update(j, v);
    if j == t.len() - 1 {
        assert(u.drop_last() =~= t.drop_last());
    } else {
        assert(u.drop_last() =~= t.drop_last().update(j, v));
        lemma_total_update(t.drop_last(), j, v);
    }
}

/// Where no counter is negative, none exceeds the total.
pub proof fn lemma_counter_at_most_total(t: Seq<i8>, j: int)
    requires
        0 <= j < t.len(),
        forall|k: int| 0 <= k < t.len() ==> #[trigger] t[k] >= 0,
    ensures
        t[j] <= total(t),
        total(t) >= 0,
    decreases t.len(),
{
    let init = t.drop_last();
    assert(t.last() == t[t.len() - 1]);
    if init.len() > 0 {
        assert(forall|m: int| 0 <= m < init.len() ==> #[trigger] init[m] == t[m]);
        if j < init.len() {
            lemma_counter_at_most_total(init, j);
        } else {
            lemma_counter_at_most_total(init, 0);
        }
    } else {
        assert(total(init) == 0);
    }
    assert(total(t) == total(init) + t.last());
}

impl Gameboard {
    /// The track of player `p`.
    pub open spec fn track(self, p: Player) -> Seq<i8> {
        match p {
            Player::First => self.player_1@,
            Player::Second => self.player_2@,
        }
    }

    /// The grid cells and lookup tables of `self` and `o` agree.
    pub open spec fn same_layout(self, o: Gameboard) -> bool {
        &&& self.cells == o.cells
        &&& self.grid_to_path_1 == o.grid_to_path_1
        &&& self.grid_to_path_2 == o.grid_to_path_2
        &&& self.path_to_grid_1 == o.path_to_grid_1
        &&& self.path_to_grid_2 == o.path_to_grid_2
    }

    /// Both tracks hold valid checker distributions.
    pub open spec fn wf(self) -> bool {
        &&& valid_track(self.player_1@)
        &&& valid_track(self.player_2@)
    }

    /// The lookup tables between grid cells and path indices are built.
    pub open spec fn tables_built(self) -> bool {
        &&& self.grid_to_path_1@ == grid_table(Player::First)
        &&& self.grid_to_path_2@ == grid_table(Player::Second)
        &&& self.path_to_grid_1@ == path_table(Player::First)
        &&& self.path_to_grid_2@ == path_table(Player::Second)
    }

    /// A fresh game: all checkers of both players in reserve, the first
    /// player to move, no roll pending, lookup tables built.
    pub fn new() -> (g: Gameboard)
        ensures
            g.wf(),
            g.tables_built(),
            g.player_1@ == start_track(),
            g.player_2@ == start_track(),
            g.active_player == Player::First,
            g.dice_roll is None,
    {
        let mut g = Gameboard {
            cells: [[0u8; 8]; 3],
            player_1: [7, 0, 0, 0, 0, 0, 0, 0, 0, 0, 0, 0, 0, 0, 0, 0],
            player_2: [7, 0, 0, 0, 0, 0, 0, 0, 0, 0, 0, 0, 0, 0, 0, 0],
            active_player: Player::First,
            dice_roll: None,
            grid_to_path_1: HashMap::new(),
            grid_to_path_2: HashMap::new(),
            path_to_grid_1: HashMap::new(),
            path_to_grid_2: HashMap::new(),
        };
        proof {
            lemma_start_track_valid();
            assert(g.player_1@ =~= start_track());
            assert(g.player_2@ =~= start_track());
        }
        g.populate();
        g
    }

    /// The path index of grid cell (`x` = row, `y` = column) on the active
    /// player's path, or `None` where the cell is not on it.
    pub fn get_active_cell(&self, x: i8, y: i8) -> (r: Option<usize>)
        requires
            self.tables_built(),
        ensures
            r == (match path_index_at(self.active_player, x as int, y as int) {
                Some(v) => Some(v as usize),
                None => None::<usize>,
            }),
    {
        if x < 0 || x > 2 || y < 0 || y > 7 {
            return None;
        }
        let key: i8 = x * 8 + y;
        assert(key as int / 8 == x && key as int % 8 == y);
        let found = match self.active_player {
            Player::First => self.grid_to_path_1.get(&key),
            Player::Second => self.grid_to_path_2.get(&key),
        };
        match found {
            Some(v) => Some(*v as usize),
            None => None,
        }
    }

    /// Builds the lookup tables between grid cells and each player's path
    /// indices, in both directions.
    pub fn populate(&mut self)
        ensures
            final(self).tables_built(),
            old(self).wf() ==> final(self).wf(),
            final(self).cells == old(self).cells,
            final(self).player_1 == old(self).player_1,
            final(self).player_2 == old(self).player_2,
            final(self).active_player == old(self).active_player,
            final(self).dice_roll == old(self).dice_roll,
    {
        self.grid_to_path_1 = HashMap::new();
        self.grid_to_path_2 = HashMap::new();
        self.path_to_grid_1 = HashMap::new();
        self.path_to_grid_2 = HashMap::new();
        proof {
            assert(self.grid_to_path_1@ =~= grid_table_below(Player::First, 0));
            assert(self.grid_to_path_2@ =~= grid_table_below(Player::Second, 0));
            assert(self.path_to_grid_1@ =~= path_table_below(Player::First, 0));
            assert(self.path_to_grid_2@ =~= path_table_below(Player::Second, 0));
        }
        let mut k: i8 = 0;
        while k < 24
            invariant
                0 <= k <= 24,
                self.grid_to_path_1@ == grid_table_below(Player::First, k as int),
                self.grid_to_path_2@ == grid_table_below(Player::Second, k as int),
                self.path_to_grid_1@ == path_table_below(Player::First, k as int),
                self.path_to_grid_2@ == path_table_below(Player::Second, k as int),
                self.cells == old(self).cells,
                self.player_1 == old(self).player_1,
                self.player_2 == old(self).player_2,
                self.active_player == old(self).active_player,
                self.dice_roll == old(self).dice_roll,
            decreases 24 - k,
        {
            let row: i8 = k / 8;
            let col: i8 = k % 8;
            if let Some(v) = track_position(Player::First, row, col) {
                self.grid_to_path_1.insert(k, v);
                self.path_to_grid_1.insert(v, (row, col));
            }
            if let Some(v) = track_position(Player::Second, row, col) {
                self.grid_to_path_2.insert(k, v);
                self.path_to_grid_2.insert(v, (row, col));
            }
            proof {
                lemma_tables_grow(Player::First, k as int);
                lemma_tables_grow(Player::Second, k as int);
            }
            k = k + 1;
        }
        proof {
            assert(self.grid_to_path_1@ =~= grid_table(Player::First));
            assert(self.grid_to_path_2@ =~= grid_table(Player::Second));
            assert(self.path_to_grid_1@ =~= path_table(Player::First));
            assert(self.path_to_grid_2@ =~= path_table(Player::Second));
        }
    }

    /// Throws the dice: four binary draws, summed, become the pending roll,
    /// replacing any earlier one.
    pub fn roll(&mut self)
        ensures
            final(self).dice_roll matches Some(v) && 0 <= v <= 4,
            *final(self) == (Gameboard { dice_roll: final(self).dice_roll, ..*old(self) }),
            old(self).wf() ==> final(self).wf(),
    {
        let mut draws: [bool; 4] = [false; 4];
        let mut j: usize = 0;
        while j < 4
            invariant
                0 <= j <= 4,
            decreases 4 - j,
        {
            draws[j] = draw_binary() == 1;
            j = j + 1;
        }
        self.roll_with(draws);
    }

    /// Makes the sum of four binary draws (`true` for a 1) the pending roll.
    pub fn roll_with(&mut self, draws: [bool; 4])
        ensures
            final(self).dice_roll == Some(count_true(draws@) as i8),
            0 <= count_true(draws@) <= 4,
            *final(self) == (Gameboard { dice_roll: final(self).dice_roll, ..*old(self) }),
            old(self).wf() ==> final(self).wf(),
    {
        self.dice_roll = Some(sum_draws(draws));
    }

    /// Whether moving a checker of `array` from `cell_id` by `dice_roll` is
    /// legal: the destination is on the path and is home or does not hold
    /// exactly one of the mover's checkers, the source holds a checker, and
    /// the roll is positive.
    fn move_is_valid(array: &[i8; 16], cell_id: usize, dice_roll: usize) -> (r: bool)
        ensures
            r == move_is_legal(array@, cell_id as int, dice_roll as int),
    {
        cell_id < 16 && dice_roll < 16 && (cell_id + dice_roll) < 16 && (array[cell_id
            + dice_roll] != 1 || cell_id + dice_roll == 15) && array[cell_id] >= 1 && dice_roll > 0
    }

    /// Moves a checker of `own` from `i` by `roll` if that is legal, capturing
    /// a lone checker of `opp` in the shared lane.
    fn step(own: &mut [i8; 16], opp: &mut [i8; 16], i: usize, roll: i8) -> (r: MoveOutcome)
        requires
            valid_track(old(own)@),
            valid_track(old(opp)@),
            roll > 0,
        ensures
            r == outcome(old(own)@, old(opp)@, Some(roll), i as int),
            r.is_success() ==> final(own)@ == advanced(old(own)@, i as int, i + roll)
                && final(opp)@ == after_landing(old(opp)@, i + roll),
            !r.is_success() ==> *final(own) == *old(own) && *final(opp) == *old(opp),
            valid_track(final(own)@),
            valid_track(final(opp)@),
    {
        let d: usize = roll as usize;
        if !Gameboard::move_is_valid(&*own, i, d) {
            if i >= 16 || d >= 16 || i + d >= 16 {
                MoveOutcome::OutOfBounds
            } else if own[i] < 1 {
                MoveOutcome::NoSourceChecker
            } else {
                MoveOutcome::InvalidDestination
            }
        } else {
            let dest: usize = i + d;
            proof {
                lemma_advance_conserves(own@, i as int, dest as int);
                lemma_capture_conserves(opp@, dest as int);
                lemma_counter_at_most_total(own@, dest as int);
                lemma_counter_at_most_total(opp@, 0);
            }
            own[i] = own[i] - 1;
            own[dest] = own[dest] + 1;
            if opp[dest] == 1 && dest > 4 && dest < 13 {
                opp[dest] = 0;
                opp[0] = opp[0] + 1;
                MoveOutcome::Captured
            } else {
                MoveOutcome::Moved
            }
        }
    }

    /// Moves one of the active player's checkers from path index `i` by the
    /// pending roll. On success the turn passes to the other player; on
    /// failure the board is left as it was.
    pub fn _move(&mut self, i: usize) -> (r: MoveOutcome)
        requires
            old(self).wf(),
        ensures
            final(self).wf(),
            r == outcome(
                old(self).track(old(self).active_player),
                old(self).track(old(self).active_player.other()),
                old(self).dice_roll,
                i as int,
            ),
            r.is_success() <==> (old(self).dice_roll matches Some(roll) && move_is_legal(
                old(self).track(old(self).active_player),
                i as int,
                roll as int,
            )),
            !r.is_success() ==> *final(self) == *old(self),
            (match old(self).dice_roll {
                None => true,
                Some(roll) => roll <= 0 || i + roll >= 16,
            }) ==> !r.is_success() && *final(self) == *old(self),
            r.is_success() ==> ({
                let p = old(self).active_player;
                let d = i + old(self).dice_roll->Some_0;
                &&& final(self).track(p) == advanced(old(self).track(p), i as int, d)
                &&& final(self).track(p.other()) == after_landing(old(self).track(p.other()), d)
                &&& final(self).active_player == p.other()
                &&& final(self).dice_roll is None
                &&& final(self).same_layout(*old(self))
            }),
            old(self).dice_roll matches Some(roll) && roll > 0 && i + roll == 15 && old(self).track(
                old(self).active_player,
            )[i as int] >= 1 ==> r.is_success(),
            r == MoveOutcome::Captured <==> r.is_success() && captures(
                old(self).track(old(self).active_player.other()),
                i + old(self).dice_roll->Some_0,
            ),
    {
        let roll: i8 = match self.dice_roll {
            None => {
                return MoveOutcome::RollExhausted;
            },
            Some(v) => v,
        };
        if roll <= 0 {
            return MoveOutcome::RollExhausted;
        }
        let r = match self.active_player {
            Player::First => Gameboard::step(&mut self.player_1, &mut self.player_2, i, roll),
            Player::Second => Gameboard::step(&mut self.player_2, &mut self.player_1, i, roll),
        };
        if r == MoveOutcome::Moved || r == MoveOutcome::Captured {
            self.pass_turn();
        }
        r
    }

    /// Ends the current turn: the pending roll is cleared and the other
    /// player becomes active.
    pub fn pass_turn(&mut self)
        ensures
            *final(self) == (Gameboard {
                dice_roll: None,
                active_player: old(self).active_player.other(),
                ..*old(self)
            }),
            old(self).wf() ==> final(self).wf(),
    {
        self.dice_roll = None;
        match self.active_player {
            Player::First => self.active_player = Player::Second,
            Player::Second => self.active_player = Player::First,
        }
    }

    /// Whether some player has brought all checkers home.
    pub fn is_finished(&self) -> (r: bool)
        ensures
            r == (self.player_1[15] == CHECKERS || self.player_2[15] == CHECKERS),
    {
        (self.player_1[15] == CHECKERS) || (self.player_2[15] == CHECKERS)
    }
}

} // verus!
