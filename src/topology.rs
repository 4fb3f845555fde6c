//! Each player's path through the 3 x 8 grid.
//!
//! Row 1 is the shared lane (path indices 5..=12, left to right). The first
//! player's private lane is row 0 and the second player's is row 2; there the
//! columns 0..=7 carry the indices 4, 3, 2, 1, 0, 15, 14, 13.
//!
//! The lookup tables key a cell by `row * 8 + col`.

use vstd::prelude::*;

use crate::gameboard::Player;

verus! {

/// The row that holds `p`'s private lane.
pub open spec fn private_row(p: Player) -> int {
    match p {
        Player::First => 0,
        Player::Second => 2,
    }
}

/// The path index of cell (`row`, `col`) for player `p`, if the cell lies on
/// that player's path.
pub open spec fn path_index_at(p: Player, row: int, col: int) -> Option<int> {
    if !(0 <= col < 8) {
        None
    } else if row == 1 {
        Some(col + 5)
    } else if row == private_row(p) {
        if col <= 4 {
            Some(4 - col)
        } else {
            Some(20 - col)
        }
    } else {
        None
    }
}

/// The cell (row, column) that carries path index `idx` (0..=15) for `p`.
pub open spec fn cell_of_path(p: Player, idx: int) -> (int, int) {
    if idx <= 4 {
        (private_row(p), 4 - idx)
    } else if idx <= 12 {
        (1, idx - 5)
    } else {
        (private_row(p), 20 - idx)
    }
}

/// The table key of a cell.
pub open spec fn cell_key(row: int, col: int) -> int {
    row * 8 + col
}

/// The grid-to-path table of `p`, restricted to the keys below `n`.
pub open spec fn grid_table_below(p: Player, n: int) -> Map<i8, i8> {
    Map::new(
        |k: i8| 0 <= k < n && k < 24 && path_index_at(p, k as int / 8, k as int % 8) is Some,
        |k: i8| path_index_at(p, k as int / 8, k as int % 8)->Some_0 as i8,
    )
}

/// The path-to-grid table of `p`, restricted to the indices whose cell key is
/// below `n`.
pub open spec fn path_table_below(p: Player, n: int) -> Map<i8, (i8, i8)> {
    Map::new(
        |i: i8| 0 <= i < 16 && cell_key(cell_of_path(p, i as int).0, cell_of_path(p, i as int).1) < n,
        |i: i8| (cell_of_path(p, i as int).0 as i8, cell_of_path(p, i as int).1 as i8),
    )
}

/// The full grid-to-path table of `p`: every cell on `p`'s path, keyed by
/// `row * 8 + col`, mapped to its path index.
pub open spec fn grid_table(p: Player) -> Map<i8, i8> {
    grid_table_below(p, 24)
}

/// The full path-to-grid table of `p`: every path index mapped to its cell.
pub open spec fn path_table(p: Player) -> Map<i8, (i8, i8)> {
    path_table_below(p, 24)
}

/// The cell of each path index lies on the path and leads back to the index.
pub proof fn lemma_cell_of_path_inverts(p: Player, idx: int)
    requires
        0 <= idx < 16,
    ensures
        0 <= cell_of_path(p, idx).0 < 3,
        0 <= cell_of_path(p, idx).1 < 8,
        path_index_at(p, cell_of_path(p, idx).0, cell_of_path(p, idx).1) == Some(idx),
{
}

/// Extending the tables by the cell with key `k`: nothing changes where the
/// cell is off the path; otherwise the cell gains its index and the index
/// gains the cell.
pub proof fn lemma_tables_grow(p: Player, k: int)
    requires
        0 <= k < 24,
    ensures
        ({
            let row = k / 8;
            let col = k % 8;
            match path_index_at(p, row, col) {
                Some(v) => {
                    &&& grid_table_below(p, k + 1) == grid_table_below(p, k).insert(k as i8, v as i8)
                    &&& path_table_below(p, k + 1) == path_table_below(p, k).insert(
                        v as i8,
                        (row as i8, col as i8),
                    )
                },
                None => {
                    &&& grid_table_below(p, k + 1) == grid_table_below(p, k)
                    &&& path_table_below(p, k + 1) == path_table_below(p, k)
                },
            }
        }),
{
    let row = k / 8;
    let col = k % 8;
    assert forall|i: int| 0 <= i < 16 implies #[trigger] cell_key(cell_of_path(p, i).0, cell_of_path(p, i).1) == k <==> path_index_at(p, row, col) == Some(i) by {
        lemma_cell_of_path_inverts(p, i);
    }
    match path_index_at(p, row, col) {
        Some(v) => {
            assert(grid_table_below(p, k + 1) =~= grid_table_below(p, k).insert(k as i8, v as i8));
            assert(path_table_below(p, k + 1) =~= path_table_below(p, k).insert(
                v as i8,
                (row as i8, col as i8),
            ));
        },
        None => {
            assert(grid_table_below(p, k + 1) =~= grid_table_below(p, k));
            assert(path_table_below(p, k + 1) =~= path_table_below(p, k));
        },
    }
}

/// Path index of cell (`row`, `col`) for player `p`, or `None` where the cell
/// is not on that player's path.
pub fn track_position(p: Player, row: i8, col: i8) -> (r: Option<i8>)
    ensures
        r == (match path_index_at(p, row as int, col as int) {
            Some(v) => Some(v as i8),
            None => None::<i8>,
        }),
        r matches Some(v) ==> 0 <= v < 16,
{
    if col < 0 || col >= 8 {
        None
    } else if row == 1 {
        Some(col + 5)
    } else if (row == 0 && p == Player::First) || (row == 2 && p == Player::Second) {
        if col <= 4 {
            Some(4 - col)
        } else {
            Some(20 - col)
        }
    } else {
        None
    }
}

} // verus!
