//! The board: a square grid of tiles kept in row-major order, its
//! structural validation and the test for the solved arrangement.
//!
//! A board is built first and validated afterwards: between the two it may
//! hold any number of tiles carrying any numbers.

use super::errors::IncorrectBoardError;
use super::tile::Tile;
use crate::text::{decimal, decimal_text, pad_right, padded};
use vstd::prelude::*;
use vstd::string::*;

verus! {

/// What a board is, mathematically: the side of its grid and the numbers of
/// the tiles it holds, row after row.
pub struct BoardView {
    pub size: nat,
    pub tiles: Seq<nat>,
}

impl BoardView {
    /// How many cells the grid has, hence how many tiles a complete board
    /// holds.
    pub open spec fn cells(self) -> nat {
        self.size * self.size
    }

    /// Where the tile of column `x` and row `y` stands among the tiles.
    pub open spec fn index_of(self, x: int, y: int) -> int {
        y * self.size + x
    }

    /// The cell of column `x` and row `y` lies on the grid and its tile has
    /// been stored.
    pub open spec fn holds(self, x: int, y: int) -> bool {
        &&& 0 <= x < self.size
        &&& 0 <= y < self.size
        &&& self.index_of(x, y) < self.tiles.len()
    }

    /// Every count and every number of the view fits a machine word, as
    /// those of the view of a stored board do.
    pub open spec fn fits(self) -> bool {
        &&& self.cells() <= usize::MAX
        &&& self.tiles.len() <= usize::MAX
        &&& forall|i: int| 0 <= i < self.tiles.len() ==> self.tiles[i] <= usize::MAX
    }

    /// The tile at index `i` cannot stand in a well-formed board, whatever
    /// follows it: its number is too large for the grid, or a tile before it
    /// carries the same number.
    pub open spec fn fault_at(self, i: int) -> bool {
        ||| self.tiles[i] >= self.cells()
        ||| exists|j: int| 0 <= j < i && self.tiles[j] == self.tiles[i]
    }

    /// `i` is the index of the first tile at fault.
    pub open spec fn first_fault(self, i: int) -> bool {
        &&& 0 <= i < self.tiles.len()
        &&& self.fault_at(i)
        &&& forall|k: int| 0 <= k < i ==> !self.fault_at(k)
    }

    /// The tiles are the numbers `0 .. cells()`, each exactly once, in some
    /// order.
    pub open spec fn is_permutation(self) -> bool {
        &&& self.tiles.len() == self.cells()
        &&& forall|i: int| 0 <= i < self.tiles.len() ==> self.tiles[i] < self.cells()
        &&& forall|i: int, j: int|
            0 <= i < j < self.tiles.len() ==> self.tiles[i] != self.tiles[j]
    }

    /// What validation reports. The count of tiles is judged first; then the
    /// first tile at fault decides, and of the two faults a number out of
    /// bounds is reported in preference to a repeated one.
    pub open spec fn verdict(self) -> Result<(), IncorrectBoardError> {
        if self.tiles.len() != self.cells() {
            Err(
                IncorrectBoardError::WrongNumberOfTile {
                    found: self.tiles.len() as usize,
                    expected: self.cells() as usize,
                },
            )
        } else if exists|i: int| self.first_fault(i) {
            let i = choose|i: int| self.first_fault(i);
            if self.tiles[i] >= self.cells() {
                Err(IncorrectBoardError::OutOfBoundTile { tile: self.tiles[i] as usize })
            } else {
                Err(IncorrectBoardError::DuplicatedTile { tile: self.tiles[i] as usize })
            }
        } else {
            Ok(())
        }
    }

    /// The first `count` cells of row `y` as they are printed, one after the
    /// other.
    pub open spec fn row_text(self, y: int, count: nat) -> Seq<char>
        decreases count,
    {
        if count == 0 {
            Seq::empty()
        } else {
            self.row_text(y, (count - 1) as nat) + cell_text(
                self.tiles[self.index_of(count - 1, y)],
            )
        }
    }

    /// The first `count` rows as they are printed, each on a line of its
    /// own.
    pub open spec fn rows_text(self, count: nat) -> Seq<char>
        decreases count,
    {
        if count == 0 {
            Seq::empty()
        } else {
            self.rows_text((count - 1) as nat) + self.row_text(count - 1, self.size).push('\n')
        }
    }

    /// The board as it is printed: the size on a line, then the rows.
    pub open spec fn text(self) -> Seq<char> {
        "size : "@ + decimal(self.size).push('\n') + self.rows_text(self.size)
    }

    /// The solved arrangement: every cell but the first holds the tile that
    /// carries the cell's own index. The first cell is the blank's, and what
    /// it holds is not looked at. A board that lacks one of the tiles to look
    /// at is not solved.
    pub open spec fn is_goal(self) -> bool {
        &&& self.cells() > 1 ==> self.tiles.len() >= self.cells()
        &&& forall|i: int| 1 <= i < self.cells() ==> #[trigger] self.tiles[i] == i
    }
}

/// A cell as it is printed: the label of its tile, left-justified in a
/// column of four characters, then a space.
pub open spec fn cell_text(nbr: nat) -> Seq<char> {
    padded(decimal(nbr), 4).push(' ')
}

/// The numbers carried by a sequence of tiles.
pub open spec fn numbers(tiles: Seq<Tile>) -> Seq<nat> {
    tiles.map_values(|t: Tile| t@)
}

/// The solved row of `cells` tiles with `first` in the blank's cell.
pub open spec fn goal_tiles(cells: nat, first: nat) -> Seq<nat> {
    Seq::new(
        cells,
        |i: int|
            if i == 0 {
                first
            } else {
                i as nat
            },
    )
}

/// A square grid of tiles, stored row after row.
#[derive(Debug)]
pub struct Board {
    size: usize,
    tiles: Vec<Tile>,
}

impl View for Board {
    type V = BoardView;

    closed spec fn view(&self) -> BoardView {
        BoardView { size: self.size as nat, tiles: numbers(self.tiles@) }
    }
}

impl Clone for Board {
    fn clone(&self) -> (board: Board)
        ensures
            board@ == self@,
    {
        proof {
            use_type_invariant(self);
        }
        let tiles = self.tiles.clone();
        assert(tiles@ == self.tiles@);
        Board { size: self.size, tiles }
    }
}

impl Board {
    /// The number of cells of the grid fits a machine word.
    #[verifier::type_invariant]
    spec fn inv(self) -> bool {
        self.size * self.size <= usize::MAX
    }

    /// An empty board of side `size`, with room for all its tiles.
    pub fn new(size: usize) -> (board: Board)
        requires
            size * size <= usize::MAX,
        ensures
            board@.size == size,
            board@.tiles == Seq::<nat>::empty(),
    {
        Board { size, tiles: Vec::with_capacity(size * size) }
    }

    /// The board of side `size` that holds `tiles`, taken as they are.
    pub fn new_with_tiles(size: usize, tiles: Vec<Tile>) -> (board: Board)
        requires
            size * size <= usize::MAX,
        ensures
            board@.size == size,
            board@.tiles == numbers(tiles@),
    {
        Board { size, tiles }
    }

    /// Store the tiles of `new_tiles` after those the board holds, in their
    /// order. `new_tiles` keeps them.
    pub fn append_tiles(&mut self, new_tiles: &mut Vec<Tile>)
        ensures
            final(self)@.size == old(self)@.size,
            final(self)@.tiles == old(self)@.tiles + numbers(old(new_tiles)@),
            final(new_tiles)@ == old(new_tiles)@,
    {
        proof {
            use_type_invariant(&*self);
        }
        let mut tiles: Vec<Tile> = Vec::new();
        core::mem::swap(&mut self.tiles, &mut tiles);
        let count = new_tiles.len();
        let mut i: usize = 0;
        while i < count
            invariant
                i <= count,
                count == new_tiles@.len(),
                new_tiles@ == old(new_tiles)@,
                tiles@ == old(self).tiles@ + new_tiles@.subrange(0, i as int),
            decreases count - i,
        {
            tiles.push(new_tiles[i]);
            i += 1;
        }
        self.tiles = tiles;
        assert(new_tiles@.subrange(0, count as int) == new_tiles@);
        assert(numbers(old(self).tiles@ + new_tiles@) == numbers(old(self).tiles@) + numbers(
            new_tiles@,
        ));
    }

    /// The side of the grid.
    pub fn get_size(&self) -> (size: usize)
        ensures
            size == self@.size,
    {
        self.size
    }

    /// The number of tiles of a complete board, the blank included.
    pub fn nb_tile(&self) -> (count: usize)
        ensures
            count == self@.cells(),
    {
        proof {
            use_type_invariant(self);
        }
        self.size * self.size
    }

    /// The tile of column `x` and row `y`.
    pub fn get(&self, x: usize, y: usize) -> (tile: Tile)
        requires
            self@.holds(x as int, y as int),
        ensures
            tile@ == self@.tiles[self@.index_of(x as int, y as int)],
    {
        assert(self@.tiles.len() == self.tiles.len());
        assert(0 <= y * self.size) by (nonlinear_arith);
        self.tiles[y * self.size + x]
    }

    /// The board as text: the size on a first line, then one line for each
    /// row, every tile left-justified in its column.
    pub fn to_string(&self) -> (text: String)
        requires
            self@.tiles.len() >= self@.cells(),
        ensures
            text@ == self@.text(),
    {
        proof {
            use_type_invariant(self);
            reveal_strlit(" ");
            reveal_strlit("\n");
        }
        let mut text = "size : ".to_owned();
        text.append(decimal_text(self.size).as_str());
        text.append("\n");
        let ghost header = text@;
        assert(header =~= "size : "@ + decimal(self@.size).push('\n'));
        let mut y: usize = 0;
        while y < self.size
            invariant
                y <= self.size,
                self@.tiles.len() >= self@.cells(),
                " "@ == seq![' '],
                "\n"@ == seq!['\n'],
                text@ == header + self@.rows_text(y as nat),
            decreases self.size - y,
        {
            let ghost above = text@;
            let mut x: usize = 0;
            while x < self.size
                invariant
                    x <= self.size,
                    y < self.size,
                    self@.tiles.len() >= self@.cells(),
                    " "@ == seq![' '],
                    text@ == above + self@.row_text(y as int, x as nat),
                decreases self.size - x,
            {
                assert(y * self.size + x < self.size * self.size) by (nonlinear_arith)
                    requires
                        x < self.size,
                        y < self.size,
                ;
                let tile = self.get(x, y);
                let label = pad_right(tile.to_string(), 4);
                text.append(label.as_str());
                text.append(" ");
                x += 1;
                assert(text@ =~= above + self@.row_text(y as int, x as nat));
            }
            text.append("\n");
            y += 1;
            assert(text@ =~= header + self@.rows_text(y as nat));
        }
        text
    }

    /// Judge whether the board is a well-formed instance: whether its tiles
    /// are the numbers `0 .. nb_tile()`, each exactly once. Whether the
    /// instance can be solved is not looked at.
    pub fn is_correct(&self) -> (verdict: Result<(), IncorrectBoardError>)
        ensures
            verdict == self@.verdict(),
    {
        let expected = self.nb_tile();
        if self.tiles.len() != expected {
            return Err(
                IncorrectBoardError::WrongNumberOfTile { found: self.tiles.len(), expected },
            );
        }
        let mut used: Vec<bool> = vec![false; expected];
        let mut i: usize = 0;
        while i < expected
            invariant
                i <= expected,
                expected == self@.cells(),
                self.tiles@.len() == expected,
                used@.len() == expected,
                forall|k: int| 0 <= k < i ==> !self@.fault_at(k),
                forall|n: int|
                    0 <= n < expected ==> (#[trigger] used@[n] <==> exists|j: int|
                        0 <= j < i && self@.tiles[j] == n),
            decreases expected - i,
        {
            let nbr = self.tiles[i].to_nbr();
            if nbr >= expected {
                proof {
                    lemma_first_fault_decides(self@, i as int);
                }
                return Err(IncorrectBoardError::OutOfBoundTile { tile: nbr });
            }
            if used[nbr] {
                proof {
                    lemma_first_fault_decides(self@, i as int);
                }
                return Err(IncorrectBoardError::DuplicatedTile { tile: nbr });
            }
            used.set(nbr, true);
            i += 1;
        }
        Ok(())
    }

    /// Whether the tiles stand in the solved arrangement.
    pub fn is_complete(&self) -> (complete: bool)
        ensures
            complete == self@.is_goal(),
    {
        let expected = self.nb_tile();
        if expected > 1 && self.tiles.len() < expected {
            return false;
        }
        let mut i: usize = 1;
        while i < expected
            invariant
                1 <= i,
                expected == self@.cells(),
                expected > 1 ==> expected <= self.tiles@.len(),
                forall|k: int| 1 <= k < i ==> #[trigger] self@.tiles[k] == k,
            decreases expected - i,
        {
            if self.tiles[i].to_nbr() != i {
                assert(self@.tiles[i as int] != i);
                return false;
            }
            i += 1;
        }
        true
    }
}

/// A board passes validation exactly when its tiles are a permutation of
/// the numbers of its cells.
pub proof fn lemma_correct_iff_permutation(board: BoardView)
    ensures
        board.verdict() is Ok <==> board.is_permutation(),
{
    if board.tiles.len() == board.cells() {
        if exists|i: int| board.first_fault(i) {
            let i = choose|i: int| board.first_fault(i);
            if board.tiles[i] < board.cells() {
                let j = choose|j: int| 0 <= j < i && board.tiles[j] == board.tiles[i];
                assert(board.tiles[j] == board.tiles[i]);
            }
        } else {
            lemma_no_first_fault(board);
            assert forall|i: int, j: int| 0 <= i < j < board.tiles.len() implies board.tiles[i]
                != board.tiles[j] by {
                assert(!board.fault_at(j));
            }
            assert forall|i: int| 0 <= i < board.tiles.len() implies board.tiles[i]
                < board.cells() by {
                assert(!board.fault_at(i));
            }
        }
    }
}

/// Where no tile is the first at fault, no tile is at fault.
proof fn lemma_no_first_fault(board: BoardView)
    requires
        !exists|i: int| board.first_fault(i),
    ensures
        forall|i: int| 0 <= i < board.tiles.len() ==> !board.fault_at(i),
{
    assert forall|i: int| 0 <= i < board.tiles.len() implies !board.fault_at(i) by {
        lemma_fault_has_a_first(board, i);
    }
}

/// A tile at fault is the first one, or comes after the first one.
proof fn lemma_fault_has_a_first(board: BoardView, i: int)
    requires
        0 <= i < board.tiles.len(),
        !exists|k: int| board.first_fault(k),
    ensures
        !board.fault_at(i),
    decreases i,
{
    assert forall|k: int| 0 <= k < i implies !board.fault_at(k) by {
        lemma_fault_has_a_first(board, k);
    }
    assert(!board.first_fault(i));
}

/// A board with the wrong number of tiles is rejected for that, whatever the
/// tiles are, and the report carries the number found and the number of
/// cells.
pub proof fn lemma_wrong_count_reported(board: BoardView)
    requires
        board.fits(),
        board.tiles.len() != board.cells(),
    ensures
        board.verdict() matches Err(IncorrectBoardError::WrongNumberOfTile { found, expected })
            && found == board.tiles.len() && expected == board.size * board.size,
{
}

/// A number out of bounds is reported, with that number, when no tile before
/// it is at fault. What stands after it, repeated numbers included, does not
/// matter.
pub proof fn lemma_out_of_bound_reported(board: BoardView, i: int)
    requires
        board.fits(),
        board.tiles.len() == board.cells(),
        0 <= i < board.tiles.len(),
        board.tiles[i] >= board.cells(),
        forall|k: int| 0 <= k < i ==> !board.fault_at(k),
    ensures
        board.verdict() matches Err(IncorrectBoardError::OutOfBoundTile { tile }) && tile
            == board.tiles[i],
{
    lemma_first_fault_decides(board, i);
}

/// A number within bounds that repeats the number of an earlier tile is
/// reported, with that number, when no tile before the repetition is at
/// fault.
pub proof fn lemma_duplicate_reported(board: BoardView, j: int, i: int)
    requires
        board.fits(),
        board.tiles.len() == board.cells(),
        0 <= j < i < board.tiles.len(),
        board.tiles[j] == board.tiles[i],
        board.tiles[i] < board.cells(),
        forall|k: int| 0 <= k < i ==> !board.fault_at(k),
    ensures
        board.verdict() matches Err(IncorrectBoardError::DuplicatedTile { tile }) && tile
            == board.tiles[i],
{
    lemma_first_fault_decides(board, i);
}

/// A board with the right number of tiles that holds a number out of bounds,
/// or the same number twice, is rejected for one of its tiles.
pub proof fn lemma_faulty_tiles_rejected(board: BoardView, i: int)
    requires
        board.tiles.len() == board.cells(),
        0 <= i < board.tiles.len(),
        board.fault_at(i),
    ensures
        board.verdict() is Err,
        !(board.verdict() matches Err(IncorrectBoardError::WrongNumberOfTile { .. })),
{
    if !exists|k: int| board.first_fault(k) {
        lemma_fault_has_a_first(board, i);
    }
}

/// Among the boards that hold as many tiles as they have cells, the solved
/// ones are exactly the rows `first, 1, 2, ..`, whatever `first` is.
pub proof fn lemma_goal_iff_goal_tiles(board: BoardView)
    requires
        board.tiles.len() == board.cells(),
    ensures
        board.is_goal() <==> board.tiles == goal_tiles(board.cells(), board.tiles[0]),
{
    let goal = goal_tiles(board.cells(), board.tiles[0]);
    if board.is_goal() {
        assert(board.tiles =~= goal);
    }
    if board.tiles == goal {
        assert forall|i: int| 1 <= i < board.cells() implies #[trigger] board.tiles[i] == i by {
            assert(goal[i] == i);
        }
    }
}

/// A board that holds something else than its index in a cell after the
/// first is not solved.
pub proof fn lemma_misplaced_tile_not_goal(board: BoardView, i: int)
    requires
        1 <= i < board.cells(),
        i < board.tiles.len() ==> board.tiles[i] != i,
    ensures
        !board.is_goal(),
{
    if i < board.tiles.len() {
        assert(board.tiles[i] != i);
    }
}

/// Validation reports the first tile at fault: where `i` is its index, the
/// verdict is that tile's number, as out of bounds if it is, as repeated
/// otherwise. Nothing that stands after `i` changes it.
pub proof fn lemma_first_fault_decides(board: BoardView, i: int)
    requires
        board.tiles.len() == board.cells(),
        board.first_fault(i),
    ensures
        board.tiles[i] >= board.cells() ==> board.verdict() == Err::<(), _>(
            IncorrectBoardError::OutOfBoundTile { tile: board.tiles[i] as usize },
        ),
        board.tiles[i] < board.cells() ==> board.verdict() == Err::<(), _>(
            IncorrectBoardError::DuplicatedTile { tile: board.tiles[i] as usize },
        ),
{
    let chosen = choose|k: int| board.first_fault(k);
    assert(board.first_fault(chosen));
    if chosen < i {
        assert(!board.fault_at(chosen));
    } else if i < chosen {
        assert(!board.fault_at(i));
    }
}

} // verus!
