//! The playing grid: a fixed array of cells, each empty or holding a color,
//! and the two legality predicates that piece movement relies on.
use vstd::prelude::*;
use crate::geometry::{
    Color, Coord, Piece, coord_is, local_cells, lemma_local_cells_bounded, HEIGHT, WIDTH, piece_cells, representable,
};

verus! {

/// Number of cells of the board.
pub const SIZE: usize = WIDTH * HEIGHT;

/// Row-major position of a cell in the board's storage.
pub open spec fn cell_index(c: (int, int)) -> int {
    c.1 * WIDTH + c.0
}

/// The cell lies on the board.
pub open spec fn in_board(c: (int, int)) -> bool {
    0 <= c.0 < WIDTH && 0 <= c.1 < HEIGHT
}

/// What a board holds at a cell.
pub open spec fn cell_at(b: Seq<Option<Color>>, c: (int, int)) -> Option<Color> {
    b[cell_index(c)]
}

/// The contents of a board with no settled cell.
pub open spec fn blank_cells() -> Seq<Option<Color>> {
    Seq::new(SIZE as nat, |i: int| None::<Color>)
}

/// Every cell of the piece is on the board.
pub open spec fn within_board(p: Piece) -> bool {
    forall|i: int| 0 <= i < 4 ==> #[trigger] in_board(piece_cells(p)[i])
}

/// The cell is on the board and empty.
pub open spec fn free(b: Seq<Option<Color>>, c: (int, int)) -> bool {
    in_board(c) && cell_at(b, c).is_none()
}

/// The piece may rest where it is: its cells are representable, on the
/// board, and empty.
pub open spec fn placeable(b: Seq<Option<Color>>, p: Piece) -> bool {
    &&& representable(p)
    &&& forall|i: int| 0 <= i < 4 ==> #[trigger] free(b, piece_cells(p)[i])
}

/// The piece cannot stand where it is: its cells are not representable, or
/// one of them is off the board or already filled.
pub open spec fn clipping(b: Seq<Option<Color>>, p: Piece) -> bool {
    ||| !representable(p)
    ||| exists|i: int|
        0 <= i < 4 && (!#[trigger] in_board(piece_cells(p)[i]) || cell_at(b, piece_cells(p)[i]).is_some())
}

/// Storage position `k` is one of the piece's cells.
pub open spec fn covers(p: Piece, k: int) -> bool {
    exists|i: int| 0 <= i < 4 && #[trigger] cell_index(piece_cells(p)[i]) == k
}

/// The board after the piece's cells are written with `color`.
pub open spec fn committed(b: Seq<Option<Color>>, p: Piece, color: Color) -> Seq<Option<Color>> {
    Seq::new(b.len(), |k: int| if covers(p, k) { Some(color) } else { b[k] })
}

/// Clipping and placeability are exact opposites.
pub proof fn lemma_clipping_iff_not_placeable(b: Seq<Option<Color>>, p: Piece)
    ensures
        clipping(b, p) == !placeable(b, p),
{
    if !clipping(b, p) {
        assert forall|i: int| 0 <= i < 4 implies #[trigger] free(b, piece_cells(p)[i]) by {
            assert(!(!in_board(piece_cells(p)[i]) || cell_at(b, piece_cells(p)[i]).is_some()));
        }
    }
    if !placeable(b, p) && representable(p) {
        let i = choose|i: int| 0 <= i < 4 && !#[trigger] free(b, piece_cells(p)[i]);
        assert(!in_board(piece_cells(p)[i]) || cell_at(b, piece_cells(p)[i]).is_some());
    }
    if placeable(b, p) && clipping(b, p) {
        let i = choose|i: int|
            0 <= i < 4 && (!#[trigger] in_board(piece_cells(p)[i]) || cell_at(b, piece_cells(p)[i]).is_some());
        assert(free(b, piece_cells(p)[i]));
    }
}

/// On a blank board a piece whose four cells all lie on the board is
/// placeable and not clipping.
pub proof fn lemma_blank_board_accepts(p: Piece)
    requires
        within_board(p),
    ensures
        placeable(blank_cells(), p),
        !clipping(blank_cells(), p),
{
    assert forall|i: int| 0 <= i < 4 implies #[trigger] free(blank_cells(), piece_cells(p)[i]) by {
        assert(in_board(piece_cells(p)[i]));
    }
    assert(representable(p)) by {
        assert forall|i: int| 0 <= i < 4 implies #[trigger] crate::geometry::on_columns(piece_cells(p)[i]) by {
            assert(in_board(piece_cells(p)[i]));
        }
    }
    lemma_clipping_iff_not_placeable(blank_cells(), p);
}

/// A piece lying on the board becomes unplaceable and clipping as soon as
/// one of its cells is filled.
pub proof fn lemma_filled_cell_blocks(b: Seq<Option<Color>>, p: Piece, i: int)
    requires
        b.len() == SIZE,
        within_board(p),
        0 <= i < 4,
        cell_at(b, piece_cells(p)[i]).is_some(),
    ensures
        !placeable(b, p),
        clipping(b, p),
{
    assert(!free(b, piece_cells(p)[i]));
    lemma_clipping_iff_not_placeable(b, p);
}

/// A placeable piece stands within four cells of the board on each axis.
pub proof fn lemma_placeable_position(b: Seq<Option<Color>>, p: Piece)
    requires
        placeable(b, p),
    ensures
        -4 <= p.position.x < WIDTH,
        -4 <= p.position.y < HEIGHT,
{
    lemma_local_cells_bounded(p.kind, p.rotation);
    assert(free(b, piece_cells(p)[0]));
    assert(local_cells(p.kind, p.rotation)[0].0 <= 4);
}

/// Storage positions that are empty in `before` and filled in `after`.
pub open spec fn newly_filled(before: Seq<Option<Color>>, after: Seq<Option<Color>>) -> Set<int> {
    Set::new(|k: int| 0 <= k < before.len() && before[k].is_none() && after[k].is_some())
}

/// Storage positions of the piece's cells.
pub open spec fn footprint(p: Piece) -> Set<int> {
    Set::new(|k: int| covers(p, k))
}

/// The four cells of a piece are distinct.
pub proof fn lemma_cells_distinct(p: Piece)
    ensures
        forall|i: int, j: int|
            0 <= i < 4 && 0 <= j < 4 && i != j ==> #[trigger] piece_cells(p)[i] != #[trigger] piece_cells(p)[j],
{
    assert(forall|i: int, j: int|
        0 <= i < 4 && 0 <= j < 4 && i != j ==> #[trigger] local_cells(p.kind, p.rotation)[i] != #[trigger] local_cells(p.kind, p.rotation)[j]);
}

/// Committing a placeable piece fills exactly its four cells, all of them
/// empty before, with `color`, and leaves every other cell as it was.
pub proof fn lemma_commit_fills_four(b: Seq<Option<Color>>, p: Piece, color: Color)
    requires
        b.len() == SIZE,
        placeable(b, p),
    ensures
        newly_filled(b, committed(b, p, color)) == footprint(p),
        footprint(p).len() == 4,
        forall|k: int| #[trigger] footprint(p).contains(k) ==> committed(b, p, color)[k] == Some(color),
        forall|k: int|
            0 <= k < SIZE && !#[trigger] footprint(p).contains(k) ==> committed(b, p, color)[k] == b[k],
{
    let c = piece_cells(p);
    lemma_cells_distinct(p);
    assert(free(b, c[0]) && free(b, c[1]) && free(b, c[2]) && free(b, c[3]));
    let four = set![cell_index(c[0]), cell_index(c[1]), cell_index(c[2]), cell_index(c[3])];
    assert forall|k: int| footprint(p).contains(k) <==> four.contains(k) by {
        if covers(p, k) {
            let i = choose|i: int| 0 <= i < 4 && #[trigger] cell_index(piece_cells(p)[i]) == k;
            assert(i == 0 || i == 1 || i == 2 || i == 3);
        }
        if four.contains(k) {
            if k == cell_index(c[0]) {
                assert(cell_index(piece_cells(p)[0]) == k);
            } else if k == cell_index(c[1]) {
                assert(cell_index(piece_cells(p)[1]) == k);
            } else if k == cell_index(c[2]) {
                assert(cell_index(piece_cells(p)[2]) == k);
            } else {
                assert(cell_index(piece_cells(p)[3]) == k);
            }
        }
    }
    assert(footprint(p) =~= four);
    assert(c[0] != c[1] && c[0] != c[2] && c[0] != c[3] && c[1] != c[2] && c[1] != c[3] && c[2] != c[3]);
    assert(cell_index(c[0]) != cell_index(c[1]));
    assert(cell_index(c[0]) != cell_index(c[2]));
    assert(cell_index(c[0]) != cell_index(c[3]));
    assert(cell_index(c[1]) != cell_index(c[2]));
    assert(cell_index(c[1]) != cell_index(c[3]));
    assert(cell_index(c[2]) != cell_index(c[3]));
    assert(four.len() == 4);
    assert forall|k: int| newly_filled(b, committed(b, p, color)).contains(k) <==> four.contains(k) by {
        if four.contains(k) {
            assert(footprint(p).contains(k));
            assert(0 <= k < SIZE);
        }
    }
    assert(newly_filled(b, committed(b, p, color)) =~= four);
}

/// A grid of `WIDTH` by `HEIGHT` cells, stored row by row.
pub struct Matrix {
    cells: Vec<Option<Color>>,
}

impl View for Matrix {
    type V = Seq<Option<Color>>;

    closed spec fn view(&self) -> Seq<Option<Color>> {
        self.cells@
    }
}

impl Matrix {
    /// The storage holds exactly one value per cell.
    pub open spec fn wf(&self) -> bool {
        self@.len() == SIZE
    }

    /// A board with every cell empty.
    pub fn blank() -> (r: Matrix)
        ensures
            r.wf(),
            r@ == blank_cells(),
    {
        let mut cells: Vec<Option<Color>> = Vec::new();
        let mut i: usize = 0;
        while i < SIZE
            invariant
                i <= SIZE,
                cells@ == Seq::new(i as nat, |k: int| None::<Color>),
            decreases SIZE - i,
        {
            cells.push(None);
            i = i + 1;
        }
        Matrix { cells }
    }

    /// The column exists.
    pub fn valid_coord(coord: Coord) -> (r: bool)
        ensures
            r == (coord.x < WIDTH),
    {
        coord.x < WIDTH
    }

    /// The cell lies on the board.
    pub fn in_matrix(coord: Coord) -> (r: bool)
        ensures
            r == in_board((coord.x as int, coord.y as int)),
    {
        Self::valid_coord(coord) && coord.y < HEIGHT
    }

    /// Storage position of a cell on the board.
    pub fn index(coord: Coord) -> (r: usize)
        requires
            in_board((coord.x as int, coord.y as int)),
        ensures
            r == cell_index((coord.x as int, coord.y as int)),
            r < SIZE,
    {
        coord.y * WIDTH + coord.x
    }

    /// What the board holds at a cell.
    pub fn cell(&self, coord: Coord) -> (r: Option<Color>)
        requires
            self.wf(),
            in_board((coord.x as int, coord.y as int)),
        ensures
            r == cell_at(self@, (coord.x as int, coord.y as int)),
    {
        self.cells[Self::index(coord)]
    }

    /// Writes one cell.
    pub fn set_cell(&mut self, coord: Coord, value: Option<Color>)
        requires
            old(self).wf(),
            in_board((coord.x as int, coord.y as int)),
        ensures
            final(self).wf(),
            final(self)@ == old(self)@.update(cell_index((coord.x as int, coord.y as int)), value),
    {
        let k = Self::index(coord);
        self.cells.set(k, value);
    }

    /// The piece may rest where it is.
    pub fn is_placeable(&self, piece: &Piece) -> (r: bool)
        requires
            self.wf(),
        ensures
            r == placeable(self@, *piece),
    {
        match piece.cells() {
            None => false,
            Some(cells) => {
                let mut i: usize = 0;
                while i < 4
                    invariant
                        self.wf(),
                        representable(*piece),
                        i <= 4,
                        forall|j: int|
                            0 <= j < 4 ==> #[trigger] coord_is(cells[j], piece_cells(*piece)[j]),
                        forall|j: int|
                            0 <= j < i ==> #[trigger] free(self@, piece_cells(*piece)[j]),
                    decreases 4 - i,
                {
                    let c = cells[i];
                    assert(coord_is(c, piece_cells(*piece)[i as int]));
                    if !Self::in_matrix(c) || self.cell(c).is_some() {
                        assert(!free(self@, piece_cells(*piece)[i as int]));
                        return false;
                    }
                    i = i + 1;
                }
                true
            },
        }
    }

    /// The piece cannot stand where it is.
    pub fn is_clipping(&self, piece: &Piece) -> (r: bool)
        requires
            self.wf(),
        ensures
            r == clipping(self@, *piece),
    {
        match piece.cells() {
            None => true,
            Some(cells) => {
                let mut i: usize = 0;
                while i < 4
                    invariant
                        self.wf(),
                        representable(*piece),
                        i <= 4,
                        forall|j: int|
                            0 <= j < 4 ==> #[trigger] coord_is(cells[j], piece_cells(*piece)[j]),
                        forall|j: int|
                            0 <= j < i ==> #[trigger] free(self@, piece_cells(*piece)[j]),
                    decreases 4 - i,
                {
                    let c = cells[i];
                    assert(coord_is(c, piece_cells(*piece)[i as int]));
                    if !Self::in_matrix(c) || self.cell(c).is_some() {
                        return true;
                    }
                    i = i + 1;
                }
                assert forall|j: int| 0 <= j < 4 implies !(!#[trigger] in_board(piece_cells(*piece)[j])
                    || cell_at(self@, piece_cells(*piece)[j]).is_some()) by {
                    assert(free(self@, piece_cells(*piece)[j]));
                }
                false
            },
        }
    }

    /// Writes `color` into the four cells of a placeable piece.
    pub fn commit(&mut self, piece: &Piece, color: Color)
        requires
            old(self).wf(),
            placeable(old(self)@, *piece),
        ensures
            final(self).wf(),
            final(self)@ == committed(old(self)@, *piece, color),
    {
        let cells = piece.cells().unwrap();
        let ghost b0 = self@;
        let mut i: usize = 0;
        while i < 4
            invariant
                self.wf(),
                b0.len() == SIZE,
                placeable(b0, *piece),
                i <= 4,
                forall|j: int| 0 <= j < 4 ==> #[trigger] coord_is(cells[j], piece_cells(*piece)[j]),
                forall|k: int|
                    0 <= k < SIZE ==> #[trigger] self@[k] == (if exists|j: int|
                        0 <= j < i && #[trigger] cell_index(piece_cells(*piece)[j]) == k {
                        Some(color)
                    } else {
                        b0[k]
                    }),
            decreases 4 - i,
        {
            let c = cells[i];
            assert(coord_is(c, piece_cells(*piece)[i as int]));
            assert(free(b0, piece_cells(*piece)[i as int]));
            self.set_cell(c, Some(color));
            i = i + 1;
        }
        assert(self@ =~= committed(b0, *piece, color));
    }
}

} // verus!
