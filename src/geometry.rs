//! Piece shapes, orientations and the transform from a piece's abstract
//! placement to the board cells it covers.
use vstd::prelude::*;

verus! {

/// Number of columns of the board.
pub const WIDTH: usize = 10;

/// Number of rows of the board.
pub const HEIGHT: usize = 20;

/// A signed pair: a local cell of a shape, or a translation.
#[derive(Clone, Copy, Debug, PartialEq, Eq, Structural)]
pub struct Offset {
    pub x: isize,
    pub y: isize,
}

/// A board cell, column `x` and row `y` (row 0 is the bottom row).
#[derive(Clone, Copy, Debug, PartialEq, Eq, Structural)]
pub struct Coord {
    pub x: usize,
    pub y: usize,
}

/// The seven shapes.
#[derive(Clone, Copy, Debug, PartialEq, Eq, Structural)]
pub enum Kind {
    O,
    I,
    T,
    L,
    J,
    S,
    Z,
}

/// The four orientations, in clockwise order.
#[derive(Clone, Copy, Debug, PartialEq, Eq, Structural)]
pub enum Rotation {
    N,
    E,
    S,
    W,
}

/// The display color of a settled cell; one per shape.
#[derive(Clone, Copy, Debug, PartialEq, Eq, Structural)]
pub enum Color {
    Yellow,
    Cyan,
    Purple,
    Orange,
    Blue,
    Green,
    Red,
}

/// A shape at a position and orientation; it may lie partly off the board.
#[derive(Clone, Copy, Debug, PartialEq, Eq, Structural)]
pub struct Piece {
    pub kind: Kind,
    pub position: Offset,
    pub rotation: Rotation,
}

/// The four cells of each shape in its unrotated local grid.
pub open spec fn template(k: Kind) -> Seq<(int, int)> {
    match k {
        Kind::O => seq![(1, 1), (1, 2), (2, 1), (2, 2)],
        Kind::I => seq![(0, 2), (1, 2), (2, 2), (3, 2)],
        Kind::T => seq![(0, 1), (1, 1), (2, 1), (1, 2)],
        Kind::L => seq![(0, 1), (1, 1), (2, 1), (2, 2)],
        Kind::J => seq![(0, 2), (0, 1), (1, 1), (2, 1)],
        Kind::S => seq![(0, 1), (1, 1), (1, 2), (2, 2)],
        Kind::Z => seq![(0, 2), (1, 2), (1, 1), (2, 1)],
    }
}

/// Side of the local grid a shape is drawn on.
pub open spec fn grid_size(k: Kind) -> int {
    match k {
        Kind::I => 4,
        _ => 3,
    }
}

/// The color each shape settles with.
pub open spec fn color_of(k: Kind) -> Color {
    match k {
        Kind::O => Color::Yellow,
        Kind::I => Color::Cyan,
        Kind::T => Color::Purple,
        Kind::L => Color::Orange,
        Kind::J => Color::Blue,
        Kind::S => Color::Green,
        Kind::Z => Color::Red,
    }
}

/// Rotation of a point about the origin by a quarter turn per step.
pub open spec fn rotate(r: Rotation, c: (int, int)) -> (int, int) {
    match r {
        Rotation::N => c,
        Rotation::E => (c.1, -c.0),
        Rotation::S => (-c.0, -c.1),
        Rotation::W => (-c.1, c.0),
    }
}

/// Unit shift, scaled by the grid size, that brings a rotated shape back
/// onto its local grid.
pub open spec fn realignment(r: Rotation) -> (int, int) {
    match r {
        Rotation::N => (0, 0),
        Rotation::E => (0, 1),
        Rotation::S => (1, 1),
        Rotation::W => (1, 0),
    }
}

/// Where a template cell lands in the local grid once the shape is turned;
/// the O shape is never turned.
pub open spec fn turned(k: Kind, r: Rotation, c: (int, int)) -> (int, int) {
    if k == Kind::O {
        c
    } else {
        let q = rotate(r, c);
        let d = realignment(r);
        (q.0 + d.0 * grid_size(k), q.1 + d.1 * grid_size(k))
    }
}

/// The four local cells of a shape in an orientation.
pub open spec fn local_cells(k: Kind, r: Rotation) -> Seq<(int, int)> {
    Seq::new(4, |i: int| turned(k, r, template(k)[i]))
}

/// The four cells a piece covers, as unbounded signed pairs.
pub open spec fn piece_cells(p: Piece) -> Seq<(int, int)> {
    Seq::new(
        4,
        |i: int|
            (
                local_cells(p.kind, p.rotation)[i].0 + p.position.x,
                local_cells(p.kind, p.rotation)[i].1 + p.position.y,
            ),
    )
}

/// The piece's cells can be written as board coordinates: no component is
/// negative and every column lies on the board.
pub open spec fn representable(p: Piece) -> bool {
    forall|i: int| 0 <= i < 4 ==> #[trigger] on_columns(piece_cells(p)[i])
}

/// A signed pair that names a board column and a non-negative row.
pub open spec fn on_columns(c: (int, int)) -> bool {
    0 <= c.0 < WIDTH && 0 <= c.1
}

/// A board coordinate names the signed pair `v`.
pub open spec fn coord_is(c: Coord, v: (int, int)) -> bool {
    c.x == v.0 && c.y == v.1
}

/// The next orientation clockwise.
pub open spec fn clockwise(r: Rotation) -> Rotation {
    match r {
        Rotation::N => Rotation::E,
        Rotation::E => Rotation::S,
        Rotation::S => Rotation::W,
        Rotation::W => Rotation::N,
    }
}

/// The next orientation counter-clockwise.
pub open spec fn counter_clockwise(r: Rotation) -> Rotation {
    match r {
        Rotation::N => Rotation::W,
        Rotation::E => Rotation::N,
        Rotation::S => Rotation::E,
        Rotation::W => Rotation::S,
    }
}

/// Every turned local cell lies in `[0, 4]` on both axes.
pub proof fn lemma_local_cells_bounded(k: Kind, r: Rotation)
    ensures
        forall|i: int|
            0 <= i < 4 ==> 0 <= #[trigger] local_cells(k, r)[i].0 <= 4 && 0 <= local_cells(
                k,
                r,
            )[i].1 <= 4,
        forall|i: int|
            0 <= i < 4 ==> 0 <= #[trigger] template(k)[i].0 <= 3 && 0 <= template(k)[i].1 <= 3,
{
}

impl Offset {
    pub fn new(x: isize, y: isize) -> (r: Offset)
        ensures
            r == (Offset { x, y }),
    {
        Offset { x, y }
    }

    /// This offset turned about the origin.
    pub fn rotated(self, r: Rotation) -> (res: Offset)
        requires
            self.x > isize::MIN,
            self.y > isize::MIN,
        ensures
            (res.x as int, res.y as int) == rotate(r, (self.x as int, self.y as int)),
    {
        match r {
            Rotation::N => self,
            Rotation::E => Offset { x: self.y, y: -self.x },
            Rotation::S => Offset { x: -self.x, y: -self.y },
            Rotation::W => Offset { x: -self.y, y: self.x },
        }
    }
}

impl Coord {
    pub fn new(x: usize, y: usize) -> (r: Coord)
        ensures
            r == (Coord { x, y }),
    {
        Coord { x, y }
    }
}

impl Kind {
    /// The template cells of this shape.
    pub fn cells(&self) -> (r: [Offset; 4])
        ensures
            forall|i: int| 0 <= i < 4 ==> (r[i].x as int, r[i].y as int) == #[trigger] template(*self)[i],
    {
        match self {
            Kind::O => [Offset::new(1, 1), Offset::new(1, 2), Offset::new(2, 1), Offset::new(2, 2)],
            Kind::I => [Offset::new(0, 2), Offset::new(1, 2), Offset::new(2, 2), Offset::new(3, 2)],
            Kind::T => [Offset::new(0, 1), Offset::new(1, 1), Offset::new(2, 1), Offset::new(1, 2)],
            Kind::L => [Offset::new(0, 1), Offset::new(1, 1), Offset::new(2, 1), Offset::new(2, 2)],
            Kind::J => [Offset::new(0, 2), Offset::new(0, 1), Offset::new(1, 1), Offset::new(2, 1)],
            Kind::S => [Offset::new(0, 1), Offset::new(1, 1), Offset::new(1, 2), Offset::new(2, 2)],
            Kind::Z => [Offset::new(0, 2), Offset::new(1, 2), Offset::new(1, 1), Offset::new(2, 1)],
        }
    }

    pub fn local_grid_size(&self) -> (r: isize)
        ensures
            r == grid_size(*self),
    {
        match self {
            Kind::I => 4,
            _ => 3,
        }
    }

    pub fn color(&self) -> (r: Color)
        ensures
            r == color_of(*self),
    {
        match self {
            Kind::O => Color::Yellow,
            Kind::I => Color::Cyan,
            Kind::T => Color::Purple,
            Kind::L => Color::Orange,
            Kind::J => Color::Blue,
            Kind::S => Color::Green,
            Kind::Z => Color::Red,
        }
    }
}

impl Rotation {
    /// The realignment shift of this orientation, before scaling.
    pub fn intrinsic_offset(&self) -> (r: Offset)
        ensures
            (r.x as int, r.y as int) == realignment(*self),
    {
        match self {
            Rotation::N => Offset::new(0, 0),
            Rotation::E => Offset::new(0, 1),
            Rotation::S => Offset::new(1, 1),
            Rotation::W => Offset::new(1, 0),
        }
    }

    pub fn clockwise(&self) -> (r: Rotation)
        ensures
            r == clockwise(*self),
    {
        match self {
            Rotation::N => Rotation::E,
            Rotation::E => Rotation::S,
            Rotation::S => Rotation::W,
            Rotation::W => Rotation::N,
        }
    }

    pub fn counter_clockwise(&self) -> (r: Rotation)
        ensures
            r == counter_clockwise(*self),
    {
        match self {
            Rotation::N => Rotation::W,
            Rotation::E => Rotation::N,
            Rotation::S => Rotation::E,
            Rotation::W => Rotation::S,
        }
    }
}

/// `pos + d` as an unsigned value, or `None` when it is negative.
fn shifted(pos: isize, d: isize) -> (r: Option<usize>)
    requires
        0 <= d <= 4,
    ensures
        r.is_some() == (pos + d >= 0),
        r.is_some() ==> r.unwrap() == pos + d,
{
    if pos >= 0 {
        Some(pos as usize + d as usize)
    } else {
        let s = pos + d;
        if s >= 0 {
            Some(s as usize)
        } else {
            None
        }
    }
}

impl Piece {
    /// This piece translated by `offset`.
    pub fn moved_by(&self, offset: Offset) -> (r: Piece)
        requires
            isize::MIN <= self.position.x + offset.x <= isize::MAX,
            isize::MIN <= self.position.y + offset.y <= isize::MAX,
        ensures
            r == (Piece {
                position: Offset {
                    x: (self.position.x + offset.x) as isize,
                    y: (self.position.y + offset.y) as isize,
                },
                ..*self
            }),
    {
        Piece {
            position: Offset { x: self.position.x + offset.x, y: self.position.y + offset.y },
            ..*self
        }
    }

    /// This piece in another orientation, at the same position.
    pub fn turned_to(&self, rotation: Rotation) -> (r: Piece)
        ensures
            r == (Piece { rotation, ..*self }),
    {
        Piece { rotation, ..*self }
    }

    /// A template cell turned to this piece's orientation.
    fn rotator(&self, cell: Offset) -> (r: Offset)
        requires
            isize::MIN + 8 < cell.x < isize::MAX - 8,
            isize::MIN + 8 < cell.y < isize::MAX - 8,
        ensures
            (r.x as int, r.y as int) == turned(self.kind, self.rotation, (cell.x as int, cell.y as int)),
    {
        match self.kind {
            Kind::O => cell,
            _ => {
                let q = cell.rotated(self.rotation);
                let d = self.rotation.intrinsic_offset();
                let g = self.kind.local_grid_size();
                Offset { x: q.x + d.x * g, y: q.y + d.y * g }
            },
        }
    }

    /// A turned local cell moved to this piece's position, as a board
    /// coordinate when it is one.
    fn translator(&self, cell: Offset) -> (r: Option<Coord>)
        requires
            0 <= cell.x <= 4,
            0 <= cell.y <= 4,
        ensures
            r.is_some() == (0 <= cell.x + self.position.x < WIDTH && 0 <= cell.y + self.position.y),
            r.is_some() ==> coord_is(r.unwrap(), (cell.x + self.position.x, cell.y + self.position.y)),
    {
        match shifted(self.position.x, cell.x) {
            None => None,
            Some(x) => {
                if x >= WIDTH {
                    None
                } else {
                    match shifted(self.position.y, cell.y) {
                        None => None,
                        Some(y) => Some(Coord { x, y }),
                    }
                }
            },
        }
    }

    /// The board coordinates of the four cells this piece covers, or `None`
    /// when one of them has a negative component or lies beyond the last
    /// column.
    pub fn cells(&self) -> (r: Option<[Coord; 4]>)
        ensures
            r.is_some() == representable(*self),
            r.is_some() ==> forall|i: int|
                0 <= i < 4 ==> coord_is(#[trigger] r.unwrap()[i], piece_cells(*self)[i]),
    {
        let shape = self.kind.cells();
        proof {
            lemma_local_cells_bounded(self.kind, self.rotation);
        }
        let mut coords = [Coord { x: 0, y: 0 }; 4];
        let mut i: usize = 0;
        while i < 4
            invariant
                0 <= i <= 4,
                forall|j: int| 0 <= j < 4 ==> (shape[j].x as int, shape[j].y as int) == #[trigger] template(self.kind)[j],
                forall|j: int| 0 <= j < i ==> #[trigger] on_columns(piece_cells(*self)[j]),
                forall|j: int| 0 <= j < i ==> coord_is(#[trigger] coords[j], piece_cells(*self)[j]),
            decreases 4 - i,
        {
            assert(0 <= template(self.kind)[i as int].0 <= 3 && 0 <= template(self.kind)[i as int].1 <= 3);
            let local = self.rotator(shape[i]);
            assert((local.x as int, local.y as int) == local_cells(self.kind, self.rotation)[i as int]);
            assert(piece_cells(*self)[i as int] == (local.x + self.position.x, local.y + self.position.y));
            match self.translator(local) {
                None => {
                    assert(!on_columns(piece_cells(*self)[i as int]));
                    return None;
                },
                Some(c) => {
                    coords[i] = c;
                },
            }
            i = i + 1;
        }
        Some(coords)
    }
}

} // verus!
