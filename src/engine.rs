//! The engine: owns the board, the bag and the falling piece (the cursor),
//! and turns commands and gravity ticks into moves, locks and spawns.
use vstd::prelude::*;
use rand::rngs::StdRng;
use crate::bag::{draw_step, remainder_of_shuffle, fresh_rng, seeded_rng, Bag};
use crate::board::{
    blank_cells, clipping, committed, footprint, lemma_commit_fills_four, newly_filled, lemma_clipping_iff_not_placeable, lemma_placeable_position,
    placeable, Matrix, SIZE,
};
use crate::geometry::{
    clockwise, color_of, counter_clockwise, Color, Kind, Offset, Piece, Rotation,
};

verus! {

/// Column of the left edge of a new piece's local grid.
pub const SPAWN_X: isize = 3;

/// Row of the bottom edge of a new piece's local grid; its cells then fill
/// the top two rows.
pub const SPAWN_Y: isize = 17;

/// A sideways step.
#[derive(Clone, Copy, Debug, PartialEq, Eq, Structural)]
pub enum Move {
    Left,
    Right,
}

/// A quarter turn.
#[derive(Clone, Copy, Debug, PartialEq, Eq, Structural)]
pub enum Turn {
    Clockwise,
    CounterClockwise,
}

/// A new piece could not enter the board: the game is over.
#[derive(Clone, Copy, Debug, PartialEq, Eq, Structural)]
pub struct GameOver;

/// Columns a sideways step moves by.
pub open spec fn move_dx(m: Move) -> int {
    match m {
        Move::Left => -1,
        Move::Right => 1,
    }
}

/// The orientation after a quarter turn.
pub open spec fn turn_spec(r: Rotation, t: Turn) -> Rotation {
    match t {
        Turn::Clockwise => clockwise(r),
        Turn::CounterClockwise => counter_clockwise(r),
    }
}

/// The piece shifted sideways by `dx` columns.
pub open spec fn shifted_piece(p: Piece, dx: int) -> Piece {
    Piece { position: Offset { x: (p.position.x + dx) as isize, y: p.position.y }, ..p }
}

/// The piece `d` rows lower.
pub open spec fn dropped(p: Piece, d: int) -> Piece {
    Piece { position: Offset { x: p.position.x, y: (p.position.y - d) as isize }, ..p }
}

/// Dropping the piece by `d` rows brings it to rest: every position on the
/// way down is placeable and the next one lower is clipping.
pub open spec fn drop_depth(b: Seq<Option<Color>>, p: Piece, d: int) -> bool {
    &&& 0 <= d
    &&& forall|e: int| 0 <= e <= d ==> placeable(b, #[trigger] dropped(p, e))
    &&& clipping(b, dropped(p, d + 1))
}

/// A new piece of kind `k`, as it enters the board.
pub open spec fn spawn_piece(k: Kind) -> Piece {
    Piece { kind: k, position: Offset { x: SPAWN_X, y: SPAWN_Y }, rotation: Rotation::N }
}

impl Move {
    fn offset(&self) -> (r: Offset)
        ensures
            r.x == move_dx(*self),
            r.y == 0,
    {
        match self {
            Move::Left => Offset::new(-1, 0),
            Move::Right => Offset::new(1, 0),
        }
    }
}

/// The game state: board, bag, the generator that shuffles the bag, and
/// the falling piece when there is one.
pub struct Engine {
    matrix: Matrix,
    bag: Bag,
    rng: StdRng,
    cursor: Option<Piece>,
}

impl Engine {
    /// The board's cells.
    pub closed spec fn board(&self) -> Seq<Option<Color>> {
        self.matrix@
    }

    /// The falling piece, if any.
    pub closed spec fn active(&self) -> Option<Piece> {
        self.cursor
    }

    /// The kinds left in the bag.
    pub closed spec fn pending(&self) -> Seq<Kind> {
        self.bag@
    }

    /// The board has its full size, the bag holds the tail of a shuffle,
    /// and the falling piece, if any, is placeable.
    pub open spec fn wf(&self) -> bool {
        &&& self.board().len() == SIZE
        &&& remainder_of_shuffle(self.pending())
        &&& (self.active().is_some() ==> placeable(self.board(), self.active().unwrap()))
    }

    /// A fresh engine: blank board, empty bag, no falling piece, and a
    /// generator seeded from the operating system; `None` when the operating
    /// system cannot supply a seed.
    pub fn new() -> (r: Option<Engine>)
        ensures
            r.is_some() ==> r.unwrap().wf(),
            r.is_some() ==> r.unwrap().board() == blank_cells(),
            r.is_some() ==> r.unwrap().active().is_none(),
            r.is_some() ==> r.unwrap().pending().len() == 0,
    {
        match fresh_rng() {
            Some(rng) => Some(Engine { matrix: Matrix::blank(), bag: Bag::new(), rng, cursor: None }),
            None => None,
        }
    }

    /// A fresh engine whose bag shuffles are fixed by `seed`.
    pub fn with_seed(seed: u64) -> (r: Engine)
        ensures
            r.wf(),
            r.board() == blank_cells(),
            r.active().is_none(),
            r.pending().len() == 0,
    {
        Engine { matrix: Matrix::blank(), bag: Bag::new(), rng: seeded_rng(seed), cursor: None }
    }

    /// The falling piece, if any.
    pub fn cursor(&self) -> (r: Option<Piece>)
        ensures
            r == self.active(),
    {
        self.cursor
    }

    /// The board.
    pub fn matrix(&self) -> (r: &Matrix)
        ensures
            r@ == self.board(),
    {
        &self.matrix
    }

    /// Puts a new piece of kind `kind` at the spawn position. When that
    /// position is clipping the game is over and nothing changes.
    pub fn spawn_kind(&mut self, kind: Kind) -> (r: Result<(), GameOver>)
        requires
            old(self).wf(),
            old(self).active().is_none(),
        ensures
            final(self).wf(),
            final(self).board() == old(self).board(),
            final(self).pending() == old(self).pending(),
            r.is_ok() == placeable(old(self).board(), spawn_piece(kind)),
            r.is_ok() ==> final(self).active() == Some(spawn_piece(kind)),
            r.is_err() ==> final(self).active().is_none(),
    {
        let piece = Piece {
            kind,
            position: Offset { x: SPAWN_X, y: SPAWN_Y },
            rotation: Rotation::N,
        };
        if self.matrix.is_placeable(&piece) {
            self.cursor = Some(piece);
            Ok(())
        } else {
            Err(GameOver)
        }
    }

    /// Draws the next kind from the bag and spawns it.
    pub fn spawn_next(&mut self) -> (r: Result<(), GameOver>)
        requires
            old(self).wf(),
            old(self).active().is_none(),
        ensures
            final(self).wf(),
            final(self).board() == old(self).board(),
            exists|k: Kind|
                {
                    &&& draw_step(old(self).pending(), k, final(self).pending())
                    &&& r.is_ok() == placeable(old(self).board(), spawn_piece(k))
                    &&& r.is_ok() ==> final(self).active() == Some(spawn_piece(k))
                    &&& r.is_err() ==> final(self).active().is_none()
                },
    {
        let kind = self.bag.draw(&mut self.rng);
        let r = self.spawn_kind(kind);
        assert(draw_step(old(self).pending(), kind, self.pending()));
        r
    }

    /// Moves the falling piece one column sideways. Fails, changing nothing,
    /// when the moved piece would clip; does nothing without a falling piece.
    pub fn move_cursor(&mut self, m: Move) -> (r: Result<(), ()>)
        requires
            old(self).wf(),
        ensures
            final(self).wf(),
            match old(self).active() {
                None => r.is_ok() && *final(self) == *old(self),
                Some(p) => if clipping(old(self).board(), shifted_piece(p, move_dx(m))) {
                    r.is_err() && *final(self) == *old(self)
                } else {
                    &&& r.is_ok()
                    &&& final(self).active() == Some(shifted_piece(p, move_dx(m)))
                    &&& final(self).board() == old(self).board()
                    &&& final(self).pending() == old(self).pending()
                },
            },
    {
        match self.cursor {
            None => Ok(()),
            Some(cursor) => {
                proof {
                    lemma_placeable_position(self.matrix@, cursor);
                }
                let new = cursor.moved_by(m.offset());
                assert(new == shifted_piece(cursor, move_dx(m)));
                if self.matrix.is_clipping(&new) {
                    Err(())
                } else {
                    proof {
                        lemma_clipping_iff_not_placeable(self.matrix@, new);
                    }
                    self.cursor = Some(new);
                    Ok(())
                }
            },
        }
    }

    /// Turns the falling piece a quarter turn in place. Fails, changing
    /// nothing, when the turned piece would clip; does nothing without a
    /// falling piece.
    pub fn rotate_cursor(&mut self, turn: Turn) -> (r: Result<(), ()>)
        requires
            old(self).wf(),
        ensures
            final(self).wf(),
            match old(self).active() {
                None => r.is_ok() && *final(self) == *old(self),
                Some(p) => if clipping(old(self).board(), Piece { rotation: turn_spec(p.rotation, turn), ..p }) {
                    r.is_err() && *final(self) == *old(self)
                } else {
                    &&& r.is_ok()
                    &&& final(self).active() == Some(Piece { rotation: turn_spec(p.rotation, turn), ..p })
                    &&& final(self).board() == old(self).board()
                    &&& final(self).pending() == old(self).pending()
                },
            },
    {
        match self.cursor {
            None => Ok(()),
            Some(cursor) => {
                let rotation = match turn {
                    Turn::Clockwise => cursor.rotation.clockwise(),
                    Turn::CounterClockwise => cursor.rotation.counter_clockwise(),
                };
                let new = cursor.turned_to(rotation);
                if self.matrix.is_clipping(&new) {
                    Err(())
                } else {
                    proof {
                        lemma_clipping_iff_not_placeable(self.matrix@, new);
                    }
                    self.cursor = Some(new);
                    Ok(())
                }
            },
        }
    }

    /// The falling piece one row lower, when that does not clip.
    fn ticked_down_cursor(&self) -> (r: Option<Piece>)
        requires
            self.wf(),
        ensures
            r == match self.active() {
                None => None,
                Some(p) => if clipping(self.board(), dropped(p, 1)) {
                    None
                } else {
                    Some(dropped(p, 1))
                },
            },
    {
        match self.cursor {
            None => None,
            Some(cursor) => {
                proof {
                    lemma_placeable_position(self.matrix@, cursor);
                }
                let new = cursor.moved_by(Offset::new(0, -1));
                assert(new == dropped(cursor, 1));
                if self.matrix.is_clipping(&new) {
                    None
                } else {
                    Some(new)
                }
            },
        }
    }

    /// There is a falling piece and it cannot move down.
    pub fn cursor_has_hit_bottom(&self) -> (r: bool)
        requires
            self.wf(),
        ensures
            r == (self.active().is_some() && clipping(self.board(), dropped(self.active().unwrap(), 1))),
    {
        self.cursor.is_some() && self.ticked_down_cursor().is_none()
    }

    /// Writes the falling piece into the board with its kind's color and
    /// clears the cursor.
    fn place_cursor(&mut self)
        requires
            old(self).wf(),
            old(self).active().is_some(),
        ensures
            final(self).wf(),
            final(self).active().is_none(),
            final(self).pending() == old(self).pending(),
            final(self).board() == committed(
                old(self).board(),
                old(self).active().unwrap(),
                color_of(old(self).active().unwrap().kind),
            ),
    {
        let cursor = self.cursor.unwrap();
        self.cursor = None;
        let color = cursor.kind.color();
        self.matrix.commit(&cursor, color);
    }

    /// One gravity step: the falling piece moves down a row, or, when it
    /// cannot, locks into the board. Returns whether it locked. Does nothing
    /// without a falling piece.
    pub fn tick_down(&mut self) -> (locked: bool)
        requires
            old(self).wf(),
        ensures
            final(self).wf(),
            final(self).pending() == old(self).pending(),
            match old(self).active() {
                None => !locked && *final(self) == *old(self),
                Some(p) => if clipping(old(self).board(), dropped(p, 1)) {
                    &&& locked
                    &&& final(self).active().is_none()
                    &&& final(self).board() == committed(old(self).board(), p, color_of(p.kind))
                    &&& newly_filled(old(self).board(), final(self).board()) == footprint(p)
                    &&& footprint(p).len() == 4
                } else {
                    &&& !locked
                    &&& final(self).active() == Some(dropped(p, 1))
                    &&& final(self).board() == old(self).board()
                },
            },
    {
        match self.ticked_down_cursor() {
            Some(new) => {
                proof {
                    lemma_clipping_iff_not_placeable(self.matrix@, new);
                }
                self.cursor = Some(new);
                false
            },
            None => {
                if self.cursor.is_some() {
                    proof {
                        lemma_commit_fills_four(self.matrix@, self.cursor.unwrap(), color_of(self.cursor.unwrap().kind));
                    }
                    self.place_cursor();
                    true
                } else {
                    false
                }
            },
        }
    }

    /// Drops the falling piece as far as it goes and locks it there: it
    /// settles `d` rows lower, where every position on the way down is
    /// placeable and the next one is clipping.
    pub fn hard_drop(&mut self)
        requires
            old(self).wf(),
            old(self).active().is_some(),
        ensures
            final(self).wf(),
            final(self).active().is_none(),
            final(self).pending() == old(self).pending(),
            exists|d: int|
                #[trigger] drop_depth(old(self).board(), old(self).active().unwrap(), d)
                    && final(self).board() == committed(
                    old(self).board(),
                    dropped(old(self).active().unwrap(), d),
                    color_of(old(self).active().unwrap().kind),
                ) && newly_filled(old(self).board(), final(self).board()) == footprint(
                    dropped(old(self).active().unwrap(), d),
                ) && footprint(dropped(old(self).active().unwrap(), d)).len() == 4,
    {
        let ghost p = self.cursor.unwrap();
        let ghost mut d: int = 0;
        assert(dropped(p, 0) == p);
        proof {
            lemma_placeable_position(self.matrix@, p);
        }
        let mut next = self.ticked_down_cursor();
        while next.is_some()
            invariant
                self.wf(),
                self.board() == old(self).board(),
                self.pending() == old(self).pending(),
                0 <= d <= p.position.y + 4,
                self.active() == Some(dropped(p, d)),
                forall|e: int| 0 <= e <= d ==> placeable(old(self).board(), #[trigger] dropped(p, e)),
                next == (if clipping(self.board(), dropped(dropped(p, d), 1)) {
                    None
                } else {
                    Some(dropped(dropped(p, d), 1))
                }),
            decreases self.active().unwrap().position.y + 5,
        {
            let new = next.unwrap();
            proof {
                lemma_placeable_position(self.matrix@, dropped(p, d));
                lemma_clipping_iff_not_placeable(self.matrix@, new);
                assert(dropped(dropped(p, d), 1) == dropped(p, d + 1));
                lemma_placeable_position(self.matrix@, new);
                d = d + 1;
            }
            self.cursor = Some(new);
            next = self.ticked_down_cursor();
        }
        proof {
            assert(dropped(dropped(p, d), 1) == dropped(p, d + 1));
            assert(drop_depth(old(self).board(), p, d));
            lemma_commit_fills_four(self.matrix@, dropped(p, d), color_of(p.kind));
        }
        self.place_cursor();
    }
}

} // verus!
