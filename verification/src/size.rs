use vstd::prelude::*;
use vstd::arithmetic::div_mod::lemma_fundamental_div_mod;
use vstd::arithmetic::div_mod::lemma_fundamental_div_mod_converse;
use vstd::arithmetic::mul::lemma_mul_is_commutative;

verus! {

/// Width and height of a picture, in pixels.
#[derive(Clone, Copy, Debug, PartialEq, Eq, Structural)]
pub struct ImageSize {
    pub width: u32,
    pub height: u32,
}

/// A cell of the grid: row and column, both counted from zero.
#[derive(Clone, Copy, Debug, PartialEq, Eq, Hash, Structural)]
pub struct Position {
    pub row: u32,
    pub col: u32,
}

/// Why a reference size and a piece size cannot make a grid.
#[derive(Clone, Copy, Debug, PartialEq, Eq, Structural)]
pub enum ConfigError {
    /// The piece does not tile the reference evenly in both axes.
    SizeMismatch,
    /// The reference has more pixels than this machine can hold or sum up.
    TooLarge,
    /// The reference picture does not have the size the grid was made for.
    WrongReferenceSize,
    /// There is no hashtag to poll.
    NoHashtags,
    /// Every worker identity has been given out.
    OutOfIds,
    /// Jobs are not offered for this pair of reference and piece size.
    UnsupportedSize,
    /// The reference picture cannot be read.
    MalformedImage,
}

/// Most pixels a reference may have: their intensities, at most 255 each,
/// still add up within 64 bits.
pub const MAX_PIXELS: u64 = 0xFFFF_FFFF_FFFF_FFFF / 255;

impl ImageSize {
    /// Number of pixels.
    pub open spec fn area(self) -> int {
        self.width as int * self.height as int
    }
}

/// Whether pieces of size `piece` tile a picture of size `reference` exactly:
/// no side is zero and each side of the reference is a multiple of the piece's.
pub open spec fn tiles(reference: ImageSize, piece: ImageSize) -> bool {
    &&& piece.width > 0
    &&& piece.height > 0
    &&& reference.width > 0
    &&& reference.height > 0
    &&& reference.width as int % piece.width as int == 0
    &&& reference.height as int % piece.height as int == 0
}

/// Whether a picture of this size can be held, four bytes to the pixel,
/// and summed up.
pub open spec fn fits(reference: ImageSize) -> bool {
    4 * reference.area() <= isize::MAX && reference.area() <= MAX_PIXELS
}

/// The partition of a reference picture into equal cells, counted row by row.
#[derive(Clone, Copy, Debug)]
pub struct Grid {
    reference: ImageSize,
    piece: ImageSize,
}

impl Grid {
    /// Size of the reference picture.
    pub closed spec fn reference(&self) -> ImageSize {
        self.reference
    }

    /// Size of one cell, and so of every piece.
    pub closed spec fn piece(&self) -> ImageSize {
        self.piece
    }

    /// The sizes tile and fit: what `new` has checked.
    pub open spec fn wf(&self) -> bool {
        tiles(self.reference(), self.piece()) && fits(self.reference())
    }

    /// Number of cells side by side.
    pub open spec fn cols(&self) -> int {
        self.reference().width as int / self.piece().width as int
    }

    /// Number of cells one above the other.
    pub open spec fn rows(&self) -> int {
        self.reference().height as int / self.piece().height as int
    }

    /// Number of cells.
    pub open spec fn cell_count(&self) -> int {
        self.rows() * self.cols()
    }

    /// Whether a cell is a cell of this grid.
    pub open spec fn contains(&self, pos: Position) -> bool {
        pos.row < self.rows() && pos.col < self.cols()
    }

    /// Place of a cell in the row-by-row enumeration.
    pub open spec fn index_of(&self, pos: Position) -> int {
        pos.row as int * self.cols() + pos.col as int
    }

    /// The cell at a place of the enumeration.
    pub open spec fn position_of(&self, index: int) -> Position {
        Position { row: (index / self.cols()) as u32, col: (index % self.cols()) as u32 }
    }

    /// Column of the leftmost pixels of a cell.
    pub open spec fn cell_left(&self, pos: Position) -> int {
        pos.col as int * self.piece().width as int
    }

    /// Row of the topmost pixels of a cell.
    pub open spec fn cell_top(&self, pos: Position) -> int {
        pos.row as int * self.piece().height as int
    }

    /// Whether pixel (`x`, `y`) of the reference lies in the cell `pos`.
    pub open spec fn in_cell(&self, pos: Position, x: int, y: int) -> bool {
        &&& self.cell_left(pos) <= x < self.cell_left(pos) + self.piece().width
        &&& self.cell_top(pos) <= y < self.cell_top(pos) + self.piece().height
    }

    /// Checks the sizes and makes the grid. The sizes are refused as
    /// mismatched exactly when they do not tile, and as too large exactly
    /// when they tile but do not fit.
    pub fn new(reference: ImageSize, piece: ImageSize) -> (res: Result<Grid, ConfigError>)
        ensures
            match res {
                Ok(grid) => {
                    &&& grid.wf()
                    &&& grid.reference() == reference
                    &&& grid.piece() == piece
                },
                Err(e) => {
                    &&& e == ConfigError::SizeMismatch <==> !tiles(reference, piece)
                    &&& e == ConfigError::TooLarge <==> tiles(reference, piece) && !fits(reference)
                    &&& e == ConfigError::SizeMismatch || e == ConfigError::TooLarge
                },
            },
            res.is_ok() <==> tiles(reference, piece) && fits(reference),
    {
        if piece.width == 0 || piece.height == 0 || reference.width == 0 || reference.height == 0 {
            return Err(ConfigError::SizeMismatch);
        }
        if reference.width % piece.width != 0 || reference.height % piece.height != 0 {
            return Err(ConfigError::SizeMismatch);
        }
        assert(reference.width as int * reference.height as int <= 0xFFFF_FFFF * 0xFFFF_FFFF)
            by (nonlinear_arith)
            requires
                reference.width <= 0xFFFF_FFFF,
                reference.height <= 0xFFFF_FFFF,
        ;
        let area: u64 = (reference.width as u64) * (reference.height as u64);
        if area > MAX_PIXELS || area > (isize::MAX as u64) / 4 {
            return Err(ConfigError::TooLarge);
        }
        Ok(Grid { reference, piece })
    }

    pub fn reference_size(&self) -> (size: ImageSize)
        ensures
            size == self.reference(),
    {
        self.reference
    }

    pub fn piece_size(&self) -> (size: ImageSize)
        ensures
            size == self.piece(),
    {
        self.piece
    }

    pub fn col_count(&self) -> (n: u32)
        requires
            self.wf(),
        ensures
            n == self.cols(),
            n > 0,
    {
        proof {
            self.lemma_counts();
        }
        self.reference.width / self.piece.width
    }

    pub fn row_count(&self) -> (n: u32)
        requires
            self.wf(),
        ensures
            n == self.rows(),
            n > 0,
    {
        proof {
            self.lemma_counts();
        }
        self.reference.height / self.piece.height
    }

    pub fn cells(&self) -> (n: usize)
        requires
            self.wf(),
        ensures
            n == self.cell_count(),
            n > 0,
    {
        proof {
            self.lemma_counts();
        }
        let rows = self.row_count();
        let cols = self.col_count();
        assert(rows as int * cols as int > 0) by (nonlinear_arith)
            requires
                rows > 0,
                cols > 0,
        ;
        (rows as usize) * (cols as usize)
    }

    /// The cell at `index` of the enumeration, `None` past the last cell.
    pub fn position_at(&self, index: usize) -> (pos: Option<Position>)
        requires
            self.wf(),
        ensures
            pos.is_some() <==> index < self.cell_count(),
            pos matches Some(p) ==> p == self.position_of(index as int) && self.contains(p)
                && self.index_of(p) == index,
    {
        if index >= self.cells() {
            return None;
        }
        let cols = self.col_count() as usize;
        proof {
            self.lemma_position_of(index as int);
        }
        Some(Position { row: (index / cols) as u32, col: (index % cols) as u32 })
    }

    /// The place of a cell in the enumeration, `None` for a cell outside the grid.
    pub fn index_at(&self, pos: Position) -> (index: Option<usize>)
        requires
            self.wf(),
        ensures
            index.is_some() <==> self.contains(pos),
            index matches Some(i) ==> i == self.index_of(pos) && i < self.cell_count()
                && self.position_of(i as int) == pos,
    {
        let rows = self.row_count();
        let cols = self.col_count();
        if pos.row >= rows || pos.col >= cols {
            return None;
        }
        proof {
            self.lemma_index_of(pos);
            self.lemma_counts();
            assert(0 <= pos.row as int * cols as int) by (nonlinear_arith);
        }
        Some((pos.row as usize) * (cols as usize) + (pos.col as usize))
    }

    /// The top left pixel of a cell of the grid: column, then row.
    pub fn cell_corner(&self, pos: Position) -> (corner: (u32, u32))
        requires
            self.wf(),
            self.contains(pos),
        ensures
            corner.0 == self.cell_left(pos),
            corner.1 == self.cell_top(pos),
    {
        proof {
            self.lemma_cell_inside(pos);
        }
        (pos.col * self.piece.width, pos.row * self.piece.height)
    }

    /// A cell of the grid lies inside the reference, and holds no more
    /// pixels than the reference does.
    pub proof fn lemma_cell_inside(&self, pos: Position)
        requires
            self.wf(),
            self.contains(pos),
        ensures
            0 <= self.cell_left(pos),
            self.cell_left(pos) + self.piece().width <= self.reference().width,
            0 <= self.cell_top(pos),
            self.cell_top(pos) + self.piece().height <= self.reference().height,
            0 < self.piece().area() <= self.reference().area(),
    {
        self.lemma_counts();
        let pw = self.piece().width as int;
        let ph = self.piece().height as int;
        let c = self.cols();
        let r = self.rows();
        let col = pos.col as int;
        let row = pos.row as int;
        assert(0 <= col * pw && col * pw + pw <= c * pw) by (nonlinear_arith)
            requires
                0 <= col < c,
                pw > 0,
        ;
        assert(0 <= row * ph && row * ph + ph <= r * ph) by (nonlinear_arith)
            requires
                0 <= row < r,
                ph > 0,
        ;
        assert(0 < pw * ph <= (c * pw) * (r * ph)) by (nonlinear_arith)
            requires
                c > 0,
                r > 0,
                pw > 0,
                ph > 0,
        ;
    }

    /// Two cells of the grid share no pixel.
    pub proof fn lemma_cells_disjoint(&self, p: Position, q: Position, x: int, y: int)
        requires
            self.wf(),
            self.in_cell(p, x, y),
            self.in_cell(q, x, y),
        ensures
            p == q,
    {
        let pw = self.piece().width as int;
        let ph = self.piece().height as int;
        let (c1, c2) = (p.col as int, q.col as int);
        let (r1, r2) = (p.row as int, q.row as int);
        assert(c1 == c2) by (nonlinear_arith)
            requires
                pw > 0,
                c1 * pw <= x < c1 * pw + pw,
                c2 * pw <= x < c2 * pw + pw,
        ;
        assert(r1 == r2) by (nonlinear_arith)
            requires
                ph > 0,
                r1 * ph <= y < r1 * ph + ph,
                r2 * ph <= y < r2 * ph + ph,
        ;
    }

    /// Both counts are positive, the cells make up the reference exactly,
    /// and the cell count stays within the pixel count.
    pub proof fn lemma_counts(&self)
        requires
            self.wf(),
        ensures
            0 < self.cols() <= self.reference().width,
            0 < self.rows() <= self.reference().height,
            self.cols() * self.piece().width == self.reference().width,
            self.rows() * self.piece().height == self.reference().height,
            0 < self.cell_count() <= self.reference().area(),
    {
        let rw = self.reference().width as int;
        let rh = self.reference().height as int;
        let pw = self.piece().width as int;
        let ph = self.piece().height as int;
        lemma_fundamental_div_mod(rw, pw);
        lemma_fundamental_div_mod(rh, ph);
        let c = rw / pw;
        let r = rh / ph;
        assert(rw == pw * c);
        assert(rh == ph * r);
        assert(c > 0 && c <= rw && c * pw == rw) by (nonlinear_arith)
            requires
                rw == pw * c,
                rw > 0,
                pw > 0,
        ;
        assert(r > 0 && r <= rh && r * ph == rh) by (nonlinear_arith)
            requires
                rh == ph * r,
                rh > 0,
                ph > 0,
        ;
        assert(0 < r * c <= rw * rh) by (nonlinear_arith)
            requires
                0 < r <= rh,
                0 < c <= rw,
        ;
        lemma_mul_is_commutative(rw, rh);
    }

    /// Counting a cell's place and going back to the cell gives the cell.
    pub proof fn lemma_index_of(&self, pos: Position)
        requires
            self.wf(),
            self.contains(pos),
        ensures
            0 <= self.index_of(pos) < self.cell_count(),
            self.position_of(self.index_of(pos)) == pos,
    {
        self.lemma_counts();
        let c = self.cols();
        let r = self.rows();
        let row = pos.row as int;
        let col = pos.col as int;
        assert(0 <= row * c + col < r * c) by (nonlinear_arith)
            requires
                0 <= row < r,
                0 <= col < c,
        ;
        lemma_mul_is_commutative(row, c);
        lemma_fundamental_div_mod_converse(row * c + col, c, row, col);
    }

    /// Going from a place to its cell and counting again gives the place.
    pub proof fn lemma_position_of(&self, index: int)
        requires
            self.wf(),
            0 <= index < self.cell_count(),
        ensures
            self.contains(self.position_of(index)),
            self.index_of(self.position_of(index)) == index,
            self.position_of(index).row == index / self.cols(),
            self.position_of(index).col == index % self.cols(),
    {
        self.lemma_counts();
        let c = self.cols();
        let r = self.rows();
        lemma_fundamental_div_mod(index, c);
        let q = index / c;
        let m = index % c;
        assert(0 <= m < c);
        assert(0 <= q < r) by (nonlinear_arith)
            requires
                index == c * q + m,
                0 <= m < c,
                0 <= index < r * c,
                c > 0,
        ;
        lemma_mul_is_commutative(q, c);
    }
}

} // verus!
