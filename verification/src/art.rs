use vstd::prelude::*;
use crate::distance::Distance;
use crate::distance::MosaicPiece;
use crate::picture::overpainted;
use crate::picture::Picture;
use crate::picture::Rgba;
use crate::post::InstaPostInfo;
use crate::size::Grid;
use crate::size::ImageSize;
use crate::size::Position;

verus! {

/// The canvas of a mosaic: a picture of the reference size.
#[derive(Debug)]
pub struct MosaicArtImage {
    image: Picture,
}

impl MosaicArtImage {
    /// The canvas as a picture.
    pub closed spec fn picture(&self) -> Picture {
        self.image
    }

    /// A blank canvas: every pixel fully transparent. The size has to
    /// be one whose bytes a vector can hold.
    pub fn new(size: ImageSize) -> (canvas: MosaicArtImage)
        requires
            4 * size.area() <= isize::MAX,
        ensures
            canvas.picture().wf(),
            canvas.picture().size() == size,
            forall|x: int, y: int|
                0 <= x < size.width && 0 <= y < size.height ==> #[trigger] canvas.picture().at(x, y)
                    == Rgba::clear(),
    {
        MosaicArtImage { image: Picture::filled(size, Rgba::clear()) }
    }

    pub fn image(&self) -> (image: &Picture)
        ensures
            *image == self.picture(),
    {
        &self.image
    }
}

/// Why a piece was not taken in.
#[derive(Clone, Copy, Debug, PartialEq, Eq, Structural)]
pub enum Rejection {
    /// A post with this identifier is placed already.
    Duplicate,
    /// The piece does not bring one distance per cell.
    WrongDistanceCount,
    /// The photo is not of piece size.
    WrongPhotoSize,
    /// The cell asked for is not a cell of the grid.
    OutOfGrid,
}

/// What became of a piece handed to the mosaic.
#[derive(Debug)]
pub enum Placement {
    /// It now occupies `position`; `evicted` names the post it displaced.
    Placed { position: Position, evicted: Option<String> },
    /// No cell is empty or held by a worse match: the piece was let go.
    Dropped,
    /// It could not be considered at all.
    Rejected(Rejection),
}

/// The live mosaic: canvas, placed pieces cell by cell, and the hashtags
/// of the job.
#[derive(Debug)]
pub struct MosaicArt {
    grid: Grid,
    image: MosaicArtImage,
    cells: Vec<Option<MosaicPiece>>,
    hashtags: Vec<String>,
}

/// Whether cell `i` would take a piece with the distances `d`: it is
/// empty, or its occupant's own distance to it is strictly greater.
pub open spec fn is_candidate(cells: Seq<Option<MosaicPiece>>, d: Seq<Distance>, i: int) -> bool {
    &&& 0 <= i < cells.len()
    &&& match cells[i] {
        None => true,
        Some(p) => p.distance_vec()[i] > d[i],
    }
}

/// Whether cell `i` is the one a piece with the distances `d` goes to: a
/// candidate with the least distance, and the first of those.
pub open spec fn is_best(cells: Seq<Option<MosaicPiece>>, d: Seq<Distance>, i: int) -> bool {
    &&& is_candidate(cells, d, i)
    &&& forall|j: int| #[trigger]
        is_candidate(cells, d, j) ==> d[i] < d[j] || (d[i] == d[j] && i <= j)
}

/// Whether any cell would take a piece with the distances `d`.
pub open spec fn has_candidate(cells: Seq<Option<MosaicPiece>>, d: Seq<Distance>) -> bool {
    exists|i: int| is_candidate(cells, d, i)
}

/// The identifier of the post in a cell, if there is one.
pub open spec fn occupant_id(cell: Option<MosaicPiece>) -> Option<Seq<char>> {
    match cell {
        Some(p) => Some(p.post().id()),
        None => None,
    }
}

/// The pieces of the occupied cells, in the order of the enumeration.
pub open spec fn placed(cells: Seq<Option<MosaicPiece>>) -> Seq<MosaicPiece>
    decreases cells.len(),
{
    if cells.len() == 0 {
        Seq::empty()
    } else {
        match cells.last() {
            Some(p) => placed(cells.drop_last()).push(p),
            None => placed(cells.drop_last()),
        }
    }
}

impl MosaicArt {
    /// The grid that the canvas is cut by.
    pub closed spec fn grid(&self) -> Grid {
        self.grid
    }

    /// The canvas: a picture of the reference size.
    pub closed spec fn canvas(&self) -> Picture {
        self.image.picture()
    }

    /// What each cell holds, in the order of the enumeration.
    pub closed spec fn cells(&self) -> Seq<Option<MosaicPiece>> {
        self.cells@
    }

    /// The hashtags that the job was started with.
    pub closed spec fn hashtags(&self) -> Seq<Seq<char>> {
        Seq::new(self.hashtags@.len(), |i: int| self.hashtags@[i]@)
    }

    /// Whether cell `i` holds the post `id`.
    pub open spec fn holds_at(&self, i: int, id: Seq<char>) -> bool {
        0 <= i < self.cells().len() && occupant_id(self.cells()[i]) == Some(id)
    }

    /// Whether the post `id` is placed.
    pub open spec fn holds(&self, id: Seq<char>) -> bool {
        exists|i: int| self.holds_at(i, id)
    }

    /// Who is placed: from the identifier of each placed post to its piece.
    pub open spec fn piece_posts(&self) -> Map<Seq<char>, MosaicPiece> {
        Map::new(
            |id: Seq<char>| self.holds(id),
            |id: Seq<char>| self.cells()[choose|i: int| self.holds_at(i, id)].unwrap(),
        )
    }

    /// What is placed where: from each occupied cell to the identifier of
    /// its post.
    pub open spec fn position_map(&self) -> Map<Position, Seq<char>> {
        Map::new(
            |pos: Position|
                self.grid().contains(pos) && self.cells()[self.grid().index_of(pos)].is_some(),
            |pos: Position| self.cells()[self.grid().index_of(pos)].unwrap().post().id(),
        )
    }

    /// Whether pixel (`x`, `y`) of the canvas shows what cell `i` holds:
    /// the pixel of the occupant's photo, or nothing in an empty cell.
    pub open spec fn shown(&self, i: int, x: int, y: int) -> bool {
        let pos = self.grid().position_of(i);
        self.canvas().at(x, y) == match self.cells()[i] {
            Some(p) => p.post().image().at(
                x - self.grid().cell_left(pos),
                y - self.grid().cell_top(pos),
            ),
            None => Rgba::clear(),
        }
    }

    /// Whether a piece can stand in a cell of this mosaic: one distance
    /// per cell, and a photo of piece size.
    pub open spec fn admits(&self, piece: MosaicPiece) -> bool {
        &&& piece.distance_vec().len() == self.grid().cell_count()
        &&& piece.post().image().wf()
        &&& piece.post().image().size() == self.grid().piece()
    }

    /// The invariant of the mosaic: one slot per cell of the grid; every
    /// occupant fits; no post stands in two cells; and the canvas shows, in
    /// each cell, exactly what the cell holds.
    pub open spec fn wf(&self) -> bool {
        &&& self.grid().wf()
        &&& self.canvas().wf()
        &&& self.canvas().size() == self.grid().reference()
        &&& self.cells().len() == self.grid().cell_count()
        &&& forall|i: int|
            0 <= i < self.cells().len() && (#[trigger] self.cells()[i]).is_some() ==> self.admits(
                self.cells()[i].unwrap(),
            )
        &&& forall|i: int, j: int, id: Seq<char>|
            self.holds_at(i, id) && self.holds_at(j, id) ==> i == j
        &&& forall|i: int, x: int, y: int|
            0 <= i < self.cells().len() && self.grid().in_cell(self.grid().position_of(i), x, y)
                ==> #[trigger] self.shown(i, x, y)
    }

    /// An empty mosaic over a blank canvas.
    pub fn new(grid: Grid, hashtags: Vec<String>) -> (art: MosaicArt)
        requires
            grid.wf(),
        ensures
            art.wf(),
            art.grid() == grid,
            art.hashtags() == crate::feeder::tag_views(hashtags@),
            forall|i: int| 0 <= i < art.cells().len() ==> (#[trigger] art.cells()[i]).is_none(),
    {
        let count = grid.cells();
        let mut cells: Vec<Option<MosaicPiece>> = Vec::new();
        let mut i: usize = 0;
        while i < count
            invariant
                i <= count,
                cells@.len() == i,
                forall|k: int| 0 <= k < i ==> (#[trigger] cells@[k]).is_none(),
            decreases count - i,
        {
            cells.push(None);
            i += 1;
        }
        let image = MosaicArtImage::new(grid.reference_size());
        let art = MosaicArt { grid, image, cells, hashtags };
        proof {
            assert forall|i: int, x: int, y: int|
                0 <= i < art.cells().len() && art.grid().in_cell(
                    art.grid().position_of(i),
                    x,
                    y,
                ) implies #[trigger] art.shown(i, x, y) by {
                grid.lemma_position_of(i);
                grid.lemma_cell_inside(grid.position_of(i));
            }
        }
        art
    }

    /// Whether a post with this identifier is placed.
    pub fn has_post(&self, post_id: &String) -> (found: bool)
        ensures
            found == self.holds(post_id@),
    {
        let mut i: usize = 0;
        while i < self.cells.len()
            invariant
                i <= self.cells@.len(),
                forall|k: int| 0 <= k < i ==> !self.holds_at(k, post_id@),
            decreases self.cells@.len() - i,
        {
            match &self.cells[i] {
                Some(p) => {
                    if *p.get_post().get_id() == *post_id {
                        assert(self.holds_at(i as int, post_id@));
                        return true;
                    }
                },
                None => {},
            }
            i += 1;
        }
        false
    }

    /// The cell a piece with these distances goes to by the greedy rule:
    /// among the cells that are empty or held by a strictly worse match,
    /// the one with the least distance, the first of them on a tie.
    /// `None` exactly when there is no such cell, or when there is not
    /// one distance per cell.
    pub fn find_position(&self, distances: &Vec<Distance>) -> (best: Option<usize>)
        requires
            self.wf(),
        ensures
            best.is_some() <==> distances@.len() == self.cells().len() && has_candidate(
                self.cells(),
                distances@,
            ),
            best matches Some(k) ==> is_best(self.cells(), distances@, k as int),
    {
        if distances.len() != self.cells.len() {
            return None;
        }
        let mut best: Option<usize> = None;
        let mut i: usize = 0;
        while i < self.cells.len()
            invariant
                self.wf(),
                distances@.len() == self.cells@.len(),
                i <= self.cells@.len(),
                best.is_none() ==> forall|j: int|
                    0 <= j < i ==> !is_candidate(self.cells@, distances@, j),
                best matches Some(k) ==> {
                    &&& k < i
                    &&& is_candidate(self.cells@, distances@, k as int)
                    &&& forall|j: int|
                        0 <= j < i && #[trigger] is_candidate(self.cells@, distances@, j)
                            ==> distances@[k as int] < distances@[j] || (distances@[k as int]
                            == distances@[j] && k <= j)
                },
            decreases self.cells@.len() - i,
        {
            let open = match &self.cells[i] {
                None => true,
                Some(p) => {
                    assert(self.admits(self.cells()[i as int].unwrap()));
                    p.get_distances()[i] > distances[i]
                },
            };
            if open {
                match best {
                    None => {
                        best = Some(i);
                    },
                    Some(k) => {
                        if distances[i] < distances[k] {
                            best = Some(i);
                        }
                    },
                }
            }
            i += 1;
        }
        proof {
            if best.is_none() {
                assert forall|j: int| !is_candidate(self.cells(), distances@, j) by {}
            } else {
                assert(is_candidate(self.cells(), distances@, best.unwrap() as int));
            }
        }
        best
    }

    /// Puts a fitting piece into cell `k`, whatever stands there, and
    /// paints its photo over the cell. Hands back the displaced post's
    /// identifier.
    fn install(&mut self, piece: MosaicPiece, k: usize) -> (evicted: Option<String>)
        requires
            old(self).wf(),
            old(self).admits(piece),
            !old(self).holds(piece.post().id()),
            k < old(self).cells().len(),
        ensures
            final(self).wf(),
            final(self).grid() == old(self).grid(),
            final(self).hashtags() == old(self).hashtags(),
            final(self).cells() == old(self).cells().update(k as int, Some(piece)),
            crate::api::opt_text(evicted) == occupant_id(old(self).cells()[k as int]),
            overpainted(
                old(self).canvas(),
                piece.post().image(),
                old(self).grid().cell_left(old(self).grid().position_of(k as int)),
                old(self).grid().cell_top(old(self).grid().position_of(k as int)),
                final(self).canvas(),
            ),
    {
        let pos = self.grid.position_at(k).unwrap();
        let corner = self.grid.cell_corner(pos);
        proof {
            self.grid.lemma_cell_inside(pos);
        }
        let done = self.image.image.overpaint_by(piece.get_image(), corner.0, corner.1);
        assert(done);
        self.cells.push(Some(piece));
        let before = self.cells.swap_remove(k);
        assert(self.cells@ == old(self).cells@.update(k as int, Some(piece)));
        let evicted = match &before {
            Some(p) => Some(p.get_post().get_id().clone()),
            None => None,
        };
        proof {
            lemma_put_keeps_wf(*old(self), piece, k as int, *self);
        }
        evicted
    }

    /// Whether a piece can be taken in, and if not, why not: the first of
    /// duplicate, wrong number of distances, wrong photo size that holds.
    pub open spec fn refusal(&self, piece: MosaicPiece) -> Option<Rejection> {
        if self.holds(piece.post().id()) {
            Some(Rejection::Duplicate)
        } else if piece.distance_vec().len() != self.grid().cell_count() {
            Some(Rejection::WrongDistanceCount)
        } else if piece.post().image().size() != self.grid().piece() {
            Some(Rejection::WrongPhotoSize)
        } else {
            None
        }
    }

    fn check(&self, piece: &MosaicPiece) -> (refusal: Option<Rejection>)
        requires
            self.wf(),
        ensures
            refusal == self.refusal(*piece),
    {
        if self.has_post(piece.get_post().get_id()) {
            Some(Rejection::Duplicate)
        } else if piece.get_distances().len() != self.cells.len() {
            Some(Rejection::WrongDistanceCount)
        } else if piece.get_image().get_size() != self.grid.piece_size() {
            Some(Rejection::WrongPhotoSize)
        } else {
            None
        }
    }

    /// Puts a piece into the cell `pos`, displacing what stands there, and
    /// paints its photo over that cell. A piece that cannot be taken in,
    /// or a cell outside the grid, leaves the mosaic as it was.
    pub fn apply_post(&mut self, piece: MosaicPiece, pos: Position) -> (res: Placement)
        requires
            old(self).wf(),
            piece.post().image().wf(),
        ensures
            final(self).wf(),
            final(self).grid() == old(self).grid(),
            final(self).hashtags() == old(self).hashtags(),
            res is Placed <==> old(self).refusal(piece).is_none() && old(self).grid().contains(pos),
            match res {
                Placement::Placed { position, evicted } => {
                    let k = old(self).grid().index_of(pos);
                    &&& old(self).refusal(piece).is_none()
                    &&& old(self).grid().contains(pos)
                    &&& position == pos
                    &&& final(self).cells() == old(self).cells().update(k, Some(piece))
                    &&& crate::api::opt_text(evicted) == occupant_id(old(self).cells()[k])
                    &&& overpainted(
                        old(self).canvas(),
                        piece.post().image(),
                        old(self).grid().cell_left(pos),
                        old(self).grid().cell_top(pos),
                        final(self).canvas(),
                    )
                },
                Placement::Dropped => false,
                Placement::Rejected(why) => {
                    &&& final(self).cells() == old(self).cells()
                    &&& final(self).canvas() == old(self).canvas()
                    &&& match old(self).refusal(piece) {
                        Some(r) => why == r,
                        None => why == Rejection::OutOfGrid && !old(self).grid().contains(pos),
                    }
                },
            },
    {
        match self.check(&piece) {
            Some(why) => Placement::Rejected(why),
            None => {
                match self.grid.index_at(pos) {
                    None => Placement::Rejected(Rejection::OutOfGrid),
                    Some(k) => {
                        let evicted = self.install(piece, k);
                        Placement::Placed { position: pos, evicted }
                    },
                }
            },
        }
    }

    /// Takes a piece in by the greedy rule. The piece goes to the cell
    /// that `find_position` names and displaces its occupant; where no
    /// cell is open to it, it is dropped. A piece that cannot be taken in
    /// is rejected. Unless the piece is placed, the mosaic stays as it was.
    pub fn place(&mut self, piece: MosaicPiece) -> (res: Placement)
        requires
            old(self).wf(),
            piece.post().image().wf(),
        ensures
            final(self).wf(),
            took(*old(self), piece, res, *final(self)),
    {
        match self.check(&piece) {
            Some(why) => Placement::Rejected(why),
            None => {
                match self.find_position(piece.get_distances()) {
                    None => Placement::Dropped,
                    Some(k) => {
                        let position = self.grid.position_at(k).unwrap();
                        let evicted = self.install(piece, k);
                        Placement::Placed { position, evicted }
                    },
                }
            },
        }
    }

    pub fn get_grid(&self) -> (grid: Grid)
        ensures
            grid == self.grid(),
    {
        self.grid
    }

    pub fn get_image(&self) -> (image: &MosaicArtImage)
        ensures
            image.picture() == self.canvas(),
    {
        &self.image
    }

    pub fn get_hashtags(&self) -> (hashtags: &[String])
        ensures
            crate::feeder::tag_views(hashtags@) == self.hashtags(),
    {
        self.hashtags.as_slice()
    }

    /// The piece in the cell at `index` of the enumeration, if any.
    pub fn piece_at(&self, index: usize) -> (piece: Option<&MosaicPiece>)
        ensures
            piece == if index < self.cells().len() {
                match self.cells()[index as int] {
                    Some(p) => Some(&p),
                    None => None,
                }
            } else {
                None
            },
    {
        if index < self.cells.len() {
            self.cells[index].as_ref()
        } else {
            None
        }
    }

    /// Identifier and author of every placed post, in the order of the cells.
    pub fn get_piece_posts(&self) -> (posts: Vec<InstaPostInfo>)
        ensures
            posts@.len() == placed(self.cells()).len(),
            forall|i: int|
                0 <= i < posts@.len() ==> {
                    &&& (#[trigger] posts@[i]).post_id@ == placed(self.cells())[i].post().id()
                    &&& posts@[i].user_name@ == placed(self.cells())[i].post().user()
                },
    {
        let mut posts: Vec<InstaPostInfo> = Vec::new();
        let mut i: usize = 0;
        assert(self.cells@.take(0) =~= Seq::empty());
        while i < self.cells.len()
            invariant
                i <= self.cells@.len(),
                posts@.len() == placed(self.cells@.take(i as int)).len(),
                forall|k: int|
                    0 <= k < posts@.len() ==> {
                        &&& (#[trigger] posts@[k]).post_id@ == placed(
                            self.cells@.take(i as int),
                        )[k].post().id()
                        &&& posts@[k].user_name@ == placed(self.cells@.take(i as int))[k].post().user()
                    },
            decreases self.cells@.len() - i,
        {
            assert(self.cells@.take(i + 1).drop_last() =~= self.cells@.take(i as int));
            assert(self.cells@.take(i + 1).last() == self.cells@[i as int]);
            match &self.cells[i] {
                Some(p) => {
                    posts.push(p.get_post().info());
                },
                None => {},
            }
            i += 1;
        }
        assert(self.cells@.take(self.cells@.len() as int) =~= self.cells@);
        posts
    }
}

/// Whether two mosaics hold the same pieces in the same cells, under the
/// same canvas.
pub open spec fn same_content(before: MosaicArt, after: MosaicArt) -> bool {
    after.cells() == before.cells() && after.canvas() == before.canvas()
}

/// What `place` does, as a relation between the mosaic before, the piece
/// handed in, the answer, and the mosaic after.
///
/// The piece is rejected exactly when it cannot be taken in, dropped
/// exactly when it can but no cell is open to it, and placed otherwise.
/// A placed piece stands in the best cell for its distances; the answer
/// names that cell and the post it displaced; no other cell changes; and
/// the canvas shows the piece's photo over that cell and is otherwise as
/// before. A piece that is not placed leaves everything as it was.
pub open spec fn took(
    before: MosaicArt,
    piece: MosaicPiece,
    res: Placement,
    after: MosaicArt,
) -> bool {
    &&& after.grid() == before.grid()
    &&& after.hashtags() == before.hashtags()
    &&& res is Rejected <==> before.refusal(piece).is_some()
    &&& res is Dropped <==> before.refusal(piece).is_none() && !has_candidate(
        before.cells(),
        piece.distance_vec(),
    )
    &&& res is Placed <==> before.refusal(piece).is_none() && has_candidate(
        before.cells(),
        piece.distance_vec(),
    )
    &&& match res {
        Placement::Placed { position, evicted } => {
            let k = before.grid().index_of(position);
            &&& before.grid().contains(position)
            &&& is_best(before.cells(), piece.distance_vec(), k)
            &&& after.cells() == before.cells().update(k, Some(piece))
            &&& crate::api::opt_text(evicted) == occupant_id(before.cells()[k])
            &&& overpainted(
                before.canvas(),
                piece.post().image(),
                before.grid().cell_left(position),
                before.grid().cell_top(position),
                after.canvas(),
            )
        },
        Placement::Dropped => same_content(before, after),
        Placement::Rejected(why) => before.refusal(piece) == Some(why) && same_content(
            before,
            after,
        ),
    }
}

/// At most one cell is the best for given distances: the greedy rule
/// names its cell uniquely.
pub proof fn lemma_best_is_unique(cells: Seq<Option<MosaicPiece>>, d: Seq<Distance>, i: int, j: int)
    requires
        is_best(cells, d, i),
        is_best(cells, d, j),
    ensures
        i == j,
{
}

/// Where some cell is open to the distances, one of the open cells is
/// the best: the greedy rule always finds its cell.
pub proof fn lemma_best_exists(cells: Seq<Option<MosaicPiece>>, d: Seq<Distance>)
    requires
        has_candidate(cells, d),
    ensures
        exists|k: int| is_best(cells, d, k),
{
    let first = choose|i: int| is_candidate(cells, d, i);
    lemma_best_upto(cells, d, cells.len() as int, first);
    let k = choose|k: int| best_upto(cells, d, cells.len() as int, k);
    assert(is_best(cells, d, k));
}

/// Whether cell `k` is the best among the first `n` cells.
pub open spec fn best_upto(
    cells: Seq<Option<MosaicPiece>>,
    d: Seq<Distance>,
    n: int,
    k: int,
) -> bool {
    &&& is_candidate(cells, d, k)
    &&& k < n
    &&& forall|j: int|
        j < n && #[trigger] is_candidate(cells, d, j) ==> d[k] < d[j] || (d[k] == d[j] && k <= j)
}

proof fn lemma_best_upto(cells: Seq<Option<MosaicPiece>>, d: Seq<Distance>, n: int, first: int)
    requires
        is_candidate(cells, d, first),
        first < n,
    ensures
        exists|k: int| best_upto(cells, d, n, k),
    decreases n,
{
    if n - 1 == first && forall|j: int| j < n - 1 ==> !is_candidate(cells, d, j) {
        assert(best_upto(cells, d, n, first));
    } else {
        let earlier = if n - 1 == first {
            choose|j: int| j < n - 1 && is_candidate(cells, d, j)
        } else {
            first
        };
        let m = n - 1;
        lemma_best_upto(cells, d, m, earlier);
        let k = choose|k: int| best_upto(cells, d, m, k);
        if is_candidate(cells, d, n - 1) && d[n - 1] < d[k] {
            assert(best_upto(cells, d, n, n - 1));
        } else {
            assert(best_upto(cells, d, n, k));
        }
    }
}

/// Putting a fitting piece that is not placed yet into a cell, with its
/// photo painted over that cell, keeps the mosaic well-formed.
pub proof fn lemma_put_keeps_wf(before: MosaicArt, piece: MosaicPiece, k: int, after: MosaicArt)
    requires
        before.wf(),
        before.admits(piece),
        !before.holds(piece.post().id()),
        0 <= k < before.cells().len(),
        after.grid() == before.grid(),
        after.cells() == before.cells().update(k, Some(piece)),
        overpainted(
            before.canvas(),
            piece.post().image(),
            before.grid().cell_left(before.grid().position_of(k)),
            before.grid().cell_top(before.grid().position_of(k)),
            after.canvas(),
        ),
    ensures
        after.wf(),
{
    let grid = before.grid();
    let position = grid.position_of(k);
    let id = piece.post().id();
    grid.lemma_position_of(k);
    assert forall|i: int, j: int, other: Seq<char>|
        after.holds_at(i, other) && after.holds_at(j, other) implies i == j by {
        if i == k && j != k {
            assert(before.holds_at(j, id));
        } else if j == k && i != k {
            assert(before.holds_at(i, id));
        } else if i != k && j != k {
            assert(before.holds_at(i, other) && before.holds_at(j, other));
        }
    }
    assert forall|i: int, x: int, y: int|
        0 <= i < after.cells().len() && grid.in_cell(grid.position_of(i), x, y)
            implies #[trigger] after.shown(i, x, y) by {
        grid.lemma_position_of(i);
        grid.lemma_cell_inside(grid.position_of(i));
        if i != k {
            if grid.in_cell(position, x, y) {
                grid.lemma_cells_disjoint(grid.position_of(i), position, x, y);
            }
            assert(before.shown(i, x, y));
            assert(after.canvas().at(x, y) == before.canvas().at(x, y));
        } else {
            assert(after.canvas().at(x, y) == piece.post().image().at(
                x - grid.cell_left(position),
                y - grid.cell_top(position),
            ));
        }
    }
    assert forall|i: int|
        0 <= i < after.cells().len() && (#[trigger] after.cells()[i]).is_some()
            implies after.admits(after.cells()[i].unwrap()) by {
        if i != k {
            assert(before.cells()[i].is_some());
        }
    }
}

/// Taking a piece in keeps the mosaic well-formed.
pub proof fn lemma_took_keeps_wf(
    before: MosaicArt,
    piece: MosaicPiece,
    res: Placement,
    after: MosaicArt,
)
    requires
        before.wf(),
        piece.post().image().wf(),
        took(before, piece, res, after),
    ensures
        after.wf(),
{
    let grid = before.grid();
    match res {
        Placement::Placed { position, evicted } => {
            grid.lemma_index_of(position);
            lemma_put_keeps_wf(before, piece, grid.index_of(position), after);
        },
        _ => {
            assert forall|i: int, j: int, other: Seq<char>|
                after.holds_at(i, other) && after.holds_at(j, other) implies i == j by {
                assert(before.holds_at(i, other) && before.holds_at(j, other));
            }
            assert forall|i: int, x: int, y: int|
                0 <= i < after.cells().len() && grid.in_cell(grid.position_of(i), x, y)
                    implies #[trigger] after.shown(i, x, y) by {
                assert(before.shown(i, x, y));
            }
            assert forall|i: int|
                0 <= i < after.cells().len() && (#[trigger] after.cells()[i]).is_some()
                    implies after.admits(after.cells()[i].unwrap()) by {
                assert(before.cells()[i].is_some());
            }
        },
    }
}

/// A piece that can be taken in and finds a cell open to it is placed.
/// It goes to the open cell where its distance is least, the first of
/// them on a tie; the post that stood there is named as evicted and is
/// no longer placed; the piece itself now is.
pub proof fn lemma_open_cell_means_placed(
    before: MosaicArt,
    piece: MosaicPiece,
    res: Placement,
    after: MosaicArt,
    i: int,
)
    requires
        before.wf(),
        took(before, piece, res, after),
        before.refusal(piece).is_none(),
        is_candidate(before.cells(), piece.distance_vec(), i),
    ensures
        res matches Placement::Placed { position, evicted } && {
            let k = before.grid().index_of(position);
            let d = piece.distance_vec();
            &&& is_candidate(before.cells(), d, k)
            &&& d[k] < d[i] || (d[k] == d[i] && k <= i)
            &&& crate::api::opt_text(evicted) == occupant_id(before.cells()[k])
            &&& after.holds(piece.post().id())
            &&& evicted matches Some(gone) ==> !after.holds(gone@)
        },
{
    match res {
        Placement::Placed { position, evicted } => {
            let k = before.grid().index_of(position);
            before.grid().lemma_index_of(position);
            assert(after.holds_at(k, piece.post().id()));
            match evicted {
                Some(gone) => {
                    assert(before.holds_at(k, gone@));
                    if after.holds(gone@) {
                        let j = choose|j: int| after.holds_at(j, gone@);
                        assert(j != k);
                        assert(before.holds_at(j, gone@));
                    }
                },
                None => {},
            }
        },
        _ => {},
    }
}

/// Cells only improve. Taking a piece in never empties a cell, and
/// never makes the distance of a cell's occupant to that cell larger: an
/// occupant is displaced only by a strictly closer match.
pub proof fn lemma_cells_only_improve(
    before: MosaicArt,
    piece: MosaicPiece,
    res: Placement,
    after: MosaicArt,
)
    requires
        before.wf(),
        took(before, piece, res, after),
    ensures
        after.cells().len() == before.cells().len(),
        forall|i: int|
            0 <= i < before.cells().len() && (#[trigger] before.cells()[i]).is_some() ==> {
                &&& after.cells()[i].is_some()
                &&& after.cells()[i].unwrap().distance_vec()[i] <= before.cells()[i].unwrap()
                    .distance_vec()[i]
                &&& after.cells()[i] != before.cells()[i] ==> after.cells()[i].unwrap().distance_vec()[i]
                    < before.cells()[i].unwrap().distance_vec()[i]
            },
{
    match res {
        Placement::Placed { position, evicted } => {
            before.grid().lemma_index_of(position);
        },
        _ => {},
    }
}

/// Whether handing the pieces to a mosaic one after the other leads
/// through the given mosaics with the given answers.
pub open spec fn placed_in_turn(
    states: Seq<MosaicArt>,
    pieces: Seq<MosaicPiece>,
    results: Seq<Placement>,
) -> bool {
    &&& states.len() == pieces.len() + 1
    &&& results.len() == pieces.len()
    &&& forall|i: int|
        0 <= i < pieces.len() ==> #[trigger] took(states[i], pieces[i], results[i], states[i + 1])
}

/// After any sequence of placements, starting from a well-formed
/// mosaic, the mosaic is well-formed: its two maps agree, every placed
/// piece stands in a cell of the grid, and the canvas shows what the
/// cells hold.
pub proof fn lemma_any_sequence_keeps_wf(
    states: Seq<MosaicArt>,
    pieces: Seq<MosaicPiece>,
    results: Seq<Placement>,
    n: int,
)
    requires
        states[0].wf(),
        forall|i: int| 0 <= i < pieces.len() ==> (#[trigger] pieces[i]).post().image().wf(),
        placed_in_turn(states, pieces, results),
        0 <= n < states.len(),
    ensures
        states[n].wf(),
        states[n].grid() == states[0].grid(),
    decreases n,
{
    if n > 0 {
        lemma_any_sequence_keeps_wf(states, pieces, results, n - 1);
        assert(took(states[n - 1], pieces[n - 1], results[n - 1], states[n - 1 + 1]));
        lemma_took_keeps_wf(states[n - 1], pieces[n - 1], results[n - 1], states[n]);
    }
}

/// The two maps of a well-formed mosaic agree. A post is registered
/// exactly when some cell points at it; under its identifier stands the
/// piece of that cell; no post stands in two cells; and every occupied
/// cell is a cell of the grid.
pub proof fn lemma_maps_consistent(art: MosaicArt)
    requires
        art.wf(),
    ensures
        forall|id: Seq<char>| #[trigger]
            art.piece_posts().dom().contains(id) <==> exists|pos: Position|
                art.position_map().dom().contains(pos) && art.position_map()[pos] == id,
        forall|pos: Position| #[trigger]
            art.position_map().dom().contains(pos) ==> {
                &&& art.grid().contains(pos)
                &&& art.piece_posts().dom().contains(art.position_map()[pos])
                &&& art.piece_posts()[art.position_map()[pos]] == art.cells()[art.grid().index_of(
                    pos,
                )].unwrap()
                &&& art.piece_posts()[art.position_map()[pos]].post().id() == art.position_map()[pos]
            },
        forall|p: Position, q: Position|
            art.position_map().dom().contains(p) && art.position_map().dom().contains(q)
                && art.position_map()[p] == art.position_map()[q] ==> p == q,
{
    let grid = art.grid();
    assert forall|pos: Position| #[trigger] art.position_map().dom().contains(pos) implies {
        &&& art.grid().contains(pos)
        &&& art.piece_posts().dom().contains(art.position_map()[pos])
        &&& art.piece_posts()[art.position_map()[pos]] == art.cells()[art.grid().index_of(pos)].unwrap()
        &&& art.piece_posts()[art.position_map()[pos]].post().id() == art.position_map()[pos]
    } by {
        grid.lemma_index_of(pos);
        let k = grid.index_of(pos);
        let id = art.position_map()[pos];
        assert(art.holds_at(k, id));
        let c = choose|i: int| art.holds_at(i, id);
        assert(art.holds_at(c, id));
        assert(c == k);
    }
    assert forall|id: Seq<char>| #[trigger]
        art.piece_posts().dom().contains(id) <==> exists|pos: Position|
            art.position_map().dom().contains(pos) && art.position_map()[pos] == id by {
        if art.piece_posts().dom().contains(id) {
            let i = choose|i: int| art.holds_at(i, id);
            grid.lemma_position_of(i);
            let pos = grid.position_of(i);
            assert(art.position_map().dom().contains(pos) && art.position_map()[pos] == id);
        }
        if exists|pos: Position|
            art.position_map().dom().contains(pos) && art.position_map()[pos] == id {
            let pos = choose|pos: Position|
                art.position_map().dom().contains(pos) && art.position_map()[pos] == id;
            assert(art.piece_posts().dom().contains(art.position_map()[pos]));
        }
    }
    assert forall|p: Position, q: Position|
        art.position_map().dom().contains(p) && art.position_map().dom().contains(q)
            && art.position_map()[p] == art.position_map()[q] implies p == q by {
        grid.lemma_index_of(p);
        grid.lemma_index_of(q);
        let id = art.position_map()[p];
        assert(art.holds_at(grid.index_of(p), id));
        assert(art.holds_at(grid.index_of(q), id));
    }
}

} // verus!
