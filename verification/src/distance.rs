use vstd::prelude::*;
use crate::picture::Picture;
use crate::picture::region_luma;
use crate::picture::lemma_region_luma_bound;
use crate::post::InstaPost;
use crate::size::ConfigError;
use crate::size::Grid;
use crate::size::MAX_PIXELS;

verus! {

/// How badly a photo matches a cell. Larger is worse.
pub type Distance = u64;

/// The largest distance there is: black against white.
pub const MAX_DISTANCE: u64 = 2_550_000;

/// Distance between two pictures of `n` pixels each whose grey values sum
/// to `a` and to `b`: the difference of the two mean grey values, times
/// 10000, rounded to the nearest integer (a half rounds up).
pub open spec fn distance(a: int, b: int, n: int) -> int {
    let diff = if a >= b {
        a - b
    } else {
        b - a
    };
    (20000 * diff + n) / (2 * n)
}

/// Sum of the grey values of the cell at `index` of the grid.
pub open spec fn cell_signature(origin: Picture, grid: Grid, index: int) -> int {
    let pos = grid.position_of(index);
    region_luma(
        origin,
        grid.cell_left(pos),
        grid.cell_top(pos),
        grid.piece().width as nat,
        grid.piece().height as nat,
    )
}

/// Sum of the grey values of a whole picture.
pub open spec fn picture_signature(pic: Picture) -> int {
    region_luma(pic, 0, 0, pic.size().width as nat, pic.size().height as nat)
}

/// The distance of two pictures of `n` pixels each whose grey values sum
/// to `a` and to `b`. A grey value is at most 255, so neither sum is more
/// than `255 * n`.
pub fn distance_between(a: u64, b: u64, n: u64) -> (d: Distance)
    requires
        0 < n <= MAX_PIXELS,
        a <= 255 * n,
        b <= 255 * n,
    ensures
        d == distance(a as int, b as int, n as int),
        d <= MAX_DISTANCE,
{
    let diff: u64 = if a >= b {
        a - b
    } else {
        b - a
    };
    let num: u128 = 20000u128 * (diff as u128) + (n as u128);
    let den: u128 = 2u128 * (n as u128);
    let q: u128 = num / den;
    assert(q <= 2_550_000) by (nonlinear_arith)
        requires
            q == num / den,
            den == 2 * n,
            n > 0,
            num <= 20000 * (255 * n) + n,
    ;
    q as u64
}

/// A candidate together with its distance to every cell.
#[derive(Debug)]
pub struct MosaicPiece {
    post: InstaPost,
    distance_vec: Vec<Distance>,
}

impl MosaicPiece {
    /// The candidate itself.
    pub closed spec fn post(&self) -> InstaPost {
        self.post
    }

    /// One distance per cell, in the order of the grid's enumeration.
    pub closed spec fn distance_vec(&self) -> Seq<Distance> {
        self.distance_vec@
    }

    /// A candidate with the distances given for it.
    pub fn new(post: InstaPost, distance_vec: Vec<Distance>) -> (piece: MosaicPiece)
        ensures
            piece.post() == post,
            piece.distance_vec() == distance_vec@,
    {
        MosaicPiece { post, distance_vec }
    }

    pub fn get_post(&self) -> (post: &InstaPost)
        ensures
            *post == self.post(),
    {
        &self.post
    }

    pub fn get_image(&self) -> (image: &Picture)
        ensures
            *image == self.post().image(),
    {
        self.post.get_image()
    }

    pub fn get_distances(&self) -> (d: &Vec<Distance>)
        ensures
            d@ == self.distance_vec(),
    {
        &self.distance_vec
    }
}

/// Mean grey value as the signature of a picture. Holds, per cell of the
/// reference, the sum of the cell's grey values.
struct MeanGrayscaleAlgo {
    cache: Vec<u64>,
    pixels: u64,
}

impl MeanGrayscaleAlgo {
    fn new(origin: &Picture, grid: &Grid) -> (algo: MeanGrayscaleAlgo)
        requires
            origin.wf(),
            grid.wf(),
            origin.size() == grid.reference(),
        ensures
            algo.pixels == grid.piece().area(),
            algo.cache@.len() == grid.cell_count(),
            forall|i: int|
                0 <= i < algo.cache@.len() ==> #[trigger] algo.cache@[i] == cell_signature(
                    *origin,
                    *grid,
                    i,
                ),
    {
        let count = grid.cells();
        let piece = grid.piece_size();
        let mut cache: Vec<u64> = Vec::new();
        let mut i: usize = 0;
        while i < count
            invariant
                origin.wf(),
                grid.wf(),
                origin.size() == grid.reference(),
                count == grid.cell_count(),
                piece == grid.piece(),
                i <= count,
                cache@.len() == i,
                forall|k: int|
                    0 <= k < i ==> #[trigger] cache@[k] == cell_signature(*origin, *grid, k),
            decreases count - i,
        {
            let pos = grid.position_at(i).unwrap();
            let corner = grid.cell_corner(pos);
            proof {
                grid.lemma_cell_inside(pos);
            }
            let total = origin.luma_total(corner.0, corner.1, piece.width, piece.height).unwrap();
            cache.push(total);
            i += 1;
        }
        proof {
            grid.lemma_cell_inside(grid.position_of(0));
            grid.lemma_position_of(0);
        }
        MeanGrayscaleAlgo { cache, pixels: (piece.width as u64) * (piece.height as u64) }
    }

    fn calc(&self, piece: &Picture) -> (vec: Vec<Distance>)
        requires
            piece.wf(),
            0 < self.pixels <= MAX_PIXELS,
            piece.size().area() == self.pixels,
            forall|i: int|
                0 <= i < self.cache@.len() ==> #[trigger] self.cache@[i] <= 255 * self.pixels,
        ensures
            vec@.len() == self.cache@.len(),
            forall|i: int|
                0 <= i < vec@.len() ==> #[trigger] vec@[i] == distance(
                    picture_signature(*piece),
                    self.cache@[i] as int,
                    self.pixels as int,
                ),
    {
        let size = piece.get_size();
        let mean = piece.luma_total(0, 0, size.width, size.height).unwrap();
        proof {
            lemma_region_luma_bound(*piece, 0, 0, size.width as nat, size.height as nat);
        }
        let mut vec: Vec<Distance> = Vec::new();
        let mut i: usize = 0;
        while i < self.cache.len()
            invariant
                0 < self.pixels <= MAX_PIXELS,
                mean == picture_signature(*piece),
                mean <= 255 * self.pixels,
                forall|k: int|
                    0 <= k < self.cache@.len() ==> #[trigger] self.cache@[k] <= 255 * self.pixels,
                i <= self.cache@.len(),
                vec@.len() == i,
                forall|k: int|
                    0 <= k < i ==> #[trigger] vec@[k] == distance(
                        mean as int,
                        self.cache@[k] as int,
                        self.pixels as int,
                    ),
            decreases self.cache@.len() - i,
        {
            vec.push(distance_between(mean, self.cache[i], self.pixels));
            i += 1;
        }
        vec
    }
}

/// Scores candidates against the cells of one reference picture.
pub struct DistanceCalcAlgo {
    algo: MeanGrayscaleAlgo,
    grid: Grid,
    origin: Ghost<Picture>,
}

impl DistanceCalcAlgo {
    /// The grid the reference was cut by.
    pub closed spec fn grid(&self) -> Grid {
        self.grid
    }

    /// The reference picture.
    pub closed spec fn origin(&self) -> Picture {
        self.origin@
    }

    /// The cached sums belong to the cells of the reference.
    pub closed spec fn wf(&self) -> bool {
        &&& self.grid.wf()
        &&& self.origin@.wf()
        &&& self.origin@.size() == self.grid.reference()
        &&& self.algo.pixels == self.grid.piece().area()
        &&& self.algo.cache@.len() == self.grid.cell_count()
        &&& forall|i: int|
            0 <= i < self.algo.cache@.len() ==> #[trigger] self.algo.cache@[i] == cell_signature(
                self.origin@,
                self.grid,
                i,
            )
    }

    /// The distances that `calc_post` gives a photo: to each cell, the
    /// distance between the photo's and the cell's mean grey value.
    pub open spec fn score(&self, photo: Picture) -> Seq<int> {
        Seq::new(
            self.grid().cell_count() as nat,
            |i: int|
                distance(
                    picture_signature(photo),
                    cell_signature(self.origin(), self.grid(), i),
                    self.grid().piece().area(),
                ),
        )
    }

    /// Cuts the reference by the grid and sums up each cell. Refused with
    /// `WrongReferenceSize` exactly when the picture is not of the grid's
    /// reference size.
    pub fn new(origin: &Picture, grid: Grid) -> (res: Result<DistanceCalcAlgo, ConfigError>)
        requires
            origin.wf(),
            grid.wf(),
        ensures
            res.is_ok() <==> origin.size() == grid.reference(),
            res matches Ok(algo) ==> algo.wf() && algo.grid() == grid && algo.origin() == *origin,
            res matches Err(e) ==> e == ConfigError::WrongReferenceSize,
    {
        if origin.get_size() != grid.reference_size() {
            return Err(ConfigError::WrongReferenceSize);
        }
        let algo = MeanGrayscaleAlgo::new(origin, &grid);
        Ok(DistanceCalcAlgo { algo, grid, origin: Ghost(*origin) })
    }

    /// Scores a post. `None` exactly when its photo is not of piece size.
    pub fn calc_post(&self, post: InstaPost) -> (res: Option<MosaicPiece>)
        requires
            self.wf(),
            post.image().wf(),
        ensures
            res.is_some() <==> post.image().size() == self.grid().piece(),
            res matches Some(piece) ==> {
                &&& piece.post() == post
                &&& piece.distance_vec().len() == self.grid().cell_count()
                &&& forall|i: int|
                    0 <= i < piece.distance_vec().len() ==> #[trigger] piece.distance_vec()[i]
                        == self.score(post.image())[i]
            },
    {
        if post.get_image().get_size() != self.grid.piece_size() {
            return None;
        }
        proof {
            self.grid.lemma_counts();
            self.grid.lemma_position_of(0);
            self.grid.lemma_cell_inside(self.grid.position_of(0));
            assert forall|i: int| 0 <= i < self.algo.cache@.len() implies #[trigger] self.algo.cache@[i]
                <= 255 * self.algo.pixels by {
                let pos = self.grid.position_of(i);
                lemma_region_luma_bound(
                    self.origin@,
                    self.grid.cell_left(pos),
                    self.grid.cell_top(pos),
                    self.grid.piece().width as nat,
                    self.grid.piece().height as nat,
                );
            }
        }
        let vec = self.algo.calc(post.get_image());
        Some(MosaicPiece { post, distance_vec: vec })
    }
}

} // verus!
