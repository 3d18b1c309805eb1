use vstd::prelude::*;
use crate::art::same_content;
use crate::art::took;
use crate::art::placed;
use crate::art::Placement;
use crate::art::Rejection;
use crate::distance::DistanceCalcAlgo;
use crate::distance::MosaicPiece;
use crate::feeder::tag_views;
use crate::picture::Picture;
use crate::post::InstaPost;
use crate::post::InstaPostInfo;
use crate::size::fits;
use crate::size::tiles;
use crate::size::ConfigError;
use crate::size::Grid;
use crate::size::ImageSize;

verus! {

/// A mosaic as it is handed out: the canvas, who is placed, and the hashtags.
#[derive(Debug)]
pub struct MosaicArt {
    pub image: Picture,
    pub posts: Vec<InstaPostInfo>,
    pub hashtags: Vec<String>,
}

/// Scores candidates against one reference picture and places them.
pub struct MosaicArtGenerator {
    calc_algo: DistanceCalcAlgo,
    art: crate::art::MosaicArt,
}

/// Whether `piece` is what scoring `post` gives: the post itself, with
/// its distance to each cell of the reference.
pub open spec fn scored(algo: DistanceCalcAlgo, post: InstaPost, piece: MosaicPiece) -> bool {
    &&& piece.post() == post
    &&& piece.distance_vec().len() == algo.grid().cell_count()
    &&& forall|i: int|
        0 <= i < piece.distance_vec().len() ==> #[trigger] piece.distance_vec()[i] == algo.score(
            post.image(),
        )[i]
}

/// What handing a post to the generator does, as a relation between the
/// mosaic before, the post, the answer and the mosaic after. A post whose
/// photo is not of piece size is rejected and changes nothing. Any other
/// post is scored, and the scored piece is taken in as `took` says.
pub open spec fn sank(
    algo: DistanceCalcAlgo,
    before: crate::art::MosaicArt,
    post: InstaPost,
    res: Placement,
    after: crate::art::MosaicArt,
) -> bool {
    if post.image().size() != algo.grid().piece() {
        &&& res == Placement::Rejected(Rejection::WrongPhotoSize)
        &&& same_content(before, after)
        &&& after.grid() == before.grid()
        &&& after.hashtags() == before.hashtags()
    } else {
        exists|piece: MosaicPiece| scored(algo, post, piece) && took(before, piece, res, after)
    }
}

/// Whether a snapshot shows a mosaic: the same canvas pixel by pixel, the
/// placed posts in the order of the cells, and the hashtags.
pub open spec fn shows(snapshot: MosaicArt, art: crate::art::MosaicArt) -> bool {
    &&& snapshot.image.wf()
    &&& snapshot.image.size() == art.canvas().size()
    &&& forall|x: int, y: int|
        0 <= x < art.canvas().size().width && 0 <= y < art.canvas().size().height
            ==> #[trigger] snapshot.image.at(x, y) == art.canvas().at(x, y)
    &&& snapshot.posts@.len() == placed(art.cells()).len()
    &&& forall|i: int|
        0 <= i < snapshot.posts@.len() ==> {
            &&& (#[trigger] snapshot.posts@[i]).post_id@ == placed(art.cells())[i].post().id()
            &&& snapshot.posts@[i].user_name@ == placed(art.cells())[i].post().user()
        }
    &&& tag_views(snapshot.hashtags@) == art.hashtags()
}

/// A copy of a list of strings.
pub fn clone_strings(list: &[String]) -> (copy: Vec<String>)
    ensures
        tag_views(copy@) == tag_views(list@),
{
    let mut copy: Vec<String> = Vec::new();
    let mut i: usize = 0;
    while i < list.len()
        invariant
            i <= list@.len(),
            copy@.len() == i,
            forall|k: int| 0 <= k < i ==> (#[trigger] copy@[k])@ == list@[k]@,
        decreases list@.len() - i,
    {
        copy.push(list[i].clone());
        i += 1;
    }
    assert(tag_views(copy@) =~= tag_views(list@));
    copy
}

impl MosaicArtGenerator {
    /// The scorer: the reference picture cut by the grid.
    pub closed spec fn algo(&self) -> DistanceCalcAlgo {
        self.calc_algo
    }

    /// The mosaic that the candidates go to.
    pub closed spec fn art(&self) -> crate::art::MosaicArt {
        self.art
    }

    /// Scorer and mosaic are well-formed and share one grid.
    pub open spec fn wf(&self) -> bool {
        &&& self.algo().wf()
        &&& self.art().wf()
        &&& self.art().grid() == self.algo().grid()
    }

    /// Cuts the reference into cells of the given piece size and starts
    /// with an empty mosaic. Refused exactly when the piece size does
    /// not tile the reference (`SizeMismatch`) or the reference is too
    /// large (`TooLarge`).
    pub fn new(origin: Picture, piece: ImageSize, hashtags: Vec<String>) -> (res: Result<
        MosaicArtGenerator,
        ConfigError,
    >)
        requires
            origin.wf(),
        ensures
            res.is_ok() <==> tiles(origin.size(), piece) && fits(origin.size()),
            res matches Ok(g) ==> {
                &&& g.wf()
                &&& g.algo().origin() == origin
                &&& g.algo().grid().reference() == origin.size()
                &&& g.algo().grid().piece() == piece
                &&& g.art().hashtags() == tag_views(hashtags@)
                &&& forall|i: int|
                    0 <= i < g.art().cells().len() ==> (#[trigger] g.art().cells()[i]).is_none()
            },
            res matches Err(e) ==> {
                &&& e == ConfigError::SizeMismatch <==> !tiles(origin.size(), piece)
                &&& e == ConfigError::TooLarge <==> tiles(origin.size(), piece) && !fits(
                    origin.size(),
                )
            },
    {
        let grid = match Grid::new(origin.get_size(), piece) {
            Ok(grid) => grid,
            Err(e) => {
                return Err(e);
            },
        };
        let calc_algo = match DistanceCalcAlgo::new(&origin, grid) {
            Ok(algo) => algo,
            Err(e) => {
                return Err(e);
            },
        };
        let art = crate::art::MosaicArt::new(grid, hashtags);
        Ok(MosaicArtGenerator { calc_algo, art })
    }

    pub fn hashtags(&self) -> (hashtags: Vec<String>)
        ensures
            tag_views(hashtags@) == self.art().hashtags(),
    {
        clone_strings(self.art.get_hashtags())
    }

    /// The mosaic itself, to read.
    pub fn get_art(&self) -> (art: &crate::art::MosaicArt)
        ensures
            *art == self.art(),
    {
        &self.art
    }

    /// The mosaic as it stands, copied out.
    pub fn current_art(&self) -> (snapshot: MosaicArt)
        requires
            self.wf(),
        ensures
            shows(snapshot, self.art()),
    {
        MosaicArt {
            image: self.art.get_image().image().duplicate(),
            posts: self.art.get_piece_posts(),
            hashtags: clone_strings(self.art.get_hashtags()),
        }
    }

    /// Scores a post against the reference and takes it in by the greedy
    /// rule. Hands back what became of it.
    pub fn place(&mut self, post: InstaPost) -> (res: Placement)
        requires
            old(self).wf(),
            post.image().wf(),
        ensures
            final(self).wf(),
            final(self).algo() == old(self).algo(),
            sank(old(self).algo(), old(self).art(), post, res, final(self).art()),
    {
        match self.calc_algo.calc_post(post) {
            None => Placement::Rejected(Rejection::WrongPhotoSize),
            Some(piece) => {
                assert(scored(self.algo(), post, piece));
                self.art.place(piece)
            },
        }
    }

    /// Scores a post, takes it in, and hands back what became of it
    /// together with the mosaic as it then stands.
    pub fn apply_post(&mut self, post: InstaPost) -> (res: (Placement, MosaicArt))
        requires
            old(self).wf(),
            post.image().wf(),
        ensures
            final(self).wf(),
            final(self).algo() == old(self).algo(),
            sank(old(self).algo(), old(self).art(), post, res.0, final(self).art()),
            shows(res.1, final(self).art()),
    {
        let placement = self.place(post);
        let snapshot = self.current_art();
        (placement, snapshot)
    }
}

} // verus!
