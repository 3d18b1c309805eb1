use vstd::prelude::*;
use crate::art::placed;
use crate::art::MosaicArt;
use crate::feeder::tag_views;
use crate::generator::clone_strings;
use crate::picture::rgba_bytes;
use crate::picture::Picture;
use crate::post::InstaPostInfo;
use crate::worker::WorkerId;
use crate::worker::WorkerManager;

verus! {

/// The mosaic as it is served: the canvas as a PNG file in base64, who
/// is placed, and the hashtags.
#[derive(Debug)]
pub struct MosaicArtResponse {
    pub mosaic_art: String,
    pub piece_posts: Vec<InstaPostResponse>,
    pub insta_hashtags: Vec<String>,
}

/// One placed post as it is served.
#[derive(Debug)]
pub struct InstaPostResponse {
    pub post_id: String,
    pub user_name: String,
}

/// The PNG file that the `image` crate writes for a picture of the given
/// size whose raw bytes, four per pixel, are `pixels`; `None` where the
/// crate refuses to write one.
pub uninterp spec fn png_file(width: u32, height: u32, pixels: Seq<u8>) -> Option<Seq<u8>>;

/// The text that the `base64` crate gives for the bytes: standard
/// alphabet, padded.
pub uninterp spec fn base64_text(bytes: Seq<u8>) -> Seq<char>;

/// The view of optional bytes.
pub open spec fn opt_bytes(bytes: Option<Vec<u8>>) -> Option<Seq<u8>> {
    match bytes {
        Some(b) => Some(b@),
        None => None,
    }
}

/// `PngEncoder::write_image` of the `image` crate, with its default
/// settings, on 8-bit RGBA bytes, into a buffer in memory. The file it
/// writes is a function of size and bytes and is named `png_file`; the
/// crate's error becomes `None`. The crate stops the program unless
/// there are exactly four bytes per pixel.
#[verifier::external_body]
fn png_encode(width: u32, height: u32, rgba: &[u8]) -> (file: Option<Vec<u8>>)
    requires
        rgba@.len() == 4 * (width as int * height as int),
    ensures
        opt_bytes(file) == png_file(width, height, rgba@),
{
    let mut out: Vec<u8> = Vec::new();
    let encoder = image::codecs::png::PngEncoder::new(&mut out);
    let color = image::ExtendedColorType::Rgba8;
    match image::ImageEncoder::write_image(encoder, rgba, width, height, color) {
        Ok(()) => Some(out),
        Err(_) => None,
    }
}

/// Whether the text for so many bytes, four characters for every three
/// bytes begun, has a length that this machine can say.
pub open spec fn encodable(len: nat) -> bool {
    len / 3 * 4 + 4 <= usize::MAX
}

/// `base64::encode` of the `base64` crate. Its text is a function of the
/// bytes and is named `base64_text`. The crate stops the program where
/// it cannot say the length of the text.
#[verifier::external_body]
fn base64_encode(bytes: &[u8]) -> (text: String)
    requires
        encodable(bytes@.len()),
    ensures
        text@ == base64_text(bytes@),
{
    base64::encode(bytes)
}

/// The bytes as base64 text; `None` exactly when the text would be too
/// long for this machine.
pub fn to_base64(bytes: &[u8]) -> (text: Option<String>)
    ensures
        text.is_some() <==> encodable(bytes@.len()),
        text matches Some(t) ==> t@ == base64_text(bytes@),
{
    if bytes.len() / 3 > (usize::MAX - 4) / 4 {
        None
    } else {
        Some(base64_encode(bytes))
    }
}

/// Whether a list of served posts names the placed posts of a mosaic,
/// in the order of the cells.
pub open spec fn names_placed(posts: Seq<InstaPostResponse>, art: MosaicArt) -> bool {
    &&& posts.len() == placed(art.cells()).len()
    &&& forall|i: int|
        0 <= i < posts.len() ==> {
            &&& (#[trigger] posts[i]).post_id@ == placed(art.cells())[i].post().id()
            &&& posts[i].user_name@ == placed(art.cells())[i].post().user()
        }
}

/// The canvas of a mosaic as a PNG file; `None` exactly when the `image`
/// crate refuses to write it.
pub fn to_png_bytes(image: &Picture) -> (file: Option<Vec<u8>>)
    requires
        image.wf(),
    ensures
        opt_bytes(file) == png_file(image.size().width, image.size().height, rgba_bytes(*image)),
{
    let raw = image.to_rgba_bytes();
    let size = image.get_size();
    png_encode(size.width, size.height, raw.as_slice())
}

/// Puts a response together from the encoded canvas and the mosaic:
/// the text as it is, the placed posts in the order of the cells, and
/// the hashtags.
pub fn assemble_response(mosaic_art: String, art: &MosaicArt) -> (res: MosaicArtResponse)
    ensures
        res.mosaic_art == mosaic_art,
        names_placed(res.piece_posts@, *art),
        tag_views(res.insta_hashtags@) == art.hashtags(),
{
    let infos: Vec<InstaPostInfo> = art.get_piece_posts();
    let mut piece_posts: Vec<InstaPostResponse> = Vec::new();
    let ghost all = infos@;
    let mut i: usize = 0;
    while i < infos.len()
        invariant
            infos@ == all,
            i <= all.len(),
            piece_posts@.len() == i,
            forall|k: int|
                0 <= k < i ==> {
                    &&& (#[trigger] piece_posts@[k]).post_id@ == all[k].post_id@
                    &&& piece_posts@[k].user_name@ == all[k].user_name@
                },
        decreases all.len() - i,
    {
        piece_posts.push(
            InstaPostResponse {
                post_id: infos[i].post_id.clone(),
                user_name: infos[i].user_name.clone(),
            },
        );
        i += 1;
    }
    MosaicArtResponse {
        mosaic_art,
        piece_posts,
        insta_hashtags: clone_strings(art.get_hashtags()),
    }
}

/// The PNG file of the canvas of a mosaic, if one can be written.
pub open spec fn canvas_file(art: MosaicArt) -> Option<Seq<u8>> {
    png_file(art.canvas().size().width, art.canvas().size().height, rgba_bytes(art.canvas()))
}

/// The mosaic as it is served: its canvas written as a PNG file and
/// that file put into base64, with the placed posts and the hashtags.
/// `None` exactly when no PNG file can be written of the canvas, or the
/// file is too long to be put into base64.
pub fn construct_response(art: &MosaicArt) -> (res: Option<MosaicArtResponse>)
    requires
        art.wf(),
    ensures
        res.is_some() <==> canvas_file(*art).is_some() && encodable(
            canvas_file(*art).unwrap().len(),
        ),
        res matches Some(r) ==> {
            &&& r.mosaic_art@ == base64_text(canvas_file(*art).unwrap())
            &&& names_placed(r.piece_posts@, *art)
            &&& tag_views(r.insta_hashtags@) == art.hashtags()
        },
{
    match to_png_bytes(art.get_image().image()) {
        Some(png) => {
            match to_base64(png.as_slice()) {
                Some(text) => Some(assemble_response(text, art)),
                None => None,
            }
        },
        None => None,
    }
}

/// Why a mosaic is not served.
#[derive(Clone, Copy, Debug, PartialEq, Eq, Structural)]
pub enum ServeError {
    /// No job runs under the identity asked for.
    NotFound,
    /// The job's pipeline has ended in a failure: what it left is stale.
    Failed,
    /// The canvas cannot be written out.
    Unwritable,
}

/// What is served for an identity: the first that holds of not found,
/// failed, unwritable; `None` where the mosaic is served.
pub open spec fn serve_refusal(manager: WorkerManager, id: WorkerId) -> Option<ServeError> {
    if !manager.has(id) {
        Some(ServeError::NotFound)
    } else if manager.job(id).feeder().state().stage is Failed {
        Some(ServeError::Failed)
    } else if !(canvas_file(manager.job(id).generator().art()).is_some() && encodable(
        canvas_file(manager.job(id).generator().art()).unwrap().len(),
    )) {
        Some(ServeError::Unwritable)
    } else {
        None
    }
}

/// Serves the mosaic of the job that runs under `id`. An identity under
/// which no job runs is not found; a job whose pipeline has failed is
/// reported as failed instead of being served.
pub fn handler(id: WorkerId, manager: &WorkerManager) -> (res: Result<
    MosaicArtResponse,
    ServeError,
>)
    requires
        manager.wf(),
    ensures
        match res {
            Ok(r) => {
                let art = manager.job(id).generator().art();
                &&& serve_refusal(*manager, id).is_none()
                &&& r.mosaic_art@ == base64_text(canvas_file(art).unwrap())
                &&& names_placed(r.piece_posts@, art)
                &&& tag_views(r.insta_hashtags@) == art.hashtags()
            },
            Err(e) => serve_refusal(*manager, id) == Some(e),
        },
{
    match manager.get(id) {
        None => Err(ServeError::NotFound),
        Some(job) => {
            proof {
                let i = choose|i: int| manager.is_at(i, id);
                assert(manager.entries()[i].job().wf());
            }
            match job.stage() {
                crate::feeder::Stage::Failed => Err(ServeError::Failed),
                _ => match construct_response(job.art()) {
                    Some(response) => Ok(response),
                    None => Err(ServeError::Unwritable),
                },
            }
        },
    }
}

} // verus!
