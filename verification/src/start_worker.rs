use vstd::prelude::*;
use vstd::string::StringSliceAdditionalSpecFns;
use crate::picture::Picture;
use crate::post::InstaPost;
use crate::size::ConfigError;
use crate::size::ImageSize;
use crate::worker::fresh_job;
use crate::worker::photos_wf;
use crate::worker::start_refusal;
use crate::worker::WorkerId;
use crate::worker::WorkerManager;

verus! {

/// The error of the `base64` crate's decoder.
#[verifier::external_type_specification]
#[verifier::external_body]
pub struct ExDecodeError(base64::DecodeError);

/// The bytes that the `base64` crate reads from a text with its standard
/// settings; `None` where it reports an error.
pub uninterp spec fn base64_bytes(text: Seq<char>) -> Option<Seq<u8>>;

/// `base64::decode` of the `base64` crate. What it reads is a function
/// of the text and is named `base64_bytes`; it answers `Err` exactly
/// where that is `None`. The crate stops the program on a text within
/// three bytes of the longest there can be.
#[verifier::external_body]
fn base64_decode(text: &str) -> (res: Result<Vec<u8>, base64::DecodeError>)
    requires
        text.spec_bytes().len() + 3 <= usize::MAX,
    ensures
        match res {
            Ok(bytes) => base64_bytes(text@) == Some(bytes@),
            Err(_) => base64_bytes(text@).is_none(),
        },
{
    base64::decode(text)
}

/// The reference picture's file out of its base64 form. Text that is no
/// base64, or longer than can be decoded, is refused as a malformed image.
pub fn decode_origin(base64_str: &str) -> (res: Result<Vec<u8>, ConfigError>)
    ensures
        res.is_ok() <==> base64_bytes(base64_str@).is_some() && base64_str.spec_bytes().len() + 3
            <= usize::MAX,
        res matches Ok(v) ==> Some(v@) == base64_bytes(base64_str@),
        res matches Err(e) ==> e == ConfigError::MalformedImage,
{
    if base64_str.as_bytes().len() > usize::MAX - 3 {
        return Err(ConfigError::MalformedImage);
    }
    match base64_decode(base64_str) {
        Ok(bytes) => Ok(bytes),
        Err(_) => Err(ConfigError::MalformedImage),
    }
}

/// What a caller asks for when starting a job, as it arrives.
#[derive(Debug)]
pub struct RawStartWorkerOption {
    /// The reference picture's file, in base64.
    pub origin: String,
    pub hashtags: Vec<String>,
    pub piece_size: Option<(u32, u32)>,
}

/// What a caller asks for when starting a job, with the reference decoded.
#[derive(Debug)]
pub struct StartWorkerOption {
    pub origin: Picture,
    pub hashtags: Vec<String>,
    pub piece_size: Option<(u32, u32)>,
}

impl StartWorkerOption {
    /// The request with its reference picture decoded: hashtags and
    /// piece size are taken over as they are.
    pub fn from(raw: RawStartWorkerOption, origin: Picture) -> (option: StartWorkerOption)
        ensures
            option.origin == origin,
            option.hashtags == raw.hashtags,
            option.piece_size == raw.piece_size,
    {
        StartWorkerOption { origin, hashtags: raw.hashtags, piece_size: raw.piece_size }
    }
}

/// Side of the one reference size that jobs are offered for.
pub const ORIGIN_SIDE: u32 = 3000;

/// Side of the one piece size that jobs are offered for; it is also the
/// piece size of a caller who names none.
pub const PIECE_SIDE: u32 = 30;

/// The piece size that a job is started with: jobs are offered for a
/// reference of 3000 by 3000 with pieces of 30 by 30, asked for or left
/// open, and for nothing else.
pub open spec fn offered(origin: ImageSize, piece_size: Option<(u32, u32)>) -> Option<ImageSize> {
    if origin.width == ORIGIN_SIDE && origin.height == ORIGIN_SIDE && (piece_size.is_none()
        || piece_size == Some((PIECE_SIDE, PIECE_SIDE))) {
        Some(ImageSize { width: PIECE_SIDE, height: PIECE_SIDE })
    } else {
        None
    }
}

/// The piece size for a request, `None` where no job is offered for it.
pub fn piece_size_for(origin: ImageSize, piece_size: Option<(u32, u32)>) -> (piece: Option<
    ImageSize,
>)
    ensures
        piece == offered(origin, piece_size),
{
    if origin.width != ORIGIN_SIDE || origin.height != ORIGIN_SIDE {
        return None;
    }
    match piece_size {
        None => Some(ImageSize { width: PIECE_SIDE, height: PIECE_SIDE }),
        Some((w, h)) => {
            if w == PIECE_SIDE && h == PIECE_SIDE {
                Some(ImageSize { width: PIECE_SIDE, height: PIECE_SIDE })
            } else {
                None
            }
        },
    }
}

/// Starts a job for a request. A request for sizes that are not
/// offered is refused with `UnsupportedSize`; any other goes to
/// `WorkerManager::start_worker` with the offered piece size. A refused
/// request leaves the manager as it was: no job is added.
pub fn handler(
    option: StartWorkerOption,
    worker_manager: &mut WorkerManager,
    init_posts: Vec<InstaPost>,
) -> (res: Result<WorkerId, ConfigError>)
    requires
        old(worker_manager).wf(),
        option.origin.wf(),
        photos_wf(init_posts@),
    ensures
        final(worker_manager).wf(),
        final(worker_manager).blocked() == old(worker_manager).blocked(),
        res.is_ok() <==> offered(option.origin.size(), option.piece_size).is_some()
            && option.hashtags@.len() > 0 && old(worker_manager).next_id() < u64::MAX,
        res matches Err(e) ==> {
            &&& final(worker_manager).entries() == old(worker_manager).entries()
            &&& final(worker_manager).next_id() == old(worker_manager).next_id()
            &&& e == if offered(option.origin.size(), option.piece_size).is_none() {
                ConfigError::UnsupportedSize
            } else if option.hashtags@.len() == 0 {
                ConfigError::NoHashtags
            } else {
                ConfigError::OutOfIds
            }
        },
        res matches Ok(id) ==> {
            &&& id.0 == old(worker_manager).next_id()
            &&& !old(worker_manager).has(id)
            &&& final(worker_manager).next_id() == old(worker_manager).next_id() + 1
            &&& final(worker_manager).entries().drop_last() == old(worker_manager).entries()
            &&& final(worker_manager).entries().last().id() == id
            &&& fresh_job(
                final(worker_manager).entries().last().job(),
                option.origin,
                offered(option.origin.size(), option.piece_size).unwrap(),
                option.hashtags@,
                init_posts@,
            )
        },
{
    let StartWorkerOption { origin, hashtags, piece_size } = option;
    let piece = match piece_size_for(origin.get_size(), piece_size) {
        Some(piece) => piece,
        None => {
            return Err(ConfigError::UnsupportedSize);
        },
    };
    proof {
        lemma_offered_sizes_fit(origin.size(), piece_size);
    }
    worker_manager.start_worker(origin, piece, hashtags, init_posts)
}

/// The sizes that jobs are offered for tile and fit.
pub proof fn lemma_offered_sizes_fit(origin: ImageSize, piece_size: Option<(u32, u32)>)
    requires
        offered(origin, piece_size).is_some(),
    ensures
        start_refusal(origin, offered(origin, piece_size).unwrap(), 1).is_none(),
{
    assert(3000int % 30 == 0);
    assert(origin.area() == 9_000_000) by (nonlinear_arith)
        requires
            origin.width == 3000,
            origin.height == 3000,
    ;
}

} // verus!
