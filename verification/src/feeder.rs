use vstd::prelude::*;
use vstd::string::StringExecFns;
use crate::api::opt_text;
use crate::api::InstaHashtagResponse;
use crate::api::InstaPartialPost;
use crate::api::InstaPostResponse;
use crate::api::API_COOLING_SEC;
use crate::art::MosaicArt;
use crate::picture::Picture;
use crate::post::InstaPost;

verus! {

/// Hands out the configured hashtags one at a time, in the order given,
/// starting over after the last one.
pub struct HashtagCycle {
    hashtags: Vec<String>,
    next_idx: usize,
}

/// The hashtags of a list as plain character sequences.
pub open spec fn tag_views(hashtags: Seq<String>) -> Seq<Seq<char>> {
    Seq::new(hashtags.len(), |i: int| hashtags[i]@)
}

impl HashtagCycle {
    /// The configured hashtags, in rotation order.
    pub closed spec fn tags(&self) -> Seq<Seq<char>> {
        tag_views(self.hashtags@)
    }

    /// Index of the hashtag that the following call of `next` hands out.
    pub closed spec fn cursor(&self) -> nat {
        self.next_idx as nat
    }

    /// The cursor points at a configured hashtag, or rests at zero when
    /// there is none.
    pub closed spec fn wf(&self) -> bool {
        if self.hashtags@.len() == 0 {
            self.next_idx == 0
        } else {
            self.next_idx < self.hashtags@.len()
        }
    }

    /// A rotation that starts with the first hashtag.
    pub fn new(hashtags: Vec<String>) -> (cycle: HashtagCycle)
        ensures
            cycle.wf(),
            cycle.cursor() == 0,
            cycle.tags() == tag_views(hashtags@),
    {
        HashtagCycle { hashtags, next_idx: 0 }
    }

    /// The current hashtag; the cursor moves on by one and wraps at the end.
    pub fn next(&mut self) -> (hashtag: &str)
        requires
            old(self).wf(),
            old(self).tags().len() > 0,
        ensures
            final(self).wf(),
            final(self).tags() == old(self).tags(),
            hashtag@ == old(self).tags()[old(self).cursor() as int],
            final(self).cursor() == turn(old(self).cursor(), old(self).tags().len()),
    {
        let idx = self.next_idx;
        let len = self.hashtags.len();
        if idx + 1 < len {
            self.next_idx = idx + 1;
        } else {
            self.next_idx = 0;
        }
        self.hashtags[idx].as_str()
    }
}

/// Where the cursor of a rotation over `len` hashtags stands after one
/// more hashtag has been handed out.
pub open spec fn turn(cursor: nat, len: nat) -> nat {
    if cursor + 1 < len {
        cursor + 1
    } else {
        0
    }
}

/// Where the cursor stands after `k` hashtags have been handed out.
pub open spec fn turns(cursor: nat, len: nat, k: nat) -> nat
    decreases k,
{
    if k == 0 {
        cursor
    } else {
        turn(turns(cursor, len, (k - 1) as nat), len)
    }
}

/// The rotation is round-robin: after `k` hashtags the cursor has moved
/// on by `k` places, wrapping at the end.
pub proof fn lemma_turns(cursor: nat, len: nat, k: nat)
    requires
        cursor < len,
    ensures
        turns(cursor, len, k) == (cursor as int + k as int) % (len as int),
    decreases k,
{
    let c = cursor as int;
    let n = len as int;
    let ki = k as int;
    if k == 0 {
        vstd::arithmetic::div_mod::lemma_small_mod(cursor, len);
    } else {
        lemma_turns(cursor, len, (k - 1) as nat);
        let before = (c + ki - 1) % n;
        vstd::arithmetic::div_mod::lemma_fundamental_div_mod(c + ki - 1, n);
        let q = (c + ki - 1) / n;
        assert(c + ki - 1 == n * q + before);
        assert(n * q == q * n) by (nonlinear_arith);
        vstd::arithmetic::div_mod::lemma_mod_pos_bound(c + ki - 1, n);
        if before + 1 < n {
            vstd::arithmetic::div_mod::lemma_fundamental_div_mod_converse(c + ki, n, q, before + 1);
        } else {
            assert(c + ki == (q + 1) * n + 0) by (nonlinear_arith)
                requires
                    c + ki - 1 == n * q + before,
                    before + 1 == n,
            ;
            vstd::arithmetic::div_mod::lemma_fundamental_div_mod_converse(c + ki, n, q + 1, 0);
        }
    }
}

/// No hashtag is skipped: within any `len` hashtags handed out in a row,
/// each configured hashtag comes exactly once.
pub proof fn lemma_full_cycle(cursor: nat, len: nat, target: nat)
    requires
        cursor < len,
        target < len,
    ensures
        exists|k: nat| k < len && turns(cursor, len, k) == target,
        forall|j: nat, k: nat|
            j < len && k < len && turns(cursor, len, j) == target && turns(cursor, len, k) == target
                ==> j == k,
{
    let c = cursor as int;
    let n = len as int;
    let t = target as int;
    let k: nat = if target >= cursor {
        (target - cursor) as nat
    } else {
        (target + len - cursor) as nat
    };
    lemma_turns(cursor, len, k);
    if target >= cursor {
        vstd::arithmetic::div_mod::lemma_small_mod(target, len);
    } else {
        assert(c + k as int == 1 * n + t) by (nonlinear_arith)
            requires
                k as int == t + n - c,
        ;
        vstd::arithmetic::div_mod::lemma_fundamental_div_mod_converse(c + k as int, n, 1, t);
    }
    assert(k < len && turns(cursor, len, k) == target);
    assert forall|i: nat, j: nat|
        i < len && j < len && turns(cursor, len, i) == target && turns(cursor, len, j)
            == target implies i == j by {
        lemma_turns(cursor, len, i);
        lemma_turns(cursor, len, j);
        let a = c + i as int;
        let b = c + j as int;
        vstd::arithmetic::div_mod::lemma_fundamental_div_mod(a, n);
        vstd::arithmetic::div_mod::lemma_fundamental_div_mod(b, n);
        let qa = a / n;
        let qb = b / n;
        assert(a == n * qa + t && b == n * qb + t);
        assert(qa == qb) by (nonlinear_arith)
            requires
                a == n * qa + t,
                b == n * qb + t,
                a - b < n,
                b - a < n,
                n > 0,
        ;
    }
}

// ---------------------------------------------------------------------
// The pipeline as a state machine
// ---------------------------------------------------------------------

/// What the pipeline is waiting for.
#[derive(Clone, Copy, Debug, PartialEq, Eq, Structural)]
pub enum Stage {
    /// Not started yet.
    Idle,
    /// A page of the current hashtag has been asked for: its first page
    /// where the hashtag has just come up in the rotation, a later page
    /// while its pages are walked.
    Listing,
    /// The detail of the first queued post has been asked for.
    Detailing,
    /// The photo of that post has been asked for.
    Fetching,
    /// The candidate has been handed over to be stored and placed.
    Sinking,
    /// Stopped on request.
    Stopped,
    /// Ended by a failure of the transport.
    Failed,
}

/// A listed post, as plain text.
pub struct PostRef {
    pub id: Seq<char>,
    pub image_url: Seq<char>,
}

/// The detail of a post, as plain text.
pub struct PostDetail {
    pub id: Seq<char>,
    pub user_name: Seq<char>,
    pub image_url: Seq<char>,
}

/// A call to the outside, as plain text.
pub enum RequestView {
    ListPosts { hashtag: Seq<char>, cursor: Option<Seq<char>> },
    PostDetail { post_id: Seq<char> },
    Photo { url: Seq<char> },
}

/// What came back from the outside, as plain values.
pub enum EventView {
    Start,
    Page { posts: Seq<PostRef>, end_cursor: Option<Seq<char>>, has_next_page: bool },
    Detail(PostDetail),
    Photo(Option<Picture>),
    Unreadable,
    Sunk,
    TransportFailure,
    Stop,
}

/// What is to be done next, as plain values.
pub enum ActionView {
    Call { wait_secs: u64, request: RequestView },
    Sink { post_id: Seq<char>, user_name: Seq<char>, image: Picture },
    Halt,
    Nothing,
}

/// The state of the pipeline, as plain values.
pub struct FeedState {
    pub stage: Stage,
    /// The configured hashtags, in rotation order.
    pub tags: Seq<Seq<char>>,
    /// Index of the hashtag that is polled next.
    pub tag_cursor: nat,
    /// The hashtag whose pages are being walked.
    pub hashtag: Seq<char>,
    /// Where the next page of that hashtag starts.
    pub page_cursor: Option<Seq<char>>,
    /// Whether that hashtag has a further page.
    pub has_more: bool,
    /// The posts of the current page not dealt with yet; the first one is
    /// the one in work.
    pub queue: Seq<PostRef>,
    /// The detail of the post in work, once it has come.
    pub detail: Option<PostDetail>,
    /// Seconds to wait before each call.
    pub interval: u64,
}

impl FeedState {
    /// The rotation has a hashtag to hand out, and the post in work is
    /// there whenever the stage speaks of one.
    pub open spec fn wf(self) -> bool {
        &&& self.tag_cursor < self.tags.len()
        &&& (self.stage is Detailing ==> self.queue.len() > 0)
        &&& (self.stage is Fetching || self.stage is Sinking ==> self.queue.len() > 0
            && self.detail.is_some())
    }

    /// The call whose answer the pipeline is waiting for.
    pub open spec fn in_flight(self) -> Option<RequestView> {
        match self.stage {
            Stage::Listing => Some(
                RequestView::ListPosts { hashtag: self.hashtag, cursor: self.page_cursor },
            ),
            Stage::Detailing => Some(RequestView::PostDetail { post_id: self.queue[0].id }),
            Stage::Fetching => Some(RequestView::Photo { url: self.detail.unwrap().image_url }),
            _ => None,
        }
    }
}

/// The queue without the posts at its head that are placed already.
pub open spec fn skip_known(queue: Seq<PostRef>, known: Set<Seq<char>>) -> Seq<PostRef>
    decreases queue.len(),
{
    if queue.len() == 0 || !known.contains(queue[0].id) {
        queue
    } else {
        skip_known(queue.drop_first(), known)
    }
}

/// Moves on to the next piece of work, given what is left of the page.
/// Posts that are placed already are passed over without any call. The
/// first other post has its detail asked for. With none left, the next
/// page of the hashtag is asked for, and after its last page the first
/// page of the next hashtag of the rotation.
pub open spec fn advance(s: FeedState, queue: Seq<PostRef>, known: Set<Seq<char>>) -> (
    FeedState,
    ActionView,
) {
    let rest = skip_known(queue, known);
    if rest.len() > 0 {
        (
            FeedState { stage: Stage::Detailing, queue: rest, detail: None, ..s },
            ActionView::Call {
                wait_secs: s.interval,
                request: RequestView::PostDetail { post_id: rest[0].id },
            },
        )
    } else if s.has_more {
        (
            FeedState { stage: Stage::Listing, queue: rest, detail: None, ..s },
            ActionView::Call {
                wait_secs: s.interval,
                request: RequestView::ListPosts { hashtag: s.hashtag, cursor: s.page_cursor },
            },
        )
    } else {
        let tag = s.tags[s.tag_cursor as int];
        (
            FeedState {
                stage: Stage::Listing,
                tag_cursor: turn(s.tag_cursor, s.tags.len()),
                hashtag: tag,
                page_cursor: None,
                has_more: false,
                queue: rest,
                detail: None,
                ..s
            },
            ActionView::Call {
                wait_secs: s.interval,
                request: RequestView::ListPosts { hashtag: tag, cursor: None },
            },
        )
    }
}

/// One step of the pipeline: from the state and what came back, given
/// the identifiers of the placed posts and the blocked authors, to the
/// next state and what to do.
///
/// A stop request or a transport failure ends the pipeline. An answer
/// that cannot be read repeats the call in flight after the cooling time
/// and changes nothing else. A page fills the queue; a detail of a blocked
/// author and a photo that could not be had drop the post in work. What
/// does not belong to the call in flight is ignored.
pub open spec fn step(
    s: FeedState,
    ev: EventView,
    known: Set<Seq<char>>,
    blocked: Set<Seq<char>>,
) -> (FeedState, ActionView) {
    if s.stage is Stopped || s.stage is Failed {
        (s, ActionView::Halt)
    } else {
        match ev {
            EventView::Stop => (FeedState { stage: Stage::Stopped, ..s }, ActionView::Halt),
            EventView::TransportFailure => (
                FeedState { stage: Stage::Failed, ..s },
                ActionView::Halt,
            ),
            EventView::Unreadable => {
                if s.stage is Listing || s.stage is Detailing {
                    (
                        s,
                        ActionView::Call {
                            wait_secs: API_COOLING_SEC,
                            request: s.in_flight().unwrap(),
                        },
                    )
                } else {
                    (s, ActionView::Nothing)
                }
            },
            EventView::Start => {
                if s.stage is Idle {
                    advance(s, s.queue, known)
                } else {
                    (s, ActionView::Nothing)
                }
            },
            EventView::Page { posts, end_cursor, has_next_page } => {
                if s.stage is Listing {
                    advance(
                        FeedState { page_cursor: end_cursor, has_more: has_next_page, ..s },
                        posts,
                        known,
                    )
                } else {
                    (s, ActionView::Nothing)
                }
            },
            EventView::Detail(d) => {
                if s.stage is Detailing {
                    if blocked.contains(d.user_name) {
                        advance(s, s.queue.drop_first(), known)
                    } else {
                        (
                            FeedState { stage: Stage::Fetching, detail: Some(d), ..s },
                            ActionView::Call {
                                wait_secs: s.interval,
                                request: RequestView::Photo { url: d.image_url },
                            },
                        )
                    }
                } else {
                    (s, ActionView::Nothing)
                }
            },
            EventView::Photo(photo) => {
                if s.stage is Fetching {
                    match photo {
                        Some(image) => (
                            FeedState { stage: Stage::Sinking, ..s },
                            ActionView::Sink {
                                post_id: s.detail.unwrap().id,
                                user_name: s.detail.unwrap().user_name,
                                image,
                            },
                        ),
                        None => advance(s, s.queue.drop_first(), known),
                    }
                } else {
                    (s, ActionView::Nothing)
                }
            },
            EventView::Sunk => {
                if s.stage is Sinking {
                    advance(s, s.queue.drop_first(), known)
                } else {
                    (s, ActionView::Nothing)
                }
            },
        }
    }
}

/// What `skip_known` leaves is the end of the queue; every post before
/// it is placed already, and its first post is not.
pub proof fn lemma_skip_known(queue: Seq<PostRef>, known: Set<Seq<char>>)
    ensures
        skip_known(queue, known).len() <= queue.len(),
        skip_known(queue, known) == queue.skip(queue.len() - skip_known(queue, known).len()),
        forall|i: int|
            0 <= i < queue.len() - skip_known(queue, known).len() ==> known.contains(
                (#[trigger] queue[i]).id,
            ),
        skip_known(queue, known).len() > 0 ==> !known.contains(skip_known(queue, known)[0].id),
    decreases queue.len(),
{
    if queue.len() == 0 || !known.contains(queue[0].id) {
        assert(queue.skip(0) =~= queue);
    } else {
        let rest = queue.drop_first();
        lemma_skip_known(rest, known);
        let left = skip_known(rest, known);
        assert(rest.skip(rest.len() - left.len()) =~= queue.skip(queue.len() - left.len()));
        assert forall|i: int| 0 <= i < queue.len() - left.len() implies known.contains(
            (#[trigger] queue[i]).id,
        ) by {
            if i > 0 {
                assert(queue[i] == rest[i - 1]);
            }
        }
    }
}

/// A step keeps the state well-formed.
pub proof fn lemma_step_keeps_wf(
    s: FeedState,
    ev: EventView,
    known: Set<Seq<char>>,
    blocked: Set<Seq<char>>,
)
    requires
        s.wf(),
    ensures
        step(s, ev, known, blocked).0.wf(),
        step(s, ev, known, blocked).0.tags == s.tags,
        step(s, ev, known, blocked).0.interval == s.interval,
{
}

/// The dedup filter comes before any fetch. A step that asks for the
/// detail of a post, other than a repeated call, asks for a post that is
/// not placed; and a page whose posts are all placed leads to no detail
/// and no photo being asked for, only to the next listing.
pub proof fn lemma_dedup_before_fetch(
    s: FeedState,
    ev: EventView,
    known: Set<Seq<char>>,
    blocked: Set<Seq<char>>,
)
    requires
        s.wf(),
    ensures
        !(ev is Unreadable) ==> (step(s, ev, known, blocked).1 matches ActionView::Call {
            request: RequestView::PostDetail { post_id },
            ..
        } ==> !known.contains(post_id)),
        s.stage is Listing ==> (ev matches EventView::Page { posts, .. } ==> (forall|i: int|
            0 <= i < posts.len() ==> known.contains((#[trigger] posts[i]).id)) ==> (step(
            s,
            ev,
            known,
            blocked,
        ).1 matches ActionView::Call { request: RequestView::ListPosts { .. }, .. })),
{
    match ev {
        EventView::Start => {
            lemma_skip_known(s.queue, known);
        },
        EventView::Page { posts, end_cursor, has_next_page } => {
            lemma_skip_known(posts, known);
            if forall|i: int| 0 <= i < posts.len() ==> known.contains((#[trigger] posts[i]).id) {
                let rest = skip_known(posts, known);
                if rest.len() > 0 {
                    assert(rest[0] == posts[posts.len() - rest.len()]);
                }
            }
        },
        _ => {
            lemma_skip_known(s.queue.drop_first(), known);
        },
    }
}

/// A page that ends a hashtag and leaves no post to work on, because
/// they are all placed already or there were none, leads on to the next
/// hashtag of the rotation: the one under the cursor, which then turns.
pub proof fn lemma_rotation_moves_on(
    s: FeedState,
    posts: Seq<PostRef>,
    end_cursor: Option<Seq<char>>,
    known: Set<Seq<char>>,
    blocked: Set<Seq<char>>,
)
    requires
        s.wf(),
        s.stage is Listing,
        forall|i: int| 0 <= i < posts.len() ==> known.contains((#[trigger] posts[i]).id),
    ensures
        ({
            let ev = EventView::Page { posts, end_cursor, has_next_page: false };
            let (next, action) = step(s, ev, known, blocked);
            &&& action == ActionView::Call {
                wait_secs: s.interval,
                request: RequestView::ListPosts {
                    hashtag: s.tags[s.tag_cursor as int],
                    cursor: None,
                },
            }
            &&& next.tag_cursor == turn(s.tag_cursor, s.tags.len())
            &&& next.hashtag == s.tags[s.tag_cursor as int]
            &&& next.stage is Listing
        }),
{
    lemma_skip_known(posts, known);
    let rest = skip_known(posts, known);
    if rest.len() > 0 {
        assert(rest[0] == posts[posts.len() - rest.len()]);
    }
}

/// Cooling repeats the identical call. While a listing or a detail is
/// in flight, an answer that cannot be read leaves the state as it is and
/// asks for the call in flight again, after the cooling time.
pub proof fn lemma_cooling_repeats(s: FeedState, known: Set<Seq<char>>, blocked: Set<Seq<char>>)
    requires
        s.stage is Listing || s.stage is Detailing,
    ensures
        step(s, EventView::Unreadable, known, blocked) == (
            s,
            ActionView::Call { wait_secs: API_COOLING_SEC, request: s.in_flight().unwrap() },
        ),
{
}

/// The call that a step asks for is the call in flight afterwards.
pub proof fn lemma_call_is_in_flight(
    s: FeedState,
    ev: EventView,
    known: Set<Seq<char>>,
    blocked: Set<Seq<char>>,
)
    requires
        s.wf(),
    ensures
        step(s, ev, known, blocked).1 matches ActionView::Call { request, .. } ==> step(
            s,
            ev,
            known,
            blocked,
        ).0.in_flight() == Some(request),
{
}

// ---------------------------------------------------------------------
// The pipeline in executable form
// ---------------------------------------------------------------------

/// A call to the outside that the pipeline asks for.
#[derive(Debug)]
pub enum Request {
    /// List the posts of a hashtag, from `cursor` on.
    ListPosts { hashtag: String, cursor: Option<String> },
    /// Resolve the detail of a post.
    PostDetail { post_id: String },
    /// Download a photo and fit it to the piece size.
    Photo { url: String },
}

/// What came back from the outside.
#[derive(Debug)]
pub enum Event {
    /// The pipeline is to begin.
    Start,
    /// A page of a listing.
    Page(InstaHashtagResponse),
    /// The detail of a post.
    Detail(InstaPostResponse),
    /// The photo, fitted to piece size; `None` where it could not be had.
    Photo(Option<Picture>),
    /// An answer that does not read as what was asked for.
    Unreadable,
    /// The candidate handed over has been stored and placed.
    Sunk,
    /// The transport has failed.
    TransportFailure,
    /// The worker is to stop.
    Stop,
}

/// What the pipeline wants done next.
#[derive(Debug)]
pub enum Action {
    /// Wait `wait_secs`, make the call, and come back with its answer.
    Call { wait_secs: u64, request: Request },
    /// Store and place this candidate, and come back with `Sunk`.
    Sink(InstaPost),
    /// The pipeline is over.
    Halt,
    /// The event was not expected and changed nothing.
    Nothing,
}

/// The address that a call goes to: the listing of the hashtag from the
/// cursor on, the detail of the post, or the photo's own address.
pub open spec fn request_url_text(r: RequestView) -> Seq<char> {
    match r {
        RequestView::ListPosts { hashtag, cursor } => crate::api::hashtag_url_text(hashtag, cursor),
        RequestView::PostDetail { post_id } => crate::api::post_url_text(post_id),
        RequestView::Photo { url } => url,
    }
}

impl Request {
    /// The address that this call goes to.
    pub fn url(&self) -> (url: String)
        ensures
            url@ == request_url_text(request_view(*self)),
    {
        match self {
            Request::ListPosts { hashtag, cursor } => crate::api::hashtag_url(
                hashtag.as_str(),
                cursor,
            ),
            Request::PostDetail { post_id } => crate::api::post_url(post_id.as_str()),
            Request::Photo { url } => url.clone(),
        }
    }
}

/// A listed post as plain text.
pub open spec fn ref_view(post: InstaPartialPost) -> PostRef {
    PostRef { id: post.id@, image_url: post.image_url@ }
}

/// The posts of a page as plain text, in their order.
pub open spec fn refs_view(posts: Seq<InstaPartialPost>) -> Seq<PostRef> {
    Seq::new(posts.len(), |i: int| ref_view(posts[i]))
}

/// The detail of a post as plain text.
pub open spec fn detail_view(d: InstaPostResponse) -> PostDetail {
    PostDetail { id: d.id@, user_name: d.user_name@, image_url: d.image_url@ }
}

/// A call as plain text.
pub open spec fn request_view(r: Request) -> RequestView {
    match r {
        Request::ListPosts { hashtag, cursor } => RequestView::ListPosts {
            hashtag: hashtag@,
            cursor: opt_text(cursor),
        },
        Request::PostDetail { post_id } => RequestView::PostDetail { post_id: post_id@ },
        Request::Photo { url } => RequestView::Photo { url: url@ },
    }
}

/// An event as plain values.
pub open spec fn event_view(e: Event) -> EventView {
    match e {
        Event::Start => EventView::Start,
        Event::Page(page) => EventView::Page {
            posts: refs_view(page.posts@),
            end_cursor: opt_text(page.end_cursor),
            has_next_page: page.has_next_page,
        },
        Event::Detail(d) => EventView::Detail(detail_view(d)),
        Event::Photo(photo) => EventView::Photo(photo),
        Event::Unreadable => EventView::Unreadable,
        Event::Sunk => EventView::Sunk,
        Event::TransportFailure => EventView::TransportFailure,
        Event::Stop => EventView::Stop,
    }
}

/// An action as plain values.
pub open spec fn action_view(a: Action) -> ActionView {
    match a {
        Action::Call { wait_secs, request } => ActionView::Call {
            wait_secs,
            request: request_view(request),
        },
        Action::Sink(post) => ActionView::Sink {
            post_id: post.id(),
            user_name: post.user(),
            image: post.image(),
        },
        Action::Halt => ActionView::Halt,
        Action::Nothing => ActionView::Nothing,
    }
}

/// The identifiers of the posts that a mosaic holds.
pub open spec fn known_ids(art: MosaicArt) -> Set<Seq<char>> {
    Set::new(|id: Seq<char>| art.holds(id))
}

/// The handles on a block list.
pub open spec fn blocked_names(block_users: Seq<String>) -> Set<Seq<char>> {
    Set::new(|name: Seq<char>| exists|i: int| 0 <= i < block_users.len() && block_users[i]@ == name)
}

/// Whether a handle is on the block list.
pub fn is_blocked(block_users: &Vec<String>, user_name: &String) -> (found: bool)
    ensures
        found == blocked_names(block_users@).contains(user_name@),
{
    let mut i: usize = 0;
    while i < block_users.len()
        invariant
            i <= block_users@.len(),
            forall|k: int| 0 <= k < i ==> block_users@[k]@ != user_name@,
        decreases block_users@.len() - i,
    {
        if block_users[i] == *user_name {
            return true;
        }
        i += 1;
    }
    false
}

/// The feed ingestion pipeline of one worker: which hashtag is polled,
/// which page is walked, which post is in work.
pub struct InstaFeeder {
    cycle: HashtagCycle,
    stage: Stage,
    hashtag: String,
    cursor: Option<String>,
    has_more: bool,
    posts: Vec<InstaPartialPost>,
    next: usize,
    detail: Option<InstaPostResponse>,
    req_interval: u64,
}

impl InstaFeeder {
    /// The state as plain values.
    pub closed spec fn state(&self) -> FeedState {
        FeedState {
            stage: self.stage,
            tags: self.cycle.tags(),
            tag_cursor: self.cycle.cursor(),
            hashtag: self.hashtag@,
            page_cursor: opt_text(self.cursor),
            has_more: self.has_more,
            queue: refs_view(self.posts@).skip(self.next as int),
            detail: match self.detail {
                Some(d) => Some(detail_view(d)),
                None => None,
            },
            interval: self.req_interval,
        }
    }

    /// The rotation is in order, the queue starts inside the page, and
    /// the state is well-formed.
    pub closed spec fn wf(&self) -> bool {
        &&& self.cycle.wf()
        &&& self.next <= self.posts@.len()
        &&& self.state().wf()
    }

    /// A well-formed pipeline has a well-formed state.
    pub proof fn lemma_wf(&self)
        requires
            self.wf(),
        ensures
            self.state().wf(),
    {
    }

    /// A pipeline over the given hashtags that has not started yet.
    /// There has to be a hashtag to poll.
    pub fn new(hashtags: Vec<String>, req_interval: u64) -> (feeder: InstaFeeder)
        requires
            hashtags@.len() > 0,
        ensures
            feeder.wf(),
            feeder.state() == (FeedState {
                stage: Stage::Idle,
                tags: tag_views(hashtags@),
                tag_cursor: 0,
                hashtag: Seq::empty(),
                page_cursor: None,
                has_more: false,
                queue: Seq::empty(),
                detail: None,
                interval: req_interval,
            }),
    {
        let feeder = InstaFeeder {
            cycle: HashtagCycle::new(hashtags),
            stage: Stage::Idle,
            hashtag: String::new(),
            cursor: None,
            has_more: false,
            posts: Vec::new(),
            next: 0,
            detail: None,
            req_interval,
        };
        assert(feeder.state().queue =~= Seq::empty());
        feeder
    }

    /// What the pipeline is waiting for.
    pub fn stage(&self) -> (stage: Stage)
        ensures
            stage == self.state().stage,
    {
        self.stage
    }

    /// Moves on to the next piece of work from the part of the page that
    /// starts at `self.next`.
    fn advance(&mut self, art: &MosaicArt) -> (action: Action)
        requires
            old(self).cycle.wf(),
            old(self).cycle.tags().len() > 0,
            old(self).next <= old(self).posts@.len(),
        ensures
            final(self).wf(),
            (final(self).state(), action_view(action)) == advance(
                old(self).state(),
                old(self).state().queue,
                known_ids(*art),
            ),
    {
        let ghost known = known_ids(*art);
        let ghost start = self.state();
        let mut scanning = true;
        while scanning
            invariant
                self.cycle == old(self).cycle,
                self.stage == old(self).stage,
                self.hashtag == old(self).hashtag,
                self.cursor == old(self).cursor,
                self.has_more == old(self).has_more,
                self.posts == old(self).posts,
                self.detail == old(self).detail,
                self.req_interval == old(self).req_interval,
                self.next <= self.posts@.len(),
                known == known_ids(*art),
                skip_known(start.queue, known) == skip_known(self.state().queue, known),
                !scanning ==> self.state().queue.len() == 0 || !known.contains(
                    self.state().queue[0].id,
                ),
            decreases self.posts@.len() - self.next + if scanning { 1int } else { 0int },
        {
            if self.next < self.posts.len() {
                let found = art.has_post(&self.posts[self.next].id);
                assert(self.state().queue[0] == ref_view(self.posts@[self.next as int]));
                if found {
                    let ghost before = self.state().queue;
                    self.next += 1;
                    assert(self.state().queue =~= before.drop_first());
                } else {
                    scanning = false;
                }
            } else {
                scanning = false;
            }
        }
        let ghost rest = self.state().queue;
        assert(skip_known(start.queue, known) == rest);
        self.detail = None;
        if self.next < self.posts.len() {
            self.stage = Stage::Detailing;
            let post_id = self.posts[self.next].id.clone();
            assert(self.state().queue =~= rest);
            assert(rest[0] == ref_view(self.posts@[self.next as int]));
            Action::Call { wait_secs: self.req_interval, request: Request::PostDetail { post_id } }
        } else if self.has_more {
            self.stage = Stage::Listing;
            assert(self.state().queue =~= rest);
            Action::Call {
                wait_secs: self.req_interval,
                request: Request::ListPosts {
                    hashtag: self.hashtag.clone(),
                    cursor: self.cursor.clone(),
                },
            }
        } else {
            let tag = String::from_str(self.cycle.next());
            self.stage = Stage::Listing;
            self.hashtag = tag.clone();
            self.cursor = None;
            self.has_more = false;
            assert(self.state().queue =~= rest);
            Action::Call {
                wait_secs: self.req_interval,
                request: Request::ListPosts { hashtag: tag, cursor: None },
            }
        }
    }

    /// Runs the pipeline one step: takes what came back from the outside
    /// and says what to do next. `art` is the mosaic that the candidates
    /// go to, `block_users` the authors whose posts are passed over.
    pub fn run(&mut self, event: Event, art: &MosaicArt, block_users: &Vec<String>) -> (action:
        Action)
        requires
            old(self).wf(),
        ensures
            final(self).wf(),
            (final(self).state(), action_view(action)) == step(
                old(self).state(),
                event_view(event),
                known_ids(*art),
                blocked_names(block_users@),
            ),
    {
        let ghost known = known_ids(*art);
        let ghost s = self.state();
        assert(s.queue.len() == self.posts@.len() - self.next);
        let total = self.posts.len();
        match self.stage {
            Stage::Stopped => {
                return Action::Halt;
            },
            Stage::Failed => {
                return Action::Halt;
            },
            _ => {},
        }
        match event {
            Event::Stop => {
                self.stage = Stage::Stopped;
                Action::Halt
            },
            Event::TransportFailure => {
                self.stage = Stage::Failed;
                Action::Halt
            },
            Event::Unreadable => {
                match self.stage {
                    Stage::Listing => Action::Call {
                        wait_secs: API_COOLING_SEC,
                        request: Request::ListPosts {
                            hashtag: self.hashtag.clone(),
                            cursor: self.cursor.clone(),
                        },
                    },
                    Stage::Detailing => {
                        assert(s.queue[0] == ref_view(self.posts@[self.next as int]));
                        Action::Call {
                            wait_secs: API_COOLING_SEC,
                            request: Request::PostDetail {
                                post_id: self.posts[self.next].id.clone(),
                            },
                        }
                    },
                    _ => Action::Nothing,
                }
            },
            Event::Start => {
                match self.stage {
                    Stage::Idle => self.advance(art),
                    _ => Action::Nothing,
                }
            },
            Event::Page(page) => {
                match self.stage {
                    Stage::Listing => {
                        let InstaHashtagResponse { posts, hashtag: _, end_cursor, has_next_page } =
                            page;
                        self.posts = posts;
                        self.next = 0;
                        self.cursor = end_cursor;
                        self.has_more = has_next_page;
                        assert(self.state().queue =~= refs_view(posts@));
                        self.advance(art)
                    },
                    _ => Action::Nothing,
                }
            },
            Event::Detail(d) => {
                match self.stage {
                    Stage::Detailing => {
                        if is_blocked(block_users, &d.user_name) {
                            assert(self.next < total);
                        self.next += 1;
                            assert(self.state().queue =~= s.queue.drop_first());
                            self.advance(art)
                        } else {
                            let url = d.image_url.clone();
                            self.stage = Stage::Fetching;
                            self.detail = Some(d);
                            Action::Call {
                                wait_secs: self.req_interval,
                                request: Request::Photo { url },
                            }
                        }
                    },
                    _ => Action::Nothing,
                }
            },
            Event::Photo(photo) => {
                match self.stage {
                    Stage::Fetching => {
                        match photo {
                            Some(image) => {
                                let post = match &self.detail {
                                    Some(d) => InstaPost::new(
                                        d.id.clone(),
                                        d.user_name.clone(),
                                        image,
                                    ),
                                    None => InstaPost::new(String::new(), String::new(), image),
                                };
                                self.stage = Stage::Sinking;
                                Action::Sink(post)
                            },
                            None => {
                                assert(self.next < total);
                        self.next += 1;
                                assert(self.state().queue =~= s.queue.drop_first());
                                self.advance(art)
                            },
                        }
                    },
                    _ => Action::Nothing,
                }
            },
            Event::Sunk => {
                match self.stage {
                    Stage::Sinking => {
                        assert(self.next < total);
                        self.next += 1;
                        assert(self.state().queue =~= s.queue.drop_first());
                        self.advance(art)
                    },
                    _ => Action::Nothing,
                }
            },
        }
    }
}

} // verus!
