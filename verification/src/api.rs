use vstd::prelude::*;
use vstd::string::StringExecFns;

verus! {

/// Seconds to wait before every call to the feed.
pub const API_INTERVAL_SEC: u64 = 3;

/// Seconds to wait before repeating a call whose answer could not be read.
pub const API_COOLING_SEC: u64 = 30;

// ---------------------------------------------------------------------
// Percent-encoding of a hashtag
// ---------------------------------------------------------------------

/// Bytes that are written as `%XX` in the path of a feed address: controls,
/// everything above `~`, and space `"` `#` `<` `>` `` ` `` `?` `{` `}`.
pub open spec fn is_escaped(b: u8) -> bool {
    b < 0x20 || b > 0x7E || b == 0x20 || b == 0x22 || b == 0x23 || b == 0x3C || b == 0x3E
        || b == 0x60 || b == 0x3F || b == 0x7B || b == 0x7D
}

/// The upper-case hexadecimal digit of a value below 16.
pub open spec fn hex_upper(n: int) -> char {
    if n < 10 {
        (0x30 + n) as u8 as char
    } else {
        (0x41 + n - 10) as u8 as char
    }
}

/// What one byte becomes: itself, or `%` and its two hexadecimal digits.
pub open spec fn escape(b: u8) -> Seq<char> {
    if is_escaped(b) {
        seq!['%', hex_upper(b as int / 16), hex_upper(b as int % 16)]
    } else {
        seq![b as char]
    }
}

/// The percent-encoding of a byte string: the encodings of its bytes, in order.
pub open spec fn percent_encoded(bytes: Seq<u8>) -> Seq<char>
    decreases bytes.len(),
{
    if bytes.len() == 0 {
        Seq::empty()
    } else {
        percent_encoded(bytes.drop_last()) + escape(bytes.last())
    }
}

/// `percent_encoding::percent_encode` with `DEFAULT_ENCODE_SET`, written out
/// as a string. The crate replaces each byte of the set by `%` and two
/// upper-case hexadecimal digits and copies every other byte.
#[verifier::external_body]
fn percent_encode_default(bytes: &[u8]) -> (text: String)
    ensures
        text@ == percent_encoded(bytes@),
{
    percent_encoding::percent_encode(bytes, percent_encoding::DEFAULT_ENCODE_SET).to_string()
}

// ---------------------------------------------------------------------
// Addresses
// ---------------------------------------------------------------------

/// Address of the listing of a hashtag, continued after `max_id` if given.
/// The hashtag stands in it percent-encoded, byte by byte of its UTF-8 form.
pub open spec fn hashtag_url_text(hashtag: Seq<char>, max_id: Option<Seq<char>>) -> Seq<char> {
    let first = "https://www.instagram.com/explore/tags/"@ + percent_encoded(
        vstd::utf8::encode_utf8(hashtag),
    ) + "/?__a=1"@;
    match max_id {
        Some(id) => first + "&max_id="@ + id,
        None => first,
    }
}

/// Address of the detail of one post.
pub open spec fn post_url_text(post_id: Seq<char>) -> Seq<char> {
    "https://www.instagram.com/p/"@ + post_id + "/?__a=1"@
}

/// The view of an optional string.
pub open spec fn opt_text(s: Option<String>) -> Option<Seq<char>> {
    match s {
        Some(t) => Some(t@),
        None => None,
    }
}

/// The address of the listing of a hashtag, from the cursor `max_id` on.
pub fn hashtag_url(hashtag: &str, max_id: &Option<String>) -> (url: String)
    ensures
        url@ == hashtag_url_text(hashtag@, opt_text(*max_id)),
{
    let encoded = percent_encode_default(hashtag.as_bytes());
    let mut url = String::from_str("https://www.instagram.com/explore/tags/");
    url.append(encoded.as_str());
    url.append("/?__a=1");
    match max_id {
        Some(id) => {
            url.append("&max_id=");
            url.append(id.as_str());
        },
        None => {},
    }
    url
}

/// The address of the detail of a post.
pub fn post_url(post_id: &str) -> (url: String)
    ensures
        url@ == post_url_text(post_id@),
{
    let mut url = String::from_str("https://www.instagram.com/p/");
    url.append(post_id);
    url.append("/?__a=1");
    url
}

// ---------------------------------------------------------------------
// Answers of the feed
// ---------------------------------------------------------------------

/// A post as a hashtag listing names it: identifier and photo address.
#[derive(Debug, Clone)]
pub struct InstaPartialPost {
    pub id: String,
    pub image_url: String,
}

/// One page of a hashtag listing.
#[derive(Debug, Clone)]
pub struct InstaHashtagResponse {
    pub posts: Vec<InstaPartialPost>,
    pub hashtag: String,
    pub end_cursor: Option<String>,
    pub has_next_page: bool,
}

/// The detail of one post.
#[derive(Debug, Clone)]
pub struct InstaPostResponse {
    pub id: String,
    pub user_name: String,
    pub image_url: String,
}

/// A hashtag listing as the feed nests it.
pub struct HashtagDocument {
    pub graphql: HashtagGraph,
}

pub struct HashtagGraph {
    pub hashtag: HashtagNode,
}

pub struct HashtagNode {
    pub name: String,
    pub edge_hashtag_to_media: MediaEdges,
}

pub struct MediaEdges {
    pub edges: Vec<MediaEdge>,
    pub page_info: PageInfo,
}

pub struct PageInfo {
    pub end_cursor: Option<String>,
    pub has_next_page: bool,
}

pub struct MediaEdge {
    pub node: MediaNode,
}

/// One listed post; `id` is the feed's short code, `image_url` its display address.
pub struct MediaNode {
    pub id: String,
    pub image_url: String,
}

/// A post detail as the feed nests it.
pub struct PostDocument {
    pub graphql: PostGraph,
}

pub struct PostGraph {
    pub shortcode_media: PostMedia,
}

pub struct PostMedia {
    pub shortcode: String,
    pub display_url: String,
    pub owner: MediaOwner,
}

pub struct MediaOwner {
    pub username: String,
}

impl InstaHashtagResponse {
    /// Flattens a listing: one partial post per edge, in the order of the
    /// edges, with the hashtag's name and the paging data beside them.
    pub fn from_document(doc: HashtagDocument) -> (res: InstaHashtagResponse)
        ensures
            res.hashtag@ == doc.graphql.hashtag.name@,
            opt_text(res.end_cursor) == opt_text(
                doc.graphql.hashtag.edge_hashtag_to_media.page_info.end_cursor,
            ),
            res.has_next_page == doc.graphql.hashtag.edge_hashtag_to_media.page_info.has_next_page,
            res.posts@.len() == doc.graphql.hashtag.edge_hashtag_to_media.edges@.len(),
            forall|i: int|
                0 <= i < res.posts@.len() ==> {
                    let node = doc.graphql.hashtag.edge_hashtag_to_media.edges@[i].node;
                    &&& (#[trigger] res.posts@[i]).id@ == node.id@
                    &&& res.posts@[i].image_url@ == node.image_url@
                },
    {
        let HashtagNode { name, edge_hashtag_to_media } = doc.graphql.hashtag;
        let MediaEdges { edges, page_info } = edge_hashtag_to_media;
        let mut posts: Vec<InstaPartialPost> = Vec::new();
        let mut i: usize = 0;
        while i < edges.len()
            invariant
                i <= edges@.len(),
                posts@.len() == i,
                forall|k: int|
                    0 <= k < i ==> {
                        &&& (#[trigger] posts@[k]).id@ == edges@[k].node.id@
                        &&& posts@[k].image_url@ == edges@[k].node.image_url@
                    },
            decreases edges@.len() - i,
        {
            posts.push(
                InstaPartialPost {
                    id: edges[i].node.id.clone(),
                    image_url: edges[i].node.image_url.clone(),
                },
            );
            i += 1;
        }
        InstaHashtagResponse {
            posts,
            hashtag: name,
            end_cursor: page_info.end_cursor,
            has_next_page: page_info.has_next_page,
        }
    }
}

impl InstaPostResponse {
    /// Flattens a post detail.
    pub fn from_document(doc: PostDocument) -> (res: InstaPostResponse)
        ensures
            res.id == doc.graphql.shortcode_media.shortcode,
            res.image_url == doc.graphql.shortcode_media.display_url,
            res.user_name == doc.graphql.shortcode_media.owner.username,
    {
        let PostMedia { shortcode, display_url, owner } = doc.graphql.shortcode_media;
        InstaPostResponse { id: shortcode, user_name: owner.username, image_url: display_url }
    }
}

// ---------------------------------------------------------------------
// One call, repeated until its answer can be read
// ---------------------------------------------------------------------

/// A call that is due: wait `wait_secs`, then fetch `url`. An answer that
/// cannot be read leads to the same call after `cooling_secs`.
#[derive(Debug, Clone)]
pub struct ApiCall {
    pub url: String,
    pub wait_secs: u64,
    pub cooling_secs: u64,
}

/// How a call goes on once its answer has come.
pub enum Loop<T> {
    /// The answer was read: the call is over.
    Break(T),
    /// The answer could not be read: this call is due next.
    Continue(ApiCall),
}

/// The first attempt of a call: no wait, and `cooling_secs` between attempts.
pub fn api_call(url: String, cooling_secs: u64) -> (call: ApiCall)
    ensures
        call.url == url,
        call.wait_secs == 0,
        call.cooling_secs == cooling_secs,
{
    ApiCall { url, wait_secs: 0, cooling_secs }
}

impl ApiCall {
    /// The same call, with `delay_secs` added to its wait (saturating).
    pub fn after(self, delay_secs: u64) -> (call: ApiCall)
        ensures
            call.url == self.url,
            call.cooling_secs == self.cooling_secs,
            call.wait_secs == if self.wait_secs + delay_secs > u64::MAX {
                u64::MAX as int
            } else {
                self.wait_secs + delay_secs
            },
    {
        ApiCall {
            url: self.url,
            wait_secs: self.wait_secs.saturating_add(delay_secs),
            cooling_secs: self.cooling_secs,
        }
    }

    /// Decides on the answer of this call. `parsed` is the answer read
    /// against the expected schema, `None` where that failed. A readable
    /// answer ends the call; an unreadable one repeats the identical
    /// address, after the cooling time, which stays as it was.
    pub fn settle<T>(self, parsed: Option<T>) -> (step: Loop<T>)
        ensures
            match parsed {
                Some(item) => step == Loop::Break(item),
                None => step == Loop::<T>::Continue(
                    (ApiCall {
                        url: self.url,
                        wait_secs: self.cooling_secs,
                        cooling_secs: self.cooling_secs,
                    }),
                ),
            },
    {
        match parsed {
            Some(item) => Loop::Break(item),
            None => Loop::Continue(
                ApiCall {
                    url: self.url,
                    wait_secs: self.cooling_secs,
                    cooling_secs: self.cooling_secs,
                },
            ),
        }
    }
}

/// The call that lists a hashtag, continued after `max_id` if given.
pub fn get_posts_by_hashtag(hashtag: &str, max_id: &Option<String>) -> (call: ApiCall)
    ensures
        call.url@ == hashtag_url_text(hashtag@, opt_text(*max_id)),
        call.wait_secs == 0,
        call.cooling_secs == API_COOLING_SEC,
{
    api_call(hashtag_url(hashtag, max_id), API_COOLING_SEC)
}

/// The call that fetches the detail of one post.
pub fn get_post_by_id(post_id: &str) -> (call: ApiCall)
    ensures
        call.url@ == post_url_text(post_id@),
        call.wait_secs == 0,
        call.cooling_secs == API_COOLING_SEC,
{
    api_call(post_url(post_id), API_COOLING_SEC)
}

// ---------------------------------------------------------------------
// The paced client
// ---------------------------------------------------------------------

/// Issues the calls to the feed, each after a fixed delay.
pub struct InstaApi {
    delay_secs: u64,
}

/// Walks the pages of one hashtag until the feed reports no further page.
pub struct HashtagPager {
    hashtag: String,
    max_id: Option<String>,
    has_next: bool,
    delay_secs: u64,
}

impl InstaApi {
    /// Seconds that precede every call of this client.
    pub closed spec fn delay(&self) -> u64 {
        self.delay_secs
    }

    /// A client that waits `API_INTERVAL_SEC` before every call.
    pub fn new() -> (api: InstaApi)
        ensures
            api.delay() == API_INTERVAL_SEC,
    {
        InstaApi { delay_secs: API_INTERVAL_SEC }
    }

    /// The first page of a hashtag, after the client's delay.
    pub fn get_posts_by_hashtag(&self, hashtag: &str) -> (call: ApiCall)
        ensures
            call.url@ == hashtag_url_text(hashtag@, None),
            call.wait_secs == self.delay(),
            call.cooling_secs == API_COOLING_SEC,
    {
        self::get_posts_by_hashtag(hashtag, &None).after(self.delay_secs)
    }

    /// The detail of one post, after the client's delay.
    pub fn get_post_by_id(&self, id: &str) -> (call: ApiCall)
        ensures
            call.url@ == post_url_text(id@),
            call.wait_secs == self.delay(),
            call.cooling_secs == API_COOLING_SEC,
    {
        self::get_post_by_id(id).after(self.delay_secs)
    }

    /// A walk over all pages of a hashtag, starting at the first.
    pub fn get_bunch_posts_by_hashtag(&self, hashtag: &str) -> (pager: HashtagPager)
        ensures
            pager.hashtag() == hashtag@,
            pager.max_id().is_none(),
            pager.has_next(),
            pager.delay() == self.delay(),
    {
        HashtagPager {
            hashtag: String::from_str(hashtag),
            max_id: None,
            has_next: true,
            delay_secs: self.delay_secs,
        }
    }
}

/// The posts of a page, each beside the hashtag it was listed under.
pub open spec fn tagged(
    hashtag: Seq<char>,
    posts: Seq<InstaPartialPost>,
    out: Seq<(String, InstaPartialPost)>,
) -> bool {
    &&& out.len() == posts.len()
    &&& forall|i: int|
        0 <= i < out.len() ==> {
            &&& (#[trigger] out[i]).0@ == hashtag
            &&& out[i].1.id@ == posts[i].id@
            &&& out[i].1.image_url@ == posts[i].image_url@
        }
}

impl HashtagPager {
    /// The hashtag whose pages are walked.
    pub closed spec fn hashtag(&self) -> Seq<char> {
        self.hashtag@
    }

    /// Cursor after which the next page starts; `None` before the first page.
    pub closed spec fn max_id(&self) -> Option<Seq<char>> {
        opt_text(self.max_id)
    }

    /// Whether a page is still to be fetched.
    pub closed spec fn has_next(&self) -> bool {
        self.has_next
    }

    /// Seconds that precede every call of this walk.
    pub closed spec fn delay(&self) -> u64 {
        self.delay_secs
    }

    /// The call for the next page, or `None` once the last page has come.
    pub fn next_call(&self) -> (call: Option<ApiCall>)
        ensures
            call.is_some() == self.has_next(),
            call matches Some(c) ==> {
                &&& c.url@ == hashtag_url_text(self.hashtag(), self.max_id())
                &&& c.wait_secs == self.delay()
                &&& c.cooling_secs == API_COOLING_SEC
            },
    {
        if self.has_next {
            let call = self::get_posts_by_hashtag(self.hashtag.as_str(), &self.max_id);
            Some(call.after(self.delay_secs))
        } else {
            None
        }
    }

    /// Takes a page in: its cursor and its has-more flag become the
    /// pager's, and its posts are handed on under the pager's hashtag.
    pub fn accept(&mut self, page: InstaHashtagResponse) -> (out: Vec<(String, InstaPartialPost)>)
        ensures
            final(self).hashtag() == old(self).hashtag(),
            final(self).delay() == old(self).delay(),
            final(self).max_id() == opt_text(page.end_cursor),
            final(self).has_next() == page.has_next_page,
            tagged(old(self).hashtag(), page.posts@, out@),
    {
        let InstaHashtagResponse { posts, hashtag: _, end_cursor, has_next_page } = page;
        self.max_id = end_cursor;
        self.has_next = has_next_page;
        tag_posts(self.hashtag.as_str(), &posts)
    }
}

/// Puts the hashtag beside each post of a page.
pub fn tag_posts(hashtag: &str, posts: &Vec<InstaPartialPost>) -> (out: Vec<(String, InstaPartialPost)>)
    ensures
        tagged(hashtag@, posts@, out@),
{
    let mut out: Vec<(String, InstaPartialPost)> = Vec::new();
    let mut i: usize = 0;
    while i < posts.len()
        invariant
            i <= posts@.len(),
            out@.len() == i,
            forall|k: int|
                0 <= k < i ==> {
                    &&& (#[trigger] out@[k]).0@ == hashtag@
                    &&& out@[k].1.id@ == posts@[k].id@
                    &&& out@[k].1.image_url@ == posts@[k].image_url@
                },
        decreases posts@.len() - i,
    {
        out.push(
            (
                String::from_str(hashtag),
                InstaPartialPost {
                    id: posts[i].id.clone(),
                    image_url: posts[i].image_url.clone(),
                },
            ),
        );
        i += 1;
    }
    out
}

} // verus!
