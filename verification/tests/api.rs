use insta_mosaic::api::{
    api_call, get_post_by_id, get_posts_by_hashtag, hashtag_url, post_url, ApiCall, HashtagDocument,
    HashtagGraph, HashtagNode, InstaApi, InstaHashtagResponse, InstaPartialPost, InstaPostResponse,
    Loop, MediaEdge, MediaEdges, MediaNode, MediaOwner, PageInfo, PostDocument, PostGraph, PostMedia,
    API_COOLING_SEC, API_INTERVAL_SEC,
};

fn listing(ids: &[&str], end_cursor: Option<&str>, has_next_page: bool) -> HashtagDocument {
    HashtagDocument {
        graphql: HashtagGraph {
            hashtag: HashtagNode {
                name: "cats".to_string(),
                edge_hashtag_to_media: MediaEdges {
                    edges: ids
                        .iter()
                        .map(|id| MediaEdge {
                            node: MediaNode {
                                id: id.to_string(),
                                image_url: format!("https://img.example/{}.jpg", id),
                            },
                        })
                        .collect(),
                    page_info: PageInfo { end_cursor: end_cursor.map(|c| c.to_string()), has_next_page },
                },
            },
        },
    }
}

#[test]
fn intervals_are_three_and_thirty_seconds() {
    assert_eq!(API_INTERVAL_SEC, 3);
    assert_eq!(API_COOLING_SEC, 30);
}

#[test]
fn plain_hashtag_stands_in_the_address_as_it_is() {
    assert_eq!(
        hashtag_url("cats", &None),
        "https://www.instagram.com/explore/tags/cats/?__a=1"
    );
}

#[test]
fn hashtag_is_percent_encoded_in_the_address() {
    assert_eq!(
        hashtag_url("foo bar?", &None),
        "https://www.instagram.com/explore/tags/foo%20bar%3F/?__a=1"
    );
    assert_eq!(
        hashtag_url("a\"#<>`{}b", &None),
        "https://www.instagram.com/explore/tags/a%22%23%3C%3E%60%7B%7Db/?__a=1"
    );
    assert_eq!(
        hashtag_url("a/b%c&d=e~f", &None),
        "https://www.instagram.com/explore/tags/a/b%c&d=e~f/?__a=1"
    );
    assert_eq!(
        hashtag_url("\u{7f}\n", &None),
        "https://www.instagram.com/explore/tags/%7F%0A/?__a=1"
    );
}

#[test]
fn hashtag_outside_ascii_is_encoded_byte_by_byte() {
    assert_eq!(
        hashtag_url("猫", &None),
        "https://www.instagram.com/explore/tags/%E7%8C%AB/?__a=1"
    );
    assert_eq!(
        hashtag_url("café", &None),
        "https://www.instagram.com/explore/tags/caf%C3%A9/?__a=1"
    );
}

#[test]
fn cursor_is_appended_as_max_id() {
    assert_eq!(
        hashtag_url("cats", &Some("QVFE".to_string())),
        "https://www.instagram.com/explore/tags/cats/?__a=1&max_id=QVFE"
    );
    assert_eq!(
        hashtag_url("", &Some("".to_string())),
        "https://www.instagram.com/explore/tags//?__a=1&max_id="
    );
}

#[test]
fn post_address_holds_the_identifier() {
    assert_eq!(post_url("BqX3"), "https://www.instagram.com/p/BqX3/?__a=1");
    assert_eq!(post_url(""), "https://www.instagram.com/p//?__a=1");
}

#[test]
fn first_attempt_has_no_wait() {
    let call = api_call("https://example/x".to_string(), 30);
    assert_eq!(call.url, "https://example/x");
    assert_eq!(call.wait_secs, 0);
    assert_eq!(call.cooling_secs, 30);
}

#[test]
fn readable_answer_ends_the_call() {
    let call = api_call("https://example/x".to_string(), 30);
    match call.settle(Some(17u32)) {
        Loop::Break(item) => assert_eq!(item, 17),
        Loop::Continue(_) => panic!("the call should be over"),
    }
}

#[test]
fn unreadable_answer_repeats_the_identical_call_after_cooling() {
    let mut call = get_posts_by_hashtag("cats", &Some("c1".to_string()));
    let url = call.url.clone();
    for _ in 0..5 {
        call = match call.settle::<u32>(None) {
            Loop::Continue(next) => next,
            Loop::Break(_) => panic!("nothing was read"),
        };
        assert_eq!(call.url, url);
        assert_eq!(call.wait_secs, 30);
        assert_eq!(call.cooling_secs, 30);
    }
}

#[test]
fn added_delay_saturates() {
    let call = ApiCall { url: "u".to_string(), wait_secs: 5, cooling_secs: 30 };
    let later = call.after(7);
    assert_eq!((later.url.as_str(), later.wait_secs, later.cooling_secs), ("u", 12, 30));
    let call = ApiCall { url: "u".to_string(), wait_secs: u64::MAX - 1, cooling_secs: 30 };
    assert_eq!(call.after(7).wait_secs, u64::MAX);
}

#[test]
fn free_calls_start_at_once_with_thirty_seconds_cooling() {
    let call = get_post_by_id("BqX3");
    assert_eq!(call.url, "https://www.instagram.com/p/BqX3/?__a=1");
    assert_eq!((call.wait_secs, call.cooling_secs), (0, 30));
    let call = get_posts_by_hashtag("cats", &None);
    assert_eq!(call.url, "https://www.instagram.com/explore/tags/cats/?__a=1");
    assert_eq!((call.wait_secs, call.cooling_secs), (0, 30));
}

#[test]
fn client_calls_wait_three_seconds() {
    let api = InstaApi::new();
    let call = api.get_posts_by_hashtag("cats");
    assert_eq!(call.url, "https://www.instagram.com/explore/tags/cats/?__a=1");
    assert_eq!((call.wait_secs, call.cooling_secs), (3, 30));
    let call = api.get_post_by_id("BqX3");
    assert_eq!(call.url, "https://www.instagram.com/p/BqX3/?__a=1");
    assert_eq!((call.wait_secs, call.cooling_secs), (3, 30));
}

#[test]
fn pager_walks_pages_until_there_is_no_further_one() {
    let api = InstaApi::new();
    let mut pager = api.get_bunch_posts_by_hashtag("my cats");
    let call = pager.next_call().unwrap();
    assert_eq!(call.url, "https://www.instagram.com/explore/tags/my%20cats/?__a=1");
    assert_eq!((call.wait_secs, call.cooling_secs), (3, 30));

    let page = InstaHashtagResponse::from_document(listing(&["a", "b"], Some("c1"), true));
    let out = pager.accept(page);
    assert_eq!(out.len(), 2);
    assert_eq!(out[0].0, "my cats");
    assert_eq!(out[0].1.id, "a");
    assert_eq!(out[1].1.id, "b");
    assert_eq!(out[1].1.image_url, "https://img.example/b.jpg");
    let call = pager.next_call().unwrap();
    assert_eq!(call.url, "https://www.instagram.com/explore/tags/my%20cats/?__a=1&max_id=c1");

    let page = InstaHashtagResponse::from_document(listing(&["c"], Some("c2"), false));
    let out = pager.accept(page);
    assert_eq!(out.len(), 1);
    assert_eq!(out[0].1.id, "c");
    assert!(pager.next_call().is_none());
}

#[test]
fn listing_is_flattened_in_the_order_of_its_edges() {
    let res = InstaHashtagResponse::from_document(listing(&["x", "y", "z"], Some("next"), true));
    assert_eq!(res.hashtag, "cats");
    assert_eq!(res.end_cursor, Some("next".to_string()));
    assert!(res.has_next_page);
    let ids: Vec<&str> = res.posts.iter().map(|p| p.id.as_str()).collect();
    assert_eq!(ids, vec!["x", "y", "z"]);
    assert_eq!(res.posts[2].image_url, "https://img.example/z.jpg");
    let res = InstaHashtagResponse::from_document(listing(&[], None, false));
    assert!(res.posts.is_empty());
    assert_eq!(res.end_cursor, None);
    assert!(!res.has_next_page);
}

#[test]
fn post_detail_is_flattened() {
    let doc = PostDocument {
        graphql: PostGraph {
            shortcode_media: PostMedia {
                shortcode: "BqX3".to_string(),
                display_url: "https://img.example/BqX3.jpg".to_string(),
                owner: MediaOwner { username: "alice".to_string() },
            },
        },
    };
    let res: InstaPostResponse = InstaPostResponse::from_document(doc);
    assert_eq!(res.id, "BqX3");
    assert_eq!(res.user_name, "alice");
    assert_eq!(res.image_url, "https://img.example/BqX3.jpg");
}

#[test]
fn partial_post_can_be_cloned() {
    let post = InstaPartialPost { id: "a".to_string(), image_url: "u".to_string() };
    let copy = post.clone();
    assert_eq!((copy.id, copy.image_url), (post.id, post.image_url));
}

#[test]
fn posts_of_a_page_are_tagged_with_the_hashtag() {
    let posts = vec![
        InstaPartialPost { id: "a".to_string(), image_url: "ua".to_string() },
        InstaPartialPost { id: "b".to_string(), image_url: "ub".to_string() },
    ];
    let out = insta_mosaic::api::tag_posts("sea", &posts);
    assert_eq!(out.len(), 2);
    assert_eq!((out[0].0.as_str(), out[0].1.id.as_str(), out[0].1.image_url.as_str()), ("sea", "a", "ua"));
    assert_eq!((out[1].0.as_str(), out[1].1.id.as_str(), out[1].1.image_url.as_str()), ("sea", "b", "ub"));
    assert!(insta_mosaic::api::tag_posts("sea", &Vec::new()).is_empty());
}
