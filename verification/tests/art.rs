use insta_mosaic::art::{MosaicArt, Placement, Rejection};
use insta_mosaic::distance::MosaicPiece;
use insta_mosaic::picture::{Picture, Rgba};
use insta_mosaic::post::InstaPost;
use insta_mosaic::size::{Grid, ImageSize, Position};

fn grey(v: u8) -> Rgba {
    Rgba { r: v, g: v, b: v, a: 255 }
}

fn square(side: u32) -> ImageSize {
    ImageSize { width: side, height: side }
}

fn art_of(reference: u32, piece: u32) -> MosaicArt {
    let grid = Grid::new(square(reference), square(piece)).unwrap();
    MosaicArt::new(grid, vec!["cat".to_string(), "dog".to_string()])
}

fn piece_of(id: &str, side: u32, shade: u8, distances: Vec<u64>) -> MosaicPiece {
    let photo = Picture::filled(square(side), grey(shade));
    MosaicPiece::new(InstaPost::new(id.to_string(), format!("author-of-{}", id), photo), distances)
}

fn placed_at(res: &Placement) -> (Position, Option<String>) {
    match res {
        Placement::Placed { position, evicted } => (*position, evicted.clone()),
        other => panic!("not placed: {:?}", other),
    }
}

fn ids_of(art: &MosaicArt) -> Vec<String> {
    art.get_piece_posts().into_iter().map(|p| p.post_id).collect()
}

#[test]
fn new_mosaic_is_empty_and_blank() {
    let art = art_of(90, 30);
    assert!(art.get_piece_posts().is_empty());
    assert_eq!(art.get_hashtags().to_vec(), vec!["cat".to_string(), "dog".to_string()]);
    let canvas = art.get_image().image();
    assert_eq!(canvas.get_size(), square(90));
    for y in 0..90 {
        for x in 0..90 {
            assert_eq!(canvas.pixel(x, y), Some(Rgba { r: 0, g: 0, b: 0, a: 0 }));
        }
    }
    for index in 0..9 {
        assert!(art.piece_at(index).is_none());
    }
}

#[test]
fn single_minimum_in_a_100_by_100_grid_takes_its_cell() {
    let mut art = art_of(3000, 30);
    let mut distances = vec![1000u64; 10_000];
    distances[4321] = 5;
    let res = art.place(piece_of("post1", 30, 77, distances));
    let (position, evicted) = placed_at(&res);
    assert_eq!(position, Position { row: 43, col: 21 });
    assert_eq!(evicted, None);
    assert!(art.has_post(&"post1".to_string()));
    assert_eq!(ids_of(&art), vec!["post1".to_string()]);
    let canvas = art.get_image().image();
    assert_eq!(canvas.pixel(21 * 30, 43 * 30), Some(grey(77)));
    assert_eq!(canvas.pixel(21 * 30 + 29, 43 * 30 + 29), Some(grey(77)));
    assert_eq!(canvas.pixel(21 * 30 - 1, 43 * 30), Some(Rgba::clear()));
    assert_eq!(canvas.pixel(21 * 30 + 30, 43 * 30), Some(Rgba::clear()));
    assert_eq!(canvas.pixel(21 * 30, 43 * 30 - 1), Some(Rgba::clear()));
    assert_eq!(canvas.pixel(21 * 30, 43 * 30 + 30), Some(Rgba::clear()));
}

#[test]
fn all_zero_distances_in_a_100_by_100_grid_take_the_first_cell() {
    let mut art = art_of(3000, 30);
    let res = art.place(piece_of("post1", 30, 9, vec![0u64; 10_000]));
    assert_eq!(placed_at(&res), (Position { row: 0, col: 0 }, None));
}

#[test]
fn zeros_but_for_one_larger_value_still_take_the_first_cell() {
    let mut art = art_of(3000, 30);
    let mut distances = vec![0u64; 10_000];
    distances[0] = 9;
    let res = art.place(piece_of("post1", 30, 9, distances));
    assert_eq!(placed_at(&res), (Position { row: 0, col: 1 }, None));
}

#[test]
fn strictly_better_second_candidate_evicts_the_first() {
    let mut art = art_of(90, 30);
    let mut first = vec![50u64; 9];
    first[7] = 10;
    let mut second = vec![100u64; 9];
    second[7] = 5;
    let a = art.place(piece_of("first", 30, 1, first));
    assert_eq!(placed_at(&a), (Position { row: 2, col: 1 }, None));
    let b = art.place(piece_of("second", 30, 2, second));
    assert_eq!(placed_at(&b), (Position { row: 2, col: 1 }, Some("first".to_string())));
    assert!(!art.has_post(&"first".to_string()));
    assert!(art.has_post(&"second".to_string()));
    assert_eq!(ids_of(&art), vec!["second".to_string()]);
    assert_eq!(art.piece_at(7).unwrap().get_post().get_id_str(), "second");
    assert_eq!(art.get_image().image().pixel(30, 60), Some(grey(2)));
}

#[test]
fn equal_distance_does_not_evict() {
    let mut art = art_of(30, 30);
    assert_eq!(placed_at(&art.place(piece_of("a", 30, 1, vec![5]))).1, None);
    assert!(matches!(art.place(piece_of("b", 30, 2, vec![5])), Placement::Dropped));
    assert!(matches!(art.place(piece_of("c", 30, 3, vec![6])), Placement::Dropped));
    assert_eq!(ids_of(&art), vec!["a".to_string()]);
    assert_eq!(art.get_image().image().pixel(0, 0), Some(grey(1)));
    let res = art.place(piece_of("d", 30, 4, vec![4]));
    assert_eq!(placed_at(&res), (Position { row: 0, col: 0 }, Some("a".to_string())));
    assert_eq!(art.get_image().image().pixel(29, 29), Some(grey(4)));
}

#[test]
fn ties_go_to_the_lowest_open_cell() {
    let mut art = art_of(60, 30);
    let cells = [(0, 0), (0, 1), (1, 0), (1, 1)];
    for (n, (row, col)) in cells.iter().enumerate() {
        let res = art.place(piece_of(&format!("post{}", n), 30, n as u8, vec![3, 3, 3, 3]));
        assert_eq!(placed_at(&res), (Position { row: *row, col: *col }, None));
    }
    assert!(matches!(art.place(piece_of("late", 30, 9, vec![3, 3, 3, 3])), Placement::Dropped));
    let res = art.place(piece_of("better", 30, 9, vec![9, 2, 2, 9]));
    assert_eq!(placed_at(&res), (Position { row: 0, col: 1 }, Some("post1".to_string())));
}

#[test]
fn occupied_cell_with_smaller_distance_beats_empty_cell() {
    let mut art = art_of(60, 30);
    placed_at(&art.place(piece_of("a", 30, 1, vec![40, 90, 90, 90])));
    let res = art.place(piece_of("b", 30, 2, vec![10, 20, 30, 40]));
    assert_eq!(placed_at(&res), (Position { row: 0, col: 0 }, Some("a".to_string())));
    let res = art.place(piece_of("c", 30, 3, vec![10, 20, 30, 40]));
    assert_eq!(placed_at(&res), (Position { row: 0, col: 1 }, None));
}

#[test]
fn incumbent_is_judged_by_its_own_distance_to_its_cell() {
    let mut art = art_of(60, 30);
    placed_at(&art.place(piece_of("a", 30, 1, vec![7, 0, 0, 0])));
    assert_eq!(art.piece_at(1).unwrap().get_post().get_id_str(), "a");
    let res = art.place(piece_of("b", 30, 2, vec![1, 0, 5, 5]));
    assert_eq!(placed_at(&res), (Position { row: 0, col: 0 }, None));
}

#[test]
fn duplicate_identifier_is_rejected_and_changes_nothing() {
    let mut art = art_of(60, 30);
    placed_at(&art.place(piece_of("same", 30, 1, vec![1, 2, 3, 4])));
    let res = art.place(piece_of("same", 30, 2, vec![0, 0, 0, 0]));
    assert!(matches!(res, Placement::Rejected(Rejection::Duplicate)));
    assert_eq!(ids_of(&art), vec!["same".to_string()]);
    assert_eq!(art.get_image().image().pixel(0, 0), Some(grey(1)));
    assert_eq!(art.get_image().image().pixel(30, 0), Some(Rgba::clear()));
}

#[test]
fn wrong_number_of_distances_is_rejected() {
    let mut art = art_of(60, 30);
    let res = art.place(piece_of("a", 30, 1, vec![1, 2, 3]));
    assert!(matches!(res, Placement::Rejected(Rejection::WrongDistanceCount)));
    let res = art.place(piece_of("a", 30, 1, vec![1, 2, 3, 4, 5]));
    assert!(matches!(res, Placement::Rejected(Rejection::WrongDistanceCount)));
    assert!(ids_of(&art).is_empty());
}

#[test]
fn photo_of_wrong_size_is_rejected() {
    let mut art = art_of(60, 30);
    let res = art.place(piece_of("a", 20, 1, vec![1, 2, 3, 4]));
    assert!(matches!(res, Placement::Rejected(Rejection::WrongPhotoSize)));
    assert!(ids_of(&art).is_empty());
}

#[test]
fn apply_post_puts_the_piece_where_it_is_told() {
    let mut art = art_of(60, 30);
    let pos = Position { row: 1, col: 0 };
    let res = art.apply_post(piece_of("a", 30, 1, vec![9, 9, 9, 9]), pos);
    assert_eq!(placed_at(&res), (pos, None));
    let res = art.apply_post(piece_of("b", 30, 2, vec![99, 99, 99, 99]), pos);
    assert_eq!(placed_at(&res), (pos, Some("a".to_string())));
    assert_eq!(ids_of(&art), vec!["b".to_string()]);
    assert_eq!(art.get_image().image().pixel(0, 30), Some(grey(2)));
    assert_eq!(art.get_image().image().pixel(0, 29), Some(Rgba::clear()));
}

#[test]
fn apply_post_outside_the_grid_is_rejected() {
    let mut art = art_of(60, 30);
    let res = art.apply_post(piece_of("a", 30, 1, vec![9, 9, 9, 9]), Position { row: 2, col: 0 });
    assert!(matches!(res, Placement::Rejected(Rejection::OutOfGrid)));
    let res = art.apply_post(piece_of("a", 30, 1, vec![9, 9, 9, 9]), Position { row: 0, col: 2 });
    assert!(matches!(res, Placement::Rejected(Rejection::OutOfGrid)));
    let res = art.apply_post(piece_of("a", 30, 1, vec![9, 9, 9]), Position { row: 0, col: 2 });
    assert!(matches!(res, Placement::Rejected(Rejection::WrongDistanceCount)));
    assert!(ids_of(&art).is_empty());
}

#[test]
fn find_position_names_the_cell_without_changing_anything() {
    let mut art = art_of(60, 30);
    assert_eq!(art.find_position(&vec![4, 3, 2, 1]), Some(3));
    assert_eq!(art.find_position(&vec![1, 1, 2, 2]), Some(0));
    placed_at(&art.place(piece_of("a", 30, 1, vec![4, 3, 2, 1])));
    assert_eq!(art.find_position(&vec![4, 3, 2, 1]), Some(2));
    assert_eq!(art.find_position(&vec![4, 3, 2, 0]), Some(3));
    assert_eq!(art.find_position(&vec![4, 3, 2]), None);
    assert_eq!(art.find_position(&vec![4, 3, 2, 1, 0]), None);
    assert_eq!(art.find_position(&Vec::new()), None);
    assert_eq!(ids_of(&art), vec!["a".to_string()]);
}

#[test]
fn maps_stay_consistent_over_a_run_of_placements() {
    let mut art = art_of(90, 30);
    let mut expected: Vec<Option<String>> = vec![None; 9];
    let mut seed: u64 = 12345;
    for n in 0..200 {
        let mut distances = Vec::new();
        for _ in 0..9 {
            seed = seed.wrapping_mul(6364136223846793005).wrapping_add(1442695040888963407);
            distances.push((seed >> 33) % 50);
        }
        let id = format!("post-{}", n % 150);
        let known = expected.iter().any(|c| c.as_deref() == Some(id.as_str()));
        match art.place(piece_of(&id, 30, (n % 250) as u8, distances)) {
            Placement::Placed { position, evicted } => {
                assert!(!known);
                let index = (position.row * 3 + position.col) as usize;
                assert_eq!(expected[index], evicted);
                expected[index] = Some(id);
            }
            Placement::Dropped => assert!(!known),
            Placement::Rejected(why) => {
                assert!(known);
                assert_eq!(why, Rejection::Duplicate);
            }
        }
        let placed: Vec<String> = expected.iter().flatten().cloned().collect();
        assert_eq!(ids_of(&art), placed);
        for (index, cell) in expected.iter().enumerate() {
            let held = art.piece_at(index).map(|p| p.get_post().get_id().clone());
            assert_eq!(&held, cell);
            if let Some(id) = cell {
                assert!(art.has_post(id));
            }
        }
        let mut sorted = placed.clone();
        sorted.sort();
        sorted.dedup();
        assert_eq!(sorted.len(), placed.len());
    }
}

#[test]
fn canvas_shows_each_occupant_in_its_cell() {
    let mut art = art_of(60, 30);
    placed_at(&art.place(piece_of("a", 30, 10, vec![0, 1, 2, 3])));
    placed_at(&art.place(piece_of("b", 30, 20, vec![9, 9, 0, 9])));
    placed_at(&art.place(piece_of("c", 30, 30, vec![9, 9, 9, 0])));
    let canvas = art.get_image().image();
    for y in 0..60u32 {
        for x in 0..60u32 {
            let expected = match (y / 30, x / 30) {
                (0, 0) => grey(10),
                (1, 0) => grey(20),
                (1, 1) => grey(30),
                _ => Rgba::clear(),
            };
            assert_eq!(canvas.pixel(x, y), Some(expected));
        }
    }
}

#[test]
fn placed_posts_are_listed_in_cell_order_with_their_authors() {
    let mut art = art_of(60, 30);
    placed_at(&art.place(piece_of("z", 30, 1, vec![9, 9, 9, 0])));
    placed_at(&art.place(piece_of("y", 30, 1, vec![9, 0, 9, 9])));
    let posts = art.get_piece_posts();
    assert_eq!(posts.len(), 2);
    assert_eq!(posts[0].post_id, "y");
    assert_eq!(posts[0].user_name, "author-of-y");
    assert_eq!(posts[1].post_id, "z");
    assert_eq!(posts[1].user_name, "author-of-z");
}
