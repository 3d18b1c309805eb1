use insta_mosaic::distance::{distance_between, DistanceCalcAlgo, MosaicPiece};
use insta_mosaic::picture::{Picture, Rgba};
use insta_mosaic::post::InstaPost;
use insta_mosaic::size::{ConfigError, Grid, ImageSize};

fn tone(v: u8) -> Rgba {
    Rgba { r: v, g: v, b: v, a: 255 }
}

fn post_of(id: &str, width: u32, height: u32, shade: u8) -> InstaPost {
    let photo = Picture::filled(ImageSize { width, height }, tone(shade));
    InstaPost::new(id.to_string(), "someone".to_string(), photo)
}

#[test]
fn distance_is_the_mean_difference_times_ten_thousand() {
    assert_eq!(distance_between(0, 0, 1), 0);
    assert_eq!(distance_between(255, 0, 1), 2_550_000);
    assert_eq!(distance_between(0, 255, 1), 2_550_000);
    assert_eq!(distance_between(900 * 10, 900 * 200, 900), 1_900_000);
    assert_eq!(distance_between(7, 7, 900), 0);
}

#[test]
fn distance_rounds_to_the_nearest_integer() {
    assert_eq!(distance_between(1, 0, 3), 3333);
    assert_eq!(distance_between(2, 0, 3), 6667);
    assert_eq!(distance_between(0, 2, 3), 6667);
    assert_eq!(distance_between(1, 0, 20_000), 1);
    assert_eq!(distance_between(1, 0, 20_001), 0);
    assert_eq!(distance_between(3, 0, 20_000), 2);
    assert_eq!(distance_between(1, 0, 7), 1429);
}

#[test]
fn each_cell_is_scored_by_its_own_mean() {
    let mut origin = Picture::filled(ImageSize { width: 4, height: 2 }, tone(10));
    for y in 0..2 {
        for x in 2..4 {
            origin.put_pixel(x, y, tone(200));
        }
    }
    let grid = Grid::new(ImageSize { width: 4, height: 2 }, ImageSize { width: 2, height: 2 }).unwrap();
    let algo = DistanceCalcAlgo::new(&origin, grid).unwrap();
    let piece: MosaicPiece = algo.calc_post(post_of("a", 2, 2, 10)).unwrap();
    assert_eq!(piece.get_distances(), &vec![0, 1_900_000]);
    assert_eq!(piece.get_post().get_id_str(), "a");
    let piece = algo.calc_post(post_of("b", 2, 2, 200)).unwrap();
    assert_eq!(piece.get_distances(), &vec![1_900_000, 0]);
    let piece = algo.calc_post(post_of("c", 2, 2, 105)).unwrap();
    assert_eq!(piece.get_distances(), &vec![950_000, 950_000]);
}

#[test]
fn cells_are_scored_in_row_major_order() {
    let mut origin = Picture::filled(ImageSize { width: 2, height: 3 }, tone(0));
    let shades = [[10u8, 20], [30, 40], [50, 60]];
    for y in 0..3u32 {
        for x in 0..2u32 {
            origin.put_pixel(x, y, tone(shades[y as usize][x as usize]));
        }
    }
    let grid = Grid::new(ImageSize { width: 2, height: 3 }, ImageSize { width: 1, height: 1 }).unwrap();
    let algo = DistanceCalcAlgo::new(&origin, grid).unwrap();
    let piece = algo.calc_post(post_of("a", 1, 1, 0)).unwrap();
    assert_eq!(
        piece.get_distances(),
        &vec![100_000, 200_000, 300_000, 400_000, 500_000, 600_000]
    );
}

#[test]
fn mixed_cell_is_scored_by_the_mean_of_its_pixels() {
    let mut origin = Picture::filled(ImageSize { width: 2, height: 2 }, tone(0));
    origin.put_pixel(0, 0, tone(1));
    let grid = Grid::new(ImageSize { width: 2, height: 2 }, ImageSize { width: 2, height: 2 }).unwrap();
    let algo = DistanceCalcAlgo::new(&origin, grid).unwrap();
    let piece = algo.calc_post(post_of("a", 2, 2, 0)).unwrap();
    assert_eq!(piece.get_distances(), &vec![2500]);
    let mut photo = Picture::filled(ImageSize { width: 2, height: 2 }, tone(0));
    photo.put_pixel(1, 1, tone(4));
    let piece = algo
        .calc_post(InstaPost::new("b".to_string(), "u".to_string(), photo))
        .unwrap();
    assert_eq!(piece.get_distances(), &vec![7500]);
}

#[test]
fn photo_of_another_size_is_not_scored() {
    let origin = Picture::filled(ImageSize { width: 4, height: 2 }, tone(10));
    let grid = Grid::new(ImageSize { width: 4, height: 2 }, ImageSize { width: 2, height: 2 }).unwrap();
    let algo = DistanceCalcAlgo::new(&origin, grid).unwrap();
    assert!(algo.calc_post(post_of("a", 2, 1, 10)).is_none());
    assert!(algo.calc_post(post_of("a", 4, 2, 10)).is_none());
    assert!(algo.calc_post(post_of("a", 2, 2, 10)).is_some());
}

#[test]
fn reference_of_another_size_is_refused() {
    let origin = Picture::filled(ImageSize { width: 4, height: 4 }, tone(10));
    let grid = Grid::new(ImageSize { width: 4, height: 2 }, ImageSize { width: 2, height: 2 }).unwrap();
    assert_eq!(
        DistanceCalcAlgo::new(&origin, grid).err(),
        Some(ConfigError::WrongReferenceSize)
    );
}

#[test]
fn colour_counts_through_its_grey_value() {
    let origin = Picture::filled(ImageSize { width: 1, height: 1 }, Rgba { r: 255, g: 0, b: 0, a: 255 });
    let grid = Grid::new(ImageSize { width: 1, height: 1 }, ImageSize { width: 1, height: 1 }).unwrap();
    let algo = DistanceCalcAlgo::new(&origin, grid).unwrap();
    let photo = Picture::filled(ImageSize { width: 1, height: 1 }, Rgba { r: 0, g: 255, b: 0, a: 0 });
    let piece = algo
        .calc_post(InstaPost::new("g".to_string(), "u".to_string(), photo))
        .unwrap();
    assert_eq!(piece.get_distances(), &vec![(182 - 54) * 10_000]);
}
