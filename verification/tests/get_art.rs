use insta_mosaic::art::MosaicArt;
use insta_mosaic::distance::MosaicPiece;
use insta_mosaic::feeder::Event;
use insta_mosaic::get_art::{
    assemble_response, construct_response, handler, to_base64, to_png_bytes, ServeError,
};
use insta_mosaic::worker::{WorkerId, WorkerManager};
use insta_mosaic::picture::{Picture, Rgba};
use insta_mosaic::post::InstaPost;
use insta_mosaic::size::{Grid, ImageSize};

fn served_art() -> MosaicArt {
    let grid = Grid::new(ImageSize { width: 4, height: 2 }, ImageSize { width: 2, height: 2 }).unwrap();
    let mut art = MosaicArt::new(grid, vec!["sea".to_string(), "sky".to_string()]);
    let mut photo = Picture::filled(ImageSize { width: 2, height: 2 }, Rgba { r: 10, g: 20, b: 30, a: 255 });
    photo.put_pixel(1, 0, Rgba { r: 200, g: 100, b: 50, a: 128 });
    let post = InstaPost::new("post1".to_string(), "alice".to_string(), photo);
    art.place(MosaicPiece::new(post, vec![5, 1]));
    art
}

#[test]
fn png_file_decodes_back_to_the_picture() {
    let mut picture = Picture::filled(ImageSize { width: 3, height: 2 }, Rgba { r: 1, g: 2, b: 3, a: 4 });
    picture.put_pixel(2, 1, Rgba { r: 250, g: 0, b: 7, a: 255 });
    let file = to_png_bytes(&picture).unwrap();
    assert_eq!(&file[..8], &[0x89, b'P', b'N', b'G', 0x0D, 0x0A, 0x1A, 0x0A]);
    let decoded = image::load_from_memory(&file).unwrap().to_rgba8();
    assert_eq!(decoded.dimensions(), (3, 2));
    assert_eq!(decoded.into_raw(), picture.to_rgba_bytes());
}

#[test]
fn png_of_an_empty_picture_is_refused() {
    let picture = Picture::filled(ImageSize { width: 0, height: 0 }, Rgba::clear());
    assert!(to_png_bytes(&picture).is_none());
}

#[test]
fn response_carries_the_canvas_as_base64_of_its_png_file() {
    let art = served_art();
    let response = construct_response(&art).unwrap();
    let file = base64::decode(&response.mosaic_art).unwrap();
    assert_eq!(file, to_png_bytes(art.get_image().image()).unwrap());
    assert_eq!(response.mosaic_art, base64::encode(&file));
    let decoded = image::load_from_memory(&file).unwrap().to_rgba8();
    assert_eq!(decoded.dimensions(), (4, 2));
    assert_eq!(decoded.get_pixel(0, 0).0, [0, 0, 0, 0]);
    assert_eq!(decoded.get_pixel(2, 0).0, [10, 20, 30, 255]);
    assert_eq!(decoded.get_pixel(3, 0).0, [200, 100, 50, 128]);
    assert_eq!(decoded.get_pixel(3, 1).0, [10, 20, 30, 255]);
}

#[test]
fn response_lists_placed_posts_and_hashtags() {
    let art = served_art();
    let response = construct_response(&art).unwrap();
    assert_eq!(response.piece_posts.len(), 1);
    assert_eq!(response.piece_posts[0].post_id, "post1");
    assert_eq!(response.piece_posts[0].user_name, "alice");
    assert_eq!(response.insta_hashtags, vec!["sea".to_string(), "sky".to_string()]);
}

#[test]
fn base64_text_uses_the_standard_alphabet_with_padding() {
    let art = served_art();
    let response = construct_response(&art).unwrap();
    assert!(response.mosaic_art.starts_with("iVBORw0KGgo"));
    assert_eq!(response.mosaic_art.len() % 4, 0);
    assert!(response
        .mosaic_art
        .chars()
        .all(|c| c.is_ascii_alphanumeric() || c == '+' || c == '/' || c == '='));
}

#[test]
fn assembled_response_takes_the_text_as_it_is() {
    let art = served_art();
    let response = assemble_response("any text".to_string(), &art);
    assert_eq!(response.mosaic_art, "any text");
    assert_eq!(response.piece_posts.len(), 1);
    assert_eq!(response.piece_posts[0].post_id, "post1");
    assert_eq!(response.insta_hashtags.len(), 2);
}

#[test]
fn bytes_are_put_into_base64() {
    assert_eq!(to_base64(b"hello world"), Some("aGVsbG8gd29ybGQ=".to_string()));
    assert_eq!(to_base64(b""), Some(String::new()));
    assert_eq!(to_base64(&[0, 1, 2, 255]), Some("AAEC/w==".to_string()));
    assert_eq!(to_base64(&[251, 255]), Some("+/8=".to_string()));
}

#[test]
fn unknown_identity_is_not_found() {
    let manager = WorkerManager::new();
    assert_eq!(handler(WorkerId(0), &manager).err(), Some(ServeError::NotFound));
}

#[test]
fn running_job_is_served_and_failed_job_is_reported() {
    let mut manager = WorkerManager::new();
    let origin = Picture::filled(ImageSize { width: 4, height: 2 }, Rgba { r: 9, g: 9, b: 9, a: 255 });
    let photo = Picture::filled(ImageSize { width: 2, height: 2 }, Rgba { r: 9, g: 9, b: 9, a: 255 });
    let id = manager
        .start_worker(
            origin,
            ImageSize { width: 2, height: 2 },
            vec!["sea".to_string()],
            vec![InstaPost::new("post1".to_string(), "alice".to_string(), photo)],
        )
        .unwrap();
    let served = handler(id, &manager).unwrap();
    assert_eq!(served.piece_posts.len(), 1);
    assert_eq!(served.piece_posts[0].post_id, "post1");
    assert_eq!(served.insta_hashtags, vec!["sea".to_string()]);
    let file = base64::decode(&served.mosaic_art).unwrap();
    let decoded = image::load_from_memory(&file).unwrap().to_rgba8();
    assert_eq!(decoded.dimensions(), (4, 2));
    assert_eq!(decoded.get_pixel(0, 0).0, [9, 9, 9, 255]);
    assert_eq!(decoded.get_pixel(2, 0).0, [0, 0, 0, 0]);

    manager.step(id, Event::Start);
    assert!(handler(id, &manager).is_ok());
    manager.step(id, Event::TransportFailure);
    assert_eq!(handler(id, &manager).err(), Some(ServeError::Failed));
    assert!(manager.stop_worker(id));
    assert_eq!(handler(id, &manager).err(), Some(ServeError::NotFound));
}
