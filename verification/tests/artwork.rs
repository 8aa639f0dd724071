use std::io::Cursor;
use std::sync::mpsc;

use nes_ui::achievements_ui::{format_unlock_time, unlock_time_or_unknown};
use nes_ui::artwork::{
    advance_artwork_lookup, artwork_url_for_game, artwork_within_limit, canonical_game_id, cover_file_within_limit,
    decode_badge, decode_cover, decode_library_artwork, game_artwork_url, picture_from_decoded, start_artwork_lookup,
    ArtworkLookup, ArtworkReply, GameTitle, LibraryArtworkLoader, LibraryArtworkResult, MAX_LIBRARY_ARTWORK_BYTES,
};

fn png_bytes(width: u32, height: u32) -> Vec<u8> {
    let picture = image::RgbaImage::from_pixel(width, height, image::Rgba([10, 20, 30, 255]));
    let mut out = Cursor::new(Vec::new());
    image::DynamicImage::ImageRgba8(picture)
        .write_to(&mut out, image::ImageFormat::Png)
        .unwrap();
    out.into_inner()
}

fn game(id: u32, icon: &str, url: &str) -> GameTitle {
    GameTitle {
        id,
        image_icon: icon.into(),
        image_url: url.into(),
    }
}

#[test]
fn keeps_regular_game_ids() {
    assert_eq!(canonical_game_id(1446), 1446);
}

#[test]
fn unwraps_known_unsupported_revision_ids() {
    assert_eq!(canonical_game_id(1_100_001_446), 1446);
}

#[test]
fn canonical_game_ids_are_stable_at_the_range_edges() {
    assert_eq!(canonical_game_id(1_100_000_000), 1_100_000_000);
    assert_eq!(canonical_game_id(1_100_000_001), 1);
    assert_eq!(canonical_game_id(1_199_999_999), 99_999_999);
    assert_eq!(canonical_game_id(1_200_000_000), 1_200_000_000);
    let once = canonical_game_id(1_150_000_000);
    assert_eq!(canonical_game_id(once), once);
}

#[test]
fn absolute_image_urls_are_used_as_they_are() {
    assert_eq!(
        game_artwork_url(&game(1, "", "https://example.org/a.png")).as_deref(),
        Some("https://example.org/a.png")
    );
    assert_eq!(
        game_artwork_url(&game(1, "", "http://example.org/b.png")).as_deref(),
        Some("http://example.org/b.png")
    );
}

#[test]
fn relative_image_urls_go_under_the_media_host() {
    assert_eq!(
        game_artwork_url(&game(1, "/Images/000001.png", "//Images/cover.png")).as_deref(),
        Some("https://media.retroachievements.org/Images/cover.png")
    );
}

#[test]
fn icon_paths_name_the_image() {
    assert_eq!(
        game_artwork_url(&game(1, "/Images/085573.png", "")).as_deref(),
        Some("https://media.retroachievements.org/Images/085573.png")
    );
    assert_eq!(
        game_artwork_url(&game(1, "085573.png.png", "")).as_deref(),
        Some("https://media.retroachievements.org/Images/085573.png")
    );
    assert_eq!(game_artwork_url(&game(1, "/Images/", "")), None);
    assert_eq!(game_artwork_url(&game(1, ".png", "")), None);
}

#[test]
fn the_first_game_with_the_id_gives_the_artwork() {
    let games = vec![
        game(3, "/Images/3.png", ""),
        game(7, "/Images/first.png", ""),
        game(7, "/Images/second.png", ""),
    ];
    assert_eq!(
        artwork_url_for_game(&games, 7).as_deref(),
        Some("https://media.retroachievements.org/Images/first.png")
    );
    assert_eq!(artwork_url_for_game(&games, 8), None);
}

#[test]
fn artwork_size_limit_is_thirty_two_mebibytes() {
    assert!(artwork_within_limit(MAX_LIBRARY_ARTWORK_BYTES));
    assert!(!artwork_within_limit(32 * 1024 * 1024 + 1));
}

#[test]
fn artwork_requests_wait_until_answered() {
    let (request_tx, request_rx) = mpsc::channel::<Vec<u8>>();
    let (result_tx, result_rx) = mpsc::channel::<LibraryArtworkResult>();
    let mut loader = LibraryArtworkLoader::with_channels(request_tx, result_rx);
    assert!(!loader.has_pending());
    loader.request(b"/roms/a.nes".to_vec());
    loader.request(b"/roms/a.nes".to_vec());
    loader.request(b"/roms/b.nes".to_vec());
    assert!(loader.has_pending());
    let sent: Vec<Vec<u8>> = request_rx.try_iter().collect();
    assert_eq!(sent, vec![b"/roms/a.nes".to_vec(), b"/roms/b.nes".to_vec()]);
    result_tx
        .send(LibraryArtworkResult {
            path: b"/roms/a.nes".to_vec(),
            image: None,
        })
        .unwrap();
    let results = loader.take_results();
    assert_eq!(results.len(), 1);
    assert!(loader.has_pending());
    result_tx
        .send(LibraryArtworkResult {
            path: b"/roms/b.nes".to_vec(),
            image: None,
        })
        .unwrap();
    assert_eq!(loader.take_results().len(), 1);
    assert!(!loader.has_pending());
}

#[test]
fn requests_to_a_stopped_worker_do_not_wait() {
    let (request_tx, request_rx) = mpsc::channel::<Vec<u8>>();
    let (_result_tx, result_rx) = mpsc::channel::<LibraryArtworkResult>();
    drop(request_rx);
    let mut loader = LibraryArtworkLoader::with_channels(request_tx, result_rx);
    loader.request(b"/roms/a.nes".to_vec());
    assert!(!loader.has_pending());
}

#[test]
fn settled_requests_wait_only_when_delivered() {
    let (request_tx, _request_rx) = mpsc::channel::<Vec<u8>>();
    let (_result_tx, result_rx) = mpsc::channel::<LibraryArtworkResult>();
    let mut loader = LibraryArtworkLoader::with_channels(request_tx, result_rx);
    loader.settle_request(b"/roms/a.nes".to_vec(), false);
    assert!(!loader.has_pending());
    loader.settle_request(b"/roms/a.nes".to_vec(), true);
    assert!(loader.has_pending());
}

#[test]
fn library_artwork_is_shrunk_to_fit() {
    let artwork = decode_library_artwork("https://example.org/a.png".into(), &png_bytes(512, 256)).unwrap();
    assert_eq!(artwork.url, "https://example.org/a.png");
    assert_eq!(artwork.size, [256, 128]);
    assert_eq!(artwork.rgba.len(), 256 * 128 * 4);
    assert_eq!(&artwork.rgba[0..4], &[10, 20, 30, 255]);
}

#[test]
fn library_artwork_that_does_not_decode_is_an_error() {
    assert!(decode_library_artwork("u".into(), b"not an image").is_err());
}

#[test]
fn oversized_library_artwork_is_refused() {
    let bytes = vec![0u8; MAX_LIBRARY_ARTWORK_BYTES as usize + 1];
    let error = decode_library_artwork("u".into(), &bytes).unwrap_err();
    assert_eq!(error, "library artwork is larger than 32 MiB");
}

#[test]
fn badges_are_shrunk_to_fit() {
    let badge = decode_badge("b".into(), &png_bytes(64, 256)).unwrap();
    assert_eq!(badge.size, [32, 128]);
    assert_eq!(badge.rgba.len(), 32 * 128 * 4);
    assert!(decode_badge("b".into(), b"nope").is_none());
}

#[test]
fn small_badges_are_enlarged_to_fit() {
    let badge = decode_badge("b".into(), &png_bytes(16, 8)).unwrap();
    assert_eq!(badge.size, [128, 64]);
}

#[test]
fn decoded_pictures_keep_their_address_and_errors() {
    let image = picture_from_decoded("u".into(), Ok((2, 1, vec![1, 2, 3, 4, 5, 6, 7, 8]))).unwrap();
    assert_eq!((image.url.as_str(), image.size, image.rgba.len()), ("u", [2, 1], 8));
    assert_eq!(picture_from_decoded("u".into(), Err("bad".into())).unwrap_err(), "bad");
}

#[test]
fn covers_decode_within_their_limits() {
    let (size, rgba) = decode_cover(&png_bytes(300, 200)).unwrap();
    assert_eq!(size, [300, 200]);
    assert_eq!(rgba.len(), 300 * 200 * 4);
    assert!(decode_cover(&png_bytes(8193, 1)).is_err());
    assert!(decode_cover(b"not a picture").is_err());
    let big = vec![0u8; 32 * 1024 * 1024 + 1];
    assert_eq!(decode_cover(&big).unwrap_err(), "cover image is larger than 32 MiB");
    assert!(cover_file_within_limit(32 * 1024 * 1024));
    assert!(!cover_file_within_limit(32 * 1024 * 1024 + 1));
}

#[test]
fn artwork_lookups_follow_the_game_to_its_picture() {
    assert!(matches!(
        start_artwork_lookup(None),
        ArtworkLookup::Finished(Err(ref e)) if e == "rcheevos could not hash the NES ROM"
    ));
    let lookup = start_artwork_lookup(Some("abc".into()));
    assert!(matches!(lookup, ArtworkLookup::ResolveHash(ref h) if h == "abc"));
    let unknown = advance_artwork_lookup(start_artwork_lookup(Some("abc".into())), ArtworkReply::GameId(0));
    assert!(matches!(unknown, ArtworkLookup::Finished(Ok(None))));
    let lookup = advance_artwork_lookup(lookup, ArtworkReply::GameId(1_100_000_005));
    assert!(matches!(lookup, ArtworkLookup::FetchTitles(5)));
    let missing = advance_artwork_lookup(ArtworkLookup::FetchTitles(5), ArtworkReply::Titles(vec![game(6, "", "x.png")]));
    assert!(matches!(missing, ArtworkLookup::Finished(Ok(None))));
    let lookup = advance_artwork_lookup(
        lookup,
        ArtworkReply::Titles(vec![game(5, "", "https://example.org/cover.png")]),
    );
    assert!(matches!(lookup, ArtworkLookup::Download(ref u) if u == "https://example.org/cover.png"));
    let refused = advance_artwork_lookup(
        ArtworkLookup::Download("u".into()),
        ArtworkReply::Headers(Some(MAX_LIBRARY_ARTWORK_BYTES + 1)),
    );
    assert!(matches!(refused, ArtworkLookup::Finished(Err(ref e)) if e == "library artwork is larger than 32 MiB"));
    let lookup = advance_artwork_lookup(lookup, ArtworkReply::Headers(None));
    assert!(matches!(lookup, ArtworkLookup::ReadBody(ref u) if u == "https://example.org/cover.png"));
    match advance_artwork_lookup(lookup, ArtworkReply::Body(png_bytes(100, 50))) {
        ArtworkLookup::Finished(Ok(Some(image))) => {
            assert_eq!(image.url, "https://example.org/cover.png");
            assert_eq!(image.size, [256, 128]);
        }
        _ => panic!("the lookup should end with the artwork"),
    }
}

#[test]
fn unlock_times_off_the_calendar_are_unknown() {
    assert_eq!(format_unlock_time(i64::MAX), "Unknown time");
    assert_eq!(format_unlock_time(-9_000_000_000_000), "Unknown time");
    assert_ne!(format_unlock_time(-8_000_000_000_000), "Unknown time");
    assert_ne!(format_unlock_time(1_700_000_000), "Unknown time");
    assert_eq!(unlock_time_or_unknown(None), "Unknown time");
    assert_eq!(unlock_time_or_unknown(Some("Mar 4, 2025 · 9:05 PM".into())), "Mar 4, 2025 · 9:05 PM");
}

#[test]
fn paths_that_are_not_text_are_their_own_keys() {
    let (request_tx, request_rx) = mpsc::channel::<Vec<u8>>();
    let (_result_tx, result_rx) = mpsc::channel::<LibraryArtworkResult>();
    let mut loader = LibraryArtworkLoader::with_channels(request_tx, result_rx);
    loader.request(b"/roms/\xff.nes".to_vec());
    loader.request(b"/roms/\xfe.nes".to_vec());
    assert_eq!(request_rx.try_iter().count(), 2);
    assert!(loader.has_pending());
}

#[test]
fn lookup_messages_carry_the_path_only_while_it_is_not_pending() {
    let (request_tx, request_rx) = mpsc::channel::<Vec<u8>>();
    let (_result_tx, result_rx) = mpsc::channel::<LibraryArtworkResult>();
    let mut loader = LibraryArtworkLoader::with_channels(request_tx, result_rx);
    let path = b"/roms/a.nes".to_vec();
    assert_eq!(loader.lookup_message(&path), Some(path.clone()));
    loader.request(path.clone());
    assert_eq!(loader.lookup_message(&path), None);
    assert_eq!(request_rx.try_iter().collect::<Vec<_>>(), vec![path]);
}

#[test]
fn decodable_artwork_always_decodes_at_its_scaled_size() {
    let artwork = decode_library_artwork("u".into(), &png_bytes(300, 100)).unwrap();
    assert_eq!(artwork.size, [256, 85]);
    let badge = decode_badge("b".into(), &png_bytes(3, 1000)).unwrap();
    assert_eq!(badge.size, [1, 128]);
    assert!(decode_badge("b".into(), &png_bytes(1, 1)).is_some());
}
