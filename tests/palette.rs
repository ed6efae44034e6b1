use tile_palette::palette::{PersistedState, WfcApp, TILE_SIZE};
use tile_palette::selection::SelectionState;
use tile_palette::sheet::{slice, DecodeError, SpriteSheet};
use tile_palette::textures::TextureCache;

fn rgb_sheet_bytes(width: u32, height: u32) -> Vec<u8> {
    let mut pixels = Vec::new();
    for y in 0..height {
        for x in 0..width {
            pixels.push(x as u8);
            pixels.push(y as u8);
            pixels.push((x / 16) as u8);
        }
    }
    pixels
}

fn sheet(width: u32, height: u32) -> SpriteSheet {
    SpriteSheet::from_rgb(width, height, rgb_sheet_bytes(width, height)).unwrap()
}

fn png(width: u32, height: u32) -> Vec<u8> {
    let img = image::RgbImage::from_fn(width, height, |x, y| image::Rgb([x as u8, y as u8, 200]));
    let mut out = std::io::Cursor::new(Vec::new());
    img.write_to(&mut out, image::ImageOutputFormat::Png).unwrap();
    out.into_inner()
}

fn stored(selection: Option<usize>, num_tiles: usize) -> PersistedState {
    PersistedState { label: "saved".to_owned(), tile_selection: selection, num_tiles }
}

#[test]
fn slice_counts_whole_tiles_and_copies_each_square() {
    let s = sheet(70, 16);
    let tiles = slice(&s, 16);
    assert_eq!(tiles.len(), 4);
    for (i, tile) in tiles.iter().enumerate() {
        assert_eq!(tile.edge, 16);
        assert_eq!(tile.pixels.len(), 3 * 16 * 16);
        for row in 0..16usize {
            for b in 0..48usize {
                let col = i * 16 + b / 3;
                assert_eq!(tile.pixels[row * 48 + b], s.pixels[row * 70 * 3 + col * 3 + b % 3]);
            }
        }
        assert_eq!(tile.pixels[0], (i * 16) as u8);
        assert_eq!(tile.pixels[2], i as u8);
    }
}

#[test]
fn slice_narrow_sheet_is_empty() {
    let s = sheet(15, 16);
    assert!(slice(&s, 16).is_empty());
}

#[test]
fn slice_reads_only_the_top_row_of_tiles() {
    let s = sheet(32, 20);
    let tiles = slice(&s, 16);
    assert_eq!(tiles.len(), 2);
    assert_eq!(tiles[1].pixels[15 * 48], 16);
    assert_eq!(tiles[1].pixels[15 * 48 + 1], 15);
}

#[test]
fn from_rgb_rejects_short_buffer() {
    assert!(SpriteSheet::from_rgb(4, 4, vec![0u8; 47]).is_none());
    assert!(SpriteSheet::from_rgb(4, 4, vec![0u8; 48]).is_some());
    assert!(SpriteSheet::from_rgb(0, 0, Vec::new()).is_some());
}

#[test]
fn decode_reads_png_pixels() {
    let s = SpriteSheet::decode(&png(64, 16)).unwrap();
    assert_eq!((s.width, s.height), (64, 16));
    assert_eq!(s.pixels.len(), 64 * 16 * 3);
    assert_eq!(&s.pixels[0..3], &[0, 0, 200]);
    let at = (5 * 64 + 33) * 3;
    assert_eq!(&s.pixels[at..at + 3], &[33, 5, 200]);
}

#[test]
fn decode_rejects_garbage() {
    assert_eq!(SpriteSheet::decode(b"not an image").err(), Some(DecodeError::Undecodable));
}

#[test]
fn toggle_twice_clears() {
    let mut s = SelectionState::new();
    s.toggle(3);
    assert_eq!(s.selected(), Some(3));
    s.toggle(3);
    assert_eq!(s.selected(), None);
}

#[test]
fn toggle_other_replaces() {
    let mut s = SelectionState::new();
    s.toggle(1);
    s.toggle(2);
    assert_eq!(s.selected(), Some(2));
    assert!(s.is_selected(2));
    assert!(!s.is_selected(1));
}

#[test]
fn restore_drops_out_of_range_index() {
    assert_eq!(SelectionState::restore(Some(1), 4).selected(), Some(1));
    assert_eq!(SelectionState::restore(Some(1), 1).selected(), None);
    assert_eq!(SelectionState::restore(None, 4).selected(), None);
}

#[test]
fn cache_uploads_each_tile_once() {
    let ctx = egui::Context::default();
    let mut cache = TextureCache::from_sheet(&sheet(48, 16), 16);
    assert_eq!(cache.len(), 3);
    let first = cache.get_or_create(&ctx, 1).clone();
    let second = cache.get_or_create(&ctx, 1).clone();
    assert!(first == second);
    assert_eq!(first.id(), second.id());
    let other = cache.get_or_create(&ctx, 2).clone();
    assert_ne!(first.id(), other.id());
    assert_eq!(first.size(), [16, 16]);
}

#[test]
fn end_to_end_clicks_on_a_four_tile_sheet() {
    let mut app = WfcApp::new(None, &png(64, 16)).ok().unwrap();
    assert_eq!(app.num_tiles(), 4);
    assert_eq!(app.label(), "Hello World!");
    assert_eq!(app.tile_selection(), None);
    app.click(2);
    assert_eq!(app.tile_selection(), Some(2));
    assert!(app.is_selected(2));
    app.click(2);
    assert_eq!(app.tile_selection(), None);
    app.click(2);
    app.click(0);
    assert_eq!(app.tile_selection(), Some(0));
}

#[test]
fn app_texture_is_created_once() {
    let ctx = egui::Context::default();
    let mut app = WfcApp::new(None, &png(64, 16)).ok().unwrap();
    let a = app.texture(&ctx, 3).id();
    let b = app.texture(&ctx, 3).id();
    assert_eq!(a, b);
}

#[test]
fn persisted_selection_survives_same_sheet() {
    let mut app = WfcApp::new(None, &png(64, 16)).ok().unwrap();
    app.click(1);
    let saved = app.persisted();
    assert_eq!(saved.tile_selection, Some(1));
    assert_eq!(saved.num_tiles, 4);
    let reloaded = WfcApp::new(Some(saved), &png(64, 16)).ok().unwrap();
    assert_eq!(reloaded.tile_selection(), Some(1));
}

#[test]
fn persisted_selection_reset_on_smaller_sheet() {
    let reloaded = WfcApp::new(Some(stored(Some(1), 4)), &png(16, 16)).ok().unwrap();
    assert_eq!(reloaded.num_tiles(), 1);
    assert_eq!(reloaded.tile_selection(), None);
    assert_eq!(reloaded.label(), "saved");
}

#[test]
fn new_rejects_undecodable_bytes() {
    assert_eq!(WfcApp::new(None, &[1, 2, 3]).err(), Some(DecodeError::Undecodable));
}

#[test]
fn new_rejects_sheet_shorter_than_tile() {
    assert_eq!(WfcApp::new(None, &png(64, 8)).err(), Some(DecodeError::ShorterThanTile));
    assert_eq!(TILE_SIZE, 16);
}

#[test]
fn default_state_has_label_and_no_selection() {
    let d = PersistedState::default();
    assert_eq!(d.label, "Hello World!");
    assert_eq!(d.tile_selection, None);
    assert_eq!(d.num_tiles, 0);
}

#[test]
fn new_accepts_sheet_narrower_and_shorter_than_tile() {
    let app = WfcApp::new(None, &png(8, 8)).ok().unwrap();
    assert_eq!(app.num_tiles(), 0);
    assert_eq!(app.tile_selection(), None);
    assert_eq!(app.persisted().num_tiles, 0);
}

#[test]
fn slice_narrow_short_sheet_is_empty() {
    let s = sheet(8, 8);
    assert!(slice(&s, 16).is_empty());
    let cache = TextureCache::from_sheet(&s, 16);
    assert_eq!(cache.len(), 0);
}
