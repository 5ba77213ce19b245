use std::collections::HashMap;

use cadrum::boolean::inherited_colors;
use cadrum::color::{color_of, colors_from_lists, colors_to_lists, copied_colors, extend_colors, remap_colormap, remap_colormap_by_order, Color};
use cadrum::io::read_archived_colors;
use cadrum::kernel::{Shape, ShapeKind};
use cadrum::mesh::{colors_of_faces, paint_faces};
use cadrum::solid::Solid;
use cadrum::trailer::{place_colors, read_color_trailer, trailer_ids, write_color_trailer};

fn color(r: f32, g: f32, b: f32) -> Color {
    Color { r: r.to_bits(), g: g.to_bits(), b: b.to_bits() }
}

fn red() -> Color {
    color(1.0, 0.0, 0.0)
}

fn blue() -> Color {
    color(0.0, 0.0, 1.0)
}

fn green() -> Color {
    color(0.0, 1.0, 0.0)
}

fn map(entries: &[(u64, Color)]) -> HashMap<u64, Color> {
    entries.iter().copied().collect()
}

#[test]
fn later_colors_win() {
    let mut colors = map(&[(1, red()), (2, red())]);
    extend_colors(&mut colors, &map(&[(2, blue()), (3, blue())]));
    assert_eq!(colors, map(&[(1, red()), (2, blue()), (3, blue())]));
    assert_eq!(copied_colors(&colors), colors);
    assert_eq!((color_of(&colors, 2), color_of(&colors, 4)), (Some(blue()), None));
}

#[test]
fn colors_follow_faces_by_place() {
    let old = map(&[(10, red()), (12, blue()), (7, green()), (99, red())]);
    assert_eq!(remap_colormap_by_order(7, &[10, 11, 12], 8, &[20, 21, 22], &old), map(&[(20, red()), (22, blue()), (8, green())]));
    assert_eq!(remap_colormap_by_order(6, &[10, 11, 12], 8, &[20], &old), map(&[(20, red())]));
}

#[test]
fn colors_follow_faces_by_derivation() {
    let old = map(&[(10, red()), (12, blue()), (7, green())]);
    assert_eq!(remap_colormap(7, 8, &[20, 10, 21, 11, 22, 12, 23, 12, 24], &old), map(&[(20, red()), (22, blue()), (23, blue()), (8, green())]));
    assert_eq!(remap_colormap(7, 8, &[20, 10, 20, 12], &old), map(&[(20, blue()), (8, green())]));
}

fn solid(id: u64, colors: &[(u64, Color)]) -> Solid<u8> {
    Solid::new(Shape { handle: 0, id, kind: ShapeKind::Solid }, map(colors), Vec::new())
}

#[test]
fn operands_hand_on_the_first_color() {
    let operands = vec![solid(1, &[(10, red())]), solid(2, &[(10, blue()), (11, blue())])];
    assert_eq!(inherited_colors(&vec![20, 10, 21, 11, 22, 12, 20, 11], &operands), map(&[(20, red()), (21, blue())]));
}

#[test]
fn listed_colors_come_back() {
    let colors = map(&[(5, red()), (6, green()), (7, blue())]);
    let (ids, channels) = colors_to_lists(&colors);
    assert_eq!((ids.len(), channels.len()), (3, 9));
    assert_eq!(colors_from_lists(&ids, &channels), colors);
    assert_eq!(colors_from_lists(&[1, 2, 1], &[1, 2, 3, 4, 5, 6, 7, 8, 9]), map(&[(1, Color { r: 7, g: 8, b: 9 }), (2, Color { r: 4, g: 5, b: 6 })]));
    assert_eq!(colors_from_lists(&[1, 2], &[1, 2, 3, 4, 5]), map(&[(1, Color { r: 1, g: 2, b: 3 })]));
}

#[test]
fn trailers_have_their_bytes() {
    let ids = trailer_ids(&[1], &[10, 11]);
    assert_eq!(ids, [1, 10, 11]);
    let bytes = write_color_trailer(&ids, &map(&[(11, red()), (1, blue()), (77, green())]));
    let mut expected = b"CDCL".to_vec();
    expected.extend_from_slice(&2u32.to_le_bytes());
    expected.extend_from_slice(&0u32.to_le_bytes());
    for channel in [0.0f32, 0.0, 1.0] {
        expected.extend_from_slice(&channel.to_le_bytes());
    }
    expected.extend_from_slice(&2u32.to_le_bytes());
    for channel in [1.0f32, 0.0, 0.0] {
        expected.extend_from_slice(&channel.to_le_bytes());
    }
    assert_eq!(bytes, expected);
    assert!(write_color_trailer(&ids, &map(&[(77, green())])).is_empty());
}

#[test]
fn trailers_come_back() {
    let ids = [1, 10, 11, 10];
    let colors = map(&[(1, blue()), (10, red())]);
    let mut bytes = write_color_trailer(&ids, &colors);
    bytes.extend_from_slice(b"appended");
    let indexed = read_color_trailer(&bytes);
    assert_eq!(indexed, HashMap::from([(0, blue()), (3, red())]));
    assert_eq!(place_colors(&indexed, &[2, 20, 21, 20]), map(&[(2, blue()), (20, red())]));
    assert_eq!(place_colors(&indexed, &[2]), map(&[(2, blue())]));

    let mut archive = b"payload".to_vec();
    archive.extend_from_slice(&bytes);
    assert_eq!(read_archived_colors(&archive, 7, &vec![2, 20, 21, 20]), map(&[(2, blue()), (20, red())]));
    assert!(read_archived_colors(&archive, 6, &vec![2, 20, 21, 20]).is_empty());
    assert!(read_archived_colors(&archive, usize::MAX, &vec![2, 20, 21, 20]).is_empty());
}

#[test]
fn other_bytes_are_no_trailer() {
    let bytes = write_color_trailer(&[1], &map(&[(1, blue())]));
    for cut in 0..bytes.len() {
        assert!(read_color_trailer(&bytes[..cut]).is_empty(), "{cut}");
    }
    let mut other = bytes.clone();
    other[0] = b'X';
    assert!(read_color_trailer(&other).is_empty());
    let mut many = bytes.clone();
    many[4..8].copy_from_slice(&u32::MAX.to_le_bytes());
    assert!(read_color_trailer(&many).is_empty());
}

#[test]
fn face_colors_win_over_the_color_of_the_solid() {
    let mut faces = map(&[(30, green())]);
    paint_faces(&mut faces, &map(&[(1, red()), (10, blue())]), 1, &vec![10, 11]);
    assert_eq!(faces, map(&[(30, green()), (1, red()), (10, blue()), (11, red())]));
    assert_eq!(colors_of_faces(&vec![11, 12, 11], &faces), map(&[(11, red())]));
}
