use xbrstudio::cube::{neighbor_edge, Edge};
use xbrstudio::model::{FaceRect, ModelFace};
use xbrstudio::raster::{Rgba, RgbaImage};
use xbrstudio::tile::{build_padded_tile, face_border_tile, floor_border_alpha, FaceGroup};
use xbrstudio::upscaling::{
    box_count, upscale_image, upscale_wrapped, wrap_tile, UpscaleConfig,
};

fn named(name: &str, rect: FaceRect) -> ModelFace {
    ModelFace { texture: String::new(), rect, face: name.into(), group: 0 }
}

fn face(x: u32, y: u32, width: u32, height: u32) -> ModelFace {
    named("north", FaceRect { x, y, width, height })
}

/// A cube of two pixels along every axis on an 8x4 image where the pixel at
/// `(x, y)` is `(x, y, 0, 255)`.
fn box_fixture() -> (RgbaImage, Vec<ModelFace>) {
    let mut image = RgbaImage::new(8, 4);
    for y in 0..4 {
        for x in 0..8 {
            image.put_pixel(x, y, Rgba::new(x as u8, y as u8, 0, 255));
        }
    }
    let rect = |x, y, width, height| FaceRect { x, y, width, height };
    let faces = vec![
        named("down", rect(2, 0, 2, 2)),
        named("up", rect(4, 0, 2, 2)),
        named("east", rect(4, 2, 2, 2)),
        named("north", rect(2, 2, 2, 2)),
        named("west", rect(0, 2, 2, 2)),
        named("south", rect(6, 2, 2, 2)),
    ];
    (image, faces)
}

fn group_map(faces: &[ModelFace]) -> FaceGroup {
    FaceGroup::last_of(faces, 0)
}

#[test]
fn validates_factor() {
    assert!(UpscaleConfig { factor: 1, stitch_faces: false }.validate().is_err());
    assert!(UpscaleConfig { factor: 6, stitch_faces: true }.validate().is_ok());
}

#[test]
fn neighbor_table_covers_all_faces() {
    for name in ["down", "up", "west", "north", "east", "south"] {
        for edge in [Edge::Top, Edge::Bottom, Edge::Left, Edge::Right] {
            assert!(neighbor_edge(name, edge).is_some(), "missing neighbor for {name}/{edge:?}");
        }
    }
}

#[test]
fn neighbor_table_is_symmetric() {
    for name in ["down", "up", "west", "north", "east", "south"] {
        for edge in [Edge::Top, Edge::Bottom, Edge::Left, Edge::Right] {
            let (neighbor, n_edge, rev) = neighbor_edge(name, edge).unwrap();
            let (back, back_edge, back_rev) = neighbor_edge(neighbor, n_edge).unwrap();
            assert_eq!((back, back_edge, back_rev), (name, edge, rev));
        }
    }
}

#[test]
fn unknown_faces_have_no_neighbors() {
    assert!(neighbor_edge("diagonal", Edge::Top).is_none());
    assert_eq!(neighbor_edge("east", Edge::Top), Some(("down", Edge::Right, true)));
}

#[test]
fn builds_tile_with_neighbor_strips() {
    let (image, faces) = box_fixture();
    let group = group_map(&faces);
    let find = |name: &str| faces.iter().find(|face| face.face == name).unwrap();

    // west.Top comes from down's left column (atlas row 0): src(2,0),(2,1).
    let west = build_padded_tile(&image, find("west"), &group, 1);
    assert_eq!(west.dimensions(), (4, 4));
    assert_eq!(west.get_pixel(1, 0), Rgba::new(2, 0, 0, 255));
    assert_eq!(west.get_pixel(2, 0), Rgba::new(2, 1, 0, 255));

    // south.Right comes from west's left column (far across the atlas):
    // src(0,2),(0,3).
    let south = build_padded_tile(&image, find("south"), &group, 1);
    assert_eq!(south.get_pixel(3, 1), Rgba::new(0, 2, 0, 255));
    assert_eq!(south.get_pixel(3, 2), Rgba::new(0, 3, 0, 255));

    // down.Right comes from east's top row, reversed: src(5,2),src(4,2).
    let down = build_padded_tile(&image, find("down"), &group, 1);
    assert_eq!(down.get_pixel(3, 1), Rgba::new(5, 2, 0, 255));
    assert_eq!(down.get_pixel(3, 2), Rgba::new(4, 2, 0, 255));

    // Corner: west's top-left corner uses down's left column start.
    assert_eq!(west.get_pixel(0, 0), Rgba::new(2, 0, 0, 255));
}

#[test]
fn lone_face_missing_neighbors_stay_empty() {
    let (image, faces) = box_fixture();
    let north = faces.iter().find(|face| face.face == "north").unwrap().clone();
    let group = group_map(&[north.clone()]);
    let tile = build_padded_tile(&image, &north, &group, 1);
    for i in 0..north.rect.width {
        assert_eq!(tile.get_pixel(i + 1, 0).a, 0, "top border i={i} stays empty");
        assert_eq!(
            tile.get_pixel(i + 1, tile.height() - 1).a,
            0,
            "bottom border i={i} stays empty"
        );
    }
    for i in 0..north.rect.height {
        assert_eq!(tile.get_pixel(0, i + 1).a, 0, "left border i={i}");
        assert_eq!(tile.get_pixel(tile.width() - 1, i + 1).a, 0, "right border i={i}");
    }
    assert_eq!(tile.get_pixel(1, 1).a, image.get_pixel(north.rect.x, north.rect.y).a);
}

#[test]
fn upscales_dimensions() {
    let image = RgbaImage::from_pixel(4, 4, Rgba::new(10, 20, 30, 255));
    let config = UpscaleConfig { factor: 4, stitch_faces: false };
    let output = upscale_image(&image, None, &config).unwrap();
    assert_eq!(output.dimensions(), (16, 16));
}

#[test]
fn wrap_tile_fills_border_from_opposite_edges_and_corners() {
    // Encode x * 10 + y in the red channel of a 3x2 texture.
    let mut image = RgbaImage::new(3, 2);
    for y in 0..2 {
        for x in 0..3 {
            image.put_pixel(x, y, Rgba::new(x as u8 * 10 + y as u8, 0, 0, 255));
        }
    }
    let padded = wrap_tile(&image);
    assert_eq!(padded.dimensions(), (5, 4));
    let red = |x: u32, y: u32| padded.get_pixel(x, y).r;
    // Interior passthrough: padded(1,1) = src(0,0).
    assert_eq!(red(1, 1), 0);
    // Top edge gets the bottom row: padded(2,0) = src(1,1).
    assert_eq!(red(2, 0), 11);
    // Bottom edge gets the top row: padded(2,3) = src(1,0).
    assert_eq!(red(2, 3), 10);
    // Left edge gets the right column: padded(0,1) = src(2,0).
    assert_eq!(red(0, 1), 20);
    // Right edge gets the left column: padded(4,1) = src(0,0).
    assert_eq!(red(4, 1), 0);
    // Corners: opposite corner of the texture.
    assert_eq!(red(0, 0), 21); // = src(2,1)
    assert_eq!(red(4, 0), 1); // = src(0,1)
    assert_eq!(red(0, 3), 20); // = src(2,0)
    assert_eq!(red(4, 3), 0); // = src(0,0)
}

#[test]
fn upscale_wrapped_matches_plain_dimensions() {
    let image = RgbaImage::from_pixel(4, 4, Rgba::new(10, 20, 30, 255));
    let output = upscale_wrapped(&image, 4).unwrap();
    assert_eq!(output.dimensions(), (16, 16));

    let single = RgbaImage::from_pixel(1, 1, Rgba::new(1, 2, 3, 4));
    let output = upscale_wrapped(&single, 2).unwrap();
    assert_eq!(output.dimensions(), (2, 2));
    assert_eq!(output.get_pixel(0, 0), Rgba::new(1, 2, 3, 4));
}

#[test]
fn box_faces_stitch_dims_and_border_context() {
    let (image, faces) = box_fixture();
    let config = UpscaleConfig { factor: 4, stitch_faces: true };
    let stitched = upscale_image(&image, Some(&faces), &config).unwrap();
    assert_eq!(stitched.dimensions(), (32, 16));

    let plain =
        upscale_image(&image, None, &UpscaleConfig { factor: 4, stitch_faces: false }).unwrap();
    // down occupies dest x8..15, y0..7: its border rows/columns must use
    // neighbor context, so the stitched output differs from plain xBRZ
    // somewhere inside that box.
    let mut differs = false;
    for y in 0..8 {
        for x in 8..16 {
            if stitched.get_pixel(x, y) != plain.get_pixel(x, y) {
                differs = true;
            }
        }
    }
    assert!(differs, "stitched face border should use neighbor context");

    assert_eq!(box_count(&faces), 1);
    let mut second = face(0, 4, 2, 2);
    second.group = 1;
    assert_eq!(box_count(&[face(0, 0, 2, 2), second]), 2);

    // Pixels outside all faces keep the plain-xBRZ base, and the source pixel
    // there is opaque.
    assert_eq!(stitched.get_pixel(0, 0).a, 255, "non-face pixel keeps plain-xBRZ base");
}

#[test]
fn border_alpha_never_drops_below_face_edge() {
    // Left 2x2 opaque green, right 2x2 transparent: two faces sharing the
    // vertical seam at x=2.
    let mut image = RgbaImage::new(4, 4);
    for y in 0..4 {
        for x in 0..2 {
            image.put_pixel(x, y, Rgba::new(10, 200, 30, 255));
        }
        for x in 2..4 {
            image.put_pixel(x, y, Rgba::new(0, 0, 0, 0));
        }
    }
    let west = named("west", FaceRect { x: 0, y: 0, width: 2, height: 4 });
    let north = named("north", FaceRect { x: 2, y: 0, width: 2, height: 4 });
    let group = group_map(&[west.clone(), north]);
    let tile = build_padded_tile(&image, &west, &group, 1);
    for y in 1..tile.height() - 1 {
        let a = tile.get_pixel(tile.width() - 1, y).a;
        assert_eq!(a, 255, "right border y={y} alpha={a}");
    }
}

#[test]
fn missing_neighbor_border_stays_empty_not_atlas_outside() {
    let mut image = RgbaImage::new(6, 6);
    for x in 0..6 {
        image.put_pixel(x, 1, Rgba::new(220, 80, 140, 255)); // atlas row above face
    }
    image.put_pixel(2, 3, Rgba::new(220, 80, 140, 255));
    let north = named("north", FaceRect { x: 1, y: 2, width: 4, height: 2 });
    let group = group_map(&[north.clone()]);
    let tile = build_padded_tile(&image, &north, &group, 1);
    for x in 0..4 {
        assert_eq!(tile.get_pixel(x + 1, 0).a, 0, "top border x={x} empty");
    }
    for x in 0..4 {
        assert_eq!(tile.get_pixel(x + 1, tile.height() - 1).a, 0, "bottom border x={x} empty");
    }
}

#[test]
fn factor_errors_name_the_range() {
    let image = RgbaImage::from_pixel(2, 2, Rgba::new(1, 2, 3, 255));
    for factor in [0, 1, 7] {
        let config = UpscaleConfig { factor, stitch_faces: false };
        assert_eq!(
            upscale_image(&image, None, &config).unwrap_err(),
            "factor must be between 2 and 6"
        );
        assert_eq!(
            upscale_wrapped(&image, factor).unwrap_err(),
            "factor must be between 2 and 6"
        );
    }
}

#[test]
fn stitching_wants_faces() {
    let image = RgbaImage::from_pixel(2, 2, Rgba::new(1, 2, 3, 255));
    let config = UpscaleConfig { factor: 2, stitch_faces: true };
    assert_eq!(
        upscale_image(&image, None, &config).unwrap_err(),
        "stitching requires model faces"
    );
    assert_eq!(
        upscale_image(&image, Some(&[]), &config).unwrap_err(),
        "stitching requires at least one model face"
    );
}

#[test]
fn wrapping_wants_pixels() {
    let image = RgbaImage::new(0, 3);
    assert_eq!(upscale_wrapped(&image, 2).unwrap_err(), "cannot wrap a zero-size texture");
}

#[test]
fn xbrz_grows_the_image_and_keeps_flat_colors_inside() {
    let image = RgbaImage::from_pixel(5, 7, Rgba::new(9, 8, 7, 255));
    let output =
        upscale_image(&image, None, &UpscaleConfig { factor: 3, stitch_faces: false }).unwrap();
    assert_eq!(output.dimensions(), (15, 21));
    for y in 6..15 {
        for x in 6..9 {
            assert_eq!(output.get_pixel(x, y), Rgba::new(9, 8, 7, 255));
        }
    }
}

#[test]
fn unreferenced_pixels_keep_the_plain_upscale() {
    let (image, _) = box_fixture();
    let faces = [face(2, 0, 2, 2)];
    let stitched =
        upscale_image(&image, Some(&faces), &UpscaleConfig { factor: 2, stitch_faces: true })
            .unwrap();
    let plain =
        upscale_image(&image, None, &UpscaleConfig { factor: 2, stitch_faces: false }).unwrap();
    for y in 0..8 {
        for x in 0..16 {
            if !(4..8).contains(&x) || y >= 4 {
                assert_eq!(stitched.get_pixel(x, y), plain.get_pixel(x, y));
            }
        }
    }
}

#[test]
fn the_last_of_two_faces_shows() {
    let (image, faces) = box_fixture();
    let config = UpscaleConfig { factor: 2, stitch_faces: true };
    let mut first = faces[0].clone();
    first.group = 1;
    let both = [first, faces[0].clone()];
    let only = [faces[0].clone()];
    let overlaid = upscale_image(&image, Some(&both), &config).unwrap();
    let single = upscale_image(&image, Some(&only), &config).unwrap();
    for y in 0..4 {
        for x in 4..8 {
            assert_eq!(overlaid.get_pixel(x, y), single.get_pixel(x, y));
        }
    }
}

#[test]
fn faces_beyond_the_texture_are_not_painted() {
    let (image, _) = box_fixture();
    let faces = [face(8, 0, 2, 2), face(0, 4, 2, 2), face(0, 0, 0, 2)];
    let stitched =
        upscale_image(&image, Some(&faces), &UpscaleConfig { factor: 2, stitch_faces: true })
            .unwrap();
    let plain =
        upscale_image(&image, None, &UpscaleConfig { factor: 2, stitch_faces: false }).unwrap();
    assert_eq!(stitched.to_raw(), plain.to_raw());
}

#[test]
fn face_border_tile_refuses_what_it_cannot_cut() {
    let (image, mut faces) = box_fixture();
    assert_eq!(
        face_border_tile(&image, &faces, 6, 1).unwrap_err(),
        "face index 6 out of range"
    );
    assert_eq!(
        face_border_tile(&image, &faces, 0, 0).unwrap_err(),
        "border must be at least 1"
    );
    faces[0].rect.width = 0;
    assert_eq!(
        face_border_tile(&image, &faces, 0, 1).unwrap_err(),
        "cannot border a zero-size face"
    );
}

#[test]
fn wide_borders_walk_into_the_neighbors() {
    let (image, faces) = box_fixture();
    let tile = face_border_tile(&image, &faces, 4, 2).unwrap();
    assert_eq!(tile.dimensions(), (6, 6));
    // west.Top continues into down's columns, from its left one inward.
    assert_eq!(tile.get_pixel(2, 1), Rgba::new(2, 0, 0, 255));
    assert_eq!(tile.get_pixel(2, 0), Rgba::new(3, 0, 0, 255));
    // The interior is the face itself.
    assert_eq!(tile.get_pixel(2, 2), Rgba::new(0, 2, 0, 255));
    assert_eq!(tile.get_pixel(3, 3), Rgba::new(1, 3, 0, 255));
}

#[test]
fn border_alpha_is_floored() {
    let edge = Rgba::new(1, 2, 3, 200);
    assert_eq!(floor_border_alpha(Rgba::new(9, 9, 9, 255), edge), Rgba::new(9, 9, 9, 255));
    assert_eq!(floor_border_alpha(Rgba::new(9, 9, 9, 0), edge), edge);
    assert_eq!(floor_border_alpha(Rgba::new(9, 9, 9, 50), edge), Rgba::new(9, 9, 9, 200));
}

#[test]
fn images_keep_their_bytes() {
    let bytes: Vec<u8> = (0..24).collect();
    let image = RgbaImage::from_raw(3, 2, &bytes).unwrap();
    assert_eq!(image.get_pixel(2, 1), Rgba::new(20, 21, 22, 23));
    assert_eq!(image.to_raw(), bytes);
    assert!(RgbaImage::from_raw(3, 3, &bytes).is_none());
    let part = image.crop(1, 0, 5, 1);
    assert_eq!(part.dimensions(), (2, 1));
    assert_eq!(part.get_pixel(0, 0), Rgba::new(4, 5, 6, 7));
    let mut sheet = RgbaImage::new(2, 2);
    sheet.paste(&part, 1, 1);
    assert_eq!(sheet.get_pixel(1, 1), Rgba::new(4, 5, 6, 7));
    assert_eq!(sheet.get_pixel(0, 1), Rgba::clear());
}

#[test]
fn other_boxes_lend_no_pixels() {
    let (image, faces) = box_fixture();
    let mut mixed = faces.clone();
    for face in &mut mixed[1..] {
        face.group = 1;
    }
    let alone = face_border_tile(&image, &faces[..1], 0, 1).unwrap();
    let beside = face_border_tile(&image, &mixed, 0, 1).unwrap();
    assert_eq!(alone.to_raw(), beside.to_raw());
    let whole = face_border_tile(&image, &faces, 0, 1).unwrap();
    assert_ne!(alone.to_raw(), whole.to_raw());
}

#[test]
fn neighbors_are_found_among_the_faces_of_their_box() {
    let (image, faces) = box_fixture();
    let mut mixed = Vec::new();
    for face in &faces {
        let corner = FaceRect { x: 0, y: 0, width: 1, height: 1 };
        mixed.push(ModelFace { group: 1, ..named(&face.face, corner) });
        mixed.push(face.clone());
        mixed.push(ModelFace { group: 2, ..named(&face.face, corner) });
    }
    for index in 0..faces.len() {
        let alone = face_border_tile(&image, &faces, index, 2).unwrap();
        let beside = face_border_tile(&image, &mixed, 3 * index + 1, 2).unwrap();
        assert_eq!(alone.to_raw(), beside.to_raw());
    }
}

#[test]
fn images_are_built_pixel_by_pixel() {
    let image = RgbaImage::from_fn(3, 2, |x, y| Rgba::new(x as u8, y as u8, 0, 255));
    assert_eq!(image.dimensions(), (3, 2));
    assert_eq!(image.get_pixel(2, 0), Rgba::new(2, 0, 0, 255));
    assert_eq!(image.get_pixel(0, 1), Rgba::new(0, 1, 0, 255));
    assert_eq!(RgbaImage::from_fn(0, 5, |_, _| Rgba::clear()).dimensions(), (0, 5));
}
