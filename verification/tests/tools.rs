use xbrstudio::limits::{can_magnify, can_pad, can_scale, can_slice, can_stitch, can_wrap};
use xbrstudio::model::{FaceRect, ModelFace};
use xbrstudio::overlay::{
    blend, count_on_axis, face_axis, face_fill_colors, mark_faces, name_slice, outline_pixel,
    outline_tile, overlay_faces, slice_face, Axis,
};
use xbrstudio::raster::{Rgba, RgbaImage};

fn face(name: &str) -> ModelFace {
    ModelFace {
        texture: String::new(),
        rect: FaceRect { x: 0, y: 0, width: 1, height: 1 },
        face: name.into(),
        group: 0,
    }
}

#[test]
fn outline_blends_instead_of_replacing() {
    let base = Rgba::new(10, 20, 30, 255);
    let out = outline_pixel(base);
    assert_ne!(out.r, base.r);
    assert_ne!(out.g, base.g);
    // Magenta-dominant blend: red and blue rise, green falls toward 0.
    assert!(out.r > base.r);
    assert!(out.b > base.b);
    assert!(out.g < base.g);
    // Still recognizably the base texture, not pure magenta.
    assert!(out.r < 255 && out.g > 0);
    assert_eq!(out.a, 255);
}

#[test]
fn outline_keeps_alpha() {
    let out = outline_pixel(Rgba::new(0, 0, 0, 200));
    assert_eq!(out.a, 200);
}

#[test]
fn face_rect_fields_are_readable_for_naming() {
    let rect = FaceRect { x: 6, y: 6, width: 8, height: 8 };
    let name = format!("g0_north_{}x{}_{}x{}", rect.x, rect.y, rect.width, rect.height);
    assert_eq!(name, "g0_north_6x6_8x8");
}

#[test]
fn colors_follow_face_normal_axis() {
    let colors = face_fill_colors(&[face("east"), face("west"), face("up"), face("north")]);
    assert_eq!(colors[0], [0xFF, 0, 0]);
    assert_eq!(colors[1], [0x88, 0, 0]);
    assert_eq!(colors[2], [0, 0xFF, 0]);
    assert_eq!(colors[3], [0, 0, 0xFF]);
}

#[test]
fn shades_spread_from_full_to_dim_within_axis() {
    let colors = face_fill_colors(&[face("up"), face("down"), face("up")]);
    assert_eq!(colors[0][1], 0xFF);
    assert_eq!(colors[2][1], 0x88);
    assert!(colors[1][1] < colors[0][1] && colors[1][1] > colors[2][1]);
}

#[test]
fn every_face_has_a_color_of_its_own() {
    let mut faces: Vec<ModelFace> = (0..120).map(|_| face("up")).collect();
    faces.extend([face("east"), face("west"), face("south"), face("diagonal")]);
    let colors = face_fill_colors(&faces);
    for later in 0..colors.len() {
        for earlier in 0..later {
            assert_ne!(colors[earlier], colors[later]);
        }
    }
    assert_eq!(colors[1], [0, 0xFE, 0]);
    assert_eq!(colors[119], [0, 0x88, 0]);
    let crowded: Vec<ModelFace> = (0..121).map(|_| face("up")).collect();
    let colors = face_fill_colors(&crowded);
    assert_eq!(colors[0], colors[1]);
}

#[test]
fn lone_face_stays_full_brightness() {
    let colors = face_fill_colors(&[face("south")]);
    assert_eq!(colors, vec![[0, 0, 0xFF]]);
}

#[test]
fn unknown_face_falls_back_to_gray() {
    let colors = face_fill_colors(&[face("diagonal")]);
    assert_eq!(colors, vec![[0xFF, 0xFF, 0xFF]]);
}

#[test]
fn blending_is_the_rounded_weighted_mean() {
    let weight: f32 = 0.55;
    for base in 0..=255u8 {
        for fill in std::iter::once(0).chain(0x88..=0xFFu8) {
            let exact = (base as f32 * (1.0 - weight) + fill as f32 * weight).round() as u8;
            assert_eq!(blend(base, fill), exact, "base {base}, fill {fill}");
        }
    }
}

#[test]
fn axes_are_told_by_name() {
    assert_eq!(face_axis("west"), Axis::X);
    assert_eq!(face_axis("down"), Axis::Y);
    assert_eq!(face_axis("south"), Axis::Z);
    assert_eq!(face_axis("top"), Axis::Other);
    assert_eq!(count_on_axis(&[face("up"), face("east"), face("down")], Axis::Y, 3), 2);
}

#[test]
fn overlays_tint_each_face_over_the_last() {
    let image = RgbaImage::from_pixel(3, 1, Rgba::new(100, 100, 100, 77));
    let mut east = face("east");
    east.rect = FaceRect { x: 0, y: 0, width: 2, height: 1 };
    let mut up = face("up");
    up.rect = FaceRect { x: 1, y: 0, width: 9, height: 9 };
    let marked = overlay_faces(&image, &[east, up]);
    assert_eq!(marked.get_pixel(0, 0), Rgba::new(185, 45, 45, 77));
    assert_eq!(
        marked.get_pixel(1, 0),
        Rgba::new(blend(185, 0), blend(45, 255), blend(45, 0), 77)
    );
    assert_eq!(marked.get_pixel(2, 0), Rgba::new(45, 185, 45, 77));
}

#[test]
fn marking_magnifies() {
    let image = RgbaImage::from_pixel(2, 1, Rgba::new(0, 0, 0, 255));
    let marked = mark_faces(&image, &[face("east")], 2);
    assert_eq!(marked.dimensions(), (4, 2));
    for y in 0..2 {
        assert_eq!(marked.get_pixel(0, y), Rgba::new(140, 0, 0, 255));
        assert_eq!(marked.get_pixel(1, y), Rgba::new(140, 0, 0, 255));
        assert_eq!(marked.get_pixel(2, y), Rgba::new(0, 0, 0, 255));
    }
}

#[test]
fn outlines_run_along_the_face() {
    let tile = RgbaImage::from_pixel(5, 5, Rgba::new(0, 0, 0, 9));
    let marked = outline_tile(&tile, 1, 3, 3);
    let once = outline_pixel(Rgba::new(0, 0, 0, 9));
    let twice = outline_pixel(once);
    assert_eq!(marked.get_pixel(0, 0), Rgba::new(0, 0, 0, 9));
    assert_eq!(marked.get_pixel(2, 2), Rgba::new(0, 0, 0, 9));
    assert_eq!(marked.get_pixel(2, 1), once);
    assert_eq!(marked.get_pixel(3, 2), once);
    assert_eq!(marked.get_pixel(1, 1), twice);
    let thin = outline_tile(&tile, 2, 1, 1);
    assert_eq!(thin.get_pixel(2, 2), outline_pixel(outline_pixel(twice)));
}

#[test]
fn slices_are_named_after_their_face() {
    let mut north = face("north");
    north.group = 3;
    north.rect = FaceRect { x: 6, y: 7, width: 8, height: 9 };
    assert_eq!(name_slice(5, &north), "05_g3_north_6x7_8x9.png");
    assert_eq!(name_slice(123, &north), "123_g3_north_6x7_8x9.png");
}

#[test]
fn slices_show_the_face_with_its_border() {
    let image = RgbaImage::from_pixel(4, 4, Rgba::new(50, 60, 70, 255));
    let mut north = face("north");
    north.rect = FaceRect { x: 1, y: 1, width: 2, height: 2 };
    let slice = slice_face(&image, &[north.clone()], 0, 1, 3).unwrap().unwrap();
    assert_eq!(slice.image.dimensions(), (12, 12));
    assert_eq!(slice.name, "00_g0_north_1x1_2x2.png");
    assert_eq!(slice.image.get_pixel(0, 0), Rgba::clear());
    let corner = outline_pixel(outline_pixel(Rgba::new(50, 60, 70, 255)));
    assert_eq!(slice.image.get_pixel(3, 3), corner);
    assert_eq!(
        slice_face(&image, &[north.clone()], 0, 0, 1).unwrap_err(),
        "border must be at least 1"
    );
    north.rect.width = 0;
    assert!(slice_face(&image, &[north], 0, 1, 1).unwrap().is_none());
}

#[test]
fn limits_are_told_before_they_are_met() {
    assert!(can_scale(64, 64, 6));
    assert!(!can_scale(u64::from(u32::MAX), 1, 2));
    assert!(can_wrap(16, 16, 4));
    assert!(!can_wrap(u32::MAX, 1, 2));
    assert!(can_pad(&FaceRect { x: 0, y: 0, width: 4, height: 4 }, 1));
    assert!(!can_pad(&FaceRect { x: u32::MAX, y: 0, width: 4, height: 4 }, 1));
    assert!(!can_pad(&FaceRect { x: 0, y: 0, width: 4, height: 4 }, 0));
    assert!(can_magnify(16, 16, 8));
    assert!(!can_magnify(1 << 31, 1, 2));
    let far = ModelFace {
        texture: String::new(),
        rect: FaceRect { x: 1, y: 1, width: u32::MAX, height: 1 },
        face: "up".into(),
        group: 0,
    };
    assert!(!can_stitch(&[far.clone()], 4, 4, 2));
    assert!(can_stitch(&[face("up")], 4, 4, 2));
    let image = RgbaImage::new(4, 4);
    assert!(!can_slice(&image, &[far], 0, 1, 1));
    assert!(can_slice(&image, &[face("up")], 0, 1, 1));
}
