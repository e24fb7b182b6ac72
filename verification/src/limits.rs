//! Tests of whether the machine can hold what an operation makes.
use crate::codec::scalable;
use crate::cube::Side;
use crate::model::{FaceRect, ModelFace};
use crate::overlay::{magnifiable, sliceable};
use crate::raster::RgbaImage;
use crate::tile::{first_group, first_rect, paddable, FaceGroup};
use crate::upscaling::{stitchable, valid_factor, visible, wrappable};
use vstd::prelude::*;

verus! {

/// Whether an image `factor` times as wide and high can be held.
pub fn can_scale(width: u64, height: u64, factor: u32) -> (can: bool)
    requires
        width <= u32::MAX + 2,
        height <= u32::MAX + 2,
    ensures
        can == scalable(width as int, height as int, factor as int),
{
    let most: u128 = u32::MAX as u128;
    assert(width * factor <= (u32::MAX + 2) * u32::MAX && height * factor <= (u32::MAX + 2)
        * u32::MAX) by (nonlinear_arith)
        requires
            width <= u32::MAX + 2,
            height <= u32::MAX + 2,
    ;
    let w: u128 = width as u128 * factor as u128;
    let h: u128 = height as u128 * factor as u128;
    if w > most || h > most {
        return false;
    }
    assert(w * h * 4 <= u32::MAX * u32::MAX * 4) by (nonlinear_arith)
        requires
            w <= u32::MAX,
            h <= u32::MAX,
    ;
    assert(w * h <= u32::MAX * u32::MAX) by (nonlinear_arith)
        requires
            w <= u32::MAX,
            h <= u32::MAX,
    ;
    w * h * 4 <= isize::MAX as u128
}

/// Whether a texture and its self-tiling border can be scaled.
pub fn can_wrap(width: u32, height: u32, factor: u32) -> (can: bool)
    ensures
        can == wrappable(width as int, height as int, factor as int),
{
    can_scale(width as u64 + 2, height as u64 + 2, factor)
}

/// Whether the far edges of a rectangle are representable.
pub fn can_reach(rect: &FaceRect) -> (can: bool)
    ensures
        can == rect.ok(),
{
    rect.width <= u32::MAX - rect.x && rect.height <= u32::MAX - rect.y
}

/// Whether a face can be given a border.
pub fn can_pad(rect: &FaceRect, border: u32) -> (can: bool)
    ensures
        can == paddable(*rect, border as int),
{
    let most: u32 = 0x7fff_ffff;
    if !can_reach(rect) || border < 1 || border > most || rect.width > most || rect.height > most {
        return false;
    }
    if rect.width as u64 + border as u64 - 1 > most as u64 || rect.height as u64 + border as u64 - 1
        > most as u64 {
        return false;
    }
    let w: u128 = rect.width as u128 + 2 * border as u128;
    let h: u128 = rect.height as u128 + 2 * border as u128;
    assert(w * h <= 0x1_8000_0000 * 0x1_8000_0000) by (nonlinear_arith)
        requires
            w <= 0x1_8000_0000,
            h <= 0x1_8000_0000,
    ;
    w * h * 4 <= isize::MAX as u128
}

fn can_reach_some(rect: &Option<FaceRect>) -> (can: bool)
    ensures
        can == (rect matches Some(rect) ==> rect.ok()),
{
    match rect {
        Some(rect) => can_reach(rect),
        None => true,
    }
}

/// Whether the rectangles of a box are all representable.
fn can_reach_group(group: &FaceGroup) -> (can: bool)
    ensures
        can == group.ok(),
{
    let can = can_reach_some(&group.down) && can_reach_some(&group.up) && can_reach_some(
        &group.west,
    ) && can_reach_some(&group.north) && can_reach_some(&group.east) && can_reach_some(
        &group.south,
    );
    assert(group.rect(Side::Down) == group.down);
    assert(group.rect(Side::Up) == group.up);
    assert(group.rect(Side::West) == group.west);
    assert(group.rect(Side::North) == group.north);
    assert(group.rect(Side::East) == group.east);
    assert(group.rect(Side::South) == group.south);
    can
}

/// Whether the tiles of all visible faces can be made and scaled.
pub fn can_stitch(faces: &[ModelFace], width: u32, height: u32, factor: u32) -> (can: bool)
    ensures
        can == stitchable(faces@, width as int, height as int, factor as int),
{
    let mut i: usize = 0;
    while i < faces.len()
        invariant
            i <= faces.len(),
            forall|k: int|
                0 <= k < i && visible(
                    (#[trigger] faces@[k]).rect,
                    width as int,
                    height as int,
                ) ==> {
                    &&& paddable(faces@[k].rect, 1)
                    &&& scalable(
                        faces@[k].rect.width + 2,
                        faces@[k].rect.height + 2,
                        factor as int,
                    )
                    &&& first_group(faces@, faces@[k].group).ok()
                },
        decreases faces.len() - i,
    {
        let rect: FaceRect = faces[i].rect;
        if rect.width > 0 && rect.height > 0 && rect.x < width && rect.y < height {
            let can = can_pad(&rect, 1) && can_wrap(rect.width, rect.height, factor)
                && can_reach_group(&FaceGroup::first_of(faces, faces[i].group));
            if !can {
                assert(visible(faces@[i as int].rect, width as int, height as int));
                return false;
            }
        }
        i = i + 1;
    }
    true
}

pub proof fn lemma_smaller_scales(
    width: int,
    height: int,
    inner_width: int,
    inner_height: int,
    factor: int,
)
    requires
        0 <= inner_width <= width,
        0 <= inner_height <= height,
        factor >= 0,
        scalable(width, height, factor),
    ensures
        scalable(inner_width, inner_height, factor),
{
    assert(0 <= inner_width * factor <= width * factor && 0 <= inner_height * factor <= height
        * factor) by (nonlinear_arith)
        requires
            0 <= inner_width <= width,
            0 <= inner_height <= height,
            factor >= 0,
    ;
    assert((inner_width * factor) * (inner_height * factor) <= (width * factor) * (height
        * factor)) by (nonlinear_arith)
        requires
            0 <= inner_width * factor <= width * factor,
            0 <= inner_height * factor <= height * factor,
    ;
}

proof fn lemma_first_rect_ok(faces: Seq<ModelFace>, group: u32, side: Side)
    requires
        forall|i: int| 0 <= i < faces.len() ==> (#[trigger] faces[i]).rect.ok(),
    ensures
        first_rect(faces, group, side) matches Some(rect) ==> rect.ok(),
    decreases faces.len(),
{
    if faces.len() > 0 {
        assert forall|i: int| 0 <= i < faces.len() - 1 implies (#[trigger] faces.drop_last()[i])
            .rect.ok() by {
            assert(faces[i].rect.ok());
        }
        lemma_first_rect_ok(faces.drop_last(), group, side);
        assert(faces[faces.len() - 1].rect.ok());
    }
}

/// Where a texture can be scaled with a border of one pixel, so can the tiles
/// of all faces that lie in it.
pub proof fn faces_in_the_texture_can_be_stitched(
    faces: Seq<ModelFace>,
    width: int,
    height: int,
    factor: int,
)
    requires
        valid_factor(factor),
        0 <= width,
        0 <= height,
        wrappable(width, height, factor),
        forall|i: int|
            0 <= i < faces.len() ==> (#[trigger] faces[i]).rect.x + faces[i].rect.width <= width
                && faces[i].rect.y + faces[i].rect.height <= height,
    ensures
        stitchable(faces, width, height, factor),
{
    assert((width + 2) * factor >= 2 * (width + 2) && (height + 2) * factor >= 2 * (height + 2))
        by (nonlinear_arith)
        requires
            factor >= 2,
            width >= 0,
            height >= 0,
    ;
    assert forall|i: int|
        0 <= i < faces.len() && visible((#[trigger] faces[i]).rect, width, height) implies {
        &&& paddable(faces[i].rect, 1)
        &&& scalable(faces[i].rect.width + 2, faces[i].rect.height + 2, factor)
        &&& first_group(faces, faces[i].group).ok()
    } by {
        let rect = faces[i].rect;
        lemma_smaller_scales(
            width + 2,
            height + 2,
            rect.width + 2,
            rect.height + 2,
            factor,
        );
        let w = rect.width + 2;
        let h = rect.height + 2;
        assert(w * h <= (w * factor) * (h * factor)) by (nonlinear_arith)
            requires
                factor >= 1,
                w >= 0,
                h >= 0,
        ;
        assert(paddable(rect, 1));
        let group = first_group(faces, faces[i].group);
        assert forall|k: int| 0 <= k < faces.len() implies (#[trigger] faces[k]).rect.ok() by {}
        assert forall|side: Side| (#[trigger] group.rect(side)) matches Some(rect) ==> rect.ok() by {
            lemma_first_rect_ok(faces, faces[i].group, side);
        }
    }
}

/// Whether an image can be blown up.
pub fn can_magnify(width: u64, height: u64, scale: u32) -> (can: bool)
    requires
        width <= u32::MAX,
        height <= u32::MAX,
    ensures
        can == magnifiable(width as int, height as int, scale as int),
{
    if scale <= 1 {
        return true;
    }
    if !can_scale(width, height, scale) {
        return false;
    }
    assert(0 <= height * scale <= u32::MAX) by (nonlinear_arith)
        requires
            height * scale <= u32::MAX,
    ;
    let tall: u64 = height * scale as u64;
    assert(0 <= width * tall <= u32::MAX * u32::MAX) by (nonlinear_arith)
        requires
            width <= u32::MAX,
            tall <= u32::MAX,
    ;
    width as u128 * tall as u128 * 16 <= isize::MAX as u128
}

/// Whether a face can be cut out.
pub fn can_slice(
    source: &RgbaImage,
    faces: &[ModelFace],
    index: usize,
    border: u32,
    scale: u32,
) -> (can: bool)
    requires
        index < faces@.len(),
    ensures
        can == sliceable(source@, faces@, index as int, border as int, scale as int),
{
    let face = &faces[index];
    let rect: FaceRect = face.rect;
    if rect.width == 0 || rect.height == 0 || border == 0 {
        return true;
    }
    let (width, height) = source.dimensions();
    if width == 0 || height == 0 || !can_pad(&rect, border) {
        return false;
    }
    let wide: u64 = rect.width as u64 + 2 * border as u64;
    let tall: u64 = rect.height as u64 + 2 * border as u64;
    can_reach_group(&FaceGroup::last_of(faces, face.group)) && wide <= u32::MAX as u64 && tall
        <= u32::MAX as u64 && can_magnify(wide, tall, scale)
}

/// A texture of modest size can be scaled by every factor, with a border of one
/// pixel and without.
pub proof fn modest_textures_can_be_scaled(width: u32, height: u32, factor: int)
    requires
        width <= 1024,
        height <= 1024,
        2 <= factor <= 6,
    ensures
        scalable(width as int, height as int, factor),
        wrappable(width as int, height as int, factor),
{
    let w = width + 2;
    let h = height + 2;
    assert(w * factor <= 6156 && h * factor <= 6156 && (w * factor) * (h * factor) <= 6156 * 6156)
        by (nonlinear_arith)
        requires
            0 <= w <= 1026,
            0 <= h <= 1026,
            2 <= factor <= 6,
    ;
    assert(scalable(w, h, factor));
    lemma_smaller_scales(w, h, width as int, height as int, factor);
}

/// What can be held is told exactly: an image can be scaled just where the sides
/// and the bytes of the result can be counted.
pub proof fn limits_are_those_of_the_machine(width: u64, height: u64, factor: u32, can: bool)
    requires
        call_ensures(can_scale, (width, height, factor), can),
    ensures
        can <==> width * factor <= 0xffff_ffff && height * factor <= 0xffff_ffff && (width * factor)
            * (height * factor) * 4 <= isize::MAX,
{
}

} // verus!
