//! Pictures that show where a model's faces lie: the texture with the faces
//! tinted, and the faces cut out one by one.
use crate::codec::{magnified, magnify, scalable};
use crate::cube::{neighbor, side_name, side_named, Edge, Side};
use crate::model::{FaceRect, ModelFace};
use crate::raster::{lemma_build_at, lemma_build_ext, Raster, Rgba, RgbaImage};
use crate::text::{
    decimal, decimal_notation_reads_as_the_number, number_read, outer_pieces_stand_by_themselves,
    push_decimal, same_text, segments,
};
use crate::tile::{border_refusal, face_border_tile, last_group, padded_tile, paddable};
use vstd::prelude::*;

verus! {

/// The axis that a face looks along.
#[derive(Clone, Copy, Debug, PartialEq, Eq, Structural)]
pub enum Axis {
    X,
    Y,
    Z,
    Other,
}

/// The axis that a face of this name looks along.
pub open spec fn axis_of(face: Seq<char>) -> Axis {
    if face == "east"@ || face == "west"@ {
        Axis::X
    } else if face == "up"@ || face == "down"@ {
        Axis::Y
    } else if face == "north"@ || face == "south"@ {
        Axis::Z
    } else {
        Axis::Other
    }
}

/// The axis that a face of this name looks along.
pub fn face_axis(face: &str) -> (axis: Axis)
    ensures
        axis == axis_of(face@),
{
    if same_text(face, "east") || same_text(face, "west") {
        Axis::X
    } else if same_text(face, "up") || same_text(face, "down") {
        Axis::Y
    } else if same_text(face, "north") || same_text(face, "south") {
        Axis::Z
    } else {
        Axis::Other
    }
}

/// How many of the first `count` faces look along an axis.
pub open spec fn on_axis(faces: Seq<ModelFace>, axis: Axis, count: int) -> int
    decreases count,
{
    if count <= 0 {
        0
    } else {
        on_axis(faces, axis, count - 1) + if axis_of(faces[count - 1].face@) == axis {
            1int
        } else {
            0
        }
    }
}

proof fn lemma_on_axis(faces: Seq<ModelFace>, axis: Axis, less: int, count: int)
    requires
        0 <= less <= count,
    ensures
        0 <= on_axis(faces, axis, less) <= on_axis(faces, axis, count) <= count,
    decreases count,
{
    if less < count {
        lemma_on_axis(faces, axis, less, count - 1);
    } else if count > 0 {
        lemma_on_axis(faces, axis, count - 1, count - 1);
    }
}

/// How many of the first `count` faces look along an axis.
pub fn count_on_axis(faces: &[ModelFace], axis: Axis, count: usize) -> (found: usize)
    requires
        count <= faces@.len(),
    ensures
        found == on_axis(faces@, axis, count as int),
{
    let mut found: usize = 0;
    let mut i: usize = 0;
    while i < count
        invariant
            i <= count <= faces@.len(),
            found <= i,
            found == on_axis(faces@, axis, i as int),
        decreases count - i,
    {
        if face_axis(faces[i].face.as_str()) == axis {
            found = found + 1;
        }
        i = i + 1;
    }
    found
}

/// The brightest shade.
pub const SHADE_FULL: u8 = 0xFF;

/// The darkest shade.
pub const SHADE_DIM: u8 = 0x88;

/// The shade of the face that comes `rank`-th of `total`: full for the first,
/// dim for the last, and evenly spread between them.
pub open spec fn shade(rank: int, total: int) -> int {
    if total <= 1 {
        SHADE_FULL as int
    } else {
        SHADE_FULL - (rank * (SHADE_FULL - SHADE_DIM)) / (total - 1)
    }
}

proof fn lemma_shade(rank: int, total: int)
    requires
        0 <= rank < total,
    ensures
        SHADE_DIM <= shade(rank, total) <= SHADE_FULL,
{
    if total > 1 {
        assert(0 <= (rank * 119) / (total - 1) <= 119) by (nonlinear_arith)
            requires
                0 <= rank <= total - 1,
                total - 1 > 0,
        ;
    }
}

/// The colour of an axis in a shade.
pub open spec fn axis_color(axis: Axis, level: u8) -> Seq<u8> {
    match axis {
        Axis::X => seq![level, 0, 0],
        Axis::Y => seq![0, level, 0],
        Axis::Z => seq![0, 0, level],
        Axis::Other => seq![level, level, level],
    }
}

/// The colour of face `i`: red, green or blue by its axis, grey without one,
/// and the later on its axis the darker.
pub open spec fn fill_color(faces: Seq<ModelFace>, i: int) -> Seq<u8> {
    let axis = axis_of(faces[i].face@);
    axis_color(
        axis,
        shade(on_axis(faces, axis, i), on_axis(faces, axis, faces.len() as int)) as u8,
    )
}

/// A colour for every face.
pub fn face_fill_colors(faces: &[ModelFace]) -> (colors: Vec<[u8; 3]>)
    ensures
        colors@.len() == faces@.len(),
        forall|i: int|
            0 <= i < colors@.len() ==> (#[trigger] colors@[i])@ == fill_color(faces@, i),
{
    let count: usize = faces.len();
    let mut colors: Vec<[u8; 3]> = Vec::new();
    let mut i: usize = 0;
    while i < count
        invariant
            i <= count,
            count == faces@.len(),
            colors@.len() == i,
            forall|k: int| 0 <= k < i ==> (#[trigger] colors@[k])@ == fill_color(faces@, k),
        decreases count - i,
    {
        let axis = face_axis(faces[i].face.as_str());
        let rank: usize = count_on_axis(faces, axis, i);
        let total: usize = count_on_axis(faces, axis, count);
        proof {
            lemma_on_axis(faces@, axis, i + 1, count as int);
            lemma_on_axis(faces@, axis, 0, i as int);
            lemma_shade(rank as int, total as int);
        }
        let level: u8 = if total <= 1 {
            SHADE_FULL
        } else {
            assert(0 <= rank * 119 <= usize::MAX * 119) by (nonlinear_arith)
                requires
                    0 <= rank <= usize::MAX,
            ;
            let step: u128 = (rank as u128 * 119) / (total as u128 - 1);
            SHADE_FULL - step as u8
        };
        let color: [u8; 3] = match axis {
            Axis::X => [level, 0, 0],
            Axis::Y => [0, level, 0],
            Axis::Z => [0, 0, level],
            Axis::Other => [level, level, level],
        };
        assert(color@ =~= fill_color(faces@, i as int));
        colors.push(color);
        i = i + 1;
    }
    colors
}

/// Of `total` faces on an axis, the first is full and the last is dim.
pub proof fn shades_run_from_full_to_dim(total: int)
    requires
        total > 1,
    ensures
        shade(0, total) == SHADE_FULL,
        shade(total - 1, total) == SHADE_DIM,
{
    let last = total - 1;
    assert((0int * 119) / last == 0) by (nonlinear_arith)
        requires
            last > 0,
    ;
    assert((last * 119) / last == 119) by (nonlinear_arith)
        requires
            last > 0,
    ;
}

/// Of two faces on an axis, the later is not the brighter.
pub proof fn later_faces_are_not_brighter(rank: int, later: int, total: int)
    requires
        0 <= rank <= later < total,
    ensures
        shade(later, total) <= shade(rank, total),
{
    if total > 1 {
        let last = total - 1;
        assert((rank * 119) / last <= (later * 119) / last) by (nonlinear_arith)
            requires
                0 <= rank <= later,
                last > 0,
        ;
    }
}

/// The shades of an axis are distinct, as long as there are no more faces on it
/// than shades.
pub proof fn later_faces_are_darker(rank: int, later: int, total: int)
    requires
        0 <= rank < later < total <= SHADE_FULL - SHADE_DIM + 1,
    ensures
        shade(later, total) < shade(rank, total),
{
    let last = total - 1;
    assert((rank * 119) / last < (later * 119) / last) by (nonlinear_arith)
        requires
            0 <= rank < later,
            0 < last <= 119,
    ;
}

/// Every face has a colour of its own, as long as no axis has more faces than
/// there are shades.
pub proof fn every_face_has_its_own_color(faces: Seq<ModelFace>, i: int, j: int)
    requires
        0 <= i < j < faces.len(),
        axis_of(faces[i].face@) == axis_of(faces[j].face@) ==> on_axis(
            faces,
            axis_of(faces[i].face@),
            faces.len() as int,
        ) <= SHADE_FULL - SHADE_DIM + 1,
    ensures
        fill_color(faces, i) != fill_color(faces, j),
{
    let count = faces.len() as int;
    let a = axis_of(faces[i].face@);
    let b = axis_of(faces[j].face@);
    lemma_on_axis(faces, a, 0, i);
    lemma_on_axis(faces, a, i + 1, count);
    lemma_on_axis(faces, b, 0, j);
    lemma_on_axis(faces, b, j + 1, count);
    lemma_shade(on_axis(faces, a, i), on_axis(faces, a, count));
    lemma_shade(on_axis(faces, b, j), on_axis(faces, b, count));
    let one = fill_color(faces, i);
    let other = fill_color(faces, j);
    if a == b {
        lemma_on_axis(faces, a, i + 1, j);
        later_faces_are_darker(
            on_axis(faces, a, i),
            on_axis(faces, a, j),
            on_axis(faces, a, count),
        );
    }
    assert(one[0] != other[0] || one[1] != other[1] || one[2] != other[2]);
}

/// Forty-five parts of a channel and fifty-five of the fill, rounded.
pub open spec fn blended(base: u8, fill: u8) -> u8 {
    ((45 * base + 55 * fill + 50) / 100) as u8
}

pub fn blend(base: u8, fill: u8) -> (mixed: u8)
    ensures
        mixed == blended(base, fill),
{
    ((45 * base as u32 + 55 * fill as u32 + 50) / 100) as u8
}

/// A pixel with a colour laid over it.
pub open spec fn tinted(pixel: Rgba, color: Seq<u8>) -> Rgba {
    Rgba {
        r: blended(pixel.r, color[0]),
        g: blended(pixel.g, color[1]),
        b: blended(pixel.b, color[2]),
        a: pixel.a,
    }
}

fn tint(pixel: Rgba, color: &[u8; 3]) -> (out: Rgba)
    ensures
        out == tinted(pixel, color@),
{
    Rgba {
        r: blend(pixel.r, color[0]),
        g: blend(pixel.g, color[1]),
        b: blend(pixel.b, color[2]),
        a: pixel.a,
    }
}

/// The pixel at `(x, y)` with the colours of the first `count` faces over it.
pub open spec fn tinted_at(source: Raster, faces: Seq<ModelFace>, x: int, y: int, count: int) -> Rgba
    decreases count,
{
    if count <= 0 {
        source.at(x, y)
    } else {
        let under = tinted_at(source, faces, x, y, count - 1);
        if faces[count - 1].rect.covers(x, y) {
            tinted(under, fill_color(faces, count - 1))
        } else {
            under
        }
    }
}

/// The texture with every face tinted.
pub open spec fn overlaid(source: Raster, faces: Seq<ModelFace>) -> Raster {
    Raster::build(
        source.width,
        source.height,
        |x: int, y: int| tinted_at(source, faces, x, y, faces.len() as int),
    )
}

fn covers(rect: &FaceRect, x: u32, y: u32) -> (covered: bool)
    ensures
        covered == rect.covers(x as int, y as int),
{
    rect.x <= x && x - rect.x < rect.width && rect.y <= y && y - rect.y < rect.height
}

fn tint_at(image: &RgbaImage, faces: &[ModelFace], colors: &Vec<[u8; 3]>, x: u32, y: u32) -> (pixel:
    Rgba)
    requires
        image@.has(x as int, y as int),
        colors@.len() == faces@.len(),
        forall|i: int|
            0 <= i < colors@.len() ==> (#[trigger] colors@[i])@ == fill_color(faces@, i),
    ensures
        pixel == tinted_at(image@, faces@, x as int, y as int, faces@.len() as int),
{
    let mut pixel = image.get_pixel(x, y);
    let mut i: usize = 0;
    while i < faces.len()
        invariant
            i <= faces.len(),
            colors@.len() == faces@.len(),
            forall|i: int|
                0 <= i < colors@.len() ==> (#[trigger] colors@[i])@ == fill_color(faces@, i),
            pixel == tinted_at(image@, faces@, x as int, y as int, i as int),
        decreases faces.len() - i,
    {
        if covers(&faces[i].rect, x, y) {
            assert(colors@[i as int]@ == fill_color(faces@, i as int));
            pixel = tint(pixel, &colors[i]);
        }
        i = i + 1;
    }
    pixel
}

/// Tints every face of a texture by its axis.
pub fn overlay_faces(image: &RgbaImage, faces: &[ModelFace]) -> (marked: RgbaImage)
    ensures
        marked@ == overlaid(image@, faces@),
        marked@.wf(),
{
    let colors = face_fill_colors(faces);
    let (width, height) = image.dimensions();
    let ghost f = |x: int, y: int| tinted_at(image@, faces@, x, y, faces@.len() as int);
    let pixel_at = |x: u32, y: u32| -> (pixel: Rgba)
        requires
            x < width,
            y < height,
        ensures
            pixel == tinted_at(image@, faces@, x as int, y as int, faces@.len() as int),
    {
        tint_at(image, faces, &colors, x, y)
    };
    let marked = RgbaImage::from_fn(width, height, pixel_at);
    proof {
        lemma_build_ext(marked@, f);
    }
    marked
}

/// The colour of outlines.
pub open spec fn outline_color() -> Seq<u8> {
    seq![255, 0, 255]
}

/// A pixel with the outline's colour laid over it.
pub fn outline_pixel(pixel: Rgba) -> (outlined: Rgba)
    ensures
        outlined == tinted(pixel, outline_color()),
{
    let color: [u8; 3] = [255, 0, 255];
    assert(color@ =~= outline_color());
    tint(pixel, &color)
}

/// A pixel outlined some number of times.
pub open spec fn outlined_times(pixel: Rgba, times: int) -> Rgba
    decreases times,
{
    if times <= 0 {
        pixel
    } else {
        tinted(outlined_times(pixel, times - 1), outline_color())
    }
}

/// How many sides of the rectangle with corners `(border, border)` and
/// `(border + width - 1, border + height - 1)` pass through `(x, y)`.
pub open spec fn sides_through(border: int, width: int, height: int, x: int, y: int) -> int {
    let across = border <= x <= border + width - 1;
    let down = border <= y <= border + height - 1;
    (if across && y == border {
        1int
    } else {
        0
    }) + (if across && y == border + height - 1 {
        1int
    } else {
        0
    }) + (if down && x == border {
        1int
    } else {
        0
    }) + (if down && x == border + width - 1 {
        1int
    } else {
        0
    })
}

/// A tile with the face inside its border outlined, side by side.
pub open spec fn outlined(tile: Raster, border: int, width: int, height: int) -> Raster {
    Raster::build(
        tile.width,
        tile.height,
        |x: int, y: int|
            outlined_times(tile.at(x, y), sides_through(border, width, height, x, y)),
    )
}

fn outline_at(pixel: Rgba, border: u32, width: u32, height: u32, x: u32, y: u32) -> (out: Rgba)
    requires
        width > 0,
        height > 0,
    ensures
        out == outlined_times(
            pixel,
            sides_through(border as int, width as int, height as int, x as int, y as int),
        ),
{
    let right: u64 = border as u64 + (width as u64 - 1);
    let bottom: u64 = border as u64 + (height as u64 - 1);
    let across: bool = border <= x && x as u64 <= right;
    let down: bool = border <= y && y as u64 <= bottom;
    let mut times: u32 = 0;
    if across && y == border {
        times = times + 1;
    }
    if across && y as u64 == bottom {
        times = times + 1;
    }
    if down && x == border {
        times = times + 1;
    }
    if down && x as u64 == right {
        times = times + 1;
    }
    let mut out = pixel;
    let mut done: u32 = 0;
    while done < times
        invariant
            done <= times,
            out == outlined_times(pixel, done as int),
        decreases times - done,
    {
        out = outline_pixel(out);
        done = done + 1;
    }
    out
}

/// Outlines the face inside a tile's border.
pub fn outline_tile(tile: &RgbaImage, border: u32, face_width: u32, face_height: u32) -> (out:
    RgbaImage)
    requires
        face_width > 0,
        face_height > 0,
    ensures
        out@ == outlined(tile@, border as int, face_width as int, face_height as int),
        out@.wf(),
{
    let (width, height) = tile.dimensions();
    let ghost b = border as int;
    let ghost fw = face_width as int;
    let ghost fh = face_height as int;
    let ghost f = |x: int, y: int| outlined_times(tile@.at(x, y), sides_through(b, fw, fh, x, y));
    let pixel_at = |x: u32, y: u32| -> (pixel: Rgba)
        requires
            x < width,
            y < height,
        ensures
            pixel == outlined_times(
                tile@.at(x as int, y as int),
                sides_through(b, fw, fh, x as int, y as int),
            ),
    {
        outline_at(tile.get_pixel(x, y), border, face_width, face_height, x, y)
    };
    let out = RgbaImage::from_fn(width, height, pixel_at);
    proof {
        lemma_build_ext(out@, f);
    }
    out
}

/// A number with at least two digits.
pub open spec fn two_digits(n: nat) -> Seq<char> {
    if n < 10 {
        "0"@ + decimal(n)
    } else {
        decimal(n)
    }
}

/// The file name of a face that was cut out.
pub open spec fn slice_name(index: nat, face: ModelFace) -> Seq<char> {
    two_digits(index) + "_g"@ + decimal(face.group as nat) + "_"@ + face.face@ + "_"@ + decimal(
        face.rect.x as nat,
    ) + "x"@ + decimal(face.rect.y as nat) + "_"@ + decimal(face.rect.width as nat) + "x"@
        + decimal(face.rect.height as nat) + ".png"@
}

/// The file name of a face that was cut out.
pub fn name_slice(index: usize, face: &ModelFace) -> (name: String)
    ensures
        name@ == slice_name(index as nat, *face),
{
    let mut name = String::new();
    if index < 10 {
        name.append("0");
    }
    push_decimal(&mut name, index as u64);
    assert(name@ =~= two_digits(index as nat));
    name.append("_g");
    push_decimal(&mut name, face.group as u64);
    name.append("_");
    name.append(face.face.as_str());
    name.append("_");
    push_decimal(&mut name, face.rect.x as u64);
    name.append("x");
    push_decimal(&mut name, face.rect.y as u64);
    name.append("_");
    push_decimal(&mut name, face.rect.width as u64);
    name.append("x");
    push_decimal(&mut name, face.rect.height as u64);
    name.append(".png");
    name
}

/// A face that was cut out, and the name of its file.
#[derive(Debug)]
pub struct FaceSlice {
    pub name: String,
    pub image: RgbaImage,
}

/// A face as it is cut out: with its border, outlined and blown up.
pub open spec fn sliced(
    source: Raster,
    faces: Seq<ModelFace>,
    index: int,
    border: int,
    scale: int,
) -> Raster {
    let face = faces[index];
    let tile = padded_tile(
        source,
        face.rect,
        side_named(face.face@),
        last_group(faces, face.group),
        border,
    );
    magnified(
        outlined(tile, border, face.rect.width as int, face.rect.height as int),
        scale,
    )
}

/// An image can be blown up.
pub open spec fn magnifiable(width: int, height: int, scale: int) -> bool {
    scale > 1 ==> scalable(width, height, scale) && width * (height * scale) * 16 <= isize::MAX
}

/// A face can be cut out.
pub open spec fn sliceable(
    source: Raster,
    faces: Seq<ModelFace>,
    index: int,
    border: int,
    scale: int,
) -> bool {
    border_refusal(faces, index, border) is None ==> {
        let rect = faces[index].rect;
        &&& source.width > 0
        &&& source.height > 0
        &&& paddable(rect, border)
        &&& last_group(faces, faces[index].group).ok()
        &&& magnifiable(rect.width + 2 * border, rect.height + 2 * border, scale)
    }
}

/// Cuts out a face with a border taken from the faces around it; a face
/// without pixels is passed over.
pub fn slice_face(
    source: &RgbaImage,
    faces: &[ModelFace],
    index: usize,
    border: u32,
    scale: u32,
) -> (slice: Result<Option<FaceSlice>, String>)
    requires
        index < faces@.len(),
        sliceable(source@, faces@, index as int, border as int, scale as int),
    ensures
        ({
            let face = faces@[index as int];
            if face.rect.width == 0 || face.rect.height == 0 {
                slice matches Ok(None)
            } else if border == 0 {
                slice matches Err(e) && e@ == "border must be at least 1"@
            } else {
                &&& slice matches Ok(Some(slice))
                &&& slice.name@ == slice_name(index as nat, face)
                &&& slice.image@ == sliced(
                    source@,
                    faces@,
                    index as int,
                    border as int,
                    scale as int,
                )
                &&& slice.image@.wf()
            }
        }),
{
    let face = &faces[index];
    if face.rect.width == 0 || face.rect.height == 0 {
        return Ok(None);
    }
    match face_border_tile(source, faces, index, border) {
        Err(error) => Err(error),
        Ok(tile) => {
            let marked = outline_tile(&tile, border, face.rect.width, face.rect.height);
            let image = magnify(marked, scale);
            Ok(Some(FaceSlice { name: name_slice(index, face), image }))
        },
    }
}

/// The texture with its faces tinted, blown up.
pub fn mark_faces(image: &RgbaImage, faces: &[ModelFace], scale: u32) -> (marked: RgbaImage)
    requires
        magnifiable(image@.width, image@.height, scale as int),
    ensures
        marked@ == magnified(overlaid(image@, faces@), scale as int),
        marked@.wf(),
{
    magnify(overlay_faces(image, faces), scale)
}

/// Blending comes as near to forty-five parts of the one and fifty-five of the
/// other as whole numbers allow, and leaves what is already of the colour.
pub proof fn blending_is_the_nearest_weighted_mean(base: u8, fill: u8, mixed: u8)
    requires
        call_ensures(blend, (base, fill), mixed),
    ensures
        -50 < 100 * mixed - (45 * base + 55 * fill) <= 50,
        base == fill ==> mixed == base,
        base <= mixed <= fill || fill <= mixed <= base,
{
}

/// An outlined pixel is blended with magenta and as opaque as it was.
pub proof fn outlines_are_magenta(pixel: Rgba, outlined: Rgba, r: u8, g: u8, b: u8)
    requires
        call_ensures(outline_pixel, (pixel,), outlined),
        call_ensures(blend, (pixel.r, 255), r),
        call_ensures(blend, (pixel.g, 0), g),
        call_ensures(blend, (pixel.b, 255), b),
    ensures
        outlined.r == r && outlined.g == g && outlined.b == b,
        outlined.a == pixel.a,
{
}

/// In an outlined tile, the pixels along the inside of the face's edge are
/// outlined, once along a side and twice in a corner; all others are as they were.
pub proof fn outlines_run_just_inside_the_face(
    tile: RgbaImage,
    border: u32,
    width: u32,
    height: u32,
    out: RgbaImage,
    x: int,
    y: int,
    once: Rgba,
    twice: Rgba,
)
    requires
        call_ensures(outline_tile, (&tile, border, width, height), out),
        width >= 2,
        height >= 2,
        tile@.has(x, y),
        call_ensures(outline_pixel, (tile@.at(x, y),), once),
        call_ensures(outline_pixel, (once,), twice),
    ensures
        out@.width == tile@.width && out@.height == tile@.height,
        ({
            let inside = border <= x < border + width && border <= y < border + height;
            let column = x == border || x == border + width - 1;
            let row = y == border || y == border + height - 1;
            &&& inside && column && row ==> out@.at(x, y) == twice
            &&& inside && (column != row) ==> out@.at(x, y) == once
            &&& !(inside && (column || row)) ==> out@.at(x, y) == tile@.at(x, y)
        }),
{
    let b = border as int;
    let w = width as int;
    let h = height as int;
    lemma_build_at(
        tile@.width,
        tile@.height,
        |x: int, y: int| outlined_times(tile@.at(x, y), sides_through(b, w, h, x, y)),
        x,
        y,
    );
    reveal_with_fuel(outlined_times, 3);
}

/// In a texture with its faces marked, what no face covers is as it was, what one
/// face covers is blended with that face's colour, and nothing changes its
/// opacity.
pub proof fn faces_are_marked_in_their_colors(
    image: RgbaImage,
    faces: &[ModelFace],
    marked: RgbaImage,
    colors: Vec<[u8; 3]>,
    x: int,
    y: int,
    i: int,
    r: u8,
    g: u8,
    b: u8,
)
    requires
        call_ensures(overlay_faces, (&image, faces), marked),
        call_ensures(face_fill_colors, (faces,), colors),
        image@.has(x, y),
        0 <= i < faces@.len() ==> {
            &&& call_ensures(blend, (image@.at(x, y).r, colors@[i]@[0]), r)
            &&& call_ensures(blend, (image@.at(x, y).g, colors@[i]@[1]), g)
            &&& call_ensures(blend, (image@.at(x, y).b, colors@[i]@[2]), b)
        },
    ensures
        marked@.width == image@.width && marked@.height == image@.height,
        marked@.at(x, y).a == image@.at(x, y).a,
        (forall|k: int| 0 <= k < faces@.len() ==> !(#[trigger] faces@[k]).rect.covers(x, y))
            ==> marked@.at(x, y) == image@.at(x, y),
        0 <= i < faces@.len() && faces@[i].rect.covers(x, y) && (forall|k: int|
            0 <= k < faces@.len() && k != i ==> !(#[trigger] faces@[k]).rect.covers(x, y))
            ==> marked@.at(x, y).r == r && marked@.at(x, y).g == g && marked@.at(x, y).b == b,
{
    let count = faces@.len() as int;
    lemma_build_at(
        image@.width,
        image@.height,
        |x: int, y: int| tinted_at(image@, faces@, x, y, count),
        x,
        y,
    );
    lemma_tint_alpha(image@, faces@, x, y, count);
    if forall|k: int| 0 <= k < faces@.len() ==> !(#[trigger] faces@[k]).rect.covers(x, y) {
        lemma_untinted(image@, faces@, x, y, 0, count);
    }
    if 0 <= i < faces@.len() && faces@[i].rect.covers(x, y) && (forall|k: int|
        0 <= k < faces@.len() && k != i ==> !(#[trigger] faces@[k]).rect.covers(x, y)) {
        lemma_untinted(image@, faces@, x, y, 0, i);
        lemma_untinted(image@, faces@, x, y, i + 1, count);
        assert(colors@[i]@ == fill_color(faces@, i));
    }
}

proof fn lemma_tint_alpha(source: Raster, faces: Seq<ModelFace>, x: int, y: int, count: int)
    ensures
        tinted_at(source, faces, x, y, count).a == source.at(x, y).a,
    decreases count,
{
    if count > 0 {
        lemma_tint_alpha(source, faces, x, y, count - 1);
    }
}

proof fn lemma_untinted(
    source: Raster,
    faces: Seq<ModelFace>,
    x: int,
    y: int,
    from: int,
    count: int,
)
    requires
        0 <= from <= count <= faces.len(),
        forall|k: int| from <= k < count ==> !(#[trigger] faces[k]).rect.covers(x, y),
    ensures
        tinted_at(source, faces, x, y, count) == tinted_at(source, faces, x, y, from),
    decreases count,
{
    if count > from {
        lemma_untinted(source, faces, x, y, from, count - 1);
        assert(!faces[count - 1].rect.covers(x, y));
    }
}

/// The faces that look along x are red, along y green, along z blue, and any other
/// grey; none is darker than the dim shade, and the only one along its axis has
/// the full one.
pub proof fn axes_have_their_own_colors(faces: &[ModelFace], colors: Vec<[u8; 3]>, i: int)
    requires
        call_ensures(face_fill_colors, (faces,), colors),
        0 <= i < faces@.len(),
    ensures
        colors@.len() == faces@.len(),
        ({
            let color = colors@[i]@;
            let face = faces@[i].face@;
            &&& face == "east"@ || face == "west"@ ==> color[0] >= 0x88 && color[1] == 0 && color[2]
                == 0
            &&& face == "up"@ || face == "down"@ ==> color[0] == 0 && color[1] >= 0x88 && color[2]
                == 0
            &&& face == "north"@ || face == "south"@ ==> color[0] == 0 && color[1] == 0 && color[2]
                >= 0x88
            &&& face != "east"@ && face != "west"@ && face != "up"@ && face != "down"@ && face
                != "north"@ && face != "south"@ ==> color[0] >= 0x88 && color[0] == color[1]
                && color[1] == color[2]
        }),
{
    let axis = axis_of(faces@[i].face@);
    let count = faces@.len() as int;
    assert(colors@[i]@ == fill_color(faces@, i));
    lemma_on_axis(faces@, axis, i + 1, count);
    lemma_on_axis(faces@, axis, 0, i);
    lemma_shade(on_axis(faces@, axis, i), on_axis(faces@, axis, count));
    reveal_strlit("east");
    reveal_strlit("west");
    reveal_strlit("up");
    reveal_strlit("down");
    reveal_strlit("north");
    reveal_strlit("south");
    assert("east"@[0] == 'e');
    assert("west"@[0] == 'w');
    assert("up"@[0] == 'u');
    assert("down"@[0] == 'd');
    assert("north"@[0] == 'n');
    assert("south"@[0] == 's');
}

/// The first face along an axis has the full shade, and the last of several the
/// dim one.
pub proof fn shades_begin_full_and_end_dim(
    faces: &[ModelFace],
    colors: Vec<[u8; 3]>,
    i: int,
    j: int,
)
    requires
        call_ensures(face_fill_colors, (faces,), colors),
        0 <= i < j < faces@.len(),
        axis_of(faces@[i].face@) == axis_of(faces@[j].face@),
        forall|k: int|
            0 <= k < faces@.len() && (k < i || k > j) ==> axis_of((#[trigger] faces@[k]).face@)
                != axis_of(faces@[i].face@),
    ensures
        ({
            let one = colors@[i]@;
            let other = colors@[j]@;
            &&& one[0] == 0xFF || one[1] == 0xFF || one[2] == 0xFF
            &&& other[0] == 0x88 || other[1] == 0x88 || other[2] == 0x88
        }),
{
    let axis = axis_of(faces@[i].face@);
    let count = faces@.len() as int;
    lemma_none_on_axis(faces@, axis, 0, i);
    lemma_none_on_axis(faces@, axis, j + 1, count);
    lemma_on_axis(faces@, axis, i + 1, j);
    let total = on_axis(faces@, axis, count);
    assert(on_axis(faces@, axis, i) == 0);
    assert(on_axis(faces@, axis, j) == total - 1);
    shades_run_from_full_to_dim(total);
    assert(colors@[i]@ == fill_color(faces@, i));
    assert(colors@[j]@ == fill_color(faces@, j));
}

proof fn lemma_none_on_axis(faces: Seq<ModelFace>, axis: Axis, from: int, count: int)
    requires
        0 <= from <= count <= faces.len(),
        forall|k: int| from <= k < count ==> axis_of((#[trigger] faces[k]).face@) != axis,
    ensures
        on_axis(faces, axis, count) == on_axis(faces, axis, from),
    decreases count,
{
    if count > from {
        lemma_none_on_axis(faces, axis, from, count - 1);
        assert(axis_of(faces[count - 1].face@) != axis);
    }
}

/// Faces that join at an edge of a box look along different axes, and every side
/// looks along one of the three.
pub proof fn joined_faces_look_along_different_axes(
    side: Side,
    edge: Edge,
    name: &str,
    other: &str,
    joined: (Side, Edge, bool),
    axis: Axis,
    across_axis: Axis,
)
    requires
        call_ensures(neighbor, (side, edge), joined),
        name@ == side_name(side),
        other@ == side_name(joined.0),
        call_ensures(face_axis, (name,), axis),
        call_ensures(face_axis, (other,), across_axis),
    ensures
        axis != across_axis,
        axis != Axis::Other,
        across_axis != Axis::Other,
{
    reveal_strlit("east");
    reveal_strlit("west");
    reveal_strlit("up");
    reveal_strlit("down");
    reveal_strlit("north");
    reveal_strlit("south");
    assert("east"@[0] == 'e');
    assert("west"@[0] == 'w');
    assert("up"@[0] == 'u');
    assert("down"@[0] == 'd');
    assert("north"@[0] == 'n');
    assert("south"@[0] == 's');
}

/// A face that is cut out is its bordered tile, outlined and blown up; a face
/// without pixels is passed over, and a border of nothing is refused.
pub proof fn slices_are_outlined_tiles(
    source: RgbaImage,
    faces: &[ModelFace],
    index: usize,
    border: u32,
    scale: u32,
    slice: Result<Option<FaceSlice>, String>,
    tile: RgbaImage,
    marked: RgbaImage,
    blown: RgbaImage,
    name: String,
)
    requires
        index < faces@.len(),
        call_ensures(slice_face, (&source, faces, index, border, scale), slice),
        faces@[index as int].rect.width > 0 && faces@[index as int].rect.height > 0 && border > 0
            ==> {
            &&& call_ensures(
                face_border_tile,
                (&source, faces, index, border),
                Ok::<RgbaImage, String>(tile),
            )
            &&& call_ensures(
                outline_tile,
                (
                    &tile,
                    border,
                    faces@[index as int].rect.width,
                    faces@[index as int].rect.height,
                ),
                marked,
            )
            &&& call_ensures(magnify, (marked, scale), blown)
            &&& call_ensures(name_slice, (index, &faces@[index as int]), name)
        },
    ensures
        faces@[index as int].rect.width == 0 || faces@[index as int].rect.height == 0 ==> (
        slice matches Ok(None)),
        faces@[index as int].rect.width > 0 && faces@[index as int].rect.height > 0 && border == 0
            ==> (slice matches Err(e) && e@ == "border must be at least 1"@),
        faces@[index as int].rect.width > 0 && faces@[index as int].rect.height > 0 && border > 0
            ==> (slice matches Ok(Some(slice)) && slice.image@ == blown@ && slice.name@ == name@),
{
}

/// Marking the faces of a texture is marking them and blowing the picture up.
pub proof fn marked_pictures_are_blown_up(
    image: RgbaImage,
    faces: &[ModelFace],
    scale: u32,
    marked: RgbaImage,
    overlay: RgbaImage,
    blown: RgbaImage,
)
    requires
        call_ensures(mark_faces, (&image, faces, scale), marked),
        call_ensures(overlay_faces, (&image, faces), overlay),
        call_ensures(magnify, (overlay, scale), blown),
    ensures
        marked@ == blown@,
{
}

/// Where two faces cover a pixel, the later one's colour is laid over the earlier
/// one's.
pub proof fn later_faces_are_laid_over_earlier_ones(
    image: RgbaImage,
    faces: &[ModelFace],
    marked: RgbaImage,
    colors: Vec<[u8; 3]>,
    x: int,
    y: int,
    i: int,
    j: int,
    first: u8,
    second: u8,
)
    requires
        call_ensures(overlay_faces, (&image, faces), marked),
        call_ensures(face_fill_colors, (faces,), colors),
        image@.has(x, y),
        0 <= i < j < faces@.len(),
        faces@[i].rect.covers(x, y),
        faces@[j].rect.covers(x, y),
        forall|k: int|
            0 <= k < faces@.len() && k != i && k != j ==> !(#[trigger] faces@[k]).rect.covers(x, y),
        call_ensures(blend, (image@.at(x, y).r, colors@[i]@[0]), first),
        call_ensures(blend, (first, colors@[j]@[0]), second),
    ensures
        marked@.at(x, y).r == second,
{
    let count = faces@.len() as int;
    lemma_build_at(
        image@.width,
        image@.height,
        |x: int, y: int| tinted_at(image@, faces@, x, y, count),
        x,
        y,
    );
    lemma_untinted(image@, faces@, x, y, 0, i);
    lemma_untinted(image@, faces@, x, y, i + 1, j);
    lemma_untinted(image@, faces@, x, y, j + 1, count);
    assert(colors@[i]@ == fill_color(faces@, i));
    assert(colors@[j]@ == fill_color(faces@, j));
}

/// The name of a cut-out face begins with the face's number, in two digits or more.
pub proof fn slices_are_numbered(index: usize, face: ModelFace, name: String)
    requires
        call_ensures(name_slice, (index, &face), name),
    ensures
        ({
            let first = segments(name@, '_')[0];
            first.len() >= 2 && number_read(first) == index
        }),
{
    reveal_strlit("0");
    reveal_strlit("_g");
    reveal_with_fuel(decimal, 2);
    reveal_with_fuel(number_read, 3);
    let number = decimal(index as nat);
    let first = two_digits(index as nat);
    decimal_notation_reads_as_the_number(index as nat, 0);
    if first.contains('_') {
        let i = choose|i: int| 0 <= i < first.len() && first[i] == '_';
        if index >= 10 {
            decimal_notation_reads_as_the_number(index as nat, i);
        } else if i > 0 {
            decimal_notation_reads_as_the_number(index as nat, i - 1);
        }
    }
    if index < 10 {
        assert(first.drop_last() =~= "0"@);
        assert("0"@.drop_last() =~= Seq::empty());
        assert(first.last() == number[0]);
        assert(number.drop_last() =~= Seq::empty());
    } else {
        assert(number.len() >= 2);
    }
    let rest = name@.skip((first.len() + 1) as int);
    assert(name@ =~= first.push('_') + rest);
    outer_pieces_stand_by_themselves(first, rest, '_');
}

} // verus!
