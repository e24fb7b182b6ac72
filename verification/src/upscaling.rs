//! Upscaling: plain, wrapped for tiling textures, and stitched face by face.
use crate::codec::{plain_upscaled, scalable, upscale_plain};
use crate::cube::side_named;
use crate::model::{FaceRect, ModelFace};
use crate::raster::{fits, least, lemma_build_at, lemma_build_ext, Raster, Rgba, RgbaImage};
use crate::tile::{build_padded_tile, first_group, paddable, padded_tile, FaceGroup};
use vstd::prelude::*;

verus! {

/// The largest scale factor.
pub const MAX_FACTOR: u32 = 6;

/// How to upscale.
#[derive(Clone, Copy, Debug, PartialEq, Eq, Structural)]
pub struct UpscaleConfig {
    pub factor: u32,
    pub stitch_faces: bool,
}

pub open spec fn valid_factor(factor: int) -> bool {
    2 <= factor <= MAX_FACTOR
}

impl UpscaleConfig {
    /// Accepts the factors that xBRZ offers.
    pub fn validate(&self) -> (checked: Result<(), String>)
        ensures
            checked is Ok <==> valid_factor(self.factor as int),
            checked matches Err(e) ==> e@ == "factor must be between 2 and 6"@,
    {
        if self.factor < 2 || self.factor > MAX_FACTOR {
            return Err("factor must be between 2 and 6".to_owned());
        }
        Ok(())
    }
}

/// A raster with a border of one pixel that continues it periodically: each
/// edge repeats the opposite one, each corner the opposite corner.
pub open spec fn wrapped(source: Raster) -> Raster {
    let w = source.width;
    let h = source.height;
    Raster::build(w + 2, h + 2, |x: int, y: int| source.at((x + w - 1) % w, (y + h - 1) % h))
}

/// The source coordinate that a wrapped coordinate repeats.
fn unwrap_coordinate(v: u32, length: u32) -> (source: u32)
    requires
        0 < length,
        v < length + 2,
    ensures
        source == (v + length - 1) % length as int,
        source < length,
{
    proof {
        lemma_period(v as int, length as int);
    }
    if v == 0 {
        length - 1
    } else if v > length {
        0
    } else {
        v - 1
    }
}

/// Adds a self-tiling border of one pixel.
pub fn wrap_tile(image: &RgbaImage) -> (padded: RgbaImage)
    requires
        image@.width > 0,
        image@.height > 0,
        image@.width + 2 <= u32::MAX,
        image@.height + 2 <= u32::MAX,
        fits(image@.width + 2, image@.height + 2),
    ensures
        padded@ == wrapped(image@),
        padded@.wf(),
{
    let (w, h) = image.dimensions();
    let width: u32 = w + 2;
    let height: u32 = h + 2;
    let ghost f = |x: int, y: int| image@.at((x + w - 1) % (w as int), (y + h - 1) % (h as int));
    let pixel_at = |x: u32, y: u32| -> (pixel: Rgba)
        requires
            x < width,
            y < height,
        ensures
            pixel == image@.at((x + w - 1) % (w as int), (y + h - 1) % (h as int)),
    {
        image.get_pixel(unwrap_coordinate(x, w), unwrap_coordinate(y, h))
    };
    let padded = RgbaImage::from_fn(width, height, pixel_at);
    proof {
        lemma_build_ext(padded@, f);
    }
    padded
}

/// A tiling texture scaled with its border in place and the border cut off.
pub open spec fn wrapped_upscaled(source: Raster, factor: int) -> Raster {
    plain_upscaled(wrapped(source), factor).crop(
        factor,
        factor,
        source.width * factor,
        source.height * factor,
    )
}

/// A texture and its self-tiling border can be scaled.
pub open spec fn wrappable(width: int, height: int, factor: int) -> bool {
    scalable(width + 2, height + 2, factor)
}

proof fn lemma_wrappable(width: int, height: int, factor: int)
    requires
        width >= 0,
        height >= 0,
        factor >= 2,
        wrappable(width, height, factor),
    ensures
        width + 2 <= u32::MAX,
        height + 2 <= u32::MAX,
        fits(width + 2, height + 2),
        width * factor <= u32::MAX,
        height * factor <= u32::MAX,
{
    let w = width + 2;
    let h = height + 2;
    assert(w <= w * factor && h <= h * factor) by (nonlinear_arith)
        requires
            factor >= 2,
            w >= 0,
            h >= 0,
    ;
    assert(w * h <= (w * factor) * (h * factor)) by (nonlinear_arith)
        requires
            0 <= w <= w * factor,
            0 <= h <= h * factor,
    ;
    assert(width * factor <= w * factor && height * factor <= h * factor) by (nonlinear_arith)
        requires
            factor >= 2,
            width <= w,
            height <= h,
    ;
}

/// Upscales with a self-tiling border, so that a tiling texture keeps its
/// context at the edges, and cuts the scaled border off again.
pub fn upscale_wrapped(image: &RgbaImage, factor: u32) -> (output: Result<RgbaImage, String>)
    requires
        valid_factor(factor as int) && image@.width > 0 && image@.height > 0 ==> wrappable(
            image@.width,
            image@.height,
            factor as int,
        ),
    ensures
        if !valid_factor(factor as int) {
            output matches Err(e) && e@ == "factor must be between 2 and 6"@
        } else if image@.width == 0 || image@.height == 0 {
            output matches Err(e) && e@ == "cannot wrap a zero-size texture"@
        } else {
            output matches Ok(output) && output@ == wrapped_upscaled(image@, factor as int)
                && output@.wf()
        },
{
    let config = UpscaleConfig { factor, stitch_faces: false };
    match config.validate() {
        Err(error) => return Err(error),
        Ok(_) => {},
    }
    let (width, height) = image.dimensions();
    if width == 0 || height == 0 {
        return Err("cannot wrap a zero-size texture".to_owned());
    }
    proof {
        lemma_wrappable(width as int, height as int, factor as int);
    }
    let padded = wrap_tile(image);
    let upscaled = upscale_plain(&padded, factor);
    Ok(upscaled.crop(factor, factor, width * factor, height * factor))
}

/// A face that is painted anew: it has pixels and begins inside the texture.
pub open spec fn visible(rect: FaceRect, width: int, height: int) -> bool {
    rect.width > 0 && rect.height > 0 && rect.x < width && rect.y < height
}

/// The scaled picture of `faces[index]`: its tile with one pixel of its
/// neighbours around it, scaled, and the border cut off.
pub open spec fn face_picture(
    source: Raster,
    faces: Seq<ModelFace>,
    index: int,
    factor: int,
) -> Raster {
    let face = faces[index];
    let tile = padded_tile(
        source,
        face.rect,
        side_named(face.face@),
        first_group(faces, face.group),
        1,
    );
    plain_upscaled(tile, factor).crop(
        factor,
        factor,
        face.rect.width * factor,
        face.rect.height * factor,
    )
}

/// The pictures of the visible ones of the first `count` faces, in order.
pub open spec fn face_layers(
    source: Raster,
    faces: Seq<ModelFace>,
    factor: int,
    count: int,
) -> Seq<(FaceRect, Raster)>
    decreases count,
{
    if count <= 0 {
        Seq::empty()
    } else {
        let before = face_layers(source, faces, factor, count - 1);
        if visible(faces[count - 1].rect, source.width, source.height) {
            before.push((faces[count - 1].rect, face_picture(source, faces, count - 1, factor)))
        } else {
            before
        }
    }
}

/// `base` with the layers laid over it in order.
pub open spec fn laid(base: Raster, layers: Seq<(FaceRect, Raster)>, factor: int) -> Raster
    decreases layers.len(),
{
    if layers.len() == 0 {
        base
    } else {
        let (rect, picture) = layers.last();
        laid(base, layers.drop_last(), factor).paste(picture, rect.x * factor, rect.y * factor)
    }
}

/// A texture scaled as a whole, with every visible face painted anew.
pub open spec fn stitched(source: Raster, faces: Seq<ModelFace>, factor: int) -> Raster {
    laid(
        plain_upscaled(source, factor),
        face_layers(source, faces, factor, faces.len() as int),
        factor,
    )
}

/// The tiles of all visible faces can be made and scaled.
pub open spec fn stitchable(faces: Seq<ModelFace>, width: int, height: int, factor: int) -> bool {
    forall|i: int|
        0 <= i < faces.len() && visible((#[trigger] faces[i]).rect, width, height) ==> {
            &&& paddable(faces[i].rect, 1)
            &&& scalable(faces[i].rect.width + 2, faces[i].rect.height + 2, factor)
            &&& first_group(faces, faces[i].group).ok()
        }
}

/// The rasters that a list of painted faces stands for.
pub open spec fn layer_views(layers: Seq<(FaceRect, RgbaImage)>) -> Seq<(FaceRect, Raster)> {
    Seq::new(layers.len(), |i: int| (layers[i].0, layers[i].1@))
}

/// Lays painted faces over an image, each where its scaled rectangle begins.
pub fn lay_faces(output: &mut RgbaImage, layers: &Vec<(FaceRect, RgbaImage)>, factor: u32)
    requires
        forall|i: int|
            0 <= i < layers@.len() ==> (#[trigger] layers@[i]).0.x * factor <= u32::MAX
                && layers@[i].0.y * factor <= u32::MAX,
    ensures
        final(output)@ == laid(old(output)@, layer_views(layers@), factor as int),
        final(output)@.wf(),
{
    let ghost base = output@;
    let ghost views = layer_views(layers@);
    let (_width, _height) = output.dimensions();
    assert(views.take(0) =~= Seq::empty());
    let mut i: usize = 0;
    while i < layers.len()
        invariant
            i <= layers.len(),
            forall|i: int|
                0 <= i < layers@.len() ==> (#[trigger] layers@[i]).0.x * factor <= u32::MAX
                    && layers@[i].0.y * factor <= u32::MAX,
            views == layer_views(layers@),
            output@ == laid(base, views.take(i as int), factor as int),
            output@.wf(),
        decreases layers.len() - i,
    {
        let rect: FaceRect = layers[i].0;
        assert(layers@[i as int].0 == rect);
        assert(views.take(i + 1).drop_last() =~= views.take(i as int));
        output.paste(&layers[i].1, rect.x * factor, rect.y * factor);
        i = i + 1;
    }
    assert(views.take(i as int) =~= views);
}

/// Scales the picture of one face.
fn paint_face(image: &RgbaImage, faces: &[ModelFace], index: usize, factor: u32) -> (picture:
    RgbaImage)
    requires
        valid_factor(factor as int),
        index < faces@.len(),
        stitchable(faces@, image@.width, image@.height, factor as int),
        visible(faces@[index as int].rect, image@.width, image@.height),
    ensures
        picture@ == face_picture(image@, faces@, index as int, factor as int),
        picture@.wf(),
{
    let face = &faces[index];
    assert(visible(faces@[index as int].rect, image@.width, image@.height));
    let group = FaceGroup::first_of(faces, face.group);
    let padded = build_padded_tile(image, face, &group, 1);
    let upscaled = upscale_plain(&padded, factor);
    proof {
        lemma_wrappable(face.rect.width as int, face.rect.height as int, factor as int);
    }
    upscaled.crop(factor, factor, face.rect.width * factor, face.rect.height * factor)
}

/// Scales the texture as a whole and paints every visible face anew over it,
/// so that what no face refers to keeps the plain upscale.
fn upscale_box_faces(image: &RgbaImage, faces: &[ModelFace], factor: u32) -> (output: RgbaImage)
    requires
        valid_factor(factor as int),
        scalable(image@.width, image@.height, factor as int),
        stitchable(faces@, image@.width, image@.height, factor as int),
    ensures
        output@ == stitched(image@, faces@, factor as int),
        output@.wf(),
{
    let (width, height) = image.dimensions();
    let mut output = upscale_plain(image, factor);
    let mut layers: Vec<(FaceRect, RgbaImage)> = Vec::new();
    let mut i: usize = 0;
    assert(layer_views(layers@) =~= face_layers(image@, faces@, factor as int, 0));
    while i < faces.len()
        invariant
            i <= faces.len(),
            valid_factor(factor as int),
            scalable(image@.width, image@.height, factor as int),
            stitchable(faces@, image@.width, image@.height, factor as int),
            width == image@.width,
            height == image@.height,
            layer_views(layers@) == face_layers(image@, faces@, factor as int, i as int),
            forall|k: int|
                0 <= k < layers@.len() ==> (#[trigger] layers@[k]).0.x * factor <= u32::MAX
                    && layers@[k].0.y * factor <= u32::MAX,
        decreases faces.len() - i,
    {
        let rect: FaceRect = faces[i].rect;
        if rect.width > 0 && rect.height > 0 && rect.x < width && rect.y < height {
            let picture = paint_face(image, faces, i, factor);
            let ghost before = layer_views(layers@);
            assert(rect.x * factor <= width * factor && rect.y * factor <= height * factor)
                by (nonlinear_arith)
                requires
                    rect.x < width,
                    rect.y < height,
            ;
            layers.push((rect, picture));
            assert(layer_views(layers@) =~= before.push((rect, picture@)));
        }
        i = i + 1;
    }
    lay_faces(&mut output, &layers, factor);
    output
}

/// Upscales an image by xBRZ, with seams between model faces repaired when
/// the configuration asks for it.
pub fn upscale_image(
    image: &RgbaImage,
    faces: Option<&[ModelFace]>,
    config: &UpscaleConfig,
) -> (output: Result<RgbaImage, String>)
    requires
        valid_factor(config.factor as int) ==> scalable(
            image@.width,
            image@.height,
            config.factor as int,
        ),
        valid_factor(config.factor as int) && config.stitch_faces ==> (faces matches Some(faces)
            ==> stitchable(faces@, image@.width, image@.height, config.factor as int)),
    ensures
        if !valid_factor(config.factor as int) {
            output matches Err(e) && e@ == "factor must be between 2 and 6"@
        } else if !config.stitch_faces {
            output matches Ok(output) && output@ == plain_upscaled(image@, config.factor as int)
                && output@.wf()
        } else {
            match faces {
                None => output matches Err(e) && e@ == "stitching requires model faces"@,
                Some(faces) => if faces@.len() == 0 {
                    output matches Err(e) && e@ == "stitching requires at least one model face"@
                } else {
                    output matches Ok(output) && output@ == stitched(
                        image@,
                        faces@,
                        config.factor as int,
                    ) && output@.wf()
                },
            }
        },
{
    match config.validate() {
        Err(error) => return Err(error),
        Ok(_) => {},
    }
    if !config.stitch_faces {
        return Ok(upscale_plain(image, config.factor));
    }
    match faces {
        None => Err("stitching requires model faces".to_owned()),
        Some(faces) => {
            if faces.len() == 0 {
                return Err("stitching requires at least one model face".to_owned());
            }
            Ok(upscale_box_faces(image, faces, config.factor))
        },
    }
}

/// The boxes among the faces.
pub open spec fn boxes(faces: Seq<ModelFace>) -> Set<u32> {
    faces.map_values(|face: ModelFace| face.group).to_set()
}

/// How many boxes the faces belong to.
pub fn box_count(faces: &[ModelFace]) -> (count: usize)
    ensures
        count == boxes(faces@).len(),
{
    broadcast use vstd::seq_lib::seq_to_set_is_finite;

    let ghost groups = faces@.map_values(|face: ModelFace| face.group);
    let mut count: usize = 0;
    let mut i: usize = 0;
    assert(groups.take(0).to_set() =~= Set::empty());
    while i < faces.len()
        invariant
            i <= faces.len(),
            count <= i,
            groups == faces@.map_values(|face: ModelFace| face.group),
            count == groups.take(i as int).to_set().len(),
        decreases faces.len() - i,
    {
        let group: u32 = faces[i].group;
        let mut seen: bool = false;
        let mut k: usize = 0;
        while k < i
            invariant
                k <= i < faces.len(),
                groups == faces@.map_values(|face: ModelFace| face.group),
                seen == exists|j: int| 0 <= j < k && groups[j] == group,
            decreases i - k,
        {
            if faces[k].group == group {
                assert(groups[k as int] == group);
                seen = true;
            }
            k = k + 1;
        }
        let ghost before = groups.take(i as int);
        let ghost after = groups.take(i + 1);
        proof {
            assert(after =~= before.push(group));
            assert forall|g: u32| after.to_set().contains(g) implies before.to_set().insert(
                group,
            ).contains(g) by {
                let j = choose|j: int| 0 <= j < after.len() && after[j] == g;
                if j < i {
                    assert(before[j] == g);
                }
            }
            assert forall|g: u32| before.to_set().insert(group).contains(g) implies
                after.to_set().contains(g) by {
                if g == group {
                    assert(after[i as int] == g);
                } else {
                    let j = choose|j: int| 0 <= j < before.len() && before[j] == g;
                    assert(after[j] == g);
                }
            }
            assert(after.to_set() =~= before.to_set().insert(group));
            if seen {
                let j = choose|j: int| 0 <= j < i && groups[j] == group;
                assert(before[j] == group);
                assert(before.to_set().contains(group));
            } else {
                if before.to_set().contains(group) {
                    let j = choose|j: int| 0 <= j < before.len() && before[j] == group;
                    assert(groups[j] == group);
                }
            }
        }
        if !seen {
            count = count + 1;
        }
        i = i + 1;
    }
    assert(groups.take(i as int) =~= groups);
    count
}

proof fn lemma_shaved_size(length: int, factor: int)
    requires
        length >= 0,
        factor >= 0,
    ensures
        least(
            length * factor,
            (length + 2) * factor - least(factor, (length + 2) * factor),
        ) == length * factor,
{
    assert((length + 2) * factor == length * factor + 2 * factor) by (nonlinear_arith);
    assert(0 <= length * factor) by (nonlinear_arith)
        requires
            length >= 0,
            factor >= 0,
    ;
}

/// A wrapped upscale has the size of a plain one.
pub proof fn wrapped_upscale_has_plain_size(source: Raster, factor: int)
    requires
        source.wf(),
        factor >= 0,
    ensures
        wrapped_upscaled(source, factor).width == plain_upscaled(source, factor).width,
        wrapped_upscaled(source, factor).height == plain_upscaled(source, factor).height,
{
    lemma_shaved_size(source.width, factor);
    lemma_shaved_size(source.height, factor);
}

/// A self-tiling border repeats the texture periodically: the raster itself
/// in the middle, and on each border line the line one period further.
pub proof fn wrapping_continues_the_texture(source: Raster, x: int, y: int)
    requires
        source.width > 0,
        source.height > 0,
        0 <= x < source.width + 2,
        0 <= y < source.height + 2,
    ensures
        1 <= x <= source.width && 1 <= y <= source.height ==> wrapped(source).at(x, y)
            == source.at(x - 1, y - 1),
        x == 0 ==> wrapped(source).at(x, y) == wrapped(source).at(source.width, y),
        x == source.width + 1 ==> wrapped(source).at(x, y) == wrapped(source).at(1, y),
        y == 0 ==> wrapped(source).at(x, y) == wrapped(source).at(x, source.height),
        y == source.height + 1 ==> wrapped(source).at(x, y) == wrapped(source).at(x, 1),
{
    let w = source.width;
    let h = source.height;
    let f = |x: int, y: int| source.at((x + w - 1) % w, (y + h - 1) % h);
    lemma_build_at(w + 2, h + 2, f, x, y);
    lemma_build_at(w + 2, h + 2, f, w, y);
    lemma_build_at(w + 2, h + 2, f, 1, y);
    lemma_build_at(w + 2, h + 2, f, x, h);
    lemma_build_at(w + 2, h + 2, f, x, 1);
    lemma_period(x, w);
    lemma_period(y, h);
}

proof fn lemma_period(v: int, length: int)
    requires
        length > 0,
        0 <= v < length + 2,
    ensures
        1 <= v <= length ==> (v + length - 1) % length == v - 1,
        (length + length - 1) % length == length - 1,
        (0 + length - 1) % length == length - 1,
        (length + 1 + length - 1) % length == 0,
        (1 + length - 1) % length == 0,
{
    if 1 <= v <= length {
        assert((v + length - 1) % length == v - 1) by (nonlinear_arith)
            requires
                0 <= v - 1 < length,
        ;
    }
    assert((length + length - 1) % length == length - 1) by (nonlinear_arith)
        requires
            length > 0,
    ;
    assert((length - 1) % length == length - 1) by (nonlinear_arith)
        requires
            length > 0,
    ;
    assert((length + length) % length == 0) by (nonlinear_arith)
        requires
            length > 0,
    ;
    assert(length % length == 0) by (nonlinear_arith)
        requires
            length > 0,
    ;
}

/// `(x, y)` of the output lies in the scaled rectangle.
pub open spec fn repaints(rect: FaceRect, factor: int, x: int, y: int) -> bool {
    &&& rect.x * factor <= x < rect.x * factor + rect.width * factor
    &&& rect.y * factor <= y < rect.y * factor + rect.height * factor
}

proof fn lemma_laid_size(base: Raster, layers: Seq<(FaceRect, Raster)>, factor: int)
    ensures
        laid(base, layers, factor).width == base.width,
        laid(base, layers, factor).height == base.height,
    decreases layers.len(),
{
    if layers.len() > 0 {
        lemma_laid_size(base, layers.drop_last(), factor);
    }
}

/// A stitched upscale has the size of a plain one.
pub proof fn stitched_upscale_has_plain_size(source: Raster, faces: Seq<ModelFace>, factor: int)
    ensures
        stitched(source, faces, factor).width == plain_upscaled(source, factor).width,
        stitched(source, faces, factor).height == plain_upscaled(source, factor).height,
{
    lemma_laid_size(
        plain_upscaled(source, factor),
        face_layers(source, faces, factor, faces.len() as int),
        factor,
    );
}

proof fn lemma_picture_size(source: Raster, faces: Seq<ModelFace>, index: int, factor: int)
    requires
        factor >= 0,
    ensures
        face_picture(source, faces, index, factor).width == faces[index].rect.width * factor,
        face_picture(source, faces, index, factor).height == faces[index].rect.height * factor,
{
    lemma_shaved_size(faces[index].rect.width as int, factor);
    lemma_shaved_size(faces[index].rect.height as int, factor);
}

/// The picture with the first `count` faces painted.
pub open spec fn painted(source: Raster, faces: Seq<ModelFace>, factor: int, count: int) -> Raster {
    laid(
        plain_upscaled(source, factor),
        face_layers(source, faces, factor, count),
        factor,
    )
}

/// Painting one more face changes the pixels of its scaled rectangle and no
/// other.
proof fn lemma_paint_step(
    source: Raster,
    faces: Seq<ModelFace>,
    factor: int,
    count: int,
    x: int,
    y: int,
)
    requires
        factor >= 0,
        0 < count <= faces.len(),
        plain_upscaled(source, factor).has(x, y),
    ensures
        ({
            let rect = faces[count - 1].rect;
            painted(source, faces, factor, count).at(x, y) == if visible(
                rect,
                source.width,
                source.height,
            ) && repaints(rect, factor, x, y) {
                face_picture(source, faces, count - 1, factor).at(
                    x - rect.x * factor,
                    y - rect.y * factor,
                )
            } else {
                painted(source, faces, factor, count - 1).at(x, y)
            }
        }),
{
    let rect = faces[count - 1].rect;
    let before = face_layers(source, faces, factor, count - 1);
    let base = plain_upscaled(source, factor);
    if visible(rect, source.width, source.height) {
        let picture = face_picture(source, faces, count - 1, factor);
        lemma_picture_size(source, faces, count - 1, factor);
        lemma_laid_size(base, before, factor);
        let after = before.push((rect, picture));
        assert(after.drop_last() =~= before);
        let under = laid(base, before, factor);
        let px = rect.x * factor;
        let py = rect.y * factor;
        lemma_build_at(
            under.width,
            under.height,
            |i: int, j: int|
                if picture.has(i - px, j - py) {
                    picture.at(i - px, j - py)
                } else {
                    under.at(i, j)
                },
            x,
            y,
        );
    }
}

/// What no visible face refers to keeps the plain upscale.
pub proof fn unreferenced_texture_keeps_the_plain_upscale(
    source: Raster,
    faces: Seq<ModelFace>,
    factor: int,
    x: int,
    y: int,
)
    requires
        factor >= 0,
        plain_upscaled(source, factor).has(x, y),
        forall|i: int|
            0 <= i < faces.len() && visible(
                (#[trigger] faces[i]).rect,
                source.width,
                source.height,
            ) ==> !repaints(faces[i].rect, factor, x, y),
    ensures
        stitched(source, faces, factor).at(x, y) == plain_upscaled(source, factor).at(x, y),
{
    lemma_untouched(source, faces, factor, 0, faces.len() as int, x, y);
}

proof fn lemma_untouched(
    source: Raster,
    faces: Seq<ModelFace>,
    factor: int,
    from: int,
    count: int,
    x: int,
    y: int,
)
    requires
        factor >= 0,
        0 <= from <= count <= faces.len(),
        plain_upscaled(source, factor).has(x, y),
        forall|i: int|
            from <= i < count && visible(
                (#[trigger] faces[i]).rect,
                source.width,
                source.height,
            ) ==> !repaints(faces[i].rect, factor, x, y),
    ensures
        painted(source, faces, factor, count).at(x, y) == painted(source, faces, factor, from).at(
            x,
            y,
        ),
    decreases count,
{
    if count > from {
        lemma_untouched(source, faces, factor, from, count - 1, x, y);
        lemma_paint_step(source, faces, factor, count, x, y);
    }
}

/// Each output pixel of a visible face shows the face's own picture, unless a
/// later face covers it.
pub proof fn the_last_face_shows(
    source: Raster,
    faces: Seq<ModelFace>,
    factor: int,
    index: int,
    x: int,
    y: int,
)
    requires
        factor >= 0,
        0 <= index < faces.len(),
        plain_upscaled(source, factor).has(x, y),
        visible(faces[index].rect, source.width, source.height),
        repaints(faces[index].rect, factor, x, y),
        forall|i: int|
            index < i < faces.len() && visible(
                (#[trigger] faces[i]).rect,
                source.width,
                source.height,
            ) ==> !repaints(faces[i].rect, factor, x, y),
    ensures
        stitched(source, faces, factor).at(x, y) == face_picture(source, faces, index, factor).at(
            x - faces[index].rect.x * factor,
            y - faces[index].rect.y * factor,
        ),
{
    lemma_untouched(source, faces, factor, index + 1, faces.len() as int, x, y);
    lemma_paint_step(source, faces, factor, index + 1, x, y);
}

/// The factors from two to six are accepted, and no other.
pub proof fn factors_run_from_two_to_six(config: UpscaleConfig, checked: Result<(), String>)
    requires
        call_ensures(UpscaleConfig::validate, (&config,), checked),
    ensures
        checked is Ok <==> 2 <= config.factor <= 6,
        checked matches Err(e) ==> e@ == "factor must be between 2 and 6"@,
{
}

/// A tiling texture is scaled in the middle of its own continuation: a pixel of
/// the wrapped upscale is the one that lies a scaled pixel further in the upscale
/// of the bordered texture.
pub proof fn wrapped_upscales_are_cut_from_the_bordered_one(
    image: RgbaImage,
    factor: u32,
    output: RgbaImage,
    bordered: RgbaImage,
    x: int,
    y: int,
)
    requires
        image@.wf(),
        call_ensures(upscale_wrapped, (&image, factor), Ok::<RgbaImage, String>(output)),
        call_ensures(wrap_tile, (&image,), bordered),
        0 <= x < image@.width * factor,
        0 <= y < image@.height * factor,
    ensures
        output@.width == image@.width * factor,
        output@.height == image@.height * factor,
        output@.at(x, y) == plain_upscaled(bordered@, factor as int).at(factor + x, factor + y),
{
    let f = factor as int;
    let w = image@.width;
    let h = image@.height;
    lemma_shaved_size(w, f);
    lemma_shaved_size(h, f);
    assert((w + 2) * f == w * f + 2 * f && (h + 2) * f == h * f + 2 * f) by (nonlinear_arith);
    let big = plain_upscaled(bordered@, f);
    lemma_build_at(w * f, h * f, |i: int, j: int| big.at(f + i, f + j), x, y);
}

/// The border of a tiling texture shows the opposite edge, corners the opposite
/// corner, and inside it is the texture itself.
pub proof fn tiling_borders_show_the_opposite_edge(
    image: RgbaImage,
    bordered: RgbaImage,
    x: int,
    y: int,
)
    requires
        image@.wf(),
        image@.width > 0,
        image@.height > 0,
        call_ensures(wrap_tile, (&image,), bordered),
        0 <= x < image@.width,
        0 <= y < image@.height,
    ensures
        ({
            let w = image@.width;
            let h = image@.height;
            &&& bordered@.width == w + 2 && bordered@.height == h + 2
            &&& bordered@.at(x + 1, y + 1) == image@.at(x, y)
            &&& bordered@.at(0, y + 1) == image@.at(w - 1, y)
            &&& bordered@.at(w + 1, y + 1) == image@.at(0, y)
            &&& bordered@.at(x + 1, 0) == image@.at(x, h - 1)
            &&& bordered@.at(x + 1, h + 1) == image@.at(x, 0)
            &&& bordered@.at(0, 0) == image@.at(w - 1, h - 1)
            &&& bordered@.at(w + 1, 0) == image@.at(0, h - 1)
            &&& bordered@.at(0, h + 1) == image@.at(w - 1, 0)
            &&& bordered@.at(w + 1, h + 1) == image@.at(0, 0)
        }),
{
    let s = image@;
    let w = s.width;
    let h = s.height;
    wrapping_continues_the_texture(s, x + 1, y + 1);
    wrapping_continues_the_texture(s, 0, y + 1);
    wrapping_continues_the_texture(s, w, y + 1);
    wrapping_continues_the_texture(s, w + 1, y + 1);
    wrapping_continues_the_texture(s, 1, y + 1);
    wrapping_continues_the_texture(s, x + 1, 0);
    wrapping_continues_the_texture(s, x + 1, h);
    wrapping_continues_the_texture(s, x + 1, h + 1);
    wrapping_continues_the_texture(s, x + 1, 1);
    wrapping_continues_the_texture(s, 0, 0);
    wrapping_continues_the_texture(s, w, 0);
    wrapping_continues_the_texture(s, w, h);
    wrapping_continues_the_texture(s, w + 1, 0);
    wrapping_continues_the_texture(s, 1, 0);
    wrapping_continues_the_texture(s, 1, h);
    wrapping_continues_the_texture(s, 0, h + 1);
    wrapping_continues_the_texture(s, w, h + 1);
    wrapping_continues_the_texture(s, w, 1);
    wrapping_continues_the_texture(s, w + 1, h + 1);
    wrapping_continues_the_texture(s, 1, h + 1);
    wrapping_continues_the_texture(s, 1, 1);
}

/// A texture without pixels does not tile, and a wrong factor is refused before
/// that.
pub proof fn wrapping_wants_a_factor_and_pixels(
    image: RgbaImage,
    factor: u32,
    output: Result<RgbaImage, String>,
)
    requires
        call_ensures(upscale_wrapped, (&image, factor), output),
    ensures
        !(2 <= factor <= 6) ==> (output matches Err(e) && e@ == "factor must be between 2 and 6"@),
        2 <= factor <= 6 && (image@.width == 0 || image@.height == 0) ==> (output matches Err(e)
            && e@ == "cannot wrap a zero-size texture"@),
        2 <= factor <= 6 && image@.width > 0 && image@.height > 0 ==> output is Ok,
{
}

/// The picture of a face is cut from the upscale of the face's tile: the face as
/// it is in the texture, with one pixel around it of the faces that join it, of
/// which the first on each side counts.
pub proof fn face_pictures_are_cut_from_their_tiles(
    image: RgbaImage,
    faces: &[ModelFace],
    index: int,
    factor: int,
    group: FaceGroup,
    tile: RgbaImage,
    x: int,
    y: int,
)
    requires
        0 <= index < faces@.len(),
        factor >= 0,
        call_ensures(FaceGroup::first_of, (faces, faces@[index].group), group),
        call_ensures(build_padded_tile, (&image, &faces@[index], &group, 1), tile),
        0 <= x < faces@[index].rect.width * factor,
        0 <= y < faces@[index].rect.height * factor,
    ensures
        face_picture(image@, faces@, index, factor).width == faces@[index].rect.width * factor,
        face_picture(image@, faces@, index, factor).height == faces@[index].rect.height * factor,
        face_picture(image@, faces@, index, factor).at(x, y) == plain_upscaled(tile@, factor).at(
            factor + x,
            factor + y,
        ),
{
    let w = faces@[index].rect.width as int;
    let h = faces@[index].rect.height as int;
    lemma_picture_size(image@, faces@, index, factor);
    lemma_shaved_size(w, factor);
    lemma_shaved_size(h, factor);
    assert((w + 2) * factor == w * factor + 2 * factor && (h + 2) * factor == h * factor + 2
        * factor) by (nonlinear_arith);
    assert(0 <= w * factor && 0 <= h * factor) by (nonlinear_arith)
        requires
            w >= 0,
            h >= 0,
            factor >= 0,
    ;
    let big = plain_upscaled(tile@, factor);
    lemma_build_at(w * factor, h * factor, |i: int, j: int| big.at(factor + i, factor + j), x, y);
}

/// With stitching on, an output pixel in the scaled rectangle of a face that
/// begins in the texture shows that face's picture, unless a later face covers
/// it; a pixel in no face's scaled rectangle is as xBRZ scales it.
pub proof fn stitching_paints_every_face_anew(
    image: RgbaImage,
    faces: &[ModelFace],
    factor: u32,
    output: RgbaImage,
    index: int,
    x: int,
    y: int,
)
    requires
        call_ensures(
            upscale_image,
            (&image, Some(faces), &UpscaleConfig { factor, stitch_faces: true }),
            Ok::<RgbaImage, String>(output),
        ),
        0 <= x < image@.width * factor,
        0 <= y < image@.height * factor,
    ensures
        output@.width == image@.width * factor,
        output@.height == image@.height * factor,
        0 <= index < faces@.len() && faces@[index].rect.width > 0 && faces@[index].rect.height > 0
            && faces@[index].rect.x < image@.width && faces@[index].rect.y < image@.height
            && repaints(faces@[index].rect, factor as int, x, y) && (forall|i: int|
            index < i < faces@.len() ==> !repaints((#[trigger] faces@[i]).rect, factor as int, x, y))
            ==> output@.at(x, y) == face_picture(image@, faces@, index, factor as int).at(
            x - faces@[index].rect.x * factor,
            y - faces@[index].rect.y * factor,
        ),
        (forall|i: int|
            0 <= i < faces@.len() ==> !repaints((#[trigger] faces@[i]).rect, factor as int, x, y))
            ==> output@.at(x, y) == plain_upscaled(image@, factor as int).at(x, y),
{
    let f = factor as int;
    stitched_upscale_has_plain_size(image@, faces@, f);
    if 0 <= index < faces@.len() && faces@[index].rect.width > 0 && faces@[index].rect.height > 0
        && faces@[index].rect.x < image@.width && faces@[index].rect.y < image@.height && repaints(
        faces@[index].rect,
        f,
        x,
        y,
    ) && (forall|i: int|
        index < i < faces@.len() ==> !repaints((#[trigger] faces@[i]).rect, f, x, y)) {
        the_last_face_shows(image@, faces@, f, index, x, y);
    }
    if forall|i: int| 0 <= i < faces@.len() ==> !repaints((#[trigger] faces@[i]).rect, f, x, y) {
        unreferenced_texture_keeps_the_plain_upscale(image@, faces@, f, x, y);
    }
}

/// A pixel of the output lies in a face's scaled rectangle just where the texture
/// pixel it comes from lies in the face.
pub proof fn scaled_rectangles_cover_the_scaled_pixels(
    rect: FaceRect,
    factor: int,
    i: int,
    j: int,
    a: int,
    b: int,
)
    requires
        0 <= a < factor,
        0 <= b < factor,
    ensures
        repaints(rect, factor, i * factor + a, j * factor + b) <==> rect.covers(i, j),
{
    let x = i * factor + a;
    let y = j * factor + b;
    lemma_scaled_range(rect.x as int, rect.width as int, factor, i, a);
    lemma_scaled_range(rect.y as int, rect.height as int, factor, j, b);
}

proof fn lemma_scaled_range(start: int, length: int, factor: int, i: int, a: int)
    requires
        0 <= a < factor,
    ensures
        (start * factor <= i * factor + a < start * factor + length * factor) == (start <= i < start
            + length),
{
    if i < start {
        assert(i * factor + a < start * factor) by (nonlinear_arith)
            requires
                i + 1 <= start,
                0 <= a < factor,
        ;
    } else {
        assert(i * factor + a >= start * factor) by (nonlinear_arith)
            requires
                i >= start,
                0 <= a < factor,
        ;
    }
    if i < start + length {
        assert(i * factor + a < start * factor + length * factor) by (nonlinear_arith)
            requires
                i + 1 <= start + length,
                0 <= a < factor,
        ;
    } else {
        assert(i * factor + a >= start * factor + length * factor) by (nonlinear_arith)
            requires
                i >= start + length,
                0 <= a < factor,
        ;
    }
}

/// Without stitching an image is scaled by xBRZ, whatever faces there are; with
/// it there must be faces. A wrong factor is refused before anything else.
pub proof fn stitching_wants_faces_and_nothing_else_does(
    image: RgbaImage,
    faces: Option<&[ModelFace]>,
    config: UpscaleConfig,
    output: Result<RgbaImage, String>,
)
    requires
        call_ensures(upscale_image, (&image, faces, &config), output),
    ensures
        !(2 <= config.factor <= 6) ==> (output matches Err(e) && e@
            == "factor must be between 2 and 6"@),
        2 <= config.factor <= 6 && !config.stitch_faces ==> (output matches Ok(output) && output@
            == plain_upscaled(image@, config.factor as int)),
        2 <= config.factor <= 6 && config.stitch_faces && faces is None ==> (output matches Err(e)
            && e@ == "stitching requires model faces"@),
        2 <= config.factor <= 6 && config.stitch_faces && (faces matches Some(faces) && faces@.len()
            == 0) ==> (output matches Err(e) && e@ == "stitching requires at least one model face"@),
        2 <= config.factor <= 6 && config.stitch_faces && (faces matches Some(faces) && faces@.len()
            > 0) ==> output is Ok,
{
}

/// The boxes among the faces are those that a face belongs to, each counted once.
pub proof fn boxes_are_counted_once(faces: &[ModelFace], count: usize, group: u32)
    requires
        call_ensures(box_count, (faces,), count),
    ensures
        boxes(faces@).contains(group) <==> exists|i: int|
            0 <= i < faces@.len() && (#[trigger] faces@[i]).group == group,
        boxes(faces@).finite(),
        count == boxes(faces@).len(),
        count <= faces@.len(),
{
    broadcast use vstd::seq_lib::seq_to_set_is_finite;

    let groups = faces@.map_values(|face: ModelFace| face.group);
    groups.lemma_cardinality_of_set();
    if boxes(faces@).contains(group) {
        let i = choose|i: int| 0 <= i < groups.len() && groups[i] == group;
        assert(faces@[i].group == group);
    }
    if exists|i: int| 0 <= i < faces@.len() && (#[trigger] faces@[i]).group == group {
        let i = choose|i: int| 0 <= i < faces@.len() && (#[trigger] faces@[i]).group == group;
        assert(groups[i] == group);
    }
}

/// One painted face more is laid over what the others made, where its scaled
/// rectangle begins.
pub proof fn painted_faces_are_laid_one_over_the_other(
    output: &mut RgbaImage,
    other: &mut RgbaImage,
    few: Vec<(FaceRect, RgbaImage)>,
    more: Vec<(FaceRect, RgbaImage)>,
    rect: FaceRect,
    picture: RgbaImage,
    factor: u32,
    done: (),
)
    requires
        call_ensures(lay_faces, (output, &few, factor), done),
        call_ensures(lay_faces, (other, &more, factor), done),
        old(output)@ == old(other)@,
        more@ == few@.push((rect, picture)),
    ensures
        few@.len() == 0 ==> final(output)@ == old(output)@,
        final(other)@ == final(output)@.paste(picture@, rect.x * factor, rect.y * factor),
{
    let views = layer_views(more@);
    assert(views.drop_last() =~= layer_views(few@));
    assert(views.last() == (rect, picture@));
}

} // verus!
