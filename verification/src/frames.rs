//! Scaling an animated texture frame by frame.
use crate::codec::{plain_upscaled, scalable};
use crate::limits::{can_scale, lemma_smaller_scales};
use crate::model::ModelFace;
use crate::raster::{fits, least, lemma_build_at, lemma_build_ext, Raster, Rgba, RgbaImage};
use crate::render::{can_render, render_texture, renderable, rendering};
use crate::upscaling::{
    stitched_upscale_has_plain_size, valid_factor, wrapped_upscale_has_plain_size, MAX_FACTOR,
};
use vstd::prelude::*;

verus! {

/// How many whole frames an image holds; one with less than a frame is one.
pub open spec fn frame_count(height: int, frame_height: int) -> int {
    if height / frame_height < 1 {
        1
    } else {
        height / frame_height
    }
}

/// Frame `k` of an image.
pub open spec fn frame(source: Raster, frame_height: int, k: int) -> Raster {
    source.crop(
        0,
        k * frame_height,
        source.width,
        least(frame_height, source.height - k * frame_height),
    )
}

/// Pictures of equal size, one below the other.
pub open spec fn stacked(pictures: Seq<Raster>, width: int, height: int) -> Raster {
    Raster::build(
        width,
        pictures.len() * height,
        |x: int, y: int| pictures[y / height].at(x, y % height),
    )
}

/// The rendered frames of an image.
pub open spec fn rendered_frames(
    source: Raster,
    frame_height: int,
    faces: Seq<ModelFace>,
    wrap: bool,
    factor: int,
) -> Seq<Raster> {
    Seq::new(
        frame_count(source.height, frame_height) as nat,
        |k: int|
            match rendering(frame(source, frame_height, k), faces, wrap, factor) {
                Ok(raster) => raster,
                Err(_) => source,
            },
    )
}

/// An animated texture, each frame of it rendered by itself.
pub open spec fn animated(
    source: Raster,
    frame_height: int,
    faces: Seq<ModelFace>,
    wrap: bool,
    factor: int,
) -> Result<Raster, Seq<char>> {
    match rendering(frame(source, frame_height, 0), faces, wrap, factor) {
        Err(message) => Err(message),
        Ok(_) => Ok(
            stacked(
                rendered_frames(source, frame_height, faces, wrap, factor),
                source.width * factor,
                least(frame_height, source.height) * factor,
            ),
        ),
    }
}

/// The frames of an image can be rendered and put together.
pub open spec fn animatable(
    width: int,
    height: int,
    frame_height: int,
    faces: Seq<ModelFace>,
    wrap: bool,
    factor: int,
) -> bool {
    &&& 1 <= frame_height
    &&& frame_height <= height || frame_height == 1
    &&& valid_factor(factor) ==> scalable(width, height, factor)
    &&& renderable(faces, wrap, width, least(frame_height, height), factor)
}

/// Whether the frames of an image can be rendered and put together.
pub fn can_animate(
    width: u32,
    height: u32,
    frame_height: u32,
    faces: &[ModelFace],
    wrap: bool,
    factor: u32,
) -> (can: bool)
    ensures
        can == animatable(
            width as int,
            height as int,
            frame_height as int,
            faces@,
            wrap,
            factor as int,
        ),
{
    if frame_height < 1 || (frame_height > height && frame_height != 1) {
        return false;
    }
    if 2 <= factor && factor <= MAX_FACTOR && !can_scale(width as u64, height as u64, factor) {
        return false;
    }
    let band_height: u32 = if frame_height <= height {
        frame_height
    } else {
        height
    };
    can_render(faces, wrap, width, band_height, factor)
}

proof fn lemma_frame(source: Raster, frame_height: int, k: int)
    requires
        source.wf(),
        1 <= frame_height,
        frame_height <= source.height || frame_height == 1,
        0 <= k < frame_count(source.height, frame_height),
    ensures
        0 <= k * frame_height <= source.height,
        frame(source, frame_height, k).width == source.width,
        frame(source, frame_height, k).height == least(frame_height, source.height),
        frame(source, frame_height, k).wf(),
        least(frame_height, source.height - k * frame_height) == least(
            frame_height,
            source.height,
        ),
{
    let h = source.height;
    if h == 0 {
        assert(frame_height == 1);
        assert(k * frame_height == 0) by (nonlinear_arith)
            requires
                k == 0,
        ;
    } else {
        assert(frame_height <= h);
        assert(h / frame_height >= 1) by (nonlinear_arith)
            requires
                1 <= frame_height <= h,
        ;
        assert(k * frame_height + frame_height <= h && 0 <= k * frame_height) by (nonlinear_arith)
            requires
                0 <= k < h / frame_height,
                frame_height >= 1,
        ;
    }
    let w = source.width;
    let band = least(frame_height, h);
    assert(0 <= w * band <= w * h) by (nonlinear_arith)
        requires
            0 <= w,
            0 <= band <= h,
    ;
}

/// A rendered texture is `factor` times as wide and high as its source.
pub proof fn rendering_scales_the_size(
    source: Raster,
    faces: Seq<ModelFace>,
    wrap: bool,
    factor: int,
)
    requires
        source.wf(),
        rendering(source, faces, wrap, factor) is Ok,
    ensures
        rendering(source, faces, wrap, factor)->Ok_0.width == source.width * factor,
        rendering(source, faces, wrap, factor)->Ok_0.height == source.height * factor,
{
    stitched_upscale_has_plain_size(source, faces, factor);
    wrapped_upscale_has_plain_size(source, factor);
}

proof fn lemma_row(y: int, count: int, height: int)
    requires
        0 <= y < count * height,
        height >= 0,
    ensures
        height > 0,
        0 <= y / height < count,
{
    assert(height > 0) by (nonlinear_arith)
        requires
            0 <= y < count * height,
            height >= 0,
    ;
    assert(0 <= y / height < count) by (nonlinear_arith)
        requires
            0 <= y < count * height,
            height > 0,
    ;
}

/// Puts pictures of equal size one below the other.
fn stack(pictures: &Vec<RgbaImage>, width: u32, height: u32) -> (image: RgbaImage)
    requires
        forall|k: int|
            0 <= k < pictures@.len() ==> (#[trigger] pictures@[k])@.width == width
                && pictures@[k]@.height == height,
        pictures@.len() * height <= u32::MAX,
        fits(width as int, pictures@.len() * height),
    ensures
        image@ == stacked(
            pictures@.map_values(|picture: RgbaImage| picture@),
            width as int,
            height as int,
        ),
        image@.wf(),
{
    let ghost views = pictures@.map_values(|picture: RgbaImage| picture@);
    let ghost f = |x: int, y: int| views[y / (height as int)].at(x, y % (height as int));
    let total: u32 = stacked_height(pictures, height);
    let pixel_at = |x: u32, y: u32| -> (pixel: Rgba)
        requires
            x < width,
            y < total,
        ensures
            pixel == pictures@[y as int / (height as int)]@.at(
                x as int,
                y as int % (height as int),
            ),
    {
        proof {
            lemma_row(y as int, pictures@.len() as int, height as int);
        }
        let k: usize = (y / height) as usize;
        pictures[k].get_pixel(x, y % height)
    };
    let image = RgbaImage::from_fn(width, total, pixel_at);
    proof {
        assert forall|x: int, y: int| #![trigger image@.at(x, y)] image@.has(x, y) implies image@.at(
            x,
            y,
        ) == f(x, y) by {
            lemma_row(y, pictures@.len() as int, height as int);
            assert(views[y / (height as int)] == pictures@[y / (height as int)]@);
        }
        lemma_build_ext(image@, f);
    }
    image
}

fn stacked_height(pictures: &Vec<RgbaImage>, height: u32) -> (total: u32)
    requires
        pictures@.len() * height <= u32::MAX,
    ensures
        total == pictures@.len() * height,
{
    let mut total: u32 = 0;
    let mut i: usize = 0;
    while i < pictures.len()
        invariant
            i <= pictures.len(),
            total == i * height,
            pictures@.len() * height <= u32::MAX,
        decreases pictures.len() - i,
    {
        assert((i + 1) * height <= pictures@.len() * height && (i + 1) * height == i * height
            + height) by (nonlinear_arith)
            requires
                i + 1 <= pictures@.len(),
        ;
        total = total + height;
        i = i + 1;
    }
    total
}

/// Scales an animated texture frame by frame, and says whether its frames
/// were stitched.
pub fn upscale_animated(
    image: &RgbaImage,
    frame_height: u32,
    faces: &[ModelFace],
    wrap: bool,
    factor: u32,
) -> (output: Result<(RgbaImage, bool), String>)
    requires
        animatable(
            image@.width,
            image@.height,
            frame_height as int,
            faces@,
            wrap,
            factor as int,
        ),
    ensures
        match animated(image@, frame_height as int, faces@, wrap, factor as int) {
            Ok(raster) => output matches Ok((picture, stitched)) && picture@ == raster
                && picture@.wf() && stitched == (faces@.len() > 0),
            Err(message) => output matches Err(e) && e@ == message,
        },
{
    let (width, height) = image.dimensions();
    let whole: u32 = height / frame_height;
    let count: u32 = if whole < 1 {
        1
    } else {
        whole
    };
    let band_height: u32 = if frame_height <= height {
        frame_height
    } else {
        height
    };
    let ghost fh = frame_height as int;
    let ghost f = factor as int;
    let ghost wanted = rendered_frames(image@, fh, faces@, wrap, f);
    assert(count == frame_count(image@.height, fh));
    let mut pictures: Vec<RgbaImage> = Vec::new();
    let mut k: u32 = 0;
    while k < count
        invariant
            k <= count,
            count == frame_count(image@.height, fh),
            width == image@.width,
            height == image@.height,
            image@.wf(),
            fh == frame_height,
            f == factor,
            band_height == least(fh, height as int),
            animatable(width as int, height as int, fh, faces@, wrap, f),
            wanted == rendered_frames(image@, fh, faces@, wrap, f),
            pictures@.len() == k,
            k > 0 ==> rendering(frame(image@, fh, 0), faces@, wrap, f) is Ok,
            forall|i: int|
                0 <= i < k ==> (#[trigger] pictures@[i])@ == wanted[i] && pictures@[i]@.width
                    == width * factor && pictures@[i]@.height == band_height * factor,
        decreases count - k,
    {
        proof {
            lemma_frame(image@, fh, k as int);
            lemma_frame(image@, fh, 0);
        }
        let band = image.crop(0, k * frame_height, width, band_height);
        assert(band@ == frame(image@, fh, k as int));
        match render_texture(&band, faces, wrap, factor) {
            Ok(picture) => {
                proof {
                    rendering_scales_the_size(band@, faces@, wrap, f);
                }
                pictures.push(picture);
            },
            Err(error) => {
                return Err(error);
            },
        }
        k = k + 1;
    }
    proof {
        lemma_frame(image@, fh, 0);
        lemma_frame(image@, fh, count - 1);
        assert((count - 1) * fh + fh == count * fh) by (nonlinear_arith);
        let total = count * band_height;
        assert(0 <= total <= height) by {
            if height == 0 {
                assert(count * band_height == 0) by (nonlinear_arith)
                    requires
                        band_height == 0,
                ;
            } else {
                assert((count - 1) * fh + fh <= height);
                assert(count * band_height == count * fh);
                assert(0 <= count * fh) by (nonlinear_arith)
                    requires
                        count >= 0,
                        fh >= 0,
                ;
            }
        }
        lemma_smaller_scales(width as int, height as int, width as int, total, f);
        lemma_smaller_scales(width as int, height as int, width as int, band_height as int, f);
        assert(count * (band_height * f) == total * f) by (nonlinear_arith)
            requires
                total == count * band_height,
        ;
        assert(pictures@.map_values(|picture: RgbaImage| picture@) =~= wanted);
    }
    let output = stack(&pictures, width * factor, band_height * factor);
    Ok((output, faces.len() > 0))
}

/// Every frame of an animated texture is the rendering of that frame alone:
/// no frame bleeds into its neighbours.
pub proof fn frames_are_rendered_apart(
    source: Raster,
    frame_height: int,
    faces: Seq<ModelFace>,
    wrap: bool,
    factor: int,
    k: int,
    x: int,
    y: int,
)
    requires
        source.wf(),
        1 <= frame_height <= source.height,
        0 <= k < frame_count(source.height, frame_height),
        0 <= x < source.width * factor,
        0 <= y < frame_height * factor,
        animated(source, frame_height, faces, wrap, factor) is Ok,
    ensures
        rendering(frame(source, frame_height, k), faces, wrap, factor) is Ok,
        animated(source, frame_height, faces, wrap, factor)->Ok_0.at(
            x,
            k * (frame_height * factor) + y,
        ) == rendering(frame(source, frame_height, k), faces, wrap, factor)->Ok_0.at(x, y),
{
    let pictures = rendered_frames(source, frame_height, faces, wrap, factor);
    let height = frame_height * factor;
    lemma_frame(source, frame_height, 0);
    lemma_frame(source, frame_height, k);
    let row = k * height + y;
    assert(row / height == k && row % height == y) by (nonlinear_arith)
        requires
            row == k * height + y,
            0 <= y < height,
    ;
    assert(0 <= row < pictures.len() * height) by (nonlinear_arith)
        requires
            row == k * height + y,
            0 <= y < height,
            0 <= k < pictures.len(),
    ;
    lemma_build_at(
        source.width * factor,
        pictures.len() * height,
        |x: int, y: int| pictures[y / height].at(x, y % height),
        x,
        row,
    );
}

/// An animated texture of whole frames is `factor` times as wide and high as
/// its source.
pub proof fn whole_frames_keep_the_proportions(
    source: Raster,
    frame_height: int,
    faces: Seq<ModelFace>,
    wrap: bool,
    factor: int,
)
    requires
        source.wf(),
        1 <= frame_height <= source.height,
        source.height % frame_height == 0,
        animated(source, frame_height, faces, wrap, factor) is Ok,
    ensures
        animated(source, frame_height, faces, wrap, factor)->Ok_0.width == plain_upscaled(
            source,
            factor,
        ).width,
        animated(source, frame_height, faces, wrap, factor)->Ok_0.height == plain_upscaled(
            source,
            factor,
        ).height,
{
    let h = source.height;
    assert(h / frame_height >= 1 && (h / frame_height) * frame_height == h) by (nonlinear_arith)
        requires
            1 <= frame_height <= h,
            h % frame_height == 0,
    ;
    assert((h / frame_height) * (frame_height * factor) == ((h / frame_height) * frame_height)
        * factor) by (nonlinear_arith);
}

/// Frame `k` of an image is `k` frames further down, and the frames are all that
/// the image holds whole.
pub proof fn frames_lie_one_below_the_other(
    source: Raster,
    frame_height: int,
    k: int,
    x: int,
    y: int,
)
    requires
        source.wf(),
        1 <= frame_height <= source.height,
        0 <= k < frame_count(source.height, frame_height),
        0 <= x < source.width,
        0 <= y < frame_height,
    ensures
        frame(source, frame_height, k).width == source.width,
        frame(source, frame_height, k).height == frame_height,
        frame(source, frame_height, k).at(x, y) == source.at(x, k * frame_height + y),
        frame_count(source.height, frame_height) * frame_height <= source.height,
        source.height < (frame_count(source.height, frame_height) + 1) * frame_height,
{
    lemma_frame(source, frame_height, k);
    let h = source.height;
    let n = h / frame_height;
    assert(1 <= n && n * frame_height <= h && h < (n + 1) * frame_height) by (nonlinear_arith)
        requires
            n == h / frame_height,
            1 <= frame_height <= h,
    ;
    let top = k * frame_height;
    lemma_build_at(
        source.width,
        frame_height,
        |i: int, j: int| source.at(i, top + j),
        x,
        y,
    );
    assert(least(top, source.height) == top);
    assert(frame(source, frame_height, k) == Raster::build(
        source.width,
        frame_height,
        |i: int, j: int| source.at(0 + i, top + j),
    ));
    lemma_build_at(
        source.width,
        frame_height,
        |i: int, j: int| source.at(0 + i, top + j),
        x,
        y,
    );
}

/// An animation is scaled frame by frame: each frame of the output is the frame of
/// the input rendered by itself, and it is said whether faces were there.
pub proof fn animations_are_rendered_frame_by_frame(
    image: RgbaImage,
    frame_height: u32,
    faces: &[ModelFace],
    wrap: bool,
    factor: u32,
    output: (RgbaImage, bool),
    band: RgbaImage,
    picture: RgbaImage,
    k: int,
    x: int,
    y: int,
)
    requires
        image@.wf(),
        1 <= frame_height <= image@.height,
        0 <= k < frame_count(image@.height, frame_height as int),
        call_ensures(
            upscale_animated,
            (&image, frame_height, faces, wrap, factor),
            Ok::<(RgbaImage, bool), String>(output),
        ),
        band@ == frame(image@, frame_height as int, k),
        call_ensures(
            render_texture,
            (&band, faces, wrap, factor),
            Ok::<RgbaImage, String>(picture),
        ),
        0 <= x < image@.width * factor,
        0 <= y < frame_height * factor,
    ensures
        output.0@.at(x, k * (frame_height * factor) + y) == picture@.at(x, y),
        output.1 <==> faces@.len() > 0,
        output.0@.width == image@.width * factor,
        output.0@.height == frame_count(image@.height, frame_height as int) * (frame_height * factor),
{
    frames_are_rendered_apart(
        image@,
        frame_height as int,
        faces@,
        wrap,
        factor as int,
        k,
        x,
        y,
    );
}

} // verus!
