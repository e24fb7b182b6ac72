//! Rendering a texture or one frame of it, whichever way it asks for.
use crate::codec::{plain_upscaled, scalable};
use crate::limits::{can_scale, can_stitch, can_wrap};
use crate::model::ModelFace;
use crate::raster::{Raster, RgbaImage};
use crate::upscaling::{
    stitchable, stitched, upscale_image, upscale_wrapped, valid_factor, wrappable,
    wrapped_upscaled, UpscaleConfig, MAX_FACTOR,
};
use vstd::prelude::*;

verus! {

/// A texture scaled: stitched where there are faces, else with a self-tiling
/// border where it tiles, else plainly.
pub open spec fn rendering(source: Raster, faces: Seq<ModelFace>, wrap: bool, factor: int) -> Result<
    Raster,
    Seq<char>,
> {
    if !valid_factor(factor) {
        Err("factor must be between 2 and 6"@)
    } else if faces.len() > 0 {
        Ok(stitched(source, faces, factor))
    } else if !wrap {
        Ok(plain_upscaled(source, factor))
    } else if source.width == 0 || source.height == 0 {
        Err("cannot wrap a zero-size texture"@)
    } else {
        Ok(wrapped_upscaled(source, factor))
    }
}

/// What rendering makes can be held.
pub open spec fn renderable(
    faces: Seq<ModelFace>,
    wrap: bool,
    width: int,
    height: int,
    factor: int,
) -> bool {
    valid_factor(factor) ==> {
        &&& scalable(width, height, factor)
        &&& faces.len() > 0 ==> stitchable(faces, width, height, factor)
        &&& faces.len() == 0 && wrap && width > 0 && height > 0 ==> wrappable(
            width,
            height,
            factor,
        )
    }
}

/// Whether what rendering makes can be held.
pub fn can_render(faces: &[ModelFace], wrap: bool, width: u32, height: u32, factor: u32) -> (can:
    bool)
    ensures
        can == renderable(faces@, wrap, width as int, height as int, factor as int),
{
    if factor < 2 || factor > MAX_FACTOR {
        return true;
    }
    if !can_scale(width as u64, height as u64, factor) {
        return false;
    }
    if faces.len() > 0 {
        can_stitch(faces, width, height, factor)
    } else if wrap && width > 0 && height > 0 {
        can_wrap(width, height, factor)
    } else {
        true
    }
}

/// Scales a texture: stitched where there are faces, else with a self-tiling
/// border where it tiles, else plainly.
pub fn render_texture(image: &RgbaImage, faces: &[ModelFace], wrap: bool, factor: u32) -> (output:
    Result<RgbaImage, String>)
    requires
        renderable(faces@, wrap, image@.width, image@.height, factor as int),
    ensures
        match rendering(image@, faces@, wrap, factor as int) {
            Ok(raster) => output matches Ok(output) && output@ == raster && output@.wf(),
            Err(message) => output matches Err(e) && e@ == message,
        },
{
    let (_width, _height) = image.dimensions();
    if faces.len() > 0 {
        upscale_image(image, Some(faces), &UpscaleConfig { factor, stitch_faces: true })
    } else if wrap {
        upscale_wrapped(image, factor)
    } else {
        upscale_image(image, None, &UpscaleConfig { factor, stitch_faces: false })
    }
}

/// A texture with faces is stitched with them, any other that tiles is wrapped,
/// and what is left is scaled plainly.
pub proof fn faces_go_before_borders(
    image: RgbaImage,
    faces: &[ModelFace],
    wrap: bool,
    factor: u32,
    output: Result<RgbaImage, String>,
)
    requires
        call_ensures(render_texture, (&image, faces, wrap, factor), output),
    ensures
        !(2 <= factor <= 6) ==> (output matches Err(e) && e@ == "factor must be between 2 and 6"@),
        2 <= factor <= 6 && faces@.len() > 0 ==> (output matches Ok(output) && output@ == stitched(
            image@,
            faces@,
            factor as int,
        )),
        2 <= factor <= 6 && faces@.len() == 0 && !wrap ==> (output matches Ok(output) && output@
            == plain_upscaled(image@, factor as int)),
        2 <= factor <= 6 && faces@.len() == 0 && wrap && image@.width > 0 && image@.height > 0 ==> (
        output matches Ok(output) && output@ == wrapped_upscaled(image@, factor as int)),
        2 <= factor <= 6 && faces@.len() == 0 && wrap && (image@.width == 0 || image@.height == 0)
            ==> (output matches Err(e) && e@ == "cannot wrap a zero-size texture"@),
{
}

} // verus!
