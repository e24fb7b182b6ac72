//! The outside codecs: xBRZ scaling, PNG, nearest-neighbour resizing, and JSON.
use crate::json::{Json, JsonNumber, JsonView};
use crate::raster::{fits, Raster, RgbaImage};
use serde_json::Value;
use vstd::prelude::*;

verus! {

/// What [`xbrz::scale_rgba`] makes of the bytes of a `width` by `height` image.
pub uninterp spec fn xbrz_scaled(bytes: Seq<u8>, width: int, height: int, factor: int) -> Seq<u8>;

/// [`xbrz::scale_rgba`]: a fixed function of the image and the factor, which
/// gives four bytes for every pixel of an image `factor` times as wide and
/// `factor` times as high.
#[verifier::external_body]
fn xbrz_scale(bytes: &Vec<u8>, width: usize, height: usize, factor: usize) -> (scaled: Vec<u8>)
    requires
        bytes@.len() == width * height * 4,
        1 <= factor <= 6,
        fits(width * factor, height * factor),
    ensures
        scaled@ == xbrz_scaled(bytes@, width as int, height as int, factor as int),
        scaled@.len() == (width * factor) * (height * factor) * 4,
{
    xbrz::scale_rgba(bytes, width, height, factor)
}

/// What [`image::load_from_memory`] makes of a file: width, height and RGBA
/// bytes, or the text of the error.
pub uninterp spec fn decoded(file: Seq<u8>) -> Result<(u32, u32, Seq<u8>), Seq<char>>;

/// [`image::load_from_memory`] followed by the conversion to 8-bit RGBA: a
/// fixed function of the file's bytes. An image comes with at least four bytes
/// for each pixel, all in one vector.
#[verifier::external_body]
fn decode_rgba(file: &[u8]) -> (image: Result<(u32, u32, Vec<u8>), String>)
    ensures
        match image {
            Ok(parts) => decoded(file@) == Ok::<(u32, u32, Seq<u8>), Seq<char>>(
                (parts.0, parts.1, parts.2@),
            ) && parts.0 * parts.1 * 4 <= parts.2@.len() <= isize::MAX,
            Err(error) => decoded(file@) == Err::<(u32, u32, Seq<u8>), Seq<char>>(error@),
        },
{
    match image::load_from_memory(file) {
        Ok(image) => {
            let rgba = image.to_rgba8();
            Ok((rgba.width(), rgba.height(), rgba.into_raw()))
        },
        Err(error) => Err(error.to_string()),
    }
}

/// The PNG file that [`image::DynamicImage::write_to`] makes of an RGBA image,
/// or the text of the error.
pub uninterp spec fn encoded(bytes: Seq<u8>, width: int, height: int) -> Result<
    Seq<u8>,
    Seq<char>,
>;

/// [`image::DynamicImage::write_to`] for PNG: a fixed function of the image.
#[verifier::external_body]
fn encode_rgba(bytes: Vec<u8>, width: u32, height: u32) -> (file: Result<Vec<u8>, String>)
    requires
        bytes@.len() == width * height * 4,
    ensures
        match file {
            Ok(file) => encoded(bytes@, width as int, height as int) == Ok::<Seq<u8>, Seq<char>>(
                file@,
            ),
            Err(error) => encoded(bytes@, width as int, height as int) == Err::<
                Seq<u8>,
                Seq<char>,
            >(error@),
        },
{
    let image = image::RgbaImage::from_raw(width, height, bytes).expect("enough bytes");
    let mut file = Vec::new();
    let mut cursor = std::io::Cursor::new(&mut file);
    match image::DynamicImage::ImageRgba8(image).write_to(&mut cursor, image::ImageFormat::Png) {
        Ok(()) => Ok(file),
        Err(error) => Err(error.to_string()),
    }
}

/// What [`image::imageops::resize`] with the nearest-neighbour filter makes of
/// the bytes of a `width` by `height` image.
pub uninterp spec fn resized(
    bytes: Seq<u8>,
    width: int,
    height: int,
    new_width: int,
    new_height: int,
) -> Seq<u8>;

/// [`image::imageops::resize`] with the nearest-neighbour filter: a fixed
/// function of the image and the new size, which gives four bytes for every
/// pixel of that size.
#[verifier::external_body]
fn resize_rgba(bytes: Vec<u8>, width: u32, height: u32, new_width: u32, new_height: u32) -> (scaled:
    Vec<u8>)
    requires
        bytes@.len() == width * height * 4,
        width * new_height * 16 <= isize::MAX,
        fits(new_width as int, new_height as int),
    ensures
        scaled@ == resized(
            bytes@,
            width as int,
            height as int,
            new_width as int,
            new_height as int,
        ),
        scaled@.len() == new_width * new_height * 4,
{
    let image = image::RgbaImage::from_raw(width, height, bytes).expect("enough bytes");
    image::imageops::resize(&image, new_width, new_height, image::imageops::FilterType::Nearest)
        .into_raw()
}

/// A JSON value as [`serde_json`] has it.
#[verifier::external_type_specification]
#[verifier::external_body]
pub struct ExValue(Value);

/// A [`Value`] as a [`Json`] value, variant by variant. Nothing is
/// claimed of it by itself: it belongs to what [`parsed_json`] and
/// [`parsed_text`] name.
#[verifier::external_body]
fn convert_value(value: Value) -> (json: Json) {
    match value {
        Value::Null => Json::Null,
        Value::Bool(value) => Json::Bool(value),
        Value::Number(n) => Json::Number(match (n.as_u64(), n.as_i64()) {
            (Some(n), _) => JsonNumber::Unsigned(n),
            (None, Some(n)) => JsonNumber::Negative(n),
            (None, None) => JsonNumber::Double(n.as_f64().unwrap_or_default().to_bits()),
        }),
        Value::String(text) => Json::Text(text),
        Value::Array(items) => Json::Array(items.into_iter().map(convert_value).collect()),
        Value::Object(entries) =>
            Json::Object(entries.into_iter().map(|e| (e.0, convert_value(e.1))).collect()),
    }
}

/// The JSON value that [`serde_json::from_slice`] makes of a file, if it is one.
pub uninterp spec fn parsed_json(file: Seq<u8>) -> Option<JsonView>;

/// [`serde_json::from_slice`]: a fixed function of the file's bytes.
#[verifier::external_body]
pub(crate) fn parse_json(file: &[u8]) -> (json: Option<Json>)
    ensures
        match parsed_json(file@) {
            Some(view) => json matches Some(json) && json@ == view,
            None => json is None,
        },
{
    match serde_json::from_slice(file) {
        Ok(value) => Some(convert_value(value)),
        Err(_) => None,
    }
}

/// The JSON value that [`serde_json::from_str`] makes of a text, or the text of
/// the error.
pub uninterp spec fn parsed_text(text: Seq<char>) -> Result<JsonView, Seq<char>>;

/// [`serde_json::from_str`]: a fixed function of the text.
#[verifier::external_body]
pub(crate) fn parse_text(text: &str) -> (json: Result<Json, String>)
    ensures
        match parsed_text(text@) {
            Ok(view) => json matches Ok(json) && json@ == view,
            Err(error) => json matches Err(e) && e@ == error,
        },
{
    match serde_json::from_str(text) {
        Ok(value) => Ok(convert_value(value)),
        Err(error) => Err(error.to_string()),
    }
}

/// An image `factor` times as wide and high can be held.
pub open spec fn scalable(width: int, height: int, factor: int) -> bool {
    &&& width * factor <= u32::MAX
    &&& height * factor <= u32::MAX
    &&& fits(width * factor, height * factor)
}

/// A raster scaled by xBRZ.
pub open spec fn plain_upscaled(source: Raster, factor: int) -> Raster {
    Raster::from_bytes(
        source.width * factor,
        source.height * factor,
        xbrz_scaled(source.bytes(), source.width, source.height, factor),
    )
}

/// Scales an image by xBRZ.
pub fn upscale_plain(image: &RgbaImage, factor: u32) -> (output: RgbaImage)
    requires
        1 <= factor <= 6,
        scalable(image@.width, image@.height, factor as int),
    ensures
        output@ == plain_upscaled(image@, factor as int),
        output@.wf(),
{
    let (width, height) = image.dimensions();
    let bytes = image.to_raw();
    let scaled = xbrz_scale(&bytes, width as usize, height as usize, factor as usize);
    let output = RgbaImage::from_raw(width * factor, height * factor, &scaled);
    output.unwrap()
}

/// The texture that a decoded file holds; one without pixels is refused.
pub open spec fn texture_of(file: Result<(u32, u32, Seq<u8>), Seq<char>>) -> Result<
    Raster,
    Seq<char>,
> {
    match file {
        Err(error) => Err("decode PNG: "@ + error),
        Ok((width, height, bytes)) => if width == 0 || height == 0 {
            Err("zero-size texture"@)
        } else {
            Ok(Raster::from_bytes(width as int, height as int, bytes))
        },
    }
}

/// Turns decoded bytes into a texture, or says why there is none.
pub fn accept_texture(file: Result<(u32, u32, Vec<u8>), String>) -> (texture: Result<
    RgbaImage,
    String,
>)
    requires
        file matches Ok((width, height, bytes)) ==> width * height * 4 <= bytes@.len()
            <= isize::MAX,
    ensures
        match file {
            Err(error) => texture matches Err(e) && texture_of(Err(error@)) == Err::<
                Raster,
                Seq<char>,
            >(e@),
            Ok((width, height, bytes)) => match texture_of(Ok((width, height, bytes@))) {
                Ok(raster) => texture matches Ok(image) && image@ == raster && image@.wf(),
                Err(message) => texture matches Err(e) && e@ == message,
            },
        },
{
    match file {
        Err(error) => {
            let mut message = "decode PNG: ".to_owned();
            message.append(error.as_str());
            Err(message)
        },
        Ok((width, height, bytes)) => {
            if width == 0 || height == 0 {
                return Err("zero-size texture".to_owned());
            }
            Ok(RgbaImage::from_raw(width, height, &bytes).unwrap())
        },
    }
}

/// Reads a texture from the bytes of its file.
pub fn decode_texture(file: &[u8]) -> (texture: Result<RgbaImage, String>)
    ensures
        match texture_of(decoded(file@)) {
            Ok(raster) => texture matches Ok(image) && image@ == raster && image@.wf(),
            Err(message) => texture matches Err(e) && e@ == message,
        },
{
    accept_texture(decode_rgba(file))
}

/// Writes a texture as a PNG file.
pub fn encode_texture(image: &RgbaImage) -> (file: Result<Vec<u8>, String>)
    ensures
        match encoded(image@.bytes(), image@.width, image@.height) {
            Ok(bytes) => file matches Ok(file) && file@ == bytes,
            Err(error) => file matches Err(e) && e@ == "encode PNG: "@ + error,
        },
{
    let (width, height) = image.dimensions();
    match encode_rgba(image.to_raw(), width, height) {
        Ok(file) => Ok(file),
        Err(error) => {
            let mut message = "encode PNG: ".to_owned();
            message.append(error.as_str());
            Err(message)
        },
    }
}

/// A raster blown up by nearest-neighbour resizing; a scale of one or less
/// leaves it as it is.
pub open spec fn magnified(source: Raster, scale: int) -> Raster {
    if scale > 1 {
        Raster::from_bytes(
            source.width * scale,
            source.height * scale,
            resized(
                source.bytes(),
                source.width,
                source.height,
                source.width * scale,
                source.height * scale,
            ),
        )
    } else {
        source
    }
}

/// Blows an image up by nearest-neighbour resizing.
pub fn magnify(image: RgbaImage, scale: u32) -> (output: RgbaImage)
    requires
        scale > 1 ==> {
            &&& scalable(image@.width, image@.height, scale as int)
            &&& image@.width * (image@.height * scale) * 16 <= isize::MAX
        },
    ensures
        output@ == magnified(image@, scale as int),
        output@.wf(),
{
    let (width, height) = image.dimensions();
    if scale > 1 {
        let bytes = image.to_raw();
        let scaled = resize_rgba(bytes, width, height, width * scale, height * scale);
        RgbaImage::from_raw(width * scale, height * scale, &scaled).unwrap()
    } else {
        image
    }
}

/// What xBRZ makes of an image's bytes are the bytes of the upscaled image, which
/// is `factor` times as wide and high.
pub proof fn plain_upscales_are_what_xbrz_makes(image: RgbaImage, factor: u32, output: RgbaImage)
    requires
        call_ensures(upscale_plain, (&image, factor), output),
        image@.wf(),
        xbrz_scaled(image@.bytes(), image@.width, image@.height, factor as int).len() == 4 * ((
        image@.width * factor) * (image@.height * factor)),
    ensures
        output@.width == image@.width * factor,
        output@.height == image@.height * factor,
        output@.bytes() == xbrz_scaled(
            image@.bytes(),
            image@.width,
            image@.height,
            factor as int,
        ),
{
    let made = xbrz_scaled(image@.bytes(), image@.width, image@.height, factor as int);
    let w = image@.width * factor;
    let h = image@.height * factor;
    assert(0 <= w * h) by (nonlinear_arith)
        requires
            w == image@.width * factor,
            h == image@.height * factor,
            image@.width >= 0,
            image@.height >= 0,
            factor >= 0,
    ;
    assert(output@.bytes().len() == made.len());
    assert forall|i: int| 0 <= i < made.len() implies output@.bytes()[i] == made[i] by {
        assert(output@.bytes()[i] == output@.pixels[i / 4].channel(i % 4));
    }
    assert(output@.bytes() =~= made);
}

/// A texture is read as the decoder gives it; a file that is no picture, or a
/// picture without pixels, is refused.
pub proof fn textures_have_pixels(file: &[u8], texture: Result<RgbaImage, String>)
    requires
        call_ensures(decode_texture, (file,), texture),
    ensures
        match decoded(file@) {
            Err(reason) => texture matches Err(e) && e@ == "decode PNG: "@ + reason,
            Ok((width, height, bytes)) => if width > 0 && height > 0 {
                texture matches Ok(image) && image@ == Raster::from_bytes(
                    width as int,
                    height as int,
                    bytes,
                )
            } else {
                texture matches Err(e) && e@ == "zero-size texture"@
            },
        },
{
}

/// Blowing an image up makes it `scale` times as wide and high by
/// nearest-neighbour resizing; a scale of one or none leaves it as it is.
pub proof fn blowing_up_scales_the_size(image: RgbaImage, scale: u32, output: RgbaImage)
    requires
        call_ensures(magnify, (image, scale), output),
    ensures
        scale <= 1 ==> output@ == image@,
        scale > 1 ==> {
            &&& output@.width == image@.width * scale
            &&& output@.height == image@.height * scale
            &&& output@ == Raster::from_bytes(
                output@.width,
                output@.height,
                resized(
                    image@.bytes(),
                    image@.width,
                    image@.height,
                    image@.width * scale,
                    image@.height * scale,
                ),
            )
        },
{
}

} // verus!
