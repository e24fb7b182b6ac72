//! From a texture's file to its upscaled file, and what is done on the way.
use crate::animation::{
    animates, animation_frame_size, animation_of, can_scale_frame, frame_scalable, frame_size,
    scale_animation_fields, scaled_settings, scaling_changes_the_animation_alone,
    scaling_changes_the_frame_size_alone,
};
use crate::codec::{
    decode_texture, decoded, encode_texture, encoded, parse_json, parsed_json,
    plain_upscaled, texture_of,
};
use crate::frames::{
    animatable, animated, can_animate, frame, frames_are_rendered_apart, upscale_animated,
};
use crate::json::{Json, JsonNumber, JsonView};
use crate::keys::{ctx_of, texture_ctx};
use crate::limits::{faces_in_the_texture_can_be_stitched, modest_textures_can_be_scaled};
use crate::matching::{best_model_index, is_best, the_best_model_is_unique, EntityModel};
use crate::model::{
    clip_faces, clippable, clipped_faces, clipping_changes_rectangles_alone,
    faces_with_a_part_inside_stay, matching_texture_keeps_faces, scaled_faces_lie_in_the_texture,
    unscaled, FaceRect, ModelFace, ModelFaces, ScaledRect, UvSize,
};
use crate::paths::{
    block_stem, block_texture_stem_for, is_colormap, is_colormap_texture_path, relative_name,
    relative_to_root, tiles, wants_wrap,
};
use crate::raster::{least, Raster, RgbaImage};
use crate::render::{can_render, render_texture, renderable, rendering};
use crate::text::{contains_text, occurs_at, same_text};
use crate::upscaling::{
    face_picture, repaints, stitched, the_last_face_shows, wrapped_upscaled,
};
use vstd::prelude::*;

verus! {

/// How to upscale a jar.
#[derive(Debug)]
pub struct BatchOptions {
    pub factor: u32,
    /// Stitch textures that have a model.
    pub stitch: bool,
    /// The directory of entity models; without one it is looked for.
    pub model_dir: Option<String>,
    /// Give tiling textures a self-tiling border.
    pub wrap: bool,
}

impl Default for BatchOptions {
    fn default() -> (options: BatchOptions)
        ensures
            options.factor == 4,
            options.stitch,
            options.model_dir is None,
            options.wrap,
    {
        BatchOptions { factor: 4, stitch: true, model_dir: None, wrap: true }
    }
}

/// The faces that a block texture is stitched with.
#[derive(Debug)]
pub struct StemFaces {
    pub stem: String,
    pub faces: ModelFaces,
}

/// The model that a texture is stitched with: none, or one of the block or of
/// the entity models.
#[derive(Clone, Copy, Debug, PartialEq, Eq, Structural)]
pub enum ModelChoice {
    Plain,
    Block(usize),
    Entity(usize),
}

/// How a texture is upscaled.
#[derive(Clone, Copy, Debug, PartialEq, Eq, Structural)]
pub struct TexturePlan {
    pub animated: bool,
    pub wrap: bool,
    pub model: ModelChoice,
}

/// What was done with a texture.
#[derive(Clone, Copy, Debug, PartialEq, Eq, Structural)]
pub struct ProcessOutcome {
    pub animated: bool,
    pub stitched: bool,
    pub wrapped: bool,
    pub copied: bool,
}

/// Block faces `i` are the first for this stem.
pub open spec fn is_first_for(blocks: Seq<StemFaces>, stem: Seq<char>, i: int) -> bool {
    &&& 0 <= i < blocks.len()
    &&& blocks[i].stem@ == stem
    &&& forall|k: int| 0 <= k < i ==> (#[trigger] blocks[k]).stem@ != stem
}

/// The block faces for a texture.
pub open spec fn block_choice(blocks: Seq<StemFaces>, relative: Seq<char>) -> Option<int> {
    match block_stem(relative) {
        None => None,
        Some(stem) => if exists|i: int| is_first_for(blocks, stem, i) {
            Some(choose|i: int| is_first_for(blocks, stem, i))
        } else {
            None
        },
    }
}

/// The entity model for a texture.
pub open spec fn entity_choice(
    models: Seq<EntityModel>,
    relative: Seq<char>,
    size: (u32, u32),
) -> Option<int> {
    match ctx_of(relative) {
        None => None,
        Some(ctx) => if exists|i: int| is_best(models, ctx, size, i) {
            Some(choose|i: int| is_best(models, ctx, size, i))
        } else {
            None
        },
    }
}

/// The settings describe an animation.
pub open spec fn is_animated(settings: Option<JsonView>) -> bool {
    settings matches Some(settings) && animates(settings)
}

/// How a texture is upscaled. A block texture is stitched with its own faces.
/// Any other that does not move is stitched with the entity model that suits
/// it best.
pub open spec fn planned(
    relative: Seq<char>,
    options: BatchOptions,
    settings: Option<JsonView>,
    blocks: Seq<StemFaces>,
    models: Seq<EntityModel>,
    size: (u32, u32),
) -> TexturePlan {
    TexturePlan {
        animated: is_animated(settings),
        wrap: options.wrap && tiles(relative),
        model: if !options.stitch {
            ModelChoice::Plain
        } else {
            match block_choice(blocks, relative) {
                Some(i) => ModelChoice::Block(i as usize),
                None => if is_animated(settings) {
                    ModelChoice::Plain
                } else {
                    match entity_choice(models, relative, size) {
                        Some(i) => ModelChoice::Entity(i as usize),
                        None => ModelChoice::Plain,
                    }
                },
            }
        },
    }
}

fn find_block(blocks: &Vec<StemFaces>, relative: &str) -> (found: Option<usize>)
    ensures
        match block_choice(blocks@, relative@) {
            Some(i) => found == Some(i as usize) && 0 <= i < blocks@.len(),
            None => found is None,
        },
{
    match block_texture_stem_for(relative) {
        None => None,
        Some(stem) => {
            let mut i: usize = 0;
            while i < blocks.len()
                invariant
                    i <= blocks.len(),
                    block_stem(relative@) == Some(stem@),
                    forall|k: int| 0 <= k < i ==> (#[trigger] blocks@[k]).stem@ != stem@,
                decreases blocks.len() - i,
            {
                if same_text(blocks[i].stem.as_str(), stem.as_str()) {
                    proof {
                        assert(is_first_for(blocks@, stem@, i as int));
                        let k = choose|k: int| is_first_for(blocks@, stem@, k);
                        if k < i {
                            assert(blocks@[k].stem@ != stem@);
                        } else if i < k {
                            assert(blocks@[i as int].stem@ != stem@);
                        }
                    }
                    return Some(i);
                }
                i = i + 1;
            }
            None
        },
    }
}

fn find_entity(models: &[EntityModel], relative: &str, size: (u32, u32)) -> (found: Option<usize>)
    ensures
        match entity_choice(models@, relative@, size) {
            Some(i) => found == Some(i as usize) && 0 <= i < models@.len(),
            None => found is None,
        },
{
    match texture_ctx(relative) {
        None => None,
        Some(ctx) => {
            let found: Option<usize> = best_model_index(models, &ctx, size);
            proof {
                if let Some(i) = found {
                    assert(is_best(models@, ctx@, size, i as int));
                    let k = choose|k: int| is_best(models@, ctx@, size, k);
                    the_best_model_is_unique(models@, ctx@, size, i as int, k);
                }
            }
            found
        },
    }
}

/// Decides how a texture is upscaled.
pub fn plan_texture(
    relative: &str,
    options: &BatchOptions,
    settings: Option<&Json>,
    blocks: &Vec<StemFaces>,
    models: &[EntityModel],
    size: (u32, u32),
) -> (plan: TexturePlan)
    ensures
        plan == planned(
            relative@,
            *options,
            match settings {
                Some(settings) => Some(settings@),
                None => None,
            },
            blocks@,
            models@,
            size,
        ),
        plan.model matches ModelChoice::Block(i) ==> i < blocks@.len(),
        plan.model matches ModelChoice::Entity(i) ==> i < models@.len(),
{
    let moves = match settings {
        Some(settings) => animation_of(settings).is_some(),
        None => false,
    };
    let mut model = ModelChoice::Plain;
    if options.stitch {
        match find_block(blocks, relative) {
            Some(i) => {
                model = ModelChoice::Block(i);
            },
            None => {
                if !moves {
                    match find_entity(models, relative, size) {
                        Some(i) => {
                            model = ModelChoice::Entity(i);
                        },
                        None => {},
                    }
                }
            },
        }
    }
    TexturePlan { animated: moves, wrap: options.wrap && wants_wrap(relative), model }
}

/// A texture that is being upscaled: the decoded image, the settings beside it,
/// what is planned, and the height of what is rendered at a time.
#[derive(Debug)]
pub struct TextureWork {
    pub image: RgbaImage,
    pub settings: Option<Json>,
    pub plan: TexturePlan,
    pub frame_height: u32,
}

/// The contents of a texture's settings.
pub open spec fn settings_view(settings: Option<Json>) -> Option<JsonView> {
    match settings {
        Some(settings) => Some(settings@),
        None => None,
    }
}

/// What is to be done with a texture: copy the file, or upscale the image.
#[derive(Debug)]
pub enum TextureStep {
    Copy,
    Scale(TextureWork),
}

/// The height of what is rendered at a time: a frame of an animation, else the
/// whole image.
pub open spec fn work_height(settings: Option<JsonView>, size: (u32, u32)) -> u32 {
    match settings {
        Some(settings) => if animates(settings) {
            frame_size(size.0, size.1, settings.get("animation"@)->0).1
        } else {
            size.1
        },
        None => size.1,
    }
}

/// The work on a texture: the image and the settings as they are, and how it is
/// upscaled with them.
pub open spec fn is_work_on(
    work: TextureWork,
    relative: Seq<char>,
    image: Raster,
    settings: Option<JsonView>,
    options: BatchOptions,
    blocks: Seq<StemFaces>,
    models: Seq<EntityModel>,
) -> bool {
    let size = (image.width as u32, image.height as u32);
    &&& work.image@ == image
    &&& settings_view(work.settings) == settings
    &&& work.plan == planned(relative, options, settings, blocks, models, size)
    &&& work.plan.model matches ModelChoice::Block(i) ==> i < blocks.len()
    &&& work.plan.model matches ModelChoice::Entity(i) ==> i < models.len()
    &&& work.frame_height == work_height(settings, size)
}

/// Plans the work on a decoded texture.
pub fn plan_work(
    relative: &str,
    image: RgbaImage,
    settings: Option<Json>,
    options: &BatchOptions,
    blocks: &Vec<StemFaces>,
    models: &[EntityModel],
) -> (work: TextureWork)
    ensures
        is_work_on(
            work,
            relative@,
            image@,
            settings_view(settings),
            *options,
            blocks@,
            models@,
        ),
{
    let (width, height) = image.dimensions();
    let plan = plan_texture(
        relative,
        options,
        settings.as_ref(),
        blocks,
        models,
        (width, height),
    );
    let frame_height: u32 = match &settings {
        Some(settings) => match animation_of(settings) {
            Some(animation) => animation_frame_size(width, height, animation).1,
            None => height,
        },
        None => height,
    };
    TextureWork { image, settings, plan, frame_height }
}

/// What the settings file beside a texture holds; one that is not JSON counts
/// for nothing.
pub open spec fn file_settings(mcmeta: Option<&[u8]>) -> Option<JsonView> {
    match mcmeta {
        Some(file) => parsed_json(file@),
        None => None,
    }
}

/// Takes up a texture, given its file and the settings file beside it. A biome
/// colour map is copied; any other is decoded and planned.
pub fn start_texture(
    name: &str,
    file: &[u8],
    mcmeta: Option<&[u8]>,
    options: &BatchOptions,
    blocks: &Vec<StemFaces>,
    models: &[EntityModel],
) -> (step: Result<TextureStep, String>)
    ensures
        ({
            let relative = relative_to_root(name@);
            if is_colormap(relative) {
                step matches Ok(TextureStep::Copy)
            } else {
                match texture_of(decoded(file@)) {
                    Err(message) => step matches Err(e) && e@ == message,
                    Ok(raster) => {
                        &&& raster.wf()
                        &&& step matches Ok(TextureStep::Scale(work))
                        &&& is_work_on(
                            work,
                            relative,
                            raster,
                            file_settings(mcmeta),
                            *options,
                            blocks@,
                            models@,
                        )
                    },
                }
            }
        }),
{
    let relative = relative_name(name);
    if is_colormap_texture_path(relative.as_str()) {
        return Ok(TextureStep::Copy);
    }
    match decode_texture(file) {
        Err(error) => Err(error),
        Ok(image) => {
            let settings = match mcmeta {
                Some(file) => parse_json(file),
                None => None,
            };
            let work = plan_work(relative.as_str(), image, settings, options, blocks, models);
            Ok(TextureStep::Scale(work))
        },
    }
}

/// The space that an entity model's faces are scaled from: its own, or the
/// image's where the model does not give its texture's size.
pub fn face_space(model: &EntityModel, image: UvSize) -> (size: UvSize)
    ensures
        size == if model.has_texture_size {
            model.faces.uv_size
        } else {
            image
        },
{
    if model.has_texture_size {
        model.faces.uv_size
    } else {
        image
    }
}

/// The faces that a texture is stitched with: those of the chosen model,
/// clipped to the texture. An entity model that loses more than half of its
/// faces is not the texture's own, and none of its faces are used.
pub open spec fn kept_faces(
    model: ModelChoice,
    faces: Seq<ModelFace>,
    scaled: Seq<ScaledRect>,
    width: int,
    height: int,
) -> Seq<ModelFace> {
    let left = clipped_faces(faces, scaled, width, height, scaled.len() as int);
    match model {
        ModelChoice::Plain => Seq::empty(),
        ModelChoice::Block(_) => left,
        ModelChoice::Entity(_) => if left.len() * 2 >= faces.len() {
            left
        } else {
            Seq::empty()
        },
    }
}

/// Clips the chosen model's faces to the texture and decides whether it is
/// stitched with them.
pub fn keep_faces(
    model: ModelChoice,
    faces: &[ModelFace],
    scaled: &Vec<ScaledRect>,
    width: u32,
    height: u32,
) -> (kept: Vec<ModelFace>)
    requires
        !(model is Plain) ==> scaled@.len() == faces@.len() && forall|i: int|
            0 <= i < scaled@.len() ==> clippable(#[trigger] scaled@[i], width as int, height as int),
    ensures
        kept@ == kept_faces(model, faces@, scaled@, width as int, height as int),
{
    let none: Vec<ModelFace> = Vec::new();
    assert(none@ =~= Seq::empty());
    match model {
        ModelChoice::Plain => none,
        ModelChoice::Block(_) => clip_faces(faces, scaled, width, height),
        ModelChoice::Entity(_) => {
            let left = clip_faces(faces, scaled, width, height);
            if left.len() >= faces.len() - left.len() {
                left
            } else {
                none
            }
        },
    }
}

/// A texture's upscaled file, the settings beside it where they change, and
/// what was done.
#[derive(Debug)]
pub struct Finished {
    pub png: Vec<u8>,
    pub settings: Option<Json>,
    pub outcome: ProcessOutcome,
}

/// The upscaled texture.
pub open spec fn finished_image(
    work: TextureWork,
    kept: Seq<ModelFace>,
    factor: int,
) -> Result<Raster, Seq<char>> {
    if work.plan.animated {
        animated(work.image@, work.frame_height as int, kept, work.plan.wrap, factor)
    } else {
        rendering(work.image@, kept, work.plan.wrap, factor)
    }
}

/// The upscaled texture and its settings can be held.
pub open spec fn finishable(
    work: TextureWork,
    kept: Seq<ModelFace>,
    factor: int,
) -> bool {
    if work.plan.animated {
        &&& animatable(
            work.image@.width,
            work.image@.height,
            work.frame_height as int,
            kept,
            work.plan.wrap,
            factor,
        )
        &&& work.settings matches Some(settings) && (settings@.get("animation"@) matches Some(
            animation,
        ) ==> frame_scalable(animation, factor))
    } else {
        renderable(kept, work.plan.wrap, work.image@.width, work.image@.height, factor)
    }
}

/// Whether the upscaled texture and its settings can be held.
pub fn can_finish(work: &TextureWork, kept: &[ModelFace], factor: u32) -> (can: bool)
    ensures
        can == finishable(*work, kept@, factor as int),
{
    let (width, height) = work.image.dimensions();
    if !work.plan.animated {
        return can_render(kept, work.plan.wrap, width, height, factor);
    }
    if !can_animate(width, height, work.frame_height, kept, work.plan.wrap, factor) {
        return false;
    }
    match &work.settings {
        Some(settings) => match settings.get("animation") {
            Some(animation) => can_scale_frame(animation, factor),
            None => true,
        },
        None => false,
    }
}

/// Upscales a texture that was taken up, and encodes it. The settings of an
/// animation are scaled with it; those of any other texture stay as they are.
pub fn finish_texture(work: TextureWork, kept: &[ModelFace], factor: u32) -> (finished: Result<
    Finished,
    String,
>)
    requires
        finishable(work, kept@, factor as int),
    ensures
        match finished_image(work, kept@, factor as int) {
            Err(message) => finished matches Err(e) && e@ == message,
            Ok(raster) => match encoded(raster.bytes(), raster.width, raster.height) {
                Err(error) => finished matches Err(e) && e@ == "encode PNG: "@ + error,
                Ok(png) => {
                    &&& finished matches Ok(finished)
                    &&& finished.png@ == png
                    &&& finished.outcome == (ProcessOutcome {
                        animated: work.plan.animated,
                        stitched: kept@.len() > 0,
                        wrapped: work.plan.wrap && kept@.len() == 0,
                        copied: false,
                    })
                    &&& if work.plan.animated {
                        finished.settings matches Some(scaled) && scaled@ == scaled_settings(
                            work.settings->0@,
                            factor as int,
                        )
                    } else {
                        finished.settings is None
                    }
                },
            },
        },
{
    let stitched = kept.len() > 0;
    let outcome = ProcessOutcome {
        animated: work.plan.animated,
        stitched,
        wrapped: work.plan.wrap && !stitched,
        copied: false,
    };
    let image = if work.plan.animated {
        match upscale_animated(&work.image, work.frame_height, kept, work.plan.wrap, factor) {
            Ok((image, _)) => image,
            Err(error) => return Err(error),
        }
    } else {
        match render_texture(&work.image, kept, work.plan.wrap, factor) {
            Ok(image) => image,
            Err(error) => return Err(error),
        }
    };
    let png = match encode_texture(&image) {
        Ok(png) => png,
        Err(error) => return Err(error),
    };
    if !work.plan.animated {
        return Ok(Finished { png, settings: None, outcome });
    }
    match work.settings {
        Some(settings) => {
            let mut scaled = settings;
            scale_animation_fields(&mut scaled, factor);
            Ok(Finished { png, settings: Some(scaled), outcome })
        },
        None => Ok(Finished { png, settings: None, outcome }),
    }
}

/// What is said of a texture that was copied.
pub fn copied_outcome() -> (outcome: ProcessOutcome)
    ensures
        outcome == (ProcessOutcome {
            animated: false,
            stitched: false,
            wrapped: false,
            copied: true,
        }),
{
    ProcessOutcome { animated: false, stitched: false, wrapped: false, copied: true }
}

/// The file is the PNG of the picture.
pub open spec fn is_file_of(file: Seq<u8>, picture: Raster) -> bool {
    encoded(picture.bytes(), picture.width, picture.height) == Ok::<Seq<u8>, Seq<char>>(file)
}

/// A texture that stands still and has faces to be stitched with is written
/// stitched, and so it is reported.
pub proof fn still_textures_with_faces_are_stitched(
    work: TextureWork,
    kept: &[ModelFace],
    factor: u32,
    finished: Finished,
)
    requires
        call_ensures(finish_texture, (work, kept, factor), Ok::<Finished, String>(finished)),
        !work.plan.animated,
        kept@.len() > 0,
    ensures
        is_file_of(finished.png@, stitched(work.image@, kept@, factor as int)),
        finished.outcome.stitched,
        !finished.outcome.wrapped,
        !finished.outcome.animated,
        !finished.outcome.copied,
        finished.settings is None,
{
}

/// What is written of a still texture shows, wherever a face lies that no later
/// face covers, that face's own picture.
pub proof fn written_faces_show_their_pictures(
    work: TextureWork,
    kept: &[ModelFace],
    factor: u32,
    finished: Finished,
    index: int,
    x: int,
    y: int,
)
    requires
        call_ensures(finish_texture, (work, kept, factor), Ok::<Finished, String>(finished)),
        !work.plan.animated,
        0 <= index < kept@.len(),
        kept@[index].rect.width > 0,
        kept@[index].rect.height > 0,
        kept@[index].rect.x + kept@[index].rect.width <= work.image@.width,
        kept@[index].rect.y + kept@[index].rect.height <= work.image@.height,
        repaints(kept@[index].rect, factor as int, x, y),
        forall|i: int|
            index < i < kept@.len() ==> !repaints((#[trigger] kept@[i]).rect, factor as int, x, y),
    ensures
        finished.outcome.stitched,
        exists|picture: Raster| #[trigger]
            is_file_of(finished.png@, picture) && picture.at(x, y) == face_picture(
                work.image@,
                kept@,
                index,
                factor as int,
            ).at(x - kept@[index].rect.x * factor, y - kept@[index].rect.y * factor),
{
    let f = factor as int;
    let rect = kept@[index].rect;
    let w = work.image@.width;
    let h = work.image@.height;
    assert(0 <= x < w * f && 0 <= y < h * f) by (nonlinear_arith)
        requires
            rect.x * f <= x < rect.x * f + rect.width * f,
            rect.y * f <= y < rect.y * f + rect.height * f,
            rect.x + rect.width <= w,
            rect.y + rect.height <= h,
            f >= 0,
            rect.x >= 0,
            rect.y >= 0,
    ;
    the_last_face_shows(work.image@, kept@, f, index, x, y);
    assert(is_file_of(finished.png@, stitched(work.image@, kept@, f)));
}

/// A tiling texture that stands still and has no faces is written with its
/// context at the edges, and so it is reported.
pub proof fn still_tiling_textures_are_wrapped(
    work: TextureWork,
    kept: &[ModelFace],
    factor: u32,
    finished: Finished,
)
    requires
        call_ensures(finish_texture, (work, kept, factor), Ok::<Finished, String>(finished)),
        !work.plan.animated,
        kept@.len() == 0,
        work.plan.wrap,
    ensures
        is_file_of(finished.png@, wrapped_upscaled(work.image@, factor as int)),
        finished.outcome.wrapped,
        !finished.outcome.stitched,
        !finished.outcome.animated,
        !finished.outcome.copied,
        finished.settings is None,
{
}

/// Any other texture that stands still is written as xBRZ scales it.
pub proof fn other_still_textures_are_scaled_plainly(
    work: TextureWork,
    kept: &[ModelFace],
    factor: u32,
    finished: Finished,
)
    requires
        call_ensures(finish_texture, (work, kept, factor), Ok::<Finished, String>(finished)),
        !work.plan.animated,
        kept@.len() == 0,
        !work.plan.wrap,
    ensures
        is_file_of(finished.png@, plain_upscaled(work.image@, factor as int)),
        !finished.outcome.wrapped,
        !finished.outcome.stitched,
        !finished.outcome.animated,
        !finished.outcome.copied,
        finished.settings is None,
{
}

/// In what is written of an animated texture, row `y` of frame `k` is that of
/// the frame scaled by itself: stitched where there are faces, else with its
/// context where the texture tiles, else plainly. So it is reported, too.
pub proof fn frames_are_written_one_by_one(
    work: TextureWork,
    kept: &[ModelFace],
    factor: u32,
    finished: Finished,
    k: int,
    x: int,
    y: int,
)
    requires
        call_ensures(finish_texture, (work, kept, factor), Ok::<Finished, String>(finished)),
        work.plan.animated,
        work.image@.wf(),
        1 <= work.frame_height <= work.image@.height,
        0 <= k,
        (k + 1) * work.frame_height <= work.image@.height,
        0 <= x < work.image@.width * factor,
        0 <= y < work.frame_height * factor,
    ensures
        ({
            let band = frame(work.image@, work.frame_height as int, k);
            let row = k * (work.frame_height * factor) + y;
            exists|picture: Raster| #[trigger]
                is_file_of(finished.png@, picture) && {
                    &&& kept@.len() > 0 ==> picture.at(x, row) == stitched(
                        band,
                        kept@,
                        factor as int,
                    ).at(x, y)
                    &&& kept@.len() == 0 && work.plan.wrap ==> picture.at(x, row)
                        == wrapped_upscaled(band, factor as int).at(x, y)
                    &&& kept@.len() == 0 && !work.plan.wrap ==> picture.at(x, row)
                        == plain_upscaled(band, factor as int).at(x, y)
                }
        }),
        finished.outcome.animated,
        !finished.outcome.copied,
        finished.outcome.stitched == (kept@.len() > 0),
        finished.outcome.wrapped == (work.plan.wrap && kept@.len() == 0),
{
    let fh = work.frame_height as int;
    let h = work.image@.height;
    assert(k < h / fh) by (nonlinear_arith)
        requires
            (k + 1) * fh <= h,
            fh >= 1,
            k >= 0,
    ;
    frames_are_rendered_apart(
        work.image@,
        fh,
        kept@,
        work.plan.wrap,
        factor as int,
        k,
        x,
        y,
    );
    let whole = animated(work.image@, fh, kept@, work.plan.wrap, factor as int);
    assert(is_file_of(finished.png@, whole->Ok_0));
}

/// The settings written beside an animated texture have the frame size
/// multiplied where it is given, and all else as it was.
pub proof fn written_settings_follow_the_factor(
    work: TextureWork,
    kept: &[ModelFace],
    factor: u32,
    finished: Finished,
    key: Seq<char>,
)
    requires
        call_ensures(finish_texture, (work, kept, factor), Ok::<Finished, String>(finished)),
        work.plan.animated,
        work.settings is Some,
    ensures
        finished.settings is Some,
        ({
            let before = work.settings->0@;
            let after = finished.settings->0@;
            &&& key != "animation"@ ==> after.get(key) == before.get(key)
            &&& before.get("animation"@) matches Some(animation) ==> {
                &&& after.get("animation"@) is Some
                &&& match animation.get(key) {
                    Some(JsonView::Number(JsonNumber::Unsigned(n))) if key == "width"@ || key
                        == "height"@ => after.get("animation"@)->0.get(key) == Some(
                        JsonView::Number(JsonNumber::Unsigned((n * factor) as u64)),
                    ),
                    _ => after.get("animation"@)->0.get(key) == animation.get(key),
                }
            }
        }),
{
    let before = work.settings->0@;
    scaling_changes_the_animation_alone(before, factor as int, key);
    scaling_changes_the_animation_alone(before, factor as int, "animation"@);
    if let Some(animation) = before.get("animation"@) {
        scaling_changes_the_frame_size_alone(animation, factor as int, key);
    }
}

/// A texture with pixels that was taken up fails only for its factor, or where
/// no PNG can be made of what came out.
pub proof fn finishing_fails_for_the_factor_or_the_encoder_alone(
    work: TextureWork,
    kept: &[ModelFace],
    factor: u32,
    error: String,
)
    requires
        call_ensures(finish_texture, (work, kept, factor), Err::<Finished, String>(error)),
        work.image@.width > 0,
        work.image@.height > 0,
        work.plan.animated ==> 1 <= work.frame_height <= work.image@.height,
    ensures
        2 <= factor <= 6 ==> exists|picture: Raster|
            #![trigger encoded(picture.bytes(), picture.width, picture.height)]
            encoded(picture.bytes(), picture.width, picture.height) matches Err(reason) && error@
                == "encode PNG: "@ + reason,
        !(2 <= factor <= 6) ==> error@ == "factor must be between 2 and 6"@,
{
    let made = finished_image(work, kept@, factor as int);
    if 2 <= factor <= 6 {
        let picture = made->Ok_0;
        assert(made is Ok);
        assert(encoded(picture.bytes(), picture.width, picture.height) is Err);
    }
}

/// With stitching off, or for a moving texture that is no block's, no model is
/// chosen; and a border that tiles is planned only where it is asked for.
pub proof fn plans_keep_to_the_options(
    relative: &str,
    options: BatchOptions,
    settings: Option<&Json>,
    blocks: Vec<StemFaces>,
    models: &[EntityModel],
    size: (u32, u32),
    plan: TexturePlan,
)
    requires
        call_ensures(plan_texture, (relative, &options, settings, &blocks, models, size), plan),
    ensures
        !options.stitch ==> plan.model == ModelChoice::Plain,
        plan.animated && plan.model is Entity ==> false,
        plan.wrap <==> options.wrap && ("block/"@.is_prefix_of(relative@) || relative@
            == "entity/beacon/beacon_beam.png"@),
        plan.animated <==> (settings matches Some(settings) && (settings@.get("animation"@) matches Some(
            animation,
        ) && animation != JsonView::Null)),
{
}

/// A block texture is stitched with the faces that are there for it, and with
/// no other block's.
pub proof fn block_textures_get_their_own_faces(
    relative: &str,
    options: BatchOptions,
    settings: Option<&Json>,
    blocks: Vec<StemFaces>,
    models: &[EntityModel],
    size: (u32, u32),
    plan: TexturePlan,
    i: int,
)
    requires
        call_ensures(plan_texture, (relative, &options, settings, &blocks, models, size), plan),
    ensures
        plan.model matches ModelChoice::Block(found) ==> found < blocks@.len() && relative@
            == "block/"@ + blocks@[found as int].stem@ + ".png"@,
        options.stitch && 0 <= i < blocks@.len() && relative@ == "block/"@ + blocks@[i].stem@
            + ".png"@ && blocks@[i].stem@.len() > 0 && !blocks@[i].stem@.contains('/')
            ==> (plan.model matches ModelChoice::Block(found) && blocks@[found as int].stem@
            == blocks@[i].stem@ && found <= i),
{
    reveal_strlit("block/");
    reveal_strlit(".png");
    reveal_strlit("/");
    assert(blocks@.len() == blocks.len());
    if let ModelChoice::Block(found) = plan.model {
        let k = choose|k: int| is_first_for(blocks@, block_stem(relative@)->0, k);
        assert(is_first_for(blocks@, block_stem(relative@)->0, k));
        let rest = relative@.skip(6);
        assert(relative@ =~= "block/"@ + rest);
        assert(rest =~= rest.take(rest.len() - 4) + ".png"@);
        assert("block/"@ + (rest.take(rest.len() - 4) + ".png"@) =~= "block/"@ + rest.take(
            rest.len() - 4,
        ) + ".png"@);
    }
    if options.stitch && 0 <= i < blocks@.len() && relative@ == "block/"@ + blocks@[i].stem@
        + ".png"@ && blocks@[i].stem@.len() > 0 && !blocks@[i].stem@.contains('/') {
        let stem = blocks@[i].stem@;
        assert("block/"@.is_prefix_of(relative@)) by {
            assert(relative@.subrange(0, 6) =~= "block/"@);
        }
        let rest = relative@.skip(6);
        assert(rest =~= stem + ".png"@);
        assert(".png"@.is_suffix_of(rest)) by {
            assert(rest.subrange(rest.len() - 4, rest.len() as int) =~= ".png"@);
        }
        assert(rest.take(rest.len() - 4) =~= stem);
        if contains_text(stem, "/"@) {
            let at = choose|at: int| #[trigger] occurs_at(stem, "/"@, at);
            assert(stem.subrange(at, at + 1)[0] == '/');
            assert(stem[at] == '/');
        }
        assert(block_stem(relative@) == Some(stem));
        lemma_first_for(blocks@, stem, i);
        let k = choose|k: int| is_first_for(blocks@, stem, k);
        assert(is_first_for(blocks@, stem, k));
        if k > i {
            assert(blocks@[i].stem@ != stem);
        }
    }
}

proof fn lemma_first_for(blocks: Seq<StemFaces>, stem: Seq<char>, i: int)
    requires
        0 <= i < blocks.len(),
        blocks[i].stem@ == stem,
    ensures
        exists|k: int| is_first_for(blocks, stem, k),
    decreases i,
{
    if forall|k: int| 0 <= k < i ==> (#[trigger] blocks[k]).stem@ != stem {
        assert(is_first_for(blocks, stem, i));
    } else {
        let k = choose|k: int| 0 <= k < i && (#[trigger] blocks[k]).stem@ == stem;
        lemma_first_for(blocks, stem, k);
    }
}

/// An entity texture that stands still is stitched with the model that suits
/// its path and size best, if any suits it at all.
pub proof fn entity_textures_get_the_best_model(
    relative: &str,
    options: BatchOptions,
    settings: Option<&Json>,
    blocks: Vec<StemFaces>,
    models: &[EntityModel],
    size: (u32, u32),
    plan: TexturePlan,
    i: int,
)
    requires
        call_ensures(plan_texture, (relative, &options, settings, &blocks, models, size), plan),
        "entity/"@.is_prefix_of(relative@),
    ensures
        plan.model matches ModelChoice::Entity(found) ==> (ctx_of(relative@) matches Some(ctx)
            && is_best(models@, ctx, size, found as int)),
        options.stitch && !plan.animated && (ctx_of(relative@) matches Some(ctx) && is_best(
            models@,
            ctx,
            size,
            i,
        )) ==> plan.model == ModelChoice::Entity(i as usize),
        !(plan.model is Block),
{
    reveal_strlit("entity/");
    reveal_strlit("block/");
    assert(models@.len() == models.len());
    assert("block/"@[0] == 'b');
    assert("entity/"@[0] == 'e');
    assert("entity/"@ == relative@.subrange(0, 7));
    assert(relative@[0] == 'e');
    if "block/"@.is_prefix_of(relative@) {
        assert("block/"@ == relative@.subrange(0, 6));
        assert(relative@[0] == 'b');
    }
    if let Some(ctx) = ctx_of(relative@) {
        if is_best(models@, ctx, size, i) {
            let k = choose|k: int| is_best(models@, ctx, size, k);
            the_best_model_is_unique(models@, ctx, size, i, k);
        }
        if let ModelChoice::Entity(found) = plan.model {
            let k = choose|k: int| is_best(models@, ctx, size, k);
            assert(is_best(models@, ctx, size, k));
        }
    }
}

/// The biome colour maps of a jar are copied, and nothing else is.
pub proof fn colour_maps_alone_are_copied(
    name: &str,
    file: &[u8],
    mcmeta: Option<&[u8]>,
    options: BatchOptions,
    blocks: Vec<StemFaces>,
    models: &[EntityModel],
    step: Result<TextureStep, String>,
    below: Seq<char>,
)
    requires
        call_ensures(start_texture, (name, file, mcmeta, &options, &blocks, models), step),
        name@ == "assets/minecraft/textures/"@ + below,
    ensures
        step == Ok::<TextureStep, String>(TextureStep::Copy) <==> "colormap/"@.is_prefix_of(below)
            || contains_text(below, "/textures/colormap/"@),
{
    lemma_below_the_root(name@, below);
}

proof fn lemma_below_the_root(name: Seq<char>, below: Seq<char>)
    requires
        name == "assets/minecraft/textures/"@ + below,
    ensures
        relative_to_root(name) == below,
{
    reveal_strlit("assets/minecraft/textures/");
    let root = "assets/minecraft/textures/"@;
    assert(name.subrange(0, root.len() as int) =~= root);
    assert(name.skip(root.len() as int) =~= below);
}

/// A texture that is taken up is the one in its file, planned by its path below
/// the texture root, its settings file and its size; a still one is rendered as
/// a whole, a moving one by frames that lie in it.
pub proof fn textures_are_taken_up_as_they_are(
    name: &str,
    file: &[u8],
    mcmeta: Option<&[u8]>,
    options: BatchOptions,
    blocks: Vec<StemFaces>,
    models: &[EntityModel],
    work: TextureWork,
    below: Seq<char>,
)
    requires
        call_ensures(
            start_texture,
            (name, file, mcmeta, &options, &blocks, models),
            Ok::<TextureStep, String>(TextureStep::Scale(work)),
        ),
        name@ == "assets/minecraft/textures/"@ + below,
    ensures
        decoded(file@) matches Ok((width, height, bytes)) && width > 0 && height > 0
            && work.image@ == Raster::from_bytes(width as int, height as int, bytes),
        match mcmeta {
            Some(beside) => settings_view(work.settings) == parsed_json(beside@),
            None => work.settings is None,
        },
        work.plan.animated <==> (work.settings matches Some(settings) && (settings@.get(
            "animation"@,
        ) matches Some(animation) && animation != JsonView::Null)),
        !work.plan.animated ==> work.frame_height == work.image@.height,
        1 <= work.frame_height <= work.image@.height,
        work.plan == planned(
            below,
            options,
            settings_view(work.settings),
            blocks@,
            models@,
            (work.image@.width as u32, work.image@.height as u32),
        ),
{
    lemma_below_the_root(name@, below);
}

/// A file that holds no picture, or one without pixels, is refused.
pub proof fn files_without_pixels_are_refused(
    name: &str,
    file: &[u8],
    mcmeta: Option<&[u8]>,
    options: BatchOptions,
    blocks: Vec<StemFaces>,
    models: &[EntityModel],
    step: Result<TextureStep, String>,
    below: Seq<char>,
)
    requires
        call_ensures(start_texture, (name, file, mcmeta, &options, &blocks, models), step),
        name@ == "assets/minecraft/textures/"@ + below,
        !"colormap/"@.is_prefix_of(below),
        !contains_text(below, "/textures/colormap/"@),
    ensures
        match decoded(file@) {
            Err(reason) => step matches Err(e) && e@ == "decode PNG: "@ + reason,
            Ok((width, height, _)) => if width == 0 || height == 0 {
                step matches Err(e) && e@ == "zero-size texture"@
            } else {
                step is Ok
            },
        },
{
    lemma_below_the_root(name@, below);
}

/// Every face that a texture is stitched with is one of its model's, lies in the
/// texture and has pixels; an entity model with more faces outside the texture
/// than inside it gives none, and one that lies inside as it is gives all.
pub proof fn kept_faces_are_the_models_own(
    model: ModelChoice,
    faces: &[ModelFace],
    scaled: Vec<ScaledRect>,
    width: u32,
    height: u32,
    kept: Vec<ModelFace>,
    k: int,
)
    requires
        call_ensures(keep_faces, (model, faces, &scaled, width, height), kept),
        scaled@.len() == faces@.len(),
    ensures
        model == ModelChoice::Plain ==> kept@.len() == 0,
        model is Entity && kept@.len() > 0 ==> 2 * kept@.len() >= faces@.len(),
        0 <= k < kept@.len() ==> {
            let rect = kept@[k].rect;
            &&& rect.width > 0
            &&& rect.height > 0
            &&& rect.x + rect.width <= width
            &&& rect.y + rect.height <= height
            &&& exists|i: int|
                0 <= i < faces@.len() && kept@[k] == (ModelFace {
                    rect,
                    ..#[trigger] faces@[i]
                })
        },
        model != ModelChoice::Plain && (forall|i: int|
            0 <= i < faces@.len() ==> {
                let rect = (#[trigger] faces@[i]).rect;
                &&& rect.width > 0
                &&& rect.height > 0
                &&& rect.x + rect.width <= width
                &&& rect.y + rect.height <= height
                &&& scaled@[i] == unscaled(rect)
            }) ==> kept@ == faces@,
{
    let count = faces@.len() as int;
    let w = width as int;
    let h = height as int;
    if 0 <= k < kept@.len() {
        scaled_faces_lie_in_the_texture(faces@, scaled@, w, h, count, k);
        clipping_changes_rectangles_alone(faces@, scaled@, w, h, count, k);
    }
    if forall|i: int|
        0 <= i < faces@.len() ==> {
            let rect = (#[trigger] faces@[i]).rect;
            &&& rect.width > 0
            &&& rect.height > 0
            &&& rect.x + rect.width <= width
            &&& rect.y + rect.height <= height
            &&& scaled@[i] == unscaled(rect)
        } {
        matching_texture_keeps_faces(faces@, scaled@, w, h, count);
        assert(faces@.take(count) =~= faces@);
    }
}

/// A face is kept unless nothing of it lies in the texture or its entity model
/// is not the texture's own.
pub proof fn faces_in_the_texture_are_kept(
    model: ModelChoice,
    faces: &[ModelFace],
    scaled: Vec<ScaledRect>,
    width: u32,
    height: u32,
    kept: Vec<ModelFace>,
    i: int,
)
    requires
        call_ensures(keep_faces, (model, faces, &scaled, width, height), kept),
        scaled@.len() == faces@.len(),
        0 <= i < faces@.len(),
        model is Block || (model is Entity && kept@.len() > 0),
        0 <= scaled@[i].x < scaled@[i].right,
        0 <= scaled@[i].y < scaled@[i].bottom,
        scaled@[i].x < width,
        scaled@[i].y < height,
    ensures
        exists|k: int|
            0 <= k < kept@.len() && (#[trigger] kept@[k]) == (ModelFace {
                rect: FaceRect {
                    x: scaled@[i].x as u32,
                    y: scaled@[i].y as u32,
                    width: (least(scaled@[i].right as int, width as int) - scaled@[i].x) as u32,
                    height: (least(scaled@[i].bottom as int, height as int) - scaled@[i].y) as u32,
                },
                ..faces@[i]
            }),
{
    faces_with_a_part_inside_stay(
        faces@,
        scaled@,
        width as int,
        height as int,
        faces@.len() as int,
        i,
    );
}

/// An entity model's faces are scaled from the model's own space where it gives
/// one, whatever the image; else from the image's.
pub proof fn models_keep_their_own_space(
    model: EntityModel,
    image: UvSize,
    other: UvSize,
    size: UvSize,
    other_size: UvSize,
)
    requires
        call_ensures(face_space, (&model, image), size),
        call_ensures(face_space, (&model, other), other_size),
    ensures
        model.has_texture_size ==> size == other_size && size == model.faces.uv_size,
        !model.has_texture_size ==> size == image && other_size == other,
{
}

/// A copied texture is nothing but copied.
pub proof fn copies_are_copies(outcome: ProcessOutcome)
    requires
        call_ensures(copied_outcome, (), outcome),
    ensures
        outcome.copied,
        !outcome.animated && !outcome.stitched && !outcome.wrapped,
{
}

/// The faces of an entity model are kept as those of a block's would be, where half
/// of them or more are left; where fewer are, none is kept.
pub proof fn half_of_the_faces_are_enough(
    entity: usize,
    block: usize,
    faces: &[ModelFace],
    scaled: Vec<ScaledRect>,
    width: u32,
    height: u32,
    kept: Vec<ModelFace>,
    left: Vec<ModelFace>,
)
    requires
        call_ensures(
            keep_faces,
            (ModelChoice::Entity(entity), faces, &scaled, width, height),
            kept,
        ),
        call_ensures(keep_faces, (ModelChoice::Block(block), faces, &scaled, width, height), left),
    ensures
        2 * left@.len() >= faces@.len() ==> kept@ == left@,
        2 * left@.len() < faces@.len() ==> kept@.len() == 0,
{
}

/// An animated texture is rendered by frames of the size that its animation gives.
pub proof fn moving_textures_are_rendered_by_their_frames(
    relative: &str,
    image: RgbaImage,
    settings: Option<Json>,
    options: BatchOptions,
    blocks: Vec<StemFaces>,
    models: &[EntityModel],
    work: TextureWork,
    animation: &Json,
    size: (u32, u32),
)
    requires
        call_ensures(plan_work, (relative, image, settings, &options, &blocks, models), work),
        settings matches Some(settings) && settings@.get("animation"@) == Some(animation@),
        animation@ != JsonView::Null,
        call_ensures(
            animation_frame_size,
            (image@.width as u32, image@.height as u32, animation),
            size,
        ),
    ensures
        work.plan.animated,
        work.frame_height == size.1,
        work.image@ == image@,
        work.settings matches Some(kept) && kept@ == settings->0@,
{
}

/// Taking up a texture is planning the work on what its files hold.
pub proof fn taking_up_is_planning(
    name: &str,
    file: &[u8],
    beside: &[u8],
    options: BatchOptions,
    blocks: Vec<StemFaces>,
    models: &[EntityModel],
    taken: TextureWork,
    below: &str,
    image: RgbaImage,
    settings: Option<Json>,
    work: TextureWork,
)
    requires
        call_ensures(
            start_texture,
            (name, file, Some(beside), &options, &blocks, models),
            Ok::<TextureStep, String>(TextureStep::Scale(taken)),
        ),
        name@ == "assets/minecraft/textures/"@ + below@,
        call_ensures(decode_texture, (file,), Ok::<RgbaImage, String>(image)),
        settings_view(settings) == parsed_json(beside@),
        call_ensures(plan_work, (below, image, settings, &options, &blocks, models), work),
    ensures
        taken.image@ == work.image@,
        taken.plan == work.plan,
        taken.frame_height == work.frame_height,
        settings_view(taken.settings) == settings_view(work.settings),
{
    lemma_below_the_root(name@, below@);
}

/// Unless something else is asked for, a jar is upscaled four times, stitched and
/// wrapped, with the models that are found.
pub proof fn batches_do_all_by_default(options: BatchOptions)
    requires
        call_ensures(BatchOptions::default, (), options),
    ensures
        options.factor == 4 && options.stitch && options.wrap && options.model_dir is None,
{
}

/// A texture of modest size, with faces that lie in it, can always be finished.
pub proof fn modest_textures_can_be_finished(
    work: TextureWork,
    kept: &[ModelFace],
    factor: u32,
    can: bool,
)
    requires
        call_ensures(can_finish, (&work, kept, factor), can),
        !work.plan.animated,
        0 <= work.image@.width <= 1024,
        0 <= work.image@.height <= 1024,
        forall|i: int|
            0 <= i < kept@.len() ==> (#[trigger] kept@[i]).rect.x + kept@[i].rect.width
                <= work.image@.width && kept@[i].rect.y + kept@[i].rect.height
                <= work.image@.height,
    ensures
        can,
{
    if 2 <= factor <= 6 {
        modest_textures_can_be_scaled(
            work.image@.width as u32,
            work.image@.height as u32,
            factor as int,
        );
        faces_in_the_texture_can_be_stitched(
            kept@,
            work.image@.width,
            work.image@.height,
            factor as int,
        );
    }
}

} // verus!
