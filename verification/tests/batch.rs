use std::io::Cursor;

use xbrstudio::animation::{
    animation_frame_size, animation_of, can_scale_frame, scale_animation_fields,
};
use xbrstudio::blocks::{choose_models, index_block_models, BlockCandidate};
use xbrstudio::codec::{accept_texture, decode_texture, encode_texture};
use xbrstudio::entity::{admit_entity_model, load_entity_models, ModelFile};
use xbrstudio::frames::{can_animate, upscale_animated};
use xbrstudio::json::{Json, JsonNumber};
use xbrstudio::listing::{block_model_name, list_block_models, list_textures};
use xbrstudio::matching::EntityModel;
use xbrstudio::model::{FaceRect, ModelFace, ModelFaces, ScaledRect, UvLength, UvSize};
use xbrstudio::order::{sort, text_precedes};
use xbrstudio::parse::{CubeNet, EntityLayout, EntityPart};
use xbrstudio::process::{
    can_finish, copied_outcome, face_space, finish_texture, keep_faces, plan_texture,
    plan_work, start_texture, BatchOptions, ModelChoice, ProcessOutcome, StemFaces, TextureStep,
};
use xbrstudio::raster::{Rgba, RgbaImage};
use xbrstudio::render::{can_render, render_texture};
use xbrstudio::report::{
    find_pack_format, pack_settings, read_pack_format, sum_up, BatchReport, TextureResult,
};
use xbrstudio::upscaling::{upscale_image, upscale_wrapped, UpscaleConfig};

fn number(n: u64) -> Json {
    Json::Number(JsonNumber::Unsigned(n))
}

fn text(value: &str) -> Json {
    Json::Text(value.into())
}

fn object(entries: Vec<(&str, Json)>) -> Json {
    Json::Object(entries.into_iter().map(|(key, value)| (key.into(), value)).collect())
}

fn uv(width: f32, height: f32) -> UvSize {
    let length = |value: f32| UvLength { bits: value.to_bits(), whole: value as u32 };
    UvSize { width: length(width), height: length(height) }
}

fn png_bytes(width: u32, height: u32, fill: [u8; 4]) -> Vec<u8> {
    let image = image::RgbaImage::from_pixel(width, height, image::Rgba(fill));
    let mut buffer = Vec::new();
    image::DynamicImage::ImageRgba8(image)
        .write_to(&mut Cursor::new(&mut buffer), image::ImageFormat::Png)
        .unwrap();
    buffer
}

fn png_size(file: &[u8]) -> (u32, u32) {
    let image = image::load_from_memory(file).unwrap();
    (image.width(), image.height())
}

fn cube(size: [u32; 3], origin: [u32; 2]) -> CubeNet {
    let [dx, dy, dz] = size;
    let [u, v] = origin;
    CubeNet {
        u0: u,
        u1: u + dz,
        u2: u + dz + dx,
        u3: u + dz + dx + dz,
        v0: v,
        v1: v + dz,
        dx,
        dy,
        dz,
        wide: dx > 0,
        tall: dy > 0,
        deep: dz > 0,
    }
}

fn layout(size: UvSize, cubes: Vec<CubeNet>) -> EntityLayout {
    let parts =
        cubes.into_iter().map(|cube| EntityPart { cubes: vec![cube], children: Vec::new() });
    EntityLayout { texture_size: Some(size), parts: parts.collect() }
}

fn model_file(text: &str, layout: EntityLayout) -> ModelFile {
    ModelFile { text: text.into(), entity: Ok(layout) }
}

fn entity(class: &str, method: &str, size: UvSize, cubes: Vec<CubeNet>) -> EntityModel {
    let root = object(vec![
        ("model", text(class)),
        ("method", text(method)),
        ("texture_size", Json::Array(Vec::new())),
        ("parts", Json::Array(Vec::new())),
    ]);
    admit_entity_model(&root, Ok(layout(size, cubes))).unwrap()
}

fn block_face(name: &str, x: u32, y: u32, width: u32, height: u32) -> ModelFace {
    ModelFace {
        texture: "lantern".into(),
        rect: FaceRect { x, y, width, height },
        face: name.into(),
        group: 0,
    }
}

fn lantern() -> StemFaces {
    StemFaces {
        stem: "lantern".into(),
        faces: ModelFaces {
            textures: vec![("lantern".into(), "minecraft:block/lantern".into())],
            faces: vec![
                block_face("north", 0, 0, 8, 8),
                block_face("east", 8, 0, 8, 8),
                block_face("south", 0, 8, 8, 8),
                block_face("west", 8, 8, 8, 8),
            ],
            uv_size: uv(16.0, 16.0),
        },
    }
}

fn scaled(model: &ModelFaces, width: u32, height: u32) -> Vec<ScaledRect> {
    let x_scale = width as f32 / f32::from_bits(model.uv_size.width.bits);
    let y_scale = height as f32 / f32::from_bits(model.uv_size.height.bits);
    model
        .faces
        .iter()
        .map(|face| ScaledRect {
            x: (face.rect.x as f32 * x_scale).floor() as i64,
            y: (face.rect.y as f32 * y_scale).floor() as i64,
            right: (face.rect.right() as f32 * x_scale).ceil() as i64,
            bottom: (face.rect.bottom() as f32 * y_scale).ceil() as i64,
        })
        .collect()
}

/// A texture's file, its settings where they changed, and what was done.
type Processed = Result<(Vec<u8>, Option<Json>, ProcessOutcome), String>;

fn process(
    name: &str,
    file: &[u8],
    mcmeta: Option<&[u8]>,
    options: &BatchOptions,
    blocks: &Vec<StemFaces>,
    models: &[EntityModel],
) -> Processed {
    let work = match start_texture(name, file, mcmeta, options, blocks, models)? {
        TextureStep::Copy => return Ok((file.to_vec(), None, copied_outcome())),
        TextureStep::Scale(work) => work,
    };
    let (width, height) = (work.image.width(), work.frame_height);
    let kept = match work.plan.model {
        ModelChoice::Plain => Vec::new(),
        ModelChoice::Block(i) => {
            let model = &blocks[i].faces;
            keep_faces(work.plan.model, &model.faces, &scaled(model, width, height), width, height)
        }
        ModelChoice::Entity(i) => {
            let model = &models[i].faces;
            keep_faces(work.plan.model, &model.faces, &scaled(model, width, height), width, height)
        }
    };
    assert!(can_finish(&work, &kept, options.factor));
    let done = finish_texture(work, &kept, options.factor)?;
    Ok((done.png, done.settings, done.outcome))
}

#[test]
fn batch_upscales_textures_into_a_pack() {
    let cow = r#"{
        "model": "net.minecraft.client.model.animal.cow.CowModel",
        "method": "createBaseCowModel",
        "texture_size": [16, 16],
        "parts": [{"name": "body", "cubes": [{"size": [8, 8, 4], "uv": [0, 0]}]}]
    }"#;
    let wolf = r#"{
        "model": "net.minecraft.client.model.animal.wolf.AdultWolfModel",
        "method": "createBodyLayer",
        "texture_size": [64, 32],
        "parts": [
            {"name": "body", "cubes": [{"size": [6, 6, 10], "uv": [0, 0]}]},
            {"name": "head", "cubes": [{"size": [6, 6, 6], "uv": [0, 20]}]}
        ]
    }"#;
    let wolf_cubes = vec![cube([6, 6, 10], [0, 0]), cube([6, 6, 6], [0, 20])];
    let models = load_entity_models(vec![
        model_file(wolf, layout(uv(64.0, 32.0), wolf_cubes)),
        model_file(cow, layout(uv(16.0, 16.0), vec![cube([8, 8, 4], [0, 0])])),
    ]);
    let blocks = vec![lantern()];
    let animation: &[u8] = br#"{"animation":{"frametime":2,"width":4,"height":4}}"#;
    let cutout: &[u8] = br#"{"texture":{"mipmap_strategy":"cutout"}}"#;
    let grass = png_bytes(256, 256, [10, 200, 10, 255]);
    let files: Vec<(&str, Vec<u8>, Option<&[u8]>)> = vec![
        ("block/dirt.png", png_bytes(4, 4, [120, 80, 50, 255]), None),
        ("block/lantern.png", png_bytes(8, 8, [40, 40, 50, 255]), None),
        ("block/lava_still.png", png_bytes(4, 12, [255, 100, 0, 255]), Some(animation)),
        ("block/stone.png", png_bytes(4, 4, [200, 50, 50, 255]), Some(cutout)),
        ("colormap/grass.png", grass.clone(), None),
        ("entity/cow/test_cow.png", png_bytes(16, 16, [120, 80, 40, 255]), None),
        ("entity/equipment/test_armor.png", png_bytes(16, 16, [90, 90, 90, 255]), None),
        ("entity/wolf/wolf.png", png_bytes(32, 16, [160, 160, 160, 255]), None),
    ];
    let options = BatchOptions { factor: 2, stitch: true, model_dir: None, wrap: true };
    let mut outputs = Vec::new();
    let mut results = Vec::new();
    for (short, file, mcmeta) in files {
        let name = format!("assets/minecraft/textures/{short}");
        let processed = process(&name, &file, mcmeta, &options, &blocks, &models);
        let outcome = match processed {
            Ok((png, settings, outcome)) => {
                outputs.push((short, png, settings));
                Ok(outcome)
            }
            Err(error) => Err(error),
        };
        results.push(TextureResult { name, outcome });
    }
    let report = sum_up(&results, options.stitch, models.len(), blocks.len(), None);
    assert_eq!(report.total, 8);
    assert_eq!(report.upscaled, 7);
    assert_eq!(report.copied, 1);
    assert!(report.errors.is_empty(), "{:?}", report.errors);
    assert_eq!(report.animated, 1);
    assert_eq!(report.stitched, 3);
    assert_eq!(report.wrapped, 3);
    assert_eq!(report.entity_models, 2);
    assert_eq!(report.block_models, 1);
    assert_eq!(report.unmatched_entity, vec!["entity/equipment/test_armor.png".to_string()]);

    let output = |short: &str| &outputs.iter().find(|output| output.0 == short).unwrap().1;
    assert_eq!(output("colormap/grass.png"), &grass);
    assert_eq!(png_size(output("block/stone.png")), (4 * 2, 4 * 2));
    assert_eq!(png_size(output("block/lantern.png")), (8 * 2, 8 * 2));
    assert_eq!(png_size(output("block/dirt.png")), (4 * 2, 4 * 2));
    assert_eq!(png_size(output("block/lava_still.png")), (4 * 2, 12 * 2));
    assert_eq!(png_size(output("entity/cow/test_cow.png")), (16 * 2, 16 * 2));
    assert_eq!(png_size(output("entity/equipment/test_armor.png")), (16 * 2, 16 * 2));

    let settings = |short: &str| outputs.iter().find(|output| output.0 == short).unwrap().2.as_ref();
    let lava = settings("block/lava_still.png").unwrap().get("animation").unwrap();
    assert_eq!(lava.get("width").unwrap().as_u64(), Some(8));
    assert_eq!(lava.get("height").unwrap().as_u64(), Some(8));
    assert_eq!(lava.get("frametime").unwrap().as_u64(), Some(2));
    assert!(settings("block/stone.png").is_none());
}

#[test]
fn animation_frame_size_defaults_to_square_frames() {
    assert_eq!(animation_frame_size(16, 320, &object(vec![])), (16, 16));
    assert_eq!(animation_frame_size(16, 320, &object(vec![("width", number(8))])), (8, 8));
    assert_eq!(
        animation_frame_size(
            16,
            320,
            &object(vec![("width", number(4)), ("height", number(2))])
        ),
        (4, 2)
    );
}

#[test]
fn frame_sizes_stay_inside_the_image() {
    assert_eq!(animation_frame_size(16, 8, &object(vec![])), (16, 8));
    assert_eq!(animation_frame_size(16, 8, &object(vec![("height", number(0))])), (16, 8));
    assert_eq!(animation_frame_size(16, 8, &object(vec![("width", text("4"))])), (16, 8));
    let huge = object(vec![("height", number(1 << 32))]);
    assert_eq!(animation_frame_size(16, 8, &huge), (16, 1));
    assert_eq!(animation_frame_size(0, 0, &Json::Null), (0, 1));
}

#[test]
fn settings_are_animated_unless_null() {
    assert!(animation_of(&object(vec![("animation", object(vec![]))])).is_some());
    assert!(animation_of(&object(vec![("animation", Json::Null)])).is_none());
    assert!(animation_of(&object(vec![])).is_none());
    assert!(animation_of(&Json::Bool(true)).is_none());
}

#[test]
fn scaling_settings_leaves_the_rest_alone() {
    let mut settings = object(vec![
        ("other", number(3)),
        (
            "animation",
            object(vec![
                ("height", Json::Number(JsonNumber::Negative(-4))),
                ("width", number(5)),
                ("interpolate", Json::Bool(true)),
            ]),
        ),
    ]);
    scale_animation_fields(&mut settings, 3);
    let animation = settings.get("animation").unwrap();
    assert_eq!(settings.get("other").unwrap().as_u64(), Some(3));
    assert_eq!(animation.get("width").unwrap().as_u64(), Some(15));
    assert_eq!(animation.get("height").unwrap().as_i64(), Some(-4));
    assert!(matches!(animation.get("interpolate"), Some(Json::Bool(true))));

    let mut list = object(vec![("animation", Json::Array(vec![number(1)]))]);
    scale_animation_fields(&mut list, 3);
    assert!(list.get("animation").unwrap().is_array());

    assert!(!can_scale_frame(&object(vec![("width", number(u64::MAX))]), 2));
    assert!(can_scale_frame(&object(vec![("width", number(7)), ("height", number(9))]), 6));
}

fn striped(width: u32, height: u32) -> RgbaImage {
    let mut image = RgbaImage::new(width, height);
    for y in 0..height {
        for x in 0..width {
            image.put_pixel(x, y, Rgba::new((x * 37 % 251) as u8, (y * 91 % 251) as u8, 7, 255));
        }
    }
    image
}

#[test]
fn frames_are_upscaled_apart() {
    let image = striped(4, 11);
    assert!(can_animate(4, 11, 4, &[], true, 2));
    let (output, stitched) = upscale_animated(&image, 4, &[], true, 2).unwrap();
    assert!(!stitched);
    // Two whole frames; the rest of the image is none.
    assert_eq!(output.dimensions(), (8, 16));
    for frame in 0..2 {
        let alone = upscale_wrapped(&image.crop(0, frame * 4, 4, 4), 2).unwrap();
        for y in 0..8 {
            for x in 0..8 {
                assert_eq!(output.get_pixel(x, frame * 8 + y), alone.get_pixel(x, y));
            }
        }
    }
    assert_eq!(
        upscale_animated(&image, 4, &[], true, 9).unwrap_err(),
        "factor must be between 2 and 6"
    );
}

#[test]
fn stitched_frames_are_reported() {
    let image = striped(8, 16);
    let faces = lantern().faces.faces;
    let rects = scaled(&lantern().faces, 8, 8);
    let kept = keep_faces(ModelChoice::Block(0), &faces, &rects, 8, 8);
    assert_eq!(kept.len(), 4);
    let (output, stitched) = upscale_animated(&image, 8, &kept, true, 2).unwrap();
    assert!(stitched);
    assert_eq!(output.dimensions(), (16, 32));
    let alone = render_texture(&image.crop(0, 8, 8, 8), &kept, true, 2).unwrap();
    for y in 0..16 {
        for x in 0..16 {
            assert_eq!(output.get_pixel(x, 16 + y), alone.get_pixel(x, y));
        }
    }
}

#[test]
fn rendering_stitches_before_it_wraps() {
    let image = striped(8, 8);
    let faces = [block_face("north", 0, 0, 4, 4)];
    assert!(can_render(&faces, true, 8, 8, 2));
    let stitch = UpscaleConfig { factor: 2, stitch_faces: true };
    let plain = UpscaleConfig { factor: 2, stitch_faces: false };
    assert_eq!(
        render_texture(&image, &faces, true, 2).unwrap().to_raw(),
        upscale_image(&image, Some(&faces), &stitch).unwrap().to_raw()
    );
    assert_eq!(
        render_texture(&image, &[], true, 2).unwrap().to_raw(),
        upscale_wrapped(&image, 2).unwrap().to_raw()
    );
    assert_eq!(
        render_texture(&image, &[], false, 2).unwrap().to_raw(),
        upscale_image(&image, None, &plain).unwrap().to_raw()
    );
}

#[test]
fn png_files_round_trip() {
    let image = striped(5, 3);
    let file = encode_texture(&image).unwrap();
    assert_eq!(&file[1..4], b"PNG");
    let back = decode_texture(&file).unwrap();
    assert_eq!(back.dimensions(), (5, 3));
    assert_eq!(back.to_raw(), image.to_raw());
}

#[test]
fn files_that_hold_no_texture_are_refused() {
    assert!(decode_texture(b"no image").unwrap_err().starts_with("decode PNG: "));
    assert_eq!(
        accept_texture(Err("broken".into())).unwrap_err(),
        "decode PNG: broken"
    );
    assert_eq!(accept_texture(Ok((0, 4, Vec::new()))).unwrap_err(), "zero-size texture");
    assert_eq!(accept_texture(Ok((1, 1, vec![1, 2, 3, 4]))).unwrap().dimensions(), (1, 1));
    assert!(encode_texture(&RgbaImage::new(0, 0)).unwrap_err().starts_with("encode PNG: "));
}

#[test]
fn default_options() {
    let options = BatchOptions::default();
    assert_eq!(options.factor, 4);
    assert!(options.stitch && options.wrap);
    assert!(options.model_dir.is_none());
}

#[test]
fn plans_follow_path_options_and_settings() {
    let blocks = vec![lantern()];
    let models = vec![entity(
        "m.animal.cow.CowModel",
        "createBodyLayer",
        uv(16.0, 16.0),
        vec![cube([8, 8, 4], [0, 0])],
    )];
    let moving = object(vec![("animation", object(vec![]))]);
    let mut options = BatchOptions::default();
    let plan = plan_texture("block/lantern.png", &options, None, &blocks, &models, (8, 8));
    assert_eq!(plan.model, ModelChoice::Block(0));
    assert!(plan.wrap && !plan.animated);
    let plan =
        plan_texture("block/lantern.png", &options, Some(&moving), &blocks, &models, (8, 8));
    assert_eq!(plan.model, ModelChoice::Block(0));
    assert!(plan.animated);
    let plan = plan_texture("entity/cow/cow.png", &options, None, &blocks, &models, (16, 16));
    assert_eq!(plan.model, ModelChoice::Entity(0));
    assert!(!plan.wrap);
    let plan =
        plan_texture("entity/cow/cow.png", &options, Some(&moving), &blocks, &models, (16, 16));
    assert_eq!(plan.model, ModelChoice::Plain);
    options.stitch = false;
    options.wrap = false;
    let plan = plan_texture("block/lantern.png", &options, None, &blocks, &models, (8, 8));
    assert_eq!(plan.model, ModelChoice::Plain);
    assert!(!plan.wrap);
}

#[test]
fn models_without_a_texture_size_take_the_image_for_it() {
    let mut model = entity("CowModel", "create", uv(64.0, 32.0), vec![cube([8, 8, 6], [0, 0])]);
    assert_eq!(face_space(&model, uv(128.0, 64.0)), uv(64.0, 32.0));
    model.has_texture_size = false;
    assert_eq!(face_space(&model, uv(128.0, 64.0)), uv(128.0, 64.0));
}

#[test]
fn entity_models_that_lose_most_faces_are_dropped() {
    let faces = vec![
        block_face("north", 0, 0, 4, 4),
        block_face("east", 20, 0, 4, 4),
        block_face("west", 24, 0, 4, 4),
    ];
    let rects: Vec<ScaledRect> = faces
        .iter()
        .map(|face| ScaledRect {
            x: i64::from(face.rect.x),
            y: i64::from(face.rect.y),
            right: i64::from(face.rect.right()),
            bottom: i64::from(face.rect.bottom()),
        })
        .collect();
    assert_eq!(keep_faces(ModelChoice::Entity(0), &faces, &rects, 16, 16).len(), 0);
    assert_eq!(keep_faces(ModelChoice::Block(0), &faces, &rects, 16, 16).len(), 1);
    assert_eq!(keep_faces(ModelChoice::Plain, &faces, &rects, 16, 16).len(), 0);
    assert_eq!(keep_faces(ModelChoice::Plain, &faces, &Vec::new(), 16, 16).len(), 0);
    let two = vec![faces[0].clone(), faces[1].clone()];
    assert_eq!(keep_faces(ModelChoice::Entity(0), &two, &rects[..2].to_vec(), 16, 16).len(), 1);
}

fn names(list: &[&str]) -> Vec<String> {
    list.iter().map(|name| name.to_string()).collect()
}

#[test]
fn textures_are_listed_by_name_with_their_settings() {
    let jar = names(&[
        "assets/minecraft/textures/b.png",
        "assets/minecraft/textures/a.png.mcmeta",
        "assets/minecraft/textures/a.png",
        "assets/minecraft/textures/c.txt",
        "other/d.png",
        "assets/minecraft/textures/a.png.mcmeta",
        "assets/minecraft/textures/b.png",
    ]);
    let entries = list_textures(&jar, "client.jar").unwrap();
    let listed: Vec<(usize, Option<usize>)> =
        entries.iter().map(|entry| (entry.index, entry.settings)).collect();
    assert_eq!(listed, vec![(2, Some(5)), (0, None), (6, None)]);
    assert_eq!(entries[1].name, "assets/minecraft/textures/b.png");
    assert_eq!(
        list_textures(&names(&["x.png"]), "client.jar").unwrap_err(),
        "no PNG textures found under assets/minecraft/textures/ in client.jar"
    );
}

#[test]
fn block_models_are_listed_by_name() {
    let jar = names(&[
        "assets/minecraft/models/block/sub/z.json",
        "assets/minecraft/models/block/a.json",
        "assets/minecraft/models/block/a.json",
        "assets/minecraft/models/item/b.json",
        "assets/minecraft/models/block/.json",
        "assets/minecraft/models/block/c.json.json",
    ]);
    let models = list_block_models(&jar);
    assert_eq!(
        models,
        vec![("a".to_string(), 2), ("c".to_string(), 5), ("z".to_string(), 0)]
    );
    assert_eq!(block_model_name("x/y/lantern.json"), "lantern");
}

fn candidate(key: &str, stems: &[&str]) -> BlockCandidate {
    BlockCandidate { key: key.into(), stems: names(stems) }
}

#[test]
fn namesakes_come_before_other_models() {
    let candidates = vec![
        candidate("hanging_lantern", &["lantern", "chain"]),
        candidate("lantern", &["lantern"]),
        candidate("chain_2", &["chain", "chain"]),
    ];
    assert_eq!(choose_models(&candidates, "lantern"), vec![1]);
    assert_eq!(choose_models(&candidates, "chain"), vec![0, 2, 2]);
    assert!(choose_models(&candidates, "stone").is_empty());
    let index = index_block_models(&candidates);
    let stems: Vec<&str> = index.iter().map(|entry| entry.stem.as_str()).collect();
    assert_eq!(stems, vec!["lantern", "chain"]);
    assert_eq!(index[1].models, vec![0, 2, 2]);
}

fn outcome(animated: bool, stitched: bool, wrapped: bool, copied: bool) -> ProcessOutcome {
    ProcessOutcome { animated, stitched, wrapped, copied }
}

fn result(short: &str, outcome: Result<ProcessOutcome, String>) -> TextureResult {
    TextureResult { name: format!("assets/minecraft/textures/{short}"), outcome }
}

fn sample_report(stitch: bool) -> BatchReport {
    let results = vec![
        result("entity/b.png", Ok(outcome(false, false, false, false))),
        result("entity/a.png", Ok(outcome(false, false, false, false))),
        result("entity/c.png", Ok(outcome(true, false, false, false))),
        result("block/z.png", Err("second".into())),
        result("block/z.png", Err("first".into())),
        result("block/y.png", Ok(outcome(false, false, true, false))),
        result("colormap/x.png", Ok(outcome(false, false, false, true))),
        result("entity/d.png", Ok(outcome(false, true, false, false))),
    ];
    sum_up(&results, stitch, 5, 6, Some("read-only".into()))
}

#[test]
fn reports_count_and_sort() {
    let report = sample_report(true);
    assert_eq!(report.total, 8);
    assert_eq!((report.upscaled, report.copied), (5, 1));
    assert_eq!((report.stitched, report.animated, report.wrapped), (1, 1, 1));
    assert_eq!((report.entity_models, report.block_models), (5, 6));
    assert_eq!(report.unmatched_entity, names(&["entity/a.png", "entity/b.png"]));
    let errors: Vec<(&str, &str)> =
        report.errors.iter().map(|(path, error)| (path.as_str(), error.as_str())).collect();
    assert_eq!(
        errors,
        vec![("block/z.png", "first"), ("block/z.png", "second"), ("pack.mcmeta", "read-only")]
    );
    assert_eq!(report.upscaled + report.copied + 2, report.total);
    assert!(sample_report(false).unmatched_entity.is_empty());
}

#[test]
fn texts_sort_by_character_codes() {
    let mixed = names(&["b", "a/b", "", "ab", "Z", "é", "a"]);
    let mut expected = mixed.clone();
    expected.sort();
    assert_eq!(sort(mixed), expected);
    assert!(text_precedes("a", "ab"));
    assert!(!text_precedes("ab", "a"));
    assert!(!text_precedes("a", "a"));
    let pairs = vec![("b".to_string(), 1usize), ("a".to_string(), 3), ("a".to_string(), 2)];
    assert_eq!(
        sort(pairs),
        vec![("a".to_string(), 2), ("a".to_string(), 3), ("b".to_string(), 1)]
    );
}

#[test]
fn pack_formats_are_read() {
    let version = object(vec![(
        "pack_version",
        object(vec![("resource_major", number(97)), ("resource_minor", number(1))]),
    )]);
    assert_eq!(find_pack_format(&version), Some(97));
    assert_eq!(find_pack_format(&object(vec![("pack_version", number(8))])), Some(8));
    assert_eq!(find_pack_format(&object(vec![("pack_version", text("8"))])), None);
    assert_eq!(find_pack_format(&object(vec![("pack_version", number(u64::MAX))])), None);
    assert_eq!(find_pack_format(&object(vec![])), None);
}

#[test]
fn version_files_are_read() {
    let version = br#"{"pack_version":{"resource_major":97,"resource_minor":1}}"#;
    assert_eq!(read_pack_format(version), Some(97));
    assert_eq!(read_pack_format(br#" {"pack_version": -3} "#), Some(-3));
    assert_eq!(read_pack_format(br#"{"pack_version": 8.5}"#), None);
    assert_eq!(read_pack_format(br#"{"pack_version": 18446744073709551615}"#), None);
    assert_eq!(read_pack_format(br#"{"pack_version": 1, "pack_version": 2}"#), Some(2));
    assert_eq!(read_pack_format(br#"{"pack_version": 8"#), None);
    assert_eq!(read_pack_format(b"{\"name\": \"\xff\", \"pack_version\": 8}"), None);
    assert_eq!(read_pack_format(b""), None);
}

#[test]
fn settings_files_are_read() {
    let file = png_bytes(4, 12, [255, 100, 0, 255]);
    let take = |mcmeta: &[u8]| {
        let step = start_texture(
            "block/x.png",
            &file,
            Some(mcmeta),
            &BatchOptions::default(),
            &Vec::new(),
            &[],
        );
        match step.unwrap() {
            TextureStep::Scale(work) => work,
            TextureStep::Copy => panic!("not a colour map"),
        }
    };
    let work = take(br#"{"animation":{"height":3,"frames":[0,null,true,"a",-1,0.5]}}"#);
    assert!(work.plan.animated);
    assert_eq!(work.frame_height, 3);
    let settings = work.settings.unwrap();
    let frames = match settings.get("animation").unwrap().get("frames").unwrap() {
        Json::Array(frames) => frames,
        other => panic!("{other:?}"),
    };
    assert_eq!(frames.len(), 6);
    assert_eq!(frames[0].as_u64(), Some(0));
    assert!(frames[1].is_null());
    assert!(matches!(frames[2], Json::Bool(true)));
    assert_eq!(frames[3].as_text().map(String::as_str), Some("a"));
    assert_eq!(frames[4].as_i64(), Some(-1));
    assert!(matches!(frames[5], Json::Number(JsonNumber::Double(bits)) if bits == 0.5f64.to_bits()));
    for still in [&b"{\"animation\":null}"[..], &b"{\"animation\":"[..], &b"\xff"[..]] {
        let work = take(still);
        assert!(!work.plan.animated);
        assert_eq!(work.frame_height, 12);
    }
    assert!(take(b"{\"animation\":").settings.is_none());
}

#[test]
fn work_is_planned_with_given_settings() {
    let settings = object(vec![("animation", object(vec![("height", number(2))]))]);
    let image = RgbaImage::new(4, 8);
    let options = BatchOptions::default();
    let work = plan_work("block/x.png", image, Some(settings), &options, &Vec::new(), &[]);
    assert!(work.plan.animated && work.plan.wrap);
    assert_eq!(work.plan.model, ModelChoice::Plain);
    assert_eq!(work.frame_height, 2);
    assert_eq!(work.image.dimensions(), (4, 8));
    assert!(work.settings.unwrap().get("animation").is_some());
}

#[test]
fn files_that_are_no_entity_models_are_passed_over() {
    let layout = || layout(uv(16.0, 16.0), vec![cube([8, 8, 4], [0, 0])]);
    let models = load_entity_models(vec![
        model_file("not json", layout()),
        model_file(r#"{"model": "a.b.PigModel", "parts": []}"#, layout()),
        model_file(r#"{"model": "a.b.CowModel"}"#, layout()),
        ModelFile {
            text: r#"{"model": "a.b.DogModel", "parts": []}"#.into(),
            entity: Err("structure".into()),
        },
        model_file(r#"{"parts": [], "method": "Make", "model": "a.CowModel"}"#, layout()),
    ]);
    let keys: Vec<&str> = models.iter().map(|model| model.key.as_str()).collect();
    assert_eq!(keys, vec!["pig", "cow"]);
    assert_eq!(models[0].pkg_dirs, vec!["a", "b"]);
    assert_eq!(models[1].method, "make");
    assert!(load_entity_models(Vec::new()).is_empty());
}

#[test]
fn pack_settings_name_format_and_factor() {
    let settings = pack_settings(Some(97), 4);
    let pack = settings.get("pack").unwrap();
    assert_eq!(pack.get("pack_format").unwrap().as_i64(), Some(97));
    assert_eq!(
        pack.get("description").unwrap().as_text().unwrap(),
        "Upscaled x4 by XBR Studio"
    );
    assert!(pack.get("supported_formats").is_none());
    let settings = pack_settings(None, 6);
    let pack = settings.get("pack").unwrap();
    assert_eq!(pack.get("pack_format").unwrap().as_u64(), Some(1));
    let range = pack.get("supported_formats").unwrap();
    assert_eq!(range.get("min_inclusive").unwrap().as_u64(), Some(1));
    assert_eq!(range.get("max_inclusive").unwrap().as_u64(), Some(999));
    assert_eq!(
        pack_settings(Some(-3), 2).get("pack").unwrap().get("pack_format").unwrap().as_i64(),
        Some(-3)
    );
}
