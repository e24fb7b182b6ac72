use xbrstudio::console::{
    can_upscale_single, check_batch, check_faces, check_scale, check_texture, choose_mode,
    choose_single, failure_lines, marked_line, progress_line, single_line, slice_line,
    sliced_line, stitched_line, summary_lines, upscale_single, Mode, SingleChoice,
};
use xbrstudio::model::{FaceRect, ModelFace, ModelFaces, ScaledRect, UvSize};
use xbrstudio::raster::{Rgba, RgbaImage};
use xbrstudio::report::{BatchProgress, BatchReport, JarMessage};
use xbrstudio::studio::{describe_batch, preview_title, to_bgra, JarEvent, Studio};
use xbrstudio::upscaling::upscale_wrapped;

fn image() -> RgbaImage {
    let mut image = RgbaImage::new(4, 4);
    for y in 0..4 {
        for x in 0..4 {
            image.put_pixel(x, y, Rgba::new(x as u8 * 60, y as u8 * 60, 5, 255));
        }
    }
    image
}

fn face(name: &str, group: u32) -> ModelFace {
    ModelFace {
        texture: String::new(),
        rect: FaceRect { x: 0, y: 0, width: 2, height: 2 },
        face: name.into(),
        group,
    }
}

fn model() -> ModelFaces {
    ModelFaces {
        textures: Vec::new(),
        faces: vec![face("north", 0), face("up", 1)],
        uv_size: UvSize::standard(),
    }
}

fn inside() -> Vec<ScaledRect> {
    vec![
        ScaledRect { x: 0, y: 0, right: 2, bottom: 2 },
        ScaledRect { x: 2, y: 2, right: 4, bottom: 4 },
    ]
}

fn outside() -> Vec<ScaledRect> {
    vec![
        ScaledRect { x: 9, y: 0, right: 12, bottom: 2 },
        ScaledRect { x: 9, y: 9, right: 12, bottom: 12 },
    ]
}

fn report() -> BatchReport {
    BatchReport {
        total: 9,
        upscaled: 5,
        copied: 1,
        stitched: 2,
        animated: 1,
        wrapped: 3,
        errors: vec![("a.png".into(), "broken".into()), ("b.png".into(), "gone".into())],
        entity_models: 7,
        block_models: 4,
        unmatched_entity: vec!["entity/x.png".into()],
    }
}

fn quiet_report() -> BatchReport {
    BatchReport {
        total: 3,
        upscaled: 1,
        copied: 2,
        stitched: 0,
        animated: 0,
        wrapped: 0,
        errors: Vec::new(),
        entity_models: 0,
        block_models: 0,
        unmatched_entity: Vec::new(),
    }
}

#[test]
fn either_a_texture_or_a_jar() {
    assert_eq!(choose_mode(true, false), Ok(Mode::Single));
    assert_eq!(choose_mode(false, true), Ok(Mode::Batch));
    assert_eq!(
        choose_mode(true, true),
        Err("pass either a texture path or --jar, not both".to_string())
    );
    assert_eq!(
        choose_mode(false, false),
        Err("provide a texture path, or --jar <file.jar>".to_string())
    );
}

#[test]
fn single_textures_are_stitched_or_wrapped() {
    assert_eq!(
        choose_single(true, false, false, true),
        SingleChoice { stitch: true, wrap: false }
    );
    assert_eq!(
        choose_single(true, true, false, true),
        SingleChoice { stitch: false, wrap: true }
    );
    assert_eq!(
        choose_single(false, false, true, true),
        SingleChoice { stitch: false, wrap: false }
    );
    assert_eq!(
        choose_single(false, false, false, false),
        SingleChoice { stitch: false, wrap: false }
    );
    let wrap = SingleChoice { stitch: false, wrap: true };
    assert!(can_upscale_single(4, 4, None, wrap, 2));
    assert_eq!(
        upscale_single(&image(), None, wrap, 2).unwrap().to_raw(),
        upscale_wrapped(&image(), 2).unwrap().to_raw()
    );
    let stitch = SingleChoice { stitch: true, wrap: false };
    assert_eq!(
        upscale_single(&image(), None, stitch, 2).unwrap_err(),
        "stitching requires model faces"
    );
    assert_eq!(
        upscale_single(&image(), Some(&[]), stitch, 2).unwrap_err(),
        "stitching requires at least one model face"
    );
    assert_eq!(
        upscale_single(&image(), None, stitch, 1).unwrap_err(),
        "factor must be between 2 and 6"
    );
}

#[test]
fn lines_on_a_single_texture() {
    assert_eq!(
        single_line("a.png", "b.png", 16, 8, 4, true),
        "a.png -> b.png (16x8, factor 4, tiled wrap)"
    );
    assert_eq!(single_line("a.png", "b.png", 16, 8, 4, false), "a.png -> b.png (16x8, factor 4)");
    assert_eq!(
        stitched_line(&[face("up", 0), face("up", 2), face("up", 2)]),
        "stitched 3 model faces into 2 groups"
    );
}

#[test]
fn progress_is_told_now_and_then() {
    let texture = |done, total| {
        progress_line(&BatchProgress::Texture { done, total, name: "block/a.png".into() })
    };
    assert_eq!(texture(1, 60).as_deref(), Some("[1/60] block/a.png"));
    assert_eq!(texture(2, 60), None);
    assert_eq!(texture(25, 60).as_deref(), Some("[25/60] block/a.png"));
    assert_eq!(texture(60, 60).as_deref(), Some("[60/60] block/a.png"));
    assert_eq!(
        progress_line(&BatchProgress::Started { total: 60, entity_models: 12, block_models: 3 })
            .as_deref(),
        Some("60 textures; 12 entity models loaded for stitching")
    );
}

#[test]
fn batches_are_summed_up_in_lines() {
    assert_eq!(
        summary_lines(&report(), "c.jar", "out", 4),
        vec![
            "c.jar -> out (5 textures upscaled, factor 4)",
            "  block textures with tiled wrap: 3",
            "  frame-aware animated textures: 1",
            "  entity textures stitched with 7 models: 2",
        ]
    );
    assert_eq!(
        summary_lines(&quiet_report(), "c.jar", "out", 2),
        vec!["c.jar -> out (1 textures upscaled, factor 2)"]
    );
    assert_eq!(
        failure_lines(&report()),
        vec!["2 textures failed:", "  a.png: broken", "  b.png: gone"]
    );
    assert!(failure_lines(&quiet_report()).is_empty());
    let mut many = quiet_report();
    for i in 0..23 {
        many.errors.push((format!("{i}.png"), "bad".into()));
    }
    let lines = failure_lines(&many);
    assert_eq!(lines.len(), 22);
    assert_eq!(lines[20], "  19.png: bad");
    assert_eq!(lines[21], "  … and 3 more");
}

#[test]
fn a_batch_fails_when_nothing_came_out() {
    assert!(check_batch(&report()).is_ok());
    let mut failed = report();
    failed.upscaled = 0;
    assert_eq!(check_batch(&failed), Err("every texture failed".to_string()));
    failed.errors.clear();
    assert!(check_batch(&failed).is_ok());
}

#[test]
fn tools_refuse_what_they_cannot_show() {
    assert_eq!(check_scale(0), Err("scale must be at least 1".to_string()));
    assert!(check_scale(1).is_ok());
    assert_eq!(check_texture(0, 4), Err("zero-size texture".to_string()));
    assert!(check_texture(4, 4).is_ok());
    assert_eq!(
        check_faces(&[], "m.json"),
        Err("model m.json has no face UV rectangles inside the texture".to_string())
    );
    assert!(check_faces(&[face("up", 0)], "m.json").is_ok());
}

#[test]
fn lines_of_the_tools() {
    let faces = [face("east", 0), face("west", 0), face("up", 0), face("odd", 0)];
    assert_eq!(
        marked_line("a.png", &faces, "b.png", 8, 9),
        "a.png: 4 faces (X 2 / Y 1 / Z 0) -> b.png (8x9)"
    );
    assert_eq!(
        slice_line(&face("up", 3), "o/s.png", 10, 11),
        "g3 up -> 2x2 at (0, 0) -> o/s.png (10x11)"
    );
    assert_eq!(
        sliced_line("a.png", 6, 4, 2, "o"),
        "a.png: cut 6 faces (border 4px from neighbors, scale x2) -> o"
    );
}

#[test]
fn a_texture_is_loaded_upscaled_and_saved() {
    let mut studio = Studio::new();
    assert_eq!(studio.status_line(), "Open a texture to begin.");
    assert!(studio.can_run());
    studio.run_upscale();
    assert_eq!(studio.status_line(), "error: open a texture first");
    assert!(!studio.ask_to_save());
    assert_eq!(studio.status_line(), "error: run upscale first");
    studio.load_texture("t.png", Err("no file".into()), false);
    assert_eq!(studio.status_line(), "error: cannot read texture: no file");
    studio.load_texture("t.png", Ok(image()), true);
    assert_eq!(studio.status_line(), "Loaded t.png (4x4).");
    assert_eq!(studio.details_line(), "texture: t.png    model: —    faces: 0");
    assert!(studio.can_run());
    studio.run_upscale();
    assert_eq!(studio.status_line(), "Upscaled 4x4 -> 16x16 (factor 4; tiled wrap)");
    assert!(studio.ask_to_save());
    studio.write_result("o.png", Err("full".into()));
    assert_eq!(studio.status_line(), "error: cannot write o.png: full");
    studio.write_result("o.png", Ok(()));
    assert_eq!(studio.status_line(), "Saved o.png");
    assert!(!studio.set_factor(4));
    assert!(studio.set_factor(2));
    assert!(studio.result.is_none());
    studio.write_result("o.png", Ok(()));
    assert_eq!(studio.status_line(), "error: run upscale first");
    studio.load_texture("t.png", Ok(image()), false);
    studio.run_upscale();
    assert_eq!(studio.status_line(), "Upscaled 4x4 -> 8x8 (factor 2)");
}

#[test]
fn models_wait_for_a_texture() {
    let mut studio = Studio::new();
    assert!(!studio.toggle_stitch());
    studio.load_model_file("m.json", Err("cannot read model: gone".into()), &Vec::new());
    assert_eq!(studio.status_line(), "error: cannot read model: gone");
    studio.load_model_file("m.json", Ok(model()), &Vec::new());
    assert_eq!(studio.status_line(), "Model queued — open a texture to map UV faces.");
    studio.rescale_model_faces(Ok(model()), &Vec::new());
    assert_eq!(studio.status_line(), "Model queued — open a texture to map UV faces.");
    studio.load_texture("t.png", Ok(image()), true);
    studio.rescale_model_faces(Ok(model()), &inside());
    assert_eq!(studio.status_line(), "Loaded model m.json (2 faces).");
    studio.run_upscale();
    assert_eq!(
        studio.status_line(),
        "Upscaled 4x4 -> 16x16 (factor 4; stitched 2 faces across 2 boxes)"
    );
    assert!(studio.toggle_stitch());
    studio.run_upscale();
    assert_eq!(studio.status_line(), "Upscaled 4x4 -> 16x16 (factor 4; tiled wrap)");
    studio.rescale_model_faces(Err("cannot parse model: x".into()), &Vec::new());
    assert_eq!(studio.status_line(), "error: cannot parse model: x");
    studio.rescale_model_faces(Ok(model()), &outside());
    assert_eq!(
        studio.status_line(),
        "error: model m.json has no face UV rectangles inside the texture"
    );
    assert!(studio.model_path.is_none() && studio.model_faces.is_none());
}

#[test]
fn models_are_mapped_to_the_texture() {
    let mut studio = Studio::new();
    studio.load_texture("t.png", Ok(image()), false);
    studio.load_model_file("m.json", Ok(model()), &outside());
    assert_eq!(
        studio.status_line(),
        "error: model m.json has no face UV rectangles inside the texture"
    );
    assert!(studio.model_faces.is_none());
    studio.load_model_file("m.json", Ok(model()), &inside());
    assert_eq!(studio.status_line(), "Loaded model m.json (2 faces).");
    assert_eq!(studio.details_line(), "texture: t.png    model: m.json    faces: 2");
    let controls = studio.controls();
    assert!(controls.change_model && controls.clear_model && controls.stitch);
    assert!(controls.upscale && !controls.save && controls.open_jar);
    studio.clear_model();
    assert_eq!(studio.status_line(), "Model cleared.");
    assert!(!studio.controls().clear_model);
}

#[test]
fn dialogs_may_fail() {
    let mut studio = Studio::new();
    studio.dialog_failed("no portal");
    assert_eq!(studio.status_line(), "error: file dialog: no portal");
    studio.dialog_dropped("closed");
    assert_eq!(studio.status_line(), "error: file dialog cancelled: closed");
    studio.set_error("other".into());
    assert_eq!(studio.status_line(), "error: other");
}

fn step(studio: &mut Studio, event: JarEvent) -> String {
    studio.on_jar_event(event, "out", 4);
    studio.status_line()
}

#[test]
fn a_batch_runs_through_the_window() {
    let mut studio = Studio::new();
    assert_eq!(step(&mut studio, JarEvent::Begin), "Choose a Minecraft jar…");
    assert!(studio.batch_running && !studio.controls().open_jar);
    assert_eq!(step(&mut studio, JarEvent::Scanning("c.jar".into())), "Scanning c.jar…");
    assert_eq!(step(&mut studio, JarEvent::Begin), "Scanning c.jar…");
    let started = BatchProgress::Started { total: 9, entity_models: 7, block_models: 4 };
    assert_eq!(
        step(&mut studio, JarEvent::Message(JarMessage::Progress(started))),
        "Upscaling 0/9 textures (7 entity, 4 block models)"
    );
    let texture = BatchProgress::Texture { done: 3, total: 9, name: "block/a.png".into() };
    assert_eq!(
        step(&mut studio, JarEvent::Message(JarMessage::Progress(texture))),
        "[3/9] block/a.png"
    );
    assert_eq!(
        step(&mut studio, JarEvent::Message(JarMessage::Finished(Ok(report())))),
        "Upscaled 5/6 textures to out (x4), 1 colormap copied as-is, 3 block-wrapped, \
         1 animated, 2 stitched via 7 entity + 4 block models, 1 entity textures unmatched; \
         2 failed (e.g. a.png: broken)"
    );
    assert!(!studio.batch_running);
    let options = studio.batch_options();
    assert_eq!((options.factor, options.stitch, options.wrap), (4, true, true));
}

#[test]
fn batches_end_in_many_ways() {
    let mut studio = Studio::new();
    let mut begin = |event: JarEvent| {
        step(&mut studio, JarEvent::Begin);
        let line = step(&mut studio, event);
        assert!(!studio.batch_running);
        line
    };
    assert_eq!(begin(JarEvent::Cancelled), "Jar batch cancelled.");
    assert_eq!(begin(JarEvent::DialogFailed("x".into())), "error: file dialog: x");
    assert_eq!(begin(JarEvent::DialogDropped("x".into())), "error: file dialog cancelled: x");
    assert_eq!(begin(JarEvent::Lost), "error: batch worker thread exited unexpectedly");
    assert_eq!(
        begin(JarEvent::Message(JarMessage::Finished(Err("cannot read jar: x".into())))),
        "error: cannot read jar: x"
    );
    let mut failed = report();
    failed.upscaled = 0;
    assert_eq!(
        begin(JarEvent::Message(JarMessage::Finished(Ok(failed)))),
        "error: all 2 textures failed: broken"
    );
    assert_eq!(
        describe_batch(&quiet_report(), "out", 2),
        "Upscaled 1/3 textures to out (x2), 2 colormaps copied as-is"
    );
}

#[test]
fn pictures_have_titles_and_screen_colors() {
    assert_eq!(preview_title("Result", Some((8, 4))), "Result  8x4");
    assert_eq!(preview_title("Original", None), "Original");
    let swapped = to_bgra(&RgbaImage::from_pixel(2, 1, Rgba::new(1, 2, 3, 4)));
    assert_eq!(swapped.get_pixel(1, 0), Rgba::new(3, 2, 1, 4));
    assert_eq!(to_bgra(&swapped).get_pixel(0, 0), Rgba::new(1, 2, 3, 4));
}
