//! The state behind the window: what is loaded, what was made of it, and what
//! the window says.
use crate::codec::plain_upscaled;
use crate::console::{
    can_upscale_single, no_faces_message, no_faces_text, push_size, single_image, single_possible,
    size_text, texture_line, upscale_single, SingleChoice,
};
use crate::model::{
    clippable, clipped_faces, scale_model_faces_to_image, ModelFace, ModelFaces, ScaledRect,
};
use crate::process::BatchOptions;
use crate::raster::{lemma_position, Raster, Rgba, RgbaImage};
use crate::report::{BatchProgress, BatchReport, JarMessage};
use crate::text::{decimal, push_decimal};
use crate::upscaling::{box_count, boxes, stitched, wrapped_upscaled};
use vstd::prelude::*;

verus! {

/// What the window works on.
#[derive(Debug)]
pub struct Studio {
    /// The texture's path as it is shown.
    pub texture_path: Option<String>,
    /// The model's path as it is shown.
    pub model_path: Option<String>,
    pub source: Option<RgbaImage>,
    pub model_faces: Option<ModelFaces>,
    pub result: Option<RgbaImage>,
    pub factor: u32,
    pub stitch: bool,
    /// The texture tiles, by its path.
    pub tiles: bool,
    pub status: String,
    pub error: Option<String>,
    pub batch_running: bool,
}

/// The contents of a [`Studio`].
pub struct StudioView {
    pub texture_path: Option<Seq<char>>,
    pub model_path: Option<Seq<char>>,
    pub source: Option<Raster>,
    pub faces: Option<Seq<ModelFace>>,
    pub result: Option<Raster>,
    pub factor: u32,
    pub stitch: bool,
    pub tiles: bool,
    pub status: Seq<char>,
    pub error: Option<Seq<char>>,
    pub batch_running: bool,
}

pub open spec fn text_view(text: Option<String>) -> Option<Seq<char>> {
    match text {
        Some(text) => Some(text@),
        None => None,
    }
}

pub open spec fn image_view(image: Option<RgbaImage>) -> Option<Raster> {
    match image {
        Some(image) => Some(image@),
        None => None,
    }
}

impl View for Studio {
    type V = StudioView;

    open spec fn view(&self) -> StudioView {
        StudioView {
            texture_path: text_view(self.texture_path),
            model_path: text_view(self.model_path),
            source: image_view(self.source),
            faces: match self.model_faces {
                Some(model) => Some(model.faces@),
                None => None,
            },
            result: image_view(self.result),
            factor: self.factor,
            stitch: self.stitch,
            tiles: self.tiles,
            status: self.status@,
            error: text_view(self.error),
            batch_running: self.batch_running,
        }
    }
}

/// What becomes of a batch.
#[derive(Debug)]
pub enum JarEvent {
    /// The user asks for a batch.
    Begin,
    /// A file dialog reported an error.
    DialogFailed(String),
    /// A file dialog went away without an answer.
    DialogDropped(String),
    /// The user chose nothing.
    Cancelled,
    /// The jar of this path is about to be read.
    Scanning(String),
    /// The batch says something.
    Message(JarMessage),
    /// The batch ended without a word.
    Lost,
}

/// `text`, if the count is not zero.
pub open spec fn note_if(count: int, text: Seq<char>) -> Seq<char> {
    if count > 0 {
        text
    } else {
        Seq::empty()
    }
}

/// How many textures a batch made.
pub open spec fn made_note(report: BatchReport, out: Seq<char>, factor: nat) -> Seq<char> {
    "Upscaled "@ + decimal(report.upscaled as nat) + "/"@ + decimal(
        (report.upscaled + report.copied) as nat,
    ) + " textures to "@ + out + " (x"@ + decimal(factor) + ")"@
}

pub open spec fn copied_note(report: BatchReport) -> Seq<char> {
    note_if(
        report.copied as int,
        ", "@ + decimal(report.copied as nat) + " colormap"@ + (if report.copied == 1 {
            ""@
        } else {
            "s"@
        }) + " copied as-is"@,
    )
}

/// How many textures were wrapped, and how many move.
pub open spec fn kinds_note(report: BatchReport) -> Seq<char> {
    note_if(report.wrapped as int, ", "@ + decimal(report.wrapped as nat) + " block-wrapped"@)
        + note_if(report.animated as int, ", "@ + decimal(report.animated as nat) + " animated"@)
}

pub open spec fn stitched_note(report: BatchReport) -> Seq<char> {
    note_if(
        report.stitched as int,
        ", "@ + decimal(report.stitched as nat) + " stitched via "@ + decimal(
            report.entity_models as nat,
        ) + " entity + "@ + decimal(report.block_models as nat) + " block models"@,
    )
}

/// How many entity textures found no model, and what failed.
pub open spec fn trouble_note(report: BatchReport) -> Seq<char> {
    note_if(
        report.unmatched_entity@.len() as int,
        ", "@ + decimal(report.unmatched_entity@.len()) + " entity textures unmatched"@,
    ) + note_if(
        report.errors@.len() as int,
        "; "@ + decimal(report.errors@.len()) + " failed (e.g. "@ + report.errors@[0].0@ + ": "@
            + report.errors@[0].1@ + ")"@,
    )
}

/// What is said of a batch that made something.
pub open spec fn batch_text(report: BatchReport, out: Seq<char>, factor: nat) -> Seq<char> {
    made_note(report, out, factor) + copied_note(report) + kinds_note(report) + stitched_note(
        report,
    ) + trouble_note(report)
}

/// A batch in which nothing was upscaled and something failed.
pub open spec fn all_failed(report: BatchReport) -> bool {
    report.upscaled == 0 && report.errors@.len() > 0
}

/// What is said of a batch in which all failed.
pub open spec fn all_failed_text(report: BatchReport) -> Seq<char> {
    "all "@ + decimal(report.errors@.len()) + " textures failed: "@ + report.errors@[0].1@
}

fn push_count(text: &mut String, before: &str, count: usize, after: &str)
    ensures
        final(text)@ == old(text)@ + (before@ + decimal(count as nat) + after@),
{
    let ghost start = text@;
    text.append(before);
    push_decimal(text, count as u64);
    text.append(after);
    assert(text@ =~= start + (before@ + decimal(count as nat) + after@));
}

fn push_copied(text: &mut String, report: &BatchReport)
    ensures
        final(text)@ == old(text)@ + copied_note(*report),
{
    let ghost start = text@;
    if report.copied > 0 {
        push_count(text, ", ", report.copied, " colormap");
        if report.copied == 1 {
            text.append("");
        } else {
            text.append("s");
        }
        text.append(" copied as-is");
    }
    assert(text@ =~= start + copied_note(*report));
}

fn push_kinds(text: &mut String, report: &BatchReport)
    ensures
        final(text)@ == old(text)@ + kinds_note(*report),
{
    let ghost start = text@;
    if report.wrapped > 0 {
        push_count(text, ", ", report.wrapped, " block-wrapped");
    }
    if report.animated > 0 {
        push_count(text, ", ", report.animated, " animated");
    }
    assert(text@ =~= start + kinds_note(*report));
}

fn push_stitched(text: &mut String, report: &BatchReport)
    ensures
        final(text)@ == old(text)@ + stitched_note(*report),
{
    let ghost start = text@;
    if report.stitched > 0 {
        push_count(text, ", ", report.stitched, " stitched via ");
        push_decimal(text, report.entity_models as u64);
        push_count(text, " entity + ", report.block_models, " block models");
    }
    assert(text@ =~= start + stitched_note(*report));
}

fn push_trouble(text: &mut String, report: &BatchReport)
    ensures
        final(text)@ == old(text)@ + trouble_note(*report),
{
    let ghost start = text@;
    if report.unmatched_entity.len() > 0 {
        push_count(text, ", ", report.unmatched_entity.len(), " entity textures unmatched");
    }
    if report.errors.len() > 0 {
        push_count(text, "; ", report.errors.len(), " failed (e.g. ");
        text.append(report.errors[0].0.as_str());
        text.append(": ");
        text.append(report.errors[0].1.as_str());
        text.append(")");
    }
    assert(text@ =~= start + trouble_note(*report));
}

/// Says what a batch made.
pub fn describe_batch(report: &BatchReport, out: &str, factor: u32) -> (text: String)
    requires
        report.upscaled + report.copied <= usize::MAX,
    ensures
        text@ == batch_text(*report, out@, factor as nat),
{
    let mut text = "Upscaled ".to_owned();
    push_decimal(&mut text, report.upscaled as u64);
    text.append("/");
    push_decimal(&mut text, (report.upscaled + report.copied) as u64);
    text.append(" textures to ");
    text.append(out);
    text.append(" (x");
    push_decimal(&mut text, factor as u64);
    text.append(")");
    assert(text@ == made_note(*report, out@, factor as nat));
    push_copied(&mut text, report);
    push_kinds(&mut text, report);
    push_stitched(&mut text, report);
    push_trouble(&mut text, report);
    text
}

/// What the state becomes when something happens to a batch that writes to
/// `out` with `factor`. While one runs, no other begins.
pub open spec fn after_event(
    studio: StudioView,
    event: JarEvent,
    out: Seq<char>,
    factor: nat,
) -> StudioView {
    match event {
        JarEvent::Begin => if studio.batch_running {
            studio
        } else {
            StudioView {
                batch_running: true,
                error: None,
                status: "Choose a Minecraft jar…"@,
                ..studio
            }
        },
        JarEvent::DialogFailed(error) => StudioView {
            batch_running: false,
            error: Some("file dialog: "@ + error@),
            ..studio
        },
        JarEvent::DialogDropped(error) => StudioView {
            batch_running: false,
            error: Some("file dialog cancelled: "@ + error@),
            ..studio
        },
        JarEvent::Cancelled => StudioView {
            batch_running: false,
            status: "Jar batch cancelled."@,
            ..studio
        },
        JarEvent::Scanning(jar) => StudioView { status: "Scanning "@ + jar@ + "…"@, ..studio },
        JarEvent::Message(message) => match message {
            JarMessage::Progress(progress) => match progress {
                BatchProgress::Started { total, entity_models, block_models } => StudioView {
                    status: "Upscaling 0/"@ + decimal(total as nat) + " textures ("@ + decimal(
                        entity_models as nat,
                    ) + " entity, "@ + decimal(block_models as nat) + " block models)"@,
                    ..studio
                },
                BatchProgress::Texture { done, total, name } => StudioView {
                    status: "["@ + decimal(done as nat) + "/"@ + decimal(total as nat) + "] "@
                        + name@,
                    ..studio
                },
            },
            JarMessage::Finished(finished) => match finished {
                Ok(report) => if all_failed(report) {
                    StudioView {
                        batch_running: false,
                        error: Some(all_failed_text(report)),
                        ..studio
                    }
                } else {
                    StudioView {
                        batch_running: false,
                        status: batch_text(report, out, factor),
                        error: None,
                        ..studio
                    }
                },
                Err(error) => StudioView {
                    batch_running: false,
                    error: Some(error@),
                    ..studio
                },
            },
        },
        JarEvent::Lost => StudioView {
            batch_running: false,
            error: Some("batch worker thread exited unexpectedly"@),
            ..studio
        },
    }
}

/// The event ends a batch.
pub open spec fn ends_batch(event: JarEvent) -> bool {
    match event {
        JarEvent::Begin => false,
        JarEvent::Scanning(_) => false,
        JarEvent::Message(JarMessage::Progress(_)) => false,
        _ => true,
    }
}

/// A batch runs from its beginning until an event ends it.
pub proof fn a_batch_runs_until_it_ends(
    studio: StudioView,
    event: JarEvent,
    out: Seq<char>,
    factor: nat,
)
    ensures
        after_event(studio, event, out, factor).batch_running == (if event is Begin {
            true
        } else {
            studio.batch_running && !ends_batch(event)
        }),
{
}

/// Nothing that happens to a batch touches what is loaded and what was made of
/// it.
pub proof fn batches_leave_the_texture_alone(
    studio: StudioView,
    event: JarEvent,
    out: Seq<char>,
    factor: nat,
)
    ensures
        ({
            let after = after_event(studio, event, out, factor);
            &&& after.texture_path == studio.texture_path
            &&& after.model_path == studio.model_path
            &&& after.source == studio.source
            &&& after.faces == studio.faces
            &&& after.result == studio.result
            &&& after.factor == studio.factor
            &&& after.stitch == studio.stitch
        }),
{
}

/// `first` followed by `second`.
fn together(first: &str, second: &str) -> (text: String)
    ensures
        text@ == first@ + second@,
{
    let mut text = first.to_owned();
    text.append(second);
    text
}

/// How a texture is upscaled in the window: stitched where there is a model
/// and stitching is on, else wrapped where it tiles.
pub open spec fn window_choice(studio: StudioView) -> SingleChoice {
    let stitch = studio.stitch && studio.faces is Some;
    SingleChoice { stitch, wrap: !stitch && studio.tiles }
}

/// What is said of how a texture was upscaled.
pub open spec fn way_note(studio: StudioView) -> Seq<char> {
    let choice = window_choice(studio);
    if choice.stitch {
        "; stitched "@ + decimal(studio.faces->0.len()) + " faces across "@ + decimal(
            boxes(studio.faces->0).len(),
        ) + " boxes"@
    } else if choice.wrap {
        "; tiled wrap"@
    } else {
        Seq::empty()
    }
}

/// What the state becomes when the texture is upscaled.
pub open spec fn after_upscale(studio: StudioView) -> StudioView {
    match studio.source {
        None => StudioView { error: Some("open a texture first"@), ..studio },
        Some(source) => match single_image(
            source,
            studio.faces,
            window_choice(studio),
            studio.factor as int,
        ) {
            Ok(result) => StudioView {
                result: Some(result),
                status: "Upscaled "@ + size_text(source.width as nat, source.height as nat)
                    + " -> "@ + size_text(result.width as nat, result.height as nat)
                    + " (factor "@ + decimal(studio.factor as nat) + way_note(studio) + ")"@,
                error: None,
                ..studio
            },
            Err(message) => StudioView { error: Some(message), ..studio },
        },
    }
}

/// What is said of a texture that was loaded.
pub open spec fn loaded_text(path: Seq<char>, source: Raster) -> Seq<char> {
    "Loaded "@ + path + " ("@ + size_text(source.width as nat, source.height as nat) + ")."@
}

/// What is said of a model that was loaded.
pub open spec fn model_text(path: Seq<char>, faces: nat) -> Seq<char> {
    "Loaded model "@ + path + " ("@ + decimal(faces) + " faces)."@
}

fn describe_model(path: &str, faces: usize) -> (text: String)
    ensures
        text@ == model_text(path@, faces as nat),
{
    let mut text = "Loaded model ".to_owned();
    text.append(path);
    text.append(" (");
    push_decimal(&mut text, faces as u64);
    text.append(" faces).");
    text
}

/// The model's faces, mapped to the texture.
pub open spec fn mapped_faces(faces: Seq<ModelFace>, scaled: Seq<ScaledRect>, source: Raster) -> Seq<
    ModelFace,
> {
    clipped_faces(faces, scaled, source.width, source.height, scaled.len() as int)
}

/// The scaled rectangles belong to the model's faces and to the texture.
pub open spec fn mappable(
    loaded: Result<ModelFaces, String>,
    scaled: Seq<ScaledRect>,
    source: Option<Raster>,
) -> bool {
    loaded matches Ok(model) ==> (source matches Some(source) ==> {
        &&& scaled.len() == model.faces@.len()
        &&& forall|i: int|
            0 <= i < scaled.len() ==> clippable(#[trigger] scaled[i], source.width, source.height)
    })
}

/// What the state becomes when a model is loaded. Without a texture the model
/// waits for one.
pub open spec fn after_model(
    studio: StudioView,
    path: Seq<char>,
    loaded: Result<ModelFaces, String>,
    scaled: Seq<ScaledRect>,
) -> StudioView {
    match loaded {
        Err(error) => StudioView { error: Some(error@), ..studio },
        Ok(model) => match studio.source {
            None => StudioView {
                model_path: Some(path),
                faces: Some(model.faces@),
                stitch: true,
                result: None,
                status: "Model queued — open a texture to map UV faces."@,
                error: None,
                ..studio
            },
            Some(source) => {
                let faces = mapped_faces(model.faces@, scaled, source);
                if faces.len() == 0 {
                    StudioView { error: Some(no_faces_text(path)), ..studio }
                } else {
                    StudioView {
                        model_path: Some(path),
                        faces: Some(faces),
                        stitch: true,
                        result: None,
                        status: model_text(path, faces.len()),
                        error: None,
                        ..studio
                    }
                }
            },
        },
    }
}

/// What the state becomes when the model is mapped to another texture.
pub open spec fn after_rescale(
    studio: StudioView,
    loaded: Result<ModelFaces, String>,
    scaled: Seq<ScaledRect>,
) -> StudioView {
    if studio.source is None || studio.model_path is None {
        studio
    } else {
        let path = studio.model_path->0;
        match loaded {
            Err(error) => StudioView { error: Some(error@), ..studio },
            Ok(model) => {
                let faces = mapped_faces(model.faces@, scaled, studio.source->0);
                if faces.len() == 0 {
                    StudioView {
                        faces: None,
                        model_path: None,
                        error: Some(no_faces_text(path)),
                        ..studio
                    }
                } else {
                    StudioView {
                        faces: Some(faces),
                        status: model_text(path, faces.len()),
                        error: None,
                        ..studio
                    }
                }
            },
        }
    }
}

impl Studio {
    /// The state at the start.
    pub fn new() -> (studio: Studio)
        ensures
            studio@ == (StudioView {
                texture_path: None,
                model_path: None,
                source: None,
                faces: None,
                result: None,
                factor: 4,
                stitch: true,
                tiles: false,
                status: "Open a texture to begin."@,
                error: None,
                batch_running: false,
            }),
    {
        Studio {
            texture_path: None,
            model_path: None,
            source: None,
            model_faces: None,
            result: None,
            factor: 4,
            stitch: true,
            tiles: false,
            status: "Open a texture to begin.".to_owned(),
            error: None,
            batch_running: false,
        }
    }

    /// Shows an error.
    pub fn set_error(&mut self, message: String)
        ensures
            final(self)@ == (StudioView { error: Some(message@), ..old(self)@ }),
    {
        self.error = Some(message);
    }

    /// Forgets the upscaled texture.
    pub fn clear_result(&mut self)
        ensures
            final(self)@ == (StudioView { result: None, ..old(self)@ }),
    {
        self.result = None;
    }

    /// A file dialog reported an error.
    pub fn dialog_failed(&mut self, error: &str)
        ensures
            final(self)@ == (StudioView {
                error: Some("file dialog: "@ + error@),
                ..old(self)@
            }),
    {
        self.set_error(together("file dialog: ", error));
    }

    /// A file dialog went away without an answer.
    pub fn dialog_dropped(&mut self, error: &str)
        ensures
            final(self)@ == (StudioView {
                error: Some("file dialog cancelled: "@ + error@),
                ..old(self)@
            }),
    {
        self.set_error(together("file dialog cancelled: ", error));
    }

    /// Takes the model away.
    pub fn clear_model(&mut self)
        ensures
            final(self)@ == (StudioView {
                faces: None,
                model_path: None,
                result: None,
                status: "Model cleared."@,
                error: None,
                ..old(self)@
            }),
    {
        self.model_faces = None;
        self.model_path = None;
        self.clear_result();
        self.status = "Model cleared.".to_owned();
        self.error = None;
    }

    /// Changes the factor; what was made with another one is forgotten.
    pub fn set_factor(&mut self, factor: u32) -> (changed: bool)
        ensures
            changed == (old(self).factor != factor),
            final(self)@ == if old(self).factor != factor {
                StudioView { factor, result: None, ..old(self)@ }
            } else {
                old(self)@
            },
    {
        if self.factor != factor {
            self.factor = factor;
            self.clear_result();
            true
        } else {
            false
        }
    }

    /// Switches stitching, if there is a model.
    pub fn toggle_stitch(&mut self) -> (changed: bool)
        ensures
            changed == (old(self)@.faces is Some),
            final(self)@ == if old(self)@.faces is Some {
                StudioView { stitch: !old(self).stitch, result: None, ..old(self)@ }
            } else {
                old(self)@
            },
    {
        if self.model_faces.is_some() {
            self.stitch = !self.stitch;
            self.clear_result();
            true
        } else {
            false
        }
    }

    /// Takes over a texture, or says why there is none.
    pub fn load_texture(&mut self, path: &str, loaded: Result<RgbaImage, String>, tiles: bool)
        ensures
            final(self)@ == match loaded {
                Ok(image) => StudioView {
                    source: Some(image@),
                    texture_path: Some(path@),
                    tiles,
                    result: None,
                    error: None,
                    status: loaded_text(path@, image@),
                    ..old(self)@
                },
                Err(error) => StudioView {
                    error: Some("cannot read texture: "@ + error@),
                    ..old(self)@
                },
            },
    {
        match loaded {
            Ok(image) => {
                let (width, height) = image.dimensions();
                self.source = Some(image);
                self.texture_path = Some(path.to_owned());
                self.tiles = tiles;
                self.clear_result();
                self.error = None;
                let mut text = "Loaded ".to_owned();
                text.append(path);
                text.append(" (");
                push_size(&mut text, width, height);
                text.append(").");
                self.status = text;
            },
            Err(error) => {
                self.set_error(together("cannot read texture: ", error.as_str()));
            },
        }
    }

    /// Takes over a model, or says why there is none. `scaled` holds its faces
    /// scaled to the texture, where there is one.
    pub fn load_model_file(
        &mut self,
        path: &str,
        loaded: Result<ModelFaces, String>,
        scaled: &Vec<ScaledRect>,
    )
        requires
            mappable(loaded, scaled@, old(self)@.source),
        ensures
            final(self)@ == after_model(old(self)@, path@, loaded, scaled@),
    {
        match loaded {
            Err(error) => {
                self.set_error(error);
            },
            Ok(model) => {
                let mut model = model;
                let size = match &self.source {
                    Some(source) => Some(source.dimensions()),
                    None => None,
                };
                match size {
                    None => {
                        self.model_path = Some(path.to_owned());
                        self.model_faces = Some(model);
                        self.stitch = true;
                        self.clear_result();
                        self.status = "Model queued — open a texture to map UV faces.".to_owned();
                        self.error = None;
                    },
                    Some((width, height)) => {
                        scale_model_faces_to_image(&mut model, scaled, width, height);
                        if model.faces.len() == 0 {
                            self.set_error(no_faces_message(path));
                            return;
                        }
                        self.status = describe_model(path, model.faces.len());
                        self.model_faces = Some(model);
                        self.model_path = Some(path.to_owned());
                        self.stitch = true;
                        self.clear_result();
                        self.error = None;
                    },
                }
            },
        }
    }

    /// Maps the model to the texture anew, given the model as it was loaded
    /// again. A model without a face inside the texture is taken away.
    pub fn rescale_model_faces(
        &mut self,
        loaded: Result<ModelFaces, String>,
        scaled: &Vec<ScaledRect>,
    )
        requires
            old(self)@.model_path is Some ==> mappable(loaded, scaled@, old(self)@.source),
        ensures
            final(self)@ == after_rescale(old(self)@, loaded, scaled@),
    {
        let path = match &self.model_path {
            Some(path) => path.clone(),
            None => return,
        };
        let (width, height) = match &self.source {
            Some(source) => source.dimensions(),
            None => return,
        };
        match loaded {
            Err(error) => {
                self.set_error(error);
            },
            Ok(model) => {
                let mut model = model;
                scale_model_faces_to_image(&mut model, scaled, width, height);
                if model.faces.len() == 0 {
                    self.model_faces = None;
                    self.model_path = None;
                    self.set_error(no_faces_message(path.as_str()));
                    return;
                }
                self.status = describe_model(path.as_str(), model.faces.len());
                self.model_faces = Some(model);
                self.error = None;
            },
        }
    }

    /// How the texture is upscaled.
    fn choice(&self) -> (choice: SingleChoice)
        ensures
            choice == window_choice(self@),
    {
        let stitch = self.stitch && self.model_faces.is_some();
        SingleChoice { stitch, wrap: !stitch && self.tiles }
    }

    /// The upscaled texture can be held.
    pub open spec fn possible(self) -> bool {
        self@.source matches Some(source) ==> single_possible(
            source.width,
            source.height,
            self@.faces,
            window_choice(self@),
            self.factor as int,
        )
    }

    /// Whether the upscaled texture can be held.
    pub fn can_run(&self) -> (can: bool)
        ensures
            can == self.possible(),
    {
        match &self.source {
            None => true,
            Some(source) => {
                let (width, height) = source.dimensions();
                let faces = match &self.model_faces {
                    Some(model) => Some(model.faces.as_slice()),
                    None => None,
                };
                can_upscale_single(width, height, faces, self.choice(), self.factor)
            },
        }
    }

    /// Says how the texture was upscaled.
    fn describe_way(&self) -> (note: String)
        ensures
            note@ == way_note(self@),
    {
        let choice = self.choice();
        if choice.stitch {
            let mut note = "; stitched ".to_owned();
            match &self.model_faces {
                Some(model) => {
                    push_decimal(&mut note, model.faces.len() as u64);
                    note.append(" faces across ");
                    push_decimal(&mut note, box_count(model.faces.as_slice()) as u64);
                },
                None => {},
            }
            note.append(" boxes");
            note
        } else if choice.wrap {
            "; tiled wrap".to_owned()
        } else {
            String::new()
        }
    }

    /// Upscales the texture.
    pub fn run_upscale(&mut self)
        requires
            old(self).possible(),
        ensures
            final(self)@ == after_upscale(old(self)@),
    {
        let note = self.describe_way();
        let choice = self.choice();
        let (size, output) = match &self.source {
            None => {
                self.set_error("open a texture first".to_owned());
                return;
            },
            Some(source) => {
                let faces = match &self.model_faces {
                    Some(model) => Some(model.faces.as_slice()),
                    None => None,
                };
                (source.dimensions(), upscale_single(source, faces, choice, self.factor))
            },
        };
        match output {
            Ok(result) => {
                let (width, height) = result.dimensions();
                let mut text = "Upscaled ".to_owned();
                push_size(&mut text, size.0, size.1);
                text.append(" -> ");
                push_size(&mut text, width, height);
                text.append(" (factor ");
                push_decimal(&mut text, self.factor as u64);
                text.append(note.as_str());
                text.append(")");
                self.status = text;
                self.result = Some(result);
                self.error = None;
            },
            Err(error) => {
                self.set_error(error);
            },
        }
    }

    /// Whether there is an upscaled texture to save; says so if there is none.
    pub fn ask_to_save(&mut self) -> (ready: bool)
        ensures
            ready == (old(self)@.result is Some),
            final(self)@ == if old(self)@.result is Some {
                old(self)@
            } else {
                StudioView { error: Some("run upscale first"@), ..old(self)@ }
            },
    {
        if self.result.is_none() {
            self.set_error("run upscale first".to_owned());
            false
        } else {
            true
        }
    }

    /// Says what came of writing the upscaled texture.
    pub fn write_result(&mut self, path: &str, written: Result<(), String>)
        ensures
            final(self)@ == if old(self)@.result is None {
                StudioView { error: Some("run upscale first"@), ..old(self)@ }
            } else {
                match written {
                    Ok(_) => StudioView {
                        error: None,
                        status: "Saved "@ + path@,
                        ..old(self)@
                    },
                    Err(error) => StudioView {
                        error: Some("cannot write "@ + path@ + ": "@ + error@),
                        ..old(self)@
                    },
                }
            },
    {
        if self.result.is_none() {
            self.set_error("run upscale first".to_owned());
            return;
        }
        match written {
            Ok(_) => {
                self.error = None;
                self.status = together("Saved ", path);
            },
            Err(error) => {
                let mut message = together("cannot write ", path);
                message.append(": ");
                message.append(error.as_str());
                self.set_error(message);
            },
        }
    }

    /// How a batch that begins now is done.
    pub fn batch_options(&self) -> (options: BatchOptions)
        ensures
            options == (BatchOptions {
                factor: self.factor,
                stitch: self.stitch,
                model_dir: None,
                wrap: true,
            }),
    {
        BatchOptions { factor: self.factor, stitch: self.stitch, model_dir: None, wrap: true }
    }

    /// Something happened to the batch that writes to `out` with `factor`.
    pub fn on_jar_event(&mut self, event: JarEvent, out: &str, factor: u32)
        requires
            event matches JarEvent::Message(JarMessage::Finished(Ok(report))) ==> report.upscaled
                + report.copied <= usize::MAX,
        ensures
            final(self)@ == after_event(old(self)@, event, out@, factor as nat),
    {
        match event {
            JarEvent::Begin => {
                if !self.batch_running {
                    self.batch_running = true;
                    self.error = None;
                    self.status = "Choose a Minecraft jar…".to_owned();
                }
            },
            JarEvent::DialogFailed(error) => {
                self.batch_running = false;
                self.dialog_failed(error.as_str());
            },
            JarEvent::DialogDropped(error) => {
                self.batch_running = false;
                self.dialog_dropped(error.as_str());
            },
            JarEvent::Cancelled => {
                self.batch_running = false;
                self.status = "Jar batch cancelled.".to_owned();
            },
            JarEvent::Scanning(jar) => {
                let mut text = together("Scanning ", jar.as_str());
                text.append("…");
                self.status = text;
            },
            JarEvent::Message(message) => match message {
                JarMessage::Progress(progress) => self.on_progress(progress),
                JarMessage::Finished(finished) => {
                    self.batch_running = false;
                    match finished {
                        Ok(report) => self.on_report(&report, out, factor),
                        Err(error) => self.set_error(error),
                    }
                },
            },
            JarEvent::Lost => {
                self.batch_running = false;
                self.set_error("batch worker thread exited unexpectedly".to_owned());
            },
        }
    }

    fn on_progress(&mut self, progress: BatchProgress)
        ensures
            final(self)@ == after_event(
                old(self)@,
                JarEvent::Message(JarMessage::Progress(progress)),
                Seq::empty(),
                0,
            ),
    {
        match progress {
            BatchProgress::Started { total, entity_models, block_models } => {
                let mut text = "Upscaling 0/".to_owned();
                push_decimal(&mut text, total as u64);
                text.append(" textures (");
                push_decimal(&mut text, entity_models as u64);
                text.append(" entity, ");
                push_decimal(&mut text, block_models as u64);
                text.append(" block models)");
                self.status = text;
            },
            BatchProgress::Texture { done, total, name } => {
                self.status = texture_line(done, total, name.as_str());
            },
        }
    }

    fn on_report(&mut self, report: &BatchReport, out: &str, factor: u32)
        requires
            report.upscaled + report.copied <= usize::MAX,
        ensures
            final(self)@ == if all_failed(*report) {
                StudioView { error: Some(all_failed_text(*report)), ..old(self)@ }
            } else {
                StudioView {
                    status: batch_text(*report, out@, factor as nat),
                    error: None,
                    ..old(self)@
                }
            },
    {
        if report.upscaled == 0 && report.errors.len() > 0 {
            let mut message = "all ".to_owned();
            push_decimal(&mut message, report.errors.len() as u64);
            message.append(" textures failed: ");
            message.append(report.errors[0].1.as_str());
            self.set_error(message);
        } else {
            self.status = describe_batch(report, out, factor);
            self.error = None;
        }
    }

    /// The line at the bottom: the error, or what was done last.
    pub fn status_line(&self) -> (line: String)
        ensures
            line@ == match self@.error {
                Some(error) => "error: "@ + error,
                None => self@.status,
            },
    {
        match &self.error {
            Some(error) => together("error: ", error.as_str()),
            None => self.status.clone(),
        }
    }

    /// The line under it: what is loaded.
    pub fn details_line(&self) -> (line: String)
        ensures
            line@ == "texture: "@ + (match self@.texture_path {
                Some(path) => path,
                None => "—"@,
            }) + "    model: "@ + (match self@.model_path {
                Some(path) => path,
                None => "—"@,
            }) + "    faces: "@ + decimal(
                match self@.faces {
                    Some(faces) => faces.len(),
                    None => 0,
                },
            ),
    {
        let mut line = "texture: ".to_owned();
        match &self.texture_path {
            Some(path) => line.append(path.as_str()),
            None => line.append("—"),
        }
        line.append("    model: ");
        match &self.model_path {
            Some(path) => line.append(path.as_str()),
            None => line.append("—"),
        }
        line.append("    faces: ");
        let count: usize = match &self.model_faces {
            Some(model) => model.faces.len(),
            None => 0,
        };
        push_decimal(&mut line, count as u64);
        line
    }

    /// What the window offers.
    pub fn controls(&self) -> (controls: Controls)
        ensures
            controls == (Controls {
                open_jar: !self.batch_running,
                change_model: self@.model_path is Some,
                clear_model: self@.faces is Some,
                stitch: self@.faces is Some,
                upscale: self@.source is Some,
                save: self@.result is Some,
            }),
    {
        Controls {
            open_jar: !self.batch_running,
            change_model: self.model_path.is_some(),
            clear_model: self.model_faces.is_some(),
            stitch: self.model_faces.is_some(),
            upscale: self.source.is_some(),
            save: self.result.is_some(),
        }
    }
}

/// Which of the window's controls work, and whether a model would replace
/// another.
#[derive(Clone, Copy, Debug, PartialEq, Eq, Structural)]
pub struct Controls {
    pub open_jar: bool,
    pub change_model: bool,
    pub clear_model: bool,
    pub stitch: bool,
    pub upscale: bool,
    pub save: bool,
}

/// The title of a picture: its name and, where there is a picture, its size.
pub fn preview_title(title: &str, size: Option<(u32, u32)>) -> (text: String)
    ensures
        text@ == match size {
            Some((width, height)) => title@ + "  "@ + size_text(width as nat, height as nat),
            None => title@,
        },
{
    let mut text = title.to_owned();
    match size {
        Some((width, height)) => {
            text.append("  ");
            push_size(&mut text, width, height);
        },
        None => {},
    }
    text
}

/// A pixel with red and blue exchanged.
pub open spec fn swapped(pixel: Rgba) -> Rgba {
    Rgba { r: pixel.b, g: pixel.g, b: pixel.r, a: pixel.a }
}

/// An image with red and blue exchanged, as the screen wants it.
pub fn to_bgra(image: &RgbaImage) -> (out: RgbaImage)
    ensures
        out@.width == image@.width,
        out@.height == image@.height,
        out@.pixels == image@.pixels.map_values(|pixel: Rgba| swapped(pixel)),
        out@.wf(),
{
    let (width, height) = image.dimensions();
    let pixel_at = |x: u32, y: u32| -> (pixel: Rgba)
        requires
            x < width,
            y < height,
        ensures
            pixel == swapped(image@.at(x as int, y as int)),
    {
        let pixel = image.get_pixel(x, y);
        Rgba { r: pixel.b, g: pixel.g, b: pixel.r, a: pixel.a }
    };
    let out = RgbaImage::from_fn(width, height, pixel_at);
    proof {
        assert forall|i: int| 0 <= i < out@.pixels.len() implies out@.pixels[i] == swapped(
            image@.pixels[i],
        ) by {
            lemma_position(i, out@.width, out@.height);
            assert(out@.at(i % out@.width, i / out@.width) == out@.pixels[i]);
        }
        assert(out@.pixels =~= image@.pixels.map_values(|pixel: Rgba| swapped(pixel)));
    }
    out
}

/// Exchanging red and blue twice changes nothing.
pub proof fn swapping_twice_changes_nothing(pixel: Rgba)
    ensures
        swapped(swapped(pixel)) == pixel,
{
}

/// The files that are loaded, and how they are to be upscaled, are the same.
pub open spec fn same_settings(a: StudioView, b: StudioView) -> bool {
    &&& a.texture_path == b.texture_path && a.source == b.source && a.tiles == b.tiles
    &&& a.model_path == b.model_path && a.faces == b.faces
    &&& a.factor == b.factor && a.stitch == b.stitch
}

/// What was made with another factor is forgotten; the same factor changes nothing.
pub proof fn factors_outdate_the_result(studio: &mut Studio, factor: u32, changed: bool)
    requires
        call_ensures(Studio::set_factor, (studio, factor), changed),
    ensures
        changed <==> old(studio).factor != factor,
        final(studio).factor == factor,
        changed ==> final(studio)@.result is None,
        !changed ==> final(studio)@ == old(studio)@,
        same_settings(final(studio)@, (StudioView { factor, ..old(studio)@ })),
        final(studio)@.error == old(studio)@.error,
        final(studio)@.batch_running == old(studio)@.batch_running,
{
}

/// Stitching is switched where there is a model, and what was made the other way is
/// forgotten; without a model nothing changes.
pub proof fn stitching_is_switched_with_a_model(studio: &mut Studio, changed: bool)
    requires
        call_ensures(Studio::toggle_stitch, (studio,), changed),
    ensures
        changed <==> old(studio).model_faces is Some,
        changed ==> final(studio).stitch == !old(studio).stitch && final(studio)@.result is None,
        !changed ==> final(studio)@ == old(studio)@,
        same_settings(
            final(studio)@,
            (StudioView { stitch: final(studio).stitch, ..old(studio)@ }),
        ),
        final(studio)@.batch_running == old(studio)@.batch_running,
{
}

/// Taking the model away leaves no model and nothing that was made with it; the
/// texture, the factor and the switch stay.
pub proof fn cleared_models_are_gone(studio: &mut Studio, done: ())
    requires
        call_ensures(Studio::clear_model, (studio,), done),
    ensures
        final(studio).model_faces is None && final(studio).model_path is None,
        final(studio)@.result is None && final(studio)@.error is None,
        same_settings(
            final(studio)@,
            (StudioView { faces: None, model_path: None, ..old(studio)@ }),
        ),
        final(studio)@.batch_running == old(studio)@.batch_running,
{
}

/// A texture that is loaded takes the place of the old one, and what was made of
/// that is forgotten; the model and the settings stay. One that cannot be loaded is
/// told, and changes nothing else.
pub proof fn loaded_textures_replace_the_old(
    studio: &mut Studio,
    path: &str,
    loaded: Result<RgbaImage, String>,
    tiles: bool,
    done: (),
)
    requires
        call_ensures(Studio::load_texture, (studio, path, loaded, tiles), done),
    ensures
        loaded matches Ok(image) ==> {
            &&& same_settings(
                final(studio)@,
                (StudioView {
                    source: Some(image@),
                    texture_path: Some(path@),
                    tiles,
                    ..old(studio)@
                }),
            )
            &&& final(studio)@.result is None && final(studio)@.error is None
        },
        loaded matches Err(error) ==> final(studio)@ == (StudioView {
            error: Some("cannot read texture: "@ + error@),
            ..old(studio)@
        }),
        final(studio)@.batch_running == old(studio)@.batch_running,
{
}

/// A model that is loaded is stitched with: as it is where no texture is there
/// yet, else with the faces that lie in the texture; where none does, it is
/// refused and the old one stays. A model that cannot be loaded is told, and changes
/// nothing else.
pub proof fn loaded_models_are_stitched_with(
    studio: &mut Studio,
    path: &str,
    loaded: Result<ModelFaces, String>,
    scaled: Vec<ScaledRect>,
    done: (),
)
    requires
        call_ensures(Studio::load_model_file, (studio, path, loaded, &scaled), done),
    ensures
        loaded matches Err(error) ==> final(studio)@ == (StudioView {
            error: Some(error@),
            ..old(studio)@
        }),
        loaded matches Ok(model) ==> {
            let before = old(studio)@;
            let after = final(studio)@;
            let inside = match before.source {
                Some(source) => clipped_faces(
                    model.faces@,
                    scaled@,
                    source.width,
                    source.height,
                    scaled@.len() as int,
                ),
                None => model.faces@,
            };
            &&& before.source is None || inside.len() > 0 ==> same_settings(
                after,
                (StudioView {
                    faces: Some(inside),
                    model_path: Some(path@),
                    stitch: true,
                    ..before
                }),
            ) && after.result is None && after.error is None
            &&& before.source is Some && inside.len() == 0 ==> same_settings(after, before)
                && after.result == before.result && after.error is Some
        },
        final(studio)@.batch_running == old(studio)@.batch_running,
{
}

/// A model that is mapped to another texture keeps the faces that lie in it, and is
/// taken away where none does; without a texture or a model nothing changes.
pub proof fn models_follow_the_texture(
    studio: &mut Studio,
    loaded: Result<ModelFaces, String>,
    scaled: Vec<ScaledRect>,
    done: (),
)
    requires
        call_ensures(Studio::rescale_model_faces, (studio, loaded, &scaled), done),
    ensures
        ({
            let before = old(studio)@;
            let after = final(studio)@;
            &&& before.source is None || before.model_path is None ==> after == before
            &&& before.source is Some && before.model_path is Some ==> match loaded {
                Err(error) => after == (StudioView { error: Some(error@), ..before }),
                Ok(model) => {
                    let source = before.source->0;
                    let inside = clipped_faces(
                        model.faces@,
                        scaled@,
                        source.width,
                        source.height,
                        scaled@.len() as int,
                    );
                    &&& inside.len() > 0 ==> same_settings(
                        after,
                        (StudioView { faces: Some(inside), ..before }),
                    ) && after.error is None
                    &&& inside.len() == 0 ==> same_settings(
                        after,
                        (StudioView { faces: None, model_path: None, ..before }),
                    ) && after.error is Some
                },
            }
            &&& after.result == before.result && after.batch_running == before.batch_running
        }),
{
}

/// Upscaling in the window stitches where there is a model and stitching is on,
/// else wraps where the texture tiles, else scales plainly; the texture, the model
/// and the settings stay.
pub proof fn the_window_upscales_as_it_is_set(studio: &mut Studio, done: ())
    requires
        call_ensures(Studio::run_upscale, (studio,), done),
        2 <= old(studio).factor <= 6,
        old(studio)@.source matches Some(source) && source.width > 0 && source.height > 0,
        old(studio)@.faces matches Some(faces) ==> faces.len() > 0,
    ensures
        ({
            let before = old(studio)@;
            let after = final(studio)@;
            let source = before.source->0;
            let factor = before.factor as int;
            let stitches = before.stitch && before.faces is Some;
            &&& after.error is None
            &&& stitches ==> after.result == Some(stitched(source, before.faces->0, factor))
            &&& !stitches && before.tiles ==> after.result == Some(
                wrapped_upscaled(source, factor),
            )
            &&& !stitches && !before.tiles ==> after.result == Some(plain_upscaled(source, factor))
            &&& same_settings(after, before)
            &&& after.batch_running == before.batch_running
        }),
{
}

/// Where upscaling fails, that is told and what was made before stays.
pub proof fn failed_upscales_leave_the_result(studio: &mut Studio, done: ())
    requires
        call_ensures(Studio::run_upscale, (studio,), done),
        old(studio).source is None || !(2 <= old(studio).factor <= 6),
    ensures
        final(studio)@ == (StudioView {
            error: Some(
                if old(studio).source is None {
                    "open a texture first"@
                } else {
                    "factor must be between 2 and 6"@
                },
            ),
            ..old(studio)@
        }),
{
}

/// Only what was made can be saved; saving changes none of it, and a failure to
/// write is told.
pub proof fn only_results_are_saved(
    studio: &mut Studio,
    path: &str,
    written: Result<(), String>,
    done: (),
)
    requires
        call_ensures(Studio::write_result, (studio, path, written), done),
    ensures
        old(studio).result is None ==> final(studio)@.error == Some("run upscale first"@),
        old(studio).result is Some && written is Ok ==> final(studio)@.error is None,
        old(studio).result is Some ==> (written matches Err(error) ==> final(studio)@.error == Some(
            "cannot write "@ + path@ + ": "@ + error@,
        )),
        final(studio)@.result == old(studio)@.result,
        same_settings(final(studio)@, old(studio)@),
        final(studio)@.batch_running == old(studio)@.batch_running,
{
}

/// Asking to save is granted just where something was made, and changes nothing but
/// the error that says why it is not.
pub proof fn saving_is_granted_for_results(studio: &mut Studio, ready: bool)
    requires
        call_ensures(Studio::ask_to_save, (studio,), ready),
    ensures
        ready <==> old(studio).result is Some,
        ready ==> final(studio)@ == old(studio)@,
        !ready ==> final(studio)@ == (StudioView {
            error: Some("run upscale first"@),
            ..old(studio)@
        }),
{
}

/// An error that is shown changes nothing else.
pub proof fn errors_change_nothing_else(
    studio: &mut Studio,
    message: String,
    error: &str,
    done: (),
)
    requires
        call_ensures(Studio::set_error, (studio, message), done) || call_ensures(
            Studio::dialog_failed,
            (studio, error),
            done,
        ) && message@ == "file dialog: "@ + error@ || call_ensures(
            Studio::dialog_dropped,
            (studio, error),
            done,
        ) && message@ == "file dialog cancelled: "@ + error@,
    ensures
        final(studio)@ == (StudioView { error: Some(message@), ..old(studio)@ }),
{
}

/// A batch begins where none runs, and ends with the event that ends it. It is an
/// error just where it could not run, or where something failed and nothing was
/// scaled; any other is told as done.
pub proof fn batches_end_as_done_or_failed(
    studio: &mut Studio,
    event: JarEvent,
    out: &str,
    factor: u32,
    done: (),
)
    requires
        call_ensures(Studio::on_jar_event, (studio, event, out, factor), done),
    ensures
        ({
            let before = old(studio)@;
            let after = final(studio)@;
            &&& event is Begin && before.batch_running ==> after == before
            &&& event is Begin ==> after.batch_running
            &&& event is Begin && !before.batch_running ==> after.error is None
            &&& event is DialogFailed || event is DialogDropped || event is Cancelled || event
                is Lost ==> !after.batch_running
            &&& event is DialogFailed || event is DialogDropped || event is Lost ==> after.error
                is Some && after.status == before.status
            &&& event is Cancelled ==> after.error == before.error
            &&& event is Scanning ==> after.batch_running == before.batch_running && after.error
                == before.error
            &&& event matches JarEvent::Message(JarMessage::Progress(_)) ==> after.batch_running
                == before.batch_running && after.error == before.error
            &&& event matches JarEvent::Message(JarMessage::Finished(finished)) ==> {
                &&& !after.batch_running
                &&& finished matches Err(error) ==> after.error == Some(error@) && after.status
                    == before.status
                &&& finished matches Ok(report) ==> (report.upscaled > 0 || report.errors@.len()
                    == 0 ==> after.error is None) && (report.upscaled == 0 && report.errors@.len()
                    > 0 ==> after.error is Some && after.status == before.status)
            }
            &&& same_settings(after, before) && after.result == before.result
        }),
{
}

/// What the window offers is what can be done: a batch while none runs, upscaling
/// with a texture, saving with a result, and what concerns a model with one.
pub proof fn controls_offer_what_can_be_done(studio: Studio, controls: Controls)
    requires
        call_ensures(Studio::controls, (&studio,), controls),
    ensures
        controls.open_jar <==> !studio.batch_running,
        controls.upscale <==> studio.source is Some,
        controls.save <==> studio.result is Some,
        controls.stitch <==> studio.model_faces is Some,
        controls.clear_model <==> studio.model_faces is Some,
        controls.change_model <==> studio.model_path is Some,
{
}

/// An error is shown before anything else.
pub proof fn errors_are_shown_first(studio: Studio, line: String)
    requires
        call_ensures(Studio::status_line, (&studio,), line),
    ensures
        studio.error matches Some(error) ==> line@ == "error: "@ + error@,
        studio.error is None ==> line@ == studio.status@,
{
}

/// A batch from the window has the window's factor and switch for stitching.
pub proof fn batches_take_the_windows_settings(studio: Studio, options: BatchOptions)
    requires
        call_ensures(Studio::batch_options, (&studio,), options),
    ensures
        options.factor == studio.factor,
        options.stitch == studio.stitch,
        options.wrap,
        options.model_dir is None,
{
}

/// At the start nothing is loaded, stitching is on and the factor is four.
pub proof fn the_window_starts_empty(studio: Studio)
    requires
        call_ensures(Studio::new, (), studio),
    ensures
        studio.source is None && studio.result is None && studio.model_faces is None,
        studio.factor == 4 && studio.stitch && !studio.batch_running && studio.error is None,
{
}

/// For the screen, a picture's red and blue are exchanged and all else stays.
pub proof fn screens_have_blue_first(image: RgbaImage, out: RgbaImage, x: int, y: int)
    requires
        call_ensures(to_bgra, (&image,), out),
        image@.wf(),
        image@.has(x, y),
    ensures
        out@.at(x, y).r == image@.at(x, y).b,
        out@.at(x, y).b == image@.at(x, y).r,
        out@.at(x, y).g == image@.at(x, y).g,
        out@.at(x, y).a == image@.at(x, y).a,
        out@.width == image@.width && out@.height == image@.height,
{
    let w = image@.width;
    let h = image@.height;
    assert(0 <= y * w + x < w * h) by (nonlinear_arith)
        requires
            0 <= x < w,
            0 <= y < h,
    ;
}

} // verus!
