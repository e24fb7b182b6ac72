//! What the command-line tools decide and say.
use crate::codec::scalable;
use crate::limits::{can_scale, can_stitch, can_wrap};
use crate::model::ModelFace;
use crate::overlay::{count_on_axis, on_axis, Axis};
use crate::raster::{Raster, RgbaImage};
use crate::render::rendering;
use crate::report::{BatchProgress, BatchReport};
use crate::text::{
    decimal, decimal_notation_reads_as_the_number, lemma_unsplit, number_read, push_decimal,
    segments, splitting_splits_at_every_separator,
};
use crate::upscaling::{
    box_count, boxes, stitchable, stitched, upscale_image, upscale_wrapped, valid_factor,
    wrappable, UpscaleConfig, MAX_FACTOR,
};
use vstd::prelude::*;

verus! {

/// What the program is asked to upscale.
#[derive(Clone, Copy, Debug, PartialEq, Eq, Structural)]
pub enum Mode {
    Single,
    Batch,
}

/// Finds out what to upscale: either one texture or a jar.
pub fn choose_mode(has_texture: bool, has_jar: bool) -> (mode: Result<Mode, String>)
    ensures
        if has_texture && has_jar {
            mode matches Err(e) && e@ == "pass either a texture path or --jar, not both"@
        } else if has_texture {
            mode matches Ok(Mode::Single)
        } else if has_jar {
            mode matches Ok(Mode::Batch)
        } else {
            mode matches Err(e) && e@ == "provide a texture path, or --jar <file.jar>"@
        },
{
    if has_texture && has_jar {
        Err("pass either a texture path or --jar, not both".to_owned())
    } else if has_texture {
        Ok(Mode::Single)
    } else if has_jar {
        Ok(Mode::Batch)
    } else {
        Err("provide a texture path, or --jar <file.jar>".to_owned())
    }
}

/// How one texture is upscaled: whether its faces are stitched, and whether it
/// gets a self-tiling border.
#[derive(Clone, Copy, Debug, PartialEq, Eq, Structural)]
pub struct SingleChoice {
    pub stitch: bool,
    pub wrap: bool,
}

/// Faces are stitched unless that is switched off. A block texture that is not
/// stitched is wrapped unless that is switched off.
pub open spec fn single_choice(has_faces: bool, no_stitch: bool, no_wrap: bool, block: bool) -> SingleChoice {
    let stitch = !no_stitch && has_faces;
    SingleChoice { stitch, wrap: !no_wrap && !stitch && block }
}

/// Decides how one texture is upscaled.
pub fn choose_single(has_faces: bool, no_stitch: bool, no_wrap: bool, block: bool) -> (choice:
    SingleChoice)
    ensures
        choice == single_choice(has_faces, no_stitch, no_wrap, block),
{
    let stitch = !no_stitch && has_faces;
    SingleChoice { stitch, wrap: !no_wrap && !stitch && block }
}

/// A texture upscaled by itself, in the chosen way.
pub open spec fn single_image(
    source: Raster,
    faces: Option<Seq<ModelFace>>,
    choice: SingleChoice,
    factor: int,
) -> Result<Raster, Seq<char>> {
    if choice.wrap || !choice.stitch || !valid_factor(factor) {
        rendering(source, Seq::empty(), choice.wrap, factor)
    } else {
        match faces {
            None => Err("stitching requires model faces"@),
            Some(faces) => if faces.len() == 0 {
                Err("stitching requires at least one model face"@)
            } else {
                Ok(stitched(source, faces, factor))
            },
        }
    }
}

/// What [`single_image`] makes can be held.
pub open spec fn single_possible(
    width: int,
    height: int,
    faces: Option<Seq<ModelFace>>,
    choice: SingleChoice,
    factor: int,
) -> bool {
    valid_factor(factor) ==> {
        &&& scalable(width, height, factor)
        &&& choice.wrap && width > 0 && height > 0 ==> wrappable(width, height, factor)
        &&& choice.stitch && !choice.wrap ==> (faces matches Some(faces) ==> stitchable(
            faces,
            width,
            height,
            factor,
        ))
    }
}

/// Whether what [`single_image`] makes can be held.
pub fn can_upscale_single(
    width: u32,
    height: u32,
    faces: Option<&[ModelFace]>,
    choice: SingleChoice,
    factor: u32,
) -> (can: bool)
    ensures
        can == single_possible(
            width as int,
            height as int,
            match faces {
                Some(faces) => Some(faces@),
                None => None,
            },
            choice,
            factor as int,
        ),
{
    if factor < 2 || factor > MAX_FACTOR {
        return true;
    }
    if !can_scale(width as u64, height as u64, factor) {
        return false;
    }
    if choice.wrap && width > 0 && height > 0 && !can_wrap(width, height, factor) {
        return false;
    }
    match faces {
        Some(faces) => !choice.stitch || choice.wrap || can_stitch(faces, width, height, factor),
        None => true,
    }
}

/// Upscales one texture in the chosen way.
pub fn upscale_single(
    source: &RgbaImage,
    faces: Option<&[ModelFace]>,
    choice: SingleChoice,
    factor: u32,
) -> (output: Result<RgbaImage, String>)
    requires
        single_possible(
            source@.width,
            source@.height,
            match faces {
                Some(faces) => Some(faces@),
                None => None,
            },
            choice,
            factor as int,
        ),
    ensures
        match single_image(
            source@,
            match faces {
                Some(faces) => Some(faces@),
                None => None,
            },
            choice,
            factor as int,
        ) {
            Ok(raster) => output matches Ok(output) && output@ == raster && output@.wf(),
            Err(message) => output matches Err(e) && e@ == message,
        },
{
    if choice.wrap {
        upscale_wrapped(source, factor)
    } else {
        upscale_image(source, faces, &UpscaleConfig { factor, stitch_faces: choice.stitch })
    }
}

/// `{width}x{height}`.
pub open spec fn size_text(width: nat, height: nat) -> Seq<char> {
    decimal(width) + "x"@ + decimal(height)
}

pub fn push_size(text: &mut String, width: u32, height: u32)
    ensures
        final(text)@ == old(text)@ + size_text(width as nat, height as nat),
{
    let ghost before = text@;
    push_decimal(text, width as u64);
    text.append("x");
    push_decimal(text, height as u64);
    assert(text@ =~= before + size_text(width as nat, height as nat));
}

/// The line on one upscaled texture.
pub fn single_line(
    input: &str,
    output: &str,
    width: u32,
    height: u32,
    factor: u32,
    wrapped: bool,
) -> (line: String)
    ensures
        line@ == input@ + " -> "@ + output@ + " ("@ + size_text(width as nat, height as nat)
            + ", factor "@ + decimal(factor as nat) + (if wrapped {
            ", tiled wrap"@
        } else {
            Seq::empty()
        }) + ")"@,
{
    let mut line = input.to_owned();
    line.append(" -> ");
    line.append(output);
    line.append(" (");
    push_size(&mut line, width, height);
    line.append(", factor ");
    push_decimal(&mut line, factor as u64);
    let ghost so_far = line@;
    if wrapped {
        line.append(", tiled wrap");
    } else {
        assert(so_far =~= so_far + Seq::empty());
    }
    line.append(")");
    line
}

/// The line on the stitched faces.
pub fn stitched_line(faces: &[ModelFace]) -> (line: String)
    ensures
        line@ == "stitched "@ + decimal(faces@.len()) + " model faces into "@ + decimal(
            boxes(faces@).len(),
        ) + " groups"@,
{
    let mut line = "stitched ".to_owned();
    push_decimal(&mut line, faces.len() as u64);
    line.append(" model faces into ");
    push_decimal(&mut line, box_count(faces) as u64);
    line.append(" groups");
    line
}

/// The line on a batch's progress, if there is anything to say: at the
/// beginning, and at the first, the last and every twenty-fifth texture.
pub open spec fn progress_text(progress: BatchProgress) -> Option<Seq<char>> {
    match progress {
        BatchProgress::Started { total, entity_models, .. } => Some(
            decimal(total as nat) + " textures; "@ + decimal(entity_models as nat)
                + " entity models loaded for stitching"@,
        ),
        BatchProgress::Texture { done, total, name } => if done == 1 || done == total || done % 25
            == 0 {
            Some("["@ + decimal(done as nat) + "/"@ + decimal(total as nat) + "] "@ + name@)
        } else {
            None
        },
    }
}

/// `[{done}/{total}] {name}`.
pub fn texture_line(done: usize, total: usize, name: &str) -> (line: String)
    ensures
        line@ == "["@ + decimal(done as nat) + "/"@ + decimal(total as nat) + "] "@ + name@,
{
    let mut line = "[".to_owned();
    push_decimal(&mut line, done as u64);
    line.append("/");
    push_decimal(&mut line, total as u64);
    line.append("] ");
    line.append(name);
    line
}

/// The line on a batch's progress, if there is anything to say.
pub fn progress_line(progress: &BatchProgress) -> (line: Option<String>)
    ensures
        match progress_text(*progress) {
            Some(text) => line matches Some(line) && line@ == text,
            None => line is None,
        },
{
    match progress {
        BatchProgress::Started { total, entity_models, block_models: _ } => {
            let mut line = String::new();
            push_decimal(&mut line, *total as u64);
            assert(line@ =~= decimal(*total as nat));
            line.append(" textures; ");
            push_decimal(&mut line, *entity_models as u64);
            line.append(" entity models loaded for stitching");
            Some(line)
        },
        BatchProgress::Texture { done, total, name } => {
            if *done == 1 || *done == *total || *done % 25 == 0 {
                Some(texture_line(*done, *total, name.as_str()))
            } else {
                None
            }
        },
    }
}

/// The texts that a list of lines holds.
pub open spec fn line_views(lines: Seq<String>) -> Seq<Seq<char>> {
    lines.map_values(|line: String| line@)
}

/// One line, if the count is not zero.
pub open spec fn line_if(count: int, line: Seq<char>) -> Seq<Seq<char>> {
    if count > 0 {
        seq![line]
    } else {
        Seq::empty()
    }
}

/// The lines on a finished batch.
pub open spec fn summary(report: BatchReport, jar: Seq<char>, out: Seq<char>, factor: nat) -> Seq<
    Seq<char>,
> {
    seq![
        jar + " -> "@ + out + " ("@ + decimal(report.upscaled as nat)
            + " textures upscaled, factor "@ + decimal(factor) + ")"@,
    ] + line_if(
        report.wrapped as int,
        "  block textures with tiled wrap: "@ + decimal(report.wrapped as nat),
    ) + line_if(
        report.animated as int,
        "  frame-aware animated textures: "@ + decimal(report.animated as nat),
    ) + line_if(
        report.stitched as int,
        "  entity textures stitched with "@ + decimal(report.entity_models as nat) + " models: "@
            + decimal(report.stitched as nat),
    )
}

fn push_line(lines: &mut Vec<String>, line: String)
    ensures
        line_views(final(lines)@) == line_views(old(lines)@).push(line@),
{
    let ghost before = line_views(lines@);
    let ghost added = line@;
    lines.push(line);
    assert(line_views(lines@) =~= before.push(added));
}

fn counted(text: &str, count: usize) -> (line: String)
    ensures
        line@ == text@ + decimal(count as nat),
{
    let mut line = text.to_owned();
    push_decimal(&mut line, count as u64);
    line
}

/// The lines on a finished batch.
pub fn summary_lines(report: &BatchReport, jar: &str, out: &str, factor: u32) -> (lines: Vec<String>)
    ensures
        line_views(lines@) == summary(*report, jar@, out@, factor as nat),
{
    let mut lines: Vec<String> = Vec::new();
    let mut first = jar.to_owned();
    first.append(" -> ");
    first.append(out);
    first.append(" (");
    push_decimal(&mut first, report.upscaled as u64);
    first.append(" textures upscaled, factor ");
    push_decimal(&mut first, factor as u64);
    first.append(")");
    push_line(&mut lines, first);
    if report.wrapped > 0 {
        push_line(&mut lines, counted("  block textures with tiled wrap: ", report.wrapped));
    }
    if report.animated > 0 {
        push_line(&mut lines, counted("  frame-aware animated textures: ", report.animated));
    }
    if report.stitched > 0 {
        let mut line = counted("  entity textures stitched with ", report.entity_models);
        line.append(" models: ");
        push_decimal(&mut line, report.stitched as u64);
        push_line(&mut lines, line);
    }
    assert(line_views(lines@) =~= summary(*report, jar@, out@, factor as nat));
    lines
}

/// How many failures are listed one by one.
pub const LISTED_FAILURES: usize = 20;

/// The first `count` failures, a line each.
pub open spec fn failure_list(errors: Seq<(String, String)>, count: int) -> Seq<Seq<char>> {
    Seq::new(count as nat, |i: int| "  "@ + errors[i].0@ + ": "@ + errors[i].1@)
}

/// The lines on a batch's failures: how many, the first of them, and how many
/// more.
pub open spec fn failure_text(errors: Seq<(String, String)>) -> Seq<Seq<char>> {
    let n = errors.len() as int;
    if n == 0 {
        Seq::empty()
    } else if n <= LISTED_FAILURES {
        seq![decimal(errors.len()) + " textures failed:"@] + failure_list(errors, n)
    } else {
        (seq![decimal(errors.len()) + " textures failed:"@] + failure_list(
            errors,
            LISTED_FAILURES as int,
        )).push("  … and "@ + decimal((n - LISTED_FAILURES) as nat) + " more"@)
    }
}

/// The lines on a batch's failures.
pub fn failure_lines(report: &BatchReport) -> (lines: Vec<String>)
    ensures
        line_views(lines@) == failure_text(report.errors@),
{
    let mut lines: Vec<String> = Vec::new();
    let count: usize = report.errors.len();
    assert(line_views(lines@) =~= Seq::empty());
    if count == 0 {
        return lines;
    }
    let mut first = String::new();
    push_decimal(&mut first, count as u64);
    assert(first@ =~= decimal(count as nat));
    first.append(" textures failed:");
    let ghost head = seq![first@];
    push_line(&mut lines, first);
    assert(line_views(lines@) =~= head);
    let listed: usize = if count <= LISTED_FAILURES {
        count
    } else {
        LISTED_FAILURES
    };
    let mut i: usize = 0;
    assert(line_views(lines@) =~= head + failure_list(report.errors@, 0));
    while i < listed
        invariant
            i <= listed <= report.errors@.len(),
            line_views(lines@) == head + failure_list(report.errors@, i as int),
        decreases listed - i,
    {
        let mut line = "  ".to_owned();
        line.append(report.errors[i].0.as_str());
        line.append(": ");
        line.append(report.errors[i].1.as_str());
        push_line(&mut lines, line);
        assert(line_views(lines@) =~= head + failure_list(report.errors@, i + 1));
        i = i + 1;
    }
    if count > LISTED_FAILURES {
        let mut line = counted("  … and ", count - LISTED_FAILURES);
        line.append(" more");
        push_line(&mut lines, line);
    }
    lines
}

/// Whether a batch as a whole failed: something did, and nothing was upscaled.
pub fn check_batch(report: &BatchReport) -> (checked: Result<(), String>)
    ensures
        checked is Err <==> report.errors@.len() > 0 && report.upscaled == 0,
        checked matches Err(e) ==> e@ == "every texture failed"@,
{
    if report.errors.len() > 0 && report.upscaled == 0 {
        Err("every texture failed".to_owned())
    } else {
        Ok(())
    }
}

/// Refuses a scale of zero.
pub fn check_scale(scale: u32) -> (checked: Result<(), String>)
    ensures
        checked is Err <==> scale == 0,
        checked matches Err(e) ==> e@ == "scale must be at least 1"@,
{
    if scale == 0 {
        Err("scale must be at least 1".to_owned())
    } else {
        Ok(())
    }
}

/// Refuses a texture without pixels.
pub fn check_texture(width: u32, height: u32) -> (checked: Result<(), String>)
    ensures
        checked is Err <==> width == 0 || height == 0,
        checked matches Err(e) ==> e@ == "zero-size texture"@,
{
    if width == 0 || height == 0 {
        Err("zero-size texture".to_owned())
    } else {
        Ok(())
    }
}

/// What is said of a model that has no face inside the texture.
pub open spec fn no_faces_text(model: Seq<char>) -> Seq<char> {
    "model "@ + model + " has no face UV rectangles inside the texture"@
}

pub fn no_faces_message(model: &str) -> (message: String)
    ensures
        message@ == no_faces_text(model@),
{
    let mut message = "model ".to_owned();
    message.append(model);
    message.append(" has no face UV rectangles inside the texture");
    message
}

/// Refuses a model that has no face inside the texture.
pub fn check_faces(faces: &[ModelFace], model: &str) -> (checked: Result<(), String>)
    ensures
        checked is Err <==> faces@.len() == 0,
        checked matches Err(e) ==> e@ == no_faces_text(model@),
{
    if faces.len() == 0 {
        Err(no_faces_message(model))
    } else {
        Ok(())
    }
}

/// The line on a texture whose faces were marked.
pub fn marked_line(
    texture: &str,
    faces: &[ModelFace],
    output: &str,
    width: u32,
    height: u32,
) -> (line: String)
    ensures
        line@ == texture@ + ": "@ + decimal(faces@.len()) + " faces (X "@ + decimal(
            on_axis(faces@, Axis::X, faces@.len() as int) as nat,
        ) + " / Y "@ + decimal(on_axis(faces@, Axis::Y, faces@.len() as int) as nat) + " / Z "@
            + decimal(on_axis(faces@, Axis::Z, faces@.len() as int) as nat) + ") -> "@ + output@
            + " ("@ + size_text(width as nat, height as nat) + ")"@,
{
    let count: usize = faces.len();
    let mut line = texture.to_owned();
    line.append(": ");
    push_decimal(&mut line, count as u64);
    line.append(" faces (X ");
    push_decimal(&mut line, count_on_axis(faces, Axis::X, count) as u64);
    line.append(" / Y ");
    push_decimal(&mut line, count_on_axis(faces, Axis::Y, count) as u64);
    line.append(" / Z ");
    push_decimal(&mut line, count_on_axis(faces, Axis::Z, count) as u64);
    line.append(") -> ");
    line.append(output);
    line.append(" (");
    push_size(&mut line, width, height);
    line.append(")");
    line
}

/// The line on a face that was cut out.
pub fn slice_line(face: &ModelFace, path: &str, width: u32, height: u32) -> (line: String)
    ensures
        line@ == "g"@ + decimal(face.group as nat) + " "@ + face.face@ + " -> "@ + size_text(
            face.rect.width as nat,
            face.rect.height as nat,
        ) + " at ("@ + decimal(face.rect.x as nat) + ", "@ + decimal(face.rect.y as nat)
            + ") -> "@ + path@ + " ("@ + size_text(width as nat, height as nat) + ")"@,
{
    let mut line = "g".to_owned();
    push_decimal(&mut line, face.group as u64);
    line.append(" ");
    line.append(face.face.as_str());
    line.append(" -> ");
    push_size(&mut line, face.rect.width, face.rect.height);
    line.append(" at (");
    push_decimal(&mut line, face.rect.x as u64);
    line.append(", ");
    push_decimal(&mut line, face.rect.y as u64);
    line.append(") -> ");
    line.append(path);
    line.append(" (");
    push_size(&mut line, width, height);
    line.append(")");
    line
}

/// The line on all faces that were cut out.
pub fn sliced_line(texture: &str, written: usize, border: u32, scale: u32, output: &str) -> (line:
    String)
    ensures
        line@ == texture@ + ": cut "@ + decimal(written as nat) + " faces (border "@ + decimal(
            border as nat,
        ) + "px from neighbors, scale x"@ + decimal(scale as nat) + ") -> "@ + output@,
{
    let mut line = texture.to_owned();
    line.append(": cut ");
    push_decimal(&mut line, written as u64);
    line.append(" faces (border ");
    push_decimal(&mut line, border as u64);
    line.append("px from neighbors, scale x");
    push_decimal(&mut line, scale as u64);
    line.append(") -> ");
    line.append(output);
    line
}

/// Either a texture or a jar is upscaled, and one of them must be named.
pub proof fn one_thing_is_upscaled_at_a_time(
    has_texture: bool,
    has_jar: bool,
    mode: Result<Mode, String>,
)
    requires
        call_ensures(choose_mode, (has_texture, has_jar), mode),
    ensures
        mode is Ok <==> has_texture != has_jar,
        mode == Ok::<Mode, String>(Mode::Single) <==> has_texture && !has_jar,
        mode == Ok::<Mode, String>(Mode::Batch) <==> has_jar && !has_texture,
{
}

/// A texture with faces is stitched unless that is switched off, and only then; a
/// texture that tiles is wrapped unless it is stitched or that is switched off.
pub proof fn stitching_goes_before_wrapping(
    has_faces: bool,
    no_stitch: bool,
    no_wrap: bool,
    block: bool,
    choice: SingleChoice,
)
    requires
        call_ensures(choose_single, (has_faces, no_stitch, no_wrap, block), choice),
    ensures
        !(choice.stitch && choice.wrap),
        choice.stitch <==> has_faces && !no_stitch,
        block && !no_wrap ==> choice.stitch || choice.wrap,
        choice.wrap ==> block && !no_wrap,
{
}

/// One texture is upscaled as the chosen way says: with a self-tiling border, or
/// else as an image with or without its faces stitched.
pub proof fn single_textures_are_upscaled_as_chosen(
    source: RgbaImage,
    faces: Option<&[ModelFace]>,
    choice: SingleChoice,
    factor: u32,
    output: Result<RgbaImage, String>,
    wrapped: Result<RgbaImage, String>,
    image: Result<RgbaImage, String>,
)
    requires
        call_ensures(upscale_single, (&source, faces, choice, factor), output),
        call_ensures(upscale_wrapped, (&source, factor), wrapped),
        call_ensures(
            upscale_image,
            (&source, faces, &UpscaleConfig { factor, stitch_faces: choice.stitch }),
            image,
        ),
    ensures
        ({
            let same = if choice.wrap {
                wrapped
            } else {
                image
            };
            match same {
                Ok(picture) => output matches Ok(output) && output@ == picture@,
                Err(reason) => output matches Err(e) && e@ == reason@,
            }
        }),
{
}

/// Of a batch, the beginning is told, and the first, the last and every
/// twenty-fifth texture.
pub proof fn every_twenty_fifth_texture_is_told(progress: BatchProgress, line: Option<String>)
    requires
        call_ensures(progress_line, (&progress,), line),
    ensures
        match progress {
            BatchProgress::Started { .. } => line is Some,
            BatchProgress::Texture { done, total, .. } => line is Some <==> done == 1 || done
                == total || done % 25 == 0,
        },
{
}

/// All failures are counted, the first twenty are told one by one with their
/// reasons, and of more than that it is told how many there are.
pub proof fn twenty_failures_are_told(report: BatchReport, lines: Vec<String>, i: int)
    requires
        call_ensures(failure_lines, (&report,), lines),
    ensures
        ({
            let n = report.errors@.len();
            &&& n == 0 ==> lines@.len() == 0
            &&& 0 < n <= 20 ==> lines@.len() == n + 1
            &&& n > 20 ==> lines@.len() == 22 && lines@[21]@ == "  … and "@ + decimal(
                (n - 20) as nat,
            ) + " more"@
            &&& n > 0 ==> lines@[0]@ == decimal(n) + " textures failed:"@
            &&& 0 <= i < n && i < 20 ==> lines@[i + 1]@ == "  "@ + report.errors@[i].0@ + ": "@
                + report.errors@[i].1@
        }),
{
    let texts = line_views(lines@);
    assert(texts.len() == lines@.len());
    let n = report.errors@.len();
    if n > 20 {
        assert(texts[21] == lines@[21]@);
    }
    if n > 0 {
        assert(texts[0] == lines@[0]@);
    }
    if 0 <= i < n && i < 20 {
        assert(texts[i + 1] == lines@[i + 1]@);
    }
}

/// A batch is told in one line, and in one more for each kind of texture that it
/// had: wrapped, animated and stitched ones.
pub proof fn kinds_of_textures_have_a_line_each(
    report: BatchReport,
    jar: &str,
    out: &str,
    factor: u32,
    lines: Vec<String>,
)
    requires
        call_ensures(summary_lines, (&report, jar, out, factor), lines),
    ensures
        lines@.len() == 1 + (if report.wrapped > 0 {
            1int
        } else {
            0
        }) + (if report.animated > 0 {
            1int
        } else {
            0
        }) + (if report.stitched > 0 {
            1int
        } else {
            0
        }),
        lines@[0]@ == jar@ + " -> "@ + out@ + " ("@ + decimal(report.upscaled as nat)
            + " textures upscaled, factor "@ + decimal(factor as nat) + ")"@,
{
    let texts = line_views(lines@);
    assert(texts.len() == lines@.len());
    assert(texts[0] == lines@[0]@);
}

/// A batch fails as a whole just where something failed and nothing was scaled.
pub proof fn batches_fail_when_nothing_comes_out(report: BatchReport, checked: Result<(), String>)
    requires
        call_ensures(check_batch, (&report,), checked),
    ensures
        report.upscaled > 0 ==> checked is Ok,
        report.errors@.len() == 0 ==> checked is Ok,
        report.upscaled == 0 && report.errors@.len() > 0 ==> checked is Err,
{
}

/// A scale of nothing, a texture without pixels and a model without faces are
/// refused, and nothing else is.
pub proof fn what_cannot_be_shown_is_refused(
    scale: u32,
    width: u32,
    height: u32,
    faces: &[ModelFace],
    model: &str,
    scale_checked: Result<(), String>,
    texture_checked: Result<(), String>,
    faces_checked: Result<(), String>,
)
    requires
        call_ensures(check_scale, (scale,), scale_checked),
        call_ensures(check_texture, (width, height), texture_checked),
        call_ensures(check_faces, (faces, model), faces_checked),
    ensures
        scale_checked is Ok <==> scale >= 1,
        texture_checked is Ok <==> width >= 1 && height >= 1,
        faces_checked is Ok <==> faces@.len() >= 1,
{
}

/// A size is told as the width, an `x` and the height.
pub proof fn sizes_are_told_width_first(text: &mut String, width: u32, height: u32, done: ())
    requires
        call_ensures(push_size, (text, width, height), done),
    ensures
        old(text)@.is_prefix_of(final(text)@),
        ({
            let pieces = segments(final(text)@.skip(old(text)@.len() as int), 'x');
            &&& pieces.len() == 2
            &&& number_read(pieces[0]) == width
            &&& number_read(pieces[1]) == height
        }),
{
    reveal_strlit("x");
    let first = decimal(width as nat);
    let second = decimal(height as nat);
    decimal_notation_reads_as_the_number(width as nat, 0);
    decimal_notation_reads_as_the_number(height as nat, 0);
    lemma_digits_only(width as nat);
    lemma_digits_only(height as nat);
    assert(final(text)@.subrange(0, old(text)@.len() as int) =~= old(text)@);
    assert(final(text)@.skip(old(text)@.len() as int) =~= first.push('x') + second);
    lemma_unsplit(first, 'x');
    lemma_unsplit(second, 'x');
    splitting_splits_at_every_separator(first, second, 'x');
}

proof fn lemma_digits_only(n: nat)
    ensures
        !decimal(n).contains('x'),
{
    if decimal(n).contains('x') {
        let i = choose|i: int| 0 <= i < decimal(n).len() && decimal(n)[i] == 'x';
        decimal_notation_reads_as_the_number(n, i);
    }
}

} // verus!
