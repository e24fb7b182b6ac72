//! Neighbour-bordered cutouts of model faces.
use crate::cube::{across, neighbor, side_named, side_of, Edge, Side};
use crate::model::{FaceRect, ModelFace};
use crate::text::{decimal, push_decimal};
use crate::raster::{
    fits, least, lemma_build_at, lemma_build_ext, Raster, Rgba, RgbaImage,
};
use vstd::prelude::*;

verus! {

pub open spec fn clamped(value: int, low: int, high: int) -> int {
    if value < low {
        low
    } else if value > high {
        high
    } else {
        value
    }
}

/// The pixel of a raster nearest to `(x, y)`.
pub open spec fn nearest(source: Raster, x: int, y: int) -> Rgba {
    source.at(clamped(x, 0, source.width - 1), clamped(y, 0, source.height - 1))
}

/// How long a rectangle's edge is, at least one pixel.
pub open spec fn edge_length(rect: FaceRect, edge: Edge) -> int {
    let length = match edge {
        Edge::Top | Edge::Bottom => rect.width as int,
        Edge::Left | Edge::Right => rect.height as int,
    };
    if length < 1 {
        1
    } else {
        length
    }
}

/// How far along a rectangle's edge step `i` of `len` lies: the step is kept
/// on the edge, turned around when the edges run opposite ways, and mapped
/// proportionally onto the rectangle's own length.
pub open spec fn along(rect: FaceRect, edge: Edge, reversed: bool, i: int, len: int) -> int {
    let len = if len < 1 {
        1
    } else {
        len
    };
    let step = clamped(i, 0, len - 1);
    let turned = if reversed {
        len - 1 - step
    } else {
        step
    };
    if len <= 1 {
        0
    } else {
        turned * (edge_length(rect, edge) - 1) / (len - 1)
    }
}

/// The texture position of step `i` of `len` on a rectangle's edge, `depth`
/// pixels into the rectangle but never past its far side.
pub open spec fn edge_point(
    rect: FaceRect,
    edge: Edge,
    reversed: bool,
    i: int,
    len: int,
    depth: int,
) -> (int, int) {
    let p = along(rect, edge, reversed, i, len);
    let dx = least(
        depth,
        if rect.width == 0 {
            0
        } else {
            rect.width - 1
        },
    );
    let dy = least(
        depth,
        if rect.height == 0 {
            0
        } else {
            rect.height - 1
        },
    );
    let last_x = rect.x + rect.width - 1 - dx;
    let last_y = rect.y + rect.height - 1 - dy;
    match edge {
        Edge::Top => (rect.x + p, rect.y + dy),
        Edge::Bottom => (
            rect.x + p,
            if last_y < 0 {
                0
            } else {
                last_y
            },
        ),
        Edge::Left => (rect.x + dx, rect.y + p),
        Edge::Right => (
            if last_x < 0 {
                0
            } else {
                last_x
            },
            rect.y + p,
        ),
    }
}

/// The pixel at a point of a rectangle's edge.
pub open spec fn edge_sample(
    source: Raster,
    rect: FaceRect,
    edge: Edge,
    reversed: bool,
    i: int,
    len: int,
    depth: int,
) -> Rgba {
    let (x, y) = edge_point(rect, edge, reversed, i, len, depth);
    nearest(source, x, y)
}

proof fn lemma_along(rect: FaceRect, edge: Edge, reversed: bool, i: int, len: int)
    ensures
        0 <= along(rect, edge, reversed, i, len) < edge_length(rect, edge),
{
    if len > 1 {
        let step = clamped(i, 0, len - 1);
        let turned = if reversed {
            len - 1 - step
        } else {
            step
        };
        let n = edge_length(rect, edge) - 1;
        assert(0 <= turned * n <= (len - 1) * n) by (nonlinear_arith)
            requires
                0 <= turned <= len - 1,
                0 <= n,
        ;
        let d = len - 1;
        assert(0 <= turned * n / d <= n) by (nonlinear_arith)
            requires
                0 <= turned * n <= d * n,
                0 < d,
                0 <= n,
        ;
    }
}

/// Sampling an edge never leaves the rectangle.
pub proof fn edge_points_stay_inside(
    rect: FaceRect,
    edge: Edge,
    reversed: bool,
    i: int,
    len: int,
    depth: int,
)
    requires
        rect.width > 0,
        rect.height > 0,
        depth >= 0,
    ensures
        ({
            let (x, y) = edge_point(rect, edge, reversed, i, len, depth);
            rect.covers(x, y)
        }),
{
    lemma_along(rect, edge, reversed, i, len);
}

/// The rectangles of one box's faces, by side.
#[derive(Clone, Copy, Debug)]
pub struct FaceGroup {
    pub down: Option<FaceRect>,
    pub up: Option<FaceRect>,
    pub west: Option<FaceRect>,
    pub north: Option<FaceRect>,
    pub east: Option<FaceRect>,
    pub south: Option<FaceRect>,
}

impl FaceGroup {
    pub open spec fn rect(self, side: Side) -> Option<FaceRect> {
        match side {
            Side::Down => self.down,
            Side::Up => self.up,
            Side::West => self.west,
            Side::North => self.north,
            Side::East => self.east,
            Side::South => self.south,
        }
    }

    pub open spec fn with(self, side: Side, rect: FaceRect) -> FaceGroup {
        match side {
            Side::Down => FaceGroup { down: Some(rect), ..self },
            Side::Up => FaceGroup { up: Some(rect), ..self },
            Side::West => FaceGroup { west: Some(rect), ..self },
            Side::North => FaceGroup { north: Some(rect), ..self },
            Side::East => FaceGroup { east: Some(rect), ..self },
            Side::South => FaceGroup { south: Some(rect), ..self },
        }
    }

    /// Every rectangle of the group is representable.
    pub open spec fn ok(self) -> bool {
        forall|side: Side| (#[trigger] self.rect(side)) matches Some(rect) ==> rect.ok()
    }

    /// A group without faces.
    pub fn empty() -> (group: FaceGroup)
        ensures
            group == (FaceGroup {
                down: None,
                up: None,
                west: None,
                north: None,
                east: None,
                south: None,
            }),
    {
        FaceGroup { down: None, up: None, west: None, north: None, east: None, south: None }
    }

    pub fn get(&self, side: Side) -> (rect: Option<FaceRect>)
        ensures
            rect == self.rect(side),
    {
        match side {
            Side::Down => self.down,
            Side::Up => self.up,
            Side::West => self.west,
            Side::North => self.north,
            Side::East => self.east,
            Side::South => self.south,
        }
    }

    /// Records the rectangle of one side.
    pub fn set(&mut self, side: Side, rect: FaceRect)
        ensures
            *final(self) == old(self).with(side, rect),
    {
        match side {
            Side::Down => self.down = Some(rect),
            Side::Up => self.up = Some(rect),
            Side::West => self.west = Some(rect),
            Side::North => self.north = Some(rect),
            Side::East => self.east = Some(rect),
            Side::South => self.south = Some(rect),
        }
    }

    /// The faces of box `group`; of two faces on one side the first counts.
    pub fn first_of(faces: &[ModelFace], group: u32) -> (found: FaceGroup)
        ensures
            found == first_group(faces@, group),
    {
        let mut found = FaceGroup::empty();
        let mut i: usize = 0;
        while i < faces.len()
            invariant
                i <= faces.len(),
                found == first_group(faces@.take(i as int), group),
            decreases faces.len() - i,
        {
            assert(faces@.take(i + 1).drop_last() =~= faces@.take(i as int));
            if faces[i].group == group {
                match side_of(faces[i].face.as_str()) {
                    Some(side) => {
                        if found.get(side).is_none() {
                            found.set(side, faces[i].rect);
                        }
                    },
                    None => {},
                }
            }
            i = i + 1;
        }
        assert(faces@.take(i as int) =~= faces@);
        found
    }

    /// The faces of box `group`; of two faces on one side the last counts.
    pub fn last_of(faces: &[ModelFace], group: u32) -> (found: FaceGroup)
        ensures
            found == last_group(faces@, group),
    {
        let mut found = FaceGroup::empty();
        let mut i: usize = 0;
        while i < faces.len()
            invariant
                i <= faces.len(),
                found == last_group(faces@.take(i as int), group),
            decreases faces.len() - i,
        {
            assert(faces@.take(i + 1).drop_last() =~= faces@.take(i as int));
            if faces[i].group == group {
                match side_of(faces[i].face.as_str()) {
                    Some(side) => {
                        found.set(side, faces[i].rect);
                    },
                    None => {},
                }
            }
            i = i + 1;
        }
        assert(faces@.take(i as int) =~= faces@);
        found
    }
}

/// The rectangle of the first face of box `group` on `side`.
pub open spec fn first_rect(faces: Seq<ModelFace>, group: u32, side: Side) -> Option<FaceRect>
    decreases faces.len(),
{
    if faces.len() == 0 {
        None
    } else {
        match first_rect(faces.drop_last(), group, side) {
            Some(rect) => Some(rect),
            None => if faces.last().group == group && side_named(faces.last().face@) == Some(side) {
                Some(faces.last().rect)
            } else {
                None
            },
        }
    }
}

/// The faces of box `group`; of two faces on one side the first counts.
pub open spec fn first_group(faces: Seq<ModelFace>, group: u32) -> FaceGroup {
    FaceGroup {
        down: first_rect(faces, group, Side::Down),
        up: first_rect(faces, group, Side::Up),
        west: first_rect(faces, group, Side::West),
        north: first_rect(faces, group, Side::North),
        east: first_rect(faces, group, Side::East),
        south: first_rect(faces, group, Side::South),
    }
}

/// The faces of box `group`; of two faces on one side the last counts.
pub open spec fn last_group(faces: Seq<ModelFace>, group: u32) -> FaceGroup {
    FaceGroup {
        down: last_rect(faces, group, Side::Down),
        up: last_rect(faces, group, Side::Up),
        west: last_rect(faces, group, Side::West),
        north: last_rect(faces, group, Side::North),
        east: last_rect(faces, group, Side::East),
        south: last_rect(faces, group, Side::South),
    }
}

/// The rectangle of the last face of box `group` on `side`.
pub open spec fn last_rect(faces: Seq<ModelFace>, group: u32, side: Side) -> Option<FaceRect>
    decreases faces.len(),
{
    if faces.len() == 0 {
        None
    } else if faces.last().group == group && side_named(faces.last().face@) == Some(side) {
        Some(faces.last().rect)
    } else {
        last_rect(faces.drop_last(), group, side)
    }
}

fn sample_clamped(image: &RgbaImage, x: u32, y: u32) -> (pixel: Rgba)
    requires
        image@.width > 0,
        image@.height > 0,
    ensures
        pixel == nearest(image@, x as int, y as int),
{
    let (width, height) = image.dimensions();
    let x: u32 = if x > width - 1 { width - 1 } else { x };
    let y: u32 = if y > height - 1 { height - 1 } else { y };
    image.get_pixel(x, y)
}

/// Samples `rect`'s `edge` at step `i` of an edge that is `len` long on the
/// asking face, `depth` pixels into the rectangle.
pub fn sample_edge(
    image: &RgbaImage,
    rect: &FaceRect,
    edge: Edge,
    reversed: bool,
    i: i32,
    len: u32,
    depth: u32,
) -> (pixel: Rgba)
    requires
        image@.width > 0,
        image@.height > 0,
        rect.ok(),
        len <= i32::MAX,
    ensures
        pixel == edge_sample(image@, *rect, edge, reversed, i as int, len as int, depth as int),
{
    let length: u32 = if len < 1 { 1 } else { len };
    let step: u32 = if i < 0 {
        0
    } else if i as u32 > length - 1 {
        length - 1
    } else {
        i as u32
    };
    let turned: u32 = if reversed { length - 1 - step } else { step };
    let own: u32 = match edge {
        Edge::Top | Edge::Bottom => if rect.width < 1 { 1 } else { rect.width },
        Edge::Left | Edge::Right => if rect.height < 1 { 1 } else { rect.height },
    };
    proof {
        lemma_along(*rect, edge, reversed, i as int, len as int);
    }
    let p: u32 = if length <= 1 {
        0
    } else {
        assert(turned * (own - 1) <= 0xffff_ffff * 0xffff_ffff) by (nonlinear_arith)
            requires
                0 <= turned <= 0xffff_ffff,
                0 <= own - 1 <= 0xffff_ffff,
        ;
        let scaled: u64 = turned as u64 * (own - 1) as u64;
        (scaled / (length - 1) as u64) as u32
    };
    assert(p == along(*rect, edge, reversed, i as int, len as int));
    let max_x: u32 = if rect.width == 0 { 0 } else { rect.width - 1 };
    let max_y: u32 = if rect.height == 0 { 0 } else { rect.height - 1 };
    let dx: u32 = if depth <= max_x { depth } else { max_x };
    let dy: u32 = if depth <= max_y { depth } else { max_y };
    match edge {
        Edge::Top => sample_clamped(image, rect.x + p, rect.y + dy),
        Edge::Bottom => {
            let bottom: u32 = rect.bottom();
            let y: u32 = if bottom < 1 + dy { 0 } else { bottom - (1 + dy) };
            sample_clamped(image, rect.x + p, y)
        },
        Edge::Left => sample_clamped(image, rect.x + dx, rect.y + p),
        Edge::Right => {
            let right: u32 = rect.right();
            let x: u32 = if right < 1 + dx { 0 } else { right - (1 + dx) };
            sample_clamped(image, x, rect.y + p)
        },
    }
}

/// The neighbour's pixel across an edge; `None` when the face has no side or
/// the neighbouring face is absent.
pub open spec fn neighbor_sample(
    source: Raster,
    side: Option<Side>,
    group: FaceGroup,
    edge: Edge,
    i: int,
    len: int,
    depth: int,
) -> Option<Rgba> {
    match side {
        None => None,
        Some(side) => {
            let (other, back, reversed) = across(side, edge);
            match group.rect(other) {
                None => None,
                Some(rect) => Some(edge_sample(source, rect, back, reversed, i, len, depth)),
            }
        },
    }
}

/// Samples the face across an edge, if it is there.
pub fn neighbor_or_wrap(
    source: &RgbaImage,
    side: Option<Side>,
    group: &FaceGroup,
    edge: Edge,
    i: i32,
    len: u32,
    depth: u32,
) -> (sample: Option<Rgba>)
    requires
        source@.width > 0,
        source@.height > 0,
        group.ok(),
        len <= i32::MAX,
    ensures
        sample == neighbor_sample(
            source@,
            side,
            *group,
            edge,
            i as int,
            len as int,
            depth as int,
        ),
{
    match side {
        None => None,
        Some(side) => {
            let (other, back, reversed) = neighbor(side, edge);
            match group.get(other) {
                None => None,
                Some(rect) => Some(sample_edge(source, &rect, back, reversed, i, len, depth)),
            }
        },
    }
}

/// A corner of a tile's border.
#[derive(Clone, Copy, Debug, PartialEq, Eq, Structural)]
pub enum Corner {
    TopLeft,
    TopRight,
    BottomLeft,
    BottomRight,
}

/// The horizontal edge that a corner continues.
pub open spec fn primary_edge(corner: Corner) -> Edge {
    match corner {
        Corner::TopLeft | Corner::TopRight => Edge::Top,
        Corner::BottomLeft | Corner::BottomRight => Edge::Bottom,
    }
}

/// The vertical edge that a corner continues.
pub open spec fn secondary_edge(corner: Corner) -> Edge {
    match corner {
        Corner::TopLeft | Corner::BottomLeft => Edge::Left,
        Corner::TopRight | Corner::BottomRight => Edge::Right,
    }
}

/// The step of the vertical edge at which a corner sits.
pub open spec fn secondary_step(corner: Corner, height: int) -> int {
    match corner {
        Corner::TopLeft | Corner::TopRight => 0,
        Corner::BottomLeft | Corner::BottomRight => if height < 1 {
            0
        } else {
            height - 1
        },
    }
}

pub open spec fn at_least_one(n: int) -> int {
    if n < 1 {
        1
    } else {
        n
    }
}

/// A corner's pixel: from the face across the horizontal edge, or else from
/// the one across the vertical edge.
pub open spec fn corner_sample(
    source: Raster,
    rect: FaceRect,
    side: Option<Side>,
    group: FaceGroup,
    corner: Corner,
    i: int,
    depth: int,
) -> Option<Rgba> {
    match neighbor_sample(
        source,
        side,
        group,
        primary_edge(corner),
        i,
        at_least_one(rect.width as int),
        depth,
    ) {
        Some(sample) => Some(sample),
        None => neighbor_sample(
            source,
            side,
            group,
            secondary_edge(corner),
            secondary_step(corner, rect.height as int),
            at_least_one(rect.height as int),
            depth,
        ),
    }
}

/// Samples a border corner.
pub fn corner_pixel(
    source: &RgbaImage,
    rect: &FaceRect,
    side: Option<Side>,
    group: &FaceGroup,
    corner: Corner,
    i: i32,
    depth: u32,
) -> (sample: Option<Rgba>)
    requires
        source@.width > 0,
        source@.height > 0,
        group.ok(),
        rect.width <= i32::MAX,
        rect.height <= i32::MAX,
    ensures
        sample == corner_sample(
            source@,
            *rect,
            side,
            *group,
            corner,
            i as int,
            depth as int,
        ),
{
    let primary = match corner {
        Corner::TopLeft | Corner::TopRight => Edge::Top,
        Corner::BottomLeft | Corner::BottomRight => Edge::Bottom,
    };
    let width: u32 = if rect.width < 1 { 1 } else { rect.width };
    match neighbor_or_wrap(source, side, group, primary, i, width, depth) {
        Some(sample) => Some(sample),
        None => {
            let last: i32 = if rect.height < 1 { 0 } else { (rect.height - 1) as i32 };
            let height: u32 = if rect.height < 1 { 1 } else { rect.height };
            let (secondary, step) = match corner {
                Corner::TopLeft => (Edge::Left, 0i32),
                Corner::TopRight => (Edge::Right, 0i32),
                Corner::BottomLeft => (Edge::Left, last),
                Corner::BottomRight => (Edge::Right, last),
            };
            neighbor_or_wrap(source, side, group, secondary, step, height, depth)
        },
    }
}

/// A border pixel with its alpha raised to that of the face edge it frames; a
/// fully transparent one takes the edge's colour too.
pub open spec fn floored(sample: Rgba, edge: Rgba) -> Rgba {
    if sample.a >= edge.a {
        sample
    } else if sample.a == 0 {
        edge
    } else {
        Rgba { r: sample.r, g: sample.g, b: sample.b, a: edge.a }
    }
}

/// Raises a neighbour sample's alpha to that of the face edge it frames.
pub fn floor_border_alpha(sample: Rgba, edge: Rgba) -> (pixel: Rgba)
    ensures
        pixel == floored(sample, edge),
        pixel.a >= edge.a,
        pixel.a >= sample.a,
{
    if sample.a >= edge.a {
        return sample;
    }
    if sample.a == 0 {
        return edge;
    }
    Rgba { r: sample.r, g: sample.g, b: sample.b, a: edge.a }
}

/// A pixel of the border: the neighbour's, floored by the face's own edge, or
/// fully transparent when there is no neighbour.
pub open spec fn framed(sample: Option<Rgba>, edge: Rgba) -> Rgba {
    match sample {
        Some(sample) => floored(sample, edge),
        None => Rgba::clear_spec(),
    }
}

/// `(x, y)` of a bordered tile lies on the face itself.
pub open spec fn in_face(rect: FaceRect, border: int, x: int, y: int) -> bool {
    border <= x < border + rect.width && border <= y < border + rect.height
}

/// `(x, y)` of a bordered tile lies beside the face, but in no corner.
pub open spec fn in_strip(rect: FaceRect, border: int, x: int, y: int) -> bool {
    &&& border <= x < border + rect.width || border <= y < border + rect.height
    &&& !in_face(rect, border, x, y)
}

/// The face edge that a strip lies along.
pub open spec fn strip_edge(rect: FaceRect, border: int, x: int, y: int) -> Edge {
    if border <= x < border + rect.width {
        if y < border {
            Edge::Top
        } else {
            Edge::Bottom
        }
    } else {
        if x < border {
            Edge::Left
        } else {
            Edge::Right
        }
    }
}

/// The corner of the border that `(x, y)` lies in.
pub open spec fn corner_of(border: int, x: int, y: int) -> Corner {
    if y < border {
        if x < border {
            Corner::TopLeft
        } else {
            Corner::TopRight
        }
    } else {
        if x < border {
            Corner::BottomLeft
        } else {
            Corner::BottomRight
        }
    }
}

/// How far outside the face `v` lies along an axis of length `length`.
pub open spec fn outside(border: int, length: int, v: int) -> int {
    if v < border {
        border - 1 - v
    } else {
        v - border - length
    }
}

/// What the neighbouring faces give for a border pixel.
pub open spec fn border_sample(
    source: Raster,
    rect: FaceRect,
    side: Option<Side>,
    group: FaceGroup,
    border: int,
    x: int,
    y: int,
) -> Option<Rgba> {
    let w = rect.width as int;
    let h = rect.height as int;
    if in_strip(rect, border, x, y) {
        let edge = strip_edge(rect, border, x, y);
        match edge {
            Edge::Top | Edge::Bottom => neighbor_sample(
                source,
                side,
                group,
                edge,
                x - border,
                w,
                outside(border, h, y),
            ),
            Edge::Left | Edge::Right => neighbor_sample(
                source,
                side,
                group,
                edge,
                y - border,
                h,
                outside(border, w, x),
            ),
        }
    } else {
        corner_sample(
            source,
            rect,
            side,
            group,
            corner_of(border, x, y),
            x - border,
            outside(border, h, y),
        )
    }
}

/// The pixel of the face's own edge that a border pixel frames.
pub open spec fn framed_edge(source: Raster, rect: FaceRect, border: int, x: int, y: int) -> Rgba {
    let w = rect.width as int;
    let h = rect.height as int;
    if in_strip(rect, border, x, y) {
        let edge = strip_edge(rect, border, x, y);
        match edge {
            Edge::Top | Edge::Bottom => edge_sample(source, rect, edge, false, x - border, w, 0),
            Edge::Left | Edge::Right => edge_sample(source, rect, edge, false, y - border, h, 0),
        }
    } else {
        let edge = primary_edge(corner_of(border, x, y));
        edge_sample(source, rect, edge, false, x - border, at_least_one(w), 0)
    }
}

/// The pixel of a bordered tile in column `x` of row `y`: the face itself
/// inside, and around it `border` pixels of what lies across its edges.
pub open spec fn padded_at(
    source: Raster,
    rect: FaceRect,
    side: Option<Side>,
    group: FaceGroup,
    border: int,
    x: int,
    y: int,
) -> Rgba {
    if in_face(rect, border, x, y) {
        nearest(source, rect.x + x - border, rect.y + y - border)
    } else {
        framed(
            border_sample(source, rect, side, group, border, x, y),
            framed_edge(source, rect, border, x, y),
        )
    }
}

/// The bordered tile of a face.
pub open spec fn padded_tile(
    source: Raster,
    rect: FaceRect,
    side: Option<Side>,
    group: FaceGroup,
    border: int,
) -> Raster {
    Raster::build(
        rect.width + 2 * border,
        rect.height + 2 * border,
        |x: int, y: int| padded_at(source, rect, side, group, border, x, y),
    )
}

/// A face and its border are small enough for signed 32-bit coordinates and
/// for one allocation.
pub open spec fn paddable(rect: FaceRect, border: int) -> bool {
    &&& rect.ok()
    &&& 1 <= border <= i32::MAX
    &&& rect.width <= i32::MAX
    &&& rect.height <= i32::MAX
    &&& rect.width + border - 1 <= i32::MAX
    &&& rect.height + border - 1 <= i32::MAX
    &&& fits(rect.width + 2 * border, rect.height + 2 * border)
}

fn frame(sample: Option<Rgba>, edge: Rgba) -> (pixel: Rgba)
    ensures
        pixel == framed(sample, edge),
{
    match sample {
        Some(sample) => floor_border_alpha(sample, edge),
        None => Rgba::clear(),
    }
}

/// The face-edge pixel that a border corner continues.
fn corner_face_edge(source: &RgbaImage, rect: &FaceRect, corner: Corner, i: i32) -> (pixel: Rgba)
    requires
        source@.width > 0,
        source@.height > 0,
        rect.ok(),
        rect.width <= i32::MAX,
    ensures
        pixel == edge_sample(
            source@,
            *rect,
            primary_edge(corner),
            false,
            i as int,
            at_least_one(rect.width as int),
            0,
        ),
{
    let edge = match corner {
        Corner::TopLeft | Corner::TopRight => Edge::Top,
        Corner::BottomLeft | Corner::BottomRight => Edge::Bottom,
    };
    let len: u32 = if rect.width < 1 { 1 } else { rect.width };
    sample_edge(source, rect, edge, false, i, len, 0)
}

/// One pixel of a bordered tile.
fn padded_pixel(
    source: &RgbaImage,
    rect: &FaceRect,
    side: Option<Side>,
    group: &FaceGroup,
    border: u32,
    x: u32,
    y: u32,
) -> (pixel: Rgba)
    requires
        source@.width > 0,
        source@.height > 0,
        paddable(*rect, border as int),
        group.ok(),
        x < rect.width + 2 * border,
        y < rect.height + 2 * border,
    ensures
        pixel == padded_at(source@, *rect, side, *group, border as int, x as int, y as int),
{
    let w: u32 = rect.width;
    let h: u32 = rect.height;
    let in_column: bool = border <= x && x - border < w;
    let in_row: bool = border <= y && y - border < h;
    if in_column && in_row {
        return sample_clamped(source, rect.x + (x - border), rect.y + (y - border));
    }
    let i: i32 = if x < border { -((border - x) as i32) } else { (x - border) as i32 };
    let j: i32 = if y < border { -((border - y) as i32) } else { (y - border) as i32 };
    if in_column {
        let (edge, depth) = if y < border {
            (Edge::Top, border - 1 - y)
        } else {
            (Edge::Bottom, y - border - h)
        };
        let sample = neighbor_or_wrap(source, side, group, edge, i, w, depth);
        frame(sample, sample_edge(source, rect, edge, false, i, w, 0))
    } else if in_row {
        let (edge, depth) = if x < border {
            (Edge::Left, border - 1 - x)
        } else {
            (Edge::Right, x - border - w)
        };
        let sample = neighbor_or_wrap(source, side, group, edge, j, h, depth);
        frame(sample, sample_edge(source, rect, edge, false, j, h, 0))
    } else {
        let (corner, depth) = if y < border {
            if x < border {
                (Corner::TopLeft, border - 1 - y)
            } else {
                (Corner::TopRight, border - 1 - y)
            }
        } else {
            if x < border {
                (Corner::BottomLeft, y - border - h)
            } else {
                (Corner::BottomRight, y - border - h)
            }
        };
        let sample = corner_pixel(source, rect, side, group, corner, i, depth);
        frame(sample, corner_face_edge(source, rect, corner, i))
    }
}

/// The face of `rect` with a ring of `border` pixels (at least one) around it,
/// taken from the faces of `group` that meet it.
pub fn build_padded_tile(
    source: &RgbaImage,
    face: &ModelFace,
    group: &FaceGroup,
    border: u32,
) -> (tile: RgbaImage)
    requires
        source@.width > 0,
        source@.height > 0,
        paddable(face.rect, at_least_one(border as int)),
        group.ok(),
    ensures
        tile@ == padded_tile(
            source@,
            face.rect,
            side_named(face.face@),
            *group,
            at_least_one(border as int),
        ),
        tile@.wf(),
{
    let side = side_of(face.face.as_str());
    let rect: FaceRect = face.rect;
    let b: u32 = if border < 1 { 1 } else { border };
    let width: u32 = rect.width + 2 * b;
    let height: u32 = rect.height + 2 * b;
    let ghost f = |x: int, y: int| padded_at(source@, rect, side, *group, b as int, x, y);
    let pixel_at = |x: u32, y: u32| -> (pixel: Rgba)
        requires
            x < width,
            y < height,
        ensures
            pixel == padded_at(source@, rect, side, *group, b as int, x as int, y as int),
    {
        padded_pixel(source, &rect, side, group, b, x, y)
    };
    let tile = RgbaImage::from_fn(width, height, pixel_at);
    proof {
        lemma_build_ext(tile@, f);
    }
    tile
}

/// Why a face cannot be cut out, or `None` when it can.
pub open spec fn border_refusal(faces: Seq<ModelFace>, index: int, border: int) -> Option<
    Seq<char>,
> {
    if index >= faces.len() {
        Some("face index "@ + decimal(index as nat) + " out of range"@)
    } else if faces[index].rect.width == 0 || faces[index].rect.height == 0 {
        Some("cannot border a zero-size face"@)
    } else if border == 0 {
        Some("border must be at least 1"@)
    } else {
        None
    }
}

/// Cuts out `faces[index]` with a ring of `border` pixels around it, taken
/// from the faces of the same box that meet it and transparent where there is
/// none.
pub fn face_border_tile(
    source: &RgbaImage,
    faces: &[ModelFace],
    index: usize,
    border: u32,
) -> (tile: Result<RgbaImage, String>)
    requires
        border_refusal(faces@, index as int, border as int) is None ==> {
            &&& source@.width > 0
            &&& source@.height > 0
            &&& paddable(faces@[index as int].rect, border as int)
            &&& last_group(faces@, faces@[index as int].group).ok()
        },
    ensures
        match border_refusal(faces@, index as int, border as int) {
            Some(message) => tile matches Err(e) && e@ == message,
            None => tile matches Ok(tile) && {
                &&& tile@ == padded_tile(
                    source@,
                    faces@[index as int].rect,
                    side_named(faces@[index as int].face@),
                    last_group(faces@, faces@[index as int].group),
                    border as int,
                )
                &&& tile@.wf()
            },
        },
{
    if index >= faces.len() {
        let mut message = "face index ".to_owned();
        push_decimal(&mut message, index as u64);
        message.append(" out of range");
        return Err(message);
    }
    let face = &faces[index];
    if face.rect.width == 0 || face.rect.height == 0 {
        return Err("cannot border a zero-size face".to_owned());
    }
    if border == 0 {
        return Err("border must be at least 1".to_owned());
    }
    let group = FaceGroup::last_of(faces, face.group);
    Ok(build_padded_tile(source, face, &group, border))
}

/// Inside its border a tile shows the face's own pixels.
pub proof fn tile_interior_is_the_face(
    source: Raster,
    rect: FaceRect,
    side: Option<Side>,
    group: FaceGroup,
    border: int,
    i: int,
    j: int,
)
    requires
        border >= 1,
        0 <= i < rect.width,
        0 <= j < rect.height,
    ensures
        padded_tile(source, rect, side, group, border).at(border + i, border + j) == nearest(
            source,
            rect.x + i,
            rect.y + j,
        ),
{
    lemma_build_at(
        rect.width + 2 * border,
        rect.height + 2 * border,
        |x: int, y: int| padded_at(source, rect, side, group, border, x, y),
        border + i,
        border + j,
    );
}

/// Where no face of the box lies across an edge, the border along it is fully
/// transparent: neither the texture beyond the face nor its opposite edge
/// shows through.
pub proof fn missing_neighbors_stay_clear(
    source: Raster,
    rect: FaceRect,
    side: Option<Side>,
    group: FaceGroup,
    border: int,
    x: int,
    y: int,
)
    requires
        border >= 1,
        0 <= x < rect.width + 2 * border,
        0 <= y < rect.height + 2 * border,
        in_strip(rect, border, x, y),
        side matches Some(own) ==> group.rect(across(own, strip_edge(rect, border, x, y)).0) is None,
    ensures
        padded_tile(source, rect, side, group, border).at(x, y) == Rgba::clear_spec(),
{
    lemma_build_at(
        rect.width + 2 * border,
        rect.height + 2 * border,
        |x: int, y: int| padded_at(source, rect, side, group, border, x, y),
        x,
        y,
    );
}

/// A border pixel that comes from a neighbour is never more transparent than
/// the face edge that it frames, nor than the neighbour.
pub proof fn border_alpha_covers_the_edge(
    source: Raster,
    rect: FaceRect,
    side: Option<Side>,
    group: FaceGroup,
    border: int,
    x: int,
    y: int,
)
    requires
        border >= 1,
        0 <= x < rect.width + 2 * border,
        0 <= y < rect.height + 2 * border,
        !in_face(rect, border, x, y),
        border_sample(source, rect, side, group, border, x, y) is Some,
    ensures
        padded_tile(source, rect, side, group, border).at(x, y).a >= framed_edge(
            source,
            rect,
            border,
            x,
            y,
        ).a,
        padded_tile(source, rect, side, group, border).at(x, y).a >= border_sample(
            source,
            rect,
            side,
            group,
            border,
            x,
            y,
        )->0.a,
{
    lemma_build_at(
        rect.width + 2 * border,
        rect.height + 2 * border,
        |x: int, y: int| padded_at(source, rect, side, group, border, x, y),
        x,
        y,
    );
}

/// The faces of one box, in order.
pub open spec fn of_box(faces: Seq<ModelFace>, group: u32) -> Seq<ModelFace> {
    faces.filter(|face: ModelFace| face.group == group)
}

/// A box is made of its own faces: those of other boxes, wherever they stand,
/// change nothing about it.
pub proof fn neighbors_come_from_the_same_box(faces: Seq<ModelFace>, group: u32)
    ensures
        first_group(of_box(faces, group), group) == first_group(faces, group),
        last_group(of_box(faces, group), group) == last_group(faces, group),
{
    lemma_box_rects(faces, group, Side::Down);
    lemma_box_rects(faces, group, Side::Up);
    lemma_box_rects(faces, group, Side::West);
    lemma_box_rects(faces, group, Side::North);
    lemma_box_rects(faces, group, Side::East);
    lemma_box_rects(faces, group, Side::South);
}

proof fn lemma_box_rects(faces: Seq<ModelFace>, group: u32, side: Side)
    ensures
        first_rect(of_box(faces, group), group, side) == first_rect(faces, group, side),
        last_rect(of_box(faces, group), group, side) == last_rect(faces, group, side),
    decreases faces.len(),
{
    reveal(Seq::filter);
    if faces.len() > 0 {
        lemma_box_rects(faces.drop_last(), group, side);
        let before = of_box(faces.drop_last(), group);
        if faces.last().group == group {
            assert(of_box(faces, group).drop_last() =~= before);
        }
    }
}

/// Inside a raster the nearest pixel is the one asked for; beyond its edges it is
/// that of the edge.
pub proof fn the_nearest_pixel_is_inside(source: Raster, x: int, y: int)
    requires
        source.width > 0,
        source.height > 0,
    ensures
        source.has(x, y) ==> nearest(source, x, y) == source.at(x, y),
        x >= source.width ==> nearest(source, x, y) == nearest(source, source.width - 1, y),
        y >= source.height ==> nearest(source, x, y) == nearest(source, x, source.height - 1),
        x < 0 ==> nearest(source, x, y) == nearest(source, 0, y),
        y < 0 ==> nearest(source, x, y) == nearest(source, x, 0),
{
}

/// An edge is sampled on its own line, or as many pixels further in as the depth
/// says, but not past the far side.
pub proof fn depth_leads_into_the_face(
    rect: FaceRect,
    edge: Edge,
    reversed: bool,
    i: int,
    len: int,
    depth: int,
)
    requires
        rect.width > 0,
        rect.height > 0,
        depth >= 0,
    ensures
        ({
            let (x, y) = edge_point(rect, edge, reversed, i, len, depth);
            match edge {
                Edge::Top => y == rect.y + depth || (depth >= rect.height && y == rect.y
                    + rect.height - 1),
                Edge::Bottom => y == rect.y + rect.height - 1 - depth || (depth >= rect.height && y
                    == rect.y),
                Edge::Left => x == rect.x + depth || (depth >= rect.width && x == rect.x
                    + rect.width - 1),
                Edge::Right => x == rect.x + rect.width - 1 - depth || (depth >= rect.width && x
                    == rect.x),
            }
        }),
{
}

/// Along an edge of the asking edge's own length the steps go pixel by pixel,
/// from the other end where the edges run opposite ways; along any other they go
/// from end to end.
pub proof fn steps_lead_along_the_edge(
    rect: FaceRect,
    edge: Edge,
    reversed: bool,
    i: int,
    len: int,
    depth: int,
)
    requires
        rect.width > 0,
        rect.height > 0,
        0 <= i < len,
    ensures
        ({
            let (x, y) = edge_point(rect, edge, reversed, i, len, depth);
            let own: int = match edge {
                Edge::Top | Edge::Bottom => rect.width as int,
                Edge::Left | Edge::Right => rect.height as int,
            };
            let gone = match edge {
                Edge::Top | Edge::Bottom => x - rect.x,
                Edge::Left | Edge::Right => y - rect.y,
            };
            &&& own == len ==> gone == (if reversed {
                len - 1 - i
            } else {
                i
            })
            &&& len > 1 && i == 0 ==> gone == (if reversed {
                own - 1
            } else {
                0
            })
            &&& len > 1 && i == len - 1 ==> gone == (if reversed {
                0
            } else {
                own - 1
            })
        }),
{
    let own: int = match edge {
        Edge::Top | Edge::Bottom => rect.width as int,
        Edge::Left | Edge::Right => rect.height as int,
    };
    if len > 1 {
        let d = len - 1;
        let turned = if reversed {
            len - 1 - i
        } else {
            i
        };
        if own == len {
            assert(turned * d / d == turned) by (nonlinear_arith)
                requires
                    d > 0,
            ;
        }
        let n = own - 1;
        assert(0 * n / d == 0) by (nonlinear_arith)
            requires
                d > 0,
        ;
        assert(d * n / d == n) by (nonlinear_arith)
            requires
                d > 0,
        ;
    }
}

/// A sampled pixel is one of the rectangle's own, where the rectangle lies in the
/// texture.
pub proof fn samples_are_pixels_of_the_face(
    image: RgbaImage,
    rect: FaceRect,
    edge: Edge,
    reversed: bool,
    i: i32,
    len: u32,
    depth: u32,
    pixel: Rgba,
)
    requires
        call_ensures(sample_edge, (&image, &rect, edge, reversed, i, len, depth), pixel),
        rect.width > 0,
        rect.height > 0,
        rect.x + rect.width <= image@.width,
        rect.y + rect.height <= image@.height,
    ensures
        ({
            let (x, y) = edge_point(rect, edge, reversed, i as int, len as int, depth as int);
            rect.covers(x, y) && pixel == image@.at(x, y)
        }),
{
    edge_points_stay_inside(rect, edge, reversed, i as int, len as int, depth as int);
}

/// The face of a box on a side: the first or the last that the list has, and none
/// just where it has none.
pub proof fn boxes_have_a_face_per_side(
    faces: &[ModelFace],
    group: u32,
    side: Side,
    first: FaceGroup,
    last: FaceGroup,
    i: int,
)
    requires
        call_ensures(FaceGroup::first_of, (faces, group), first),
        call_ensures(FaceGroup::last_of, (faces, group), last),
        0 <= i < faces@.len(),
        faces@[i].group == group,
        side_named(faces@[i].face@) == Some(side),
    ensures
        first.rect(side) is Some,
        last.rect(side) is Some,
        (forall|k: int|
            0 <= k < i ==> !((#[trigger] faces@[k]).group == group && side_named(faces@[k].face@)
                == Some(side))) ==> first.rect(side) == Some(faces@[i].rect),
        (forall|k: int|
            i < k < faces@.len() ==> !((#[trigger] faces@[k]).group == group && side_named(
                faces@[k].face@,
            ) == Some(side))) ==> last.rect(side) == Some(faces@[i].rect),
{
    lemma_rect_found(faces@, group, side, i);
}

proof fn lemma_rect_found(faces: Seq<ModelFace>, group: u32, side: Side, i: int)
    requires
        0 <= i < faces.len(),
        faces[i].group == group,
        side_named(faces[i].face@) == Some(side),
    ensures
        first_rect(faces, group, side) is Some,
        last_rect(faces, group, side) is Some,
        (forall|k: int|
            0 <= k < i ==> !((#[trigger] faces[k]).group == group && side_named(faces[k].face@)
                == Some(side))) ==> first_rect(faces, group, side) == Some(faces[i].rect),
        (forall|k: int|
            i < k < faces.len() ==> !((#[trigger] faces[k]).group == group && side_named(
                faces[k].face@,
            ) == Some(side))) ==> last_rect(faces, group, side) == Some(faces[i].rect),
    decreases faces.len(),
{
    let before = faces.drop_last();
    let end = faces.len() - 1;
    if i < end {
        assert(before[i] == faces[i]);
        lemma_rect_found(before, group, side, i);
        if forall|k: int|
            0 <= k < i ==> !((#[trigger] faces[k]).group == group && side_named(faces[k].face@)
                == Some(side)) {
            assert forall|k: int| 0 <= k < i implies !((#[trigger] before[k]).group == group
                && side_named(before[k].face@) == Some(side)) by {
                assert(before[k] == faces[k]);
            }
        }
        if forall|k: int|
            i < k < faces.len() ==> !((#[trigger] faces[k]).group == group && side_named(
                faces[k].face@,
            ) == Some(side)) {
            assert(!(faces[end].group == group && side_named(faces[end].face@) == Some(side)));
            assert forall|k: int| i < k < before.len() implies !((#[trigger] before[k]).group
                == group && side_named(before[k].face@) == Some(side)) by {
                assert(before[k] == faces[k]);
            }
        }
    } else {
        if forall|k: int|
            0 <= k < i ==> !((#[trigger] faces[k]).group == group && side_named(faces[k].face@)
                == Some(side)) {
            assert forall|k: int| 0 <= k < before.len() implies !((#[trigger] before[k]).group
                == group && side_named(before[k].face@) == Some(side)) by {
                assert(before[k] == faces[k]);
            }
            lemma_rect_missing(before, group, side);
        }
    }
}

proof fn lemma_rect_missing(faces: Seq<ModelFace>, group: u32, side: Side)
    requires
        forall|k: int|
            0 <= k < faces.len() ==> !((#[trigger] faces[k]).group == group && side_named(
                faces[k].face@,
            ) == Some(side)),
    ensures
        first_rect(faces, group, side) is None,
        last_rect(faces, group, side) is None,
    decreases faces.len(),
{
    if faces.len() > 0 {
        let before = faces.drop_last();
        assert(!(faces[faces.len() - 1].group == group && side_named(faces[faces.len() - 1].face@)
            == Some(side)));
        assert forall|k: int| 0 <= k < before.len() implies !((#[trigger] before[k]).group == group
            && side_named(before[k].face@) == Some(side)) by {
            assert(before[k] == faces[k]);
        }
        lemma_rect_missing(before, group, side);
    }
}

/// A side on which the list has no face of the box is empty.
pub proof fn missing_sides_are_empty(
    faces: &[ModelFace],
    group: u32,
    side: Side,
    first: FaceGroup,
    last: FaceGroup,
)
    requires
        call_ensures(FaceGroup::first_of, (faces, group), first),
        call_ensures(FaceGroup::last_of, (faces, group), last),
        forall|k: int|
            0 <= k < faces@.len() ==> !((#[trigger] faces@[k]).group == group && side_named(
                faces@[k].face@,
            ) == Some(side)),
    ensures
        first.rect(side) is None,
        last.rect(side) is None,
{
    lemma_rect_missing(faces@, group, side);
}

/// A tile is the face with the border around it on all sides, at least one pixel
/// wide, and the face's own pixels inside.
pub proof fn tiles_are_faces_with_a_border(
    source: RgbaImage,
    face: ModelFace,
    group: FaceGroup,
    border: u32,
    tile: RgbaImage,
    i: int,
    j: int,
)
    requires
        call_ensures(build_padded_tile, (&source, &face, &group, border), tile),
        0 <= i < face.rect.width,
        0 <= j < face.rect.height,
        face.rect.x + face.rect.width <= source@.width,
        face.rect.y + face.rect.height <= source@.height,
    ensures
        ({
            let b = if border < 1 {
                1int
            } else {
                border as int
            };
            &&& tile@.width == face.rect.width + 2 * b
            &&& tile@.height == face.rect.height + 2 * b
            &&& tile@.at(b + i, b + j) == source@.at(face.rect.x + i, face.rect.y + j)
        }),
{
    tile_interior_is_the_face(
        source@,
        face.rect,
        side_named(face.face@),
        group,
        at_least_one(border as int),
        i,
        j,
    );
}

/// The pixel of a tile that lies `depth` pixels outside an edge of the face, at
/// step `i` of that edge.
pub open spec fn beside(rect: FaceRect, edge: Edge, border: int, i: int, depth: int) -> (int, int) {
    match edge {
        Edge::Top => (border + i, border - 1 - depth),
        Edge::Bottom => (border + i, border + rect.height + depth),
        Edge::Left => (border - 1 - depth, border + i),
        Edge::Right => (border + rect.width + depth, border + i),
    }
}

/// The pixel of a face at step `i` of an edge.
pub open spec fn on_edge(rect: FaceRect, edge: Edge, i: int) -> (int, int) {
    match edge {
        Edge::Top => (rect.x + i, rect.y as int),
        Edge::Bottom => (rect.x + i, rect.y + rect.height - 1),
        Edge::Left => (rect.x as int, rect.y + i),
        Edge::Right => (rect.x + rect.width - 1, rect.y + i),
    }
}

/// Outside an edge a tile goes on with the face that joins it there: at the same
/// step, as deep into the neighbour as the pixel lies outside, and with at least
/// the opacity of the face's own edge.
pub proof fn borders_go_on_with_the_neighbor(
    source: RgbaImage,
    face: ModelFace,
    group: FaceGroup,
    border: u32,
    tile: RgbaImage,
    side: Side,
    edge: Edge,
    joined: (Side, Edge, bool),
    i: int,
    depth: int,
)
    requires
        call_ensures(build_padded_tile, (&source, &face, &group, border), tile),
        call_ensures(neighbor, (side, edge), joined),
        side_named(face.face@) == Some(side),
        group.rect(joined.0) is Some,
        border >= 1,
        0 <= depth < border,
        source@.width > 0,
        source@.height > 0,
        face.rect.x + face.rect.width <= source@.width,
        face.rect.y + face.rect.height <= source@.height,
        0 <= i < match edge {
            Edge::Top | Edge::Bottom => face.rect.width,
            Edge::Left | Edge::Right => face.rect.height,
        },
        face.rect.width > 0,
        face.rect.height > 0,
    ensures
        ({
            let rect = face.rect;
            let length: int = match edge {
                Edge::Top | Edge::Bottom => rect.width as int,
                Edge::Left | Edge::Right => rect.height as int,
            };
            let (x, y) = beside(rect, edge, border as int, i, depth);
            let (nx, ny) = edge_point(
                group.rect(joined.0)->0,
                joined.1,
                joined.2,
                i,
                length,
                depth,
            );
            let (ex, ey) = on_edge(rect, edge, i);
            let own = source@.at(ex, ey);
            let theirs = nearest(source@, nx, ny);
            let shown = tile@.at(x, y);
            &&& theirs.a >= own.a ==> shown == theirs
            &&& theirs.a < own.a && theirs.a > 0 ==> shown == (Rgba { a: own.a, ..theirs })
            &&& theirs.a < own.a && theirs.a == 0 ==> shown == own
        }),
{
    let rect = face.rect;
    let b = border as int;
    let (x, y) = beside(rect, edge, b, i, depth);
    lemma_build_at(
        rect.width + 2 * b,
        rect.height + 2 * b,
        |x: int, y: int| padded_at(source@, rect, Some(side), group, b, x, y),
        x,
        y,
    );
    let length: int = match edge {
        Edge::Top | Edge::Bottom => rect.width as int,
        Edge::Left | Edge::Right => rect.height as int,
    };
    assert(in_strip(rect, b, x, y));
    assert(strip_edge(rect, b, x, y) == edge);
    steps_lead_along_the_edge(rect, edge, false, i, length, 0);
    depth_leads_into_the_face(rect, edge, false, i, length, 0);
}

/// A corner of a border goes on with the strip beside it: with that along the
/// horizontal edge where the face across it is there.
pub proof fn corners_go_on_with_the_rows(
    source: RgbaImage,
    face: ModelFace,
    group: FaceGroup,
    border: u32,
    tile: RgbaImage,
    side: Side,
    x: int,
    y: int,
)
    requires
        call_ensures(build_padded_tile, (&source, &face, &group, border), tile),
        side_named(face.face@) == Some(side),
        border >= 1,
        face.rect.width > 0,
        face.rect.height > 0,
        0 <= x < border || border + face.rect.width <= x < face.rect.width + 2 * border,
        0 <= y < border || border + face.rect.height <= y < face.rect.height + 2 * border,
        group.rect(across(side, if y < border { Edge::Top } else { Edge::Bottom }).0) is Some,
    ensures
        tile@.at(x, y) == tile@.at(
            if x < border {
                border as int
            } else {
                border + face.rect.width - 1
            },
            y,
        ),
{
    let rect = face.rect;
    let b = border as int;
    let f = |x: int, y: int| padded_at(source@, rect, Some(side), group, b, x, y);
    let inner = if x < b {
        b
    } else {
        b + rect.width - 1
    };
    lemma_build_at(rect.width + 2 * b, rect.height + 2 * b, f, x, y);
    lemma_build_at(rect.width + 2 * b, rect.height + 2 * b, f, inner, y);
}

/// Where the face across the horizontal edge is missing, a corner goes on with the
/// face across the vertical one; where both are, it is fully transparent.
pub proof fn corners_without_a_row_go_on_with_the_columns(
    source: RgbaImage,
    face: ModelFace,
    group: FaceGroup,
    border: u32,
    tile: RgbaImage,
    side: Side,
    x: int,
    y: int,
)
    requires
        call_ensures(build_padded_tile, (&source, &face, &group, border), tile),
        side_named(face.face@) == Some(side),
        border >= 1,
        face.rect.width > 0,
        face.rect.height > 0,
        0 <= x < border || border + face.rect.width <= x < face.rect.width + 2 * border,
        0 <= y < border || border + face.rect.height <= y < face.rect.height + 2 * border,
        group.rect(across(side, if y < border { Edge::Top } else { Edge::Bottom }).0) is None,
    ensures
        ({
            let edge = if x < border {
                Edge::Left
            } else {
                Edge::Right
            };
            let depth = if y < border {
                border - 1 - y
            } else {
                y - border - face.rect.height
            };
            let step = if y < border {
                0
            } else {
                face.rect.height - 1
            };
            match group.rect(across(side, edge).0) {
                None => tile@.at(x, y) == Rgba::clear_spec(),
                Some(rect) => {
                    let (nx, ny) = edge_point(
                        rect,
                        across(side, edge).1,
                        across(side, edge).2,
                        step,
                        face.rect.height as int,
                        depth,
                    );
                    let theirs = nearest(source@, nx, ny);
                    tile@.at(x, y).a >= theirs.a && (theirs.a > 0 ==> tile@.at(x, y).r == theirs.r
                        && tile@.at(x, y).g == theirs.g && tile@.at(x, y).b == theirs.b)
                },
            }
        }),
{
    let rect = face.rect;
    let b = border as int;
    let f = |x: int, y: int| padded_at(source@, rect, Some(side), group, b, x, y);
    lemma_build_at(rect.width + 2 * b, rect.height + 2 * b, f, x, y);
}

/// Where no face joins an edge, the border outside it is fully transparent black;
/// and so is the whole border of a face that is no side of a box.
pub proof fn borders_without_a_neighbor_are_blank(
    source: RgbaImage,
    face: ModelFace,
    group: FaceGroup,
    border: u32,
    tile: RgbaImage,
    edge: Edge,
    joined: (Side, Edge, bool),
    i: int,
    depth: int,
)
    requires
        call_ensures(build_padded_tile, (&source, &face, &group, border), tile),
        side_named(face.face@) matches Some(side) ==> call_ensures(neighbor, (side, edge), joined)
            && group.rect(joined.0) is None,
        0 <= depth < border,
        0 <= i < match edge {
            Edge::Top | Edge::Bottom => face.rect.width,
            Edge::Left | Edge::Right => face.rect.height,
        },
    ensures
        ({
            let (x, y) = beside(face.rect, edge, border as int, i, depth);
            let shown = tile@.at(x, y);
            shown.r == 0 && shown.g == 0 && shown.b == 0 && shown.a == 0
        }),
{
    let (x, y) = beside(face.rect, edge, border as int, i, depth);
    assert(in_strip(face.rect, border as int, x, y));
    assert(strip_edge(face.rect, border as int, x, y) == edge);
    missing_neighbors_stay_clear(
        source@,
        face.rect,
        side_named(face.face@),
        group,
        border as int,
        x,
        y,
    );
}

/// A border pixel keeps its colour unless it is fully transparent, and gets the
/// edge's opacity where it has less.
pub proof fn opacity_is_raised_to_the_edges(sample: Rgba, edge: Rgba, pixel: Rgba)
    requires
        call_ensures(floor_border_alpha, (sample, edge), pixel),
    ensures
        pixel.a == (if sample.a >= edge.a {
            sample.a
        } else {
            edge.a
        }),
        sample.a > 0 || edge.a == 0 ==> pixel.r == sample.r && pixel.g == sample.g && pixel.b
            == sample.b,
        sample.a == 0 && edge.a > 0 ==> pixel == edge,
{
}

/// A face that is cut out is the tile built for it with the last faces of its
/// box; one that is not there, or has no pixels, or no border, is refused.
pub proof fn cutouts_are_tiles(
    source: RgbaImage,
    faces: &[ModelFace],
    index: usize,
    border: u32,
    cut: Result<RgbaImage, String>,
    group: FaceGroup,
    tile: RgbaImage,
)
    requires
        call_ensures(face_border_tile, (&source, faces, index, border), cut),
        index < faces@.len() ==> {
            &&& call_ensures(FaceGroup::last_of, (faces, faces@[index as int].group), group)
            &&& call_ensures(
                build_padded_tile,
                (&source, &faces@[index as int], &group, border),
                tile,
            )
        },
    ensures
        index >= faces@.len() ==> (cut matches Err(e) && e@ == "face index "@ + decimal(
            index as nat,
        ) + " out of range"@),
        index < faces@.len() && (faces@[index as int].rect.width == 0
            || faces@[index as int].rect.height == 0) ==> (cut matches Err(e) && e@
            == "cannot border a zero-size face"@),
        index < faces@.len() && faces@[index as int].rect.width > 0
            && faces@[index as int].rect.height > 0 && border == 0 ==> (cut matches Err(e) && e@
            == "border must be at least 1"@),
        index < faces@.len() && faces@[index as int].rect.width > 0
            && faces@[index as int].rect.height > 0 && border > 0 ==> (cut matches Ok(cut) && cut@
            == tile@),
{
}

/// A rectangle that is recorded for a side is that side's, and no other side has
/// another one for it; without any recorded no side has one.
pub proof fn recorded_sides_are_found_again(
    group: &mut FaceGroup,
    side: Side,
    rect: FaceRect,
    done: (),
    other: Side,
    found: Option<FaceRect>,
    before: Option<FaceRect>,
    none: FaceGroup,
)
    requires
        call_ensures(FaceGroup::set, (group, side, rect), done),
        call_ensures(FaceGroup::get, (final(group), other), found),
        call_ensures(FaceGroup::get, (old(group), other), before),
        call_ensures(FaceGroup::empty, (), none),
    ensures
        other == side ==> found == Some(rect),
        other != side ==> found == before,
        none.rect(other) is None,
        found == match other {
            Side::Down => final(group).down,
            Side::Up => final(group).up,
            Side::West => final(group).west,
            Side::North => final(group).north,
            Side::East => final(group).east,
            Side::South => final(group).south,
        },
{
}

} // verus!
