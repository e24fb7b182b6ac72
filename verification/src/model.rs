//! Faces of a model and the texture rectangles they are painted from.
use crate::raster::least;
use crate::tile::clamped;
use vstd::prelude::*;

verus! {

/// A rectangle of texture pixels.
#[derive(Clone, Copy, Debug, PartialEq, Eq, Structural)]
pub struct FaceRect {
    pub x: u32,
    pub y: u32,
    pub width: u32,
    pub height: u32,
}

impl FaceRect {
    /// The far edges of the rectangle are representable.
    pub open spec fn ok(self) -> bool {
        self.x + self.width <= u32::MAX && self.y + self.height <= u32::MAX
    }

    pub open spec fn covers(self, x: int, y: int) -> bool {
        self.x <= x < self.x + self.width && self.y <= y < self.y + self.height
    }

    /// The first column right of the rectangle.
    pub fn right(&self) -> (right: u32)
        requires
            self.x + self.width <= u32::MAX,
        ensures
            right == self.x + self.width,
    {
        self.x + self.width
    }

    /// The first row below the rectangle.
    pub fn bottom(&self) -> (bottom: u32)
        requires
            self.y + self.height <= u32::MAX,
        ensures
            bottom == self.y + self.height,
    {
        self.y + self.height
    }
}

/// One face of a model's box.
#[derive(Clone, Debug)]
pub struct ModelFace {
    pub texture: String,
    pub rect: FaceRect,
    pub face: String,
    /// The box that the face belongs to; neighbours are looked up in it alone.
    pub group: u32,
}

impl ModelFace {
    /// A copy of the face.
    pub fn duplicate(&self) -> (face: ModelFace)
        ensures
            face == *self,
    {
        ModelFace {
            texture: self.texture.clone(),
            rect: self.rect,
            face: self.face.clone(),
            group: self.group,
        }
    }
}

/// A length in UV space: the bit pattern of the single-precision number, and
/// its whole part.
#[derive(Clone, Copy, Debug, PartialEq, Eq, Structural)]
pub struct UvLength {
    pub bits: u32,
    pub whole: u32,
}

/// The size of UV space.
#[derive(Clone, Copy, Debug, PartialEq, Eq, Structural)]
pub struct UvSize {
    pub width: UvLength,
    pub height: UvLength,
}

/// The side of UV space where a model does not give its own.
pub const MODEL_UV_MAX: u32 = 16;

/// The single-precision bit pattern of [`MODEL_UV_MAX`].
pub const MODEL_UV_MAX_BITS: u32 = 0x4180_0000;

impl UvSize {
    /// UV space of a model that does not give its size.
    pub open spec fn standard_spec() -> UvSize {
        UvSize {
            width: UvLength { bits: MODEL_UV_MAX_BITS, whole: MODEL_UV_MAX },
            height: UvLength { bits: MODEL_UV_MAX_BITS, whole: MODEL_UV_MAX },
        }
    }

    pub fn standard() -> (size: UvSize)
        ensures
            size == UvSize::standard_spec(),
    {
        UvSize {
            width: UvLength { bits: MODEL_UV_MAX_BITS, whole: MODEL_UV_MAX },
            height: UvLength { bits: MODEL_UV_MAX_BITS, whole: MODEL_UV_MAX },
        }
    }
}

/// A model's faces, with the textures it names and its UV space.
#[derive(Debug)]
pub struct ModelFaces {
    pub textures: Vec<(String, String)>,
    pub faces: Vec<ModelFace>,
    pub uv_size: UvSize,
}

/// A face's edges after scaling from UV space to texture pixels: the near
/// ones rounded down, the far ones rounded up.
#[derive(Clone, Copy, Debug, PartialEq, Eq, Structural)]
pub struct ScaledRect {
    pub x: i64,
    pub y: i64,
    pub right: i64,
    pub bottom: i64,
}

/// The part of a scaled rectangle that lies in a `width` by `height` texture;
/// `None` when nothing is left.
pub open spec fn clipped(scaled: ScaledRect, width: int, height: int) -> Option<FaceRect> {
    if scaled.x >= width || scaled.y >= height {
        None
    } else {
        let right = clamped(scaled.right as int, scaled.x as int, width);
        let bottom = clamped(scaled.bottom as int, scaled.y as int, height);
        let x = clamped(scaled.x as int, 0, right);
        let y = clamped(scaled.y as int, 0, bottom);
        if right - x > 0 && bottom - y > 0 {
            Some(
                FaceRect {
                    x: x as u32,
                    y: y as u32,
                    width: (right - x) as u32,
                    height: (bottom - y) as u32,
                },
            )
        } else {
            None
        }
    }
}

/// A scaled rectangle that begins inside the texture does not end before it.
pub open spec fn clippable(scaled: ScaledRect, width: int, height: int) -> bool {
    scaled.x < width && scaled.y < height ==> {
        &&& scaled.x >= 0 || scaled.right >= 0
        &&& scaled.y >= 0 || scaled.bottom >= 0
    }
}

/// Clips a scaled rectangle to the texture.
pub fn clip_rect(scaled: ScaledRect, width: u32, height: u32) -> (rect: Option<FaceRect>)
    requires
        clippable(scaled, width as int, height as int),
    ensures
        rect == clipped(scaled, width as int, height as int),
{
    let w: i64 = width as i64;
    let h: i64 = height as i64;
    if scaled.x >= w || scaled.y >= h {
        return None;
    }
    let right: i64 = if scaled.right < scaled.x {
        scaled.x
    } else if scaled.right > w {
        w
    } else {
        scaled.right
    };
    let bottom: i64 = if scaled.bottom < scaled.y {
        scaled.y
    } else if scaled.bottom > h {
        h
    } else {
        scaled.bottom
    };
    let x: i64 = if scaled.x < 0 {
        0
    } else if scaled.x > right {
        right
    } else {
        scaled.x
    };
    let y: i64 = if scaled.y < 0 {
        0
    } else if scaled.y > bottom {
        bottom
    } else {
        scaled.y
    };
    if right - x > 0 && bottom - y > 0 {
        Some(
            FaceRect {
                x: x as u32,
                y: y as u32,
                width: (right - x) as u32,
                height: (bottom - y) as u32,
            },
        )
    } else {
        None
    }
}

/// The first `count` faces with their rectangles clipped; those of which
/// nothing is left are gone.
pub open spec fn clipped_faces(
    faces: Seq<ModelFace>,
    scaled: Seq<ScaledRect>,
    width: int,
    height: int,
    count: int,
) -> Seq<ModelFace>
    decreases count,
{
    if count <= 0 {
        Seq::empty()
    } else {
        let before = clipped_faces(faces, scaled, width, height, count - 1);
        match clipped(scaled[count - 1], width, height) {
            Some(rect) => before.push(ModelFace { rect, ..faces[count - 1] }),
            None => before,
        }
    }
}

/// The faces with their rectangles scaled and clipped to a `width` by `height`
/// texture, without those of which nothing is left.
pub fn clip_faces(faces: &[ModelFace], scaled: &Vec<ScaledRect>, width: u32, height: u32) -> (left:
    Vec<ModelFace>)
    requires
        scaled@.len() == faces@.len(),
        forall|i: int|
            0 <= i < scaled@.len() ==> clippable(#[trigger] scaled@[i], width as int, height as int),
    ensures
        left@ == clipped_faces(
            faces@,
            scaled@,
            width as int,
            height as int,
            scaled@.len() as int,
        ),
        left@.len() <= faces@.len(),
{
    let mut left: Vec<ModelFace> = Vec::new();
    let mut i: usize = 0;
    while i < faces.len()
        invariant
            i <= faces.len(),
            left@.len() <= i,
            scaled@.len() == faces@.len(),
            forall|i: int|
                0 <= i < scaled@.len() ==> clippable(
                    #[trigger] scaled@[i],
                    width as int,
                    height as int,
                ),
            left@ == clipped_faces(faces@, scaled@, width as int, height as int, i as int),
        decreases faces.len() - i,
    {
        match clip_rect(scaled[i], width, height) {
            Some(rect) => {
                let mut face = faces[i].duplicate();
                face.rect = rect;
                left.push(face);
            },
            None => {},
        }
        i = i + 1;
    }
    left
}

/// Replaces each face's rectangle by its scaled one, clipped to a `width` by
/// `height` texture, and drops the faces of which nothing is left.
pub fn scale_model_faces_to_image(
    model: &mut ModelFaces,
    scaled: &Vec<ScaledRect>,
    width: u32,
    height: u32,
)
    requires
        scaled@.len() == old(model).faces@.len(),
        forall|i: int|
            0 <= i < scaled@.len() ==> clippable(#[trigger] scaled@[i], width as int, height as int),
    ensures
        final(model).faces@ == clipped_faces(
            old(model).faces@,
            scaled@,
            width as int,
            height as int,
            scaled@.len() as int,
        ),
        final(model).textures == old(model).textures,
        final(model).uv_size == old(model).uv_size,
{
    let left = clip_faces(model.faces.as_slice(), scaled, width, height);
    model.faces = left;
}

/// Every rectangle that scaling leaves has pixels and lies in the texture.
pub proof fn scaled_faces_lie_in_the_texture(
    faces: Seq<ModelFace>,
    scaled: Seq<ScaledRect>,
    width: int,
    height: int,
    count: int,
    k: int,
)
    requires
        0 <= count <= faces.len(),
        0 <= width <= u32::MAX,
        0 <= height <= u32::MAX,
        0 <= k < clipped_faces(faces, scaled, width, height, count).len(),
    ensures
        ({
            let rect = clipped_faces(faces, scaled, width, height, count)[k].rect;
            &&& rect.width > 0
            &&& rect.height > 0
            &&& rect.x + rect.width <= width
            &&& rect.y + rect.height <= height
        }),
    decreases count,
{
    if count > 0 {
        let before = clipped_faces(faces, scaled, width, height, count - 1);
        if k < before.len() {
            scaled_faces_lie_in_the_texture(faces, scaled, width, height, count - 1, k);
        }
    }
}

/// Scaling adds no face.
pub proof fn scaling_adds_no_faces(
    faces: Seq<ModelFace>,
    scaled: Seq<ScaledRect>,
    width: int,
    height: int,
    count: int,
)
    requires
        0 <= count <= faces.len(),
    ensures
        clipped_faces(faces, scaled, width, height, count).len() <= count,
    decreases count,
{
    if count > 0 {
        scaling_adds_no_faces(faces, scaled, width, height, count - 1);
    }
}

/// The scaled edges are the rectangle's own.
pub open spec fn unscaled(rect: FaceRect) -> ScaledRect {
    ScaledRect {
        x: rect.x as i64,
        y: rect.y as i64,
        right: (rect.x + rect.width) as i64,
        bottom: (rect.y + rect.height) as i64,
    }
}

/// Where the texture has the size of UV space and holds every face, scaling
/// is the identity.
pub proof fn matching_texture_keeps_faces(
    faces: Seq<ModelFace>,
    scaled: Seq<ScaledRect>,
    width: int,
    height: int,
    count: int,
)
    requires
        0 <= count <= faces.len(),
        scaled.len() == faces.len(),
        0 <= width <= u32::MAX,
        0 <= height <= u32::MAX,
        forall|i: int|
            0 <= i < faces.len() ==> {
                let rect = (#[trigger] faces[i]).rect;
                &&& rect.width > 0
                &&& rect.height > 0
                &&& rect.x + rect.width <= width
                &&& rect.y + rect.height <= height
                &&& scaled[i] == unscaled(rect)
            },
    ensures
        clipped_faces(faces, scaled, width, height, count) == faces.take(count),
    decreases count,
{
    if count > 0 {
        matching_texture_keeps_faces(faces, scaled, width, height, count - 1);
        let face = faces[count - 1];
        assert(clipped(scaled[count - 1], width, height) == Some(face.rect));
        assert(clipped_faces(faces, scaled, width, height, count) =~= faces.take(count));
    } else {
        assert(faces.take(0) =~= Seq::empty());
    }
}

/// Clipping changes the rectangles of faces and nothing else about them, and
/// keeps their order.
pub proof fn clipping_changes_rectangles_alone(
    faces: Seq<ModelFace>,
    scaled: Seq<ScaledRect>,
    width: int,
    height: int,
    count: int,
    k: int,
)
    requires
        0 <= count <= faces.len(),
        0 <= k < clipped_faces(faces, scaled, width, height, count).len(),
    ensures
        ({
            let left = clipped_faces(faces, scaled, width, height, count);
            exists|i: int|
                k <= i < count && left[k] == (ModelFace { rect: left[k].rect, ..#[trigger] faces[i] })
        }),
    decreases count,
{
    if count > 0 {
        let before = clipped_faces(faces, scaled, width, height, count - 1);
        let left = clipped_faces(faces, scaled, width, height, count);
        scaling_adds_no_faces(faces, scaled, width, height, count - 1);
        if k < before.len() {
            clipping_changes_rectangles_alone(faces, scaled, width, height, count - 1, k);
            let i = choose|i: int|
                k <= i < count - 1 && before[k] == (ModelFace {
                    rect: before[k].rect,
                    ..#[trigger] faces[i]
                });
            assert(left[k] == (ModelFace { rect: left[k].rect, ..faces[i] }));
        } else {
            assert(left[k] == (ModelFace { rect: left[k].rect, ..faces[count - 1] }));
        }
    }
}

/// A face that begins in the texture stays, with what lies in the texture of its
/// scaled rectangle.
pub proof fn faces_with_a_part_inside_stay(
    faces: Seq<ModelFace>,
    scaled: Seq<ScaledRect>,
    width: int,
    height: int,
    count: int,
    i: int,
)
    requires
        0 <= i < count <= faces.len(),
        0 <= width <= u32::MAX,
        0 <= height <= u32::MAX,
        0 <= scaled[i].x < scaled[i].right,
        0 <= scaled[i].y < scaled[i].bottom,
        scaled[i].x < width,
        scaled[i].y < height,
    ensures
        ({
            let left = clipped_faces(faces, scaled, width, height, count);
            exists|k: int|
                0 <= k < left.len() && (#[trigger] left[k]) == (ModelFace {
                    rect: FaceRect {
                        x: scaled[i].x as u32,
                        y: scaled[i].y as u32,
                        width: (least(scaled[i].right as int, width) - scaled[i].x) as u32,
                        height: (least(scaled[i].bottom as int, height) - scaled[i].y) as u32,
                    },
                    ..faces[i]
                })
        }),
    decreases count,
{
    let before = clipped_faces(faces, scaled, width, height, count - 1);
    let left = clipped_faces(faces, scaled, width, height, count);
    let wanted = ModelFace {
        rect: FaceRect {
            x: scaled[i].x as u32,
            y: scaled[i].y as u32,
            width: (least(scaled[i].right as int, width) - scaled[i].x) as u32,
            height: (least(scaled[i].bottom as int, height) - scaled[i].y) as u32,
        },
        ..faces[i]
    };
    if i == count - 1 {
        assert(left[before.len() as int] == wanted);
    } else {
        faces_with_a_part_inside_stay(faces, scaled, width, height, count - 1, i);
        let k = choose|k: int| 0 <= k < before.len() && (#[trigger] before[k]) == wanted;
        assert(left[k] == wanted);
    }
}

/// Of a scaled rectangle, what is left is what lies in the texture: a pixel is in
/// the clipped rectangle just where it is in both.
pub proof fn clipping_keeps_what_lies_inside(
    scaled: ScaledRect,
    width: u32,
    height: u32,
    rect: Option<FaceRect>,
    x: int,
    y: int,
)
    requires
        call_ensures(clip_rect, (scaled, width, height), rect),
    ensures
        (rect matches Some(rect) && rect.covers(x, y)) <==> {
            &&& scaled.x <= x < scaled.right
            &&& scaled.y <= y < scaled.bottom
            &&& 0 <= x < width
            &&& 0 <= y < height
        },
{
}

/// A model that gives no size has a UV space of sixteen by sixteen.
pub proof fn the_standard_space_is_sixteen_by_sixteen(size: UvSize)
    requires
        call_ensures(UvSize::standard, (), size),
    ensures
        size.width.whole == 16 && size.height.whole == 16,
        size.width.bits == 0x4180_0000 && size.height.bits == 0x4180_0000,
{
}

/// A rectangle ends where its size says.
pub proof fn rectangles_end_after_their_size(rect: FaceRect, right: u32, bottom: u32)
    requires
        call_ensures(FaceRect::right, (&rect,), right),
        call_ensures(FaceRect::bottom, (&rect,), bottom),
    ensures
        right - rect.x == rect.width,
        bottom - rect.y == rect.height,
{
}

proof fn lemma_clipped_prefix(
    faces: Seq<ModelFace>,
    scaled: Seq<ScaledRect>,
    face: ModelFace,
    rect: ScaledRect,
    width: int,
    height: int,
    count: int,
)
    requires
        0 <= count <= faces.len(),
        scaled.len() == faces.len(),
    ensures
        clipped_faces(faces.push(face), scaled.push(rect), width, height, count) == clipped_faces(
            faces,
            scaled,
            width,
            height,
            count,
        ),
    decreases count,
{
    if count > 0 {
        lemma_clipped_prefix(faces, scaled, face, rect, width, height, count - 1);
    }
}

/// Faces are clipped one by one: one face more is left behind those before it where
/// something of its rectangle is left, with that rectangle and all else its own.
pub proof fn faces_are_clipped_one_by_one(
    few: &[ModelFace],
    more: &[ModelFace],
    scaled: Vec<ScaledRect>,
    scaled_more: Vec<ScaledRect>,
    face: ModelFace,
    own: ScaledRect,
    width: u32,
    height: u32,
    rect: Option<FaceRect>,
    left: Vec<ModelFace>,
    left_more: Vec<ModelFace>,
)
    requires
        call_ensures(clip_faces, (few, &scaled, width, height), left),
        call_ensures(clip_faces, (more, &scaled_more, width, height), left_more),
        call_ensures(clip_rect, (own, width, height), rect),
        scaled@.len() == few@.len(),
        more@ == few@.push(face),
        scaled_more@ == scaled@.push(own),
    ensures
        few@.len() == 0 ==> left@.len() == 0,
        left_more@ == match rect {
            Some(rect) => left@.push(ModelFace { rect, ..face }),
            None => left@,
        },
{
    let count = few@.len() as int;
    lemma_clipped_prefix(few@, scaled@, face, own, width as int, height as int, count);
}

/// A model that is scaled to a texture has its faces clipped to it; its textures and
/// its space stay.
pub proof fn scaled_models_have_their_faces_clipped(
    model: &mut ModelFaces,
    scaled: Vec<ScaledRect>,
    width: u32,
    height: u32,
    done: (),
    faces: &[ModelFace],
    left: Vec<ModelFace>,
)
    requires
        call_ensures(scale_model_faces_to_image, (model, &scaled, width, height), done),
        faces@ == old(model).faces@,
        call_ensures(clip_faces, (faces, &scaled, width, height), left),
    ensures
        final(model).faces@ == left@,
        final(model).textures == old(model).textures,
        final(model).uv_size == old(model).uv_size,
{
}

} // verus!
