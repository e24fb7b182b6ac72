//! From the contents of a model file to the model's faces.
use crate::codec::{parse_text, parsed_text};
use crate::json::{entry_views, Json, JsonView};
use crate::model::{FaceRect, ModelFace, ModelFaces, UvSize};
use crate::text::chars_of;
use vstd::prelude::*;

verus! {

/// A face of a block model's element: its rounded rectangle, if it has one,
/// and the texture it names.
#[derive(Debug)]
pub struct BlockFace {
    pub name: String,
    pub rect: Option<FaceRect>,
    pub texture: Option<String>,
}

/// An element of a block model.
#[derive(Debug)]
pub struct BlockElement {
    pub faces: Vec<BlockFace>,
}

/// The unfolded net of an entity model's cube, in rounded texture pixels. The
/// columns `u0` to `u3` and rows `v0`, `v1` are where the faces begin; `wide`,
/// `tall` and `deep` say whether the cube extends along x, y and z at all.
#[derive(Clone, Copy, Debug, PartialEq, Eq, Structural)]
pub struct CubeNet {
    pub u0: u32,
    pub u1: u32,
    pub u2: u32,
    pub u3: u32,
    pub v0: u32,
    pub v1: u32,
    pub dx: u32,
    pub dy: u32,
    pub dz: u32,
    pub wide: bool,
    pub tall: bool,
    pub deep: bool,
}

/// A part of an entity model: its cubes and the parts below it.
#[derive(Debug)]
pub struct EntityPart {
    pub cubes: Vec<CubeNet>,
    pub children: Vec<EntityPart>,
}

/// An entity model: the size of its texture, if it gives one, and its parts.
#[derive(Debug)]
pub struct EntityLayout {
    pub texture_size: Option<UvSize>,
    pub parts: Vec<EntityPart>,
}

/// The contents of a [`ModelFace`].
pub struct FaceView {
    pub texture: Seq<char>,
    pub rect: FaceRect,
    pub face: Seq<char>,
    pub group: int,
}

impl View for ModelFace {
    type V = FaceView;

    open spec fn view(&self) -> FaceView {
        FaceView {
            texture: self.texture@,
            rect: self.rect,
            face: self.face@,
            group: self.group as int,
        }
    }
}

/// The contents of a list of faces.
pub open spec fn face_views(faces: Seq<ModelFace>) -> Seq<FaceView> {
    Seq::new(faces.len(), |i: int| faces[i]@)
}

/// `text` without the `#` characters it begins with.
pub open spec fn without_hashes(text: Seq<char>) -> Seq<char>
    decreases text.len(),
{
    if text.len() > 0 && text[0] == '#' {
        without_hashes(text.skip(1))
    } else {
        text
    }
}

fn drop_hashes(text: &str) -> (rest: String)
    ensures
        rest@ == without_hashes(text@),
{
    let chars = chars_of(text);
    let mut start: usize = 0;
    assert(chars@.skip(0) =~= chars@);
    while start < chars.len() && chars[start] == '#'
        invariant
            start <= chars.len(),
            without_hashes(chars@.skip(start as int)) == without_hashes(chars@),
        decreases chars.len() - start,
    {
        assert(chars@.skip(start as int).skip(1) =~= chars@.skip(start + 1));
        start = start + 1;
    }
    let mut rest = String::new();
    let mut i: usize = start;
    while i < chars.len()
        invariant
            start <= i <= chars.len(),
            rest@ == chars@.subrange(start as int, i as int),
        decreases chars.len() - i,
    {
        rest.push(chars[i]);
        i = i + 1;
    }
    assert(rest@ =~= chars@.skip(start as int));
    rest
}

/// The first texture name of a model, if it has any.
pub open spec fn first_texture(textures: Seq<(String, String)>) -> Option<Seq<char>> {
    if textures.len() == 0 {
        None
    } else {
        Some(textures[0].0@)
    }
}

/// The first texture name of a model, if it has any.
pub fn first_texture_reference(textures: &Vec<(String, String)>) -> (name: Option<String>)
    ensures
        match first_texture(textures@) {
            Some(first) => name matches Some(name) && name@ == first,
            None => name is None,
        },
{
    if textures.len() == 0 {
        None
    } else {
        Some(textures[0].0.clone())
    }
}

/// The texture of a face that names none itself.
pub open spec fn default_texture(textures: Seq<(String, String)>) -> Seq<char> {
    match first_texture(textures) {
        Some(name) => name,
        None => Seq::empty(),
    }
}

fn texture_or_default(textures: &Vec<(String, String)>) -> (name: String)
    ensures
        name@ == default_texture(textures@),
{
    match first_texture_reference(textures) {
        Some(name) => name,
        None => String::new(),
    }
}

/// The model face of a block face in element `group`.
pub open spec fn block_face_view(
    face: BlockFace,
    textures: Seq<(String, String)>,
    group: usize,
) -> FaceView {
    FaceView {
        texture: match face.texture {
            Some(name) => without_hashes(name@),
            None => default_texture(textures),
        },
        rect: face.rect->0,
        face: face.name@,
        group: (group as u32) as int,
    }
}

/// The faces with a rectangle among the first `count` of an element.
pub open spec fn element_faces(
    faces: Seq<BlockFace>,
    textures: Seq<(String, String)>,
    group: usize,
    count: int,
) -> Seq<FaceView>
    decreases count,
{
    if count <= 0 {
        Seq::empty()
    } else {
        let before = element_faces(faces, textures, group, count - 1);
        if faces[count - 1].rect is Some {
            before.push(block_face_view(faces[count - 1], textures, group))
        } else {
            before
        }
    }
}

/// The faces of the first `count` elements; an element's number is its group.
pub open spec fn block_faces(
    elements: Seq<BlockElement>,
    textures: Seq<(String, String)>,
    count: int,
) -> Seq<FaceView>
    decreases count,
{
    if count <= 0 {
        Seq::empty()
    } else {
        block_faces(elements, textures, count - 1) + element_faces(
            elements[count - 1].faces@,
            textures,
            (count - 1) as usize,
            elements[count - 1].faces@.len() as int,
        )
    }
}

/// The faces of a block model: every face that has a rectangle.
fn parse_block_model(textures: Vec<(String, String)>, elements: &Vec<BlockElement>) -> (model:
    ModelFaces)
    ensures
        face_views(model.faces@) == block_faces(
            elements@,
            textures@,
            elements@.len() as int,
        ),
        model.textures == textures,
        model.uv_size == UvSize::standard_spec(),
{
    let mut faces: Vec<ModelFace> = Vec::new();
    let mut i: usize = 0;
    assert(face_views(faces@) =~= block_faces(elements@, textures@, 0));
    while i < elements.len()
        invariant
            i <= elements.len(),
            face_views(faces@) == block_faces(elements@, textures@, i as int),
        decreases elements.len() - i,
    {
        let element = &elements[i];
        let ghost before = face_views(faces@);
        let mut k: usize = 0;
        assert(before =~= before + element_faces(element.faces@, textures@, i, 0));
        while k < element.faces.len()
            invariant
                k <= element.faces.len(),
                face_views(faces@) == before + element_faces(
                    element.faces@,
                    textures@,
                    i,
                    k as int,
                ),
            decreases element.faces.len() - k,
        {
            let face = &element.faces[k];
            let ghost so_far = face_views(faces@);
            let ghost inner = element_faces(element.faces@, textures@, i, k as int);
            match face.rect {
                Some(rect) => {
                    let texture = match &face.texture {
                        Some(name) => drop_hashes(name.as_str()),
                        None => texture_or_default(&textures),
                    };
                    let made = ModelFace {
                        texture,
                        rect,
                        face: face.name.clone(),
                        group: i as u32,
                    };
                    faces.push(made);
                    let ghost view = block_face_view(*face, textures@, i);
                    assert(made@ == view);
                    assert(face_views(faces@) =~= so_far.push(view));
                    assert(so_far.push(view) =~= before + inner.push(view));
                },
                None => {},
            }
            k = k + 1;
        }
        i = i + 1;
    }
    ModelFaces { textures, faces, uv_size: UvSize::standard() }
}

/// Face `k` of a cube's net: name, rectangle, and whether it has any area.
pub open spec fn net_face(net: CubeNet, k: int) -> (Seq<char>, FaceRect, bool) {
    if k == 0 {
        (
            "down"@,
            FaceRect { x: net.u1, y: net.v0, width: net.dx, height: net.dz },
            net.wide && net.deep,
        )
    } else if k == 1 {
        (
            "up"@,
            FaceRect { x: net.u2, y: net.v0, width: net.dx, height: net.dz },
            net.wide && net.deep,
        )
    } else if k == 2 {
        (
            "east"@,
            FaceRect { x: net.u2, y: net.v1, width: net.dz, height: net.dy },
            net.deep && net.tall,
        )
    } else if k == 3 {
        (
            "north"@,
            FaceRect { x: net.u1, y: net.v1, width: net.dx, height: net.dy },
            net.wide && net.tall,
        )
    } else if k == 4 {
        (
            "west"@,
            FaceRect { x: net.u0, y: net.v1, width: net.dz, height: net.dy },
            net.deep && net.tall,
        )
    } else {
        (
            "south"@,
            FaceRect { x: net.u3, y: net.v1, width: net.dx, height: net.dy },
            net.wide && net.tall,
        )
    }
}

/// The faces with area among the first `count` of a cube's net.
pub open spec fn net_faces(net: CubeNet, texture: Seq<char>, group: int, count: int) -> Seq<FaceView>
    decreases count,
{
    if count <= 0 {
        Seq::empty()
    } else {
        let before = net_faces(net, texture, group, count - 1);
        let (face, rect, area) = net_face(net, count - 1);
        if area {
            before.push(FaceView { texture, rect, face, group })
        } else {
            before
        }
    }
}

/// Whether a cube has a face with area: it extends along two axes.
pub open spec fn has_faces(net: CubeNet) -> bool {
    (net.wide && net.deep) || (net.deep && net.tall) || (net.wide && net.tall)
}

/// Appends a face, if it has area.
fn push_net_face(
    texture: &str,
    group: u32,
    name: &str,
    rect: FaceRect,
    area: bool,
    out: &mut Vec<ModelFace>,
)
    ensures
        face_views(final(out)@) == if area {
            face_views(old(out)@).push(
                FaceView { texture: texture@, rect, face: name@, group: group as int },
            )
        } else {
            face_views(old(out)@)
        },
{
    if area {
        out.push(ModelFace { texture: texture.to_owned(), rect, face: name.to_owned(), group });
        assert(face_views(out@) =~= face_views(old(out)@).push(
            FaceView { texture: texture@, rect, face: name@, group: group as int },
        ));
    }
}

/// Appends the faces of one cube.
fn push_net(net: &CubeNet, texture: &str, group: u32, out: &mut Vec<ModelFace>)
    ensures
        face_views(final(out)@) == face_views(old(out)@) + net_faces(
            *net,
            texture@,
            group as int,
            6,
        ),
{
    let ghost before = face_views(out@);
    let flat: bool = net.wide && net.deep;
    let side: bool = net.deep && net.tall;
    let front: bool = net.wide && net.tall;
    let down = FaceRect { x: net.u1, y: net.v0, width: net.dx, height: net.dz };
    let up = FaceRect { x: net.u2, y: net.v0, width: net.dx, height: net.dz };
    let east = FaceRect { x: net.u2, y: net.v1, width: net.dz, height: net.dy };
    let north = FaceRect { x: net.u1, y: net.v1, width: net.dx, height: net.dy };
    let west = FaceRect { x: net.u0, y: net.v1, width: net.dz, height: net.dy };
    let south = FaceRect { x: net.u3, y: net.v1, width: net.dx, height: net.dy };
    push_net_face(texture, group, "down", down, flat, out);
    push_net_face(texture, group, "up", up, flat, out);
    push_net_face(texture, group, "east", east, side, out);
    push_net_face(texture, group, "north", north, front, out);
    push_net_face(texture, group, "west", west, side, out);
    push_net_face(texture, group, "south", south, front, out);
    proof {
        reveal_with_fuel(net_faces, 7);
        assert(face_views(out@) =~= before + net_faces(*net, texture@, group as int, 6));
    }
}

/// How many of the first `count` cubes have a face.
pub open spec fn cube_groups(cubes: Seq<CubeNet>, count: int) -> int
    decreases count,
{
    if count <= 0 {
        0
    } else {
        cube_groups(cubes, count - 1) + if has_faces(cubes[count - 1]) {
            1int
        } else {
            0int
        }
    }
}

/// The faces of the first `count` cubes; each cube with a face is a group of
/// its own.
pub open spec fn cube_faces(cubes: Seq<CubeNet>, texture: Seq<char>, start: int, count: int) -> Seq<
    FaceView,
>
    decreases count,
{
    if count <= 0 {
        Seq::empty()
    } else {
        cube_faces(cubes, texture, start, count - 1) + net_faces(
            cubes[count - 1],
            texture,
            start + cube_groups(cubes, count - 1),
            6,
        )
    }
}

/// How many cubes with a face a part and the parts below it have.
pub open spec fn part_groups(part: EntityPart) -> int
    decreases part, 0int,
{
    cube_groups(part.cubes@, part.cubes@.len() as int) + parts_groups(
        part.children@,
        part.children@.len() as int,
    )
}

/// How many cubes with a face the first `count` parts have.
pub open spec fn parts_groups(parts: Seq<EntityPart>, count: int) -> int
    decreases parts, count,
{
    if count <= 0 || count > parts.len() {
        0
    } else {
        parts_groups(parts, count - 1) + part_groups(parts[count - 1])
    }
}

/// The faces of a part: its own cubes' first, those of the parts below it
/// after them.
pub open spec fn part_faces(part: EntityPart, texture: Seq<char>, start: int) -> Seq<FaceView>
    decreases part, 0int,
{
    cube_faces(part.cubes@, texture, start, part.cubes@.len() as int) + parts_faces(
        part.children@,
        texture,
        start + cube_groups(part.cubes@, part.cubes@.len() as int),
        part.children@.len() as int,
    )
}

/// The faces of the first `count` parts, numbered from `start`.
pub open spec fn parts_faces(
    parts: Seq<EntityPart>,
    texture: Seq<char>,
    start: int,
    count: int,
) -> Seq<FaceView>
    decreases parts, count,
{
    if count <= 0 || count > parts.len() {
        Seq::empty()
    } else {
        parts_faces(parts, texture, start, count - 1) + part_faces(
            parts[count - 1],
            texture,
            start + parts_groups(parts, count - 1),
        )
    }
}

proof fn lemma_cube_groups(cubes: Seq<CubeNet>, less: int, count: int)
    requires
        0 <= less <= count,
    ensures
        0 <= cube_groups(cubes, less) <= cube_groups(cubes, count),
    decreases count,
{
    if less < count {
        lemma_cube_groups(cubes, less, count - 1);
    } else if count > 0 {
        lemma_cube_groups(cubes, count - 1, count - 1);
    }
}

proof fn lemma_part_groups(part: EntityPart)
    ensures
        part_groups(part) >= 0,
    decreases part, 0int,
{
    lemma_cube_groups(part.cubes@, 0, part.cubes@.len() as int);
    lemma_parts_groups(part.children@, 0, part.children@.len() as int);
}

proof fn lemma_parts_groups(parts: Seq<EntityPart>, less: int, count: int)
    requires
        0 <= less <= count <= parts.len(),
    ensures
        0 <= parts_groups(parts, less) <= parts_groups(parts, count),
    decreases parts, count,
{
    if count > 0 {
        lemma_part_groups(parts[count - 1]);
        if less < count {
            lemma_parts_groups(parts, less, count - 1);
        } else {
            lemma_parts_groups(parts, count - 1, count - 1);
        }
    }
}

/// Appends the faces of a part and of the parts below it, and counts the
/// groups on.
fn collect_entity_faces(
    part: &EntityPart,
    texture: &str,
    out: &mut Vec<ModelFace>,
    group_counter: &mut u32,
)
    requires
        *old(group_counter) + part_groups(*part) <= u32::MAX,
    ensures
        face_views(final(out)@) == face_views(old(out)@) + part_faces(
            *part,
            texture@,
            *old(group_counter) as int,
        ),
        *final(group_counter) == *old(group_counter) + part_groups(*part),
    decreases *part,
{
    let ghost start = *group_counter as int;
    let ghost before = face_views(out@);
    let ghost own = part.cubes@.len() as int;
    let ghost below = part.children@.len() as int;
    proof {
        lemma_cube_groups(part.cubes@, 0, own);
        lemma_parts_groups(part.children@, 0, below);
    }
    let mut i: usize = 0;
    assert(before =~= before + cube_faces(part.cubes@, texture@, start, 0));
    while i < part.cubes.len()
        invariant
            i <= part.cubes.len(),
            own == part.cubes@.len(),
            start + cube_groups(part.cubes@, own) <= u32::MAX,
            *group_counter == start + cube_groups(part.cubes@, i as int),
            face_views(out@) == before + cube_faces(part.cubes@, texture@, start, i as int),
        decreases part.cubes.len() - i,
    {
        let cube: CubeNet = part.cubes[i];
        let ghost so_far = face_views(out@);
        let ghost done = cube_faces(part.cubes@, texture@, start, i as int);
        push_net(&cube, texture, *group_counter, out);
        assert(face_views(out@) =~= before + (done + net_faces(
            cube,
            texture@,
            *group_counter as int,
            6,
        )));
        if (cube.wide && cube.deep) || (cube.deep && cube.tall) || (cube.wide && cube.tall) {
            proof {
                lemma_cube_groups(part.cubes@, i + 1, own);
            }
            *group_counter = *group_counter + 1;
        }
        i = i + 1;
    }
    let ghost middle = face_views(out@);
    let ghost next = *group_counter as int;
    let mut k: usize = 0;
    assert(middle =~= middle + parts_faces(part.children@, texture@, next, 0));
    while k < part.children.len()
        invariant
            k <= part.children.len(),
            below == part.children@.len(),
            next + parts_groups(part.children@, below) <= u32::MAX,
            *group_counter == next + parts_groups(part.children@, k as int),
            face_views(out@) == middle + parts_faces(part.children@, texture@, next, k as int),
        decreases part.children.len() - k,
    {
        proof {
            lemma_parts_groups(part.children@, k + 1, below);
            assert(decreases_to!(*part => part.children@[k as int]));
        }
        let ghost done = parts_faces(part.children@, texture@, next, k as int);
        let ghost more = part_faces(part.children@[k as int], texture@, *group_counter as int);
        collect_entity_faces(&part.children[k], texture, out, group_counter);
        assert(face_views(out@) =~= middle + (done + more));
        k = k + 1;
    }
    assert(face_views(out@) =~= before + part_faces(*part, texture@, start));
}

/// The faces of an entity model, box by box. A model that gives no texture
/// size has the standard one.
pub fn parse_entity_model(model: &EntityLayout) -> (faces: ModelFaces)
    requires
        parts_groups(model.parts@, model.parts@.len() as int) <= u32::MAX,
    ensures
        face_views(faces.faces@) == parts_faces(
            model.parts@,
            Seq::empty(),
            0,
            model.parts@.len() as int,
        ),
        faces.textures@.len() == 0,
        faces.uv_size == match model.texture_size {
            Some(size) => size,
            None => UvSize::standard_spec(),
        },
{
    let uv_size = match model.texture_size {
        Some(size) => size,
        None => UvSize::standard(),
    };
    let ghost count = model.parts@.len() as int;
    let textures: Vec<(String, String)> = Vec::new();
    let texture = texture_or_default(&textures);
    let mut faces: Vec<ModelFace> = Vec::new();
    let mut group_counter: u32 = 0;
    let mut i: usize = 0;
    assert(face_views(faces@) =~= parts_faces(model.parts@, texture@, 0, 0));
    while i < model.parts.len()
        invariant
            i <= model.parts.len(),
            count == model.parts@.len(),
            parts_groups(model.parts@, count) <= u32::MAX,
            group_counter == parts_groups(model.parts@, i as int),
            face_views(faces@) == parts_faces(model.parts@, texture@, 0, i as int),
        decreases model.parts.len() - i,
    {
        proof {
            lemma_parts_groups(model.parts@, i + 1, count);
        }
        collect_entity_faces(&model.parts[i], texture.as_str(), &mut faces, &mut group_counter);
        i = i + 1;
    }
    ModelFaces { textures, faces, uv_size }
}

/// The named textures among the first `count` entries.
pub open spec fn text_entries(entries: Seq<(Seq<char>, JsonView)>, count: int) -> Seq<
    (Seq<char>, Seq<char>),
>
    decreases count,
{
    if count <= 0 {
        Seq::empty()
    } else {
        let before = text_entries(entries, count - 1);
        match entries[count - 1].1 {
            JsonView::Text(text) => before.push((entries[count - 1].0, text)),
            _ => before,
        }
    }
}

/// The textures that a model file names: the texts of its `textures` object.
pub open spec fn named_textures(root: JsonView) -> Seq<(Seq<char>, Seq<char>)> {
    match root.get("textures"@) {
        Some(JsonView::Object(entries)) => text_entries(entries, entries.len() as int),
        _ => Seq::empty(),
    }
}

/// The contents of a list of named textures.
pub open spec fn texture_views(textures: Seq<(String, String)>) -> Seq<(Seq<char>, Seq<char>)> {
    Seq::new(textures.len(), |i: int| (textures[i].0@, textures[i].1@))
}

/// The textures that a model file names.
fn extract_textures(root: &Json) -> (textures: Vec<(String, String)>)
    ensures
        texture_views(textures@) == named_textures(root@),
{
    let mut textures: Vec<(String, String)> = Vec::new();
    assert(texture_views(textures@) =~= Seq::empty());
    if let Some(Json::Object(entries)) = root.get("textures") {
        let ghost views = entry_views(entries@);
        assert(root@.get("textures"@)->0->Object_0 =~= views);
        let mut i: usize = 0;
        assert(texture_views(textures@) =~= text_entries(views, 0));
        while i < entries.len()
            invariant
                i <= entries.len(),
                views == entry_views(entries@),
                texture_views(textures@) == text_entries(views, i as int),
            decreases entries.len() - i,
        {
            let ghost before = texture_views(textures@);
            if let Json::Text(text) = &entries[i].1 {
                assert(views[i as int].1 == JsonView::Text(text@));
                textures.push((entries[i].0.clone(), text.clone()));
                assert(texture_views(textures@) =~= before.push((views[i as int].0, text@)));
            }
            i = i + 1;
        }
    }
    textures
}

/// What a model file is read as. A file with a `parts` entry is an entity model,
/// any other a block model; `entity` and `block` are the file's contents as the
/// one and as the other, or the reason why they are not that.
pub open spec fn reads_as(
    root: JsonView,
    entity: Result<EntityLayout, String>,
    block: Result<Vec<BlockElement>, String>,
    model: Result<ModelFaces, String>,
) -> bool {
    if root.get("parts"@) is Some {
        match entity {
            Ok(layout) => model matches Ok(model) && face_views(model.faces@) == parts_faces(
                layout.parts@,
                Seq::empty(),
                0,
                layout.parts@.len() as int,
            ) && model.textures@.len() == 0 && model.uv_size == match layout.texture_size {
                Some(size) => size,
                None => UvSize::standard_spec(),
            },
            Err(error) => model matches Err(e) && e@ == "unsupported entity model structure: "@
                + error@,
        }
    } else {
        match block {
            Ok(elements) => model matches Ok(model) && texture_views(model.textures@)
                == named_textures(root) && face_views(model.faces@) == block_faces(
                elements@,
                model.textures@,
                elements@.len() as int,
            ) && model.uv_size == UvSize::standard_spec(),
            Err(error) => model matches Err(e) && e@ == "unsupported block model structure: "@
                + error@,
        }
    }
}

/// Reads a model out of a model file's contents.
pub fn parse_model(
    root: &Json,
    entity: Result<EntityLayout, String>,
    block: Result<Vec<BlockElement>, String>,
) -> (model: Result<ModelFaces, String>)
    requires
        root@.get("parts"@) is Some ==> (entity matches Ok(layout) ==> parts_groups(
            layout.parts@,
            layout.parts@.len() as int,
        ) <= u32::MAX),
    ensures
        reads_as(root@, entity, block, model),
{
    if root.get("parts").is_some() {
        match entity {
            Ok(layout) => Ok(parse_entity_model(&layout)),
            Err(error) => {
                let mut message = "unsupported entity model structure: ".to_owned();
                message.append(error.as_str());
                Err(message)
            },
        }
    } else {
        match block {
            Ok(elements) => Ok(parse_block_model(extract_textures(root), &elements)),
            Err(error) => {
                let mut message = "unsupported block model structure: ".to_owned();
                message.append(error.as_str());
                Err(message)
            },
        }
    }
}

/// Reads a model file, given its text or the reason why it cannot be had.
pub fn load_model(
    data: Result<String, String>,
    entity: Result<EntityLayout, String>,
    block: Result<Vec<BlockElement>, String>,
) -> (model: Result<ModelFaces, String>)
    requires
        entity matches Ok(layout) ==> parts_groups(layout.parts@, layout.parts@.len() as int)
            <= u32::MAX,
    ensures
        match data {
            Err(error) => model matches Err(e) && e@ == "cannot read model: "@ + error@,
            Ok(text) => match parsed_text(text@) {
                Err(error) => model matches Err(e) && e@ == "cannot parse model: "@ + error,
                Ok(root) => reads_as(root, entity, block, model),
            },
        },
{
    match data {
        Err(error) => {
            let mut message = "cannot read model: ".to_owned();
            message.append(error.as_str());
            Err(message)
        },
        Ok(text) => match parse_text(text.as_str()) {
            Err(error) => {
                let mut message = "cannot parse model: ".to_owned();
                message.append(error.as_str());
                Err(message)
            },
            Ok(root) => parse_model(&root, entity, block),
        },
    }
}

/// A cube has two faces for every pair of axes along which it extends: none
/// is lost to another axis along which it is flat.
pub proof fn flat_cubes_keep_the_faces_with_area(net: CubeNet, texture: Seq<char>, group: int)
    ensures
        net_faces(net, texture, group, 6).len() == (if net.wide && net.deep {
            2int
        } else {
            0
        }) + (if net.deep && net.tall {
            2int
        } else {
            0
        }) + (if net.wide && net.tall {
            2int
        } else {
            0
        }),
        net_faces(net, texture, group, 6).len() > 0 <==> has_faces(net),
{
    reveal_with_fuel(net_faces, 7);
}

proof fn lemma_net_group(net: CubeNet, texture: Seq<char>, group: int, count: int, k: int)
    requires
        0 <= k < net_faces(net, texture, group, count).len(),
    ensures
        net_faces(net, texture, group, count)[k].group == group,
    decreases count,
{
    if count > 0 {
        let before = net_faces(net, texture, group, count - 1);
        if k < before.len() {
            lemma_net_group(net, texture, group, count - 1, k);
        }
    }
}

proof fn lemma_cube_faces_numbered(
    cubes: Seq<CubeNet>,
    texture: Seq<char>,
    start: int,
    count: int,
    k: int,
)
    requires
        0 <= count <= cubes.len(),
        0 <= k < cube_faces(cubes, texture, start, count).len(),
    ensures
        start <= cube_faces(cubes, texture, start, count)[k].group < start + cube_groups(
            cubes,
            count,
        ),
    decreases count,
{
    if count > 0 {
        let before = cube_faces(cubes, texture, start, count - 1);
        let group = start + cube_groups(cubes, count - 1);
        let last = net_faces(cubes[count - 1], texture, group, 6);
        lemma_cube_groups(cubes, 0, count - 1);
        lemma_cube_groups(cubes, count - 1, count);
        if k < before.len() {
            lemma_cube_faces_numbered(cubes, texture, start, count - 1, k);
        } else {
            flat_cubes_keep_the_faces_with_area(cubes[count - 1], texture, group);
            lemma_net_group(cubes[count - 1], texture, group, 6, k - before.len());
            assert(cube_faces(cubes, texture, start, count)[k] == last[k - before.len()]);
        }
    }
}

proof fn lemma_part_faces_numbered(part: EntityPart, texture: Seq<char>, start: int, k: int)
    requires
        0 <= k < part_faces(part, texture, start).len(),
    ensures
        start <= part_faces(part, texture, start)[k].group < start + part_groups(part),
    decreases part, 0int,
{
    let own = part.cubes@.len() as int;
    let below = part.children@.len() as int;
    let first = cube_faces(part.cubes@, texture, start, own);
    lemma_cube_groups(part.cubes@, 0, own);
    lemma_parts_groups(part.children@, 0, below);
    if k < first.len() {
        lemma_cube_faces_numbered(part.cubes@, texture, start, own, k);
    } else {
        faces_carry_their_boxes_numbers(
            part.children@,
            texture,
            start + cube_groups(part.cubes@, own),
            below,
            k - first.len(),
        );
    }
}

/// Every face of the first `count` parts has one of the numbers that these
/// parts' boxes take up, counted from `start`.
pub proof fn faces_carry_their_boxes_numbers(
    parts: Seq<EntityPart>,
    texture: Seq<char>,
    start: int,
    count: int,
    k: int,
)
    requires
        0 <= count <= parts.len(),
        0 <= k < parts_faces(parts, texture, start, count).len(),
    ensures
        start <= parts_faces(parts, texture, start, count)[k].group < start + parts_groups(
            parts,
            count,
        ),
    decreases parts, count,
{
    if count > 0 {
        let before = parts_faces(parts, texture, start, count - 1);
        let next = start + parts_groups(parts, count - 1);
        lemma_parts_groups(parts, count - 1, count);
        lemma_parts_groups(parts, 0, count - 1);
        if k < before.len() {
            faces_carry_their_boxes_numbers(parts, texture, start, count - 1, k);
        } else {
            lemma_part_faces_numbered(parts[count - 1], texture, next, k - before.len());
        }
    }
}

/// Two cubes with faces are never in one group.
pub proof fn boxes_have_groups_of_their_own(cubes: Seq<CubeNet>, i: int, j: int)
    requires
        0 <= i < j < cubes.len(),
        has_faces(cubes[i]),
    ensures
        cube_groups(cubes, i) < cube_groups(cubes, j),
{
    lemma_cube_groups(cubes, i + 1, j);
}

/// The faces of a cube's net are as wide and high as the sides they show, each
/// side is there once, and the rest is what the cube has in common.
pub proof fn faces_have_the_size_of_their_sides(
    net: CubeNet,
    texture: Seq<char>,
    group: int,
    k: int,
    l: int,
)
    requires
        0 <= k < l < net_faces(net, texture, group, 6).len(),
    ensures
        ({
            let one = net_faces(net, texture, group, 6)[k];
            let other = net_faces(net, texture, group, 6)[l];
            &&& shows_a_side(net, one) && shows_a_side(net, other)
            &&& one.face != other.face
            &&& one.group == group && other.group == group
            &&& one.texture == texture && other.texture == texture
        }),
{
    reveal_with_fuel(net_faces, 7);
    lemma_side_names();
}

/// The face is named after a side of the cube, and has that side's size: north
/// and south show width and height, east and west depth and height, up and down
/// width and depth.
pub open spec fn shows_a_side(net: CubeNet, face: FaceView) -> bool {
    let rect = face.rect;
    ||| (face.face == "north"@ || face.face == "south"@) && rect.width == net.dx && rect.height
        == net.dy && net.wide && net.tall
    ||| (face.face == "east"@ || face.face == "west"@) && rect.width == net.dz && rect.height
        == net.dy && net.deep && net.tall
    ||| (face.face == "up"@ || face.face == "down"@) && rect.width == net.dx && rect.height
        == net.dz && net.wide && net.deep
}

/// The face of this name in a cube's net, if the cube has it.
pub open spec fn face_named(net: CubeNet, name: Seq<char>) -> Option<FaceRect> {
    let faces = net_faces(net, Seq::empty(), 0, 6);
    if exists|k: int| 0 <= k < faces.len() && (#[trigger] faces[k]).face == name {
        Some(faces[choose|k: int| 0 <= k < faces.len() && (#[trigger] faces[k]).face == name].rect)
    } else {
        None
    }
}

proof fn lemma_side_names()
    ensures
        "down"@ != "up"@ && "down"@ != "east"@ && "down"@ != "north"@ && "down"@ != "west"@
            && "down"@ != "south"@,
        "up"@ != "east"@ && "up"@ != "north"@ && "up"@ != "west"@ && "up"@ != "south"@,
        "east"@ != "north"@ && "east"@ != "west"@ && "east"@ != "south"@,
        "north"@ != "west"@ && "north"@ != "south"@,
        "west"@ != "south"@,
{
    reveal_strlit("down");
    reveal_strlit("up");
    reveal_strlit("east");
    reveal_strlit("north");
    reveal_strlit("west");
    reveal_strlit("south");
    assert("down"@[0] == 'd');
    assert("up"@[0] == 'u');
    assert("east"@[0] == 'e');
    assert("north"@[0] == 'n');
    assert("west"@[0] == 'w');
    assert("south"@[0] == 's');
}

/// A cube whose columns and rows are whole numbers: each begins where the side
/// before it ends.
pub open spec fn is_whole(net: CubeNet) -> bool {
    &&& net.u1 == net.u0 + net.dz
    &&& net.u2 == net.u1 + net.dx
    &&& net.u3 == net.u2 + net.dz
    &&& net.v1 == net.v0 + net.dz
}

proof fn lemma_face_named(net: CubeNet, k: int)
    requires
        0 <= k < 6,
    ensures
        face_named(net, net_face(net, k).0) == if net_face(net, k).2 {
            Some(net_face(net, k).1)
        } else {
            None
        },
{
    reveal_with_fuel(net_faces, 7);
    lemma_side_names();
    let faces = net_faces(net, Seq::empty(), 0, 6);
    let (name, rect, area) = net_face(net, k);
    assert forall|i: int| 0 <= i < faces.len() && (#[trigger] faces[i]).face == name implies area
        && faces[i].rect == rect by {}
    if area {
        let down = net.wide && net.deep;
        let side = net.deep && net.tall;
        let front = net.wide && net.tall;
        let a: int = if down { 2 } else { 0 };
        let b: int = if side { 1 } else { 0 };
        let c: int = if front { 1 } else { 0 };
        let place = if k == 0 {
            0
        } else if k == 1 {
            1
        } else if k == 2 {
            a
        } else if k == 3 {
            a + b
        } else if k == 4 {
            a + b + c
        } else {
            a + b + c + b
        };
        assert(faces[place].face == name);
    }
}

/// A cube of full extent unfolds into a net without gaps: west, north, east and
/// south lie side by side in one row, each beginning where the one before ends;
/// down stands upon north and up upon east's column, beside down; the net begins
/// at the cube's own corner.
pub proof fn nets_unfold_without_gaps(net: CubeNet)
    requires
        net.wide && net.tall && net.deep,
    ensures
        ({
            let west = face_named(net, "west"@);
            let north = face_named(net, "north"@);
            let east = face_named(net, "east"@);
            let south = face_named(net, "south"@);
            let down = face_named(net, "down"@);
            let up = face_named(net, "up"@);
            &&& west is Some && north is Some && east is Some && south is Some && down is Some
                && up is Some
            &&& west->0.x == net.u0 && west->0.y == net.v1 && down->0.y == net.v0
            &&& north->0.x == net.u1 && east->0.x == net.u2 && south->0.x == net.u3
            &&& north->0.y == west->0.y && east->0.y == west->0.y && south->0.y == west->0.y
            &&& down->0.x == north->0.x && up->0.x == east->0.x && up->0.y == down->0.y
            &&& is_whole(net) ==> {
                &&& west->0.x + west->0.width == north->0.x
                &&& north->0.x + north->0.width == east->0.x
                &&& east->0.x + east->0.width == south->0.x
                &&& down->0.y + down->0.height == north->0.y
                &&& up->0.y + up->0.height == east->0.y
                &&& down->0.x + down->0.width == up->0.x
            }
        }),
{
    lemma_face_named(net, 0);
    lemma_face_named(net, 1);
    lemma_face_named(net, 2);
    lemma_face_named(net, 3);
    lemma_face_named(net, 4);
    lemma_face_named(net, 5);
}

/// No pixel of a whole net belongs to two faces.
pub proof fn faces_of_a_net_do_not_overlap(
    net: CubeNet,
    texture: Seq<char>,
    group: int,
    k: int,
    l: int,
    x: int,
    y: int,
)
    requires
        is_whole(net),
        0 <= k < l < net_faces(net, texture, group, 6).len(),
        net_faces(net, texture, group, 6)[k].rect.covers(x, y),
    ensures
        !net_faces(net, texture, group, 6)[l].rect.covers(x, y),
{
    reveal_with_fuel(net_faces, 7);
}

/// A cube has a face of a name just where it extends along both of the side's
/// axes.
pub proof fn flat_cubes_lack_the_sides_without_area(net: CubeNet)
    ensures
        face_named(net, "north"@) is Some <==> net.wide && net.tall,
        face_named(net, "south"@) is Some <==> net.wide && net.tall,
        face_named(net, "east"@) is Some <==> net.deep && net.tall,
        face_named(net, "west"@) is Some <==> net.deep && net.tall,
        face_named(net, "up"@) is Some <==> net.wide && net.deep,
        face_named(net, "down"@) is Some <==> net.wide && net.deep,
{
    lemma_face_named(net, 0);
    lemma_face_named(net, 1);
    lemma_face_named(net, 2);
    lemma_face_named(net, 3);
    lemma_face_named(net, 4);
    lemma_face_named(net, 5);
}

/// The cubes of a part, and after them those of the parts below it.
pub open spec fn part_cubes(part: EntityPart) -> Seq<CubeNet>
    decreases part, 0int,
{
    part.cubes@ + parts_cubes(part.children@, part.children@.len() as int)
}

/// The cubes of the first `count` parts.
pub open spec fn parts_cubes(parts: Seq<EntityPart>, count: int) -> Seq<CubeNet>
    decreases parts, count,
{
    if count <= 0 || count > parts.len() {
        Seq::empty()
    } else {
        parts_cubes(parts, count - 1) + part_cubes(parts[count - 1])
    }
}

proof fn lemma_cubes_prefix(
    a: Seq<CubeNet>,
    b: Seq<CubeNet>,
    texture: Seq<char>,
    start: int,
    count: int,
)
    requires
        0 <= count <= a.len(),
    ensures
        cube_faces(a + b, texture, start, count) == cube_faces(a, texture, start, count),
        cube_groups(a + b, count) == cube_groups(a, count),
    decreases count,
{
    if count > 0 {
        lemma_cubes_prefix(a, b, texture, start, count - 1);
        assert((a + b)[count - 1] == a[count - 1]);
    }
}

proof fn lemma_cubes_split(
    a: Seq<CubeNet>,
    b: Seq<CubeNet>,
    texture: Seq<char>,
    start: int,
    count: int,
)
    requires
        0 <= count <= b.len(),
    ensures
        cube_faces(a + b, texture, start, a.len() + count) == cube_faces(
            a,
            texture,
            start,
            a.len() as int,
        ) + cube_faces(b, texture, start + cube_groups(a, a.len() as int), count),
        cube_groups(a + b, a.len() + count) == cube_groups(a, a.len() as int) + cube_groups(
            b,
            count,
        ),
    decreases count,
{
    let whole = a.len() as int;
    if count > 0 {
        lemma_cubes_split(a, b, texture, start, count - 1);
        assert((a + b)[whole + count - 1] == b[count - 1]);
        let first = cube_faces(a, texture, start, whole);
        let next = start + cube_groups(a, whole);
        let second = cube_faces(b, texture, next, count - 1);
        let last = net_faces(b[count - 1], texture, next + cube_groups(b, count - 1), 6);
        assert((first + second) + last =~= first + (second + last));
    } else {
        lemma_cubes_prefix(a, b, texture, start, whole);
        assert(cube_faces(a, texture, start, whole) + Seq::empty() =~= cube_faces(
            a,
            texture,
            start,
            whole,
        ));
    }
}

proof fn lemma_part_flattened(part: EntityPart, texture: Seq<char>, start: int)
    ensures
        part_faces(part, texture, start) == cube_faces(
            part_cubes(part),
            texture,
            start,
            part_cubes(part).len() as int,
        ),
        part_groups(part) == cube_groups(part_cubes(part), part_cubes(part).len() as int),
    decreases part, 0int,
{
    let own = part.cubes@;
    let below = parts_cubes(part.children@, part.children@.len() as int);
    lemma_parts_flattened(
        part.children@,
        texture,
        start + cube_groups(own, own.len() as int),
        part.children@.len() as int,
    );
    lemma_cubes_split(own, below, texture, start, below.len() as int);
}

proof fn lemma_parts_flattened(parts: Seq<EntityPart>, texture: Seq<char>, start: int, count: int)
    requires
        0 <= count <= parts.len(),
    ensures
        parts_faces(parts, texture, start, count) == cube_faces(
            parts_cubes(parts, count),
            texture,
            start,
            parts_cubes(parts, count).len() as int,
        ),
        parts_groups(parts, count) == cube_groups(
            parts_cubes(parts, count),
            parts_cubes(parts, count).len() as int,
        ),
    decreases parts, count,
{
    if count > 0 {
        let before = parts_cubes(parts, count - 1);
        let last = part_cubes(parts[count - 1]);
        lemma_parts_flattened(parts, texture, start, count - 1);
        lemma_part_flattened(
            parts[count - 1],
            texture,
            start + parts_groups(parts, count - 1),
        );
        lemma_cubes_split(before, last, texture, start, last.len() as int);
    }
}

/// However the parts of an entity model are nested, its faces are those of its
/// cubes one after the other, a part's own before those of the parts below it;
/// and the faces of cube `i` are there, with a number that counts the cubes with
/// faces before it.
pub proof fn nesting_does_not_matter(layout: EntityLayout, model: ModelFaces, i: int, k: int)
    requires
        call_ensures(parse_entity_model, (&layout,), model),
    ensures
        ({
            let cubes = parts_cubes(layout.parts@, layout.parts@.len() as int);
            &&& face_views(model.faces@) == cube_faces(
                cubes,
                Seq::empty(),
                0,
                cubes.len() as int,
            )
            &&& 0 <= i < cubes.len() && 0 <= k < net_faces(cubes[i], Seq::empty(), 0, 6).len()
                ==> exists|at: int|
                0 <= at < model.faces@.len() && (#[trigger] model.faces@[at]).rect == net_faces(
                    cubes[i],
                    Seq::empty(),
                    0,
                    6,
                )[k].rect && model.faces@[at].face@ == net_faces(cubes[i], Seq::empty(), 0, 6)[k].face
                    && model.faces@[at].group == cube_groups(cubes, i)
        }),
{
    let cubes = parts_cubes(layout.parts@, layout.parts@.len() as int);
    let count = cubes.len() as int;
    lemma_parts_flattened(layout.parts@, Seq::empty(), 0, layout.parts@.len() as int);
    if 0 <= i < count && 0 <= k < net_faces(cubes[i], Seq::empty(), 0, 6).len() {
        lemma_cube_present(cubes, Seq::empty(), i, count);
        lemma_group_alone(cubes[i], Seq::empty(), 0, cube_groups(cubes, i), 6);
        lemma_net_group(cubes[i], Seq::empty(), cube_groups(cubes, i), 6, k);
        let at = cube_faces(cubes, Seq::empty(), 0, i).len() + k;
        assert(face_views(model.faces@)[at] == model.faces@[at]@);
        assert(model.faces@[at].rect == net_faces(cubes[i], Seq::empty(), 0, 6)[k].rect);
    }
}

/// The faces of a cube are the same in every group, but for the group.
proof fn lemma_group_alone(net: CubeNet, texture: Seq<char>, a: int, b: int, count: int)
    ensures
        net_faces(net, texture, a, count).len() == net_faces(net, texture, b, count).len(),
        forall|k: int|
            0 <= k < net_faces(net, texture, a, count).len() ==> (#[trigger] net_faces(
                net,
                texture,
                a,
                count,
            )[k]).rect == net_faces(net, texture, b, count)[k].rect && net_faces(
                net,
                texture,
                a,
                count,
            )[k].face == net_faces(net, texture, b, count)[k].face,
    decreases count,
{
    if count > 0 {
        lemma_group_alone(net, texture, a, b, count - 1);
    }
}

proof fn lemma_cube_present(cubes: Seq<CubeNet>, texture: Seq<char>, i: int, count: int)
    requires
        0 <= i < count <= cubes.len(),
    ensures
        ({
            let all = cube_faces(cubes, texture, 0, count);
            let place = cube_faces(cubes, texture, 0, i).len();
            let own = net_faces(cubes[i], texture, cube_groups(cubes, i), 6);
            &&& place + own.len() <= all.len()
            &&& forall|k: int| 0 <= k < own.len() ==> all[place + k] == #[trigger] own[k]
        }),
    decreases count,
{
    if i < count - 1 {
        lemma_cube_present(cubes, texture, i, count - 1);
    }
}

/// A model that gives the size of its texture has that space, and any other the
/// standard one; no entity model names textures.
pub proof fn entity_models_have_their_own_space(layout: EntityLayout, model: ModelFaces)
    requires
        call_ensures(parse_entity_model, (&layout,), model),
    ensures
        layout.texture_size matches Some(size) ==> model.uv_size == size,
        layout.texture_size is None ==> model.uv_size.width.whole == 16
            && model.uv_size.height.whole == 16 && model.uv_size.width.bits == 0x4180_0000
            && model.uv_size.height.bits == 0x4180_0000,
        model.textures@.len() == 0,
{
}

/// Without its leading hashes, a name begins with none, and only hashes are
/// gone.
pub proof fn leading_hashes_alone_are_dropped(text: Seq<char>, i: int)
    ensures
        without_hashes(text).len() > 0 ==> without_hashes(text)[0] != '#',
        without_hashes(text).len() <= text.len(),
        without_hashes(text) == text.skip(text.len() - without_hashes(text).len()),
        0 <= i < text.len() - without_hashes(text).len() ==> text[i] == '#',
    decreases text.len(),
{
    if text.len() > 0 && text[0] == '#' {
        leading_hashes_alone_are_dropped(text.skip(1), i - 1);
        let rest = without_hashes(text);
        assert(text.skip(1).skip(text.len() - 1 - rest.len()) =~= text.skip(
            text.len() - rest.len(),
        ));
        if 0 < i < text.len() - rest.len() {
            assert(text.skip(1)[i - 1] == text[i]);
        }
    } else {
        assert(text.skip(0) =~= text);
    }
}

/// The model face is that of a block face with a rectangle: the rectangle and
/// name as they are, the element's number as its group, and the texture that it
/// names, or else the first that the model names.
pub open spec fn comes_from(
    view: FaceView,
    elements: Seq<BlockElement>,
    textures: Seq<(String, String)>,
    i: int,
    k: int,
) -> bool {
    &&& 0 <= i < elements.len()
    &&& 0 <= k < elements[i].faces@.len()
    &&& elements[i].faces@[k].rect == Some(view.rect)
    &&& view.face == elements[i].faces@[k].name@
    &&& i <= u32::MAX ==> view.group == i
    &&& match elements[i].faces@[k].texture {
        Some(name) => view.texture == without_hashes(name@),
        None => (textures.len() > 0 ==> view.texture == textures[0].0@) && (textures.len() == 0
            ==> view.texture.len() == 0),
    }
}

proof fn lemma_element_face(
    faces: Seq<BlockFace>,
    textures: Seq<(String, String)>,
    group: usize,
    count: int,
    at: int,
)
    requires
        0 <= count <= faces.len(),
        0 <= at < element_faces(faces, textures, group, count).len(),
    ensures
        exists|k: int|
            0 <= k < count && (#[trigger] faces[k]).rect is Some && element_faces(
                faces,
                textures,
                group,
                count,
            )[at] == block_face_view(faces[k], textures, group),
    decreases count,
{
    let before = element_faces(faces, textures, group, count - 1);
    if at < before.len() {
        lemma_element_face(faces, textures, group, count - 1, at);
        let k = choose|k: int|
            0 <= k < count - 1 && (#[trigger] faces[k]).rect is Some && before[at]
                == block_face_view(faces[k], textures, group);
        assert(faces[k].rect is Some);
    } else {
        assert(faces[count - 1].rect is Some);
    }
}

proof fn lemma_block_face(
    elements: Seq<BlockElement>,
    textures: Seq<(String, String)>,
    count: int,
    at: int,
)
    requires
        0 <= count <= elements.len() <= usize::MAX,
        0 <= at < block_faces(elements, textures, count).len(),
    ensures
        exists|i: int, k: int| #[trigger]
            comes_from(block_faces(elements, textures, count)[at], elements, textures, i, k),
    decreases count,
{
    let before = block_faces(elements, textures, count - 1);
    if at < before.len() {
        lemma_block_face(elements, textures, count - 1, at);
        let (i, k) = choose|i: int, k: int| #[trigger]
            comes_from(before[at], elements, textures, i, k);
        assert(block_faces(elements, textures, count)[at] == before[at]);
        assert(comes_from(block_faces(elements, textures, count)[at], elements, textures, i, k));
    } else {
        let faces = elements[count - 1].faces@;
        let group = (count - 1) as usize;
        lemma_element_face(faces, textures, group, faces.len() as int, at - before.len());
        let k = choose|k: int|
            0 <= k < faces.len() && (#[trigger] faces[k]).rect is Some && element_faces(
                faces,
                textures,
                group,
                faces.len() as int,
            )[at - before.len()] == block_face_view(faces[k], textures, group);
        assert(comes_from(
            block_faces(elements, textures, count)[at],
            elements,
            textures,
            count - 1,
            k,
        ));
    }
}

proof fn lemma_element_kept(
    faces: Seq<BlockFace>,
    textures: Seq<(String, String)>,
    group: usize,
    count: int,
    k: int,
)
    requires
        0 <= k < count <= faces.len(),
        faces[k].rect is Some,
    ensures
        exists|at: int|
            0 <= at < element_faces(faces, textures, group, count).len() && #[trigger] element_faces(
                faces,
                textures,
                group,
                count,
            )[at] == block_face_view(faces[k], textures, group),
    decreases count,
{
    let before = element_faces(faces, textures, group, count - 1);
    let all = element_faces(faces, textures, group, count);
    let view = block_face_view(faces[k], textures, group);
    if k < count - 1 {
        lemma_element_kept(faces, textures, group, count - 1, k);
        let at = choose|at: int| 0 <= at < before.len() && #[trigger] before[at] == view;
        assert(all[at] == view);
    } else {
        assert(all[before.len() as int] == view);
    }
}

proof fn lemma_block_kept(
    elements: Seq<BlockElement>,
    textures: Seq<(String, String)>,
    count: int,
    i: int,
    k: int,
)
    requires
        0 <= i < count <= elements.len() <= usize::MAX,
        0 <= k < elements[i].faces@.len(),
        elements[i].faces@[k].rect is Some,
    ensures
        exists|at: int|
            0 <= at < block_faces(elements, textures, count).len() && comes_from(
                #[trigger] block_faces(elements, textures, count)[at],
                elements,
                textures,
                i,
                k,
            ),
    decreases count,
{
    let before = block_faces(elements, textures, count - 1);
    let all = block_faces(elements, textures, count);
    if i < count - 1 {
        lemma_block_kept(elements, textures, count - 1, i, k);
        let at = choose|at: int|
            0 <= at < before.len() && comes_from(#[trigger] before[at], elements, textures, i, k);
        assert(all[at] == before[at]);
    } else {
        let faces = elements[i].faces@;
        lemma_element_kept(faces, textures, i as usize, faces.len() as int, k);
        let own = element_faces(faces, textures, i as usize, faces.len() as int);
        let view = block_face_view(faces[k], textures, i as usize);
        let at = choose|at: int| 0 <= at < own.len() && #[trigger] own[at] == view;
        assert(all[before.len() + at] == view);
    }
}

/// A block model has a face for every face of its elements that has a rectangle,
/// and no other; each keeps its rectangle and its name, and has its element's
/// number. The file's textures are kept, and the space is the standard one,
/// whatever the file would be as an entity model.
pub proof fn block_models_have_the_faces_of_their_elements(
    root: Json,
    entity: Result<EntityLayout, String>,
    elements: Vec<BlockElement>,
    model: Result<ModelFaces, String>,
    at: int,
    i: int,
    k: int,
)
    requires
        call_ensures(
            parse_model,
            (&root, entity, Ok::<Vec<BlockElement>, String>(elements)),
            model,
        ),
        root@.get("parts"@) is None,
    ensures
        model is Ok,
        ({
            let faces = model->Ok_0.faces@;
            let textures = model->Ok_0.textures@;
            &&& 0 <= at < faces.len() ==> exists|i: int, k: int| #[trigger]
                comes_from(faces[at]@, elements@, textures, i, k)
            &&& 0 <= i < elements@.len() && 0 <= k < elements@[i].faces@.len()
                && elements@[i].faces@[k].rect is Some ==> exists|at: int|
                0 <= at < faces.len() && comes_from((#[trigger] faces[at])@, elements@, textures, i, k)
        }),
        model->Ok_0.uv_size.width.whole == 16 && model->Ok_0.uv_size.height.whole == 16,
{
    let faces = model->Ok_0.faces@;
    let textures = model->Ok_0.textures@;
    let count = elements@.len() as int;
    assert(elements@.len() == elements.len());
    let views = block_faces(elements@, textures, count);
    assert(face_views(faces) == views);
    if 0 <= at < faces.len() {
        lemma_block_face(elements@, textures, count, at);
        assert(face_views(faces)[at] == faces[at]@);
    }
    if 0 <= i < elements@.len() && 0 <= k < elements@[i].faces@.len()
        && elements@[i].faces@[k].rect is Some {
        lemma_block_kept(elements@, textures, count, i, k);
        let at = choose|at: int|
            0 <= at < views.len() && comes_from(#[trigger] views[at], elements@, textures, i, k);
        assert(face_views(faces)[at] == faces[at]@);
        assert(comes_from(faces[at]@, elements@, textures, i, k));
    }
}

proof fn lemma_text_entries(entries: Seq<(Seq<char>, JsonView)>, count: int, i: int, at: int)
    requires
        0 <= count <= entries.len(),
    ensures
        0 <= at < text_entries(entries, count).len() ==> exists|i: int|
            0 <= i < count && (#[trigger] entries[i]).0 == text_entries(entries, count)[at].0
                && entries[i].1 == JsonView::Text(text_entries(entries, count)[at].1),
        0 <= i < count && entries[i].1 is Text ==> exists|at: int|
            0 <= at < text_entries(entries, count).len() && #[trigger] text_entries(
                entries,
                count,
            )[at] == (entries[i].0, entries[i].1->Text_0),
    decreases count,
{
    if count > 0 {
        let before = text_entries(entries, count - 1);
        let all = text_entries(entries, count);
        lemma_text_entries(entries, count - 1, i, at);
        if 0 <= at < before.len() {
            let i = choose|i: int|
                0 <= i < count - 1 && (#[trigger] entries[i]).0 == before[at].0 && entries[i].1
                    == JsonView::Text(before[at].1);
            assert(entries[i].0 == all[at].0);
        } else if at == before.len() {
            assert(entries[count - 1].0 == entries[count - 1].0);
        }
        if 0 <= i < count && entries[i].1 is Text {
            if i < count - 1 {
                let at = choose|at: int|
                    0 <= at < before.len() && #[trigger] before[at] == (
                        entries[i].0,
                        entries[i].1->Text_0,
                    );
                assert(all[at] == before[at]);
            } else {
                assert(all[before.len() as int] == (entries[i].0, entries[i].1->Text_0));
            }
        }
    }
}

/// A block model has the textures that its file names by text, and no other.
pub proof fn block_models_have_the_textures_of_their_file(
    root: Json,
    entity: Result<EntityLayout, String>,
    block: Result<Vec<BlockElement>, String>,
    model: ModelFaces,
    entries: Seq<(Seq<char>, JsonView)>,
    i: int,
    at: int,
)
    requires
        call_ensures(parse_model, (&root, entity, block), Ok::<ModelFaces, String>(model)),
        root@.get("parts"@) is None,
        root@.get("textures"@) == Some(JsonView::Object(entries)),
    ensures
        0 <= at < model.textures@.len() ==> exists|i: int|
            0 <= i < entries.len() && (#[trigger] entries[i]).0 == model.textures@[at].0@
                && entries[i].1 == JsonView::Text(model.textures@[at].1@),
        0 <= i < entries.len() && entries[i].1 is Text ==> exists|at: int|
            0 <= at < model.textures@.len() && (#[trigger] model.textures@[at]).0@ == entries[i].0
                && model.textures@[at].1@ == entries[i].1->Text_0,
{
    let count = entries.len() as int;
    let views = text_entries(entries, count);
    lemma_text_entries(entries, count, i, at);
    assert(texture_views(model.textures@) == views);
    if 0 <= at < model.textures@.len() {
        assert(texture_views(model.textures@)[at] == views[at]);
    }
    if 0 <= i < entries.len() && entries[i].1 is Text {
        let at = choose|at: int|
            0 <= at < views.len() && #[trigger] views[at] == (entries[i].0, entries[i].1->Text_0);
        assert(texture_views(model.textures@)[at] == views[at]);
        assert(model.textures@[at].0@ == entries[i].0);
    }
}

/// A file with parts is read as an entity model and as nothing else: what it
/// would be as a block model does not matter, and where it has not the structure
/// of one, that is what is said.
pub proof fn files_with_parts_are_entity_models(
    root: Json,
    entity: Result<EntityLayout, String>,
    block: Result<Vec<BlockElement>, String>,
    model: Result<ModelFaces, String>,
    read: ModelFaces,
)
    requires
        call_ensures(parse_model, (&root, entity, block), model),
        root@.get("parts"@) is Some,
        entity matches Ok(layout) ==> call_ensures(parse_entity_model, (&layout,), read),
    ensures
        match entity {
            Ok(_) => model matches Ok(model) && face_views(model.faces@) == face_views(read.faces@)
                && model.uv_size == read.uv_size && model.textures@.len() == 0,
            Err(reason) => model matches Err(e) && e@ == "unsupported entity model structure: "@
                + reason@,
        },
{
}

/// A file without parts that has not the structure of a block model is refused
/// for that.
pub proof fn files_without_structure_are_refused(
    root: Json,
    entity: Result<EntityLayout, String>,
    reason: String,
    model: Result<ModelFaces, String>,
)
    requires
        call_ensures(
            parse_model,
            (&root, entity, Err::<Vec<BlockElement>, String>(reason)),
            model,
        ),
        root@.get("parts"@) is None,
    ensures
        model matches Err(e) && e@ == "unsupported block model structure: "@ + reason@,
{
}

/// A model file is read as its contents are, where they are JSON, and refused
/// with the reason where they are not or cannot be had.
pub proof fn model_files_are_read_as_their_contents(
    text: String,
    root: Json,
    entity: Result<EntityLayout, String>,
    block: Result<Vec<BlockElement>, String>,
    loaded: Result<ModelFaces, String>,
    parsed: Result<ModelFaces, String>,
)
    requires
        call_ensures(load_model, (Ok::<String, String>(text), entity, block), loaded),
        call_ensures(parse_model, (&root, entity, block), parsed),
        parsed_text(text@) == Ok::<JsonView, Seq<char>>(root@),
    ensures
        loaded is Ok <==> parsed is Ok,
        loaded is Err ==> loaded->Err_0@ == parsed->Err_0@,
        loaded is Ok ==> texture_views(loaded->Ok_0.textures@) == texture_views(
            parsed->Ok_0.textures@,
        ) && loaded->Ok_0.uv_size == parsed->Ok_0.uv_size,
{
    if loaded is Ok && root@.get("parts"@) is Some {
        assert(texture_views(loaded->Ok_0.textures@) =~= texture_views(parsed->Ok_0.textures@));
    }
}

/// A model file that cannot be read or parsed is refused with the reason.
pub proof fn unreadable_model_files_are_refused(
    data: Result<String, String>,
    entity: Result<EntityLayout, String>,
    block: Result<Vec<BlockElement>, String>,
    loaded: Result<ModelFaces, String>,
)
    requires
        call_ensures(load_model, (data, entity, block), loaded),
    ensures
        data matches Err(reason) ==> (loaded matches Err(e) && e@ == "cannot read model: "@
            + reason@),
        data matches Ok(text) ==> (parsed_text(text@) matches Err(reason) ==> (loaded matches Err(e)
            && e@ == "cannot parse model: "@ + reason)),
{
}

/// The faces of a cube of full extent come in this order: down, up, east, north,
/// west, south.
pub proof fn faces_come_in_a_fixed_order(net: CubeNet, texture: Seq<char>, group: int)
    requires
        net.wide && net.tall && net.deep,
    ensures
        net_faces(net, texture, group, 6).map_values(|face: FaceView| face.face) == seq![
            "down"@,
            "up"@,
            "east"@,
            "north"@,
            "west"@,
            "south"@,
        ],
{
    reveal_with_fuel(net_faces, 7);
    assert(net_faces(net, texture, group, 6).map_values(|face: FaceView| face.face) =~= seq![
        "down"@,
        "up"@,
        "east"@,
        "north"@,
        "west"@,
        "south"@,
    ]);
}

/// The boxes of an entity model are numbered from zero on, without a gap: a cube
/// without faces takes no number.
pub proof fn boxes_are_numbered_without_gaps(layout: EntityLayout, model: ModelFaces, k: int)
    requires
        call_ensures(parse_entity_model, (&layout,), model),
        0 <= k < model.faces@.len(),
    ensures
        k == 0 ==> model.faces@[k].group == 0,
        k > 0 ==> model.faces@[k].group == model.faces@[k - 1].group || model.faces@[k].group
            == model.faces@[k - 1].group + 1,
{
    let cubes = parts_cubes(layout.parts@, layout.parts@.len() as int);
    nesting_does_not_matter(layout, model, 0, 0);
    let views = face_views(model.faces@);
    lemma_cubes_without_gaps(cubes, Seq::empty(), cubes.len() as int, k);
    assert(views[k] == model.faces@[k]@);
    if k > 0 {
        assert(views[k - 1] == model.faces@[k - 1]@);
    }
}

proof fn lemma_cubes_without_gaps(cubes: Seq<CubeNet>, texture: Seq<char>, count: int, k: int)
    requires
        0 <= count <= cubes.len(),
    ensures
        ({
            let faces = cube_faces(cubes, texture, 0, count);
            &&& faces.len() == 0 ==> cube_groups(cubes, count) == 0
            &&& faces.len() > 0 ==> faces.last().group == cube_groups(cubes, count) - 1
            &&& faces.len() > 0 ==> faces[0].group == 0
            &&& 0 < k < faces.len() ==> faces[k].group == faces[k - 1].group || faces[k].group
                == faces[k - 1].group + 1
        }),
    decreases count,
{
    if count > 0 {
        let before = cube_faces(cubes, texture, 0, count - 1);
        let group = cube_groups(cubes, count - 1);
        let last = net_faces(cubes[count - 1], texture, group, 6);
        let faces = cube_faces(cubes, texture, 0, count);
        lemma_cubes_without_gaps(cubes, texture, count - 1, k);
        flat_cubes_keep_the_faces_with_area(cubes[count - 1], texture, group);
        assert(faces =~= before + last);
        if last.len() > 0 {
            lemma_net_group(cubes[count - 1], texture, group, 6, last.len() - 1);
            lemma_net_group(cubes[count - 1], texture, group, 6, 0);
            assert(faces.last() == last[last.len() - 1]);
        }
        if before.len() <= k < faces.len() {
            lemma_net_group(cubes[count - 1], texture, group, 6, k - before.len());
            if before.len() < k {
                lemma_net_group(cubes[count - 1], texture, group, 6, k - 1 - before.len());
            }
        }
    }
}

} // verus!
