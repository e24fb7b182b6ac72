//! Which model files become entity models.
use crate::codec::{parse_text, parsed_text};
use crate::json::{Json, JsonView};
use crate::keys::{
    base_of, class_key, lowercase, lowercased, model_key, normalize_key, normalized,
    strip_key_prefix,
};
use crate::matching::EntityModel;
use crate::model::{ModelFaces, UvSize};
use crate::parse::{face_views, parse_entity_model, parts_faces, parts_groups, EntityLayout, FaceView};
use crate::text::{segments, split_text};
use vstd::prelude::*;

verus! {

/// The text under a key of a model file.
pub open spec fn text_under(root: JsonView, key: Seq<char>) -> Option<Seq<char>> {
    match root.get(key) {
        Some(value) => value.as_text(),
        None => None,
    }
}

/// The faces of an entity model.
pub open spec fn layout_faces(layout: EntityLayout) -> Seq<FaceView> {
    parts_faces(layout.parts@, Seq::empty(), 0, layout.parts@.len() as int)
}

/// A file says that it is an entity model: it has a list of parts and names a
/// class with a key.
pub open spec fn claims_entity(root: JsonView) -> bool {
    &&& root.get("parts"@) matches Some(parts) && parts is Array
    &&& text_under(root, "model"@) matches Some(class) && class_key(class).len() > 0
}

/// A file is an entity model: it says so, has the structure of one, and has
/// faces.
pub open spec fn is_entity_model(root: JsonView, entity: Result<EntityLayout, String>) -> bool {
    &&& claims_entity(root)
    &&& entity matches Ok(layout) && layout_faces(layout).len() > 0
}

/// The file gives the size of the model's texture.
pub open spec fn gives_texture_size(root: JsonView) -> bool {
    root.get("texture_size"@) matches Some(size) && !(size is Null)
}

/// The packages of a class: all that its name has but the last piece.
pub open spec fn package_keys(class: Seq<char>) -> Seq<Seq<char>> {
    segments(class, '.').drop_last().map_values(|piece: Seq<char>| normalized(piece))
}

/// The model has what the file says.
pub open spec fn describes(root: JsonView, layout: EntityLayout, model: EntityModel) -> bool {
    let class = text_under(root, "model"@)->0;
    &&& model.key@ == class_key(class)
    &&& model.base_key@ == base_of(class_key(class))
    &&& model.pkg_dirs@.map_values(|dir: String| dir@) == package_keys(class)
    &&& model.method@ == match text_under(root, "method"@) {
        Some(method) => lowercased(method),
        None => Seq::empty(),
    }
    &&& model.has_texture_size == gives_texture_size(root)
    &&& face_views(model.faces.faces@) == layout_faces(layout)
    &&& model.faces.textures@.len() == 0
    &&& model.faces.uv_size == match layout.texture_size {
        Some(size) => size,
        None => UvSize::standard_spec(),
    }
}

fn list_packages(class: &str) -> (keys: Vec<String>)
    ensures
        keys@.map_values(|dir: String| dir@) == package_keys(class@),
{
    let pieces = split_text(class, '.');
    let ghost all = segments(class@, '.');
    let mut keys: Vec<String> = Vec::new();
    let mut i: usize = 0;
    while i + 1 < pieces.len()
        invariant
            i + 1 <= pieces.len(),
            all == segments(class@, '.'),
            pieces@.len() == all.len(),
            forall|i: int| 0 <= i < pieces@.len() ==> (#[trigger] pieces@[i])@ == all[i],
            keys@.len() == i,
            forall|k: int| 0 <= k < i ==> (#[trigger] keys@[k])@ == normalized(all[k]),
        decreases pieces.len() - i,
    {
        keys.push(normalize_key(pieces[i].as_str()));
        i = i + 1;
    }
    assert(keys@.map_values(|dir: String| dir@) =~= package_keys(class@));
    keys
}

/// Turns a model file into an entity model, if it is one.
pub fn admit_entity_model(root: &Json, entity: Result<EntityLayout, String>) -> (model: Option<
    EntityModel,
>)
    requires
        claims_entity(root@) ==> (entity matches Ok(layout) ==> parts_groups(
            layout.parts@,
            layout.parts@.len() as int,
        ) <= u32::MAX),
    ensures
        model is Some <==> is_entity_model(root@, entity),
        model matches Some(model) ==> describes(root@, entity->Ok_0, model),
{
    let listed = match root.get("parts") {
        Some(parts) => parts.is_array(),
        None => false,
    };
    if !listed {
        return None;
    }
    let class = match root.get("model") {
        Some(value) => match value.as_text() {
            Some(class) => class,
            None => return None,
        },
        None => return None,
    };
    let key = model_key(class.as_str());
    if key.as_str().unicode_len() == 0 {
        return None;
    }
    let has_texture_size = match root.get("texture_size") {
        Some(size) => !size.is_null(),
        None => false,
    };
    let faces = match &entity {
        Ok(layout) => parse_entity_model(layout),
        Err(_) => return None,
    };
    if faces.faces.len() == 0 {
        assert(face_views(faces.faces@).len() == 0);
        return None;
    }
    assert(face_views(faces.faces@).len() > 0);
    let method = match root.get("method") {
        Some(value) => match value.as_text() {
            Some(method) => lowercase(method.as_str()),
            None => String::new(),
        },
        None => String::new(),
    };
    let pkg_dirs = list_packages(class.as_str());
    let base_key = strip_key_prefix(key.as_str());
    Some(EntityModel { faces, has_texture_size, key, base_key, pkg_dirs, method })
}

/// A model file: its text, and its contents as an entity model or the reason
/// why they are not one.
#[derive(Debug)]
pub struct ModelFile {
    pub text: String,
    pub entity: Result<EntityLayout, String>,
}

impl ModelFile {
    /// The model's boxes can be numbered.
    pub open spec fn countable(self) -> bool {
        self.entity matches Ok(layout) ==> parts_groups(layout.parts@, layout.parts@.len() as int)
            <= u32::MAX
    }

    /// The file is an entity model.
    pub open spec fn admitted(self) -> bool {
        parsed_text(self.text@) matches Ok(root) && is_entity_model(root, self.entity)
    }

    /// The model has what the file says.
    pub open spec fn describes(self, model: EntityModel) -> bool {
        describes(parsed_text(self.text@)->Ok_0, self.entity->Ok_0, model)
    }
}

/// Reads an entity model out of a file, if it is one.
pub fn read_entity_model(file: ModelFile) -> (model: Option<EntityModel>)
    requires
        file.countable(),
    ensures
        model is Some <==> file.admitted(),
        model matches Some(model) ==> file.describes(model),
{
    match parse_text(file.text.as_str()) {
        Ok(root) => admit_entity_model(&root, file.entity),
        Err(_) => None,
    }
}

/// The file is an entity model.
pub open spec fn is_admitted() -> spec_fn(ModelFile) -> bool {
    |file: ModelFile| file.admitted()
}

/// The files that are entity models, in order.
pub open spec fn admitted_files(files: Seq<ModelFile>) -> Seq<ModelFile> {
    files.filter(is_admitted())
}

/// The models are those of the files that are entity models, in their order.
pub open spec fn are_models_of(models: Seq<EntityModel>, files: Seq<ModelFile>) -> bool {
    &&& models.len() == admitted_files(files).len()
    &&& forall|i: int|
        0 <= i < models.len() ==> admitted_files(files)[i].describes(#[trigger] models[i])
}

/// Reads the entity models among the files; any other file is passed over.
pub fn load_entity_models(files: Vec<ModelFile>) -> (models: Vec<EntityModel>)
    requires
        forall|i: int| 0 <= i < files@.len() ==> (#[trigger] files@[i]).countable(),
    ensures
        are_models_of(models@, files@),
{
    let mut models: Vec<EntityModel> = Vec::new();
    let ghost mut seen: Seq<ModelFile> = Seq::empty();
    proof {
        reveal(Seq::filter);
    }
    let ghost all = files@;
    for file in iter: files
        invariant
            iter.seq() == all,
            seen == all.take(iter.index() as int),
            forall|i: int| 0 <= i < all.len() ==> (#[trigger] all[i]).countable(),
            are_models_of(models@, seen),
    {
        proof {
            reveal(Seq::filter);
            assert(seen.push(file).drop_last() =~= seen);
            assert(all.take(iter.index() + 1) =~= seen.push(file));
        }
        match read_entity_model(file) {
            Some(model) => models.push(model),
            None => {},
        }
        proof {
            seen = seen.push(file);
        }
    }
    assert(seen =~= all);
    models
}

/// A model file becomes an entity model just where it lists parts, names a class
/// with a key, has the structure of one and has a face; the model has the key of
/// the class, and the faces and the space that the file has as an entity model.
pub proof fn model_files_become_what_they_say(
    root: Json,
    layout: EntityLayout,
    model: Option<EntityModel>,
    class: &str,
    key: String,
    read: ModelFaces,
)
    requires
        call_ensures(admit_entity_model, (&root, Ok::<EntityLayout, String>(layout)), model),
        root@.get("parts"@) matches Some(parts) && parts is Array,
        root@.get("model"@) == Some(JsonView::Text(class@)),
        call_ensures(model_key, (class,), key),
        call_ensures(parse_entity_model, (&layout,), read),
    ensures
        model is Some <==> key@.len() > 0 && read.faces@.len() > 0,
        model matches Some(model) ==> {
            &&& model.key@ == key@
            &&& face_views(model.faces.faces@) == face_views(read.faces@)
            &&& model.faces.uv_size == read.uv_size
        },
{
    assert(face_views(read.faces@).len() == read.faces@.len());
}

/// An entity model has its key without age or climate, its class's packages, its
/// method in small letters, and says whether its file gives a texture's size.
pub proof fn entity_models_have_the_names_of_their_file(
    root: Json,
    entity: Result<EntityLayout, String>,
    model: EntityModel,
    class: &str,
    key: &str,
    base: String,
    method: &str,
    small: String,
    pieces: Vec<String>,
    i: int,
    package: String,
)
    requires
        call_ensures(admit_entity_model, (&root, entity), Some(model)),
        root@.get("model"@) == Some(JsonView::Text(class@)),
        key@ == model.key@,
        call_ensures(strip_key_prefix, (key,), base),
        call_ensures(lowercase, (method,), small),
        call_ensures(split_text, (class, '.'), pieces),
        0 <= i < pieces@.len() - 1 ==> (exists|piece: &str|
            piece@ == pieces@[i]@ && #[trigger] call_ensures(normalize_key, (piece,), package)),
    ensures
        model.base_key@ == base@,
        root@.get("method"@) == Some(JsonView::Text(method@)) ==> model.method@ == small@,
        root@.get("method"@) is None ==> model.method@.len() == 0,
        model.has_texture_size <==> (root@.get("texture_size"@) matches Some(size) && size
            != JsonView::Null),
        model.pkg_dirs@.len() == pieces@.len() - 1,
        0 <= i < pieces@.len() - 1 ==> model.pkg_dirs@[i]@ == package@,
{
    let keys = model.pkg_dirs@.map_values(|dir: String| dir@);
    assert(keys.len() == model.pkg_dirs@.len());
    if 0 <= i < pieces@.len() - 1 {
        assert(keys[i] == model.pkg_dirs@[i]@);
        assert(segments(class@, '.')[i] == pieces@[i]@);
        let piece = choose|piece: &str|
            piece@ == pieces@[i]@ && #[trigger] call_ensures(normalize_key, (piece,), package);
        assert(package@ == normalized(piece@));
    }
}

/// A file that lists no parts, or names no class by text, or has not the structure
/// of an entity model, becomes none.
pub proof fn other_files_become_no_entity_models(
    root: Json,
    entity: Result<EntityLayout, String>,
    model: Option<EntityModel>,
)
    requires
        call_ensures(admit_entity_model, (&root, entity), model),
        !(root@.get("parts"@) matches Some(JsonView::Array(_))) || !(root@.get(
            "model"@,
        ) matches Some(JsonView::Text(_))) || entity is Err,
    ensures
        model is None,
{
}

/// Among many files, each that is an entity model gives its model, each model
/// comes from such a file, and they are in the order of the files.
pub proof fn every_entity_model_is_loaded(
    files: Vec<ModelFile>,
    models: Vec<EntityModel>,
    i: int,
    k: int,
)
    requires
        call_ensures(load_entity_models, (files,), models),
    ensures
        0 <= i < files@.len() && files@[i].admitted() ==> exists|k: int|
            0 <= k < models@.len() && files@[i].describes(#[trigger] models@[k]),
        0 <= k < models@.len() ==> exists|i: int|
            0 <= i < files@.len() && (#[trigger] files@[i]).admitted() && files@[i].describes(
                models@[k],
            ),
        models@.len() <= files@.len(),
{
    let kept = admitted_files(files@);
    lemma_filter_places(files@, is_admitted(), i, k);
    if 0 <= i < files@.len() && files@[i].admitted() {
        let j = choose|j: int| 0 <= j < kept.len() && #[trigger] kept[j] == files@[i];
        assert(kept[j].describes(models@[j]));
    }
    if 0 <= k < models@.len() {
        assert(kept[k].describes(models@[k]));
        let j = choose|j: int|
            0 <= j < files@.len() && is_admitted()(#[trigger] files@[j]) && kept[k] == files@[j];
        assert(files@[j].admitted());
    }
}

proof fn lemma_filter_places(
    files: Seq<ModelFile>,
    pred: spec_fn(ModelFile) -> bool,
    i: int,
    k: int,
)
    ensures
        files.filter(pred).len() <= files.len(),
        0 <= i < files.len() && pred(files[i]) ==> exists|k: int|
            0 <= k < files.filter(pred).len() && #[trigger] files.filter(pred)[k] == files[i],
        0 <= k < files.filter(pred).len() ==> exists|i: int|
            0 <= i < files.len() && pred(#[trigger] files[i]) && files.filter(pred)[k] == files[i],
    decreases files.len(),
{
    reveal(Seq::filter);
    if files.len() > 0 {
        let before = files.drop_last();
        let kept = before.filter(pred);
        let all = files.filter(pred);
        lemma_filter_places(before, pred, i, k);
        if 0 <= i < files.len() && pred(files[i]) {
            if i < before.len() {
                assert(before[i] == files[i]);
                let j = choose|j: int| 0 <= j < kept.len() && #[trigger] kept[j] == before[i];
                assert(all[j] == files[i]);
            } else {
                assert(all[kept.len() as int] == files[i]);
            }
        }
        if 0 <= k < all.len() {
            if k < kept.len() {
                let j = choose|j: int|
                    0 <= j < before.len() && pred(#[trigger] before[j]) && kept[k] == before[j];
                assert(files[j] == before[j]);
            } else {
                assert(pred(files[files.len() - 1]));
            }
        }
    }
}

/// Models come in the order of their files.
pub proof fn models_come_in_the_order_of_their_files(
    files: Vec<ModelFile>,
    models: Vec<EntityModel>,
    k: int,
    l: int,
)
    requires
        call_ensures(load_entity_models, (files,), models),
        0 <= k < l < models@.len(),
    ensures
        exists|i: int, j: int|
            0 <= i < j < files@.len() && (#[trigger] files@[i]).describes(models@[k]) && (
            #[trigger] files@[j]).describes(models@[l]),
{
    let kept = admitted_files(files@);
    lemma_filter_order(files@, is_admitted(), k, l);
    assert(kept[k].describes(models@[k]));
    assert(kept[l].describes(models@[l]));
    let (i, j) = choose|i: int, j: int|
        0 <= i < j < files@.len() && #[trigger] files@[i] == kept[k] && #[trigger] files@[j]
            == kept[l];
    assert(files@[i].describes(models@[k]));
    assert(files@[j].describes(models@[l]));
}

proof fn lemma_filter_order(
    files: Seq<ModelFile>,
    pred: spec_fn(ModelFile) -> bool,
    k: int,
    l: int,
)
    requires
        0 <= k < l < files.filter(pred).len(),
    ensures
        exists|i: int, j: int|
            0 <= i < j < files.len() && #[trigger] files[i] == files.filter(pred)[k]
                && #[trigger] files[j] == files.filter(pred)[l],
    decreases files.len(),
{
    reveal(Seq::filter);
    let before = files.drop_last();
    let kept = before.filter(pred);
    let all = files.filter(pred);
    if l < kept.len() {
        lemma_filter_order(before, pred, k, l);
        let (i, j) = choose|i: int, j: int|
            0 <= i < j < before.len() && #[trigger] before[i] == kept[k] && #[trigger] before[j]
                == kept[l];
        assert(files[i] == all[k] && files[j] == all[l]);
    } else {
        lemma_filter_places(before, pred, 0, k);
        let i = choose|i: int|
            0 <= i < before.len() && pred(#[trigger] before[i]) && kept[k] == before[i];
        let j = files.len() - 1;
        assert(files[i] == all[k] && files[j] == all[l]);
    }
}

} // verus!
