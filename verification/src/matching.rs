//! Which entity model a texture is painted for.
use crate::keys::{extends, is_extension, CtxView, TextureCtx};
use crate::model::ModelFaces;
use crate::text::{any_same, contains_text, has_part, has_prefix, has_suffix, same_text};
use vstd::prelude::*;

verus! {

/// A model that entity textures may be stitched with.
#[derive(Debug)]
pub struct EntityModel {
    pub faces: ModelFaces,
    pub has_texture_size: bool,
    /// The key of the model's class.
    pub key: String,
    /// The key without the age or climate in front.
    pub base_key: String,
    /// The keys of the class's packages.
    pub pkg_dirs: Vec<String>,
    /// The name of the method that builds the model, in small letters.
    pub method: String,
}

/// The other keys under which a family's models go.
pub open spec fn aliases(family: Seq<char>) -> Seq<Seq<char>> {
    if family == "cat"@ {
        seq!["feline"@, "adultfeline"@, "babyfeline"@]
    } else if family == "leadknot"@ {
        seq!["leashknot"@]
    } else if family == "bear"@ {
        seq!["polarbear"@]
    } else if family == "wither"@ {
        seq!["witherboss"@]
    } else if family == "chestboat"@ {
        seq!["boat"@]
    } else if family == "zombie"@ {
        seq!["humanoid"@]
    } else if family == "horse"@ {
        seq!["abstractequine"@]
    } else {
        Seq::empty()
    }
}

/// The other keys under which a family's models go.
pub fn alias_targets(family: &str) -> (targets: Vec<&'static str>)
    ensures
        targets@.len() == aliases(family@).len(),
        forall|i: int|
            0 <= i < targets@.len() ==> (#[trigger] targets@[i])@ == aliases(family@)[i],
{
    if same_text(family, "cat") {
        vec!["feline", "adultfeline", "babyfeline"]
    } else if same_text(family, "leadknot") {
        vec!["leashknot"]
    } else if same_text(family, "bear") {
        vec!["polarbear"]
    } else if same_text(family, "wither") {
        vec!["witherboss"]
    } else if same_text(family, "chestboat") {
        vec!["boat"]
    } else if same_text(family, "zombie") {
        vec!["humanoid"]
    } else if same_text(family, "horse") {
        vec!["abstractequine"]
    } else {
        Vec::new()
    }
}

/// Whether a key is one of a family's other keys.
fn is_alias(family: &str, key: &str) -> (alias: bool)
    ensures
        alias == aliases(family@).contains(key@),
{
    let targets = alias_targets(family);
    let mut i: usize = 0;
    while i < targets.len()
        invariant
            i <= targets.len(),
            targets@.len() == aliases(family@).len(),
            forall|i: int|
                0 <= i < targets@.len() ==> (#[trigger] targets@[i])@ == aliases(family@)[i],
            forall|k: int| 0 <= k < i ==> #[trigger] aliases(family@)[k] != key@,
        decreases targets.len() - i,
    {
        assert(targets@[i as int]@ == aliases(family@)[i as int]);
        if same_text(targets[i], key) {
            return true;
        }
        i = i + 1;
    }
    false
}

/// The key of the model whose layer a kind of equipment is drawn on.
pub open spec fn equipment_key(subdir: Seq<char>) -> Option<Seq<char>> {
    if subdir == "humanoid"@ || subdir == "humanoidbaby"@ || subdir == "humanoidleggings"@ {
        Some("humanoid"@)
    } else if subdir == "wings"@ {
        Some("elytra"@)
    } else if subdir == "llamabody"@ {
        Some("llama"@)
    } else if subdir == "wolfbody"@ {
        Some("wolf"@)
    } else if subdir == "happyghastbody"@ {
        Some("happyghastharness"@)
    } else if subdir == "nautilusbody"@ {
        Some("nautilus"@)
    } else if subdir == "horsebody"@ {
        Some("abstractequine"@)
    } else if subdir == "camelsaddle"@ || subdir == "camelhusksaddle"@ {
        Some("camelsaddle"@)
    } else if subdir == "nautilussaddle"@ {
        Some("nautilussaddle"@)
    } else if subdir == "horsesaddle"@ || subdir == "mulesaddle"@ || subdir == "donkeysaddle"@
        || subdir == "skeletonhorsesaddle"@ || subdir == "zombiahorsesaddle"@ {
        Some("equinesaddle"@)
    } else {
        None
    }
}

/// The key of the model whose layer a kind of equipment is drawn on.
pub fn equipment_target(subdir: &str) -> (target: Option<&'static str>)
    ensures
        match equipment_key(subdir@) {
            Some(key) => target matches Some(target) && target@ == key,
            None => target is None,
        },
{
    if same_text(subdir, "humanoid") || same_text(subdir, "humanoidbaby") || same_text(
        subdir,
        "humanoidleggings",
    ) {
        Some("humanoid")
    } else if same_text(subdir, "wings") {
        Some("elytra")
    } else if same_text(subdir, "llamabody") {
        Some("llama")
    } else if same_text(subdir, "wolfbody") {
        Some("wolf")
    } else if same_text(subdir, "happyghastbody") {
        Some("happyghastharness")
    } else if same_text(subdir, "nautilusbody") {
        Some("nautilus")
    } else if same_text(subdir, "horsebody") {
        Some("abstractequine")
    } else if same_text(subdir, "camelsaddle") || same_text(subdir, "camelhusksaddle") {
        Some("camelsaddle")
    } else if same_text(subdir, "nautilussaddle") {
        Some("nautilussaddle")
    } else if same_text(subdir, "horsesaddle") || same_text(subdir, "mulesaddle") || same_text(
        subdir,
        "donkeysaddle",
    ) || same_text(subdir, "skeletonhorsesaddle") || same_text(subdir, "zombiahorsesaddle") {
        Some("equinesaddle")
    } else {
        None
    }
}

/// The least signal of a model that matches at all. A model without any must
/// not win on its number of faces alone.
pub const MIN_SIGNAL: i64 = 1500;

/// Armour layers: the method names armour, or the key ends with it. The
/// armour stand itself is none.
pub open spec fn is_armor(method: Seq<char>, key: Seq<char>) -> bool {
    contains_text(method, "armor"@) || "armor"@.is_suffix_of(key)
}

/// Whether a model is an armour layer.
pub fn is_armor_method(method: &str, key: &str) -> (armor: bool)
    ensures
        armor == is_armor(method@, key@),
{
    has_part(method, "armor") || has_suffix(key, "armor")
}

impl EntityModel {
    pub open spec fn is_baby(self) -> bool {
        "baby"@.is_prefix_of(self.key@) || contains_text(self.method@, "baby"@)
    }

    pub open spec fn is_adult(self) -> bool {
        "adult"@.is_prefix_of(self.key@) || contains_text(self.method@, "adult"@)
    }

    pub open spec fn is_cold(self) -> bool {
        "cold"@.is_prefix_of(self.key@) || contains_text(self.method@, "cold"@)
    }

    pub open spec fn is_warm(self) -> bool {
        "warm"@.is_prefix_of(self.key@) || contains_text(self.method@, "warm"@)
    }

    /// The model is of this kind: its key begins with the word or its method
    /// names it.
    fn is_kind(&self, word: &str) -> (kind: bool)
        ensures
            kind == (word@.is_prefix_of(self.key@) || contains_text(self.method@, word@)),
    {
        has_prefix(self.key.as_str(), word) || has_part(self.method.as_str(), word)
    }
}

/// A baby model stands by its name only for a texture that wants a baby.
pub open spec fn aligned(model: EntityModel, ctx: CtxView) -> bool {
    !(model.is_baby() && !ctx.wants_baby)
}

/// The model's key is that of the texture's family.
pub open spec fn family_signal(model: EntityModel, ctx: CtxView) -> int {
    if model.key@ == ctx.family {
        3000
    } else if model.base_key@ == ctx.family && aligned(model, ctx) {
        2600
    } else {
        0
    }
}

/// The model lives in the family's package.
pub open spec fn package_signal(model: EntityModel, ctx: CtxView) -> int {
    if exists|i: int|
        0 <= i < model.pkg_dirs@.len() && (#[trigger] model.pkg_dirs@[i])@ == ctx.family {
        2200
    } else {
        0
    }
}

/// The texture's file is named after the model.
pub open spec fn stem_signal(model: EntityModel, ctx: CtxView) -> int {
    if !aligned(model, ctx) {
        0
    } else if ctx.stripped == model.key@ {
        3400
    } else if ctx.stripped == model.base_key@ {
        3200
    } else if extends(model.key@, ctx.stripped) || extends(ctx.stripped, model.key@) {
        3000
    } else {
        0
    }
}

/// The model goes by another name of the family, and the ages agree.
pub open spec fn alias_signal(model: EntityModel, ctx: CtxView) -> int {
    if ctx.wants_baby == model.is_baby() && aliases(ctx.family).contains(model.key@) {
        2500
    } else {
        0
    }
}

/// Equipment wants the layer it is drawn on; nothing else wants armour.
pub open spec fn equipment_signal(model: EntityModel, ctx: CtxView) -> int {
    if ctx.is_equipment {
        (match equipment_key(ctx.subdir) {
            Some(target) => if target.is_prefix_of(model.key@) {
                2800int
            } else {
                0
            },
            None => 0,
        }) + (if is_armor(model.method@, model.key@) {
            2000int
        } else {
            0
        }) + (if ctx.subdir == "humanoidbaby"@ && model.is_baby() {
            1000int
        } else {
            0
        })
    } else if is_armor(model.method@, model.key@) {
        -10000
    } else {
        0
    }
}

/// A boat with a chest is for boats with a chest; a posed model is second
/// choice.
pub open spec fn method_signal(model: EntityModel, ctx: CtxView) -> int {
    let boat = if !contains_text(model.method@, "chestboat"@) {
        0int
    } else if ctx.family == "chestboat"@ {
        1500
    } else {
        -1500
    };
    let pose = if contains_text(model.method@, "pose"@) {
        -500int
    } else {
        0
    };
    boat + pose
}

/// The halves of a double chest, and a chest that stands alone.
pub open spec fn chest_signal(model: EntityModel, ctx: CtxView) -> int {
    let wanted = if contains_text(ctx.stem, "left"@) {
        "left"@
    } else if contains_text(ctx.stem, "right"@) {
        "right"@
    } else {
        "single"@
    };
    if ctx.family == "chest"@ && contains_text(model.method@, wanted) {
        1200
    } else {
        0
    }
}

/// Young textures want young models.
pub open spec fn age_signal(model: EntityModel, ctx: CtxView) -> int {
    if ctx.wants_baby {
        if model.is_baby() {
            800
        } else if model.is_adult() {
            -400
        } else {
            0
        }
    } else {
        if model.is_baby() {
            -600
        } else if model.is_adult() {
            200
        } else {
            0
        }
    }
}

/// Textures of a climate want models of it.
pub open spec fn climate_signal(model: EntityModel, ctx: CtxView) -> int {
    if ctx.wants_cold {
        if model.is_cold() {
            800
        } else {
            -800
        }
    } else if ctx.wants_warm {
        if model.is_warm() {
            800
        } else {
            -800
        }
    } else if model.is_cold() || model.is_warm() {
        -300
    } else {
        0
    }
}

/// The two bodies of the tropical fish.
pub open spec fn fish_signal(model: EntityModel, ctx: CtxView) -> int {
    let small = if "tropicala"@.is_prefix_of(ctx.stripped) && contains_text(
        model.key@,
        "small"@,
    ) {
        600int
    } else {
        0
    };
    let large = if "tropicalb"@.is_prefix_of(ctx.stripped) && contains_text(
        model.key@,
        "large"@,
    ) {
        600int
    } else {
        0
    };
    small + large
}

/// How strongly names tie a model to a texture.
pub open spec fn signal(model: EntityModel, ctx: CtxView) -> int {
    family_signal(model, ctx) + package_signal(model, ctx) + stem_signal(model, ctx)
        + alias_signal(model, ctx) + equipment_signal(model, ctx) + method_signal(model, ctx)
        + chest_signal(model, ctx) + age_signal(model, ctx) + climate_signal(model, ctx)
        + fish_signal(model, ctx)
}

/// The part of the signal that comes from the texture's names.
fn name_score(model: &EntityModel, ctx: &TextureCtx, model_baby: bool) -> (score: i64)
    requires
        model_baby == model.is_baby(),
    ensures
        score == family_signal(*model, ctx@) + package_signal(*model, ctx@) + stem_signal(
            *model,
            ctx@,
        ) + alias_signal(*model, ctx@),
        0 <= score <= 11100,
{
    let key = model.key.as_str();
    let base = model.base_key.as_str();
    let family = ctx.family.as_str();
    let stripped = ctx.stripped.as_str();
    let aligned = !(model_baby && !ctx.wants_baby);
    let mut score: i64 = 0;
    if same_text(key, family) {
        score = score + 3000;
    } else if aligned && same_text(base, family) {
        score = score + 2600;
    }
    if any_same(&model.pkg_dirs, family) {
        score = score + 2200;
    }
    if aligned {
        if same_text(stripped, key) {
            score = score + 3400;
        } else if same_text(stripped, base) {
            score = score + 3200;
        } else if is_extension(key, stripped) || is_extension(stripped, key) {
            score = score + 3000;
        }
    }
    if ctx.wants_baby == model_baby && is_alias(family, key) {
        score = score + 2500;
    }
    score
}

/// The part of the signal that comes from equipment.
fn equipment_score(model: &EntityModel, ctx: &TextureCtx, model_baby: bool) -> (score: i64)
    requires
        model_baby == model.is_baby(),
    ensures
        score == equipment_signal(*model, ctx@),
        -10000 <= score <= 5800,
{
    let key = model.key.as_str();
    let armor = is_armor_method(model.method.as_str(), key);
    if !ctx.is_equipment {
        return if armor {
            -10000
        } else {
            0
        };
    }
    let mut score: i64 = 0;
    match equipment_target(ctx.subdir.as_str()) {
        Some(target) => {
            if has_prefix(key, target) {
                score = score + 2800;
            }
        },
        None => {},
    }
    if armor {
        score = score + 2000;
    }
    if model_baby && same_text(ctx.subdir.as_str(), "humanoidbaby") {
        score = score + 1000;
    }
    score
}

/// The part of the signal that comes from the model's method.
fn method_score(model: &EntityModel, ctx: &TextureCtx) -> (score: i64)
    ensures
        score == method_signal(*model, ctx@) + chest_signal(*model, ctx@),
        -2000 <= score <= 2700,
{
    let method = model.method.as_str();
    let mut score: i64 = 0;
    if has_part(method, "chestboat") {
        if same_text(ctx.family.as_str(), "chestboat") {
            score = score + 1500;
        } else {
            score = score - 1500;
        }
    }
    if has_part(method, "pose") {
        score = score - 500;
    }
    if same_text(ctx.family.as_str(), "chest") {
        let wanted: &str = if has_part(ctx.stem.as_str(), "left") {
            "left"
        } else if has_part(ctx.stem.as_str(), "right") {
            "right"
        } else {
            "single"
        };
        if has_part(method, wanted) {
            score = score + 1200;
        }
    }
    score
}

/// The part of the signal that comes from age and climate.
fn variant_score(model: &EntityModel, ctx: &TextureCtx, model_baby: bool) -> (score: i64)
    requires
        model_baby == model.is_baby(),
    ensures
        score == age_signal(*model, ctx@) + climate_signal(*model, ctx@) + fish_signal(
            *model,
            ctx@,
        ),
        -1400 <= score <= 2800,
{
    let model_adult = model.is_kind("adult");
    let model_cold = model.is_kind("cold");
    let model_warm = model.is_kind("warm");
    let key = model.key.as_str();
    let stripped = ctx.stripped.as_str();
    let mut score: i64 = 0;
    if ctx.wants_baby && model_baby {
        score = score + 800;
    } else if ctx.wants_baby && model_adult {
        score = score - 400;
    } else if !ctx.wants_baby && model_baby {
        score = score - 600;
    } else if !ctx.wants_baby && model_adult {
        score = score + 200;
    }
    if ctx.wants_cold {
        if model_cold {
            score = score + 800;
        } else {
            score = score - 800;
        }
    } else if ctx.wants_warm {
        if model_warm {
            score = score + 800;
        } else {
            score = score - 800;
        }
    } else if model_cold || model_warm {
        score = score - 300;
    }
    if has_prefix(stripped, "tropicala") && has_part(key, "small") {
        score = score + 600;
    }
    if has_prefix(stripped, "tropicalb") && has_part(key, "large") {
        score = score + 600;
    }
    score
}

/// How strongly names tie a model to a texture.
pub fn signal_score(model: &EntityModel, ctx: &TextureCtx) -> (score: i64)
    ensures
        score == signal(*model, ctx@),
        -13400 <= score <= 22400,
{
    let model_baby = model.is_kind("baby");
    name_score(model, ctx, model_baby) + equipment_score(model, ctx, model_baby) + method_score(
        model,
        ctx,
    ) + variant_score(model, ctx, model_baby)
}

/// The model's own texture size is the image's. No image has size zero, which
/// stands for an unknown one.
pub open spec fn size_matches(model: EntityModel, image: (u32, u32)) -> bool {
    model.has_texture_size && image != (0u32, 0u32) && model.faces.uv_size.width.whole == image.0
        && model.faces.uv_size.height.whole == image.1
}

/// How good a model is for a texture: its signal, its number of faces, and
/// whether it gives its texture's size and gives it right. A model without a
/// signal is out of the running.
pub open spec fn score(model: EntityModel, ctx: CtxView, image: (u32, u32)) -> int {
    if signal(model, ctx) < MIN_SIGNAL {
        i64::MIN / 4
    } else {
        signal(model, ctx) + model.faces.faces@.len() + (if model.has_texture_size {
            300int
        } else {
            0
        }) + (if size_matches(model, image) {
            2000int
        } else {
            0
        })
    }
}

/// How good a model is for a texture.
pub fn score_model(model: &EntityModel, ctx: &TextureCtx, image: (u32, u32)) -> (points: i128)
    ensures
        points == score(*model, ctx@, image),
{
    let strength: i64 = signal_score(model, ctx);
    if strength < MIN_SIGNAL {
        return -2305843009213693952;
    }
    let mut points: i128 = strength as i128 + model.faces.faces.len() as i128;
    if model.has_texture_size {
        points = points + 300;
        if !(image.0 == 0 && image.1 == 0) && model.faces.uv_size.width.whole == image.0
            && model.faces.uv_size.height.whole == image.1 {
            points = points + 2000;
        }
    }
    points
}

/// Model `i` is the best for a texture: none has a better score, and none
/// after it one as good.
pub open spec fn is_best(models: Seq<EntityModel>, ctx: CtxView, image: (u32, u32), i: int) -> bool {
    &&& 0 <= i < models.len()
    &&& signal(models[i], ctx) >= MIN_SIGNAL
    &&& forall|k: int|
        0 <= k < models.len() && signal(#[trigger] models[k], ctx) >= MIN_SIGNAL ==> score(
            models[k],
            ctx,
            image,
        ) <= score(models[i], ctx, image)
    &&& forall|k: int|
        i < k < models.len() && signal(#[trigger] models[k], ctx) >= MIN_SIGNAL ==> score(
            models[k],
            ctx,
            image,
        ) < score(models[i], ctx, image)
}

/// No model has signal enough to be chosen.
pub open spec fn none_matches(models: Seq<EntityModel>, ctx: CtxView) -> bool {
    forall|k: int| 0 <= k < models.len() ==> signal(#[trigger] models[k], ctx) < MIN_SIGNAL
}

/// The index of the best model for a texture, if any model matches at all.
pub fn best_model_index(models: &[EntityModel], ctx: &TextureCtx, image: (u32, u32)) -> (best:
    Option<usize>)
    ensures
        match best {
            Some(i) => is_best(models@, ctx@, image, i as int),
            None => none_matches(models@, ctx@),
        },
{
    let mut best: Option<usize> = None;
    let mut top: i128 = 0;
    let mut i: usize = 0;
    while i < models.len()
        invariant
            i <= models.len(),
            match best {
                Some(b) => {
                    &&& b < i
                    &&& is_best(models@.take(i as int), ctx@, image, b as int)
                    &&& top == score(models@[b as int], ctx@, image)
                },
                None => forall|k: int|
                    0 <= k < i ==> signal(#[trigger] models@[k], ctx@) < MIN_SIGNAL,
            },
        decreases models.len() - i,
    {
        let ghost before = models@.take(i as int);
        let ghost after = models@.take(i + 1);
        assert(after =~= before.push(models@[i as int]));
        if signal_score(&models[i], ctx) >= MIN_SIGNAL {
            let points: i128 = score_model(&models[i], ctx, image);
            let better: bool = match best {
                Some(_) => points >= top,
                None => true,
            };
            if better {
                best = Some(i);
                top = points;
            }
        }
        i = i + 1;
    }
    assert(models@.take(i as int) =~= models@);
    best
}

/// The best model for a texture, if any model matches at all.
pub fn best_model_for<'a>(
    models: &'a [EntityModel],
    ctx: &TextureCtx,
    image: (u32, u32),
) -> (best: Option<&'a EntityModel>)
    ensures
        match best {
            Some(model) => exists|i: int|
                is_best(models@, ctx@, image, i) && *model == models@[i],
            None => none_matches(models@, ctx@),
        },
{
    match best_model_index(models, ctx, image) {
        Some(i) => {
            assert(is_best(models@, ctx@, image, i as int));
            Some(&models[i])
        },
        None => None,
    }
}

/// There is one best model at most.
pub proof fn the_best_model_is_unique(
    models: Seq<EntityModel>,
    ctx: CtxView,
    image: (u32, u32),
    i: int,
    j: int,
)
    requires
        is_best(models, ctx, image, i),
        is_best(models, ctx, image, j),
    ensures
        i == j,
{
    if i < j {
        assert(score(models[j], ctx, image) < score(models[i], ctx, image));
    } else if j < i {
        assert(score(models[i], ctx, image) < score(models[j], ctx, image));
    }
}

/// Of two models that match equally well, the one made for the texture's size
/// is better, unless the other has far more faces.
pub proof fn the_right_texture_size_decides(
    fitting: EntityModel,
    other: EntityModel,
    ctx: CtxView,
    image: (u32, u32),
)
    requires
        signal(fitting, ctx) == signal(other, ctx),
        signal(other, ctx) >= MIN_SIGNAL,
        size_matches(fitting, image),
        !size_matches(other, image),
        other.faces.faces@.len() < fitting.faces.faces@.len() + 2000,
    ensures
        score(fitting, ctx, image) > score(other, ctx, image),
{
}

/// For a texture of a grown animal, a baby model counts by its names only
/// where its key is the family's own.
pub proof fn baby_models_are_for_baby_textures(model: EntityModel, ctx: CtxView)
    requires
        model.is_baby(),
        !ctx.wants_baby,
    ensures
        stem_signal(model, ctx) == 0,
        alias_signal(model, ctx) == 0,
        model.key@ != ctx.family ==> family_signal(model, ctx) == 0,
{
}

/// A texture of a young animal does not take a grown model for its family's
/// other names.
pub proof fn aliases_respect_the_age(model: EntityModel, ctx: CtxView)
    requires
        model.is_baby() != ctx.wants_baby,
    ensures
        alias_signal(model, ctx) == 0,
{
}

/// A word in the name of a model's method that tells for or against the model.
pub enum MethodWord {
    Baby,
    Adult,
    Cold,
    Warm,
    Armor,
    ChestBoat,
    Pose,
    Left,
    Right,
    Single,
}

impl MethodWord {
    pub open spec fn text(self) -> Seq<char> {
        match self {
            MethodWord::Baby => "baby"@,
            MethodWord::Adult => "adult"@,
            MethodWord::Cold => "cold"@,
            MethodWord::Warm => "warm"@,
            MethodWord::Armor => "armor"@,
            MethodWord::ChestBoat => "chestboat"@,
            MethodWord::Pose => "pose"@,
            MethodWord::Left => "left"@,
            MethodWord::Right => "right"@,
            MethodWord::Single => "single"@,
        }
    }
}

/// The model's method has the word in its name.
pub open spec fn says(model: EntityModel, word: MethodWord) -> bool {
    contains_text(model.method@, word.text())
}

/// Two models of the same names, of which only the first one's method has the
/// word; what else counts is in both methods or in none.
pub open spec fn alike_but_for(a: EntityModel, b: EntityModel, word: MethodWord) -> bool {
    &&& a.key@ == b.key@
    &&& a.base_key@ == b.base_key@
    &&& a.pkg_dirs@.map_values(|dir: String| dir@) == b.pkg_dirs@.map_values(|dir: String| dir@)
    &&& forall|other: MethodWord| other != word ==> #[trigger] says(a, other) == says(b, other)
    &&& says(a, word)
    &&& !says(b, word)
}

proof fn lemma_same_packages(a: EntityModel, b: EntityModel, ctx: CtxView)
    requires
        a.pkg_dirs@.map_values(|dir: String| dir@) == b.pkg_dirs@.map_values(|dir: String| dir@),
    ensures
        package_signal(a, ctx) == package_signal(b, ctx),
{
    let left = a.pkg_dirs@.map_values(|dir: String| dir@);
    let right = b.pkg_dirs@.map_values(|dir: String| dir@);
    if exists|i: int| 0 <= i < a.pkg_dirs@.len() && (#[trigger] a.pkg_dirs@[i])@ == ctx.family {
        let i = choose|i: int|
            0 <= i < a.pkg_dirs@.len() && (#[trigger] a.pkg_dirs@[i])@ == ctx.family;
        assert(left.len() == right.len());
        assert(left[i] == a.pkg_dirs@[i]@ && right[i] == b.pkg_dirs@[i]@);
        assert(b.pkg_dirs@[i]@ == ctx.family);
    }
    if exists|i: int| 0 <= i < b.pkg_dirs@.len() && (#[trigger] b.pkg_dirs@[i])@ == ctx.family {
        let i = choose|i: int|
            0 <= i < b.pkg_dirs@.len() && (#[trigger] b.pkg_dirs@[i])@ == ctx.family;
        assert(left.len() == right.len());
        assert(left[i] == a.pkg_dirs@[i]@ && right[i] == b.pkg_dirs@[i]@);
        assert(a.pkg_dirs@[i]@ == ctx.family);
    }
}

/// What two models have in common that are alike but for a word.
proof fn lemma_alike(a: EntityModel, b: EntityModel, word: MethodWord, ctx: CtxView)
    requires
        alike_but_for(a, b, word),
    ensures
        package_signal(a, ctx) == package_signal(b, ctx),
        fish_signal(a, ctx) == fish_signal(b, ctx),
        word != MethodWord::Baby ==> a.is_baby() == b.is_baby(),
        word != MethodWord::Adult ==> a.is_adult() == b.is_adult(),
        word != MethodWord::Cold ==> a.is_cold() == b.is_cold(),
        word != MethodWord::Warm ==> a.is_warm() == b.is_warm(),
        word != MethodWord::Armor ==> is_armor(a.method@, a.key@) == is_armor(b.method@, b.key@),
        word != MethodWord::ChestBoat && word != MethodWord::Pose ==> method_signal(a, ctx)
            == method_signal(b, ctx),
        word != MethodWord::Left && word != MethodWord::Right && word != MethodWord::Single
            ==> chest_signal(a, ctx) == chest_signal(b, ctx),
{
    lemma_same_packages(a, b, ctx);
    assert(says(a, MethodWord::Baby) == contains_text(a.method@, "baby"@));
    assert(word != MethodWord::Baby ==> says(a, MethodWord::Baby) == says(b, MethodWord::Baby));
    assert(word != MethodWord::Adult ==> says(a, MethodWord::Adult) == says(b, MethodWord::Adult));
    assert(word != MethodWord::Cold ==> says(a, MethodWord::Cold) == says(b, MethodWord::Cold));
    assert(word != MethodWord::Warm ==> says(a, MethodWord::Warm) == says(b, MethodWord::Warm));
    assert(word != MethodWord::Armor ==> says(a, MethodWord::Armor) == says(b, MethodWord::Armor));
    assert(word != MethodWord::ChestBoat ==> says(a, MethodWord::ChestBoat) == says(
        b,
        MethodWord::ChestBoat,
    ));
    assert(word != MethodWord::Pose ==> says(a, MethodWord::Pose) == says(b, MethodWord::Pose));
    assert(word != MethodWord::Left ==> says(a, MethodWord::Left) == says(b, MethodWord::Left));
    assert(word != MethodWord::Right ==> says(a, MethodWord::Right) == says(b, MethodWord::Right));
    assert(word != MethodWord::Single ==> says(a, MethodWord::Single) == says(
        b,
        MethodWord::Single,
    ));
}

/// A texture of a climate favours the models of that climate, by twice eight
/// hundred points; a texture of none disfavours them. A texture that asks for
/// both is a cold one.
pub proof fn climates_favor_their_models(
    a: EntityModel,
    b: EntityModel,
    ctx: TextureCtx,
    signal_a: i64,
    signal_b: i64,
)
    requires
        call_ensures(signal_score, (&a, &ctx), signal_a),
        call_ensures(signal_score, (&b, &ctx), signal_b),
        !"cold"@.is_prefix_of(b.key@),
        !"warm"@.is_prefix_of(b.key@),
    ensures
        ctx.wants_cold && alike_but_for(a, b, MethodWord::Cold) ==> signal_a == signal_b + 1600,
        ctx.wants_cold && alike_but_for(a, b, MethodWord::Warm) ==> signal_a == signal_b,
        !ctx.wants_cold && ctx.wants_warm && alike_but_for(a, b, MethodWord::Warm) ==> signal_a
            == signal_b + 1600,
        !ctx.wants_cold && ctx.wants_warm && alike_but_for(a, b, MethodWord::Cold) ==> signal_a
            == signal_b,
        !ctx.wants_cold && !ctx.wants_warm && alike_but_for(a, b, MethodWord::Warm) && !says(
            b,
            MethodWord::Cold,
        ) ==> signal_a == signal_b - 300,
        !ctx.wants_cold && !ctx.wants_warm && alike_but_for(a, b, MethodWord::Cold) && !says(
            b,
            MethodWord::Warm,
        ) ==> signal_a == signal_b - 300,
{
    if alike_but_for(a, b, MethodWord::Cold) {
        lemma_alike(a, b, MethodWord::Cold, ctx@);
    }
    if alike_but_for(a, b, MethodWord::Warm) {
        lemma_alike(a, b, MethodWord::Warm, ctx@);
    }
}

/// The climate of a model, whether its key or its method tells it, is worth
/// sixteen hundred points to a texture of that climate.
pub proof fn models_of_the_climate_are_ahead(a: EntityModel, b: EntityModel, ctx: CtxView)
    ensures
        ctx.wants_cold && a.is_cold() && !b.is_cold() ==> climate_signal(a, ctx) - climate_signal(
            b,
            ctx,
        ) == 1600,
        !ctx.wants_cold && ctx.wants_warm && a.is_warm() && !b.is_warm() ==> climate_signal(a, ctx)
            - climate_signal(b, ctx) == 1600,
        !ctx.wants_cold && !ctx.wants_warm && (a.is_cold() || a.is_warm()) && !b.is_cold()
            && !b.is_warm() ==> climate_signal(a, ctx) < climate_signal(b, ctx),
        ctx.wants_cold && a.is_cold() == b.is_cold() ==> climate_signal(a, ctx) == climate_signal(
            b,
            ctx,
        ),
        !ctx.wants_cold && ctx.wants_warm && a.is_warm() == b.is_warm() ==> climate_signal(a, ctx)
            == climate_signal(b, ctx),
{
}

/// A key or a method that begins with or has the word makes a model of the
/// kind, whatever follows.
pub proof fn kinds_are_told_by_key_and_method(model: EntityModel, rest: Seq<char>)
    ensures
        model.key@ == "baby"@ + rest || says(model, MethodWord::Baby) ==> model.is_baby(),
        model.key@ == "adult"@ + rest || says(model, MethodWord::Adult) ==> model.is_adult(),
        model.key@ == "cold"@ + rest || says(model, MethodWord::Cold) ==> model.is_cold(),
        model.key@ == "warm"@ + rest || says(model, MethodWord::Warm) ==> model.is_warm(),
        model.key@ == rest + "armor"@ || says(model, MethodWord::Armor) ==> is_armor(
            model.method@,
            model.key@,
        ),
{
    lemma_begins("baby"@, rest);
    lemma_begins("adult"@, rest);
    lemma_begins("cold"@, rest);
    lemma_begins("warm"@, rest);
    let key = rest + "armor"@;
    assert(key.subrange(key.len() - "armor"@.len(), key.len() as int) =~= "armor"@);
}

proof fn lemma_begins(word: Seq<char>, rest: Seq<char>)
    ensures
        word.is_prefix_of(word + rest),
        (word + rest).skip(word.len() as int) == rest,
{
    assert((word + rest).subrange(0, word.len() as int) =~= word);
    assert((word + rest).skip(word.len() as int) =~= rest);
}

/// A texture of a young animal favours young models, any other texture grown
/// ones.
pub proof fn ages_favor_their_models(
    a: EntityModel,
    b: EntityModel,
    ctx: TextureCtx,
    signal_a: i64,
    signal_b: i64,
)
    requires
        call_ensures(signal_score, (&a, &ctx), signal_a),
        call_ensures(signal_score, (&b, &ctx), signal_b),
        !"baby"@.is_prefix_of(b.key@),
        !"adult"@.is_prefix_of(b.key@),
    ensures
        ctx.wants_baby && alike_but_for(a, b, MethodWord::Baby) ==> signal_a >= signal_b + 800,
        !ctx.wants_baby && !ctx.is_equipment && alike_but_for(a, b, MethodWord::Baby) && !says(
            b,
            MethodWord::Adult,
        ) ==> signal_a <= signal_b - 600,
        ctx.wants_baby && alike_but_for(a, b, MethodWord::Adult) && !says(b, MethodWord::Baby)
            ==> signal_a == signal_b - 400,
        !ctx.wants_baby && alike_but_for(a, b, MethodWord::Adult) && !says(b, MethodWord::Baby)
            ==> signal_a == signal_b + 200,
{
    if alike_but_for(a, b, MethodWord::Baby) {
        lemma_alike(a, b, MethodWord::Baby, ctx@);
    }
    if alike_but_for(a, b, MethodWord::Adult) {
        lemma_alike(a, b, MethodWord::Adult, ctx@);
    }
}

/// Armour is for equipment: there it is worth two thousand points, anywhere else
/// it costs ten thousand.
pub proof fn armor_is_for_equipment(
    a: EntityModel,
    b: EntityModel,
    ctx: TextureCtx,
    signal_a: i64,
    signal_b: i64,
)
    requires
        call_ensures(signal_score, (&a, &ctx), signal_a),
        call_ensures(signal_score, (&b, &ctx), signal_b),
        alike_but_for(a, b, MethodWord::Armor),
        !"armor"@.is_suffix_of(b.key@),
    ensures
        ctx.is_equipment ==> signal_a == signal_b + 2000,
        !ctx.is_equipment ==> signal_a == signal_b - 10000,
{
    lemma_alike(a, b, MethodWord::Armor, ctx@);
}

/// A layer that the equipment is drawn on is worth two thousand eight hundred
/// points, and a baby's armour a thousand more to a young model.
pub proof fn equipment_wants_its_layer(a: EntityModel, b: EntityModel, ctx: CtxView)
    requires
        ctx.is_equipment,
        is_armor(a.method@, a.key@) == is_armor(b.method@, b.key@),
    ensures
        a.is_baby() == b.is_baby() && (equipment_key(ctx.subdir) matches Some(layer)
            && layer.is_prefix_of(a.key@) && !layer.is_prefix_of(b.key@)) ==> equipment_signal(
            a,
            ctx,
        ) == equipment_signal(b, ctx) + 2800,
        a.key@ == b.key@ && a.is_baby() && !b.is_baby() ==> equipment_signal(a, ctx)
            == equipment_signal(b, ctx) + (if ctx.subdir == "humanoidbaby"@ {
            1000int
        } else {
            0
        }),
{
}

/// Saddles are drawn on saddles and bodies on what they cover; a kind of
/// equipment without a layer of its own has none.
pub proof fn equipment_layers_go_by_name(animal: Seq<char>)
    ensures
        animal == "llama"@ || animal == "wolf"@ || animal == "nautilus"@ ==> equipment_key(
            animal + "body"@,
        ) == Some(animal),
        animal == "camel"@ || animal == "nautilus"@ ==> equipment_key(animal + "saddle"@) == Some(
            animal + "saddle"@,
        ),
        animal == "horse"@ || animal == "mule"@ || animal == "donkey"@ || animal
            == "skeletonhorse"@ ==> equipment_key(animal + "saddle"@) == Some("equinesaddle"@),
        animal == ""@ || animal == "baby"@ || animal == "leggings"@ ==> equipment_key(
            "humanoid"@ + animal,
        ) == Some("humanoid"@),
        equipment_key("wings"@) == Some("elytra"@),
        equipment_key("horse"@ + "body"@) == Some("abstractequine"@),
        equipment_key("happyghast"@ + "body"@) == Some("happyghast"@ + "harness"@),
{
    reveal_strlit("");
    reveal_strlit("baby");
    reveal_strlit("leggings");
    reveal_strlit("llama");
    reveal_strlit("wolf");
    reveal_strlit("nautilus");
    reveal_strlit("camel");
    reveal_strlit("horse");
    reveal_strlit("mule");
    reveal_strlit("donkey");
    reveal_strlit("skeletonhorse");
    reveal_strlit("happyghast");
    reveal_strlit("body");
    reveal_strlit("saddle");
    reveal_strlit("harness");
    reveal_strlit("humanoid");
    reveal_strlit("humanoidbaby");
    reveal_strlit("humanoidleggings");
    reveal_strlit("wings");
    reveal_strlit("llamabody");
    reveal_strlit("wolfbody");
    reveal_strlit("nautilusbody");
    reveal_strlit("happyghastbody");
    reveal_strlit("happyghastharness");
    reveal_strlit("horsebody");
    reveal_strlit("camelsaddle");
    reveal_strlit("camelhusksaddle");
    reveal_strlit("nautilussaddle");
    reveal_strlit("horsesaddle");
    reveal_strlit("mulesaddle");
    reveal_strlit("donkeysaddle");
    reveal_strlit("skeletonhorsesaddle");
    reveal_strlit("zombiahorsesaddle");
    assert("llama"@ + "body"@ =~= "llamabody"@);
    assert("wolf"@ + "body"@ =~= "wolfbody"@);
    assert("nautilus"@ + "body"@ =~= "nautilusbody"@);
    assert("horse"@ + "body"@ =~= "horsebody"@);
    assert("happyghast"@ + "body"@ =~= "happyghastbody"@);
    assert("happyghast"@ + "harness"@ =~= "happyghastharness"@);
    assert("camel"@ + "saddle"@ =~= "camelsaddle"@);
    assert("nautilus"@ + "saddle"@ =~= "nautilussaddle"@);
    assert("horse"@ + "saddle"@ =~= "horsesaddle"@);
    assert("mule"@ + "saddle"@ =~= "mulesaddle"@);
    assert("donkey"@ + "saddle"@ =~= "donkeysaddle"@);
    assert("skeletonhorse"@ + "saddle"@ =~= "skeletonhorsesaddle"@);
    assert("humanoid"@ + ""@ =~= "humanoid"@);
    assert("humanoid"@ + "baby"@ =~= "humanoidbaby"@);
    assert("humanoid"@ + "leggings"@ =~= "humanoidleggings"@);
    assert("wings"@[0] == 'w' && "wings"@[1] == 'i');
    assert("llamabody"@[0] == 'l');
    assert("wolfbody"@[0] == 'w' && "wolfbody"@[1] == 'o');
    assert("nautilusbody"@[0] == 'n');
    assert("nautilussaddle"@[0] == 'n');
    assert("horsebody"@[0] == 'h' && "horsebody"@[1] == 'o');
    assert("horsesaddle"@[0] == 'h' && "horsesaddle"@[1] == 'o');
    assert("happyghastbody"@[0] == 'h' && "happyghastbody"@[1] == 'a');
    assert("humanoid"@[1] == 'u' && "humanoidbaby"@[1] == 'u' && "humanoidleggings"@[1] == 'u');
    assert("camelsaddle"@[0] == 'c');
    assert("camelhusksaddle"@[0] == 'c');
    assert("mulesaddle"@[0] == 'm');
    assert("donkeysaddle"@[0] == 'd');
    assert("skeletonhorsesaddle"@[0] == 's');
}

/// A method with a chest boat is for chest boats, a posed model is second choice,
/// and a chest wants the half that its file names.
pub proof fn methods_tell_for_and_against(
    a: EntityModel,
    b: EntityModel,
    ctx: TextureCtx,
    signal_a: i64,
    signal_b: i64,
)
    requires
        call_ensures(signal_score, (&a, &ctx), signal_a),
        call_ensures(signal_score, (&b, &ctx), signal_b),
    ensures
        ctx.family@ == "chestboat"@ && alike_but_for(a, b, MethodWord::ChestBoat) ==> signal_a
            == signal_b + 1500,
        ctx.family@ != "chestboat"@ && alike_but_for(a, b, MethodWord::ChestBoat) ==> signal_a
            == signal_b - 1500,
        alike_but_for(a, b, MethodWord::Pose) ==> signal_a == signal_b - 500,
        ctx.family@ == "chest"@ && contains_text(ctx.stem@, "left"@) && alike_but_for(
            a,
            b,
            MethodWord::Left,
        ) ==> signal_a == signal_b + 1200,
        ctx.family@ == "chest"@ && !contains_text(ctx.stem@, "left"@) && contains_text(
            ctx.stem@,
            "right"@,
        ) && alike_but_for(a, b, MethodWord::Right) ==> signal_a == signal_b + 1200,
        ctx.family@ == "chest"@ && !contains_text(ctx.stem@, "left"@) && !contains_text(
            ctx.stem@,
            "right"@,
        ) && alike_but_for(a, b, MethodWord::Single) ==> signal_a == signal_b + 1200,
        ctx.family@ == "chest"@ && (contains_text(ctx.stem@, "left"@) || contains_text(
            ctx.stem@,
            "right"@,
        )) && alike_but_for(a, b, MethodWord::Single) ==> signal_a == signal_b,
        ctx.family@ != "chest"@ && (alike_but_for(a, b, MethodWord::Left) || alike_but_for(
            a,
            b,
            MethodWord::Right,
        ) || alike_but_for(a, b, MethodWord::Single)) ==> signal_a == signal_b,
{
    let c = ctx@;
    if alike_but_for(a, b, MethodWord::ChestBoat) {
        lemma_alike(a, b, MethodWord::ChestBoat, c);
        assert(says(a, MethodWord::Pose) == says(b, MethodWord::Pose));
    }
    if alike_but_for(a, b, MethodWord::Pose) {
        lemma_alike(a, b, MethodWord::Pose, c);
        assert(says(a, MethodWord::ChestBoat) == says(b, MethodWord::ChestBoat));
    }
    if alike_but_for(a, b, MethodWord::Left) {
        lemma_alike(a, b, MethodWord::Left, c);
    }
    if alike_but_for(a, b, MethodWord::Right) {
        lemma_alike(a, b, MethodWord::Right, c);
    }
    if alike_but_for(a, b, MethodWord::Single) {
        lemma_alike(a, b, MethodWord::Single, c);
        assert(says(a, MethodWord::Left) == says(b, MethodWord::Left));
        assert(says(a, MethodWord::Right) == says(b, MethodWord::Right));
    }
}

/// The small tropical fish has the first body, the large one the second.
pub proof fn tropical_fish_have_two_bodies(a: EntityModel, b: EntityModel, ctx: CtxView, rest: Seq<char>)
    requires
        !contains_text(b.key@, "small"@),
        !contains_text(b.key@, "large"@),
    ensures
        ctx.stripped == "tropicala"@ + rest && contains_text(a.key@, "small"@) ==> fish_signal(
            a,
            ctx,
        ) == fish_signal(b, ctx) + 600,
        ctx.stripped == "tropicalb"@ + rest && contains_text(a.key@, "large"@) ==> fish_signal(
            a,
            ctx,
        ) == fish_signal(b, ctx) + 600,
{
    lemma_begins("tropicala"@, rest);
    lemma_begins("tropicalb"@, rest);
    reveal_strlit("tropicala");
    reveal_strlit("tropicalb");
    assert("tropicala"@[8] == 'a');
    assert("tropicalb"@[8] == 'b');
    if ctx.stripped == "tropicala"@ + rest {
        assert(ctx.stripped[8] == 'a');
        assert(!"tropicalb"@.is_prefix_of(ctx.stripped)) by {
            if "tropicalb"@.is_prefix_of(ctx.stripped) {
                assert(ctx.stripped.subrange(0, 9)[8] == ctx.stripped[8]);
            }
        }
    }
    if ctx.stripped == "tropicalb"@ + rest {
        assert(ctx.stripped[8] == 'b');
        assert(!"tropicala"@.is_prefix_of(ctx.stripped)) by {
            if "tropicala"@.is_prefix_of(ctx.stripped) {
                assert(ctx.stripped.subrange(0, 9)[8] == ctx.stripped[8]);
            }
        }
    }
}

/// The closer a model's name is to the texture's, the more it counts: the name
/// itself before the name without age or climate, that before a name that only
/// begins alike, and any of them before none.
pub proof fn closer_names_count_more(
    exact: EntityModel,
    base: EntityModel,
    longer: EntityModel,
    other: EntityModel,
    ctx: CtxView,
)
    requires
        !exact.is_baby(),
        !base.is_baby(),
        !longer.is_baby(),
    ensures
        exact.key@ == ctx.family && base.key@ != ctx.family && base.base_key@ == ctx.family
            && other.key@ != ctx.family && other.base_key@ != ctx.family ==> family_signal(
            exact,
            ctx,
        ) == family_signal(base, ctx) + 400 && family_signal(base, ctx) == family_signal(other, ctx)
            + 2600,
        exact.key@ == ctx.stripped && base.key@ != ctx.stripped && base.base_key@ == ctx.stripped
            && longer.key@ != ctx.stripped && longer.base_key@ != ctx.stripped && (extends(
            longer.key@,
            ctx.stripped,
        ) || extends(ctx.stripped, longer.key@)) && other.key@ != ctx.stripped && other.base_key@
            != ctx.stripped && !extends(other.key@, ctx.stripped) && !extends(
            ctx.stripped,
            other.key@,
        ) ==> stem_signal(exact, ctx) == stem_signal(base, ctx) + 200 && stem_signal(base, ctx)
            == stem_signal(longer, ctx) + 200 && stem_signal(longer, ctx) == stem_signal(other, ctx)
            + 3000,
{
}

/// A model in the family's own package is ahead by two thousand two hundred
/// points, and one that goes by another name of the family, at the right age, by
/// two thousand five hundred.
pub proof fn packages_and_other_names_count(a: EntityModel, b: EntityModel, ctx: CtxView, i: int)
    ensures
        0 <= i < a.pkg_dirs@.len() && a.pkg_dirs@[i]@ == ctx.family && (forall|k: int|
            0 <= k < b.pkg_dirs@.len() ==> (#[trigger] b.pkg_dirs@[k])@ != ctx.family)
            ==> package_signal(a, ctx) == package_signal(b, ctx) + 2200,
        aliases(ctx.family).contains(a.key@) && a.is_baby() == ctx.wants_baby && !aliases(
            ctx.family,
        ).contains(b.key@) ==> alias_signal(a, ctx) == alias_signal(b, ctx) + 2500,
{
}

/// A texture that asks for no variant and no equipment, and whose family and
/// file name stand for nothing special.
pub open spec fn is_ordinary(ctx: CtxView) -> bool {
    &&& !ctx.wants_baby
    &&& !ctx.wants_cold
    &&& !ctx.wants_warm
    &&& !ctx.is_equipment
    &&& ctx.family != "chest"@
    &&& ctx.family != "chestboat"@
    &&& !"tropicala"@.is_prefix_of(ctx.stripped)
    &&& !"tropicalb"@.is_prefix_of(ctx.stripped)
}

/// The model has a name of the texture's: of its family, by key, package or
/// another name, or of its file.
pub open spec fn is_namesake(model: EntityModel, ctx: CtxView) -> bool {
    ||| model.key@ == ctx.family
    ||| model.base_key@ == ctx.family
    ||| exists|i: int| 0 <= i < model.pkg_dirs@.len() && (#[trigger] model.pkg_dirs@[i])@ == ctx.family
    ||| aliases(ctx.family).contains(model.key@)
    ||| model.key@ == ctx.stripped
    ||| model.base_key@ == ctx.stripped
    ||| extends(model.key@, ctx.stripped)
    ||| extends(ctx.stripped, model.key@)
}

/// For an ordinary texture, no model is chosen that has no name of it.
pub proof fn strangers_are_never_chosen(
    models: &[EntityModel],
    ctx: TextureCtx,
    image: (u32, u32),
    i: usize,
)
    requires
        call_ensures(best_model_index, (models, &ctx, image), Some(i)),
        is_ordinary(ctx@),
    ensures
        i < models@.len(),
        is_namesake(models@[i as int], ctx@),
{
}

/// For an ordinary texture, a plain grown model that has a name of it can be
/// chosen, so that some model is.
pub proof fn namesakes_can_be_chosen(
    models: &[EntityModel],
    ctx: TextureCtx,
    image: (u32, u32),
    best: Option<usize>,
    k: int,
)
    requires
        call_ensures(best_model_index, (models, &ctx, image), best),
        is_ordinary(ctx@),
        0 <= k < models@.len(),
        is_namesake(models@[k], ctx@),
        !models@[k].is_baby(),
        !is_armor(models@[k].method@, models@[k].key@),
        !says(models@[k], MethodWord::ChestBoat),
        !says(models@[k], MethodWord::Pose),
    ensures
        best is Some,
{
    assert(signal(models@[k], ctx@) >= MIN_SIGNAL);
}

/// What is chosen has a signal of fifteen hundred points at least, and as many
/// points as any model with such a signal; of models with equally many the last
/// is chosen. Nothing is chosen just where no model has such a signal.
pub proof fn the_most_points_win(
    models: &[EntityModel],
    ctx: TextureCtx,
    image: (u32, u32),
    best: Option<usize>,
    k: int,
    signal_k: i64,
    points_k: i128,
    points: i128,
)
    requires
        call_ensures(best_model_index, (models, &ctx, image), best),
        0 <= k < models@.len(),
        call_ensures(signal_score, (&models@[k], &ctx), signal_k),
        call_ensures(score_model, (&models@[k], &ctx, image), points_k),
        best matches Some(i) ==> call_ensures(score_model, (&models@[i as int], &ctx, image), points),
    ensures
        best is None ==> signal_k < 1500,
        best matches Some(i) ==> i < models@.len() && signal(models@[i as int], ctx@) >= 1500,
        best is Some && signal_k >= 1500 ==> points_k <= points,
        best matches Some(i) ==> (signal_k >= 1500 && i < k ==> points_k < points),
{
    assert(signal(models@[k], ctx@) == signal_k);
}

/// The same model is given by its place and by itself.
pub proof fn the_best_model_is_the_one_at_its_place(
    models: &[EntityModel],
    ctx: TextureCtx,
    image: (u32, u32),
    place: Option<usize>,
    best: Option<&EntityModel>,
)
    requires
        call_ensures(best_model_index, (models, &ctx, image), place),
        call_ensures(best_model_for, (models, &ctx, image), best),
    ensures
        match place {
            Some(i) => best matches Some(model) && *model == models@[i as int],
            None => best is None,
        },
{
    if let Some(i) = place {
        assert(is_best(models@, ctx@, image, i as int));
        if let Some(model) = best {
            let k = choose|k: int| is_best(models@, ctx@, image, k) && *model == models@[k];
            the_best_model_is_unique(models@, ctx@, image, i as int, k);
        }
    }
    if let Some(model) = best {
        let k = choose|k: int| is_best(models@, ctx@, image, k) && *model == models@[k];
        assert(is_best(models@, ctx@, image, k));
    }
}

/// Beyond its signal, a model scores a point for each face, three hundred for
/// giving its texture's size, and two thousand for giving it right.
pub proof fn sizes_and_faces_score(
    a: EntityModel,
    b: EntityModel,
    ctx: TextureCtx,
    image: (u32, u32),
    points_a: i128,
    points_b: i128,
)
    requires
        call_ensures(score_model, (&a, &ctx, image), points_a),
        call_ensures(score_model, (&b, &ctx, image), points_b),
        signal(a, ctx@) == signal(b, ctx@),
        signal(b, ctx@) >= 1500,
        image.0 > 0,
        image.1 > 0,
    ensures
        ({
            let more = a.faces.faces@.len() - b.faces.faces@.len();
            let right = a.faces.uv_size.width.whole == image.0 && a.faces.uv_size.height.whole
                == image.1;
            let other = b.faces.uv_size.width.whole == image.0 && b.faces.uv_size.height.whole
                == image.1;
            &&& a.has_texture_size == b.has_texture_size && right == other ==> points_a == points_b
                + more
            &&& a.has_texture_size && !right && !b.has_texture_size ==> points_a == points_b + more
                + 300
            &&& a.has_texture_size && right && b.has_texture_size && !other ==> points_a == points_b
                + more + 2000
        }),
{
}

/// Two models with the same faces, sizes and so on, as far as points for them go.
pub open spec fn equally_sized(a: EntityModel, b: EntityModel) -> bool {
    &&& a.faces.faces@.len() == b.faces.faces@.len()
    &&& a.has_texture_size == b.has_texture_size
    &&& a.faces.uv_size == b.faces.uv_size
}

/// Where a model of the texture's climate is there, one that is like it but for
/// the climate is not chosen.
pub proof fn the_model_of_the_climate_is_chosen(
    models: &[EntityModel],
    ctx: TextureCtx,
    image: (u32, u32),
    best: usize,
    fitting: int,
    other: int,
)
    requires
        call_ensures(best_model_index, (models, &ctx, image), Some(best)),
        0 <= fitting < models@.len(),
        0 <= other < models@.len(),
        equally_sized(models@[fitting], models@[other]),
        !"cold"@.is_prefix_of(models@[other].key@),
        !"warm"@.is_prefix_of(models@[other].key@),
        ctx.wants_cold && alike_but_for(models@[fitting], models@[other], MethodWord::Cold) || (
        !ctx.wants_cold && ctx.wants_warm && alike_but_for(
            models@[fitting],
            models@[other],
            MethodWord::Warm,
        )),
    ensures
        best != other,
{
    let a = models@[fitting];
    let b = models@[other];
    if ctx.wants_cold {
        lemma_alike(a, b, MethodWord::Cold, ctx@);
    } else {
        lemma_alike(a, b, MethodWord::Warm, ctx@);
    }
    assert(signal(a, ctx@) == signal(b, ctx@) + 1600);
    if best == other {
        assert(signal(models@[fitting], ctx@) >= MIN_SIGNAL);
        assert(score(models@[fitting], ctx@, image) <= score(models@[best as int], ctx@, image));
    }
}

/// The model of a variant and the plain one of the same name: the keys differ by
/// the variant in front alone, and all else is the same.
pub open spec fn is_variant_of(
    variant: EntityModel,
    plain: EntityModel,
    word: Seq<char>,
    name: Seq<char>,
) -> bool {
    &&& variant.key@ == word + name
    &&& plain.key@ == name
    &&& variant.base_key@ == name
    &&& plain.base_key@ == name
    &&& variant.pkg_dirs@.map_values(|dir: String| dir@) == plain.pkg_dirs@.map_values(
        |dir: String| dir@,
    )
    &&& variant.method@ == plain.method@
    &&& equally_sized(variant, plain)
    &&& !plain.is_baby() && !plain.is_adult() && !plain.is_cold() && !plain.is_warm()
    &&& !"armor"@.is_suffix_of(word + name) && !"armor"@.is_suffix_of(name)
    &&& contains_text(word + name, "small"@) == contains_text(name, "small"@)
    &&& contains_text(word + name, "large"@) == contains_text(name, "large"@)
}

/// A texture named after a family and a variant, both written in full, takes the
/// variant's model and not the plain one: the warm cow's texture the warm cow,
/// the cold one's the cold cow, the baby's the baby.
pub proof fn variants_take_their_own_models(
    models: &[EntityModel],
    ctx: TextureCtx,
    image: (u32, u32),
    best: usize,
    variant: int,
    plain: int,
)
    requires
        call_ensures(best_model_index, (models, &ctx, image), Some(best)),
        0 <= variant < models@.len(),
        0 <= plain < models@.len(),
        ctx.family@ == ctx.stripped@,
        !ctx.is_equipment,
        !aliases(ctx.family@).contains(models@[plain].key@),
        ({
            let a = models@[variant];
            let b = models@[plain];
            let name = ctx.family@;
            ||| ctx.wants_warm && !ctx.wants_cold && !ctx.wants_baby && is_variant_of(
                a,
                b,
                "warm"@,
                name,
            ) && !a.is_baby() && !a.is_adult()
            ||| ctx.wants_cold && !ctx.wants_baby && is_variant_of(a, b, "cold"@, name)
                && !a.is_baby() && !a.is_adult()
            ||| ctx.wants_baby && !ctx.wants_cold && !ctx.wants_warm && is_variant_of(
                a,
                b,
                "baby"@,
                name,
            ) && !a.is_cold() && !a.is_warm()
        }),
    ensures
        best != plain,
{
    let a = models@[variant];
    let b = models@[plain];
    let c = ctx@;
    let name = ctx.family@;
    lemma_same_packages(a, b, c);
    lemma_begins("warm"@, name);
    lemma_begins("cold"@, name);
    lemma_begins("baby"@, name);
    reveal_strlit("warm");
    reveal_strlit("cold");
    reveal_strlit("baby");
    assert(a.key@.len() == name.len() + 4);
    assert(family_signal(a, c) == 2600 && family_signal(b, c) == 3000);
    assert(stem_signal(a, c) == 3200 && stem_signal(b, c) == 3400);
    assert(alias_signal(a, c) >= alias_signal(b, c));
    assert(equipment_signal(a, c) == equipment_signal(b, c));
    assert(method_signal(a, c) == method_signal(b, c));
    assert(chest_signal(a, c) == chest_signal(b, c));
    assert(fish_signal(a, c) == fish_signal(b, c));
    assert(signal(a, c) > signal(b, c));
    if best == plain {
        assert(signal(models@[variant], c) >= MIN_SIGNAL);
        assert(score(models@[variant], c, image) <= score(models@[best as int], c, image));
    }
}

/// The other names under which a family's models go are other names.
pub proof fn aliases_are_other_names(family: Seq<char>)
    ensures
        !aliases(family).contains(family),
{
    reveal_strlit("cat");
    reveal_strlit("feline");
    reveal_strlit("adultfeline");
    reveal_strlit("babyfeline");
    reveal_strlit("leadknot");
    reveal_strlit("leashknot");
    reveal_strlit("bear");
    reveal_strlit("polarbear");
    reveal_strlit("wither");
    reveal_strlit("witherboss");
    reveal_strlit("chestboat");
    reveal_strlit("boat");
    reveal_strlit("zombie");
    reveal_strlit("humanoid");
    reveal_strlit("horse");
    reveal_strlit("abstractequine");
    if aliases(family).contains(family) {
        let i = choose|i: int| 0 <= i < aliases(family).len() && aliases(family)[i] == family;
        assert(aliases(family)[i].len() == family.len());
    }
}

/// The felines of every age are cats. The other families with another name have one
/// each, and no family has more.
pub proof fn families_go_by_these_names(family: &str, targets: Vec<&'static str>, key: Seq<char>)
    requires
        call_ensures(alias_targets, (family,), targets),
    ensures
        (exists|i: int| 0 <= i < targets@.len() && (#[trigger] targets@[i])@ == key) <==> {
            ||| family@ == "cat"@ && (key == "feline"@ || key == "adult"@ + "feline"@ || key
                == "baby"@ + "feline"@)
            ||| family@ == "leadknot"@ && key == "leashknot"@
            ||| family@ == "bear"@ && key == "polar"@ + family@
            ||| family@ == "wither"@ && key == family@ + "boss"@
            ||| family@ == "chestboat"@ && "chest"@ + key == family@
            ||| family@ == "zombie"@ && key == "humanoid"@
            ||| family@ == "horse"@ && key == "abstractequine"@
        },
{
    reveal_strlit("cat");
    reveal_strlit("feline");
    reveal_strlit("adult");
    reveal_strlit("baby");
    reveal_strlit("adultfeline");
    reveal_strlit("babyfeline");
    reveal_strlit("leadknot");
    reveal_strlit("leashknot");
    reveal_strlit("bear");
    reveal_strlit("polar");
    reveal_strlit("polarbear");
    reveal_strlit("wither");
    reveal_strlit("boss");
    reveal_strlit("witherboss");
    reveal_strlit("chest");
    reveal_strlit("boat");
    reveal_strlit("chestboat");
    reveal_strlit("zombie");
    reveal_strlit("humanoid");
    reveal_strlit("horse");
    reveal_strlit("abstractequine");
    assert("adultfeline"@ =~= "adult"@ + "feline"@);
    assert("babyfeline"@ =~= "baby"@ + "feline"@);
    assert("polarbear"@ =~= "polar"@ + "bear"@);
    assert("witherboss"@ =~= "wither"@ + "boss"@);
    assert("chestboat"@ =~= "chest"@ + "boat"@);
    if "chest"@ + key == "chestboat"@ {
        assert(key =~= ("chest"@ + key).skip(5));
        assert("boat"@ =~= "chestboat"@.skip(5));
    }
    let names = aliases(family@);
    assert(family@ == "cat"@ ==> names[0] == "feline"@ && names[1] == "adultfeline"@ && names[2]
        == "babyfeline"@);
    assert(names.len() > 0 ==> targets@[0]@ == names[0]);
    assert(names.len() > 1 ==> targets@[1]@ == names[1] && targets@[2]@ == names[2]);
    assert("cat"@.len() == 3 && "bear"@.len() == 4 && "horse"@.len() == 5 && "leadknot"@.len() == 8
        && "chestboat"@.len() == 9);
    assert("wither"@[0] == 'w' && "zombie"@[0] == 'z');
}

/// Where the image's size is not known, no model gives it right.
pub proof fn unknown_sizes_match_nothing(
    a: EntityModel,
    b: EntityModel,
    ctx: TextureCtx,
    points_a: i128,
    points_b: i128,
)
    requires
        call_ensures(score_model, (&a, &ctx, (0u32, 0u32)), points_a),
        call_ensures(score_model, (&b, &ctx, (0u32, 0u32)), points_b),
        signal(a, ctx@) == signal(b, ctx@),
        signal(b, ctx@) >= 1500,
        a.has_texture_size == b.has_texture_size,
    ensures
        points_a - points_b == a.faces.faces@.len() - b.faces.faces@.len(),
{
}

/// A model that has not the signal to be chosen is behind every model that has.
pub proof fn models_without_a_signal_are_behind(
    a: EntityModel,
    b: EntityModel,
    ctx: TextureCtx,
    image: (u32, u32),
    points_a: i128,
    points_b: i128,
)
    requires
        call_ensures(score_model, (&a, &ctx, image), points_a),
        call_ensures(score_model, (&b, &ctx, image), points_b),
        signal(a, ctx@) < 1500 <= signal(b, ctx@),
    ensures
        points_a < points_b,
{
}

/// A model is of a kind for no other reason than its key or its method.
pub proof fn nothing_else_tells_the_kind(model: EntityModel)
    ensures
        model.is_baby() && !says(model, MethodWord::Baby) ==> model.key@.len() >= 4
            && model.key@.take(4) == "baby"@,
        model.is_adult() && !says(model, MethodWord::Adult) ==> model.key@.len() >= 5
            && model.key@.take(5) == "adult"@,
        model.is_cold() && !says(model, MethodWord::Cold) ==> model.key@.len() >= 4
            && model.key@.take(4) == "cold"@,
        model.is_warm() && !says(model, MethodWord::Warm) ==> model.key@.len() >= 4
            && model.key@.take(4) == "warm"@,
        is_armor(model.method@, model.key@) && !says(model, MethodWord::Armor)
            ==> model.key@.len() >= 5 && model.key@.skip(model.key@.len() - 5) == "armor"@,
{
    reveal_strlit("baby");
    reveal_strlit("adult");
    reveal_strlit("cold");
    reveal_strlit("warm");
    reveal_strlit("armor");
    let key = model.key@;
    if key.len() >= 4 {
        assert(key.take(4) =~= key.subrange(0, 4));
    }
    if key.len() >= 5 {
        assert(key.take(5) =~= key.subrange(0, 5));
        assert(key.skip(key.len() - 5) =~= key.subrange(key.len() - 5, key.len() as int));
    }
}

} // verus!
