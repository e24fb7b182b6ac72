use std::path::{Component, Path};

use xbrstudio::json::{Json, JsonNumber};
use xbrstudio::keys::{
    entity_family_key, lowercase, model_key, normalize_key, strip_key_prefix,
    strip_variant_tokens, texture_ctx,
};
use xbrstudio::matching::{
    alias_targets, best_model_for, best_model_index, equipment_target, is_armor_method,
    score_model, signal_score, EntityModel,
};
use xbrstudio::model::{FaceRect, ModelFace, ModelFaces, UvLength, UvSize};
use xbrstudio::entity::admit_entity_model;
use xbrstudio::parse::{CubeNet, EntityLayout, EntityPart};
use xbrstudio::paths::{
    block_texture_stem_for, default_output_name, faces_name, is_block_texture_path,
    is_colormap_texture_path, is_wrap_texture_path, relative_name, scaled_name, slices_name,
    suggested_name, wants_wrap,
};

fn uv(width: f32, height: f32) -> UvSize {
    let length = |value: f32| UvLength { bits: value.to_bits(), whole: value as u32 };
    UvSize { width: length(width), height: length(height) }
}

fn test_model(key: &str, method: &str, pkg: &[&str], face_count: usize) -> EntityModel {
    let faces = (0..face_count as u32)
        .map(|index| ModelFace {
            texture: "#0".into(),
            rect: FaceRect { x: index * 2, y: 0, width: 2, height: 2 },
            face: "top".into(),
            group: 0,
        })
        .collect();
    EntityModel {
        faces: ModelFaces { textures: Vec::new(), faces, uv_size: uv(64.0, 64.0) },
        has_texture_size: true,
        base_key: strip_key_prefix(key),
        key: key.into(),
        pkg_dirs: pkg.iter().map(|dir| normalize_key(dir)).collect(),
        method: method.into(),
    }
}

fn texture_sized_model(
    key: &str,
    method: &str,
    pkg: &[&str],
    face_count: usize,
    size: (f32, f32),
) -> EntityModel {
    let mut model = test_model(key, method, pkg, face_count);
    model.faces.uv_size = uv(size.0, size.1);
    model
}

fn pick<'a>(models: &'a [EntityModel], path: &str) -> Option<&'a EntityModel> {
    pick_sized(models, path, (0, 0))
}

fn pick_sized<'a>(
    models: &'a [EntityModel],
    path: &str,
    image: (u32, u32),
) -> Option<&'a EntityModel> {
    let ctx = texture_ctx(path)?;
    best_model_for(models, &ctx, image)
}

fn components(path: &str) -> Vec<String> {
    Path::new(path)
        .components()
        .filter_map(|component| match component {
            Component::Normal(name) => name.to_str().map(str::to_string),
            _ => None,
        })
        .collect()
}

fn is_block(path: &str) -> bool {
    is_block_texture_path(&components(path))
}

#[test]
fn family_and_model_keys_normalize() {
    assert_eq!(
        entity_family_key("entity/zombie_villager/profession/librarian.png").as_deref(),
        Some("zombievillager")
    );
    assert_eq!(entity_family_key("entity/cow/cow_temperate.png").as_deref(), Some("cow"));
    assert_eq!(entity_family_key("block/stone.png"), None);
    assert_eq!(model_key("net.minecraft.client.model.animal.cow.CowModel"), "cow");
    assert_eq!(model_key("net.minecraft.client.model.ZombieVillagerModel"), "zombievillager");
    assert_eq!(model_key("net.minecraft.client.model.PlayerModel"), "player");
    assert_eq!(strip_key_prefix("adultwolf"), "wolf");
    assert_eq!(strip_key_prefix("coldcow"), "cow");
    assert_eq!(strip_key_prefix("cow"), "cow");
    assert_eq!(strip_key_prefix("babyzombievillager"), "zombievillager");
    assert!(texture_ctx("entity/wolf/wolf_baby.png").unwrap().wants_baby);
    assert!(texture_ctx("entity/cow/cow_cold.png").unwrap().wants_cold);
    assert_eq!(texture_ctx("entity/equipment/humanoid/iron.png").unwrap().subdir, "humanoid");
    assert_eq!(texture_ctx("entity/equipment/test_armor.png").unwrap().subdir, "");
    assert!(texture_ctx("entity/zombie_villager/baby/plains.png").unwrap().wants_baby);
    assert!(!texture_ctx("entity/zombie_villager/type/plains.png").unwrap().wants_baby);
}

#[test]
fn baby_pig_texture_size_picks_babypig_over_adult() {
    let pkg = ["net", "m", "model", "animal", "pig"];
    let models = vec![
        texture_sized_model("babypig", "createbodylayer", &pkg, 42, (32.0, 32.0)),
        texture_sized_model("pig", "createbasepigmodel", &pkg, 42, (64.0, 64.0)),
        texture_sized_model("coldpig", "createbodylayer", &pkg, 48, (64.0, 64.0)),
    ];
    assert_eq!(
        pick_sized(&models, "entity/pig/pig_temperate_baby.png", (32, 32))
            .map(|m| m.key.as_str()),
        Some("babypig")
    );
    assert_eq!(
        pick_sized(&models, "entity/pig/pig_cold_baby.png", (32, 32)).map(|m| m.key.as_str()),
        Some("babypig")
    );
    assert_eq!(
        pick_sized(&models, "entity/pig/pig_cold.png", (64, 64)).map(|m| m.key.as_str()),
        Some("coldpig")
    );
    assert_eq!(
        pick_sized(&models, "entity/pig/pig_temperate.png", (64, 64)).map(|m| m.key.as_str()),
        Some("pig")
    );
}

#[test]
fn path_segment_baby_prefers_baby_zombie_villager() {
    let pkg = ["net", "m", "model", "monster", "zombie"];
    let models = vec![
        test_model("zombievillager", "createbodylayer", &pkg, 48),
        test_model("babyzombievillager", "createbodylayer", &pkg, 60),
    ];
    assert_eq!(
        pick(&models, "entity/zombie_villager/baby/plains.png").map(|m| m.key.as_str()),
        Some("babyzombievillager")
    );
    assert_eq!(
        pick(&models, "entity/zombie_villager/type/plains.png").map(|m| m.key.as_str()),
        Some("zombievillager")
    );
    assert_eq!(
        pick(&models, "entity/zombie_villager/zombie_villager_baby.png").map(|m| m.key.as_str()),
        Some("babyzombievillager")
    );
}

fn wolf_models() -> Vec<EntityModel> {
    let wolf = ["net", "minecraft", "client", "model", "animal", "wolf"];
    let cow = ["net", "minecraft", "client", "model", "animal", "cow"];
    vec![
        test_model("adultwolf", "createbodylayer", &wolf, 60),
        test_model("babywolf", "createbodylayer", &wolf, 54),
        test_model("cow", "createbodylayer", &cow, 50),
    ]
}

#[test]
fn wolf_textures_prefer_matching_variant() {
    let models = wolf_models();
    assert_eq!(
        pick(&models, "entity/wolf/wolf.png").map(|m| m.key.as_str()),
        Some("adultwolf")
    );
    assert_eq!(
        pick(&models, "entity/wolf/wolf_baby.png").map(|m| m.key.as_str()),
        Some("babywolf")
    );
    assert_eq!(
        pick(&models, "entity/wolf/wolf_angry.png").map(|m| m.key.as_str()),
        Some("adultwolf")
    );
}

#[test]
fn polarbear_baby_prefers_baby_model_over_adult_alias() {
    let bear = ["net", "m", "model", "animal", "polarbear"];
    let wolf = ["net", "m", "model", "animal", "wolf"];
    let models = vec![
        test_model("polarbear", "createbodylayer", &bear, 60),
        test_model("babypolarbear", "createbodylayer", &bear, 54),
        test_model("wolf", "createbodylayer", &wolf, 50),
    ];
    assert_eq!(
        pick(&models, "entity/bear/polarbear.png").map(|m| m.key.as_str()),
        Some("polarbear")
    );
    assert_eq!(
        pick(&models, "entity/bear/polarbear_baby.png").map(|m| m.key.as_str()),
        Some("babypolarbear")
    );
}

#[test]
fn family_stem_alias_and_variant_matching() {
    let pkg = ["net", "m", "model", "animal", "fish"];
    let fish = vec![
        test_model("cod", "createbodylayer", &pkg, 30),
        test_model("salmon", "createbodylayer", &pkg, 30),
    ];
    assert_eq!(pick(&fish, "entity/fish/cod.png").map(|m| m.key.as_str()), Some("cod"));

    let pkg = ["net", "m", "model", "monster", "zombie"];
    let zombies = vec![
        test_model("humanoid", "createmesh", &["net", "m", "model"], 42),
        test_model("drowned", "createbodylayer", &pkg, 48),
        test_model("babyzombie", "createbodylayer", &pkg, 40),
    ];
    assert_eq!(
        pick(&zombies, "entity/zombie/zombie.png").map(|m| m.key.as_str()),
        Some("humanoid")
    );
    assert_eq!(
        pick(&zombies, "entity/zombie/husk.png").map(|m| m.key.as_str()),
        Some("humanoid")
    );
    assert_eq!(
        pick(&zombies, "entity/zombie/drowned.png").map(|m| m.key.as_str()),
        Some("drowned")
    );
    assert_eq!(
        pick(&zombies, "entity/zombie/drowned_baby.png").map(|m| m.key.as_str()),
        Some("drowned")
    );
    assert_eq!(
        pick(&zombies, "entity/zombie/zombie_baby.png").map(|m| m.key.as_str()),
        Some("babyzombie")
    );

    let wither = vec![
        test_model("witherboss", "createbodylayer", &["net", "m", "model", "monster", "wither"], 80),
        test_model("creeper", "createbodylayer", &["net", "m", "model", "monster", "creeper"], 40),
    ];
    assert_eq!(
        pick(&wither, "entity/wither/wither.png").map(|m| m.key.as_str()),
        Some("witherboss")
    );
    let lead = vec![
        test_model("leashknot", "createbodylayer", &["net", "m", "model", "object", "leash"], 6),
        test_model("bell", "createbodylayer", &["net", "m", "model", "object", "bell"], 8),
    ];
    assert_eq!(
        pick(&lead, "entity/lead_knot/lead_knot.png").map(|m| m.key.as_str()),
        Some("leashknot")
    );

    let pkg = ["net", "m", "model", "animal", "equine"];
    let equines = vec![
        test_model("abstractequine", "createbodymesh", &pkg, 72),
        test_model("donkey", "createbodylayer", &pkg, 72),
        test_model("babyhorse", "createbabymesh", &pkg, 60),
        test_model("babydonkey", "createbabymesh", &pkg, 60),
    ];
    assert_eq!(
        pick(&equines, "entity/horse/horse_black.png").map(|m| m.key.as_str()),
        Some("abstractequine")
    );
    assert_eq!(
        pick(&equines, "entity/horse/donkey.png").map(|m| m.key.as_str()),
        Some("donkey")
    );
    assert_eq!(
        pick(&equines, "entity/horse/donkey_baby.png").map(|m| m.key.as_str()),
        Some("babydonkey")
    );

    let feline = ["net", "m", "model", "animal", "feline"];
    let cats = vec![
        test_model("adultfeline", "createbodymesh", &feline, 48),
        test_model("babyfeline", "createbabylayer", &feline, 40),
        test_model("cow", "createbodylayer", &["net", "m", "model", "animal", "cow"], 50),
    ];
    assert_eq!(
        pick(&cats, "entity/cat/cat_tabby.png").map(|m| m.key.as_str()),
        Some("adultfeline")
    );
    assert_eq!(
        pick(&cats, "entity/cat/cat_tabby_baby.png").map(|m| m.key.as_str()),
        Some("babyfeline")
    );

    let pkg = ["net", "m", "model", "object", "chest"];
    let chests = vec![
        test_model("chest", "createsinglebodylayer", &pkg, 40),
        test_model("chest", "createdoublebodyleftlayer", &pkg, 50),
        test_model("chest", "createdoublebodyrightlayer", &pkg, 50),
    ];
    assert_eq!(
        pick(&chests, "entity/chest/normal.png").map(|m| m.method.as_str()),
        Some("createsinglebodylayer")
    );
    assert_eq!(
        pick(&chests, "entity/chest/normal_left.png").map(|m| m.method.as_str()),
        Some("createdoublebodyleftlayer")
    );
    assert_eq!(
        pick(&chests, "entity/chest/normal_right.png").map(|m| m.method.as_str()),
        Some("createdoublebodyrightlayer")
    );

    let pkg = ["net", "m", "model", "object", "boat"];
    let boats = vec![
        test_model("boat", "createboatmodel", &pkg, 60),
        test_model("boat", "createchestboatmodel", &pkg, 72),
        test_model("boat", "addcommonparts", &pkg, 48),
    ];
    assert_eq!(
        pick(&boats, "entity/boat/oak.png").map(|m| m.method.as_str()),
        Some("createboatmodel")
    );
    assert_eq!(
        pick(&boats, "entity/chest_boat/oak.png").map(|m| m.method.as_str()),
        Some("createchestboatmodel")
    );

    let pkg = ["net", "m", "model", "animal", "cow"];
    let cows = vec![
        test_model("cow", "createbodylayer", &pkg, 60),
        test_model("coldcow", "createbodylayer", &pkg, 60),
    ];
    assert_eq!(
        pick(&cows, "entity/cow/cow_cold.png").map(|m| m.key.as_str()),
        Some("coldcow")
    );
    assert_eq!(
        pick(&cows, "entity/cow/cow_temperate.png").map(|m| m.key.as_str()),
        Some("cow")
    );
}

#[test]
fn equipment_slots_pick_the_right_layer_model() {
    let models = vec![
        test_model("humanoid", "createmesh", &["net", "m", "model"], 42),
        test_model("humanoid", "createbasearmormesh", &["net", "m", "model"], 42),
        test_model("humanoid", "createbabyarmormesh", &["net", "m", "model"], 40),
        test_model("elytra", "createlayer", &["net", "m", "model", "object", "equipment"], 24),
    ];
    let iron = pick(&models, "entity/equipment/humanoid/iron.png").unwrap();
    assert_eq!(iron.key, "humanoid");
    assert_eq!(iron.method, "createbasearmormesh");

    let baby = pick(&models, "entity/equipment/humanoid_baby/iron.png").unwrap();
    assert_eq!(baby.method, "createbabyarmormesh");

    let wings = pick(&models, "entity/equipment/wings/elytra.png").unwrap();
    assert_eq!(wings.key, "elytra");

    // A saddle without any model must not match anything.
    let saddles =
        vec![test_model("cow", "createbodylayer", &["net", "m", "model", "animal", "cow"], 60)];
    assert!(pick(&saddles, "entity/equipment/pig_saddle/saddle.png").is_none());
}

#[test]
fn armor_methods_lose_outside_equipment_and_pose_variants_lose() {
    let stand = ["net", "m", "model", "object", "armorstand"];
    let sniffer = ["net", "m", "model", "animal", "sniffer"];
    let models = vec![
        test_model("armorstand", "createbodylayer", &stand, 60),
        test_model("armorstandarmor", "createbodylayer", &stand, 40),
        test_model("sniffer", "createbodylayer", &sniffer, 70),
        test_model("sniffer", "createsittingposebodylayer", &sniffer, 80),
    ];
    assert_eq!(
        pick(&models, "entity/armorstand/armorstand.png").map(|m| m.key.as_str()),
        Some("armorstand")
    );
    assert_eq!(
        pick(&models, "entity/sniffer/sniffer.png").map(|m| m.method.as_str()),
        Some("createbodylayer")
    );
}

#[test]
fn is_block_texture_path_detects_block_directory() {
    assert!(is_block("assets/minecraft/textures/block/stone.png"));
    assert!(is_block("textures/block/dirt.png"));
    assert!(!is_block("assets/minecraft/textures/entity/cow/cow.png"));
    assert!(!is_block("block.png"));
    assert!(!is_block("items/block_item.png"));
}

#[test]
fn colormap_paths_are_detected() {
    assert!(is_colormap_texture_path("colormap/grass.png"));
    assert!(is_colormap_texture_path("colormap/foliage.png"));
    assert!(is_colormap_texture_path("assets/minecraft/textures/colormap/grass.png"));
    assert!(!is_colormap_texture_path("block/grass_block_side.png"));
    assert!(!is_colormap_texture_path("entity/grass/grass.png"));
}

#[test]
fn block_texture_stem_for_relative_paths() {
    assert_eq!(block_texture_stem_for("block/lantern.png").as_deref(), Some("lantern"));
    assert_eq!(block_texture_stem_for("entity/cow/cow.png"), None);
    assert_eq!(block_texture_stem_for("block/sub/x.png"), None);
}

#[test]
fn block_stems_need_a_name_and_an_extension() {
    assert_eq!(block_texture_stem_for("block/.png"), None);
    assert_eq!(block_texture_stem_for("block/stone.jpg"), None);
}

#[test]
fn tiling_textures_want_wrapping() {
    assert!(wants_wrap("block/stone.png"));
    assert!(wants_wrap("entity/beacon/beacon_beam.png"));
    assert!(!wants_wrap("entity/beacon/other.png"));
    assert!(is_wrap_texture_path(&components("textures/block/a.png"), Some("a.png")));
    assert!(is_wrap_texture_path(&components("x/beacon_beam.png"), Some("beacon_beam.png")));
    assert!(!is_wrap_texture_path(&components("x/y.png"), Some("y.png")));
    assert!(!is_wrap_texture_path(&components(".."), None));
}

#[test]
fn names_are_made_from_stems() {
    assert_eq!(relative_name("assets/minecraft/textures/block/a.png"), "block/a.png");
    assert_eq!(relative_name("other/a.png"), "other/a.png");
    assert_eq!(scaled_name("client", 4), "client_x4");
    assert_eq!(default_output_name("cow", Some("PNG"), 6), "cow_x6.PNG");
    assert_eq!(default_output_name("cow", None, 2), "cow_x2.png");
    assert_eq!(suggested_name(Some("cow"), 3), "cow_x3.png");
    assert_eq!(suggested_name(None, 3), "upscaled_x3.png");
    assert_eq!(slices_name("cow"), "cow_slices");
    assert_eq!(faces_name("cow"), "cow_faces.png");
}

#[test]
fn keys_are_small_letters_and_digits() {
    assert_eq!(normalize_key("Zombie_Villager-2.0 É"), "zombievillager20");
    assert_eq!(normalize_key(&normalize_key("A_b-9")), normalize_key("A_b-9"));
    assert_eq!(lowercase("createBodyLayer_É"), "createbodylayer_É");
    assert_eq!(strip_key_prefix("adult"), "adult");
    assert_eq!(strip_key_prefix("warmcow"), "cow");
}

#[test]
fn variant_tokens_come_off_the_end() {
    assert_eq!(
        strip_variant_tokens("chickencoldbaby"),
        ("chicken".to_string(), true, true, false)
    );
    assert_eq!(strip_variant_tokens("wolfpup"), ("wolf".to_string(), true, false, false));
    assert_eq!(
        strip_variant_tokens("cowtemperate"),
        ("cow".to_string(), false, false, false)
    );
    assert_eq!(strip_variant_tokens("cowwarm"), ("cow".to_string(), false, false, true));
    assert_eq!(strip_variant_tokens("baby"), ("baby".to_string(), false, false, false));
}

#[test]
fn paths_without_a_family_or_a_stem_say_nothing() {
    assert!(texture_ctx("block/stone.png").is_none());
    assert!(texture_ctx("entity/---/cow.png").is_none());
    assert!(texture_ctx("entity/cow/---.png").is_none());
}

#[test]
fn aliases_and_equipment_targets() {
    assert_eq!(alias_targets("cat"), vec!["feline", "adultfeline", "babyfeline"]);
    assert_eq!(alias_targets("horse"), vec!["abstractequine"]);
    assert!(alias_targets("cow").is_empty());
    assert_eq!(equipment_target("humanoidleggings"), Some("humanoid"));
    assert_eq!(equipment_target("zombiahorsesaddle"), Some("equinesaddle"));
    assert_eq!(equipment_target("pigsaddle"), None);
    assert!(is_armor_method("createarmormesh", "humanoid"));
    assert!(is_armor_method("createbodylayer", "nautilusarmor"));
    assert!(!is_armor_method("createbodylayer", "armorstand"));
}

#[test]
fn scores_add_up() {
    let wolf = ["animal", "wolf"];
    let models = wolf_models();
    let ctx = texture_ctx("entity/wolf/wolf.png").unwrap();
    // Family by the base key, package, stem by the base key, and an adult.
    assert_eq!(signal_score(&models[0], &ctx), 2600 + 2200 + 3200 + 200);
    // A baby model has neither name; its package counts, its age against it.
    assert_eq!(signal_score(&models[1], &ctx), 2200 - 600);
    assert_eq!(score_model(&models[0], &ctx, (0, 0)), 8200 + 60 + 300);
    assert_eq!(score_model(&models[0], &ctx, (64, 64)), 8200 + 60 + 300 + 2000);
    assert_eq!(score_model(&models[2], &ctx, (0, 0)), i128::from(i64::MIN / 4));
    let mut plain = test_model("wolf", "createbodylayer", &wolf, 5);
    plain.has_texture_size = false;
    assert_eq!(score_model(&plain, &ctx, (64, 64)), 3000 + 2200 + 3400 + 5);
}

#[test]
fn the_last_of_equal_models_wins() {
    let pkg = ["animal", "cow"];
    let models = vec![
        test_model("cow", "createbodylayer", &pkg, 8),
        test_model("cow", "createbodylayer", &pkg, 8),
        test_model("pig", "createbodylayer", &["animal", "pig"], 90),
    ];
    let ctx = texture_ctx("entity/cow/cow.png").unwrap();
    assert_eq!(best_model_index(&models, &ctx, (0, 0)), Some(1));
    assert_eq!(best_model_index(&models[2..], &ctx, (0, 0)), None);
}

fn object(entries: Vec<(&str, Json)>) -> Json {
    Json::Object(entries.into_iter().map(|(key, value)| (key.into(), value)).collect())
}

fn layout() -> EntityLayout {
    let net = CubeNet {
        u0: 0,
        u1: 4,
        u2: 12,
        u3: 16,
        v0: 0,
        v1: 4,
        dx: 8,
        dy: 8,
        dz: 4,
        wide: true,
        tall: true,
        deep: true,
    };
    EntityLayout {
        texture_size: Some(uv(16.0, 16.0)),
        parts: vec![EntityPart { cubes: vec![net], children: Vec::new() }],
    }
}

#[test]
fn entity_models_are_admitted() {
    let size = Json::Array(vec![Json::Number(JsonNumber::Unsigned(16))]);
    let root = object(vec![
        ("model", Json::Text("net.Minecraft.animal.AdultWolfModel".into())),
        ("method", Json::Text("createBodyLayer".into())),
        ("texture_size", size),
        ("parts", Json::Array(Vec::new())),
    ]);
    let model = admit_entity_model(&root, Ok(layout())).unwrap();
    assert_eq!(model.key, "adultwolf");
    assert_eq!(model.base_key, "wolf");
    assert_eq!(model.method, "createbodylayer");
    assert_eq!(model.pkg_dirs, vec!["net", "minecraft", "animal"]);
    assert!(model.has_texture_size);
    assert_eq!(model.faces.faces.len(), 6);
    assert_eq!(model.faces.uv_size, uv(16.0, 16.0));
}

#[test]
fn files_that_are_no_entity_models_are_not_admitted() {
    let class = || ("model", Json::Text("a.CowModel".into()));
    let parts = || ("parts", Json::Array(Vec::new()));
    let fine = admit_entity_model(&object(vec![class(), parts()]), Ok(layout())).unwrap();
    assert!(!fine.has_texture_size);
    assert_eq!(fine.method, "");
    assert!(admit_entity_model(&object(vec![class()]), Ok(layout())).is_none());
    assert!(
        admit_entity_model(&object(vec![class(), ("parts", Json::Null)]), Ok(layout())).is_none()
    );
    assert!(admit_entity_model(&object(vec![parts()]), Ok(layout())).is_none());
    let nameless = ("model", Json::Text("a.Model".into()));
    assert!(admit_entity_model(&object(vec![nameless, parts()]), Ok(layout())).is_none());
    assert!(
        admit_entity_model(&object(vec![class(), parts()]), Err("structure".into())).is_none()
    );
    let empty = EntityLayout { texture_size: None, parts: Vec::new() };
    assert!(admit_entity_model(&object(vec![class(), parts()]), Ok(empty)).is_none());
}

#[test]
fn tiling_textures_tile_by_either_path() {
    for relative in ["block/stone.png", "block/a/b.png", "entity/beacon/beacon_beam.png"] {
        assert!(wants_wrap(relative));
        let pieces = components(relative);
        assert!(is_wrap_texture_path(&pieces, pieces.last().map(String::as_str)));
    }
}

#[test]
fn other_textures_tile_by_neither_path() {
    for relative in ["item/stone.png", "entity/beacon/other.png", "blocks/block.png", ""] {
        assert!(!wants_wrap(relative));
        let pieces = components(relative);
        assert!(!is_wrap_texture_path(&pieces, pieces.last().map(String::as_str)));
    }
    for relative in ["item/block/x.png", "x/beacon_beam.png"] {
        assert!(!wants_wrap(relative));
        let pieces = components(relative);
        assert!(is_wrap_texture_path(&pieces, pieces.last().map(String::as_str)));
    }
}

#[test]
fn ages_are_not_mixed() {
    let pkg = ["animal", "feline"];
    let baby = test_model("babyfeline", "createbabylayer", &pkg, 40);
    let grown = test_model("adultfeline", "createbodymesh", &pkg, 48);
    let cat = texture_ctx("entity/cat/cat_tabby.png").unwrap();
    let kitten = texture_ctx("entity/cat/cat_tabby_baby.png").unwrap();
    assert_eq!(signal_score(&baby, &cat), -600);
    assert_eq!(signal_score(&grown, &cat), 2500 + 200);
    assert_eq!(signal_score(&baby, &kitten), 2500 + 800);
    assert_eq!(signal_score(&grown, &kitten), -400);
}
