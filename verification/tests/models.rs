use std::collections::HashSet;

use xbrstudio::json::Json;
use xbrstudio::model::{
    clip_rect, scale_model_faces_to_image, FaceRect, ModelFace, ModelFaces, ScaledRect, UvLength,
    UvSize,
};
use xbrstudio::parse::{
    first_texture_reference, load_model, parse_model, BlockElement, BlockFace, CubeNet,
    EntityLayout, EntityPart,
};

fn text(value: &str) -> Json {
    Json::Text(value.into())
}

fn object(entries: Vec<(&str, Json)>) -> Json {
    Json::Object(entries.into_iter().map(|(key, value)| (key.into(), value)).collect())
}

fn length(value: f32) -> UvLength {
    UvLength { bits: value.to_bits(), whole: value as u32 }
}

fn uv(width: f32, height: f32) -> UvSize {
    UvSize { width: length(width), height: length(height) }
}

/// The net of a cube, as a model file gives it.
fn cube(size: [f32; 3], origin: [f32; 2]) -> CubeNet {
    let [dx, dy, dz] = size;
    let [u, v] = origin;
    let round = |value: f32| value.round().max(0.0) as u32;
    CubeNet {
        u0: round(u),
        u1: round(u + dz),
        u2: round(u + dz + dx),
        u3: round(u + dz + dx + dz),
        v0: round(v),
        v1: round(v + dz),
        dx: round(dx),
        dy: round(dy),
        dz: round(dz),
        wide: dx > 0.0,
        tall: dy > 0.0,
        deep: dz > 0.0,
    }
}

fn part(cubes: Vec<CubeNet>) -> EntityPart {
    EntityPart { cubes, children: Vec::new() }
}

fn entity(texture_size: UvSize, parts: Vec<EntityPart>) -> ModelFaces {
    let root = object(vec![("parts", Json::Array(Vec::new()))]);
    let layout = EntityLayout { texture_size: Some(texture_size), parts };
    parse_model(&root, Ok(layout), Err("missing".into())).unwrap()
}

fn block_face(name: &str, rect: [f32; 4]) -> BlockFace {
    BlockFace {
        name: name.into(),
        rect: Some(FaceRect {
            x: rect[0].round() as u32,
            y: rect[1].round() as u32,
            width: (rect[2] - rect[0]).round().max(0.0) as u32,
            height: (rect[3] - rect[1]).round().max(0.0) as u32,
        }),
        texture: None,
    }
}

fn no_entity() -> Result<EntityLayout, String> {
    Err("missing field".into())
}

/// The faces of a model scaled to a texture.
fn scaled(model: &ModelFaces, width: u32, height: u32) -> Vec<ScaledRect> {
    let x_scale = width as f32 / f32::from_bits(model.uv_size.width.bits);
    let y_scale = height as f32 / f32::from_bits(model.uv_size.height.bits);
    model
        .faces
        .iter()
        .map(|face| ScaledRect {
            x: (face.rect.x as f32 * x_scale).floor() as i64,
            y: (face.rect.y as f32 * y_scale).floor() as i64,
            right: (face.rect.right() as f32 * x_scale).ceil() as i64,
            bottom: (face.rect.bottom() as f32 * y_scale).ceil() as i64,
        })
        .collect()
}

fn scale(model: &mut ModelFaces, width: u32, height: u32) {
    let rects = scaled(model, width, height);
    scale_model_faces_to_image(model, &rects, width, height);
}

#[test]
fn parses_block_faces_and_textures() {
    let root = object(vec![
        ("textures", object(vec![("all", text("minecraft:block/stone"))])),
        ("elements", Json::Array(Vec::new())),
    ]);
    let elements = vec![BlockElement {
        faces: vec![
            block_face("north", [0.0, 0.0, 16.0, 8.0]),
            block_face("east", [16.0, 0.0, 24.0, 8.0]),
        ],
    }];

    let parsed = parse_model(&root, no_entity(), Ok(elements)).unwrap();
    assert_eq!(parsed.faces.len(), 2);
    assert_eq!(
        (
            f32::from_bits(parsed.uv_size.width.bits),
            f32::from_bits(parsed.uv_size.height.bits)
        ),
        (16.0, 16.0)
    );
    assert_eq!(parsed.uv_size, uv(16.0, 16.0));
    let all = parsed.textures.iter().find(|(key, _)| key == "all").unwrap();
    assert_eq!(all.1, "minecraft:block/stone");
    let north = parsed.faces.iter().find(|face| face.face == "north").unwrap();
    let east = parsed.faces.iter().find(|face| face.face == "east").unwrap();
    assert_eq!(north.rect, FaceRect { x: 0, y: 0, width: 16, height: 8 });
    assert_eq!(east.rect, FaceRect { x: 16, y: 0, width: 8, height: 8 });
    // A face that names no texture has the model's first.
    assert_eq!(north.texture, "all");
}

#[test]
fn parses_entity_box_uv() {
    // A head of size 8x8x6 at (0,0): six faces of the box layout.
    let parsed = entity(uv(64.0, 64.0), vec![part(vec![cube([8.0, 8.0, 6.0], [0.0, 0.0])])]);
    assert_eq!(parsed.uv_size, uv(64.0, 64.0));
    assert_eq!(parsed.faces.len(), 6);

    let find = |name: &str| parsed.faces.iter().find(|face| face.face == name).unwrap().rect;
    // dx=8, dy=8, dz=6
    assert_eq!(find("down"), FaceRect { x: 6, y: 0, width: 8, height: 6 });
    assert_eq!(find("up"), FaceRect { x: 14, y: 0, width: 8, height: 6 });
    assert_eq!(find("east"), FaceRect { x: 14, y: 6, width: 6, height: 8 });
    assert_eq!(find("north"), FaceRect { x: 6, y: 6, width: 8, height: 8 });
    assert_eq!(find("west"), FaceRect { x: 0, y: 6, width: 6, height: 8 });
    assert_eq!(find("south"), FaceRect { x: 20, y: 6, width: 8, height: 8 });
}

#[test]
fn entity_scale_is_identity_on_matching_texture() {
    let mut parsed = entity(uv(64.0, 64.0), vec![part(vec![cube([12.0, 18.0, 10.0], [18.0, 4.0])])]);
    let before = parsed.faces.clone();
    scale(&mut parsed, 64, 64);
    assert_eq!(parsed.faces.len(), before.len());
    for (a, b) in before.iter().zip(parsed.faces.iter()) {
        assert_eq!(a.rect, b.rect);
    }
}

#[test]
fn clips_faces_to_image() {
    let mut model = ModelFaces {
        textures: Vec::new(),
        faces: vec![
            ModelFace {
                texture: String::new(),
                rect: FaceRect { x: 0, y: 0, width: 16, height: 16 },
                face: "north".into(),
                group: 0,
            },
            ModelFace {
                texture: String::new(),
                rect: FaceRect { x: 16, y: 0, width: 16, height: 16 },
                face: "east".into(),
                group: 1,
            },
        ],
        uv_size: uv(16.0, 16.0),
    };
    scale(&mut model, 16, 16);
    assert_eq!(model.faces.len(), 1);
    assert_eq!(model.faces[0].rect.width, 16);
}

#[test]
fn drops_faces_starting_beyond_image() {
    let mut model = ModelFaces {
        textures: Vec::new(),
        faces: vec![ModelFace {
            texture: String::new(),
            rect: FaceRect { x: 80, y: 0, width: 16, height: 16 },
            face: "north".into(),
            group: 0,
        }],
        uv_size: uv(64.0, 64.0),
    };
    scale(&mut model, 32, 32);
    assert!(model.faces.is_empty());
}

#[test]
fn assigns_group_per_box() {
    let parsed = entity(
        uv(64.0, 64.0),
        vec![part(vec![
            cube([8.0, 8.0, 6.0], [0.0, 0.0]),
            cube([2.0, 3.0, 1.0], [22.0, 0.0]),
        ])],
    );
    let groups: HashSet<u32> = parsed.faces.iter().map(|face| face.group).collect();
    assert_eq!(groups, [0, 1].into_iter().collect());
    assert!(parsed.faces.iter().filter(|face| face.group == 0).all(|face| matches!(
        face.face.as_str(),
        "down" | "up" | "east" | "north" | "west" | "south"
    )));

    let elements = vec![
        BlockElement { faces: vec![block_face("north", [0.0, 0.0, 16.0, 16.0])] },
        BlockElement { faces: vec![block_face("east", [0.0, 0.0, 8.0, 8.0])] },
    ];
    let parsed = parse_model(&object(Vec::new()), no_entity(), Ok(elements)).unwrap();
    let groups: HashSet<u32> = parsed.faces.iter().map(|face| face.group).collect();
    assert_eq!(groups, [0, 1].into_iter().collect());
}

#[test]
fn flat_cube_emits_non_degenerate_faces() {
    // A plate with dy=0: only up and down have area (w=dx, h=dz).
    let parsed = entity(uv(48.0, 48.0), vec![part(vec![cube([4.0, 0.0, 7.0], [17.0, 13.0])])]);
    assert_eq!(parsed.faces.len(), 2, "dy=0 cube should emit up+down only");
    let down = parsed.faces.iter().find(|face| face.face == "down").expect("down face");
    let up = parsed.faces.iter().find(|face| face.face == "up").expect("up face");
    // dx=4, dz=7, uv(17,13): down at (u+dz, v)=(24,13) size 4x7;
    // up at (u+dz+dx, v)=(28,13) size 4x7.
    assert_eq!(down.rect, FaceRect { x: 24, y: 13, width: 4, height: 7 });
    assert_eq!(up.rect, FaceRect { x: 28, y: 13, width: 4, height: 7 });
    assert_eq!(down.group, up.group);

    // A slab with dx=0: only east and west have area (w=dz, h=dy).
    let parsed = entity(uv(64.0, 64.0), vec![part(vec![cube([0.0, 5.0, 8.0], [16.0, 0.0])])]);
    let names: Vec<&str> = parsed.faces.iter().map(|face| face.face.as_str()).collect();
    assert_eq!(names.len(), 2);
    assert!(names.contains(&"east") && names.contains(&"west"));
    let east = parsed.faces.iter().find(|face| face.face == "east").unwrap();
    // uv(16,0), dz=8, dy=5: east at (u+dz+dx, v+dz)=(24, 8) size 8x5.
    assert_eq!(east.rect, FaceRect { x: 24, y: 8, width: 8, height: 5 });
}

#[test]
fn groups_count_on_through_children_and_skip_points() {
    let below = EntityPart {
        cubes: vec![cube([1.0, 1.0, 1.0], [4.0, 0.0])],
        children: vec![part(vec![cube([1.0, 1.0, 1.0], [8.0, 0.0])])],
    };
    let top = EntityPart {
        cubes: vec![cube([0.0, 0.0, 1.0], [0.0, 0.0]), cube([1.0, 1.0, 1.0], [0.0, 0.0])],
        children: vec![below],
    };
    let parsed = entity(uv(16.0, 16.0), vec![top, part(vec![cube([1.0, 1.0, 1.0], [9.0, 9.0])])]);
    let groups: Vec<u32> = parsed.faces.iter().map(|face| face.group).collect();
    assert_eq!(groups.len(), 24);
    assert_eq!(groups[0], 0);
    assert_eq!(groups[6], 1);
    assert_eq!(groups[12], 2);
    assert_eq!(groups[18], 3);
}

#[test]
fn entity_models_without_a_size_have_the_standard_one() {
    let root = object(vec![("parts", Json::Array(Vec::new()))]);
    let layout = EntityLayout { texture_size: None, parts: Vec::new() };
    let parsed = parse_model(&root, Ok(layout), Ok(Vec::new())).unwrap();
    assert_eq!(parsed.uv_size, uv(16.0, 16.0));
    assert!(parsed.faces.is_empty());
}

#[test]
fn structure_errors_say_which_kind_of_model() {
    let root = object(vec![("parts", Json::Null)]);
    assert_eq!(
        parse_model(&root, Err("no list".into()), Ok(Vec::new())).unwrap_err(),
        "unsupported entity model structure: no list"
    );
    let root = object(Vec::new());
    assert_eq!(
        parse_model(&root, no_entity(), Err("no list".into())).unwrap_err(),
        "unsupported block model structure: no list"
    );
}

#[test]
fn model_files_are_read() {
    let elements = || vec![BlockElement { faces: vec![block_face("up", [0.0, 0.0, 4.0, 4.0])] }];
    let text = r#"{"textures": {"b": "block/b", "n": 1, "a": "block/a"}, "elements": []}"#;
    let model = load_model(Ok(text.into()), no_entity(), Ok(elements())).unwrap();
    let textures: Vec<&str> = model.textures.iter().map(|entry| entry.1.as_str()).collect();
    assert_eq!(textures, vec!["block/a", "block/b"]);
    assert_eq!(model.faces.len(), 1);
    assert_eq!(model.faces[0].texture, "a");
    let layout = EntityLayout { texture_size: Some(uv(64.0, 32.0)), parts: Vec::new() };
    let model = load_model(Ok(r#"{"parts": []}"#.into()), Ok(layout), Ok(elements())).unwrap();
    assert_eq!(model.uv_size, uv(64.0, 32.0));
    assert!(model.faces.is_empty());
}

#[test]
fn model_files_that_cannot_be_read_say_why() {
    assert_eq!(
        load_model(Err("no such file".into()), no_entity(), Ok(Vec::new())).unwrap_err(),
        "cannot read model: no such file"
    );
    assert_eq!(
        load_model(Ok("{".into()), no_entity(), Ok(Vec::new())).unwrap_err(),
        "cannot parse model: EOF while parsing an object at line 1 column 1"
    );
    assert_eq!(
        load_model(Ok("{}".into()), no_entity(), Err("no list".into())).unwrap_err(),
        "unsupported block model structure: no list"
    );
}

#[test]
fn block_textures_lose_their_hashes_and_faces_without_uv_are_dropped() {
    let mut first = block_face("up", [0.0, 0.0, 4.0, 4.0]);
    first.texture = Some("##side".into());
    let second = BlockFace { name: "down".into(), rect: None, texture: None };
    let elements = vec![BlockElement { faces: vec![first, second] }];
    let parsed = parse_model(&object(Vec::new()), no_entity(), Ok(elements)).unwrap();
    assert_eq!(parsed.faces.len(), 1);
    assert_eq!(parsed.faces[0].texture, "side");
    assert!(parsed.textures.is_empty());
}

#[test]
fn textures_that_are_no_texts_are_left_out() {
    let root = object(vec![(
        "textures",
        object(vec![("a", Json::Bool(true)), ("b", text("block/b")), ("c", text("block/c"))]),
    )]);
    let parsed = parse_model(&root, no_entity(), Ok(Vec::new())).unwrap();
    assert_eq!(parsed.textures.len(), 2);
    assert_eq!(first_texture_reference(&parsed.textures), Some("b".to_string()));
    assert_eq!(first_texture_reference(&Vec::new()), None);
}

#[test]
fn partly_visible_faces_are_clipped() {
    let wide = ScaledRect { x: 10, y: -2, right: 40, bottom: 5 };
    assert_eq!(
        clip_rect(wide, 16, 16),
        Some(FaceRect { x: 10, y: 0, width: 6, height: 5 })
    );
    assert_eq!(clip_rect(ScaledRect { x: 16, y: 0, right: 20, bottom: 4 }, 16, 16), None);
    assert_eq!(clip_rect(ScaledRect { x: 3, y: 0, right: 3, bottom: 4 }, 16, 16), None);
}
