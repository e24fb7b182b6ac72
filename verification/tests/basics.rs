use xbrstudio::cube::{neighbor, neighbor_edge, side_of, Edge, Side};
use xbrstudio::json::{find_key, Json, JsonNumber};
use xbrstudio::model::FaceRect;
use xbrstudio::raster::{Rgba, RgbaImage};
use xbrstudio::text::{
    any_same, drop_prefix, drop_suffix, has_part, has_prefix, has_suffix, push_decimal, same_text,
    split_text, text_from, text_to,
};
use xbrstudio::tile::{sample_edge, FaceGroup};

const SIDES: [Side; 6] =
    [Side::Down, Side::Up, Side::West, Side::North, Side::East, Side::South];

const EDGES: [Edge; 4] = [Edge::Top, Edge::Bottom, Edge::Left, Edge::Right];

#[test]
fn a_side_meets_four_different_sides() {
    for side in SIDES {
        for a in EDGES {
            assert_ne!(neighbor(side, a).0, side);
            for b in EDGES {
                assert_eq!(a == b, neighbor(side, a).0 == neighbor(side, b).0);
            }
        }
    }
}

#[test]
fn names_stand_for_sides() {
    let names = ["down", "up", "west", "north", "east", "south"];
    for (name, side) in names.into_iter().zip(SIDES) {
        assert_eq!(side_of(name), Some(side));
    }
    assert_eq!(side_of("Down"), None);
    assert_eq!(neighbor_edge("up", Edge::Left), Some(("west", Edge::Bottom, false)));
}

#[test]
fn edges_are_sampled_inside_the_face() {
    let mut image = RgbaImage::new(8, 8);
    for y in 0..8 {
        for x in 0..8 {
            image.put_pixel(x, y, Rgba::new(x as u8, y as u8, 0, 255));
        }
    }
    let rect = FaceRect { x: 2, y: 3, width: 4, height: 2 };
    let at = |edge, reversed, i, len, depth| {
        let pixel = sample_edge(&image, &rect, edge, reversed, i, len, depth);
        (pixel.r, pixel.g)
    };
    assert_eq!(at(Edge::Top, false, 0, 4, 0), (2, 3));
    assert_eq!(at(Edge::Top, true, 0, 4, 0), (5, 3));
    assert_eq!(at(Edge::Bottom, false, 1, 4, 0), (3, 4));
    assert_eq!(at(Edge::Bottom, false, 1, 4, 9), (3, 3));
    assert_eq!(at(Edge::Left, false, 1, 2, 1), (3, 4));
    assert_eq!(at(Edge::Right, false, 0, 2, 1), (4, 3));
    // A longer or shorter edge is mapped in proportion, and never left.
    assert_eq!(at(Edge::Top, false, 7, 8, 0), (5, 3));
    assert_eq!(at(Edge::Top, false, 4, 8, 0), (3, 3));
    assert_eq!(at(Edge::Top, false, -5, 4, 0), (2, 3));
    assert_eq!(at(Edge::Top, false, 99, 4, 0), (5, 3));
    assert_eq!(at(Edge::Right, false, 0, 1, 0), (5, 3));
}

#[test]
fn groups_keep_a_face_per_side() {
    let first = FaceRect { x: 0, y: 0, width: 1, height: 1 };
    let second = FaceRect { x: 1, y: 0, width: 1, height: 1 };
    let mut group = FaceGroup::empty();
    assert_eq!(group.get(Side::Up), None);
    group.set(Side::Up, first);
    group.set(Side::Up, second);
    assert_eq!(group.get(Side::Up), Some(second));
    assert_eq!(group.get(Side::Down), None);
}

#[test]
fn texts_are_compared_and_cut() {
    assert!(same_text("é", "é") && !same_text("e", "é") && !same_text("a", "ab"));
    assert!(has_prefix("block/a", "block/") && !has_prefix("blo", "block"));
    assert!(has_suffix("a.png", ".png") && !has_suffix("png", ".png"));
    assert!(has_part("chestboat", "boat") && has_part("x", "") && !has_part("boat", "oar"));
    assert_eq!(drop_prefix("entity/cow", "entity/").as_deref(), Some("cow"));
    assert_eq!(drop_prefix("cow", "entity/"), None);
    assert_eq!(drop_suffix("CowModel", "Model").as_deref(), Some("Cow"));
    assert_eq!(drop_suffix("Cow", "Model"), None);
    assert_eq!(text_from("añb", 1), "ñb");
    assert_eq!(text_to("añb", 2), "añ");
    assert!(any_same(&vec!["a".to_string(), "b".to_string()], "b"));
    assert!(!any_same(&Vec::new(), "b"));
}

#[test]
fn splitting_a_text_loses_nothing() {
    for text in ["", "/", "a", "a/b", "/a//b/", "no separator"] {
        let pieces = split_text(text, '/');
        assert_eq!(pieces.join("/"), text);
        assert_eq!(pieces, text.split('/').collect::<Vec<_>>());
    }
}

#[test]
fn numbers_are_written_in_decimal() {
    for n in [0, 7, 10, 99, 100, 65_536, u64::MAX] {
        let mut text = "n=".to_string();
        push_decimal(&mut text, n);
        assert_eq!(text, format!("n={n}"));
    }
}

#[test]
fn json_values_are_looked_up() {
    let entries = vec![
        ("a".to_string(), Json::Number(JsonNumber::Unsigned(u64::MAX))),
        ("b".to_string(), Json::Number(JsonNumber::Negative(-1))),
        ("a".to_string(), Json::Null),
    ];
    assert_eq!(find_key(&entries, "a"), Some(0));
    assert_eq!(find_key(&entries, "c"), None);
    let object = Json::Object(entries);
    assert_eq!(object.get("a").unwrap().as_u64(), Some(u64::MAX));
    assert_eq!(object.get("a").unwrap().as_i64(), None);
    assert_eq!(object.get("b").unwrap().as_i64(), Some(-1));
    assert_eq!(object.get("b").unwrap().as_u64(), None);
    assert!(object.get("c").is_none());
    assert!(Json::Array(Vec::new()).get("a").is_none());
    assert!(Json::Null.is_null() && Json::Array(Vec::new()).is_array());
    assert!(Json::Number(JsonNumber::Double(0)).as_u64().is_none());
    assert_eq!(Json::Text("t".into()).as_text().map(String::as_str), Some("t"));
    assert!(Json::Bool(true).as_text().is_none());
}
