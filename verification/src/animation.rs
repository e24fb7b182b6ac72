//! Animated textures: frames stacked in one image, and the settings that say
//! how large a frame is.
use crate::json::{
    entry_views, find_key, keyed, lemma_keyed_unique, lemma_replaced, Json, JsonNumber, JsonView,
};
use vstd::prelude::*;

verus! {

/// A positive size that an animation gives under a key, cut to 32 bits.
pub open spec fn given_size(animation: JsonView, key: Seq<char>) -> Option<u32> {
    match animation.get(key) {
        None => None,
        Some(value) => match value.as_u64() {
            Some(n) => if n > 0 {
                Some(n as u32)
            } else {
                None
            },
            None => None,
        },
    }
}

/// A frame's width is the one given, else the image's; its height is the one
/// given, else the width, and lies between one and the image's height.
pub open spec fn frame_size(width: u32, height: u32, animation: JsonView) -> (u32, u32) {
    let frame_width = match given_size(animation, "width"@) {
        Some(n) => n,
        None => width,
    };
    let frame_height = match given_size(animation, "height"@) {
        Some(n) => n,
        None => frame_width,
    };
    let least: u32 = if frame_height < 1 {
        1
    } else {
        frame_height
    };
    let most: u32 = if height < 1 {
        1
    } else {
        height
    };
    (
        frame_width,
        if least < most {
            least
        } else {
            most
        },
    )
}

fn read_size(animation: &Json, key: &str) -> (size: Option<u32>)
    ensures
        size == given_size(animation@, key@),
{
    match animation.get(key) {
        None => None,
        Some(value) => match value.as_u64() {
            Some(n) => {
                if n > 0 {
                    Some(
                        #[verifier::truncate]
                        (n as u32),
                    )
                } else {
                    None
                }
            },
            None => None,
        },
    }
}

/// The width and height of an animation's frames.
pub fn animation_frame_size(width: u32, height: u32, animation: &Json) -> (size: (u32, u32))
    ensures
        size == frame_size(width, height, animation@),
{
    let frame_width: u32 = match read_size(animation, "width") {
        Some(n) => n,
        None => width,
    };
    let frame_height: u32 = match read_size(animation, "height") {
        Some(n) => n,
        None => frame_width,
    };
    let least: u32 = if frame_height < 1 {
        1
    } else {
        frame_height
    };
    let most: u32 = if height < 1 {
        1
    } else {
        height
    };
    (
        frame_width,
        if least < most {
            least
        } else {
            most
        },
    )
}

/// A frame has at least one row, and never more than the image.
pub proof fn frames_fit_the_image(width: u32, height: u32, animation: JsonView)
    requires
        height > 0,
    ensures
        1 <= frame_size(width, height, animation).1 <= height,
{
}

/// The settings describe an animation.
pub open spec fn animates(settings: JsonView) -> bool {
    match settings.get("animation"@) {
        Some(animation) => !(animation is Null),
        None => false,
    }
}

/// The animation that a texture's settings describe, if they describe one.
pub fn animation_of(settings: &Json) -> (animation: Option<&Json>)
    ensures
        if animates(settings@) {
            animation matches Some(animation) && settings@.get("animation"@) == Some(animation@)
        } else {
            animation is None
        },
{
    match settings.get("animation") {
        Some(animation) => {
            if animation.is_null() {
                None
            } else {
                Some(animation)
            }
        },
        None => None,
    }
}

/// An object's entries with the unsigned number under a key multiplied.
pub open spec fn multiplied(
    fields: Seq<(Seq<char>, JsonView)>,
    key: Seq<char>,
    factor: int,
) -> Seq<(Seq<char>, JsonView)> {
    if exists|i: int| keyed(fields, key, i) {
        let i = choose|i: int| keyed(fields, key, i);
        match fields[i].1.as_u64() {
            Some(n) => fields.update(
                i,
                (key, JsonView::Number(JsonNumber::Unsigned((n * factor) as u64))),
            ),
            None => fields,
        }
    } else {
        fields
    }
}

/// The product that [`multiplied`] makes can be held.
pub open spec fn multipliable(
    fields: Seq<(Seq<char>, JsonView)>,
    key: Seq<char>,
    factor: int,
) -> bool {
    forall|i: int|
        keyed(fields, key, i) ==> ((#[trigger] fields[i]).1.as_u64() matches Some(n) ==> n * factor
            <= u64::MAX)
}

/// Multiplies the unsigned number under a key.
fn multiply(fields: &mut Vec<(String, Json)>, key: &str, factor: u32)
    requires
        multipliable(entry_views(old(fields)@), key@, factor as int),
    ensures
        entry_views(final(fields)@) == multiplied(
            entry_views(old(fields)@),
            key@,
            factor as int,
        ),
{
    let ghost views = entry_views(fields@);
    match find_key(fields, key) {
        Some(i) => {
            proof {
                lemma_keyed_unique(views, key@, i as int, choose|i: int| keyed(views, key@, i));
            }
            assert(views[i as int].1 == fields@[i as int].1@);
            match fields[i].1.as_u64() {
                Some(n) => {
                    let product: u64 = n * factor as u64;
                    fields.set(i, (key.to_owned(), Json::Number(JsonNumber::Unsigned(product))));
                    assert(entry_views(fields@) =~= multiplied(views, key@, factor as int));
                },
                None => {},
            }
        },
        None => {},
    }
}

/// The fields of an animation with its frame size scaled.
pub open spec fn scaled_frame(fields: Seq<(Seq<char>, JsonView)>, factor: int) -> Seq<
    (Seq<char>, JsonView),
> {
    multiplied(multiplied(fields, "width"@, factor), "height"@, factor)
}

/// An animation with its frame size scaled; what is no object stays as it is.
pub open spec fn scaled_animation(animation: JsonView, factor: int) -> JsonView {
    match animation {
        JsonView::Object(fields) => JsonView::Object(scaled_frame(fields, factor)),
        _ => animation,
    }
}

/// A texture's settings with the frame size of its animation scaled; all else
/// stays as it is.
pub open spec fn scaled_settings(settings: JsonView, factor: int) -> JsonView {
    match settings {
        JsonView::Object(entries) => if exists|i: int| keyed(entries, "animation"@, i) {
            let i = choose|i: int| keyed(entries, "animation"@, i);
            JsonView::Object(
                entries.update(i, ("animation"@, scaled_animation(entries[i].1, factor))),
            )
        } else {
            settings
        },
        _ => settings,
    }
}

/// The scaled frame size of an animation can be held.
pub open spec fn frame_scalable(animation: JsonView, factor: int) -> bool {
    animation matches JsonView::Object(fields) ==> {
        &&& multipliable(fields, "width"@, factor)
        &&& multipliable(fields, "height"@, factor)
    }
}

/// What [`multiplied`] does to the values under keys.
proof fn lemma_multiplied(
    fields: Seq<(Seq<char>, JsonView)>,
    key: Seq<char>,
    factor: int,
    other: Seq<char>,
)
    ensures
        JsonView::Object(multiplied(fields, key, factor)).get(other) == match JsonView::Object(
            fields,
        ).get(other) {
            Some(value) => match value.as_u64() {
                Some(n) => if other == key {
                    Some(JsonView::Number(JsonNumber::Unsigned((n * factor) as u64)))
                } else {
                    Some(value)
                },
                None => Some(value),
            },
            None => None,
        },
{
    if exists|i: int| keyed(fields, key, i) {
        let i = choose|i: int| keyed(fields, key, i);
        if let Some(n) = fields[i].1.as_u64() {
            let product = JsonView::Number(JsonNumber::Unsigned((n * factor) as u64));
            lemma_replaced(fields, key, i, product, other);
        }
    }
}

proof fn lemma_width_leaves_height(fields: Seq<(Seq<char>, JsonView)>, factor: int)
    requires
        multipliable(fields, "height"@, factor),
    ensures
        multipliable(multiplied(fields, "width"@, factor), "height"@, factor),
{
    reveal_strlit("width");
    reveal_strlit("height");
    let after = multiplied(fields, "width"@, factor);
    assert forall|i: int| keyed(after, "height"@, i) implies ((
    #[trigger] after[i]).1.as_u64() matches Some(n) ==> n * factor <= u64::MAX) by {
        assert(fields[i].0 == after[i].0);
        assert forall|k: int| 0 <= k < i implies (#[trigger] fields[k]).0 != "height"@ by {
            assert(after[k].0 == fields[k].0);
        }
        assert(keyed(fields, "height"@, i));
    }
}

fn can_multiply(fields: &Vec<(String, Json)>, key: &str, factor: u32) -> (can: bool)
    ensures
        can == multipliable(entry_views(fields@), key@, factor as int),
{
    let ghost views = entry_views(fields@);
    match find_key(fields, key) {
        Some(i) => {
            assert forall|j: int| keyed(views, key@, j) implies i == j by {
                lemma_keyed_unique(views, key@, i as int, j);
            }
            assert(views[i as int].1 == fields@[i as int].1@);
            match fields[i].1.as_u64() {
                Some(n) => {
                    assert(n * factor <= u64::MAX * u32::MAX) by (nonlinear_arith)
                        requires
                            n <= u64::MAX,
                            factor <= u32::MAX,
                    ;
                    n as u128 * factor as u128 <= u64::MAX as u128
                },
                None => true,
            }
        },
        None => true,
    }
}

/// Whether the scaled frame size of an animation can be held.
pub fn can_scale_frame(animation: &Json, factor: u32) -> (can: bool)
    ensures
        can == frame_scalable(animation@, factor as int),
{
    match animation {
        Json::Object(fields) => {
            assert(animation@->Object_0 =~= entry_views(fields@));
            can_multiply(fields, "width", factor) && can_multiply(fields, "height", factor)
        },
        _ => true,
    }
}

fn scale_frame(animation: &mut Json, factor: u32)
    requires
        frame_scalable(old(animation)@, factor as int),
    ensures
        final(animation)@ == scaled_animation(old(animation)@, factor as int),
{
    let ghost before = animation@;
    match animation {
        Json::Object(fields) => {
            assert(before->Object_0 =~= entry_views(fields@));
            proof {
                lemma_width_leaves_height(entry_views(fields@), factor as int);
            }
            multiply(fields, "width", factor);
            multiply(fields, "height", factor);
        },
        _ => {},
    }
    assert(*animation matches Json::Object(fields) ==> animation@->Object_0 =~= entry_views(
        fields@,
    ));
}

fn scale_entry(entries: &mut Vec<(String, Json)>, factor: u32)
    requires
        JsonView::Object(entry_views(old(entries)@)).get("animation"@) matches Some(animation)
            ==> frame_scalable(animation, factor as int),
    ensures
        JsonView::Object(entry_views(final(entries)@)) == scaled_settings(
            JsonView::Object(entry_views(old(entries)@)),
            factor as int,
        ),
{
    let ghost views = entry_views(entries@);
    match find_key(entries, "animation") {
        Some(i) => {
            proof {
                let found = choose|i: int| keyed(views, "animation"@, i);
                lemma_keyed_unique(views, "animation"@, i as int, found);
            }
            let ghost before = entries@[i as int];
            assert(views[i as int] == (before.0@, before.1@));
            scale_frame(&mut entries[i].1, factor);
            assert(entry_views(entries@) =~= views.update(
                i as int,
                ("animation"@, scaled_animation(views[i as int].1, factor as int)),
            ));
        },
        None => {},
    }
}

/// Scales the frame size in a texture's settings.
pub fn scale_animation_fields(settings: &mut Json, factor: u32)
    requires
        old(settings)@.get("animation"@) matches Some(animation) ==> frame_scalable(
            animation,
            factor as int,
        ),
    ensures
        final(settings)@ == scaled_settings(old(settings)@, factor as int),
{
    let ghost before = settings@;
    match settings {
        Json::Object(entries) => {
            assert(before->Object_0 =~= entry_views(entries@));
            scale_entry(entries, factor);
        },
        _ => {},
    }
    assert(*settings matches Json::Object(entries) ==> settings@->Object_0 =~= entry_views(
        entries@,
    ));
}

/// Scaling an animation multiplies its width and height where they are
/// unsigned numbers, and changes no other field.
pub proof fn scaling_changes_the_frame_size_alone(
    animation: JsonView,
    factor: int,
    key: Seq<char>,
)
    ensures
        scaled_animation(animation, factor).get(key) == match animation.get(key) {
            Some(value) => match value.as_u64() {
                Some(n) => if key == "width"@ || key == "height"@ {
                    Some(JsonView::Number(JsonNumber::Unsigned((n * factor) as u64)))
                } else {
                    Some(value)
                },
                None => Some(value),
            },
            None => None,
        },
{
    reveal_strlit("width");
    reveal_strlit("height");
    assert("width"@.len() != "height"@.len());
    if let JsonView::Object(fields) = animation {
        let half = multiplied(fields, "width"@, factor);
        lemma_multiplied(fields, "width"@, factor, key);
        lemma_multiplied(half, "height"@, factor, key);
    }
}

/// Scaling a texture's settings changes the animation and nothing else.
pub proof fn scaling_changes_the_animation_alone(settings: JsonView, factor: int, key: Seq<char>)
    ensures
        scaled_settings(settings, factor).get(key) == match settings.get(key) {
            Some(value) => if key == "animation"@ {
                Some(scaled_animation(value, factor))
            } else {
                Some(value)
            },
            None => None,
        },
{
    if let JsonView::Object(entries) = settings {
        if exists|i: int| keyed(entries, "animation"@, i) {
            let i = choose|i: int| keyed(entries, "animation"@, i);
            lemma_replaced(
                entries,
                "animation"@,
                i,
                scaled_animation(entries[i].1, factor),
                key,
            );
        }
    }
}

/// A number that an animation gives: whole, and more than nothing.
pub open spec fn gives(animation: JsonView, key: Seq<char>, n: u32) -> bool {
    n > 0 && animation.get(key) == Some(JsonView::Number(JsonNumber::Unsigned(n as u64)))
}

/// The animation gives no whole number that is more than nothing.
pub open spec fn gives_none(animation: JsonView, key: Seq<char>) -> bool {
    forall|n: u64| animation.get(key) == Some(JsonView::Number(JsonNumber::Unsigned(n))) ==> n == 0
}

/// Frames are as large as the animation says; where it says nothing they are as
/// wide as the image, and as high as they are wide. They are never higher than
/// the image.
pub proof fn frames_are_square_unless_said_otherwise(
    width: u32,
    height: u32,
    animation: Json,
    size: (u32, u32),
    given_width: u32,
    given_height: u32,
)
    requires
        call_ensures(animation_frame_size, (width, height, &animation), size),
        height > 0,
    ensures
        gives(animation@, "width"@, given_width) ==> size.0 == given_width,
        gives_none(animation@, "width"@) ==> size.0 == width,
        gives(animation@, "height"@, given_height) ==> size.1 == (if given_height <= height {
            given_height
        } else {
            height
        }),
        gives_none(animation@, "height"@) && 0 < size.0 <= height ==> size.1 == size.0,
        gives_none(animation@, "height"@) && size.0 > height ==> size.1 == height,
        1 <= size.1 <= height,
{
    let view = animation@;
    if gives(view, "width"@, given_width) {
        assert(given_width as u64 as u32 == given_width);
    }
    if gives(view, "height"@, given_height) {
        assert(given_height as u64 as u32 == given_height);
    }
}

/// The settings of a texture describe an animation just where they have one that
/// is not null, and it is that one.
pub proof fn settings_with_an_animation_animate(settings: Json, animation: Option<&Json>)
    requires
        call_ensures(animation_of, (&settings,), animation),
    ensures
        match settings@.get("animation"@) {
            None => animation is None,
            Some(JsonView::Null) => animation is None,
            Some(view) => animation matches Some(animation) && animation@ == view,
        },
{
}

/// Scaling a texture's settings multiplies the width and the height of its animation
/// where they are unsigned numbers, and changes nothing else.
pub proof fn settings_keep_all_but_the_frame_size(
    settings: &mut Json,
    factor: u32,
    done: (),
    key: Seq<char>,
    field: Seq<char>,
)
    requires
        call_ensures(scale_animation_fields, (settings, factor), done),
    ensures
        key != "animation"@ ==> final(settings)@.get(key) == old(settings)@.get(key),
        old(settings)@.get("animation"@) is None ==> final(settings)@.get("animation"@) is None,
        old(settings)@.get("animation"@) matches Some(animation) ==> {
            let after = final(settings)@.get("animation"@);
            &&& after is Some
            &&& field != "width"@ && field != "height"@ ==> after->0.get(field) == animation.get(
                field,
            )
            &&& animation.get(field) is None ==> after->0.get(field) is None
            &&& (field == "width"@ || field == "height"@) ==> (animation.get(field) matches Some(
                JsonView::Number(JsonNumber::Unsigned(n)),
            ) ==> (n * factor <= u64::MAX ==> (after->0.get(field) matches Some(
                JsonView::Number(JsonNumber::Unsigned(m)),
            ) && m == n * factor)))
        },
{
    scaling_changes_the_animation_alone(old(settings)@, factor as int, key);
    scaling_changes_the_animation_alone(old(settings)@, factor as int, "animation"@);
    if let Some(animation) = old(settings)@.get("animation"@) {
        scaling_changes_the_frame_size_alone(animation, factor as int, field);
    }
}

} // verus!
