//! Keys by which textures and models find each other.
use crate::text::{
    any_same, chars_of, drop_prefix, drop_suffix, has_prefix, has_suffix, lemma_segments_some,
    lemma_unsplit, outer_pieces_stand_by_themselves, same_text, segments, split_text,
    splitting_splits_at_every_separator, text_from, text_to, without_prefix, without_suffix,
};
use vstd::prelude::*;

verus! {

pub open spec fn is_upper(c: char) -> bool {
    'A' <= c <= 'Z'
}

pub open spec fn is_alphanumeric(c: char) -> bool {
    'a' <= c <= 'z' || is_upper(c) || '0' <= c <= '9'
}

/// An ASCII capital as its small letter, any other character as it is.
pub open spec fn lowered(c: char) -> char {
    if is_upper(c) {
        ((c as u8) + 32) as char
    } else {
        c
    }
}

fn lower(c: char) -> (small: char)
    ensures
        small == lowered(c),
{
    if 'A' <= c && c <= 'Z' {
        ((c as u8) + 32) as char
    } else {
        c
    }
}

/// A text with its ASCII capitals made small.
pub open spec fn lowercased(text: Seq<char>) -> Seq<char> {
    text.map_values(|c: char| lowered(c))
}

/// A text with its ASCII capitals made small.
pub fn lowercase(text: &str) -> (small: String)
    ensures
        small@ == lowercased(text@),
{
    let chars = chars_of(text);
    let mut small = String::new();
    let mut i: usize = 0;
    while i < chars.len()
        invariant
            i <= chars.len(),
            small@ == lowercased(chars@.take(i as int)),
        decreases chars.len() - i,
    {
        small.push(lower(chars[i]));
        assert(small@ =~= lowercased(chars@.take(i + 1)));
        i = i + 1;
    }
    assert(chars@.take(i as int) =~= text@);
    small
}

/// The ASCII letters and digits of a text, in small letters.
pub open spec fn normalized(text: Seq<char>) -> Seq<char>
    decreases text.len(),
{
    if text.len() == 0 {
        Seq::empty()
    } else {
        let before = normalized(text.drop_last());
        if is_alphanumeric(text.last()) {
            before.push(lowered(text.last()))
        } else {
            before
        }
    }
}

/// The ASCII letters and digits of a text, in small letters.
pub fn normalize_key(text: &str) -> (key: String)
    ensures
        key@ == normalized(text@),
{
    let chars = chars_of(text);
    let mut key = String::new();
    let mut i: usize = 0;
    assert(chars@.take(0) =~= Seq::empty());
    while i < chars.len()
        invariant
            i <= chars.len(),
            key@ == normalized(chars@.take(i as int)),
        decreases chars.len() - i,
    {
        let c: char = chars[i];
        assert(chars@.take(i + 1).drop_last() =~= chars@.take(i as int));
        if ('a' <= c && c <= 'z') || ('A' <= c && c <= 'Z') || ('0' <= c && c <= '9') {
            key.push(lower(c));
        }
        i = i + 1;
    }
    assert(chars@.take(i as int) =~= text@);
    key
}

/// A key is its own normal form.
pub proof fn normalizing_twice_changes_nothing(text: Seq<char>)
    ensures
        normalized(normalized(text)) == normalized(text),
    decreases text.len(),
{
    if text.len() > 0 {
        normalizing_twice_changes_nothing(text.drop_last());
        let before = normalized(text.drop_last());
        if is_alphanumeric(text.last()) {
            let after = before.push(lowered(text.last()));
            assert(after.drop_last() =~= before);
        }
    }
}

/// The key of a model class: the simple name without `Model` at its end.
pub open spec fn class_key(class: Seq<char>) -> Seq<char> {
    let simple = segments(class, '.').last();
    normalized(
        match without_suffix(simple, "Model"@) {
            Some(stem) => stem,
            None => simple,
        },
    )
}

/// The key of a model class, from its full name.
pub fn model_key(class: &str) -> (key: String)
    ensures
        key@ == class_key(class@),
{
    let pieces = split_text(class, '.');
    let last: usize = pieces.len() - 1;
    let simple = &pieces[last];
    match drop_suffix(simple.as_str(), "Model") {
        Some(stem) => normalize_key(stem.as_str()),
        None => normalize_key(simple.as_str()),
    }
}

/// The key of the entity family that a texture belongs to: its first
/// directory below `entity/`.
pub open spec fn family_key(relative: Seq<char>) -> Option<Seq<char>> {
    match without_prefix(relative, "entity/"@) {
        None => None,
        Some(rest) => {
            let key = normalized(segments(rest, '/')[0]);
            if key.len() == 0 {
                None
            } else {
                Some(key)
            }
        },
    }
}

/// The key of the entity family that a texture belongs to.
pub fn entity_family_key(relative: &str) -> (key: Option<String>)
    ensures
        match family_key(relative@) {
            Some(view) => key matches Some(key) && key@ == view,
            None => key is None,
        },
{
    match drop_prefix(relative, "entity/") {
        None => None,
        Some(rest) => {
            let pieces = split_text(rest.as_str(), '/');
            let key = normalize_key(pieces[0].as_str());
            if key.as_str().unicode_len() == 0 {
                None
            } else {
                Some(key)
            }
        },
    }
}

/// `text` begins with `prefix` and goes on after it.
pub open spec fn extends(text: Seq<char>, prefix: Seq<char>) -> bool {
    prefix.len() < text.len() && prefix.is_prefix_of(text)
}

pub fn is_extension(text: &str, prefix: &str) -> (longer: bool)
    ensures
        longer == extends(text@, prefix@),
{
    prefix.unicode_len() < text.unicode_len() && has_prefix(text, prefix)
}

/// The age or climate that a model key begins with.
pub open spec fn key_prefix(key: Seq<char>) -> Seq<char> {
    if extends(key, "adult"@) {
        "adult"@
    } else if extends(key, "baby"@) {
        "baby"@
    } else if extends(key, "cold"@) {
        "cold"@
    } else if extends(key, "warm"@) {
        "warm"@
    } else {
        Seq::empty()
    }
}

/// A model key without the age or climate in front.
pub open spec fn base_of(key: Seq<char>) -> Seq<char> {
    key.skip(key_prefix(key).len() as int)
}

/// A model key without the age or climate in front.
pub fn strip_key_prefix(key: &str) -> (base: String)
    ensures
        base@ == base_of(key@),
{
    let prefix: &str = if is_extension(key, "adult") {
        "adult"
    } else if is_extension(key, "baby") {
        "baby"
    } else if is_extension(key, "cold") {
        "cold"
    } else if is_extension(key, "warm") {
        "warm"
    } else {
        ""
    };
    proof {
        reveal_strlit("");
        assert(prefix@ =~= key_prefix(key@));
    }
    let count: usize = prefix.unicode_len();
    text_from(key, count)
}

/// What the end of a texture's stem says about the variant it shows.
#[derive(Clone, Copy, Debug, PartialEq, Eq, Structural)]
pub enum Token {
    Baby,
    Pup,
    Cold,
    Warm,
    Temperate,
}

impl Token {
    pub open spec fn text(self) -> Seq<char> {
        match self {
            Token::Baby => "baby"@,
            Token::Pup => "pup"@,
            Token::Cold => "cold"@,
            Token::Warm => "warm"@,
            Token::Temperate => "temperate"@,
        }
    }
}

pub proof fn lemma_token_len(token: Token)
    ensures
        token.text().len() > 0,
{
    reveal_strlit("baby");
    reveal_strlit("pup");
    reveal_strlit("cold");
    reveal_strlit("warm");
    reveal_strlit("temperate");
}

/// The stem ends with the token and has something in front of it.
pub open spec fn ends_with_token(stem: Seq<char>, token: Token) -> bool {
    token.text().len() < stem.len() && token.text().is_suffix_of(stem)
}

/// The token that a stem ends with.
pub open spec fn last_token(stem: Seq<char>) -> Option<Token> {
    if ends_with_token(stem, Token::Baby) {
        Some(Token::Baby)
    } else if ends_with_token(stem, Token::Pup) {
        Some(Token::Pup)
    } else if ends_with_token(stem, Token::Cold) {
        Some(Token::Cold)
    } else if ends_with_token(stem, Token::Warm) {
        Some(Token::Warm)
    } else if ends_with_token(stem, Token::Temperate) {
        Some(Token::Temperate)
    } else {
        None
    }
}

/// What is left of a stem without the tokens at its end, and whether there
/// was one for a young, a cold and a warm variant among them.
pub struct Variant {
    pub stripped: Seq<char>,
    pub baby: bool,
    pub cold: bool,
    pub warm: bool,
}

/// A stem taken apart from its end.
pub open spec fn variant_of(stem: Seq<char>) -> Variant
    decreases stem.len(),
{
    match last_token(stem) {
        None => Variant { stripped: stem, baby: false, cold: false, warm: false },
        Some(token) => {
            proof {
                lemma_token_len(token);
            }
            let rest = variant_of(stem.take(stem.len() - token.text().len()));
            Variant {
                stripped: rest.stripped,
                baby: rest.baby || token == Token::Baby || token == Token::Pup,
                cold: rest.cold || token == Token::Cold,
                warm: rest.warm || token == Token::Warm,
            }
        },
    }
}

fn ends_with(stem: &str, token: &str) -> (found: bool)
    ensures
        found == (token@.len() < stem@.len() && token@.is_suffix_of(stem@)),
{
    token.unicode_len() < stem.unicode_len() && has_suffix(stem, token)
}

/// The token that a stem ends with, and the token's text.
fn find_token(stem: &str) -> (found: Option<(Token, &'static str)>)
    ensures
        match found {
            Some((token, text)) => last_token(stem@) == Some(token) && text@ == token.text(),
            None => last_token(stem@) is None,
        },
{
    if ends_with(stem, "baby") {
        Some((Token::Baby, "baby"))
    } else if ends_with(stem, "pup") {
        Some((Token::Pup, "pup"))
    } else if ends_with(stem, "cold") {
        Some((Token::Cold, "cold"))
    } else if ends_with(stem, "warm") {
        Some((Token::Warm, "warm"))
    } else if ends_with(stem, "temperate") {
        Some((Token::Temperate, "temperate"))
    } else {
        None
    }
}

/// Takes the variant tokens off the end of a stem: what is left, and whether
/// a young, a cold and a warm variant is meant.
pub fn strip_variant_tokens(stem: &str) -> (parts: (String, bool, bool, bool))
    ensures
        ({
            let variant = variant_of(stem@);
            &&& parts.0@ == variant.stripped
            &&& parts.1 == variant.baby
            &&& parts.2 == variant.cold
            &&& parts.3 == variant.warm
        }),
{
    let mut text = stem.to_owned();
    let mut baby: bool = false;
    let mut cold: bool = false;
    let mut warm: bool = false;
    loop
        invariant
            variant_of(stem@).stripped == variant_of(text@).stripped,
            variant_of(stem@).baby == (baby || variant_of(text@).baby),
            variant_of(stem@).cold == (cold || variant_of(text@).cold),
            variant_of(stem@).warm == (warm || variant_of(text@).warm),
        decreases text@.len(),
    {
        match find_token(text.as_str()) {
            None => {
                return (text, baby, cold, warm);
            },
            Some((token, token_text)) => {
                proof {
                    lemma_token_len(token);
                }
                match token {
                    Token::Baby => baby = true,
                    Token::Pup => baby = true,
                    Token::Cold => cold = true,
                    Token::Warm => warm = true,
                    Token::Temperate => {},
                }
                let count: usize = text.as_str().unicode_len() - token_text.unicode_len();
                text = text_to(text.as_str(), count);
            },
        }
    }
}

/// What is left of a stem is its beginning, and no token ends it.
pub proof fn stripping_takes_every_token(stem: Seq<char>)
    ensures
        variant_of(stem).stripped.is_prefix_of(stem),
        last_token(variant_of(stem).stripped) is None,
    decreases stem.len(),
{
    if let Some(token) = last_token(stem) {
        lemma_token_len(token);
        let rest = stem.take(stem.len() - token.text().len());
        stripping_takes_every_token(rest);
        let stripped = variant_of(stem).stripped;
        assert(stripped =~= stem.subrange(0, stripped.len() as int));
    }
}

/// What a texture's path says about the model it wants.
#[derive(Debug)]
pub struct TextureCtx {
    pub family: String,
    /// The second directory below `entity/`, empty where there is none.
    pub subdir: String,
    /// The key of the file name.
    pub stem: String,
    /// The stem without the variant tokens at its end.
    pub stripped: String,
    pub wants_baby: bool,
    pub wants_cold: bool,
    pub wants_warm: bool,
    pub is_equipment: bool,
}

/// The contents of a [`TextureCtx`].
pub struct CtxView {
    pub family: Seq<char>,
    pub subdir: Seq<char>,
    pub stem: Seq<char>,
    pub stripped: Seq<char>,
    pub wants_baby: bool,
    pub wants_cold: bool,
    pub wants_warm: bool,
    pub is_equipment: bool,
}

impl View for TextureCtx {
    type V = CtxView;

    open spec fn view(&self) -> CtxView {
        CtxView {
            family: self.family@,
            subdir: self.subdir@,
            stem: self.stem@,
            stripped: self.stripped@,
            wants_baby: self.wants_baby,
            wants_cold: self.wants_cold,
            wants_warm: self.wants_warm,
            is_equipment: self.is_equipment,
        }
    }
}

/// The key of a texture's file name.
pub open spec fn stem_key(file: Seq<char>) -> Seq<char> {
    normalized(
        match without_suffix(file, ".png"@) {
            Some(stem) => stem,
            None => file,
        },
    )
}

/// What the path of an entity texture says. The age may stand in the file
/// name or be a directory of its own.
pub open spec fn ctx_of(relative: Seq<char>) -> Option<CtxView> {
    match family_key(relative) {
        None => None,
        Some(family) => {
            let pieces = segments(relative.skip("entity/"@.len() as int), '/');
            let stem = stem_key(pieces.last());
            let variant = variant_of(stem);
            if stem.len() == 0 {
                None
            } else {
                Some(
                    CtxView {
                        family,
                        subdir: if pieces.len() >= 3 {
                            normalized(pieces[1])
                        } else {
                            Seq::empty()
                        },
                        stem,
                        stripped: variant.stripped,
                        wants_baby: variant.baby || exists|i: int|
                            0 <= i < pieces.len() && #[trigger] pieces[i] == "baby"@,
                        wants_cold: variant.cold,
                        wants_warm: variant.warm,
                        is_equipment: family == "equipment"@,
                    },
                )
            }
        },
    }
}

/// What the path of an entity texture says, if it is one.
pub fn texture_ctx(relative: &str) -> (ctx: Option<TextureCtx>)
    ensures
        match ctx_of(relative@) {
            Some(view) => ctx matches Some(ctx) && ctx@ == view,
            None => ctx is None,
        },
{
    let family = match entity_family_key(relative) {
        Some(family) => family,
        None => return None,
    };
    let rest = match drop_prefix(relative, "entity/") {
        Some(rest) => rest,
        None => return None,
    };
    let pieces = split_text(rest.as_str(), '/');
    let ghost views = segments(rest@, '/');
    let subdir = if pieces.len() >= 3 {
        normalize_key(pieces[1].as_str())
    } else {
        String::new()
    };
    let last: usize = pieces.len() - 1;
    let file = &pieces[last];
    let stem = match drop_suffix(file.as_str(), ".png") {
        Some(stem) => normalize_key(stem.as_str()),
        None => normalize_key(file.as_str()),
    };
    if stem.as_str().unicode_len() == 0 {
        return None;
    }
    let is_equipment = same_text(family.as_str(), "equipment");
    let path_baby = any_same(&pieces, "baby");
    proof {
        if path_baby {
            let i = choose|i: int| 0 <= i < pieces@.len() && (#[trigger] pieces@[i])@ == "baby"@;
            assert(views[i] == "baby"@);
        } else {
            assert forall|i: int| 0 <= i < views.len() implies #[trigger] views[i] != "baby"@ by {
                assert(pieces@[i]@ == views[i]);
            }
        }
    }
    let (stripped, stem_baby, wants_cold, wants_warm) = strip_variant_tokens(stem.as_str());
    Some(
        TextureCtx {
            family,
            subdir,
            stem,
            stripped,
            wants_baby: stem_baby || path_baby,
            wants_cold,
            wants_warm,
            is_equipment,
        },
    )
}

/// A key is made character by character.
pub proof fn keys_are_made_character_by_character(a: Seq<char>, b: Seq<char>)
    ensures
        normalized(a + b) == normalized(a) + normalized(b),
    decreases b.len(),
{
    if b.len() == 0 {
        assert(a + b =~= a);
        assert(normalized(a) + normalized(b) =~= normalized(a));
    } else {
        keys_are_made_character_by_character(a, b.drop_last());
        assert((a + b).drop_last() =~= a + b.drop_last());
        assert((a + b).last() == b.last());
        if is_alphanumeric(b.last()) {
            let c = lowered(b.last());
            assert(normalized(a) + normalized(b.drop_last()).push(c) =~= (normalized(a)
                + normalized(b.drop_last())).push(c));
        }
    }
}

/// A small letter or digit stays in a key, a capital becomes its small letter, and
/// any other character is left out.
pub proof fn letters_and_digits_make_keys(c: char)
    ensures
        'a' <= c <= 'z' || '0' <= c <= '9' ==> normalized(seq![c]) == seq![c],
        'A' <= c <= 'Z' ==> normalized(seq![c]).len() == 1 && normalized(seq![c])[0] as int
            - 'a' as int == c as int - 'A' as int,
        !('a' <= c <= 'z' || '0' <= c <= '9' || 'A' <= c <= 'Z') ==> normalized(seq![c]).len() == 0,
{
    reveal_with_fuel(normalized, 2);
    assert(seq![c].drop_last() =~= Seq::empty());
    assert(seq![c].last() == c);
    if 'a' <= c <= 'z' || '0' <= c <= '9' {
        assert(normalized(seq![c]) =~= seq![c]);
    }
}

/// Making a text small changes its capitals into their small letters and nothing
/// else.
pub proof fn capitals_become_small(text: &str, small: String, i: int)
    requires
        call_ensures(lowercase, (text,), small),
        0 <= i < text@.len(),
    ensures
        small@.len() == text@.len(),
        'A' <= text@[i] <= 'Z' ==> small@[i] as int - 'a' as int == text@[i] as int - 'A' as int,
        !('A' <= text@[i] <= 'Z') ==> small@[i] == text@[i],
{
}

/// A model class has the key of its own name, without its packages and without
/// `Model` at its end.
pub proof fn classes_have_the_key_of_their_name(
    class: &str,
    key: String,
    packages: Seq<char>,
    name: Seq<char>,
)
    requires
        call_ensures(model_key, (class,), key),
        !name.contains('.'),
    ensures
        class@ == packages.push('.') + (name + "Model"@) || class@ == name + "Model"@ ==> key@
            == normalized(name),
        (class@ == packages.push('.') + name || class@ == name) && !"Model"@.is_suffix_of(name)
            ==> key@ == normalized(name),
{
    reveal_strlit("Model");
    let full = name + "Model"@;
    assert(!full.contains('.')) by {
        if full.contains('.') {
            let k = choose|k: int| 0 <= k < full.len() && full[k] == '.';
            if k < name.len() {
                assert(name[k] == '.');
            } else {
                assert("Model"@[k - name.len()] == '.');
            }
        }
    }
    outer_pieces_stand_by_themselves(full, packages, '.');
    outer_pieces_stand_by_themselves(name, packages, '.');
    lemma_unsplit(full, '.');
    lemma_unsplit(name, '.');
    assert(full.subrange(name.len() as int, full.len() as int) =~= "Model"@);
    assert(full.take(full.len() - "Model"@.len()) =~= name);
}

/// The age or climate in front of a model's key is taken away, and nothing else.
pub proof fn ages_and_climates_are_taken_from_the_front(key: &str, base: String, rest: Seq<char>)
    requires
        call_ensures(strip_key_prefix, (key,), base),
    ensures
        rest.len() > 0 && (key@ == "adult"@ + rest || key@ == "baby"@ + rest || key@ == "cold"@
            + rest || key@ == "warm"@ + rest) ==> base@ == rest,
        !extends(key@, "adult"@) && !extends(key@, "baby"@) && !extends(key@, "cold"@) && !extends(
            key@,
            "warm"@,
        ) ==> base@ == key@,
        base@.is_suffix_of(key@),
{
    reveal_strlit("adult");
    reveal_strlit("baby");
    reveal_strlit("cold");
    reveal_strlit("warm");
    assert("adult"@[0] == 'a');
    assert("baby"@[0] == 'b');
    assert("cold"@[0] == 'c');
    assert("warm"@[0] == 'w');
    lemma_extends_first(key@, "adult"@);
    lemma_extends_first(key@, "baby"@);
    lemma_extends_first(key@, "cold"@);
    lemma_extends_first(key@, "warm"@);
    lemma_put_in_front("adult"@, rest);
    lemma_put_in_front("baby"@, rest);
    lemma_put_in_front("cold"@, rest);
    lemma_put_in_front("warm"@, rest);
    if rest.len() > 0 && (key@ == "adult"@ + rest || key@ == "baby"@ + rest || key@ == "cold"@
        + rest || key@ == "warm"@ + rest) {
        assert(base@ =~= rest);
    }
    assert(key@.skip(0) =~= key@);
    let count = key_prefix(key@).len() as int;
    assert(count <= key@.len());
    assert(key@.subrange(key@.len() - base@.len(), key@.len() as int) =~= base@);
}

proof fn lemma_extends_first(text: Seq<char>, prefix: Seq<char>)
    requires
        prefix.len() > 0,
    ensures
        extends(text, prefix) ==> text[0] == prefix[0],
{
    if extends(text, prefix) {
        assert(text.subrange(0, prefix.len() as int)[0] == text[0]);
    }
}

proof fn lemma_put_in_front(prefix: Seq<char>, rest: Seq<char>)
    ensures
        rest.len() > 0 ==> extends(prefix + rest, prefix),
        (prefix + rest).skip(prefix.len() as int) == rest,
        prefix.len() > 0 ==> (prefix + rest)[0] == prefix[0],
{
    assert((prefix + rest).subrange(0, prefix.len() as int) =~= prefix);
    assert((prefix + rest).skip(prefix.len() as int) =~= rest);
}

/// A variant at the end of a texture's stem is read off: what is left is what is
/// left of the stem before it, and a young, cold or warm texture is meant in
/// addition to what that stem means.
pub proof fn variants_are_read_off_the_end(
    stem: &str,
    rest: &str,
    token: Token,
    parts: (String, bool, bool, bool),
    before: (String, bool, bool, bool),
)
    requires
        call_ensures(strip_variant_tokens, (stem,), parts),
        call_ensures(strip_variant_tokens, (rest,), before),
        rest@.len() > 0,
        stem@ == rest@ + token.text(),
    ensures
        parts.0@ == before.0@,
        parts.1 <==> before.1 || token == Token::Baby || token == Token::Pup,
        parts.2 <==> before.2 || token == Token::Cold,
        parts.3 <==> before.3 || token == Token::Warm,
{
    lemma_token_len(token);
    lemma_token_ends(stem@, Token::Baby);
    lemma_token_ends(stem@, Token::Pup);
    lemma_token_ends(stem@, Token::Cold);
    lemma_token_ends(stem@, Token::Warm);
    lemma_token_ends(stem@, Token::Temperate);
    let text = token.text();
    assert(stem@.last() == text.last());
    assert(stem@.subrange(stem@.len() - text.len(), stem@.len() as int) =~= text);
    assert(last_token(stem@) == Some(token));
    assert(stem@.take(stem@.len() - text.len()) =~= rest@);
}

/// The last letter of each token.
pub open spec fn token_end(token: Token) -> char {
    match token {
        Token::Baby => 'y',
        Token::Pup => 'p',
        Token::Cold => 'd',
        Token::Warm => 'm',
        Token::Temperate => 'e',
    }
}

proof fn lemma_token_ends(stem: Seq<char>, token: Token)
    ensures
        token.text().last() == token_end(token),
        ends_with_token(stem, token) ==> stem.last() == token_end(token),
{
    reveal_strlit("baby");
    reveal_strlit("pup");
    reveal_strlit("cold");
    reveal_strlit("warm");
    reveal_strlit("temperate");
    lemma_token_len(token);
    let text = token.text();
    if ends_with_token(stem, token) {
        assert(stem.subrange(stem.len() - text.len(), stem.len() as int)[text.len() - 1]
            == stem[stem.len() - 1]);
    }
}

/// A stem that ends with no variant is left as it is, and means none.
pub proof fn stems_without_a_variant_mean_none(stem: &str, parts: (String, bool, bool, bool))
    requires
        call_ensures(strip_variant_tokens, (stem,), parts),
        forall|token: Token| !#[trigger] ends_with_token(stem@, token),
    ensures
        parts.0@ == stem@,
        !parts.1 && !parts.2 && !parts.3,
{
    assert(!ends_with_token(stem@, Token::Baby));
    assert(!ends_with_token(stem@, Token::Pup));
    assert(!ends_with_token(stem@, Token::Cold));
    assert(!ends_with_token(stem@, Token::Warm));
    assert(!ends_with_token(stem@, Token::Temperate));
}

/// The words of the variants.
pub proof fn tokens_are_words()
    ensures
        Token::Baby.text() == "baby"@,
        Token::Pup.text() == "pup"@,
        Token::Cold.text() == "cold"@,
        Token::Warm.text() == "warm"@,
        Token::Temperate.text() == "temperate"@,
{
}

/// The family of an entity texture is its first directory; a texture elsewhere
/// has none.
pub proof fn the_first_directory_is_the_family(
    relative: &str,
    family: Option<String>,
    directory: Seq<char>,
    rest: Seq<char>,
)
    requires
        call_ensures(entity_family_key, (relative,), family),
    ensures
        !"entity/"@.is_prefix_of(relative@) ==> family is None,
        relative@ == "entity/"@ + (directory.push('/') + rest) && !directory.contains('/')
            && normalized(directory).len() > 0 ==> (family matches Some(family) && family@
            == normalized(directory)),
{
    lemma_put_in_front("entity/"@, directory.push('/') + rest);
    let whole = "entity/"@ + (directory.push('/') + rest);
    assert(whole.subrange(0, "entity/"@.len() as int) =~= "entity/"@);
    if !directory.contains('/') {
        outer_pieces_stand_by_themselves(directory, rest, '/');
    }
}

/// What the path of an entity texture says: the family by its directory, the kind
/// of equipment by the directory below, the name by its file, and the variant by
/// the end of the name; a directory `baby` makes it a young one.
pub proof fn paths_tell_family_kind_and_name(
    relative: &str,
    ctx: Option<TextureCtx>,
    directory: Seq<char>,
    below: Seq<char>,
    file: Seq<char>,
    stem: &str,
    parts: (String, bool, bool, bool),
)
    requires
        call_ensures(texture_ctx, (relative,), ctx),
        call_ensures(strip_variant_tokens, (stem,), parts),
        !directory.contains('/'),
        !below.contains('/'),
        !file.contains('/'),
        normalized(directory).len() > 0,
        stem@ == normalized(file),
        stem@.len() > 0,
    ensures
        relative@ == "entity/"@ + (directory.push('/') + (file + ".png"@)) ==> {
            &&& ctx is Some
            &&& ctx->0.family@ == normalized(directory)
            &&& ctx->0.subdir@.len() == 0
            &&& ctx->0.stem@ == stem@
            &&& ctx->0.stripped@ == parts.0@
            &&& ctx->0.wants_baby == (parts.1 || directory == "baby"@)
            &&& ctx->0.wants_cold == parts.2
            &&& ctx->0.wants_warm == parts.3
            &&& ctx->0.is_equipment == (normalized(directory) == "equipment"@)
        },
        relative@ == "entity/"@ + (directory.push('/') + (below.push('/') + (file + ".png"@)))
            ==> {
            &&& ctx is Some
            &&& ctx->0.family@ == normalized(directory)
            &&& ctx->0.subdir@ == normalized(below)
            &&& ctx->0.stem@ == stem@
            &&& ctx->0.stripped@ == parts.0@
            &&& ctx->0.wants_baby == (parts.1 || directory == "baby"@ || below == "baby"@)
            &&& ctx->0.wants_cold == parts.2
            &&& ctx->0.wants_warm == parts.3
            &&& ctx->0.is_equipment == (normalized(directory) == "equipment"@)
        },
{
    reveal_strlit("entity/");
    reveal_strlit(".png");
    reveal_strlit("baby");
    let name = file + ".png"@;
    assert(!name.contains('/')) by {
        if name.contains('/') {
            let k = choose|k: int| 0 <= k < name.len() && name[k] == '/';
            if k < file.len() {
                assert(file[k] == '/');
            } else {
                assert(".png"@[k - file.len()] == '/');
            }
        }
    }
    assert(name.last() == 'g');
    assert("baby"@.last() == 'y');
    assert(name.subrange(file.len() as int, name.len() as int) =~= ".png"@);
    assert(name.take(name.len() - 4) =~= file);
    let flat = directory.push('/') + name;
    let deep = directory.push('/') + (below.push('/') + name);
    lemma_put_in_front("entity/"@, flat);
    lemma_put_in_front("entity/"@, deep);
    assert(("entity/"@ + flat).subrange(0, 7) =~= "entity/"@);
    assert(("entity/"@ + deep).subrange(0, 7) =~= "entity/"@);
    lemma_unsplit(directory, '/');
    lemma_unsplit(below, '/');
    lemma_unsplit(name, '/');
    splitting_splits_at_every_separator(directory, name, '/');
    splitting_splits_at_every_separator(below, name, '/');
    splitting_splits_at_every_separator(directory, below.push('/') + name, '/');
    let two = segments(flat, '/');
    let three = segments(deep, '/');
    assert(two =~= seq![directory, name]);
    assert(three =~= seq![directory, below, name]);
    assert(two[0] == directory && two[1] == name && two.last() == name);
    assert(three[0] == directory && three[1] == below && three[2] == name && three.last() == name);
    if relative@ == "entity/"@ + flat {
        assert(ctx_of(relative@) is Some);
        if directory == "baby"@ {
            assert(two[0] == "baby"@);
        }
    }
    if relative@ == "entity/"@ + deep {
        assert(ctx_of(relative@) is Some);
        if directory == "baby"@ {
            assert(three[0] == "baby"@);
        }
        if below == "baby"@ {
            assert(three[1] == "baby"@);
        }
    }
}

/// A text extends another just where something is put behind it.
pub proof fn extensions_go_on_behind_the_text(text: &str, prefix: &str, longer: bool, rest: Seq<char>)
    requires
        call_ensures(is_extension, (text, prefix), longer),
    ensures
        text@ == prefix@ + rest ==> (longer <==> rest.len() > 0),
        longer ==> text@ == prefix@ + text@.skip(prefix@.len() as int),
{
    lemma_put_in_front(prefix@, rest);
    if longer {
        assert(text@ =~= prefix@ + text@.skip(prefix@.len() as int)) by {
            assert(prefix@ == text@.subrange(0, prefix@.len() as int));
        }
    }
}

/// Something is left of every name: neither the key of a model nor the stem of a
/// texture is taken away whole.
pub proof fn names_are_never_taken_away_whole(
    name: &str,
    base: String,
    parts: (String, bool, bool, bool),
)
    requires
        call_ensures(strip_key_prefix, (name,), base),
        call_ensures(strip_variant_tokens, (name,), parts),
        name@.len() > 0,
    ensures
        base@.len() > 0,
        parts.0@.len() > 0,
{
    lemma_something_is_left(name@);
}

proof fn lemma_something_is_left(stem: Seq<char>)
    requires
        stem.len() > 0,
    ensures
        variant_of(stem).stripped.len() > 0,
    decreases stem.len(),
{
    if let Some(token) = last_token(stem) {
        lemma_token_len(token);
        lemma_something_is_left(stem.take(stem.len() - token.text().len()));
    }
}

/// However deep an entity texture lies, the first directory is its family, the
/// second its kind of equipment, and a directory `baby` anywhere makes it young.
pub proof fn deep_paths_tell_the_same(
    relative: &str,
    ctx: Option<TextureCtx>,
    directory: Seq<char>,
    below: Seq<char>,
    deeper: Seq<char>,
    file: Seq<char>,
    stem: &str,
    parts: (String, bool, bool, bool),
)
    requires
        call_ensures(texture_ctx, (relative,), ctx),
        call_ensures(strip_variant_tokens, (stem,), parts),
        !directory.contains('/'),
        !below.contains('/'),
        !file.contains('/'),
        normalized(directory).len() > 0,
        stem@ == normalized(file),
        stem@.len() > 0,
        relative@ == "entity/"@ + (directory.push('/') + (below.push('/') + (deeper.push('/')
            + (file + ".png"@)))),
    ensures
        ctx is Some,
        ctx->0.family@ == normalized(directory),
        ctx->0.subdir@ == normalized(below),
        ctx->0.stem@ == stem@,
        ctx->0.stripped@ == parts.0@,
        ctx->0.wants_baby == (parts.1 || directory == "baby"@ || below == "baby"@ || segments(
            deeper,
            '/',
        ).contains("baby"@)),
        ctx->0.wants_cold == parts.2,
        ctx->0.wants_warm == parts.3,
        ctx->0.is_equipment == (normalized(directory) == "equipment"@),
{
    reveal_strlit("entity/");
    reveal_strlit(".png");
    reveal_strlit("baby");
    let name = file + ".png"@;
    lemma_png_is_no_directory(file);
    let last = deeper.push('/') + name;
    let middle = below.push('/') + last;
    let whole = directory.push('/') + middle;
    lemma_put_in_front("entity/"@, whole);
    assert(("entity/"@ + whole).subrange(0, 7) =~= "entity/"@);
    lemma_unsplit(directory, '/');
    lemma_unsplit(below, '/');
    lemma_unsplit(name, '/');
    splitting_splits_at_every_separator(deeper, name, '/');
    splitting_splits_at_every_separator(below, last, '/');
    splitting_splits_at_every_separator(directory, middle, '/');
    let inner = segments(deeper, '/');
    let pieces = segments(whole, '/');
    assert(pieces =~= (seq![directory, below] + inner).push(name));
    assert(pieces[0] == directory && pieces[1] == below && pieces.last() == name);
    lemma_segments_some(deeper, '/');
    assert(pieces.len() == inner.len() + 3);
    if inner.contains("baby"@) {
        let k = choose|k: int| 0 <= k < inner.len() && inner[k] == "baby"@;
        assert(pieces[k + 2] == "baby"@);
    }
    if exists|i: int| 0 <= i < pieces.len() && #[trigger] pieces[i] == "baby"@ {
        let i = choose|i: int| 0 <= i < pieces.len() && #[trigger] pieces[i] == "baby"@;
        assert(name.last() == 'g' && "baby"@.last() == 'y');
        if 2 <= i < inner.len() + 2 {
            assert(inner[i - 2] == "baby"@);
        }
    }
    assert(ctx_of(relative@) is Some);
}

proof fn lemma_png_is_no_directory(file: Seq<char>)
    requires
        !file.contains('/'),
    ensures
        !(file + ".png"@).contains('/'),
        without_suffix(file + ".png"@, ".png"@) == Some(file),
{
    reveal_strlit(".png");
    let name = file + ".png"@;
    if name.contains('/') {
        let k = choose|k: int| 0 <= k < name.len() && name[k] == '/';
        if k < file.len() {
            assert(file[k] == '/');
        } else {
            assert(".png"@[k - file.len()] == '/');
        }
    }
    assert(name.subrange(file.len() as int, name.len() as int) =~= ".png"@);
    assert(name.take(name.len() - 4) =~= file);
}

/// A file that lies in no directory of its own is its own family. A file that is no
/// `.png` has its whole name for a stem. Where there is no letter or digit in the
/// directory or in the name, the path says nothing.
pub proof fn names_without_letters_say_nothing(
    relative: &str,
    family: Option<String>,
    ctx: Option<TextureCtx>,
    directory: Seq<char>,
    file: Seq<char>,
)
    requires
        call_ensures(entity_family_key, (relative,), family),
        call_ensures(texture_ctx, (relative,), ctx),
        !directory.contains('/'),
        !file.contains('/'),
        relative@ == "entity/"@ + file || relative@ == "entity/"@ + (directory.push('/') + file),
    ensures
        ({
            let first = if relative@ == "entity/"@ + file {
                normalized(file)
            } else {
                normalized(directory)
            };
            let stem = if ".png"@.is_suffix_of(file) {
                normalized(file.take(file.len() - 4))
            } else {
                normalized(file)
            };
            &&& first.len() == 0 ==> family is None
            &&& first.len() > 0 ==> (family matches Some(family) && family@ == first)
            &&& first.len() == 0 || stem.len() == 0 ==> ctx is None
            &&& first.len() > 0 && stem.len() > 0 ==> (ctx matches Some(ctx) && ctx.family@
                == first && ctx.stem@ == stem && ctx.subdir@.len() == 0)
        }),
{
    reveal_strlit("entity/");
    reveal_strlit(".png");
    let flat = directory.push('/') + file;
    lemma_put_in_front("entity/"@, file);
    lemma_put_in_front("entity/"@, flat);
    assert(("entity/"@ + file).subrange(0, 7) =~= "entity/"@);
    assert(("entity/"@ + flat).subrange(0, 7) =~= "entity/"@);
    lemma_unsplit(file, '/');
    lemma_unsplit(directory, '/');
    splitting_splits_at_every_separator(directory, file, '/');
    assert(segments(flat, '/') =~= seq![directory, file]);
    assert(segments(flat, '/')[0] == directory && segments(flat, '/').last() == file);
    assert(segments(file, '/')[0] == file && segments(file, '/').last() == file);
}

} // verus!
