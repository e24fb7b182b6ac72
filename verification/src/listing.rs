//! What to take from a jar, given the names of its entries.
use crate::order::{in_order, insert_sorted, precedes, ranks, Ranked};
use crate::paths::{BLOCK_MODEL_ROOT, TEXTURE_ROOT};
use crate::text::{
    drop_suffix, has_prefix, has_suffix, lemma_unsplit, outer_pieces_stand_by_themselves, segments,
    split_text,
};
use vstd::prelude::*;

verus! {

/// A texture of a jar: the numbers of its entry and of the entry with its
/// settings.
#[derive(Debug)]
pub struct TextureEntry {
    pub index: usize,
    pub name: String,
    pub settings: Option<usize>,
}

/// Entry `i` of a jar is a texture.
pub open spec fn is_texture(names: Seq<String>, i: int) -> bool {
    TEXTURE_ROOT@.is_prefix_of(names[i]@) && ".png"@.is_suffix_of(names[i]@)
}

/// No entry of a jar is a texture.
pub open spec fn has_no_textures(names: Seq<String>) -> bool {
    forall|i: int| 0 <= i < names.len() ==> !#[trigger] is_texture(names, i)
}

/// Entry `i` is the last one of this name.
pub open spec fn is_last_named(names: Seq<String>, name: Seq<char>, i: int) -> bool {
    &&& 0 <= i < names.len()
    &&& names[i]@ == name
    &&& forall|k: int| i < k < names.len() ==> (#[trigger] names[k])@ != name
}

/// The number of the last entry of a name, if there is any.
pub open spec fn is_lookup(names: Seq<String>, name: Seq<char>, found: Option<usize>) -> bool {
    match found {
        Some(i) => is_last_named(names, name, i as int),
        None => forall|i: int| 0 <= i < names.len() ==> (#[trigger] names[i])@ != name,
    }
}

/// The last entry of a name, which is the one that counts.
pub fn last_named(names: &Vec<String>, name: &String) -> (found: Option<usize>)
    ensures
        is_lookup(names@, name@, found),
{
    let mut i: usize = names.len();
    while i > 0
        invariant
            i <= names.len(),
            forall|k: int| i <= k < names@.len() ==> (#[trigger] names@[k])@ != name@,
        decreases i,
    {
        i = i - 1;
        if names[i] == *name {
            return Some(i);
        }
    }
    None
}

/// `a` comes before `b` in the order in which textures are worked on: by name,
/// entries of one name in the jar's order.
pub open spec fn listed_before(names: Seq<String>, a: int, b: int) -> bool {
    <(String, usize) as Ranked>::below((names[a]@, a), (names[b]@, b))
}

/// A texture of the jar, with the settings that stand beside it.
pub open spec fn is_entry(names: Seq<String>, entry: TextureEntry) -> bool {
    &&& entry.index < names.len()
    &&& is_texture(names, entry.index as int)
    &&& entry.name@ == names[entry.index as int]@
    &&& is_lookup(names, entry.name@ + ".mcmeta"@, entry.settings)
}

/// The textures of a jar, each once, in order.
pub open spec fn is_listing(names: Seq<String>, entries: Seq<TextureEntry>) -> bool {
    &&& forall|k: int| 0 <= k < entries.len() ==> is_entry(names, #[trigger] entries[k])
    &&& forall|i: int|
        0 <= i < names.len() && #[trigger] is_texture(names, i) ==> exists|k: int|
            0 <= k < entries.len() && (#[trigger] entries[k]).index == i
    &&& forall|k: int, l: int|
        0 <= k < l < entries.len() ==> listed_before(
            names,
            (#[trigger] entries[k]).index as int,
            (#[trigger] entries[l]).index as int,
        )
}

/// The wanted ones of a jar's entries by name and number, in order.
fn sorted_entries(names: &Vec<String>, wanted: &Vec<bool>) -> (found: Vec<(String, usize)>)
    requires
        wanted@.len() == names@.len(),
    ensures
        forall|k: int|
            0 <= k < found@.len() ==> (#[trigger] found@[k]).1 < names@.len() && wanted@[found@[k].1 as int] && found@[k].0@ == names@[found@[k].1 as int]@,
        forall|i: int|
            0 <= i < names@.len() && #[trigger] wanted@[i] ==> exists|k: int|
                0 <= k < found@.len() && (#[trigger] found@[k]).1 == i,
        forall|k: int, l: int|
            0 <= k < l < found@.len() ==> listed_before(
                names@,
                (#[trigger] found@[k]).1 as int,
                (#[trigger] found@[l]).1 as int,
            ),
{
    let mut found: Vec<(String, usize)> = Vec::new();
    let mut i: usize = 0;
    while i < names.len()
        invariant
            i <= names.len(),
            wanted@.len() == names@.len(),
            in_order::<(String, usize)>(ranks(found@)),
            forall|k: int|
                0 <= k < found@.len() ==> (#[trigger] found@[k]).1 < i && wanted@[found@[k].1 as int] && found@[k].0@ == names@[found@[k].1 as int]@,
            forall|j: int|
                0 <= j < i && #[trigger] wanted@[j] ==> exists|k: int|
                    0 <= k < found@.len() && (#[trigger] found@[k]).1 == j,
            forall|k: int, l: int|
                0 <= k < l < found@.len() ==> (#[trigger] found@[k]).1 != (#[trigger] found@[l]).1,
        decreases names.len() - i,
    {
        if wanted[i] {
            let ghost before = found@;
            let ghost item = (names@[i as int], i);
            let place: usize = insert_sorted(&mut found, (names[i].clone(), i));
            proof {
                before.insert_ensures(place as int, item);
                assert(found@ == before.insert(place as int, item));
                assert forall|j: int| 0 <= j < i + 1 && #[trigger] wanted@[j] implies exists|k: int| 0 <= k < found@.len() && (#[trigger] found@[k]).1 == j by {
                    if j == i {
                        assert(found@[place as int].1 == j);
                    } else {
                        let k = choose|k: int| 0 <= k < before.len() && (#[trigger] before[k]).1
                            == j;
                        if k < place {
                            assert(found@[k].1 == j);
                        } else {
                            assert(found@[k + 1].1 == j);
                        }
                    }
                }
                assert forall|k: int| 0 <= k < found@.len() implies (#[trigger] found@[k]).1 < i + 1
                    && wanted@[found@[k].1 as int] && found@[k].0@
                    == names@[found@[k].1 as int]@ by {
                    if k < place {
                        assert(found@[k] == before[k]);
                    } else if k > place {
                        assert(found@[k] == before[k - 1]);
                    }
                }
                assert forall|k: int, l: int| 0 <= k < l < found@.len() implies (
                #[trigger] found@[k]).1 != (#[trigger] found@[l]).1 by {
                    let a = if k < place {
                        k
                    } else {
                        k - 1
                    };
                    let b = if l < place {
                        l
                    } else {
                        l - 1
                    };
                    if k != place {
                        assert(found@[k] == before[a]);
                    }
                    if l != place {
                        assert(found@[l] == before[b]);
                    }
                }
            }
        }
        i = i + 1;
    }
    proof {
        assert forall|k: int, l: int| 0 <= k < l < found@.len() implies listed_before(
            names@,
            (#[trigger] found@[k]).1 as int,
            (#[trigger] found@[l]).1 as int,
        ) by {
            let all = ranks(found@);
            assert(all[k] == found@[k].rank());
            assert(all[l] == found@[l].rank());
            <(String, usize) as Ranked>::lemma_total(all[k], all[l]);
        }
    }
    found
}

/// Which entries of a jar are textures.
fn mark_textures(names: &Vec<String>) -> (wanted: Vec<bool>)
    ensures
        wanted@.len() == names@.len(),
        forall|i: int| 0 <= i < names@.len() ==> #[trigger] wanted@[i] == is_texture(names@, i),
{
    let mut wanted: Vec<bool> = Vec::new();
    let mut i: usize = 0;
    while i < names.len()
        invariant
            i <= names.len(),
            wanted@.len() == i,
            forall|k: int| 0 <= k < i ==> #[trigger] wanted@[k] == is_texture(names@, k),
        decreases names.len() - i,
    {
        let name = names[i].as_str();
        wanted.push(has_prefix(name, TEXTURE_ROOT) && has_suffix(name, ".png"));
        i = i + 1;
    }
    wanted
}

/// Lists the textures of a jar with their settings, or says that it has none.
pub fn list_textures(names: &Vec<String>, jar: &str) -> (entries: Result<Vec<TextureEntry>, String>)
    ensures
        match entries {
            Ok(entries) => is_listing(names@, entries@) && entries@.len() > 0,
            Err(e) => has_no_textures(names@) && e@
                == "no PNG textures found under assets/minecraft/textures/ in "@ + jar@,
        },
{
    let wanted = mark_textures(names);
    let found = sorted_entries(names, &wanted);
    if found.len() == 0 {
        assert forall|i: int| 0 <= i < names@.len() implies !#[trigger] is_texture(names@, i) by {
            assert(wanted@[i] == is_texture(names@, i));
        }
        let mut message = "no PNG textures found under assets/minecraft/textures/ in ".to_owned();
        message.append(jar);
        return Err(message);
    }
    let mut entries: Vec<TextureEntry> = Vec::new();
    let mut k: usize = 0;
    while k < found.len()
        invariant
            k <= found.len(),
            wanted@.len() == names@.len(),
            forall|i: int| 0 <= i < names@.len() ==> #[trigger] wanted@[i] == is_texture(names@, i),
            forall|k: int|
                0 <= k < found@.len() ==> (#[trigger] found@[k]).1 < names@.len()
                    && wanted@[found@[k].1 as int] && found@[k].0@ == names@[found@[k].1 as int]@,
            entries@.len() == k,
            forall|l: int|
                0 <= l < k ==> (#[trigger] entries@[l]).index == found@[l].1 && is_entry(
                    names@,
                    entries@[l],
                ),
        decreases found.len() - k,
    {
        let mut beside = found[k].0.clone();
        beside.append(".mcmeta");
        let settings: Option<usize> = last_named(names, &beside);
        entries.push(TextureEntry { index: found[k].1, name: found[k].0.clone(), settings });
        k = k + 1;
    }
    proof {
        assert forall|i: int| 0 <= i < names@.len() && #[trigger] is_texture(
            names@,
            i,
        ) implies exists|k: int| 0 <= k < entries@.len() && (#[trigger] entries@[k]).index == i by {
            assert(wanted@[i]);
            let k = choose|k: int| 0 <= k < found@.len() && (#[trigger] found@[k]).1 == i;
            assert(entries@[k].index == i);
        }
        assert forall|k: int, l: int| 0 <= k < l < entries@.len() implies listed_before(
            names@,
            (#[trigger] entries@[k]).index as int,
            (#[trigger] entries@[l]).index as int,
        ) by {
            assert(found@[k].1 == entries@[k].index);
            assert(found@[l].1 == entries@[l].index);
        }
    }
    Ok(entries)
}

/// `text` without the copies of `suffix` at its end.
pub open spec fn trimmed(text: Seq<char>, suffix: Seq<char>) -> Seq<char>
    decreases text.len(),
{
    if 0 < suffix.len() && suffix.is_suffix_of(text) {
        trimmed(text.take(text.len() - suffix.len()), suffix)
    } else {
        text
    }
}

fn trim_suffix(text: &str, suffix: &str) -> (rest: String)
    requires
        suffix@.len() > 0,
    ensures
        rest@ == trimmed(text@, suffix@),
{
    let mut rest = text.to_owned();
    loop
        invariant
            suffix@.len() > 0,
            trimmed(rest@, suffix@) == trimmed(text@, suffix@),
        decreases rest@.len(),
    {
        match drop_suffix(rest.as_str(), suffix) {
            Some(shorter) => {
                rest = shorter;
            },
            None => {
                return rest;
            },
        }
    }
}

/// An entry is the file of a block model.
pub open spec fn is_block_model(name: Seq<char>) -> bool {
    BLOCK_MODEL_ROOT@.is_prefix_of(name) && ".json"@.is_suffix_of(name)
}

/// The name under which a block model is known: that of its file.
pub open spec fn short_name(name: Seq<char>) -> Seq<char> {
    segments(trimmed(name, ".json"@), '/').last()
}

/// The name under which a block model is known.
pub fn block_model_name(name: &str) -> (short: String)
    ensures
        short@ == short_name(name@),
{
    proof {
        reveal_strlit(".json");
    }
    let rest = trim_suffix(name, ".json");
    let pieces = split_text(rest.as_str(), '/');
    let last: usize = pieces.len() - 1;
    pieces[last].clone()
}

/// Entry `i` is a block model whose file is read: no later entry has its name.
pub open spec fn is_read(names: Seq<String>, i: int) -> bool {
    &&& is_block_model(names[i]@)
    &&& is_last_named(names, names[i]@, i)
}

fn mark_block_models(names: &Vec<String>) -> (wanted: Vec<bool>)
    ensures
        wanted@.len() == names@.len(),
        forall|i: int| 0 <= i < names@.len() ==> #[trigger] wanted@[i] == is_read(names@, i),
{
    let mut wanted: Vec<bool> = Vec::new();
    let mut i: usize = 0;
    while i < names.len()
        invariant
            i <= names.len(),
            wanted@.len() == i,
            forall|k: int| 0 <= k < i ==> #[trigger] wanted@[k] == is_read(names@, k),
        decreases names.len() - i,
    {
        let name = names[i].as_str();
        let mut read: bool = has_prefix(name, BLOCK_MODEL_ROOT) && has_suffix(name, ".json");
        if read {
            match last_named(names, &names[i]) {
                Some(last) => {
                    read = last == i;
                },
                None => {},
            }
        }
        wanted.push(read);
        i = i + 1;
    }
    wanted
}

/// The entries of a jar whose block models are to be read, by the models'
/// names and entry numbers, in the order of the entries' names.
pub open spec fn is_model_listing(names: Seq<String>, models: Seq<(String, usize)>) -> bool {
    &&& forall|k: int|
        0 <= k < models.len() ==> (#[trigger] models[k]).1 < names.len() && is_read(
            names,
            models[k].1 as int,
        ) && models[k].0@ == short_name(names[models[k].1 as int]@) && models[k].0@.len() > 0
    &&& forall|i: int|
        0 <= i < names.len() && #[trigger] is_read(names, i) && short_name(names[i]@).len() > 0
            ==> exists|k: int| 0 <= k < models.len() && (#[trigger] models[k]).1 == i
    &&& forall|k: int, l: int|
        0 <= k < l < models.len() ==> listed_before(
            names,
            (#[trigger] models[k]).1 as int,
            (#[trigger] models[l]).1 as int,
        )
}

/// Lists the block models of a jar; a file without a name is left out.
pub fn list_block_models(names: &Vec<String>) -> (models: Vec<(String, usize)>)
    ensures
        is_model_listing(names@, models@),
{
    let wanted = mark_block_models(names);
    let found = sorted_entries(names, &wanted);
    let mut models: Vec<(String, usize)> = Vec::new();
    let ghost mut places: Seq<int> = Seq::empty();
    let mut k: usize = 0;
    while k < found.len()
        invariant
            k <= found.len(),
            wanted@.len() == names@.len(),
            forall|i: int| 0 <= i < names@.len() ==> #[trigger] wanted@[i] == is_read(names@, i),
            forall|k: int|
                0 <= k < found@.len() ==> (#[trigger] found@[k]).1 < names@.len()
                    && wanted@[found@[k].1 as int] && found@[k].0@ == names@[found@[k].1 as int]@,
            places.len() == models@.len(),
            forall|l: int|
                0 <= l < places.len() ==> 0 <= #[trigger] places[l] < k && models@[l].1
                    == found@[places[l]].1,
            forall|l: int, m: int| 0 <= l < m < places.len() ==> places[l] < places[m],
            forall|l: int|
                0 <= l < models@.len() ==> (#[trigger] models@[l]).0@ == short_name(
                    names@[models@[l].1 as int]@,
                ) && models@[l].0@.len() > 0,
            forall|j: int|
                0 <= j < k && short_name(names@[(#[trigger] found@[j]).1 as int]@).len() > 0
                    ==> exists|l: int|
                    0 <= l < models@.len() && (#[trigger] models@[l]).1 == found@[j].1,
        decreases found.len() - k,
    {
        let short = block_model_name(found[k].0.as_str());
        let ghost before = models@;
        if short.as_str().unicode_len() > 0 {
            models.push((short, found[k].1));
            proof {
                places = places.push(k as int);
            }
            assert(models@[before.len() as int].1 == found@[k as int].1);
        }
        proof {
            assert forall|j: int|
                0 <= j < k + 1 && short_name(names@[(#[trigger] found@[j]).1 as int]@).len()
                    > 0 implies exists|l: int|
                0 <= l < models@.len() && (#[trigger] models@[l]).1 == found@[j].1 by {
                if j < k {
                    let l = choose|l: int|
                        0 <= l < before.len() && (#[trigger] before[l]).1 == found@[j].1;
                    assert(models@[l].1 == found@[j].1);
                }
            }
        }
        k = k + 1;
    }
    proof {
        assert forall|l: int| 0 <= l < models@.len() implies (#[trigger] models@[l]).1 < names@.len()
            && is_read(names@, models@[l].1 as int) by {
            assert(found@[places[l]].1 == models@[l].1);
            assert(wanted@[models@[l].1 as int]);
        }
        assert forall|i: int|
            0 <= i < names@.len() && #[trigger] is_read(names@, i) && short_name(names@[i]@).len()
                > 0 implies exists|k: int| 0 <= k < models@.len() && (#[trigger] models@[k]).1
            == i by {
            assert(wanted@[i]);
            let j = choose|j: int| 0 <= j < found@.len() && (#[trigger] found@[j]).1 == i;
            assert(short_name(names@[found@[j].1 as int]@).len() > 0);
        }
        assert forall|l: int, m: int| 0 <= l < m < models@.len() implies listed_before(
            names@,
            (#[trigger] models@[l]).1 as int,
            (#[trigger] models@[m]).1 as int,
        ) by {
            assert(found@[places[l]].1 == models@[l].1);
            assert(found@[places[m]].1 == models@[m].1);
        }
    }
    models
}

/// Every PNG below the texture root is listed, once, and nothing else is; the
/// textures come in the order of their names.
pub proof fn all_textures_are_listed_by_name(
    names: Vec<String>,
    jar: &str,
    entries: Vec<TextureEntry>,
    below: Seq<char>,
    i: int,
    k: int,
    l: int,
)
    requires
        call_ensures(
            list_textures,
            (&names, jar),
            Ok::<Vec<TextureEntry>, String>(entries),
        ),
    ensures
        0 <= i < names@.len() && names@[i]@ == "assets/minecraft/textures/"@ + below + ".png"@
            ==> exists|k: int| 0 <= k < entries@.len() && (#[trigger] entries@[k]).index == i,
        0 <= k < entries@.len() ==> {
            let entry = entries@[k];
            &&& entry.index < names@.len()
            &&& entry.name@ == names@[entry.index as int]@
            &&& "assets/minecraft/textures/"@.is_prefix_of(entry.name@)
            &&& ".png"@.is_suffix_of(entry.name@)
        },
        0 <= k < l < entries@.len() ==> precedes(entries@[k].name@, entries@[l].name@) || (
        entries@[k].name@ == entries@[l].name@ && entries@[k].index < entries@[l].index),
{
    if 0 <= i < names@.len() && names@[i]@ == "assets/minecraft/textures/"@ + below + ".png"@ {
        lemma_between(names@[i]@, "assets/minecraft/textures/"@, below, ".png"@);
        assert(is_texture(names@, i));
    }
    if 0 <= k < entries@.len() {
        assert(is_entry(names@, entries@[k]));
    }
    if 0 <= k < l < entries@.len() {
        assert(is_entry(names@, entries@[k]));
        assert(is_entry(names@, entries@[l]));
        assert(listed_before(names@, entries@[k].index as int, entries@[l].index as int));
    }
}

proof fn lemma_between(text: Seq<char>, front: Seq<char>, middle: Seq<char>, back: Seq<char>)
    requires
        text == front + middle + back,
    ensures
        front.is_prefix_of(text),
        back.is_suffix_of(text),
{
    assert(text.subrange(0, front.len() as int) =~= front);
    assert(text.subrange(text.len() - back.len(), text.len() as int) =~= back);
}

/// The settings of a texture are in the entry of its own name with `.mcmeta`
/// behind it, the last where there are several.
pub proof fn settings_stand_beside_their_texture(
    names: Vec<String>,
    jar: &str,
    entries: Vec<TextureEntry>,
    k: int,
    j: int,
)
    requires
        call_ensures(
            list_textures,
            (&names, jar),
            Ok::<Vec<TextureEntry>, String>(entries),
        ),
        0 <= k < entries@.len(),
    ensures
        entries@[k].settings matches Some(i) ==> i < names@.len() && names@[i as int]@
            == entries@[k].name@ + ".mcmeta"@,
        0 <= j < names@.len() && names@[j]@ == entries@[k].name@ + ".mcmeta"@ ==> (
        entries@[k].settings matches Some(i) && j <= i),
{
    assert(is_entry(names@, entries@[k]));
    if 0 <= j < names@.len() && names@[j]@ == entries@[k].name@ + ".mcmeta"@ {
        if let Some(i) = entries@[k].settings {
            if j > i {
                assert(names@[j]@ != entries@[k].name@ + ".mcmeta"@);
            }
        }
    }
}

/// A jar is refused just where it has no texture, and for that.
pub proof fn jars_without_textures_are_refused(
    names: Vec<String>,
    jar: &str,
    error: String,
    below: Seq<char>,
    i: int,
)
    requires
        call_ensures(
            list_textures,
            (&names, jar),
            Err::<Vec<TextureEntry>, String>(error),
        ),
        0 <= i < names@.len(),
    ensures
        names@[i]@ != "assets/minecraft/textures/"@ + below + ".png"@,
        error@ == "no PNG textures found under assets/minecraft/textures/ in "@ + jar@,
{
    if names@[i]@ == "assets/minecraft/textures/"@ + below + ".png"@ {
        lemma_between(names@[i]@, "assets/minecraft/textures/"@, below, ".png"@);
        assert(is_texture(names@, i));
    }
}

/// A block model is known by the name of its file.
pub proof fn block_models_are_known_by_their_file(
    path: &str,
    short: String,
    directory: Seq<char>,
    file: Seq<char>,
)
    requires
        call_ensures(block_model_name, (path,), short),
        path@ == directory.push('/') + file + ".json"@,
        !file.contains('/'),
        file.len() > 0,
        !".json"@.is_suffix_of(directory.push('/') + file),
    ensures
        short@ == file,
{
    reveal_strlit(".json");
    let front = directory.push('/') + file;
    lemma_between(path@, Seq::empty(), front, ".json"@);
    assert(path@ =~= Seq::empty() + front + ".json"@);
    assert(path@.subrange(path@.len() - 5, path@.len() as int) =~= ".json"@);
    assert(path@.take(path@.len() - 5) =~= front);
    assert(trimmed(front, ".json"@) == front);
    assert(trimmed(path@, ".json"@) == front);
    outer_pieces_stand_by_themselves(file, directory, '/');
}

/// Every block model of a jar that has a name is listed under it, unless a later
/// entry has the same path; nothing else is.
pub proof fn all_block_models_are_listed(
    names: Vec<String>,
    models: Vec<(String, usize)>,
    below: Seq<char>,
    path: &str,
    short: String,
    i: int,
    k: int,
)
    requires
        call_ensures(list_block_models, (&names,), models),
        call_ensures(block_model_name, (path,), short),
    ensures
        0 <= i < names@.len() && names@[i]@ == path@ && path@ == "assets/minecraft/models/block/"@
            + below + ".json"@ && short@.len() > 0 && (forall|j: int|
            i < j < names@.len() ==> (#[trigger] names@[j])@ != path@) ==> exists|k: int|
            0 <= k < models@.len() && (#[trigger] models@[k]).1 == i && models@[k].0@ == short@,
        0 <= k < models@.len() ==> {
            &&& models@[k].1 < names@.len()
            &&& "assets/minecraft/models/block/"@.is_prefix_of(names@[models@[k].1 as int]@)
            &&& ".json"@.is_suffix_of(names@[models@[k].1 as int]@)
            &&& models@[k].0@.len() > 0
        },
{
    if 0 <= i < names@.len() && names@[i]@ == path@ && path@ == "assets/minecraft/models/block/"@
        + below + ".json"@ && short@.len() > 0 && (forall|j: int|
        i < j < names@.len() ==> (#[trigger] names@[j])@ != path@) {
        lemma_between(names@[i]@, "assets/minecraft/models/block/"@, below, ".json"@);
        assert(is_last_named(names@, names@[i]@, i));
        assert(is_read(names@, i));
        assert(short_name(names@[i]@).len() > 0);
        let k = choose|k: int| 0 <= k < models@.len() && (#[trigger] models@[k]).1 == i;
        assert(models@[k].0@ == short_name(names@[i]@));
    }
    if 0 <= k < models@.len() {
        assert(is_read(names@, models@[k].1 as int));
    }
}

/// Of entries with one name, the last one counts.
pub proof fn the_last_entry_of_a_name_counts(
    names: Vec<String>,
    name: String,
    found: Option<usize>,
    models: Vec<(String, usize)>,
    i: int,
    k: int,
)
    requires
        call_ensures(last_named, (&names, &name), found),
        call_ensures(list_block_models, (&names,), models),
        0 <= i < names@.len(),
    ensures
        names@[i]@ == name@ ==> (found matches Some(last) && i <= last < names@.len()
            && names@[last as int]@ == name@),
        0 <= k < models@.len() && models@[k].1 < i ==> names@[i]@ != names@[models@[k].1 as int]@,
{
}

/// The ending of a block model's file is taken off as often as it stands there.
pub proof fn every_ending_is_taken_off(
    name: &str,
    longer: &str,
    short: String,
    same: String,
)
    requires
        call_ensures(block_model_name, (name,), short),
        call_ensures(block_model_name, (longer,), same),
        longer@ == name@ + ".json"@,
    ensures
        same@ == short@,
        !".json"@.is_suffix_of(name@) && !name@.contains('/') ==> short@ == name@,
{
    reveal_strlit(".json");
    let text = longer@;
    assert(text.subrange(text.len() - 5, text.len() as int) =~= ".json"@);
    assert(text.take(text.len() - 5) =~= name@);
    if !name@.contains('/') {
        lemma_unsplit(name@, '/');
    }
}

} // verus!
