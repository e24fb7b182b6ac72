//! Which block models a block texture is stitched with.
use crate::text::{any_same, same_text};
use vstd::prelude::*;

verus! {

/// A block model with faces: the name it is known under, and the stems of the
/// block textures it refers to.
#[derive(Debug)]
pub struct BlockCandidate {
    pub key: String,
    pub stems: Vec<String>,
}

/// The models for one block texture, by their places among the candidates.
#[derive(Debug)]
pub struct StemModels {
    pub stem: String,
    pub models: Vec<usize>,
}

/// `place`, once for each of the first `count` texts that is `text`.
pub open spec fn repeated(texts: Seq<String>, text: Seq<char>, place: int, count: int) -> Seq<int>
    decreases count,
{
    if count <= 0 {
        Seq::empty()
    } else {
        let before = repeated(texts, text, place, count - 1);
        if texts[count - 1]@ == text {
            before.push(place)
        } else {
            before
        }
    }
}

/// The places of the first `count` candidates that refer to a texture, once
/// for each reference.
pub open spec fn referring(candidates: Seq<BlockCandidate>, stem: Seq<char>, count: int) -> Seq<int>
    decreases count,
{
    if count <= 0 {
        Seq::empty()
    } else {
        referring(candidates, stem, count - 1) + repeated(
            candidates[count - 1].stems@,
            stem,
            count - 1,
            candidates[count - 1].stems@.len() as int,
        )
    }
}

/// Those of the first `count` places whose model has the name `key`.
pub open spec fn namesakes(
    candidates: Seq<BlockCandidate>,
    places: Seq<int>,
    key: Seq<char>,
    count: int,
) -> Seq<int>
    decreases count,
{
    if count <= 0 {
        Seq::empty()
    } else {
        let before = namesakes(candidates, places, key, count - 1);
        if candidates[places[count - 1]].key@ == key {
            before.push(places[count - 1])
        } else {
            before
        }
    }
}

/// The models for a block texture: those named like it, if there are any,
/// else all that refer to it.
pub open spec fn models_for(candidates: Seq<BlockCandidate>, stem: Seq<char>) -> Seq<int> {
    let all = referring(candidates, stem, candidates.len() as int);
    let same = namesakes(candidates, all, stem, all.len() as int);
    if same.len() == 0 {
        all
    } else {
        same
    }
}

/// The places that a list of numbers stands for.
pub open spec fn places(models: Seq<usize>) -> Seq<int> {
    models.map_values(|i: usize| i as int)
}

/// A text is among the texts.
pub open spec fn among(texts: Seq<String>, text: Seq<char>) -> bool {
    exists|k: int| 0 <= k < texts.len() && (#[trigger] texts[k])@ == text
}

/// A candidate refers to the texture.
pub open spec fn referred(candidates: Seq<BlockCandidate>, stem: Seq<char>) -> bool {
    exists|i: int| 0 <= i < candidates.len() && among((#[trigger] candidates[i]).stems@, stem)
}

fn list_referring(candidates: &Vec<BlockCandidate>, stem: &str) -> (models: Vec<usize>)
    ensures
        places(models@) == referring(candidates@, stem@, candidates@.len() as int),
        forall|k: int| 0 <= k < models@.len() ==> #[trigger] models@[k] < candidates@.len(),
{
    let mut models: Vec<usize> = Vec::new();
    let mut i: usize = 0;
    assert(places(models@) =~= Seq::empty());
    while i < candidates.len()
        invariant
            i <= candidates.len(),
            places(models@) == referring(candidates@, stem@, i as int),
            forall|k: int| 0 <= k < models@.len() ==> #[trigger] models@[k] < candidates@.len(),
        decreases candidates.len() - i,
    {
        let stems = &candidates[i].stems;
        let ghost before = places(models@);
        let mut k: usize = 0;
        assert(before =~= before + repeated(stems@, stem@, i as int, 0));
        while k < stems.len()
            invariant
                i < candidates.len(),
                k <= stems.len(),
                places(models@) == before + repeated(stems@, stem@, i as int, k as int),
                forall|k: int| 0 <= k < models@.len() ==> #[trigger] models@[k] < candidates@.len(),
            decreases stems.len() - k,
        {
            if same_text(stems[k].as_str(), stem) {
                let ghost so_far = places(models@);
                models.push(i);
                assert(places(models@) =~= so_far.push(i as int));
                assert(so_far.push(i as int) =~= before + repeated(
                    stems@,
                    stem@,
                    i as int,
                    k as int,
                ).push(i as int));
            }
            k = k + 1;
        }
        i = i + 1;
    }
    models
}

/// The models for a block texture: those named like it, if there are any,
/// else all that refer to it.
pub fn choose_models(candidates: &Vec<BlockCandidate>, stem: &str) -> (models: Vec<usize>)
    ensures
        places(models@) == models_for(candidates@, stem@),
        forall|k: int| 0 <= k < models@.len() ==> #[trigger] models@[k] < candidates@.len(),
{
    let all = list_referring(candidates, stem);
    let ghost views = places(all@);
    let mut same: Vec<usize> = Vec::new();
    let mut k: usize = 0;
    assert(places(same@) =~= Seq::empty());
    while k < all.len()
        invariant
            k <= all.len(),
            views == places(all@),
            forall|k: int| 0 <= k < all@.len() ==> #[trigger] all@[k] < candidates@.len(),
            places(same@) == namesakes(candidates@, views, stem@, k as int),
            forall|k: int| 0 <= k < same@.len() ==> #[trigger] same@[k] < candidates@.len(),
        decreases all.len() - k,
    {
        let i: usize = all[k];
        assert(views[k as int] == i);
        if same_text(candidates[i].key.as_str(), stem) {
            let ghost so_far = places(same@);
            same.push(i);
            assert(places(same@) =~= so_far.push(i as int));
        }
        k = k + 1;
    }
    assert(places(same@).len() == same@.len());
    if same.len() == 0 {
        all
    } else {
        same
    }
}

/// The index has a texture of this stem.
pub open spec fn indexed(index: Seq<StemModels>, stem: Seq<char>) -> bool {
    exists|k: int| 0 <= k < index.len() && (#[trigger] index[k]).stem@ == stem
}

/// Every block texture that a candidate refers to is there once, with its
/// models.
pub open spec fn is_index(candidates: Seq<BlockCandidate>, index: Seq<StemModels>) -> bool {
    &&& forall|stem: Seq<char>| #[trigger]
        indexed(index, stem) <==> referred(candidates, stem)
    &&& forall|k: int|
        0 <= k < index.len() ==> places((#[trigger] index[k]).models@) == models_for(
            candidates,
            index[k].stem@,
        )
    &&& forall|k: int, l: int|
        0 <= k < l < index.len() ==> (#[trigger] index[k]).stem@ != (#[trigger] index[l]).stem@
}

/// The texts are different from one another.
pub open spec fn distinct(texts: Seq<String>) -> bool {
    forall|k: int, l: int|
        0 <= k < l < texts.len() ==> (#[trigger] texts[k])@ != (#[trigger] texts[l])@
}

/// Adds the texts that are not there yet.
fn add_new(known: &mut Vec<String>, texts: &Vec<String>)
    requires
        distinct(old(known)@),
    ensures
        distinct(final(known)@),
        forall|text: Seq<char>| #[trigger]
            among(final(known)@, text) <==> among(old(known)@, text) || among(texts@, text),
{
    let ghost first = known@;
    let mut s: usize = 0;
    while s < texts.len()
        invariant
            s <= texts.len(),
            distinct(known@),
            forall|text: Seq<char>| #[trigger]
                among(known@, text) <==> among(first, text) || among(texts@.take(s as int), text),
        decreases texts.len() - s,
    {
        let ghost before = known@;
        let ghost seen = texts@.take(s as int);
        let ghost now = texts@.take(s + 1);
        let ghost added = texts@[s as int];
        let there = any_same(known, texts[s].as_str());
        assert(there == among(before, added@));
        if !there {
            known.push(texts[s].clone());
        }
        proof {
            assert(now =~= seen.push(added));
            assert forall|text: Seq<char>| #[trigger]
                among(known@, text) <==> among(first, text) || among(now, text) by {
                lemma_among_push(seen, added, text);
                if !there {
                    lemma_among_push(before, added, text);
                }
                assert(among(before, text) <==> among(first, text) || among(seen, text));
            }
        }
        s = s + 1;
    }
    assert(texts@.take(s as int) =~= texts@);
}

proof fn lemma_among_push(texts: Seq<String>, added: String, text: Seq<char>)
    ensures
        among(texts.push(added), text) <==> among(texts, text) || added@ == text,
{
    let more = texts.push(added);
    if among(texts, text) {
        let k = choose|k: int| 0 <= k < texts.len() && (#[trigger] texts[k])@ == text;
        assert(more[k]@ == text);
    }
    if added@ == text {
        assert(more[texts.len() as int]@ == text);
    }
    if among(more, text) {
        let k = choose|k: int| 0 <= k < more.len() && (#[trigger] more[k])@ == text;
        if k < texts.len() {
            assert(texts[k]@ == text);
        }
    }
}

/// The stems that the candidates refer to, each once.
fn list_stems(candidates: &Vec<BlockCandidate>) -> (stems: Vec<String>)
    ensures
        distinct(stems@),
        forall|stem: Seq<char>| #[trigger] among(stems@, stem) <==> referred(candidates@, stem),
{
    let mut stems: Vec<String> = Vec::new();
    let mut i: usize = 0;
    while i < candidates.len()
        invariant
            i <= candidates.len(),
            distinct(stems@),
            forall|stem: Seq<char>| #[trigger]
                among(stems@, stem) <==> referred(candidates@.take(i as int), stem),
        decreases candidates.len() - i,
    {
        let ghost before = stems@;
        let ghost seen = candidates@.take(i as int);
        let ghost now = candidates@.take(i + 1);
        let ghost added = candidates@[i as int];
        add_new(&mut stems, &candidates[i].stems);
        proof {
            assert(now =~= seen.push(added));
            assert forall|stem: Seq<char>| #[trigger]
                among(stems@, stem) <==> referred(now, stem) by {
                assert(among(before, stem) <==> referred(seen, stem));
                if referred(seen, stem) {
                    let k = choose|k: int|
                        0 <= k < seen.len() && among((#[trigger] seen[k]).stems@, stem);
                    assert(among(now[k].stems@, stem));
                }
                if among(added.stems@, stem) {
                    assert(among(now[i as int].stems@, stem));
                }
                if referred(now, stem) {
                    let k = choose|k: int|
                        0 <= k < now.len() && among((#[trigger] now[k]).stems@, stem);
                    if k < i {
                        assert(among(seen[k].stems@, stem));
                    }
                }
            }
        }
        i = i + 1;
    }
    assert(candidates@.take(i as int) =~= candidates@);
    stems
}

/// Finds the models for every block texture that a candidate refers to.
pub fn index_block_models(candidates: &Vec<BlockCandidate>) -> (index: Vec<StemModels>)
    ensures
        is_index(candidates@, index@),
{
    let stems = list_stems(candidates);
    let mut index: Vec<StemModels> = Vec::new();
    let mut k: usize = 0;
    while k < stems.len()
        invariant
            k <= stems.len(),
            index@.len() == k,
            forall|l: int|
                0 <= l < k ==> (#[trigger] index@[l]).stem == stems@[l] && places(index@[l].models@)
                    == models_for(candidates@, stems@[l]@),
        decreases stems.len() - k,
    {
        let models = choose_models(candidates, stems[k].as_str());
        index.push(StemModels { stem: stems[k].clone(), models });
        k = k + 1;
    }
    proof {
        assert forall|stem: Seq<char>| #[trigger]
            indexed(index@, stem) <==> referred(candidates@, stem) by {
            assert(among(stems@, stem) <==> referred(candidates@, stem));
            if among(stems@, stem) {
                let k = choose|k: int| 0 <= k < stems@.len() && (#[trigger] stems@[k])@ == stem;
                assert(index@[k].stem@ == stem);
            }
            if indexed(index@, stem) {
                let k = choose|k: int|
                    0 <= k < index@.len() && (#[trigger] index@[k]).stem@ == stem;
                assert(stems@[k]@ == stem);
            }
        }
        assert forall|k: int, l: int| 0 <= k < l < index@.len() implies (
        #[trigger] index@[k]).stem@ != (#[trigger] index@[l]).stem@ by {
            assert(index@[k].stem == stems@[k]);
            assert(index@[l].stem == stems@[l]);
        }
    }
    index
}

proof fn lemma_repeated(texts: Seq<String>, text: Seq<char>, place: int, count: int, k: int)
    requires
        0 <= count <= texts.len(),
    ensures
        0 <= k < repeated(texts, text, place, count).len() ==> repeated(texts, text, place, count)[k]
            == place,
        repeated(texts, text, place, count).len() > 0 <==> exists|i: int|
            0 <= i < count && (#[trigger] texts[i])@ == text,
    decreases count,
{
    if count > 0 {
        lemma_repeated(texts, text, place, count - 1, k);
        let before = repeated(texts, text, place, count - 1);
        if repeated(texts, text, place, count).len() > 0 {
            if texts[count - 1]@ == text {
            } else {
                let i = choose|i: int| 0 <= i < count - 1 && (#[trigger] texts[i])@ == text;
                assert(texts[i]@ == text);
            }
        }
        if exists|i: int| 0 <= i < count && (#[trigger] texts[i])@ == text {
            let i = choose|i: int| 0 <= i < count && (#[trigger] texts[i])@ == text;
            if i < count - 1 {
                assert(texts[i]@ == text);
            }
        }
    }
}

proof fn lemma_referring(
    candidates: Seq<BlockCandidate>,
    stem: Seq<char>,
    count: int,
    i: int,
    k: int,
)
    requires
        0 <= count <= candidates.len(),
    ensures
        0 <= k < referring(candidates, stem, count).len() ==> {
            let place = referring(candidates, stem, count)[k];
            0 <= place < count && among(candidates[place].stems@, stem)
        },
        0 <= i < count && among(candidates[i].stems@, stem) ==> referring(
            candidates,
            stem,
            count,
        ).contains(i),
    decreases count,
{
    if count > 0 {
        let before = referring(candidates, stem, count - 1);
        let stems = candidates[count - 1].stems@;
        let own = repeated(stems, stem, count - 1, stems.len() as int);
        let all = referring(candidates, stem, count);
        lemma_referring(candidates, stem, count - 1, i, k);
        lemma_repeated(stems, stem, count - 1, stems.len() as int, k - before.len());
        lemma_repeated(stems, stem, count - 1, stems.len() as int, 0);
        if 0 <= i < count && among(candidates[i].stems@, stem) {
            if i < count - 1 {
                let j = choose|j: int| 0 <= j < before.len() && before[j] == i;
                assert(all[j] == i);
            } else {
                assert(own.len() > 0);
                assert(all[before.len() as int] == i);
            }
        }
        if before.len() <= k < all.len() {
            assert(all[k] == own[k - before.len()]);
            assert(own.len() > 0);
        }
    }
}

proof fn lemma_namesakes(
    candidates: Seq<BlockCandidate>,
    all: Seq<int>,
    key: Seq<char>,
    count: int,
    j: int,
    k: int,
)
    requires
        0 <= count <= all.len(),
    ensures
        0 <= k < namesakes(candidates, all, key, count).len() ==> {
            let place = namesakes(candidates, all, key, count)[k];
            candidates[place].key@ == key && all.contains(place)
        },
        0 <= j < count && candidates[all[j]].key@ == key ==> namesakes(
            candidates,
            all,
            key,
            count,
        ).contains(all[j]),
    decreases count,
{
    if count > 0 {
        let before = namesakes(candidates, all, key, count - 1);
        let same = namesakes(candidates, all, key, count);
        lemma_namesakes(candidates, all, key, count - 1, j, k);
        if 0 <= j < count && candidates[all[j]].key@ == key {
            if j < count - 1 {
                let i = choose|i: int| 0 <= i < before.len() && before[i] == all[j];
                assert(same[i] == all[j]);
            } else {
                assert(same[before.len() as int] == all[j]);
            }
        }
        if before.len() <= k < same.len() {
            assert(same[k] == all[count - 1]);
        }
    }
}

/// A block texture gets models that refer to it. Where one of these is named like
/// the texture, only such ones are taken; all that may be are taken.
pub proof fn textures_get_their_namesakes_or_all_that_refer(
    candidates: Vec<BlockCandidate>,
    stem: &str,
    models: Vec<usize>,
    i: int,
    k: int,
    namesake: int,
)
    requires
        call_ensures(choose_models, (&candidates, stem), models),
    ensures
        0 <= k < models@.len() ==> models@[k] < candidates@.len() && among(
            candidates@[models@[k] as int].stems@,
            stem@,
        ),
        0 <= namesake < candidates@.len() && candidates@[namesake].key@ == stem@ && among(
            candidates@[namesake].stems@,
            stem@,
        ) ==> models@.contains(namesake as usize) && (0 <= k < models@.len()
            ==> candidates@[models@[k] as int].key@ == stem@),
        0 <= i < candidates@.len() && among(candidates@[i].stems@, stem@) && (forall|j: int|
            0 <= j < candidates@.len() && among((#[trigger] candidates@[j]).stems@, stem@)
                ==> candidates@[j].key@ != stem@) ==> models@.contains(i as usize),
{
    let count = candidates@.len() as int;
    assert(candidates@.len() == candidates.len());
    let all = referring(candidates@, stem@, count);
    let same = namesakes(candidates@, all, stem@, all.len() as int);
    let given = places(models@);
    assert(given.len() == models@.len());
    if 0 <= k < models@.len() {
        assert(given[k] == models@[k]);
        lemma_referring(candidates@, stem@, count, i, k);
        lemma_namesakes(candidates@, all, stem@, all.len() as int, 0, k);
        if same.len() > 0 {
            let j = choose|j: int| 0 <= j < all.len() && all[j] == same[k];
            lemma_referring(candidates@, stem@, count, i, j);
        }
    }
    if 0 <= namesake < candidates@.len() && candidates@[namesake].key@ == stem@ && among(
        candidates@[namesake].stems@,
        stem@,
    ) {
        lemma_referring(candidates@, stem@, count, namesake, 0);
        let j = choose|j: int| 0 <= j < all.len() && all[j] == namesake;
        lemma_namesakes(candidates@, all, stem@, all.len() as int, j, 0);
        let m = choose|m: int| 0 <= m < same.len() && same[m] == namesake;
        assert(given[m] == models@[m]);
        assert(models@[m] == namesake as usize);
    }
    if 0 <= i < candidates@.len() && among(candidates@[i].stems@, stem@) && (forall|j: int|
        0 <= j < candidates@.len() && among((#[trigger] candidates@[j]).stems@, stem@)
            ==> candidates@[j].key@ != stem@) {
        lemma_referring(candidates@, stem@, count, i, 0);
        if same.len() > 0 {
            lemma_namesakes(candidates@, all, stem@, all.len() as int, 0, 0);
            let j = choose|j: int| 0 <= j < all.len() && all[j] == same[0];
            lemma_referring(candidates@, stem@, count, i, j);
            assert(candidates@[same[0]].key@ != stem@);
        }
        let m = choose|m: int| 0 <= m < all.len() && all[m] == i;
        assert(given[m] == models@[m]);
        assert(models@[m] == i as usize);
    }
}

/// The index has each block texture that a model refers to once, with the models
/// that are chosen for it.
pub proof fn the_index_has_every_texture_once(
    candidates: Vec<BlockCandidate>,
    index: Vec<StemModels>,
    stem: &str,
    models: Vec<usize>,
    i: int,
    k: int,
    l: int,
)
    requires
        call_ensures(index_block_models, (&candidates,), index),
        call_ensures(choose_models, (&candidates, stem), models),
        0 <= i < candidates@.len(),
        among(candidates@[i].stems@, stem@),
    ensures
        exists|k: int|
            0 <= k < index@.len() && (#[trigger] index@[k]).stem@ == stem@ && index@[k].models@
                == models@,
        0 <= k < l < index@.len() ==> index@[k].stem@ != index@[l].stem@,
{
    assert(referred(candidates@, stem@));
    assert(indexed(index@, stem@));
    let k = choose|k: int| 0 <= k < index@.len() && (#[trigger] index@[k]).stem@ == stem@;
    let a = places(index@[k].models@);
    let b = places(models@);
    assert(a == b);
    assert(a.len() == index@[k].models@.len() && b.len() == models@.len());
    assert forall|m: int| 0 <= m < models@.len() implies index@[k].models@[m] == models@[m] by {
        assert(a[m] == b[m]);
    }
    assert(index@[k].models@ =~= models@);
}

/// It is place `i`.
pub open spec fn is_place(i: int) -> spec_fn(int) -> bool {
    |place: int| place == i
}

/// It is this text.
pub open spec fn is_text(text: Seq<char>) -> spec_fn(String) -> bool {
    |other: String| other@ == text
}

proof fn lemma_repeated_count(texts: Seq<String>, text: Seq<char>, place: int, count: int, i: int)
    requires
        0 <= count <= texts.len(),
    ensures
        repeated(texts, text, place, count).filter(is_place(i)).len() == if place == i {
            texts.take(count).filter(is_text(text)).len()
        } else {
            0
        },
    decreases count,
{
    reveal(Seq::filter);
    if count > 0 {
        lemma_repeated_count(texts, text, place, count - 1, i);
        let before = repeated(texts, text, place, count - 1);
        assert(texts.take(count).drop_last() =~= texts.take(count - 1));
        assert(before.push(place).drop_last() =~= before);
    }
}

proof fn lemma_referring_count(candidates: Seq<BlockCandidate>, stem: Seq<char>, count: int, i: int)
    requires
        0 <= count <= candidates.len(),
    ensures
        referring(candidates, stem, count).filter(is_place(i)).len() == if 0 <= i < count {
            candidates[i].stems@.filter(is_text(stem)).len()
        } else {
            0
        },
    decreases count,
{
    reveal(Seq::filter);
    if count > 0 {
        lemma_referring_count(candidates, stem, count - 1, i);
        let stems = candidates[count - 1].stems@;
        let before = referring(candidates, stem, count - 1);
        let own = repeated(stems, stem, count - 1, stems.len() as int);
        lemma_repeated_count(stems, stem, count - 1, stems.len() as int, i);
        assert(stems.take(stems.len() as int) =~= stems);
        Seq::filter_distributes_over_add(before, own, is_place(i));
    }
}

proof fn lemma_namesakes_count(
    candidates: Seq<BlockCandidate>,
    all: Seq<int>,
    key: Seq<char>,
    count: int,
    i: int,
)
    requires
        0 <= count <= all.len(),
    ensures
        namesakes(candidates, all, key, count).filter(is_place(i)).len() == if candidates[i].key@
            == key {
            all.take(count).filter(is_place(i)).len()
        } else {
            0
        },
    decreases count,
{
    reveal(Seq::filter);
    if count > 0 {
        lemma_namesakes_count(candidates, all, key, count - 1, i);
        let before = namesakes(candidates, all, key, count - 1);
        assert(all.take(count).drop_last() =~= all.take(count - 1));
        assert(before.push(all[count - 1]).drop_last() =~= before);
    }
}

proof fn lemma_filter_of_one(all: Seq<int>, i: int, k: int)
    requires
        0 <= k < all.len(),
        all[k] == i,
    ensures
        all.filter(is_place(i)).len() > 0,
    decreases all.len(),
{
    reveal(Seq::filter);
    if k < all.len() - 1 {
        lemma_filter_of_one(all.drop_last(), i, k);
    }
}

/// A model that a texture gets, it gets as often as the model refers to it.
pub proof fn models_are_taken_once_for_each_reference(
    candidates: Vec<BlockCandidate>,
    stem: &str,
    models: Vec<usize>,
    k: int,
)
    requires
        call_ensures(choose_models, (&candidates, stem), models),
        0 <= k < models@.len(),
    ensures
        ({
            let i = models@[k] as int;
            places(models@).filter(is_place(i)).len() == candidates@[i].stems@.filter(
                is_text(stem@),
            ).len()
        }),
{
    let count = candidates@.len() as int;
    let all = referring(candidates@, stem@, count);
    let same = namesakes(candidates@, all, stem@, all.len() as int);
    let given = places(models@);
    let i = models@[k] as int;
    assert(given[k] == i);
    lemma_referring_count(candidates@, stem@, count, i);
    lemma_namesakes_count(candidates@, all, stem@, all.len() as int, i);
    lemma_filter_of_one(given, i, k);
    assert(all.take(all.len() as int) =~= all);
}

/// Models come in the order of the candidates.
pub proof fn models_come_in_the_order_of_the_candidates(
    candidates: Vec<BlockCandidate>,
    stem: &str,
    models: Vec<usize>,
    k: int,
    l: int,
)
    requires
        call_ensures(choose_models, (&candidates, stem), models),
        0 <= k <= l < models@.len(),
    ensures
        models@[k] <= models@[l],
{
    let count = candidates@.len() as int;
    let all = referring(candidates@, stem@, count);
    let given = places(models@);
    assert(given[k] == models@[k] && given[l] == models@[l]);
    lemma_referring_order(candidates@, stem@, count);
    lemma_namesakes_order(candidates@, all, stem@, all.len() as int);
}

/// The places rise.
spec fn rising(all: Seq<int>) -> bool {
    forall|k: int, l: int| 0 <= k <= l < all.len() ==> #[trigger] all[k] <= #[trigger] all[l]
}

proof fn lemma_repeated_place(texts: Seq<String>, text: Seq<char>, place: int, count: int)
    ensures
        forall|k: int|
            0 <= k < repeated(texts, text, place, count).len() ==> #[trigger] repeated(
                texts,
                text,
                place,
                count,
            )[k] == place,
    decreases count,
{
    if count > 0 {
        lemma_repeated_place(texts, text, place, count - 1);
        let before = repeated(texts, text, place, count - 1);
        let all = repeated(texts, text, place, count);
        assert forall|k: int| 0 <= k < all.len() implies #[trigger] all[k] == place by {
            if k < before.len() {
                assert(before[k] == place);
            }
        }
    }
}

proof fn lemma_referring_order(candidates: Seq<BlockCandidate>, stem: Seq<char>, count: int)
    ensures
        rising(referring(candidates, stem, count)),
        forall|k: int|
            0 <= k < referring(candidates, stem, count).len() ==> #[trigger] referring(
                candidates,
                stem,
                count,
            )[k] < count,
    decreases count,
{
    if count > 0 {
        lemma_referring_order(candidates, stem, count - 1);
        let stems = candidates[count - 1].stems@;
        lemma_repeated_place(stems, stem, count - 1, stems.len() as int);
    }
}

proof fn lemma_namesakes_order(
    candidates: Seq<BlockCandidate>,
    all: Seq<int>,
    key: Seq<char>,
    count: int,
)
    requires
        0 <= count <= all.len(),
        rising(all),
    ensures
        rising(namesakes(candidates, all, key, count)),
        forall|k: int|
            0 <= k < namesakes(candidates, all, key, count).len() && count > 0
                ==> #[trigger] namesakes(candidates, all, key, count)[k] <= all[count - 1],
        count == 0 ==> namesakes(candidates, all, key, count).len() == 0,
    decreases count,
{
    if count > 0 {
        lemma_namesakes_order(candidates, all, key, count - 1);
        if count > 1 {
            assert(all[count - 2] <= all[count - 1]);
        }
    }
}

} // verus!
