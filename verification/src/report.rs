//! The report on a batch, and the settings of the pack it makes.
use crate::codec::{parse_json, parsed_json};
use crate::json::{
    entry_views, keyed, lemma_keyed_unique, Json, JsonNumber, JsonView,
};
use crate::order::{in_order, precedes, ranks, sort, Ranked};
use crate::paths::{relative_name, relative_to_root};
use crate::process::ProcessOutcome;
use crate::text::{decimal, has_prefix, push_decimal};
use vstd::prelude::*;

verus! {

/// What came of a batch.
#[derive(Debug)]
pub struct BatchReport {
    pub total: usize,
    pub upscaled: usize,
    /// Biome colour maps, which are copied as they are.
    pub copied: usize,
    pub stitched: usize,
    pub animated: usize,
    pub wrapped: usize,
    /// What failed, and why, sorted.
    pub errors: Vec<(String, String)>,
    pub entity_models: usize,
    /// Block textures with a model to stitch them with.
    pub block_models: usize,
    /// Entity textures that stand still and found no model, sorted.
    pub unmatched_entity: Vec<String>,
}

/// How far a batch has come.
#[derive(Debug)]
pub enum BatchProgress {
    Started { total: usize, entity_models: usize, block_models: usize },
    Texture { done: usize, total: usize, name: String },
}

/// What a batch tells the one who started it.
#[derive(Debug)]
pub enum JarMessage {
    Progress(BatchProgress),
    Finished(Result<BatchReport, String>),
}

/// A texture's name and what came of it.
#[derive(Debug)]
pub struct TextureResult {
    pub name: String,
    pub outcome: Result<ProcessOutcome, String>,
}

/// The texture was scaled.
pub open spec fn was_upscaled() -> spec_fn(ProcessOutcome) -> bool {
    |o: ProcessOutcome| !o.copied
}

/// The texture was copied as it is.
pub open spec fn was_copied() -> spec_fn(ProcessOutcome) -> bool {
    |o: ProcessOutcome| o.copied
}

/// The texture was stitched.
pub open spec fn was_stitched() -> spec_fn(ProcessOutcome) -> bool {
    |o: ProcessOutcome| o.stitched
}

/// The texture moves.
pub open spec fn was_animated() -> spec_fn(ProcessOutcome) -> bool {
    |o: ProcessOutcome| o.animated
}

/// The texture was wrapped.
pub open spec fn was_wrapped() -> spec_fn(ProcessOutcome) -> bool {
    |o: ProcessOutcome| o.wrapped
}

/// How many of the first `count` textures came out in some way.
pub open spec fn tally(
    results: Seq<TextureResult>,
    way: spec_fn(ProcessOutcome) -> bool,
    count: int,
) -> int
    decreases count,
{
    if count <= 0 {
        0
    } else {
        tally(results, way, count - 1) + if results[count - 1].outcome matches Ok(outcome) && way(
            outcome,
        ) {
            1int
        } else {
            0
        }
    }
}

/// The failures among the first `count` textures.
pub open spec fn failures(results: Seq<TextureResult>, count: int) -> Seq<(Seq<char>, Seq<char>)>
    decreases count,
{
    if count <= 0 {
        Seq::empty()
    } else {
        let before = failures(results, count - 1);
        match results[count - 1].outcome {
            Ok(_) => before,
            Err(error) => before.push((relative_to_root(results[count - 1].name@), error@)),
        }
    }
}

/// An entity texture that stands still, is not copied, and was not stitched.
pub open spec fn is_unmatched(result: TextureResult) -> bool {
    &&& result.outcome matches Ok(outcome) && !outcome.stitched && !outcome.animated
        && !outcome.copied
    &&& "entity/"@.is_prefix_of(relative_to_root(result.name@))
}

/// The unmatched ones of the first `count` textures.
pub open spec fn unmatched(results: Seq<TextureResult>, count: int) -> Seq<Seq<char>>
    decreases count,
{
    if count <= 0 {
        Seq::empty()
    } else {
        let before = unmatched(results, count - 1);
        if is_unmatched(results[count - 1]) {
            before.push(relative_to_root(results[count - 1].name@))
        } else {
            before
        }
    }
}

/// The failures of a batch, with that of the pack's own settings.
pub open spec fn all_failures(results: Seq<TextureResult>, pack: Option<String>) -> Seq<
    (Seq<char>, Seq<char>),
> {
    let textures = failures(results, results.len() as int);
    match pack {
        Some(error) => textures.push(("pack.mcmeta"@, error@)),
        None => textures,
    }
}

/// Sums up a batch. `pack` is the reason why the pack's settings could not be
/// written, if they could not.
pub fn sum_up(
    results: &Vec<TextureResult>,
    stitch: bool,
    entity_models: usize,
    block_models: usize,
    pack: Option<String>,
) -> (report: BatchReport)
    ensures
        ({
            let n = results@.len() as int;
            &&& report.total == n
            &&& report.upscaled == tally(results@, was_upscaled(), n)
            &&& report.copied == tally(results@, was_copied(), n)
            &&& report.stitched == tally(results@, was_stitched(), n)
            &&& report.animated == tally(results@, was_animated(), n)
            &&& report.wrapped == tally(results@, was_wrapped(), n)
            &&& report.entity_models == entity_models
            &&& report.block_models == block_models
            &&& in_order::<(String, String)>(ranks(report.errors@))
            &&& ranks(report.errors@).to_multiset() == all_failures(results@, pack).to_multiset()
            &&& in_order::<String>(ranks(report.unmatched_entity@))
            &&& ranks(report.unmatched_entity@).to_multiset() == (if stitch {
                unmatched(results@, n)
            } else {
                Seq::empty()
            }).to_multiset()
        }),
{
    let mut upscaled: usize = 0;
    let mut copied: usize = 0;
    let mut stitched: usize = 0;
    let mut animated: usize = 0;
    let mut wrapped: usize = 0;
    let mut errors: Vec<(String, String)> = Vec::new();
    let mut without_model: Vec<String> = Vec::new();
    let mut i: usize = 0;
    assert(ranks(errors@) =~= failures(results@, 0));
    assert(ranks(without_model@) =~= unmatched(results@, 0));
    assert(ranks(without_model@) =~= Seq::empty());
    while i < results.len()
        invariant
            i <= results.len(),
            upscaled <= i,
            copied <= i,
            stitched <= i,
            animated <= i,
            wrapped <= i,
            upscaled == tally(results@, was_upscaled(), i as int),
            copied == tally(results@, was_copied(), i as int),
            stitched == tally(results@, was_stitched(), i as int),
            animated == tally(results@, was_animated(), i as int),
            wrapped == tally(results@, was_wrapped(), i as int),
            ranks(errors@) == failures(results@, i as int),
            ranks(without_model@) == if stitch {
                unmatched(results@, i as int)
            } else {
                Seq::empty()
            },
        decreases results.len() - i,
    {
        let result = &results[i];
        let short = relative_name(result.name.as_str());
        match &result.outcome {
            Ok(outcome) => {
                if outcome.copied {
                    copied = copied + 1;
                } else {
                    upscaled = upscaled + 1;
                }
                if outcome.animated {
                    animated = animated + 1;
                }
                if outcome.wrapped {
                    wrapped = wrapped + 1;
                }
                if outcome.stitched {
                    stitched = stitched + 1;
                } else if stitch && !outcome.animated && !outcome.copied && has_prefix(
                    short.as_str(),
                    "entity/",
                ) {
                    let ghost before = ranks(without_model@);
                    let ghost name = short@;
                    without_model.push(short);
                    assert(ranks(without_model@) =~= before.push(name));
                }
            },
            Err(error) => {
                let ghost before = ranks(errors@);
                let ghost pair = (short@, error@);
                errors.push((short, error.clone()));
                assert(ranks(errors@) =~= before.push(pair));
            },
        }
        i = i + 1;
    }
    match pack {
        Some(error) => {
            let ghost before = ranks(errors@);
            let ghost pair = ("pack.mcmeta"@, error@);
            errors.push(("pack.mcmeta".to_owned(), error));
            assert(ranks(errors@) =~= before.push(pair));
        },
        None => {},
    }
    BatchReport {
        total: results.len(),
        upscaled,
        copied,
        stitched,
        animated,
        wrapped,
        errors: sort(errors),
        entity_models,
        block_models,
        unmatched_entity: sort(without_model),
    }
}

/// Every texture of a batch is upscaled, copied or failed, and only one of
/// these.
pub proof fn every_texture_is_accounted_for(results: Seq<TextureResult>, count: int)
    requires
        0 <= count <= results.len(),
    ensures
        tally(results, was_upscaled(), count) + tally(results, was_copied(), count) + failures(
            results,
            count,
        ).len() == count,
    decreases count,
{
    if count > 0 {
        every_texture_is_accounted_for(results, count - 1);
    }
}

/// The resource format that a jar's version file names: the version of its
/// packs, or the major part of it.
pub open spec fn format_of(version: JsonView) -> Option<i64> {
    match version.get("pack_version"@) {
        None => None,
        Some(pack) => match pack.as_i64() {
            Some(format) => Some(format),
            None => match pack.get("resource_major"@) {
                Some(major) => major.as_i64(),
                None => None,
            },
        },
    }
}

/// The resource format that the contents of a jar's version file name.
pub fn find_pack_format(version: &Json) -> (format: Option<i64>)
    ensures
        format == format_of(version@),
{
    match version.get("pack_version") {
        None => None,
        Some(pack) => match pack.as_i64() {
            Some(format) => Some(format),
            None => match pack.get("resource_major") {
                Some(major) => major.as_i64(),
                None => None,
            },
        },
    }
}

/// The resource format that a jar's version file names; none where the file is
/// not JSON.
pub fn read_pack_format(version: &[u8]) -> (format: Option<i64>)
    ensures
        format == match parsed_json(version@) {
            Some(version) => format_of(version),
            None => None,
        },
{
    match parse_json(version) {
        Some(version) => find_pack_format(&version),
        None => None,
    }
}

/// An integer as a JSON number.
pub open spec fn number_view(n: int) -> JsonView {
    if n >= 0 {
        JsonView::Number(JsonNumber::Unsigned(n as u64))
    } else {
        JsonView::Number(JsonNumber::Negative(n as i64))
    }
}

fn number(n: i64) -> (value: Json)
    ensures
        value@ == number_view(n as int),
{
    if n >= 0 {
        Json::Number(JsonNumber::Unsigned(n as u64))
    } else {
        Json::Number(JsonNumber::Negative(n))
    }
}

/// The description of a pack.
pub open spec fn description(factor: nat) -> Seq<char> {
    "Upscaled x"@ + decimal(factor) + " by XBR Studio"@
}

fn describe(factor: u32) -> (text: String)
    ensures
        text@ == description(factor as nat),
{
    let mut text = "Upscaled x".to_owned();
    push_decimal(&mut text, factor as u64);
    text.append(" by XBR Studio");
    text
}

/// The settings of a pack. Where the jar does not say its format, the pack
/// declares itself fit for all.
pub open spec fn pack_view(format: Option<i64>, factor: nat) -> JsonView {
    let text = ("description"@, JsonView::Text(description(factor)));
    let pack = match format {
        Some(format) => seq![("pack_format"@, number_view(format as int)), text],
        None => seq![
            ("pack_format"@, number_view(1)),
            (
                "supported_formats"@,
                JsonView::Object(
                    seq![
                        ("min_inclusive"@, number_view(1)),
                        ("max_inclusive"@, number_view(999)),
                    ],
                ),
            ),
            text,
        ],
    };
    JsonView::Object(seq![("pack"@, JsonView::Object(pack))])
}

/// The settings of a pack.
pub fn pack_settings(format: Option<i64>, factor: u32) -> (settings: Json)
    ensures
        settings@ == pack_view(format, factor as nat),
{
    let text = ("description".to_owned(), Json::Text(describe(factor)));
    let mut pack: Vec<(String, Json)> = Vec::new();
    match format {
        Some(format) => {
            pack.push(("pack_format".to_owned(), number(format)));
            pack.push(text);
        },
        None => {
            let mut range: Vec<(String, Json)> = Vec::new();
            range.push(("min_inclusive".to_owned(), number(1)));
            range.push(("max_inclusive".to_owned(), number(999)));
            let ghost range_view = seq![
                ("min_inclusive"@, number_view(1)),
                ("max_inclusive"@, number_view(999)),
            ];
            let range_value = Json::Object(range);
            assert(range_value@->Object_0 =~= range_view);
            pack.push(("pack_format".to_owned(), number(1)));
            pack.push(("supported_formats".to_owned(), range_value));
            pack.push(text);
        },
    }
    let ghost pack_entries = entry_views(pack@);
    let pack_value = Json::Object(pack);
    assert(pack_value@->Object_0 =~= pack_entries);
    assert(pack_entries =~= pack_view(format, factor as nat)->Object_0[0].1->Object_0);
    let mut entries: Vec<(String, Json)> = Vec::new();
    entries.push(("pack".to_owned(), pack_value));
    let settings = Json::Object(entries);
    assert(settings@->Object_0 =~= pack_view(format, factor as nat)->Object_0);
    settings
}

proof fn lemma_tally_prefix(
    few: Seq<TextureResult>,
    added: TextureResult,
    way: spec_fn(ProcessOutcome) -> bool,
    count: int,
)
    requires
        0 <= count <= few.len(),
    ensures
        tally(few.push(added), way, count) == tally(few, way, count),
    decreases count,
{
    if count > 0 {
        lemma_tally_prefix(few, added, way, count - 1);
        assert(few.push(added)[count - 1] == few[count - 1]);
    }
}

proof fn lemma_lists_prefix(few: Seq<TextureResult>, added: TextureResult, count: int)
    requires
        0 <= count <= few.len(),
    ensures
        failures(few.push(added), count) == failures(few, count),
        unmatched(few.push(added), count) == unmatched(few, count),
    decreases count,
{
    if count > 0 {
        lemma_lists_prefix(few, added, count - 1);
        assert(few.push(added)[count - 1] == few[count - 1]);
    }
}

/// One texture more counts once, and for what came of it: as upscaled or copied,
/// as stitched, animated and wrapped where it was, as failed with its reason, and
/// as an entity texture without a model where it is one that stands still.
pub proof fn one_more_texture_counts_for_itself(
    few: Vec<TextureResult>,
    more: Vec<TextureResult>,
    added: TextureResult,
    stitch: bool,
    entity_models: usize,
    block_models: usize,
    before: BatchReport,
    after: BatchReport,
    name: String,
)
    requires
        call_ensures(sum_up, (&few, stitch, entity_models, block_models, None::<String>), before),
        call_ensures(sum_up, (&more, stitch, entity_models, block_models, None::<String>), after),
        more@ == few@.push(added),
        exists|own: &str| own@ == added.name@ && #[trigger] call_ensures(relative_name, (own,), name),
    ensures
        after.total == before.total + 1,
        match added.outcome {
            Ok(outcome) => {
                &&& outcome.copied ==> after.copied == before.copied + 1 && after.upscaled
                    == before.upscaled
                &&& !outcome.copied ==> after.upscaled == before.upscaled + 1 && after.copied
                    == before.copied
                &&& after.stitched == before.stitched + (if outcome.stitched {
                    1int
                } else {
                    0
                })
                &&& after.animated == before.animated + (if outcome.animated {
                    1int
                } else {
                    0
                })
                &&& after.wrapped == before.wrapped + (if outcome.wrapped {
                    1int
                } else {
                    0
                })
                &&& ranks(after.errors@).to_multiset() == ranks(before.errors@).to_multiset()
                &&& stitch && "entity/"@.is_prefix_of(name@) && !outcome.stitched
                    && !outcome.animated && !outcome.copied ==> ranks(
                    after.unmatched_entity@,
                ).to_multiset() == ranks(before.unmatched_entity@).to_multiset().insert(name@)
                &&& !(stitch && "entity/"@.is_prefix_of(name@) && !outcome.stitched
                    && !outcome.animated && !outcome.copied) ==> ranks(
                    after.unmatched_entity@,
                ).to_multiset() == ranks(before.unmatched_entity@).to_multiset()
            },
            Err(error) => {
                &&& after.upscaled == before.upscaled && after.copied == before.copied
                &&& after.stitched == before.stitched && after.animated == before.animated
                &&& after.wrapped == before.wrapped
                &&& ranks(after.errors@).to_multiset() == ranks(
                    before.errors@,
                ).to_multiset().insert((name@, error@))
                &&& ranks(after.unmatched_entity@).to_multiset() == ranks(
                    before.unmatched_entity@,
                ).to_multiset()
            },
        },
        after.entity_models == entity_models && after.block_models == block_models,
{
    let n = few@.len() as int;
    lemma_tally_prefix(few@, added, was_upscaled(), n);
    lemma_tally_prefix(few@, added, was_copied(), n);
    lemma_tally_prefix(few@, added, was_stitched(), n);
    lemma_tally_prefix(few@, added, was_animated(), n);
    lemma_tally_prefix(few@, added, was_wrapped(), n);
    lemma_lists_prefix(few@, added, n);
    assert(more@[n] == added);
    let own = choose|own: &str|
        own@ == added.name@ && #[trigger] call_ensures(relative_name, (own,), name);
    assert(name@ == relative_to_root(added.name@));
    failures(few@, n).to_multiset_ensures();
    unmatched(few@, n).to_multiset_ensures();
}

/// A batch without textures counts none.
pub proof fn empty_batches_count_nothing(
    results: Vec<TextureResult>,
    stitch: bool,
    entity_models: usize,
    block_models: usize,
    report: BatchReport,
)
    requires
        call_ensures(
            sum_up,
            (&results, stitch, entity_models, block_models, None::<String>),
            report,
        ),
        results@.len() == 0,
    ensures
        report.total == 0 && report.upscaled == 0 && report.copied == 0 && report.stitched == 0,
        report.animated == 0 && report.wrapped == 0,
        report.errors@.len() == 0 && report.unmatched_entity@.len() == 0,
{
    ranks(report.errors@).to_multiset_ensures();
    ranks(report.unmatched_entity@).to_multiset_ensures();
    failures(results@, 0).to_multiset_ensures();
    unmatched(results@, 0).to_multiset_ensures();
    Seq::<Seq<char>>::empty().to_multiset_ensures();
}

/// A pack whose settings cannot be written counts as one failure more, and as
/// nothing else.
pub proof fn unwritten_packs_are_a_failure_more(
    results: Vec<TextureResult>,
    stitch: bool,
    entity_models: usize,
    block_models: usize,
    error: String,
    written: BatchReport,
    unwritten: BatchReport,
)
    requires
        call_ensures(
            sum_up,
            (&results, stitch, entity_models, block_models, None::<String>),
            written,
        ),
        call_ensures(
            sum_up,
            (&results, stitch, entity_models, block_models, Some(error)),
            unwritten,
        ),
    ensures
        ranks(unwritten.errors@).to_multiset() == ranks(written.errors@).to_multiset().insert(
            ("pack.mcmeta"@, error@),
        ),
        unwritten.total == written.total,
        unwritten.upscaled == written.upscaled,
        unwritten.copied == written.copied,
        unwritten.stitched == written.stitched,
        unwritten.animated == written.animated,
        unwritten.wrapped == written.wrapped,
{
    failures(results@, results@.len() as int).to_multiset_ensures();
}

/// A jar's version file names the format as a number, or as the major part of an
/// object; else it names none.
pub proof fn formats_are_numbers_or_major_parts(version: Json, format: Option<i64>, n: u64)
    requires
        call_ensures(find_pack_format, (&version,), format),
    ensures
        version@.get("pack_version"@) is None ==> format is None,
        n <= i64::MAX && version@.get("pack_version"@) == Some(
            JsonView::Number(JsonNumber::Unsigned(n)),
        ) ==> (format matches Some(format) && format == n),
        version@.get("pack_version"@) matches Some(pack) ==> (n <= i64::MAX && pack is Object
            && pack.get("resource_major"@) == Some(JsonView::Number(JsonNumber::Unsigned(n))) ==> (
        format matches Some(format) && format == n)),
        version@.get("pack_version"@) matches Some(pack) ==> (pack is Object && pack.get(
            "resource_major"@,
        ) is None ==> format is None),
        version@.get("pack_version"@) matches Some(JsonView::Number(JsonNumber::Negative(m))) ==> (
        format == Some(m)),
        version@.get("pack_version"@) matches Some(JsonView::Text(_)) ==> format is None,
{
}

/// A version file that is not JSON names no format, and one that is names that of
/// its contents.
pub proof fn version_files_name_the_format_of_their_contents(
    file: &[u8],
    version: Json,
    read: Option<i64>,
    found: Option<i64>,
)
    requires
        call_ensures(read_pack_format, (file,), read),
        call_ensures(find_pack_format, (&version,), found),
    ensures
        parsed_json(file@) == Some(version@) ==> read == found,
        parsed_json(file@) is None ==> read is None,
{
}

#[verifier::spinoff_prover]
proof fn lemma_first_keyed(entries: Seq<(Seq<char>, JsonView)>, key: Seq<char>, at: int)
    requires
        keyed(entries, key, at),
    ensures
        JsonView::Object(entries).get(key) == Some(entries[at].1),
{
    let found = choose|i: int| keyed(entries, key, i);
    lemma_keyed_unique(entries, key, at, found);
    let object = JsonView::Object(entries);
    assert(object->Object_0 == entries);
    assert(keyed(object->Object_0, key, at));
    assert(object.get(key) is Some);
}

/// The settings of a pack say the jar's format, or one and that all formats will
/// do where the jar says none; and they name the factor.
pub proof fn packs_say_their_format_and_factor(
    format: Option<i64>,
    factor: u32,
    settings: Json,
)
    requires
        call_ensures(pack_settings, (format, factor), settings),
    ensures
        ({
            let pack = settings@.get("pack"@)->0;
            &&& settings@.get("pack"@) is Some
            &&& pack.get("description"@) == Some(
                JsonView::Text("Upscaled x"@ + decimal(factor as nat) + " by XBR Studio"@),
            )
            &&& format matches Some(n) ==> pack.get("supported_formats"@) is None && (n >= 0
                ==> pack.get("pack_format"@) == Some(
                JsonView::Number(JsonNumber::Unsigned(n as u64)),
            )) && (n < 0 ==> pack.get("pack_format"@) == Some(
                JsonView::Number(JsonNumber::Negative(n)),
            ))
            &&& format is None ==> {
                &&& pack.get("pack_format"@) == Some(JsonView::Number(JsonNumber::Unsigned(1)))
                &&& pack.get("supported_formats"@) matches Some(range) && range.get(
                    "min_inclusive"@,
                ) == Some(JsonView::Number(JsonNumber::Unsigned(1))) && range.get(
                    "max_inclusive"@,
                ) == Some(JsonView::Number(JsonNumber::Unsigned(999)))
            }
        }),
{
    reveal_strlit("description");
    reveal_strlit("pack_format");
    reveal_strlit("supported_formats");
    reveal_strlit("min_inclusive");
    reveal_strlit("max_inclusive");
    assert("min_inclusive"@[1] == 'i');
    assert("max_inclusive"@[1] == 'a');
    assert("description"@[0] == 'd');
    assert("pack_format"@[0] == 'p');
    assert("supported_formats"@[0] == 's');
    let whole = pack_view(format, factor as nat)->Object_0;
    assert(keyed(whole, "pack"@, 0));
    lemma_first_keyed(whole, "pack"@, 0);
    let pack = whole[0].1->Object_0;
    assert(keyed(pack, "pack_format"@, 0));
    lemma_first_keyed(pack, "pack_format"@, 0);
    if format is Some {
        assert(keyed(pack, "description"@, 1));
        lemma_first_keyed(pack, "description"@, 1);
        assert forall|i: int| !keyed(pack, "supported_formats"@, i) by {}
    } else {
        assert(keyed(pack, "supported_formats"@, 1));
        lemma_first_keyed(pack, "supported_formats"@, 1);
        assert(keyed(pack, "description"@, 2));
        lemma_first_keyed(pack, "description"@, 2);
        let range = pack[1].1->Object_0;
        assert(keyed(range, "min_inclusive"@, 0));
        lemma_first_keyed(range, "min_inclusive"@, 0);
        assert(keyed(range, "max_inclusive"@, 1));
        lemma_first_keyed(range, "max_inclusive"@, 1);
    }
}

/// The failures are told in the order of the textures' names, and so are the
/// entity textures without a model.
pub proof fn failures_are_told_in_order(
    results: Vec<TextureResult>,
    stitch: bool,
    entity_models: usize,
    block_models: usize,
    pack: Option<String>,
    report: BatchReport,
    k: int,
    l: int,
)
    requires
        call_ensures(sum_up, (&results, stitch, entity_models, block_models, pack), report),
    ensures
        0 <= k < l < report.errors@.len() ==> !precedes(
            report.errors@[l].0@,
            report.errors@[k].0@,
        ),
        0 <= k < l < report.unmatched_entity@.len() ==> !precedes(
            report.unmatched_entity@[l]@,
            report.unmatched_entity@[k]@,
        ),
{
    if 0 <= k < l < report.errors@.len() {
        let all = ranks(report.errors@);
        assert(all[k] == (report.errors@[k].0@, report.errors@[k].1@));
        assert(all[l] == (report.errors@[l].0@, report.errors@[l].1@));
        assert(!<(String, String) as Ranked>::below(all[l], all[k]));
    }
    if 0 <= k < l < report.unmatched_entity@.len() {
        let all = ranks(report.unmatched_entity@);
        assert(all[k] == report.unmatched_entity@[k]@);
        assert(all[l] == report.unmatched_entity@[l]@);
        assert(!<String as Ranked>::below(all[l], all[k]));
    }
}

} // verus!
