//! What the path of a texture says about it, and the names of outputs.
use crate::text::{
    any_same, contains_text, decimal, decimal_notation_reads_as_the_number, drop_prefix,
    drop_suffix, has_part, has_prefix, lemma_segments_some, number_read, occurs_at,
    outer_pieces_stand_by_themselves, push_decimal, same_text, segments, without_prefix,
    without_suffix,
};
use vstd::prelude::*;

verus! {

/// Where a jar keeps its textures.
pub const TEXTURE_ROOT: &'static str = "assets/minecraft/textures/";

/// Where a jar keeps its block models.
pub const BLOCK_MODEL_ROOT: &'static str = "assets/minecraft/models/block/";

/// A texture's name without the texture root in front.
pub open spec fn relative_to_root(name: Seq<char>) -> Seq<char> {
    match without_prefix(name, TEXTURE_ROOT@) {
        Some(rest) => rest,
        None => name,
    }
}

/// A texture's name without the texture root in front.
pub fn relative_name(name: &str) -> (relative: String)
    ensures
        relative@ == relative_to_root(name@),
{
    match drop_prefix(name, TEXTURE_ROOT) {
        Some(rest) => rest,
        None => name.to_owned(),
    }
}

/// Whether a path has a directory or file named `block`, given its components.
pub fn is_block_texture_path(components: &Vec<String>) -> (block: bool)
    ensures
        block == exists|i: int| 0 <= i < components@.len() && (#[trigger] components@[i])@
            == "block"@,
{
    any_same(components, "block")
}

/// The textures that tile, by their path below the texture root: blocks, and
/// the beacon beam, which tiles around its column.
pub open spec fn tiles(relative: Seq<char>) -> bool {
    "block/"@.is_prefix_of(relative) || relative == "entity/beacon/beacon_beam.png"@
}

/// Whether a texture tiles, so that it wants a self-tiling border.
pub fn wants_wrap(relative: &str) -> (wrap: bool)
    ensures
        wrap == tiles(relative@),
{
    has_prefix(relative, "block/") || same_text(relative, "entity/beacon/beacon_beam.png")
}

/// The textures outside a jar that tile, by the components of their path and
/// its file name: all that have a `block` on the way, and all beacon beams.
pub open spec fn path_tiles(components: Seq<Seq<char>>, file_name: Option<Seq<char>>) -> bool {
    ||| exists|i: int| 0 <= i < components.len() && #[trigger] components[i] == "block"@
    ||| file_name == Some("beacon_beam.png"@)
}

/// Whether a texture outside a jar tiles, given its path's components and the
/// path's file name. This is wider than [`wants_wrap`]: where the texture root
/// ends is not known here, so a `block` anywhere in the path and a beacon beam
/// in any directory count.
pub fn is_wrap_texture_path(components: &Vec<String>, file_name: Option<&str>) -> (wrap: bool)
    ensures
        wrap == path_tiles(
            components@.map_values(|component: String| component@),
            match file_name {
                Some(name) => Some(name@),
                None => None,
            },
        ),
{
    let ghost views = components@.map_values(|component: String| component@);
    if is_block_texture_path(components) {
        proof {
            let i = choose|i: int|
                0 <= i < components@.len() && (#[trigger] components@[i])@ == "block"@;
            assert(views[i] == "block"@);
        }
        return true;
    }
    assert forall|i: int| 0 <= i < views.len() implies #[trigger] views[i] != "block"@ by {
        assert(components@[i]@ != "block"@);
    }
    match file_name {
        Some(name) => same_text(name, "beacon_beam.png"),
        None => false,
    }
}

/// A texture that tiles by its path below the texture root also tiles by its
/// path outside a jar.
pub proof fn tiling_names_are_tiling_paths(relative: Seq<char>)
    requires
        tiles(relative),
    ensures
        path_tiles(segments(relative, '/'), Some(segments(relative, '/').last())),
{
    reveal_strlit("block/");
    reveal_strlit("block");
    reveal_strlit("entity/beacon/beacon_beam.png");
    reveal_strlit("entity/beacon");
    reveal_strlit("beacon_beam.png");
    let pieces = segments(relative, '/');
    lemma_segments_some(relative, '/');
    if "block/"@.is_prefix_of(relative) {
        let rest = relative.skip(6);
        assert("block/"@ =~= "block"@.push('/'));
        assert(relative =~= "block"@.push('/') + rest);
        outer_pieces_stand_by_themselves("block"@, rest, '/');
        assert(pieces[0] == "block"@);
    } else {
        assert(relative =~= "entity/beacon"@.push('/') + "beacon_beam.png"@);
        outer_pieces_stand_by_themselves("beacon_beam.png"@, "entity/beacon"@, '/');
    }
}

/// On a path with no piece `block`, and with another file name than the beacon
/// beam's, a texture tiles neither by its path below the texture root nor by its
/// path outside a jar.
pub proof fn other_paths_do_not_tile(relative: Seq<char>)
    requires
        ({
            let pieces = segments(relative, '/');
            &&& forall|i: int| 0 <= i < pieces.len() ==> #[trigger] pieces[i] != "block"@
            &&& pieces.last() != "beacon_beam.png"@
        }),
    ensures
        !tiles(relative),
        !path_tiles(segments(relative, '/'), Some(segments(relative, '/').last())),
{
    if tiles(relative) {
        tiling_names_are_tiling_paths(relative);
    }
}

/// The biome colour maps, which are lookup tables and not pictures.
pub open spec fn is_colormap(path: Seq<char>) -> bool {
    "colormap/"@.is_prefix_of(path) || contains_text(path, "/textures/colormap/"@)
}

/// Whether a path is that of a biome colour map.
pub fn is_colormap_texture_path(path: &str) -> (colormap: bool)
    ensures
        colormap == is_colormap(path@),
{
    has_prefix(path, "colormap/") || has_part(path, "/textures/colormap/")
}

/// The stem of a block texture directly below `block/`.
pub open spec fn block_stem(relative: Seq<char>) -> Option<Seq<char>> {
    match without_prefix(relative, "block/"@) {
        None => None,
        Some(rest) => match without_suffix(rest, ".png"@) {
            None => None,
            Some(stem) => if stem.len() == 0 || contains_text(stem, "/"@) {
                None
            } else {
                Some(stem)
            },
        },
    }
}

/// The stem of a block texture directly below `block/`.
pub fn block_texture_stem_for(relative: &str) -> (stem: Option<String>)
    ensures
        match block_stem(relative@) {
            Some(view) => stem matches Some(stem) && stem@ == view,
            None => stem is None,
        },
{
    match drop_prefix(relative, "block/") {
        None => None,
        Some(rest) => match drop_suffix(rest.as_str(), ".png") {
            None => None,
            Some(stem) => {
                if stem.as_str().unicode_len() == 0 || has_part(stem.as_str(), "/") {
                    None
                } else {
                    Some(stem)
                }
            },
        },
    }
}

/// `{stem}_x{factor}`.
pub open spec fn factor_name(stem: Seq<char>, factor: nat) -> Seq<char> {
    stem + "_x"@ + decimal(factor)
}

/// The name `{stem}_x{factor}`, which a batch's output folder has by default.
pub fn scaled_name(stem: &str, factor: u32) -> (name: String)
    ensures
        name@ == factor_name(stem@, factor as nat),
{
    let mut name = stem.to_owned();
    name.append("_x");
    push_decimal(&mut name, factor as u64);
    name
}

/// The name `{stem}_x{factor}.{extension}`, which an upscaled texture has by
/// default; without an extension it is a PNG.
pub fn default_output_name(stem: &str, extension: Option<&str>, factor: u32) -> (name: String)
    ensures
        name@ == factor_name(stem@, factor as nat) + "."@ + match extension {
            Some(extension) => extension@,
            None => "png"@,
        },
{
    let mut name = scaled_name(stem, factor);
    name.append(".");
    match extension {
        Some(extension) => name.append(extension),
        None => name.append("png"),
    }
    name
}

/// The file name offered for saving: after the texture's, if there is one.
pub fn suggested_name(stem: Option<&str>, factor: u32) -> (name: String)
    ensures
        name@ == factor_name(
            match stem {
                Some(stem) => stem@,
                None => "upscaled"@,
            },
            factor as nat,
        ) + ".png"@,
{
    let mut name = match stem {
        Some(stem) => scaled_name(stem, factor),
        None => scaled_name("upscaled", factor),
    };
    name.append(".png");
    name
}

/// The name `{stem}_slices`, which the folder of a texture's cut-out faces has
/// by default.
pub fn slices_name(stem: &str) -> (name: String)
    ensures
        name@ == stem@ + "_slices"@,
{
    let mut name = stem.to_owned();
    name.append("_slices");
    name
}

/// The name `{stem}_faces.png`, which a texture with its faces marked has by
/// default.
pub fn faces_name(stem: &str) -> (name: String)
    ensures
        name@ == stem@ + "_faces.png"@,
{
    let mut name = stem.to_owned();
    name.append("_faces.png");
    name
}

/// A texture's name below the texture root is what follows the root; any other
/// name is left as it is.
pub proof fn names_are_told_below_the_root(name: &str, relative: String, below: Seq<char>)
    requires
        call_ensures(relative_name, (name,), relative),
    ensures
        name@ == "assets/minecraft/textures/"@ + below ==> relative@ == below,
        !"assets/minecraft/textures/"@.is_prefix_of(name@) ==> relative@ == name@,
{
    let root = "assets/minecraft/textures/"@;
    if name@ == root + below {
        assert(name@.subrange(0, root.len() as int) =~= root);
        assert(name@.skip(root.len() as int) =~= below);
    }
}

/// A texture has a block's stem just where it is a PNG that lies directly in the
/// directory of blocks, and the stem is what its file is named.
pub proof fn block_stems_are_file_names(relative: &str, stem: Option<String>, name: Seq<char>)
    requires
        call_ensures(block_texture_stem_for, (relative,), stem),
    ensures
        stem matches Some(stem) ==> relative@ == "block/"@ + stem@ + ".png"@ && stem@.len() > 0
            && !stem@.contains('/'),
        relative@ == "block/"@ + name + ".png"@ && name.len() > 0 && !name.contains('/') ==> (
        stem matches Some(stem) && stem@ == name),
{
    reveal_strlit("block/");
    reveal_strlit(".png");
    reveal_strlit("/");
    if let Some(stem) = stem {
        let rest = relative@.skip(6);
        assert(relative@ =~= "block/"@ + rest);
        assert(rest =~= stem@ + ".png"@);
        assert("block/"@ + (stem@ + ".png"@) =~= "block/"@ + stem@ + ".png"@);
        if stem@.contains('/') {
            let k = choose|k: int| 0 <= k < stem@.len() && stem@[k] == '/';
            assert(stem@.subrange(k, k + 1) =~= "/"@);
            assert(occurs_at(stem@, "/"@, k));
        }
    }
    if relative@ == "block/"@ + name + ".png"@ && name.len() > 0 && !name.contains('/') {
        assert(relative@.subrange(0, 6) =~= "block/"@);
        let rest = relative@.skip(6);
        assert(rest =~= name + ".png"@);
        assert(rest.subrange(rest.len() - 4, rest.len() as int) =~= ".png"@);
        assert(rest.take(rest.len() - 4) =~= name);
        if contains_text(name, "/"@) {
            let at = choose|at: int| #[trigger] occurs_at(name, "/"@, at);
            assert(name.subrange(at, at + 1)[0] == '/');
            assert(name[at] == '/');
        }
    }
}

/// The textures of blocks tile, and the beacon's beam does; no other does.
pub proof fn blocks_and_beams_tile(relative: &str, wrap: bool, rest: Seq<char>)
    requires
        call_ensures(wants_wrap, (relative,), wrap),
    ensures
        relative@ == "block/"@ + rest ==> wrap,
        relative@ == "entity/beacon/beacon_beam.png"@ ==> wrap,
        wrap && relative@ != "entity/beacon/beacon_beam.png"@ ==> exists|below: Seq<char>|
            relative@ == #[trigger] ("block/"@ + below),
{
    if relative@ == "block/"@ + rest {
        assert(relative@.subrange(0, "block/"@.len() as int) =~= "block/"@);
    }
    if "block/"@.is_prefix_of(relative@) {
        let below = relative@.skip("block/"@.len() as int);
        assert(relative@ =~= "block/"@ + below);
    }
}

/// The colour maps are told by their directory, below the texture root or in a
/// longer path.
pub proof fn colour_maps_are_told_by_their_directory(
    path: &str,
    colormap: bool,
    a: Seq<char>,
    b: Seq<char>,
)
    requires
        call_ensures(is_colormap_texture_path, (path,), colormap),
    ensures
        path@ == "colormap/"@ + b ==> colormap,
        path@ == a + "/textures/colormap/"@ + b ==> colormap,
        colormap ==> "colormap/"@.is_prefix_of(path@) || contains_text(
            path@,
            "/textures/colormap/"@,
        ),
{
    let part = "/textures/colormap/"@;
    if path@ == "colormap/"@ + b {
        assert(path@.subrange(0, "colormap/"@.len() as int) =~= "colormap/"@);
    }
    if path@ == a + part + b {
        assert(path@.subrange(a.len() as int, (a.len() + part.len()) as int) =~= part);
        assert(occurs_at(path@, part, a.len() as int));
    }
}

/// The name of an output begins with the stem, and after `_x` it tells the factor.
pub proof fn output_names_tell_stem_and_factor(stem: &str, factor: u32, name: String)
    requires
        call_ensures(scaled_name, (stem, factor), name),
    ensures
        stem@.is_prefix_of(name@),
        name@.skip(stem@.len() as int).take(2) == seq!['_', 'x'],
        number_read(name@.skip((stem@.len() + 2) as int)) == factor,
{
    reveal_strlit("_x");
    decimal_notation_reads_as_the_number(factor as nat, 0);
    assert(name@.subrange(0, stem@.len() as int) =~= stem@);
    assert(name@.skip(stem@.len() as int).take(2) =~= seq!['_', 'x']);
    assert(name@.skip((stem@.len() + 2) as int) =~= decimal(factor as nat));
}

/// Saving offers the name that the output has by default, which keeps the texture's
/// extension and is a PNG where there is none.
pub proof fn saved_names_are_output_names(
    stem: &str,
    extension: &str,
    factor: u32,
    base: String,
    kept: String,
    plain: String,
    offered: String,
    unnamed: String,
)
    requires
        call_ensures(scaled_name, (stem, factor), base),
        call_ensures(default_output_name, (stem, Some(extension), factor), kept),
        call_ensures(default_output_name, (stem, None::<&str>, factor), plain),
        call_ensures(suggested_name, (Some(stem), factor), offered),
        call_ensures(suggested_name, (None::<&str>, factor), unnamed),
    ensures
        kept@ == base@.push('.') + extension@,
        offered@ == plain@,
        plain@ == base@ + seq!['.', 'p', 'n', 'g'],
        stem@ == "upscaled"@ ==> unnamed@ == offered@,
{
    reveal_strlit(".");
    reveal_strlit("png");
    reveal_strlit(".png");
    assert(kept@ =~= base@.push('.') + extension@);
    assert(offered@ =~= plain@);
    assert(plain@ =~= base@ + seq!['.', 'p', 'n', 'g']);
}

} // verus!
