use vstd::prelude::*;
use vstd::string::StrSliceExecFns;
use crate::load::error::{GenericMaterialLoadError, LoadErrorModel};
use crate::load::processor::{
    chain_outcome, outcome_of, MaterialProcessor, MaterialProcessorContext, ProcessorOutcome,
    Substitute,
};
use crate::reflect::TypeDescriptor;
use crate::value::{GenericValue, ValueModel};

verus! {

/// Whether `c` is one of the two separators that anchor a path at the asset root.
pub open spec fn is_root_separator(c: char) -> bool {
    c == '/' || c == '\\'
}

/// Whether `path` is anchored at the asset root: its first character is a separator.
pub open spec fn is_rooted(path: Seq<char>) -> bool {
    path.len() > 0 && is_root_separator(path[0])
}

/// The number of separators that `path` begins with.
pub open spec fn leading_separators(path: Seq<char>) -> nat
    decreases path.len(),
{
    if path.len() > 0 && is_root_separator(path[0]) {
        1 + leading_separators(path.skip(1))
    } else {
        0
    }
}

/// `path` without the separators that it begins with.
pub open spec fn trim_root(path: Seq<char>) -> Seq<char> {
    path.skip(leading_separators(path) as int)
}

/// What `AssetPath::resolve` gives, as text, for `path` resolved against the
/// parent folder of the asset path written `relative_to`, or `None` where that
/// asset path has no parent folder; an error holds the message of the parse
/// error. Bevy joins paths with `std::path`, so the text is that of the
/// platform that the program is built for.
pub uninterp spec fn resolved_beside(relative_to: Seq<char>, path: Seq<char>) -> Result<
    Option<Seq<char>>,
    Seq<char>,
>;

/// What `AssetPath::resolve` gives, as text, for `path` resolved against the
/// empty asset path of the default source; an error holds the message of the
/// parse error.
pub uninterp spec fn resolved_at_root(path: Seq<char>) -> Result<Seq<char>, Seq<char>>;

/// The name of the asset source that the asset path written `path` states, if it
/// states one; an error holds the message of the parse error.
pub uninterp spec fn stated_source(path: Seq<char>) -> Result<Option<Seq<char>>, Seq<char>>;

/// The asset path written `path`, parsed and written out again; an error holds
/// the message of the parse error.
pub uninterp spec fn parsed_path(path: Seq<char>) -> Result<Seq<char>, Seq<char>>;

/// The text of either outcome of a call that gives text or an error message.
pub open spec fn text_of(r: Result<String, String>) -> Result<Seq<char>, Seq<char>> {
    match r {
        Ok(s) => Ok(s@),
        Err(e) => Err(e@),
    }
}

/// The text of either outcome of a call that may give text, or an error message.
pub open spec fn optional_text_of(r: Result<Option<String>, String>) -> Result<
    Option<Seq<char>>,
    Seq<char>,
> {
    match r {
        Ok(Some(s)) => Ok(Some(s@)),
        Ok(None) => Ok(None),
        Err(e) => Err(e@),
    }
}

/// What stands between the name of an asset source and the path in it.
pub open spec fn source_mark() -> Seq<char> {
    seq![':', '/', '/']
}

/// A written asset path that states no source, put into the source `source`:
/// the name of the source and `://` in front of it, or the path as it is for
/// the default source. Where the source or the path is an error, the source
/// first, that error.
pub open spec fn in_source(
    source: Result<Option<Seq<char>>, Seq<char>>,
    path: Result<Seq<char>, Seq<char>>,
) -> Result<Seq<char>, Seq<char>> {
    match source {
        Err(e) => Err(e),
        Ok(named) => match path {
            Err(e) => Err(e),
            Ok(written) => Ok(
                match named {
                    Some(name) => name + source_mark() + written,
                    None => written,
                },
            ),
        },
    }
}

/// Calls bevy's `AssetPath::parent` and `AssetPath::resolve` on the asset path
/// that `AssetPath::try_parse` makes of `relative_to`: resolves `path` against
/// its parent folder, and hands out `None` where it has no parent folder. The
/// contract only names the result, which is a function of the two strings.
#[verifier::external_body]
fn resolve_beside(relative_to: &str, path: &str) -> (r: Result<Option<String>, String>)
    ensures
        optional_text_of(r) == resolved_beside(relative_to@, path@),
{
    let base = bevy::asset::AssetPath::try_parse(relative_to).map_err(|e| e.to_string())?;
    base.parent().map(
        |parent| parent.resolve(path).map(|p| p.to_string()).map_err(|e| e.to_string()),
    ).transpose()
}

/// Calls bevy's `AssetPath::resolve` on `AssetPath::default()`, the empty path
/// of the default source. The contract only names the result.
#[verifier::external_body]
fn resolve_at_root(path: &str) -> (r: Result<String, String>)
    ensures
        text_of(r) == resolved_at_root(path@),
{
    bevy::asset::AssetPath::default().resolve(path).map(|p| p.to_string()).map_err(
        |e| e.to_string(),
    )
}

/// Calls bevy's `AssetPath::source` on the asset path that `AssetPath::try_parse`
/// makes of `path`, and hands out the source's name, `None` for the default
/// source. The contract names the result, and states that the written path
/// parses exactly when its source can be had, with the same message when not:
/// both come from the one call of `try_parse`.
#[verifier::external_body]
fn source_name(path: &str) -> (r: Result<Option<String>, String>)
    ensures
        optional_text_of(r) == stated_source(path@),
        match r {
            Ok(_) => parsed_path(path@) is Ok,
            Err(e) => parsed_path(path@) == Err::<Seq<char>, Seq<char>>(e@),
        },
{
    bevy::asset::AssetPath::try_parse(path).map(
        |p| p.source().as_str().map(|name| name.to_string()),
    ).map_err(|e| e.to_string())
}

/// Calls bevy's `AssetPath::try_parse` and writes the parsed path out. The
/// contract only names the result.
#[verifier::external_body]
fn parse_path(path: &str) -> (r: Result<String, String>)
    ensures
        text_of(r) == parsed_path(path@),
{
    bevy::asset::AssetPath::try_parse(path).map(|p| p.to_string()).map_err(|e| e.to_string())
}

/// Calls bevy's `AssetPath::with_source` on the parsed `path`, with the asset
/// source of the parsed `relative_to`, and writes the result out. The contract
/// states the result for a `path` that states no source of its own: bevy writes
/// an asset path as the name of its source and `://`, where it has a source,
/// and then the rest, so the result is the written `path` with the source of
/// `relative_to` in front. `relative_to` is parsed first.
#[verifier::external_body]
fn path_with_source_of(relative_to: &str, path: &str) -> (r: Result<String, String>)
    ensures
        (stated_source(path@) matches Ok(None)) ==> text_of(r) == in_source(
            stated_source(relative_to@),
            parsed_path(path@),
        ),
{
    let base = bevy::asset::AssetPath::try_parse(relative_to).map_err(|e| e.to_string())?;
    let parsed = bevy::asset::AssetPath::try_parse(path).map_err(|e| e.to_string())?;
    Ok(parsed.with_source(base.source().clone_owned()).to_string())
}

/// Where `path`, written in a material file, points to, seen from the asset
/// `relative_to`. A path that begins with a separator is taken from the asset
/// root: without the separators that it begins with, and in the source of
/// `relative_to` unless it states its own. Any other path is resolved against
/// the folder that holds `relative_to`, and against the empty path where
/// `relative_to` has no folder.
pub open spec fn relative_path(relative_to: Seq<char>, path: Seq<char>) -> Result<
    Seq<char>,
    Seq<char>,
> {
    if is_rooted(path) {
        match stated_source(trim_root(path)) {
            Err(e) => Err(e),
            Ok(Some(_)) => parsed_path(trim_root(path)),
            Ok(None) => in_source(stated_source(relative_to), parsed_path(trim_root(path))),
        }
    } else {
        match resolved_beside(relative_to, path) {
            Err(e) => Err(e),
            Ok(Some(resolved)) => Ok(resolved),
            Ok(None) => resolved_at_root(path),
        }
    }
}

/// Of the asset that a path is seen from, a path that begins with a separator
/// takes the source alone: seen from two assets of one source, in whatever
/// folders, it points to the same place.
pub proof fn lemma_rooted_path_ignores_folder(first: Seq<char>, second: Seq<char>, path: Seq<char>)
    requires
        is_rooted(path),
        stated_source(first) == stated_source(second),
    ensures
        relative_path(first, path) == relative_path(second, path),
{
}

/// A path that begins with a separator points somewhere whenever the asset
/// that it is seen from and the path behind the separators are asset paths: to
/// the path behind the separators as it is written, with the source of the
/// asset in front where the path states none and the asset has one.
pub proof fn lemma_rooted_path_resolves(relative_to: Seq<char>, path: Seq<char>)
    requires
        is_rooted(path),
        stated_source(relative_to) is Ok,
        stated_source(trim_root(path)) is Ok,
        parsed_path(trim_root(path)) is Ok,
    ensures
        relative_path(relative_to, path) is Ok,
        relative_path(relative_to, path)->Ok_0 == match (
            stated_source(trim_root(path))->Ok_0,
            stated_source(relative_to)->Ok_0,
        ) {
            (None, Some(name)) => name + source_mark() + parsed_path(trim_root(path))->Ok_0,
            _ => parsed_path(trim_root(path))->Ok_0,
        },
{
}

/// Counts the separators that `path` begins with.
pub fn count_leading_separators(path: &str) -> (n: usize)
    ensures
        n == leading_separators(path@),
        n <= path@.len(),
{
    let len = path.unicode_len();
    let mut n: usize = 0;
    assert(path@.skip(0) =~= path@);
    while n < len && (path.get_char(n) == '/' || path.get_char(n) == '\\')
        invariant
            len == path@.len(),
            n <= len,
            leading_separators(path@) == n + leading_separators(path@.skip(n as int)),
        decreases len - n,
    {
        proof {
            let rest = path@.skip(n as int);
            assert(rest[0] == path@[n as int]);
            assert(rest.skip(1) =~= path@.skip(n + 1));
        }
        n += 1;
    }
    proof {
        let rest = path@.skip(n as int);
        if n < len {
            assert(rest[0] == path@[n as int]);
        }
    }
    n
}

/// Produces an asset path relative to another, for the paths that material
/// files hold. A path that begins with `/` or `\` is taken from the asset root,
/// in the asset source of `relative_to` unless it states its own; any other path
/// is resolved against the folder that holds `relative_to`. An error holds the
/// message of the asset path that could not be parsed.
pub fn relative_asset_path(relative_to: &str, path: &str) -> (r: Result<String, String>)
    ensures
        text_of(r) == relative_path(relative_to@, path@),
{
    let n = count_leading_separators(path);
    if n > 0 {
        let trimmed = path.substring_char(n, path.unicode_len());
        match source_name(trimmed) {
            Err(e) => Err(e),
            Ok(Some(_)) => parse_path(trimmed),
            Ok(None) => path_with_source_of(relative_to, trimmed),
        }
    } else {
        match resolve_beside(relative_to, path) {
            Err(e) => Err(e),
            Ok(Some(resolved)) => Ok(resolved),
            Ok(None) => resolve_at_root(path),
        }
    }
}

/// The message of the failure to load an asset from a value that is no string.
pub const EXPECTED_ASSET_PATH: &'static str = "invalid type: expected a string holding the path of an asset";

/// The processor that loads assets from paths: a value that is to be read as
/// one of a type registered as a sub-asset has to be a string, which is taken as
/// a path relative to the material file; the asset at that path takes the
/// value's place. Below it stands the processor `P`.
pub struct AssetLoadingProcessor<P: MaterialProcessor>(pub P);

impl<P: MaterialProcessor + Clone> Clone for AssetLoadingProcessor<P> {
    fn clone(&self) -> (r: Self) {
        AssetLoadingProcessor(self.0.clone())
    }
}

/// What the asset-loading processor makes of a value, read from the file at
/// `asset_path`, that is to be read as one of the type of `registration`.
pub open spec fn asset_outcome(
    asset_path: Seq<char>,
    registration: TypeDescriptor,
    value: ValueModel,
) -> ProcessorOutcome {
    if !registration.sub_asset {
        ProcessorOutcome::Declined
    } else {
        match value {
            ValueModel::String(path) => match relative_path(asset_path, path) {
                Ok(resolved) => ProcessorOutcome::Asset(resolved),
                Err(message) => ProcessorOutcome::Failed(LoadErrorModel::Deserialize(message)),
            },
            _ => ProcessorOutcome::Failed(LoadErrorModel::Deserialize(EXPECTED_ASSET_PATH@)),
        }
    }
}

/// Offers a value, read from the file that `ctx` names, to the asset-loading
/// processor alone.
pub fn load_sub_asset(
    ctx: &MaterialProcessorContext,
    registration: &TypeDescriptor,
    value: &GenericValue,
) -> (r: Result<Option<Substitute>, GenericMaterialLoadError>)
    ensures
        outcome_of(r) == asset_outcome(ctx.asset_path@, *registration, value@),
{
    if !registration.sub_asset {
        return Ok(None);
    }
    match value {
        GenericValue::String(path) => match relative_asset_path(ctx.asset_path.as_str(), path.as_str()) {
            Ok(resolved) => Ok(Some(Substitute::Asset(resolved))),
            Err(message) => Err(GenericMaterialLoadError::Deserialize(message)),
        },
        _ => Err(GenericMaterialLoadError::Deserialize(EXPECTED_ASSET_PATH.to_owned())),
    }
}

impl<P: MaterialProcessor> MaterialProcessor for AssetLoadingProcessor<P> {
    open spec fn own_outcome(
        &self,
        ctx: &MaterialProcessorContext,
        registration: &TypeDescriptor,
        value: ValueModel,
    ) -> ProcessorOutcome {
        asset_outcome(ctx.asset_path@, *registration, value)
    }

    open spec fn below_outcome(
        &self,
        ctx: &MaterialProcessorContext,
        registration: &TypeDescriptor,
        value: ValueModel,
    ) -> Option<ProcessorOutcome> {
        Some(chain_outcome(&self.0, ctx, registration, value))
    }

    fn try_deserialize(
        &self,
        ctx: &MaterialProcessorContext,
        registration: &TypeDescriptor,
        value: &GenericValue,
    ) -> (r: Result<Option<Substitute>, GenericMaterialLoadError>) {
        load_sub_asset(ctx, registration, value)
    }

    fn try_deserialize_recursive(
        &self,
        ctx: &MaterialProcessorContext,
        registration: &TypeDescriptor,
        value: &GenericValue,
    ) -> (r: Result<Option<Substitute>, GenericMaterialLoadError>) {
        match self.0.try_deserialize_recursive(ctx, registration, value) {
            Ok(None) => load_sub_asset(ctx, registration, value),
            taken => taken,
        }
    }
}

} // verus!
