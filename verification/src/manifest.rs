//! Adding the worker target and the worker dependency to a package manifest.
//!
//! The manifest is parsed, read and changed by `toml_edit`; what is decided
//! here is whether the worker target has to be added and how.
use vstd::prelude::*;

verus! {

/// The name of the binary target that holds the worker.
pub const WORKER_TARGET: &'static str = "worker";

/// The source file of the worker target.
pub const WORKER_PATH: &'static str = "src/bin/worker.rs";

/// The package that the worker depends on.
pub const WORKER_CRATE: &'static str = "wasi-worker";

/// The version of that package which the manifest is made to ask for.
pub const WORKER_VERSION: &'static str = "0.5";

/// Why a manifest could not be edited.
#[derive(Clone, Copy, Debug, PartialEq, Eq, Structural)]
pub enum ManifestError {
    /// The text is not a manifest.
    Invalid,
    /// `dependencies` is there and is neither a table nor an inline table,
    /// so that no dependency can be added to it.
    Dependencies,
}

/// A parsed manifest. Nothing of its inside is known here but what the
/// functions below say.
#[verifier::external_type_specification]
#[verifier::external_body]
pub struct ExDocument(toml_edit::Document);

/// Whether `text` parses as a manifest.
pub uninterp spec fn manifest_parses(text: Seq<char>) -> bool;

/// What the manifest lists under `bin`: nothing unless `bin` is an array of
/// tables; else, for each table in order, its `name` where that is a string.
pub uninterp spec fn bin_targets(doc: toml_edit::Document) -> Option<Seq<Option<Seq<char>>>>;

/// Whether `dependencies` can take an entry: it is missing, a table or an
/// inline table.
pub uninterp spec fn dependencies_open(doc: toml_edit::Document) -> bool;

/// The version string that `dependencies` holds for [`WORKER_CRATE`].
pub uninterp spec fn worker_dependency(doc: toml_edit::Document) -> Option<Seq<char>>;

/// The text that the manifest is written as.
pub uninterp spec fn rendered(doc: toml_edit::Document) -> Seq<char>;

/// The values of a list of target names.
pub open spec fn names_view(names: Seq<Option<String>>) -> Seq<Option<Seq<char>>> {
    names.map_values(
        |name: Option<String>|
            match name {
                Some(s) => Some(s@),
                None => None,
            },
    )
}

/// Whether a target named [`WORKER_TARGET`] has to be added: always, unless
/// `bin` is an array of tables and one of them has that name.
pub open spec fn needs_target(listed: Option<Seq<Option<Seq<char>>>>) -> bool {
    match listed {
        Some(names) => !names.contains(Some(WORKER_TARGET@)),
        None => true,
    }
}

/// The targets after the edit: as before where the worker target is
/// listed; with it at the end where `bin` is an array of tables without it;
/// it alone where `bin` is anything else.
pub open spec fn targets_after(listed: Option<Seq<Option<Seq<char>>>>) -> Seq<Option<Seq<char>>> {
    match listed {
        Some(names) => if names.contains(Some(WORKER_TARGET@)) {
            names
        } else {
            names.push(Some(WORKER_TARGET@))
        },
        None => seq![Some(WORKER_TARGET@)],
    }
}

/// `toml_edit`'s `Document::from_str`: the result is a document exactly
/// where the text parses.
#[verifier::external_body]
fn parse_document(text: &str) -> (r: Option<toml_edit::Document>)
    ensures
        r is Some <==> manifest_parses(text@),
{
    text.parse::<toml_edit::Document>().ok()
}

/// Reads `bin` through `toml_edit`'s `Index` and `ArrayOfTables::iter`, and
/// each table's `name` through `Item::as_str`: the result is what the
/// document lists under `bin`.
#[verifier::external_body]
fn read_bin_targets(doc: &toml_edit::Document) -> (r: Option<Vec<Option<String>>>)
    ensures
        match r {
            Some(names) => bin_targets(*doc) == Some(names_view(names@)),
            None => bin_targets(*doc) is None,
        },
{
    doc["bin"].as_array_of_tables().map(
        |tables| tables.iter().map(|t| t["name"].as_str().map(|s| s.to_string())).collect(),
    )
}

/// `toml_edit`'s `ArrayOfTables::append`, with a table that holds the
/// strings `name` and `path` under the keys of those names: the new target
/// comes last, and `dependencies` is not touched. The claim is made for the
/// worker's own name and path only, which `toml_edit` takes as they are.
#[verifier::external_body]
fn append_target(doc: &mut toml_edit::Document, name: &str, path: &str)
    requires
        bin_targets(*old(doc)) is Some,
        name@ == WORKER_TARGET@,
        path@ == WORKER_PATH@,
    ensures
        bin_targets(*final(doc)) == Some(bin_targets(*old(doc)).unwrap().push(Some(name@))),
        dependencies_open(*final(doc)) == dependencies_open(*old(doc)),
{
    let mut table = toml_edit::Table::new();
    table["name"] = toml_edit::value(name);
    table["path"] = toml_edit::value(path);
    doc["bin"].as_array_of_tables_mut().map(|tables| tables.append(table));
}

/// Assigns `toml_edit::array()` to `bin`: `bin` is then an array of tables
/// with no table in it, and `dependencies` is not touched.
#[verifier::external_body]
fn reset_bin_targets(doc: &mut toml_edit::Document)
    ensures
        bin_targets(*final(doc)) == Some(Seq::<Option<Seq<char>>>::empty()),
        dependencies_open(*final(doc)) == dependencies_open(*old(doc)),
{
    doc["bin"] = toml_edit::array();
}

/// Tells the variants of the `Item` under `dependencies` apart: whether an
/// assignment below it would go through.
#[verifier::external_body]
fn dependencies_accept_keys(doc: &toml_edit::Document) -> (r: bool)
    ensures
        r == dependencies_open(*doc),
{
    match &doc["dependencies"] {
        toml_edit::Item::None => true,
        toml_edit::Item::Table(_) => true,
        toml_edit::Item::Value(value) => value.is_inline_table(),
        toml_edit::Item::ArrayOfTables(_) => false,
    }
}

/// Assigns `toml_edit::value(version)` below `dependencies` through
/// `IndexMut`, which panics where `dependencies` cannot take an entry: the
/// entry then holds the version, and `bin` is not touched. The claim is made
/// for the worker's own package and version only, which `toml_edit` takes
/// as they are.
#[verifier::external_body]
fn set_dependency(doc: &mut toml_edit::Document, name: &str, version: &str)
    requires
        dependencies_open(*old(doc)),
        name@ == WORKER_CRATE@,
        version@ == WORKER_VERSION@,
    ensures
        worker_dependency(*final(doc)) == Some(version@),
        bin_targets(*final(doc)) == bin_targets(*old(doc)),
{
    doc["dependencies"][name] = toml_edit::value(version);
}

/// `toml_edit`'s `Display` for `Document`.
#[verifier::external_body]
fn render_document(doc: &toml_edit::Document) -> (text: String)
    ensures
        text@ == rendered(*doc),
{
    doc.to_string()
}

/// Whether one of `names` is `wanted`.
pub fn has_target(names: &Vec<Option<String>>, wanted: &str) -> (found: bool)
    ensures
        found == names_view(names@).contains(Some(wanted@)),
{
    let wanted_name = wanted.to_owned();
    let mut i: usize = 0;
    while i < names.len()
        invariant
            i <= names.len(),
            wanted_name@ == wanted@,
            forall|j: int| 0 <= j < i ==> names_view(names@)[j] != Some(wanted@),
        decreases names.len() - i,
    {
        let hit = match &names[i] {
            Some(name) => *name == wanted_name,
            None => false,
        };
        if hit {
            assert(names_view(names@)[i as int] == Some(wanted@));
            return true;
        }
        i = i + 1;
    }
    false
}

/// Parses a manifest.
pub fn parse_manifest(text: &str) -> (r: Result<toml_edit::Document, ManifestError>)
    ensures
        r is Ok <==> manifest_parses(text@),
        r is Err ==> r == Err::<toml_edit::Document, ManifestError>(ManifestError::Invalid),
{
    match parse_document(text) {
        Some(doc) => Ok(doc),
        None => Err(ManifestError::Invalid),
    }
}

/// Makes the manifest list the worker target and ask for the worker
/// package, and says whether the targets had to be changed for it.
///
/// Where `dependencies` cannot take an entry the manifest is left as it is.
pub fn edit_manifest(doc: &mut toml_edit::Document) -> (r: Result<bool, ManifestError>)
    ensures
        match r {
            Ok(changed) => {
                &&& dependencies_open(*old(doc))
                &&& changed == needs_target(bin_targets(*old(doc)))
                &&& bin_targets(*final(doc)) == Some(targets_after(bin_targets(*old(doc))))
                &&& worker_dependency(*final(doc)) == Some(WORKER_VERSION@)
            },
            Err(e) => {
                &&& e == ManifestError::Dependencies
                &&& !dependencies_open(*old(doc))
                &&& *final(doc) == *old(doc)
            },
        },
{
    if !dependencies_accept_keys(doc) {
        return Err(ManifestError::Dependencies);
    }
    let changed = match read_bin_targets(doc) {
        Some(names) => {
            if has_target(&names, WORKER_TARGET) {
                false
            } else {
                append_target(doc, WORKER_TARGET, WORKER_PATH);
                true
            }
        },
        None => {
            reset_bin_targets(doc);
            append_target(doc, WORKER_TARGET, WORKER_PATH);
            proof {
                assert(Seq::<Option<Seq<char>>>::empty().push(Some(WORKER_TARGET@)) =~= seq![
                    Some(WORKER_TARGET@),
                ]);
            }
            true
        },
    };
    set_dependency(doc, WORKER_CRATE, WORKER_VERSION);
    Ok(changed)
}

/// The text of a manifest.
pub fn render_manifest(doc: &toml_edit::Document) -> (text: String)
    ensures
        text@ == rendered(*doc),
{
    render_document(doc)
}

/// Whether `after` is `before` with the worker target and the worker
/// dependency in place.
pub open spec fn is_installed_from(after: toml_edit::Document, before: toml_edit::Document) -> bool {
    &&& dependencies_open(before)
    &&& bin_targets(after) == Some(targets_after(bin_targets(before)))
    &&& worker_dependency(after) == Some(WORKER_VERSION@)
}

/// Takes the text of a manifest and gives the text to write in its place,
/// or nothing where the worker target is listed already. The dependency is
/// written only together with the target.
///
/// Which manifest a text parses to is not known here. So beyond the texts
/// that are refused as no manifest at all, the result is tied to some
/// manifest: the new text is that manifest with target and dependency in
/// place, nothing is returned only for one that lists the target, and
/// `Dependencies` only for one whose `dependencies` takes no entry.
pub fn install_manifest(text: &str) -> (r: Result<Option<String>, ManifestError>)
    ensures
        r == Err::<Option<String>, ManifestError>(ManifestError::Invalid) <==> !manifest_parses(
            text@,
        ),
        match r {
            Ok(Some(new_text)) => exists|before: toml_edit::Document, after: toml_edit::Document|
                #[trigger] is_installed_from(after, before) && needs_target(bin_targets(before))
                    && new_text@ == rendered(after),
            Ok(None) => exists|before: toml_edit::Document|
                #[trigger] dependencies_open(before) && !needs_target(bin_targets(before)),
            Err(ManifestError::Dependencies) => exists|before: toml_edit::Document|
                !#[trigger] dependencies_open(before),
            Err(ManifestError::Invalid) => true,
        },
{
    let mut doc = match parse_manifest(text) {
        Ok(doc) => doc,
        Err(e) => {
            return Err(e);
        },
    };
    let ghost before = doc;
    match edit_manifest(&mut doc) {
        Ok(changed) => {
            if changed {
                proof {
                    assert(is_installed_from(doc, before));
                }
                Ok(Some(render_manifest(&doc)))
            } else {
                Ok(None)
            }
        },
        Err(e) => Err(e),
    }
}

} // verus!
