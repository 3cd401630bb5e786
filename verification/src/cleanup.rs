use crate::error::{VersionError, VersionErrorView};
use crate::matcher::{find_captures, search};
use crate::text::{comes_before, ends_with, precedes, starts_with, to_chars};
use crate::version::{
    current_version, get_current_version_info, version_from_captures, version_in, VersionInfo,
    VersionInfoView, text_view,
};
use vstd::prelude::*;

verus! {

/// The name of a versioned artifact: the library's prefix with a target and
/// a build mode, or the web target's prefix, then a version, with the dashed
/// base version as the first capture group and the five digits of the build
/// number as the second.
pub const ARTIFACT_PATTERN: &'static str =
    "(?:libcore_\\w+_\\w+_|core\\.)(\\d+-\\d+-\\d+)-(\\d{5})";

/// A managed artifact goes by its name: it begins like the library and ends
/// in the extension of a native library.
pub open spec fn is_library_name(name: Seq<char>) -> bool {
    &&& "libcore_"@.is_prefix_of(name) || "core."@.is_prefix_of(name)
    &&& ".so"@.is_suffix_of(name) || ".dylib"@.is_suffix_of(name) || ".dll"@.is_suffix_of(name)
        || ".a"@.is_suffix_of(name)
}

/// Whether a file name is that of a managed artifact.
pub fn is_library_file(filename: &str) -> (r: bool)
    ensures
        r == is_library_name(filename@),
{
    let name = to_chars(filename);
    let begins = starts_with(&name, &to_chars("libcore_")) || starts_with(
        &name,
        &to_chars("core."),
    );
    begins && (ends_with(&name, &to_chars(".so")) || ends_with(&name, &to_chars(".dylib"))
        || ends_with(&name, &to_chars(".dll")) || ends_with(&name, &to_chars(".a")))
}

/// The version that a file name carries: none where the artifact pattern
/// finds nothing in it, an error where it finds a version that cannot be
/// read.
pub open spec fn artifact_version(name: Seq<char>) -> Result<
    Option<VersionInfoView>,
    VersionErrorView,
> {
    match search(ARTIFACT_PATTERN@, name) {
        Ok(Some(groups)) => match version_in(groups, name) {
            Ok(info) => Ok(Some(info)),
            Err(e) => Err(e),
        },
        Ok(None) => Ok(None),
        Err(e) => Err(e),
    }
}

/// The outcome of reading a file name's version, as plain values.
pub open spec fn found_version_view(r: Result<Option<VersionInfo>, VersionError>) -> Result<
    Option<VersionInfoView>,
    VersionErrorView,
> {
    match r {
        Ok(Some(info)) => Ok(Some(info@)),
        Ok(None) => Ok(None),
        Err(e) => Err(e@),
    }
}

/// Reads the version that a file name carries.
pub fn extract_version_from_filename(filename: &str) -> (r: Result<
    Option<VersionInfo>,
    VersionError,
>)
    ensures
        found_version_view(r) == artifact_version(filename@),
{
    match find_captures(ARTIFACT_PATTERN, filename) {
        Ok(Some(groups)) => match version_from_captures(&groups, filename) {
            Ok(info) => Ok(Some(info)),
            Err(e) => Err(e),
        },
        Ok(None) => Ok(None),
        Err(e) => Err(e),
    }
}

/// The rule of age: a version is obsolete beside the current one when its
/// date comes before the current date in the order of strings, or when the
/// current build number is 10 or more and its own lies 10 or more behind.
pub open spec fn obsolete(file: VersionInfoView, current: VersionInfoView) -> bool {
    ||| precedes(file.date_string, current.date_string)
    ||| current.build_number >= 10 && file.build_number <= current.build_number - 10
}

/// Whether a version is obsolete beside the current one.
pub fn is_obsolete(file: &VersionInfo, current: &VersionInfo) -> (r: bool)
    ensures
        r == obsolete(file@, current@),
{
    let mine = to_chars(file.date_string.as_str());
    let theirs = to_chars(current.date_string.as_str());
    if comes_before(&mine, &theirs) {
        return true;
    }
    current.build_number >= 10 && file.build_number <= current.build_number - 10
}

/// A file is removed when it is a managed artifact whose name carries a
/// version that is obsolete. A name without a version that can be read
/// stays.
pub open spec fn must_remove(name: Seq<char>, current: VersionInfoView) -> bool {
    is_library_name(name) && match artifact_version(name) {
        Ok(Some(file)) => obsolete(file, current),
        _ => false,
    }
}

/// Whether the file of this name is to be removed.
pub fn should_remove_file(filename: &str, current_version: &VersionInfo) -> (r: bool)
    ensures
        r == must_remove(filename@, current_version@),
        r ==> is_library_name(filename@),
{
    if !is_library_file(filename) {
        return false;
    }
    match extract_version_from_filename(filename) {
        Ok(Some(file_version)) => is_obsolete(&file_version, current_version),
        _ => false,
    }
}

/// What stands in the output tree: a file, known by its path and by the
/// name that its path ends in, or a directory with what stands in it.
#[derive(Debug)]
pub enum OutputEntry {
    File { path: String, name: String },
    Directory { entries: Vec<OutputEntry> },
}

/// The paths of the files to remove among `entries` and below them, in the
/// order of a walk that goes into each directory where it meets it.
pub open spec fn stale_paths(entries: Seq<OutputEntry>, current: VersionInfoView) -> Seq<
    Seq<char>,
>
    decreases entries, 1int,
{
    if entries.len() == 0 {
        Seq::empty()
    } else {
        stale_paths(entries.drop_last(), current) + stale_below(entries.last(), current)
    }
}

/// The paths of the files to remove at one entry: the file itself if it is
/// to be removed, or what is to be removed in the directory.
pub open spec fn stale_below(entry: OutputEntry, current: VersionInfoView) -> Seq<Seq<char>>
    decreases entry, 0int,
{
    match entry {
        OutputEntry::File { path, name } => if must_remove(name@, current) {
            seq![path@]
        } else {
            Seq::empty()
        },
        OutputEntry::Directory { entries } => stale_paths(entries@, current),
    }
}

/// Each string of a list, as a sequence of characters.
pub open spec fn texts(list: Seq<String>) -> Seq<Seq<char>> {
    list.map_values(|s: String| s@)
}

/// Walks a directory's entries and adds the path of each file to remove to
/// `files_to_remove`.
pub fn scan_directory_for_old_files(
    entries: &Vec<OutputEntry>,
    current_version: &VersionInfo,
    files_to_remove: &mut Vec<String>,
)
    ensures
        texts(final(files_to_remove)@) == texts(old(files_to_remove)@) + stale_paths(
            entries@,
            current_version@,
        ),
    decreases entries,
{
    let mut i: usize = 0;
    assert(entries@.take(0) =~= Seq::empty());
    while i < entries.len()
        invariant
            i <= entries.len(),
            texts(files_to_remove@) == texts(old(files_to_remove)@) + stale_paths(
                entries@.take(i as int),
                current_version@,
            ),
        decreases entries.len() - i,
    {
        let ghost before = texts(files_to_remove@);
        let ghost upto = entries@.take(i + 1);
        assert(upto.drop_last() =~= entries@.take(i as int));
        assert(upto.last() == entries@[i as int]);
        match &entries[i] {
            OutputEntry::Directory { entries: inner } => {
                scan_directory_for_old_files(inner, current_version, files_to_remove);
            },
            OutputEntry::File { path, name } => {
                if should_remove_file(name.as_str(), current_version) {
                    files_to_remove.push(path.clone());
                    assert(texts(files_to_remove@) =~= before + seq![path@]);
                } else {
                    assert(before + Seq::<Seq<char>>::empty() =~= before);
                }
            },
        }
        assert(texts(files_to_remove@) == before + stale_below(entries@[i as int], current_version@));
        i += 1;
    }
    assert(entries@.take(entries.len() as int) =~= entries@);
}

/// Lists the paths of the files to remove in the output tree.
pub fn find_old_library_files(entries: &Vec<OutputEntry>, current_version: &VersionInfo) -> (r:
    Vec<String>)
    ensures
        texts(r@) == stale_paths(entries@, current_version@),
{
    let mut files_to_remove: Vec<String> = Vec::new();
    assert(texts(files_to_remove@) =~= Seq::empty());
    scan_directory_for_old_files(entries, current_version, &mut files_to_remove);
    assert(Seq::<Seq<char>>::empty() + stale_paths(entries@, current_version@) =~= stale_paths(
        entries@,
        current_version@,
    ));
    files_to_remove
}

/// The files that a cleanup is to delete: none where there is no output
/// directory; else those that are obsolete beside the current version, for
/// which the stamp file must hold a version that can be read.
pub open spec fn cleanup_plan(listing: Option<Seq<OutputEntry>>, stamp: Option<Seq<char>>) -> Result<
    Seq<Seq<char>>,
    VersionErrorView,
> {
    match listing {
        None => Ok(Seq::empty()),
        Some(entries) => match current_version(stamp) {
            Ok(current) => Ok(stale_paths(entries, current)),
            Err(e) => Err(e),
        },
    }
}

/// The outcome of planning a cleanup, as plain values.
pub open spec fn plan_view(r: Result<Vec<String>, VersionError>) -> Result<
    Seq<Seq<char>>,
    VersionErrorView,
> {
    match r {
        Ok(paths) => Ok(texts(paths@)),
        Err(e) => Err(e@),
    }
}

/// An output tree, or none, as a sequence of entries.
pub open spec fn listing_view(listing: Option<&Vec<OutputEntry>>) -> Option<Seq<OutputEntry>> {
    match listing {
        Some(entries) => Some(entries@),
        None => None,
    }
}

/// Decides which files a cleanup deletes, from the output tree (`None` where
/// there is no output directory) and the content of the stamp file (`None`
/// where there is no such file).
pub fn cleanup_old_libraries(listing: Option<&Vec<OutputEntry>>, stamp: Option<&str>) -> (r: Result<
    Vec<String>,
    VersionError,
>)
    ensures
        plan_view(r) == cleanup_plan(listing_view(listing), text_view(stamp)),
{
    match listing {
        None => {
            let none: Vec<String> = Vec::new();
            assert(texts(none@) =~= Seq::empty());
            Ok(none)
        },
        Some(entries) => match get_current_version_info(stamp) {
            Ok(current_version) => Ok(find_old_library_files(entries, &current_version)),
            Err(e) => Err(e),
        },
    }
}

/// What a cleanup came to.
#[derive(Debug, Clone, Copy, PartialEq, Eq, Structural)]
pub enum CleanupReport {
    /// There was nothing to delete.
    NothingToClean,
    /// So many files were deleted, and so many could not be.
    Removed { deleted: usize, failed: usize },
}

/// How many of the attempts succeeded.
pub open spec fn successes(outcomes: Seq<bool>) -> nat
    decreases outcomes.len(),
{
    if outcomes.len() == 0 {
        0
    } else {
        successes(outcomes.drop_last()) + if outcomes.last() {
            1nat
        } else {
            0nat
        }
    }
}

/// The report for the outcomes of the attempts to delete, one for each file
/// of the plan.
pub open spec fn report_of(outcomes: Seq<bool>) -> CleanupReport {
    if outcomes.len() == 0 {
        CleanupReport::NothingToClean
    } else {
        CleanupReport::Removed {
            deleted: successes(outcomes) as usize,
            failed: (outcomes.len() - successes(outcomes)) as usize,
        }
    }
}

/// No more attempts succeed than were made.
pub proof fn lemma_successes_bounded(outcomes: Seq<bool>)
    ensures
        successes(outcomes) <= outcomes.len(),
    decreases outcomes.len(),
{
    if outcomes.len() > 0 {
        lemma_successes_bounded(outcomes.drop_last());
    }
}

/// Every attempt is counted once, as a deletion or as a failure.
pub proof fn lemma_report_counts_every_outcome(outcomes: Seq<bool>)
    requires
        0 < outcomes.len() <= usize::MAX,
    ensures
        report_of(outcomes) matches CleanupReport::Removed { deleted, failed } && deleted
            == successes(outcomes) && deleted + failed == outcomes.len(),
{
    lemma_successes_bounded(outcomes);
}

/// Counts the files deleted and the files that could not be deleted. A
/// failure stops nothing: every outcome is counted.
pub fn summarize_cleanup(outcomes: &Vec<bool>) -> (r: CleanupReport)
    ensures
        r == report_of(outcomes@),
{
    if outcomes.len() == 0 {
        return CleanupReport::NothingToClean;
    }
    let mut deleted: usize = 0;
    let mut failed: usize = 0;
    let mut i: usize = 0;
    assert(outcomes@.take(0) =~= Seq::empty());
    while i < outcomes.len()
        invariant
            i <= outcomes.len(),
            deleted == successes(outcomes@.take(i as int)),
            deleted + failed == i,
        decreases outcomes.len() - i,
    {
        assert(outcomes@.take(i + 1).drop_last() =~= outcomes@.take(i as int));
        if outcomes[i] {
            deleted += 1;
        } else {
            failed += 1;
        }
        i += 1;
    }
    assert(outcomes@.take(outcomes.len() as int) =~= outcomes@);
    CleanupReport::Removed { deleted, failed }
}

/// No string comes before itself.
pub proof fn lemma_precedes_irreflexive(a: Seq<char>)
    ensures
        !precedes(a, a),
    decreases a.len(),
{
    if a.len() > 0 {
        lemma_precedes_irreflexive(a.drop_first());
    }
}

/// A file that is no managed artifact is never removed, whatever its age.
pub proof fn lemma_unmanaged_file_stays(name: Seq<char>, current: VersionInfoView)
    requires
        !is_library_name(name),
    ensures
        !must_remove(name, current),
{
}

/// A file whose name carries no version is never removed.
pub proof fn lemma_unversioned_file_stays(name: Seq<char>, current: VersionInfoView)
    requires
        artifact_version(name) == Ok::<Option<VersionInfoView>, VersionErrorView>(None),
    ensures
        !must_remove(name, current),
{
}

/// An older date makes a version obsolete, whatever the build numbers.
pub proof fn lemma_older_date_is_obsolete(file: VersionInfoView, current: VersionInfoView)
    requires
        precedes(file.date_string, current.date_string),
    ensures
        obsolete(file, current),
{
}

/// With the same date, a version is obsolete exactly when the current build
/// number is 10 or more and its own lies 10 or more behind.
pub proof fn lemma_same_date_goes_by_build(file: VersionInfoView, current: VersionInfoView)
    requires
        file.date_string == current.date_string,
    ensures
        obsolete(file, current) <==> current.build_number >= 10 && file.build_number
            <= current.build_number - 10,
{
    lemma_precedes_irreflexive(file.date_string);
}

/// A version whose date is not older and whose build number lies fewer than
/// 10 behind the current one is kept.
pub proof fn lemma_recent_build_is_kept(file: VersionInfoView, current: VersionInfoView)
    requires
        !precedes(file.date_string, current.date_string),
        file.build_number + 10 > current.build_number,
    ensures
        !obsolete(file, current),
{
}

} // verus!
