use xtask::cleanup::{
    cleanup_old_libraries, extract_version_from_filename, find_old_library_files, is_library_file,
    is_obsolete, scan_directory_for_old_files, should_remove_file, summarize_cleanup,
    CleanupReport, OutputEntry,
};
use xtask::error::{NumberError, VersionError};
use xtask::version::VersionInfo;

fn version(date: &str, build: u32) -> VersionInfo {
    VersionInfo { build_number: build, date_string: date.to_string() }
}

fn file(dir: &str, name: &str) -> OutputEntry {
    OutputEntry::File { path: format!("{dir}/{name}"), name: name.to_string() }
}

const STAMP: &str = "class Core\n{\n    public const string version = \"1-2-0-00015\";\n}\n";

#[test]
fn library_files_go_by_prefix_and_extension() {
    assert!(is_library_file("libcore_ios_release_1-1-9-00003.a"));
    assert!(is_library_file("libcore_android_debug_1-2-0-00006.so"));
    assert!(is_library_file("libcore_native_debug_1-2-0-00006.dylib"));
    assert!(is_library_file("libcore_native_debug_1-2-0-00006.dll"));
    assert!(is_library_file("core.a"));
    assert!(is_library_file("core.so"));
    assert!(is_library_file("libcore_.so"));
    assert!(is_library_file("core.tar.so"));
}

#[test]
fn other_files_are_no_library_files() {
    assert!(!is_library_file(""));
    assert!(!is_library_file("so"));
    assert!(!is_library_file("a"));
    assert!(!is_library_file("core"));
    assert!(!is_library_file("core."));
    assert!(!is_library_file("libcore_"));
    assert!(!is_library_file("libcore.so"));
    assert!(!is_library_file("libcore_ios_release_1-1-9-00003.a.meta"));
    assert!(!is_library_file("libcore_ios_release_1-1-9-00003.lib"));
    assert!(!is_library_file("mylibcore_ios_release_1-1-9-00003.a"));
    assert!(!is_library_file("Libcore_ios_release_1-1-9-00003.a"));
    assert!(!is_library_file("core_a"));
    assert!(!is_library_file("notes.so"));
    assert!(!is_library_file("libcore_x.SO"));
}

#[test]
fn version_is_read_from_the_file_name() {
    assert_eq!(
        extract_version_from_filename("libcore_android_debug_0-1-0-00001.so"),
        Ok(Some(version("0-1-0", 1)))
    );
    assert_eq!(
        extract_version_from_filename("libcore_macos_universal_release_12-0-3-00420.dylib"),
        Ok(Some(version("12-0-3", 420)))
    );
    assert_eq!(extract_version_from_filename("core.1-2-3-00004.a"), Ok(Some(version("1-2-3", 4))));
}

#[test]
fn a_name_without_a_version_gives_none() {
    assert_eq!(extract_version_from_filename("core.a"), Ok(None));
    assert_eq!(extract_version_from_filename(""), Ok(None));
    assert_eq!(extract_version_from_filename("libcore_ios_1-2-3-00004.a"), Ok(None));
    assert_eq!(extract_version_from_filename("libcore_ios_release_1-2-3-0004.a"), Ok(None));
    assert_eq!(extract_version_from_filename("1-2-3-00004"), Ok(None));
}

#[test]
fn a_version_that_cannot_be_read_is_an_error() {
    assert_eq!(
        extract_version_from_filename(
            "libcore_ios_release_1-2-3-\u{0661}\u{0662}\u{0663}\u{0664}\u{0665}.a"
        ),
        Err(VersionError::InvalidBuildNumber(NumberError::InvalidDigit))
    );
}

#[test]
fn an_older_date_is_removed() {
    let current = version("1-2-0", 15);
    assert!(should_remove_file("libcore_ios_release_1-1-9-00003.a", &current));
    assert!(should_remove_file("libcore_ios_release_1-1-9-00015.a", &current));
    assert!(should_remove_file("libcore_ios_release_1-1-9-99999.a", &current));
}

#[test]
fn the_same_date_goes_by_the_build_number() {
    let current = version("1-2-0", 15);
    assert!(!should_remove_file("libcore_android_debug_1-2-0-00006.so", &current));
    assert!(should_remove_file("libcore_android_debug_1-2-0-00005.so", &current));
    assert!(should_remove_file("libcore_android_debug_1-2-0-00000.so", &current));
    assert!(!should_remove_file("libcore_android_debug_1-2-0-00015.so", &current));
    assert!(!should_remove_file("libcore_android_debug_1-2-0-00016.so", &current));
}

#[test]
fn nothing_is_behind_a_current_build_below_ten() {
    let current = version("1-2-0", 9);
    assert!(!should_remove_file("libcore_android_debug_1-2-0-00000.so", &current));
    assert!(!should_remove_file("libcore_android_debug_1-2-0-00009.so", &current));
    let ten = version("1-2-0", 10);
    assert!(should_remove_file("libcore_android_debug_1-2-0-00000.so", &ten));
    assert!(!should_remove_file("libcore_android_debug_1-2-0-00001.so", &ten));
}

#[test]
fn a_newer_date_still_goes_by_the_build_number() {
    let current = version("1-2-0", 15);
    assert!(!should_remove_file("libcore_android_debug_1-3-0-00006.so", &current));
    assert!(should_remove_file("libcore_android_debug_1-3-0-00005.so", &current));
}

#[test]
fn dates_are_compared_as_strings() {
    // 1-10-1 is the later date, and still comes first as a string.
    assert!(is_obsolete(&version("1-10-1", 50), &version("1-9-1", 50)));
    assert!(!is_obsolete(&version("1-9-1", 50), &version("1-10-1", 50)));
    assert!(is_obsolete(&version("1-2", 50), &version("1-2-0", 50)));
    assert!(!is_obsolete(&version("1-2-0", 50), &version("1-2", 50)));
    assert!(!is_obsolete(&version("1-2-0", 50), &version("1-2-0", 50)));
    assert!(is_obsolete(&version("", 50), &version("0", 50)));
    assert!(!is_obsolete(&version("", 50), &version("", 50)));
    for (a, b) in [("1-10-1", "1-9-1"), ("2-0-0", "10-0-0"), ("1-2-3", "1-2-3"), ("a", "\u{e9}")] {
        assert_eq!(is_obsolete(&version(a, 0), &version(b, 0)), a < b);
        assert_eq!(is_obsolete(&version(b, 0), &version(a, 0)), b < a);
    }
}

#[test]
fn unmanaged_files_are_never_removed() {
    let current = version("9-9-9", 99999);
    assert!(!should_remove_file("readme_1-1-9-00003.txt", &current));
    assert!(!should_remove_file("libcore_ios_release_1-1-9-00003.a.meta", &current));
    assert!(!should_remove_file("other_ios_release_1-1-9-00003.a", &current));
    assert!(!should_remove_file("libcore.1-1-9-00003.a", &current));
    assert!(!should_remove_file("", &current));
}

#[test]
fn files_without_a_version_are_never_removed() {
    let current = version("9-9-9", 99999);
    assert!(!should_remove_file("core.a", &current));
    assert!(!should_remove_file("libcore_ios_release.a", &current));
    assert!(!should_remove_file("libcore_ios_release_1-1-9-0003.a", &current));
    assert!(!should_remove_file(
        "libcore_ios_release_1-1-9-\u{0661}\u{0662}\u{0663}\u{0664}\u{0665}.a",
        &current
    ));
}

fn tree() -> Vec<OutputEntry> {
    vec![
        file("out", "libcore_ios_release_1-1-9-00003.a"),
        OutputEntry::Directory {
            entries: vec![
                file("out/WebGL", "core.a"),
                file("out/WebGL", "core.1-2-0-00001.a"),
                OutputEntry::Directory { entries: vec![] },
                OutputEntry::Directory {
                    entries: vec![file("out/WebGL/old", "libcore_webgl_debug_1-2-0-00005.so")],
                },
            ],
        },
        file("out", "libcore_android_debug_1-2-0-00006.so"),
        file("out", "libcore_android_debug_1-2-0-00005.so"),
        file("out", "libcore_android_debug_1-2-0-00005.so.meta"),
    ]
}

#[test]
fn the_walk_goes_into_directories_in_order() {
    let found = find_old_library_files(&tree(), &version("1-2-0", 15));
    assert_eq!(
        found,
        vec![
            "out/libcore_ios_release_1-1-9-00003.a",
            "out/WebGL/core.1-2-0-00001.a",
            "out/WebGL/old/libcore_webgl_debug_1-2-0-00005.so",
            "out/libcore_android_debug_1-2-0-00005.so",
        ]
    );
}

#[test]
fn the_walk_adds_to_what_was_found_before() {
    let mut found = vec!["earlier".to_string()];
    scan_directory_for_old_files(&tree(), &version("1-2-0", 15), &mut found);
    assert_eq!(found.len(), 5);
    assert_eq!(found[0], "earlier");
    assert_eq!(found[1], "out/libcore_ios_release_1-1-9-00003.a");
    scan_directory_for_old_files(&vec![], &version("1-2-0", 15), &mut found);
    assert_eq!(found.len(), 5);
}

#[test]
fn the_path_is_handed_back_as_it_was_given() {
    let entries = vec![OutputEntry::File {
        path: "C:\\out\\x".to_string(),
        name: "libcore_ios_release_1-1-9-00003.a".to_string(),
    }];
    assert_eq!(find_old_library_files(&entries, &version("1-2-0", 15)), vec!["C:\\out\\x"]);
}

#[test]
fn cleanup_without_an_output_directory_has_nothing_to_do() {
    assert_eq!(cleanup_old_libraries(None, Some(STAMP)), Ok(vec![]));
    assert_eq!(cleanup_old_libraries(None, None), Ok(vec![]));
}

#[test]
fn cleanup_needs_a_current_version() {
    assert_eq!(cleanup_old_libraries(Some(&tree()), None), Err(VersionError::MissingStamp));
    assert_eq!(cleanup_old_libraries(Some(&vec![]), None), Err(VersionError::MissingStamp));
    assert_eq!(
        cleanup_old_libraries(Some(&tree()), Some("class Core {}")),
        Err(VersionError::Unstamped)
    );
}

#[test]
fn cleanup_goes_by_the_stamped_version() {
    let plan = cleanup_old_libraries(Some(&tree()), Some(STAMP)).unwrap();
    assert_eq!(plan, find_old_library_files(&tree(), &version("1-2-0", 15)));
    assert_eq!(plan.len(), 4);
    assert_eq!(cleanup_old_libraries(Some(&vec![]), Some(STAMP)), Ok(vec![]));
}

#[test]
fn the_summary_counts_both_outcomes() {
    assert_eq!(summarize_cleanup(&vec![]), CleanupReport::NothingToClean);
    assert_eq!(
        summarize_cleanup(&vec![true, true, true]),
        CleanupReport::Removed { deleted: 3, failed: 0 }
    );
    assert_eq!(
        summarize_cleanup(&vec![true, false, true, false, false]),
        CleanupReport::Removed { deleted: 2, failed: 3 }
    );
    assert_eq!(summarize_cleanup(&vec![false]), CleanupReport::Removed { deleted: 0, failed: 1 });
}
