use xtask::publish::{
    artifact_extension, build_mode, build_output_dir, copy_target_artifacts, destination,
    ArtifactCopy, Destination,
};
use xtask::targets::TargetConfig;

#[test]
fn build_modes_are_release_and_debug() {
    assert_eq!(build_mode(true), "release");
    assert_eq!(build_mode(false), "debug");
}

#[test]
fn output_directories_follow_triple_and_mode() {
    assert_eq!(build_output_dir(&TargetConfig::native(), "debug"), "target//debug");
    assert_eq!(build_output_dir(&TargetConfig::native(), "release"), "target//release");
    assert_eq!(
        build_output_dir(&TargetConfig::webgl(), "release"),
        "target/wasm32-unknown-unknown/release"
    );
    assert_eq!(build_output_dir(&TargetConfig::ios(), "debug"), "target/aarch64-apple-ios/debug");
}

#[test]
fn the_library_is_known_by_stem_and_extension() {
    assert_eq!(artifact_extension("libcore.so"), Some("so".to_string()));
    assert_eq!(artifact_extension("libcore.dylib"), Some("dylib".to_string()));
    assert_eq!(artifact_extension("libcore.dll"), Some("dll".to_string()));
    assert_eq!(artifact_extension("libcore.a"), Some("a".to_string()));
    assert_eq!(artifact_extension("core.so"), Some("so".to_string()));
    assert_eq!(artifact_extension("core.dylib"), Some("dylib".to_string()));
    assert_eq!(artifact_extension("core.dll"), Some("dll".to_string()));
    assert_eq!(artifact_extension("core.a"), Some("a".to_string()));
}

#[test]
fn other_files_are_not_published() {
    for name in [
        "", "core", "libcore", "core.", "libcore.", ".so", "a", "core.d", "libcore.rlib",
        "core.wasm", "libcore.so.1", "core.tar.a", "libcore_x.a", "score.a", "xlibcore.so",
        "libcore-1234.a", "core.A", "Core.a", "libcore.d", "core.a ", "deps",
    ] {
        assert_eq!(artifact_extension(name), None, "{name}");
    }
}

#[test]
fn the_web_target_goes_to_its_own_directory_without_a_version() {
    for version in ["1-2-0-00015", "0-1-0-00001", ""] {
        for mode in ["debug", "release"] {
            assert_eq!(
                destination(&TargetConfig::webgl(), version, mode, "a"),
                Destination { directory: Some("WebGL".to_string()), file_name: "core.a".to_string() }
            );
        }
    }
    assert_eq!(destination(&TargetConfig::webgl(), "1-2-0-00015", "debug", "so").file_name, "core.so");
}

#[test]
fn other_targets_go_to_the_root_with_a_versioned_name() {
    assert_eq!(
        destination(&TargetConfig::native(), "1-2-0-00015", "debug", "so"),
        Destination {
            directory: None,
            file_name: "libcore_native_debug_1-2-0-00015.so".to_string()
        }
    );
    assert_eq!(
        destination(&TargetConfig::ios(), "0-1-0-00001", "release", "a"),
        Destination { directory: None, file_name: "libcore_ios_release_0-1-0-00001.a".to_string() }
    );
    assert_eq!(
        destination(&TargetConfig::macos_universal(), "3-0-0-12345", "release", "dylib").file_name,
        "libcore_macos_universal_release_3-0-0-12345.dylib"
    );
}

#[test]
fn published_names_are_managed_artifacts_with_their_version() {
    let d = destination(&TargetConfig::ios(), "1-2-0-00015", "release", "a");
    assert!(xtask::cleanup::is_library_file(&d.file_name));
    let v = xtask::cleanup::extract_version_from_filename(&d.file_name).unwrap().unwrap();
    assert_eq!(v.build_number, 15);
    assert_eq!(v.date_string, "1-2-0");
    let w = destination(&TargetConfig::webgl(), "1-2-0-00015", "release", "a");
    assert!(xtask::cleanup::is_library_file(&w.file_name));
    assert_eq!(xtask::cleanup::extract_version_from_filename(&w.file_name), Ok(None));
}

#[test]
fn copies_are_planned_for_the_library_files_in_order() {
    let names: Vec<String> = ["deps", "libcore.d", "libcore.so", "core.a", "libcore.rlib", "libcore.a"]
        .iter()
        .map(|s| s.to_string())
        .collect();
    let copies = copy_target_artifacts(&names, &TargetConfig::native(), "1-2-0-00015", "debug");
    let to = |name: &str| Destination { directory: None, file_name: name.to_string() };
    assert_eq!(
        copies,
        vec![
            ArtifactCopy {
                source: "libcore.so".to_string(),
                destination: to("libcore_native_debug_1-2-0-00015.so")
            },
            ArtifactCopy {
                source: "core.a".to_string(),
                destination: to("libcore_native_debug_1-2-0-00015.a")
            },
            ArtifactCopy {
                source: "libcore.a".to_string(),
                destination: to("libcore_native_debug_1-2-0-00015.a")
            },
        ]
    );
}

#[test]
fn copies_for_the_web_target_overwrite_the_same_file() {
    let names: Vec<String> = vec!["libcore.a".to_string(), "notes.txt".to_string()];
    let first = copy_target_artifacts(&names, &TargetConfig::webgl(), "1-2-0-00015", "release");
    let second = copy_target_artifacts(&names, &TargetConfig::webgl(), "1-2-0-00016", "release");
    assert_eq!(first.len(), 1);
    assert_eq!(first[0].source, "libcore.a");
    assert_eq!(first[0].destination.directory, Some("WebGL".to_string()));
    assert_eq!(first[0].destination.file_name, "core.a");
    assert_eq!(first, second);
}

#[test]
fn an_empty_build_directory_plans_no_copies() {
    assert_eq!(copy_target_artifacts(&vec![], &TargetConfig::native(), "v", "debug"), vec![]);
    let names = vec!["readme".to_string()];
    assert_eq!(copy_target_artifacts(&names, &TargetConfig::native(), "v", "debug"), vec![]);
}
