use xtask::compile::{compile_command, failure_message, next_build_action, BuildAction};
use xtask::targets::{get_target_configs, TargetConfig};

#[test]
fn native_debug_command() {
    let c = compile_command(&TargetConfig::native(), false);
    assert_eq!(c.program, "cargo");
    assert_eq!(c.args, vec!["rustc", "--package", "core", "--crate-type", "cdylib"]);
    assert_eq!(c.rustflags, None);
}

#[test]
fn native_release_command() {
    let c = compile_command(&TargetConfig::native(), true);
    assert_eq!(c.args, vec!["rustc", "--package", "core", "--release", "--crate-type", "cdylib"]);
    assert_eq!(c.rustflags, None);
}

#[test]
fn webgl_release_command() {
    let c = compile_command(&TargetConfig::webgl(), true);
    assert_eq!(c.program, "cargo");
    assert_eq!(
        c.args,
        vec![
            "rustc",
            "--package",
            "core",
            "-Z",
            "build-std=panic_abort,std",
            "--release",
            "--target",
            "wasm32-unknown-unknown",
            "--crate-type",
            "staticlib",
        ]
    );
    assert_eq!(c.rustflags, Some("-C target-cpu=mvp".to_string()));
}

#[test]
fn ios_debug_command() {
    let c = compile_command(&TargetConfig::ios(), false);
    assert_eq!(
        c.args,
        vec!["rustc", "--package", "core", "--target", "aarch64-apple-ios", "--crate-type", "staticlib"]
    );
    assert_eq!(c.rustflags, None);
}

#[test]
fn flags_are_joined_by_single_blanks() {
    let t = TargetConfig {
        name: "custom",
        target_triple: None,
        crate_type: "cdylib",
        rustflags: vec!["-C", "opt-level=3", "", "-g"],
        extra_args: vec![],
    };
    assert_eq!(compile_command(&t, false).rustflags, Some("-C opt-level=3  -g".to_string()));
    let one = TargetConfig { rustflags: vec!["-g"], ..t };
    assert_eq!(compile_command(&one, false).rustflags, Some("-g".to_string()));
}

#[test]
fn the_build_goes_through_the_targets_in_order() {
    let targets = get_target_configs("macos");
    let mut statuses: Vec<bool> = vec![];
    for i in 0..4 {
        let action = next_build_action(&targets, true, &statuses);
        assert_eq!(
            action,
            BuildAction::Compile { index: i, command: compile_command(&targets[i], true) }
        );
        statuses.push(true);
    }
    assert_eq!(next_build_action(&targets, true, &statuses), BuildAction::Succeed);
}

#[test]
fn a_failure_of_the_second_target_stops_the_build() {
    let targets = get_target_configs("macos");
    let targets = vec![targets[0].clone(), targets[1].clone(), targets[2].clone()];
    let mut statuses: Vec<bool> = vec![];
    let mut compiled: Vec<usize> = vec![];
    // The exit statuses that the compiler would give: the second target fails.
    let outcome = [true, false, true];
    let failed = loop {
        match next_build_action(&targets, false, &statuses) {
            BuildAction::Compile { index, .. } => {
                compiled.push(index);
                statuses.push(outcome[index]);
            }
            BuildAction::Succeed => break None,
            BuildAction::Fail { index, target } => break Some((index, target)),
        }
    };
    assert_eq!(compiled, vec![0, 1]);
    assert_eq!(failed, Some((1, "webgl".to_string())));
    assert_eq!(failure_message("webgl"), "Failed to build webgl target");
}

#[test]
fn after_a_failure_the_build_stays_failed() {
    let targets = get_target_configs("macos");
    let failed = BuildAction::Fail { index: 1, target: "webgl".to_string() };
    assert_eq!(next_build_action(&targets, false, &vec![true, false]), failed);
    assert_eq!(next_build_action(&targets, false, &vec![true, false, true]), failed);
    assert_eq!(next_build_action(&targets, false, &vec![true, false, false, true]), failed);
    assert_eq!(next_build_action(&targets, false, &vec![true, false, true, true, true]), failed);
}

#[test]
fn the_first_failure_is_reported() {
    let targets = get_target_configs("macos");
    assert_eq!(
        next_build_action(&targets, false, &vec![false, false]),
        BuildAction::Fail { index: 0, target: "native".to_string() }
    );
    assert_eq!(
        next_build_action(&targets, false, &vec![true, true, true, false]),
        BuildAction::Fail { index: 3, target: "macos_universal".to_string() }
    );
}

#[test]
fn statuses_beyond_the_targets_count_for_nothing() {
    let targets = get_target_configs("linux");
    assert_eq!(next_build_action(&targets, false, &vec![true, true, false]), BuildAction::Succeed);
    assert_eq!(next_build_action(&targets, false, &vec![true, true, true]), BuildAction::Succeed);
}

#[test]
fn a_build_of_no_targets_succeeds() {
    assert_eq!(next_build_action(&vec![], true, &vec![]), BuildAction::Succeed);
    assert_eq!(next_build_action(&vec![], true, &vec![false]), BuildAction::Succeed);
}

#[test]
fn failure_message_names_the_target() {
    assert_eq!(failure_message("ios"), "Failed to build ios target");
    assert_eq!(failure_message(""), "Failed to build  target");
}
