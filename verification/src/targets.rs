use crate::text::same_str;
use vstd::prelude::*;

verus! {

/// One build target: what the compiler is asked to produce, and how.
#[derive(Debug, Clone)]
pub struct TargetConfig {
    /// The target's name, unique among the targets of one host.
    pub name: &'static str,
    /// The platform triple; `None` stands for the host's own platform.
    pub target_triple: Option<&'static str>,
    /// The shape of the artifact: `cdylib` or `staticlib`.
    pub crate_type: &'static str,
    /// Flags handed to the compiler through its environment, in order.
    pub rustflags: Vec<&'static str>,
    /// More arguments for the build tool, in order.
    pub extra_args: Vec<&'static str>,
}

/// A target as plain values.
pub struct TargetConfigView {
    pub name: Seq<char>,
    pub target_triple: Option<Seq<char>>,
    pub crate_type: Seq<char>,
    pub rustflags: Seq<Seq<char>>,
    pub extra_args: Seq<Seq<char>>,
}

impl View for TargetConfig {
    type V = TargetConfigView;

    open spec fn view(&self) -> TargetConfigView {
        TargetConfigView {
            name: self.name@,
            target_triple: match self.target_triple {
                Some(t) => Some(t@),
                None => None,
            },
            crate_type: self.crate_type@,
            rustflags: self.rustflags@.map_values(|f: &'static str| f@),
            extra_args: self.extra_args@.map_values(|a: &'static str| a@),
        }
    }
}

/// The host's own target: a dynamic library for the default platform.
pub open spec fn native_target() -> TargetConfigView {
    TargetConfigView {
        name: "native"@,
        target_triple: None,
        crate_type: "cdylib"@,
        rustflags: Seq::empty(),
        extra_args: Seq::empty(),
    }
}

/// The web target: a static library for WebAssembly, with the standard
/// library rebuilt.
pub open spec fn webgl_target() -> TargetConfigView {
    TargetConfigView {
        name: "webgl"@,
        target_triple: Some("wasm32-unknown-unknown"@),
        crate_type: "staticlib"@,
        rustflags: seq!["-C"@, "target-cpu=mvp"@],
        extra_args: seq!["-Z"@, "build-std=panic_abort,std"@],
    }
}

/// The mobile target: a static library for one fixed architecture.
pub open spec fn ios_target() -> TargetConfigView {
    TargetConfigView {
        name: "ios"@,
        target_triple: Some("aarch64-apple-ios"@),
        crate_type: "staticlib"@,
        rustflags: Seq::empty(),
        extra_args: Seq::empty(),
    }
}

/// The universal desktop target: a dynamic library for both architectures.
pub open spec fn macos_universal_target() -> TargetConfigView {
    TargetConfigView {
        name: "macos_universal"@,
        target_triple: Some("universal-apple-darwin"@),
        crate_type: "cdylib"@,
        rustflags: Seq::empty(),
        extra_args: Seq::empty(),
    }
}

impl Default for TargetConfig {
    fn default() -> (r: Self)
        ensures
            r@ == native_target(),
    {
        let r = TargetConfig {
            name: "native",
            target_triple: None,
            crate_type: "cdylib",
            rustflags: Vec::new(),
            extra_args: Vec::new(),
        };
        assert(r@.rustflags =~= Seq::empty());
        assert(r@.extra_args =~= Seq::empty());
        r
    }
}

impl TargetConfig {
    pub fn native() -> (r: Self)
        ensures
            r@ == native_target(),
    {
        Self::default()
    }

    pub fn webgl() -> (r: Self)
        ensures
            r@ == webgl_target(),
    {
        let mut rustflags: Vec<&'static str> = Vec::new();
        rustflags.push("-C");
        rustflags.push("target-cpu=mvp");
        let mut extra_args: Vec<&'static str> = Vec::new();
        extra_args.push("-Z");
        extra_args.push("build-std=panic_abort,std");
        let r = TargetConfig {
            name: "webgl",
            target_triple: Some("wasm32-unknown-unknown"),
            crate_type: "staticlib",
            rustflags,
            extra_args,
        };
        assert(r@.rustflags =~= webgl_target().rustflags);
        assert(r@.extra_args =~= webgl_target().extra_args);
        r
    }

    pub fn ios() -> (r: Self)
        ensures
            r@ == ios_target(),
    {
        let r = TargetConfig {
            name: "ios",
            target_triple: Some("aarch64-apple-ios"),
            crate_type: "staticlib",
            rustflags: Vec::new(),
            extra_args: Vec::new(),
        };
        assert(r@.rustflags =~= Seq::empty());
        assert(r@.extra_args =~= Seq::empty());
        r
    }

    pub fn macos_universal() -> (r: Self)
        ensures
            r@ == macos_universal_target(),
    {
        let r = TargetConfig {
            name: "macos_universal",
            target_triple: Some("universal-apple-darwin"),
            crate_type: "cdylib",
            rustflags: Vec::new(),
            extra_args: Vec::new(),
        };
        assert(r@.rustflags =~= Seq::empty());
        assert(r@.extra_args =~= Seq::empty());
        r
    }
}

/// The targets that a host can build, in build order: the host's own and
/// the web target everywhere, the two Apple targets on a macOS host only.
pub open spec fn target_configs(host_os: Seq<char>) -> Seq<TargetConfigView> {
    if host_os == "macos"@ {
        seq![native_target(), webgl_target(), ios_target(), macos_universal_target()]
    } else {
        seq![native_target(), webgl_target()]
    }
}

/// The targets of a list, each as plain values.
pub open spec fn views_of(targets: Seq<TargetConfig>) -> Seq<TargetConfigView> {
    targets.map_values(|t: TargetConfig| t@)
}

/// Lists the targets for a host, given the name of its operating system as
/// `std::env::consts::OS` spells it.
pub fn get_target_configs(host_os: &str) -> (configs: Vec<TargetConfig>)
    ensures
        views_of(configs@) == target_configs(host_os@),
{
    let mut configs: Vec<TargetConfig> = Vec::new();
    configs.push(TargetConfig::native());
    configs.push(TargetConfig::webgl());
    if same_str(host_os, "macos") {
        configs.push(TargetConfig::ios());
        configs.push(TargetConfig::macos_universal());
    }
    assert(views_of(configs@) =~= target_configs(host_os@));
    configs
}

/// No two targets of one host share a name.
pub proof fn lemma_target_names_unique(host_os: Seq<char>, i: int, j: int)
    requires
        0 <= i < j < target_configs(host_os).len(),
    ensures
        target_configs(host_os)[i].name != target_configs(host_os)[j].name,
{
    reveal_strlit("native");
    reveal_strlit("webgl");
    reveal_strlit("ios");
    reveal_strlit("macos_universal");
    let names = seq!["native"@, "webgl"@, "ios"@, "macos_universal"@];
    assert(target_configs(host_os)[i].name == names[i]);
    assert(target_configs(host_os)[j].name == names[j]);
    assert(names[i].len() != names[j].len());
}

} // verus!
