use crate::cleanup::is_library_name;
use crate::targets::{TargetConfig, TargetConfigView};
use crate::text::{append_str, same_chars, same_str, starts_with, to_chars, to_text};
use vstd::prelude::*;

verus! {

/// The name of a build mode.
pub open spec fn mode_name(release: bool) -> Seq<char> {
    if release {
        "release"@
    } else {
        "debug"@
    }
}

/// Names the build mode: `release` or `debug`.
pub fn build_mode(release: bool) -> (r: &'static str)
    ensures
        r@ == mode_name(release),
{
    if release {
        "release"
    } else {
        "debug"
    }
}

/// Where the compiler leaves what it built for a target: under `target`,
/// then the triple (nothing for the host's own platform), then the mode.
pub open spec fn output_dir_of(target: TargetConfigView, mode: Seq<char>) -> Seq<char> {
    "target/"@ + (match target.target_triple {
        Some(triple) => triple,
        None => Seq::empty(),
    }) + "/"@ + mode
}

/// Names the directory in which the compiler leaves a target's output.
pub fn build_output_dir(target: &TargetConfig, build_mode: &str) -> (r: String)
    ensures
        r@ == output_dir_of(target@, build_mode@),
{
    let mut out: Vec<char> = Vec::new();
    append_str(&mut out, "target/");
    match target.target_triple {
        Some(triple) => {
            append_str(&mut out, triple);
        },
        None => {
            assert(out@ + Seq::<char>::empty() =~= out@);
        },
    }
    append_str(&mut out, "/");
    append_str(&mut out, build_mode);
    to_text(&out)
}

/// The extensions of native libraries.
pub open spec fn recognized_extension(extension: Seq<char>) -> bool {
    extension == "so"@ || extension == "dylib"@ || extension == "dll"@ || extension == "a"@
}

/// The extension of a file that the compiler built as the library: the
/// file's name is `libcore` or `core`, a dot, and a recognized extension.
/// `None` for any other file.
pub open spec fn artifact_extension_of(name: Seq<char>) -> Option<Seq<char>> {
    if "libcore."@.is_prefix_of(name) && recognized_extension(name.skip("libcore."@.len() as int)) {
        Some(name.skip("libcore."@.len() as int))
    } else if "core."@.is_prefix_of(name) && recognized_extension(name.skip("core."@.len() as int)) {
        Some(name.skip("core."@.len() as int))
    } else {
        None
    }
}

/// A text, or none, as plain values.
pub open spec fn string_view(s: Option<String>) -> Option<Seq<char>> {
    match s {
        Some(t) => Some(t@),
        None => None,
    }
}

/// What follows the first `from` characters.
fn tail_from(s: &Vec<char>, from: usize) -> (r: Vec<char>)
    requires
        from <= s.len(),
    ensures
        r@ == s@.skip(from as int),
{
    let mut out: Vec<char> = Vec::new();
    let mut i: usize = from;
    while i < s.len()
        invariant
            from <= i <= s.len(),
            out@ == s@.subrange(from as int, i as int),
        decreases s.len() - i,
    {
        out.push(s[i]);
        assert(s@.subrange(from as int, i + 1) =~= s@.subrange(from as int, i as int).push(
            s@[i as int],
        ));
        i += 1;
    }
    assert(s@.subrange(from as int, s.len() as int) =~= s@.skip(from as int));
    out
}

/// Whether an extension is that of a native library.
fn is_recognized(extension: &Vec<char>) -> (r: bool)
    ensures
        r == recognized_extension(extension@),
{
    same_chars(extension, &to_chars("so")) || same_chars(extension, &to_chars("dylib"))
        || same_chars(extension, &to_chars("dll")) || same_chars(extension, &to_chars("a"))
}

/// Tells whether a file in a build directory is the library that the
/// compiler built, and hands out its extension if it is.
pub fn artifact_extension(file_name: &str) -> (r: Option<String>)
    ensures
        string_view(r) == artifact_extension_of(file_name@),
{
    let name = to_chars(file_name);
    let long = to_chars("libcore.");
    if starts_with(&name, &long) {
        let extension = tail_from(&name, long.len());
        if is_recognized(&extension) {
            return Some(to_text(&extension));
        }
    }
    let short = to_chars("core.");
    if starts_with(&name, &short) {
        let extension = tail_from(&name, short.len());
        if is_recognized(&extension) {
            return Some(to_text(&extension));
        }
    }
    None
}

/// Where an artifact goes in the output tree: a subdirectory of the root,
/// or the root itself, and the file's name there.
#[derive(Debug, Clone, PartialEq, Eq)]
pub struct Destination {
    pub directory: Option<String>,
    pub file_name: String,
}

/// A destination as plain values.
pub struct DestinationView {
    pub directory: Option<Seq<char>>,
    pub file_name: Seq<char>,
}

impl View for Destination {
    type V = DestinationView;

    open spec fn view(&self) -> DestinationView {
        DestinationView { directory: string_view(self.directory), file_name: self.file_name@ }
    }
}

/// The destination of a target's artifact. The web target's goes into the
/// subdirectory `WebGL` as `core` with its extension, without a version in
/// its name; any other goes into the root as `libcore`, then the target,
/// the mode and the version with underscores between them, and its
/// extension.
pub open spec fn destination_of(
    target: Seq<char>,
    version: Seq<char>,
    mode: Seq<char>,
    extension: Seq<char>,
) -> DestinationView {
    if target == "webgl"@ {
        DestinationView { directory: Some("WebGL"@), file_name: "core."@ + extension }
    } else {
        DestinationView {
            directory: None,
            file_name: "libcore_"@ + target + "_"@ + mode + "_"@ + version + "."@ + extension,
        }
    }
}

/// Names the place of a target's artifact in the output tree.
pub fn destination(target: &TargetConfig, version: &str, build_mode: &str, extension: &str) -> (r:
    Destination)
    ensures
        r@ == destination_of(target.name@, version@, build_mode@, extension@),
        target.name@ == "webgl"@ ==> r@ == (DestinationView {
            directory: Some("WebGL"@),
            file_name: "core."@ + extension@,
        }),
{
    let mut name: Vec<char> = Vec::new();
    if same_str(target.name, "webgl") {
        append_str(&mut name, "core.");
        append_str(&mut name, extension);
        Destination { directory: Some("WebGL".to_owned()), file_name: to_text(&name) }
    } else {
        append_str(&mut name, "libcore_");
        append_str(&mut name, target.name);
        append_str(&mut name, "_");
        append_str(&mut name, build_mode);
        append_str(&mut name, "_");
        append_str(&mut name, version);
        append_str(&mut name, ".");
        append_str(&mut name, extension);
        Destination { directory: None, file_name: to_text(&name) }
    }
}

/// One copy to make: the name of the file in the build directory, and
/// where it goes.
#[derive(Debug, Clone, PartialEq, Eq)]
pub struct ArtifactCopy {
    pub source: String,
    pub destination: Destination,
}

/// A copy as plain values.
pub struct ArtifactCopyView {
    pub source: Seq<char>,
    pub destination: DestinationView,
}

impl View for ArtifactCopy {
    type V = ArtifactCopyView;

    open spec fn view(&self) -> ArtifactCopyView {
        ArtifactCopyView { source: self.source@, destination: self.destination@ }
    }
}

/// The copies to make for the files of a build directory, in their order:
/// one for each file that is the library, none for any other.
pub open spec fn copies_for(
    names: Seq<Seq<char>>,
    target: Seq<char>,
    version: Seq<char>,
    mode: Seq<char>,
) -> Seq<ArtifactCopyView>
    decreases names.len(),
{
    if names.len() == 0 {
        Seq::empty()
    } else {
        let before = copies_for(names.drop_last(), target, version, mode);
        match artifact_extension_of(names.last()) {
            Some(extension) => before.push(
                ArtifactCopyView {
                    source: names.last(),
                    destination: destination_of(target, version, mode, extension),
                },
            ),
            None => before,
        }
    }
}

/// Plans the copies for one target from the names of the files in its
/// build directory.
pub fn copy_target_artifacts(
    file_names: &Vec<String>,
    target: &TargetConfig,
    version: &str,
    build_mode: &str,
) -> (r: Vec<ArtifactCopy>)
    ensures
        r@.map_values(|c: ArtifactCopy| c@) == copies_for(
            file_names@.map_values(|n: String| n@),
            target.name@,
            version@,
            build_mode@,
        ),
{
    let ghost names = file_names@.map_values(|n: String| n@);
    let mut copies: Vec<ArtifactCopy> = Vec::new();
    let mut i: usize = 0;
    assert(names.take(0) =~= Seq::empty());
    assert(copies@.map_values(|c: ArtifactCopy| c@) =~= Seq::empty());
    while i < file_names.len()
        invariant
            i <= file_names.len(),
            names == file_names@.map_values(|n: String| n@),
            copies@.map_values(|c: ArtifactCopy| c@) == copies_for(
                names.take(i as int),
                target.name@,
                version@,
                build_mode@,
            ),
        decreases file_names.len() - i,
    {
        let ghost before = copies@.map_values(|c: ArtifactCopy| c@);
        assert(names.take(i + 1).drop_last() =~= names.take(i as int));
        assert(names.take(i + 1).last() == file_names@[i as int]@);
        match artifact_extension(file_names[i].as_str()) {
            Some(extension) => {
                let copy = ArtifactCopy {
                    source: file_names[i].clone(),
                    destination: destination(target, version, build_mode, extension.as_str()),
                };
                copies.push(copy);
                assert(copies@.map_values(|c: ArtifactCopy| c@) =~= before.push(copy@));
            },
            None => {},
        }
        i += 1;
    }
    assert(names.take(file_names.len() as int) =~= names);
    copies
}

/// What is published is a managed artifact: with a recognized extension,
/// the name at the destination begins like the library and ends in that
/// extension.
pub proof fn lemma_published_names_are_managed(
    target: Seq<char>,
    version: Seq<char>,
    mode: Seq<char>,
    extension: Seq<char>,
)
    requires
        recognized_extension(extension),
    ensures
        is_library_name(destination_of(target, version, mode, extension).file_name),
{
    reveal_strlit("so");
    reveal_strlit("dylib");
    reveal_strlit("dll");
    reveal_strlit("a");
    reveal_strlit(".so");
    reveal_strlit(".dylib");
    reveal_strlit(".dll");
    reveal_strlit(".a");
    reveal_strlit(".");
    reveal_strlit("core.");
    reveal_strlit("libcore_");
    let name = destination_of(target, version, mode, extension).file_name;
    let dotted = "."@ + extension;
    assert(dotted.is_suffix_of(name)) by {
        assert(name.subrange(name.len() - dotted.len(), name.len() as int) =~= dotted);
    }
    if target == "webgl"@ {
        assert("core."@.is_prefix_of(name)) by {
            assert(name.subrange(0, "core."@.len() as int) =~= "core."@);
        }
    } else {
        assert("libcore_"@.is_prefix_of(name)) by {
            assert(name.subrange(0, "libcore_"@.len() as int) =~= "libcore_"@);
        }
    }
    if extension == "so"@ {
        assert(dotted =~= ".so"@);
    } else if extension == "dylib"@ {
        assert(dotted =~= ".dylib"@);
    } else if extension == "dll"@ {
        assert(dotted =~= ".dll"@);
    } else {
        assert(dotted =~= ".a"@);
    }
}

} // verus!
