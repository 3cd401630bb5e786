use crate::targets::{views_of, TargetConfig, TargetConfigView};
use crate::text::{append_str, join_with, joined, rows, to_chars, to_text};
use vstd::prelude::*;

verus! {

/// One call of the compiler: the program, its arguments in order, and the
/// value of `RUSTFLAGS` in its environment, if it gets one.
#[derive(Debug, Clone, PartialEq, Eq)]
pub struct CompileCommand {
    pub program: String,
    pub args: Vec<String>,
    pub rustflags: Option<String>,
}

/// A call of the compiler as plain values.
pub struct CompileCommandView {
    pub program: Seq<char>,
    pub args: Seq<Seq<char>>,
    pub rustflags: Option<Seq<char>>,
}

impl View for CompileCommand {
    type V = CompileCommandView;

    open spec fn view(&self) -> CompileCommandView {
        CompileCommandView {
            program: self.program@,
            args: self.args@.map_values(|a: String| a@),
            rustflags: match self.rustflags {
                Some(f) => Some(f@),
                None => None,
            },
        }
    }
}

/// The call that builds a target: the package's `rustc` subcommand, the
/// target's extra arguments, the release switch, the triple where the target
/// names one, and the kind of artifact; the target's compiler flags, with
/// one blank between two of them, go into the environment where there are
/// any.
pub open spec fn command_for(target: TargetConfigView, release: bool) -> CompileCommandView {
    CompileCommandView {
        program: "cargo"@,
        args: seq!["rustc"@, "--package"@, "core"@] + target.extra_args + (if release {
            seq!["--release"@]
        } else {
            Seq::empty()
        }) + (match target.target_triple {
            Some(triple) => seq!["--target"@, triple],
            None => Seq::empty(),
        }) + seq!["--crate-type"@, target.crate_type],
        rustflags: if target.rustflags.len() > 0 {
            Some(joined(target.rustflags, ' '))
        } else {
            None
        },
    }
}

/// Appends each of `words` to `args` as an owned string.
fn push_words(args: &mut Vec<String>, words: &Vec<&'static str>)
    ensures
        final(args)@.map_values(|a: String| a@) == old(args)@.map_values(|a: String| a@)
            + words@.map_values(|w: &'static str| w@),
{
    let mut i: usize = 0;
    assert(words@.take(0) =~= Seq::empty());
    assert(old(args)@.map_values(|a: String| a@) + Seq::<Seq<char>>::empty() =~= old(
        args,
    )@.map_values(|a: String| a@));
    while i < words.len()
        invariant
            i <= words.len(),
            args@.map_values(|a: String| a@) == old(args)@.map_values(|a: String| a@)
                + words@.take(i as int).map_values(|w: &'static str| w@),
        decreases words.len() - i,
    {
        let ghost before = args@.map_values(|a: String| a@);
        args.push(words[i].to_owned());
        assert(args@.map_values(|a: String| a@) =~= before.push(words@[i as int]@));
        assert(words@.take(i + 1).map_values(|w: &'static str| w@) =~= words@.take(
            i as int,
        ).map_values(|w: &'static str| w@).push(words@[i as int]@));
        i += 1;
    }
    assert(words@.take(words.len() as int) =~= words@);
}

/// Appends one word to `args` as an owned string.
fn push_word(args: &mut Vec<String>, word: &str)
    ensures
        final(args)@.map_values(|a: String| a@) == old(args)@.map_values(|a: String| a@).push(
            word@,
        ),
{
    args.push(word.to_owned());
    assert(args@.map_values(|a: String| a@) =~= old(args)@.map_values(|a: String| a@).push(
        word@,
    ));
}

/// The compiler flags of a target as one value for the environment.
fn joined_flags(flags: &Vec<&'static str>) -> (r: String)
    ensures
        r@ == joined(flags@.map_values(|f: &'static str| f@), ' '),
{
    let mut parts: Vec<Vec<char>> = Vec::new();
    let mut i: usize = 0;
    while i < flags.len()
        invariant
            i <= flags.len(),
            rows(parts@) == flags@.take(i as int).map_values(|f: &'static str| f@),
        decreases flags.len() - i,
    {
        let ghost before = rows(parts@);
        let part = to_chars(flags[i]);
        parts.push(part);
        assert(rows(parts@) =~= before.push(flags@[i as int]@));
        assert(flags@.take(i + 1).map_values(|f: &'static str| f@) =~= flags@.take(
            i as int,
        ).map_values(|f: &'static str| f@).push(flags@[i as int]@));
        i += 1;
    }
    assert(flags@.take(flags.len() as int) =~= flags@);
    let out = join_with(&parts, ' ');
    to_text(&out)
}

/// Makes the call of the compiler that builds a target.
pub fn compile_command(target: &TargetConfig, release: bool) -> (r: CompileCommand)
    ensures
        r@ == command_for(target@, release),
{
    let mut args: Vec<String> = Vec::new();
    assert(args@.map_values(|a: String| a@) =~= Seq::empty());
    push_word(&mut args, "rustc");
    push_word(&mut args, "--package");
    push_word(&mut args, "core");
    push_words(&mut args, &target.extra_args);
    if release {
        push_word(&mut args, "--release");
    }
    match target.target_triple {
        Some(triple) => {
            push_word(&mut args, "--target");
            push_word(&mut args, triple);
        },
        None => {},
    }
    push_word(&mut args, "--crate-type");
    push_word(&mut args, target.crate_type);
    let rustflags = if target.rustflags.len() > 0 {
        Some(joined_flags(&target.rustflags))
    } else {
        None
    };
    let r = CompileCommand { program: "cargo".to_owned(), args, rustflags };
    assert(r@.args =~= command_for(target@, release).args);
    r
}

/// What the build does next.
#[derive(Debug, Clone, PartialEq, Eq)]
pub enum BuildAction {
    /// Run this call of the compiler, for the target of this index.
    Compile { index: usize, command: CompileCommand },
    /// Every target is built.
    Succeed,
    /// Give up: the target of this index, of this name, failed to build.
    Fail { index: usize, target: String },
}

/// A step of the build as plain values.
pub enum BuildActionView {
    Compile { index: int, command: CompileCommandView },
    Succeed,
    Fail { index: int, target: Seq<char> },
}

impl View for BuildAction {
    type V = BuildActionView;

    open spec fn view(&self) -> BuildActionView {
        match *self {
            BuildAction::Compile { index, command } => BuildActionView::Compile {
                index: index as int,
                command: command@,
            },
            BuildAction::Succeed => BuildActionView::Succeed,
            BuildAction::Fail { index, target } => BuildActionView::Fail {
                index: index as int,
                target: target@,
            },
        }
    }
}

/// The place of the first failure among the first `limit` exit statuses,
/// or `limit` where none of them is a failure.
pub open spec fn first_failure(statuses: Seq<bool>, limit: int) -> int
    decreases limit,
{
    if limit <= 0 {
        0
    } else {
        let before = first_failure(statuses, limit - 1);
        if before < limit - 1 || !statuses[limit - 1] {
            before
        } else {
            limit
        }
    }
}

/// The first failure is the first: it lies within the limit, it is a
/// failure if it lies before the limit, and every status before it is a
/// success.
pub proof fn lemma_first_failure(statuses: Seq<bool>, limit: int)
    requires
        0 <= limit <= statuses.len(),
    ensures
        0 <= first_failure(statuses, limit) <= limit,
        first_failure(statuses, limit) < limit ==> !statuses[first_failure(statuses, limit)],
        forall|i: int| 0 <= i < first_failure(statuses, limit) ==> statuses[i],
    decreases limit,
{
    if limit > 0 {
        lemma_first_failure(statuses, limit - 1);
    }
}

/// What the build does after the compiler has run for the first targets
/// and left these exit statuses, `true` for a success: it gives up at the
/// first failure, naming the target; without a failure it builds the next
/// target, and succeeds when none is left. Statuses beyond the number of
/// targets count for nothing.
pub open spec fn action_after(targets: Seq<TargetConfigView>, release: bool, statuses: Seq<bool>)
    -> BuildActionView {
    let seen = if statuses.len() <= targets.len() {
        statuses.len() as int
    } else {
        targets.len() as int
    };
    let failed = first_failure(statuses, seen);
    if failed < seen {
        BuildActionView::Fail { index: failed, target: targets[failed].name }
    } else if seen < targets.len() {
        BuildActionView::Compile { index: seen, command: command_for(targets[seen], release) }
    } else {
        BuildActionView::Succeed
    }
}

/// Decides the next step of a build from the exit statuses of the calls
/// made so far, in the order of the targets.
pub fn next_build_action(targets: &Vec<TargetConfig>, release: bool, statuses: &Vec<bool>) -> (r:
    BuildAction)
    ensures
        r@ == action_after(views_of(targets@), release, statuses@),
{
    let seen: usize = if statuses.len() <= targets.len() {
        statuses.len()
    } else {
        targets.len()
    };
    let mut i: usize = 0;
    while i < seen
        invariant
            i <= seen,
            seen == if statuses.len() <= targets.len() {
                statuses.len()
            } else {
                targets.len()
            },
            first_failure(statuses@, i as int) == i,
        decreases seen - i,
    {
        if !statuses[i] {
            proof {
                lemma_failure_stays(statuses@, i as int, seen as int);
                assert(views_of(targets@)[i as int].name == targets@[i as int].name@);
            }
            return BuildAction::Fail { index: i, target: targets[i].name.to_owned() };
        }
        i += 1;
    }
    if seen < targets.len() {
        BuildAction::Compile { index: seen, command: compile_command(&targets[seen], release) }
    } else {
        BuildAction::Succeed
    }
}

/// A failure that is the first among the statuses up to its own place is
/// the first among any more.
pub proof fn lemma_failure_stays(statuses: Seq<bool>, at: int, limit: int)
    requires
        0 <= at < limit <= statuses.len(),
        first_failure(statuses, at) == at,
        !statuses[at],
    ensures
        first_failure(statuses, limit) == at,
    decreases limit,
{
    if limit > at + 1 {
        lemma_failure_stays(statuses, at, limit - 1);
    }
}

/// After a failure the build never calls the compiler again: whatever
/// statuses follow, the step is to give up, for the same target.
pub proof fn lemma_build_stops_at_first_failure(
    targets: Seq<TargetConfigView>,
    release: bool,
    statuses: Seq<bool>,
    more: Seq<bool>,
)
    requires
        action_after(targets, release, statuses) is Fail,
    ensures
        action_after(targets, release, statuses + more) == action_after(targets, release, statuses),
{
    let seen = if statuses.len() <= targets.len() {
        statuses.len() as int
    } else {
        targets.len() as int
    };
    let all = statuses + more;
    let seen_all = if all.len() <= targets.len() {
        all.len() as int
    } else {
        targets.len() as int
    };
    let failed = first_failure(statuses, seen);
    lemma_first_failure(statuses, seen);
    lemma_same_prefix(statuses, all, failed);
    lemma_first_failure_of_prefix(statuses, failed, seen);
    lemma_failure_stays(all, failed, seen_all);
}

/// The first failure depends only on the statuses within the limit.
pub proof fn lemma_same_prefix(a: Seq<bool>, b: Seq<bool>, limit: int)
    requires
        0 <= limit <= a.len(),
        limit <= b.len(),
        forall|i: int| 0 <= i < limit ==> a[i] == b[i],
    ensures
        first_failure(a, limit) == first_failure(b, limit),
    decreases limit,
{
    if limit > 0 {
        lemma_same_prefix(a, b, limit - 1);
    }
}

/// Up to the first failure every status is a success, so the first failure
/// among those is their end.
pub proof fn lemma_first_failure_of_prefix(statuses: Seq<bool>, at: int, limit: int)
    requires
        0 <= at <= limit <= statuses.len(),
        first_failure(statuses, limit) == at,
    ensures
        first_failure(statuses, at) == at,
    decreases limit,
{
    if limit > at {
        lemma_first_failure_of_prefix(statuses, at, limit - 1);
    }
}

/// The sentence that reports a target's failure.
pub open spec fn failure_text(target: Seq<char>) -> Seq<char> {
    "Failed to build "@ + target + " target"@
}

/// Words the report of a target's failure.
pub fn failure_message(target: &str) -> (r: String)
    ensures
        r@ == failure_text(target@),
{
    let mut out: Vec<char> = Vec::new();
    append_str(&mut out, "Failed to build ");
    append_str(&mut out, target);
    append_str(&mut out, " target");
    to_text(&out)
}

} // verus!
