//! The Git commands behind baselines and rollbacks, and what their outputs mean.
use crate::failure::{fail, fail_with, failed, Failure};
use crate::path::{join_path, joined_path, safe_relative, safe_relative_path};
use crate::process::{bare_command, CommandSpec, CommandView, ProcessOutput};
use crate::text::{
    ascending, seen_all, lemma_seen_all_push, cat2, cat3, cat5, copy_all, copy_option, equal, holds,
    pieces, push_text, sort, split, starts, starts_with, text_option, texts, trim, trimmed,
    str_option,
};
use vstd::prelude::*;
use vstd::string::*;

verus! {

/// The state of a repository before a slice is begun.
#[derive(Debug, Clone, PartialEq, Eq)]
pub struct SliceBaseline {
    pub head: String,
    pub tracked_stash: Option<String>,
    pub untracked: Vec<String>,
    pub status: String,
    pub snapshot_id: String,
}

/// What a [`SliceBaseline`] holds.
pub struct BaselineView {
    pub head: Seq<char>,
    pub tracked_stash: Option<Seq<char>>,
    pub untracked: Seq<Seq<char>>,
    pub status: Seq<char>,
    pub snapshot_id: Seq<char>,
}

impl View for SliceBaseline {
    type V = BaselineView;

    open spec fn view(&self) -> BaselineView {
        BaselineView {
            head: self.head@,
            tracked_stash: text_option(self.tracked_stash),
            untracked: texts(self.untracked@),
            status: self.status@,
            snapshot_id: self.snapshot_id@,
        }
    }
}

impl SliceBaseline {
    pub fn copy(&self) -> (r: SliceBaseline)
        ensures
            r@ == self@,
    {
        SliceBaseline {
            head: self.head.clone(),
            tracked_stash: copy_option(&self.tracked_stash),
            untracked: copy_all(&self.untracked),
            status: self.status.clone(),
            snapshot_id: self.snapshot_id.clone(),
        }
    }
}

/// `git` with the given arguments, run in `repo`.
pub open spec fn git_command(repo: Seq<char>, args: Seq<Seq<char>>) -> CommandView {
    CommandView { args, ..bare_command("git"@, repo) }
}

pub fn repository_root_command(repo: &str) -> (r: CommandSpec)
    ensures
        r@ == git_command(repo@, seq!["rev-parse"@, "--show-toplevel"@]),
{
    let r = CommandSpec::new("git", repo).arg("rev-parse").arg("--show-toplevel");
    assert(r@.args =~= seq!["rev-parse"@, "--show-toplevel"@]);
    r
}

/// The root of a repository, as Git reports it.
pub fn repository_root(output: &ProcessOutput) -> (r: String)
    ensures
        r@ == trimmed(output.stdout@),
{
    trim(output.stdout.as_str())
}

pub fn current_head_command(repo: &str) -> (r: CommandSpec)
    ensures
        r@ == git_command(repo@, seq!["rev-parse"@, "--verify"@, "HEAD"@]),
{
    let r = CommandSpec::new("git", repo).arg("rev-parse").arg("--verify").arg("HEAD");
    assert(r@.args =~= seq!["rev-parse"@, "--verify"@, "HEAD"@]);
    r
}

/// The commit that is checked out. A repository without commits has none.
pub fn current_head(output: &ProcessOutput) -> (r: Option<String>)
    ensures
        text_option(r) == (if output.success {
            Some(trimmed(output.stdout@))
        } else {
            None
        }),
{
    if !output.success {
        return None;
    }
    Some(trim(output.stdout.as_str()))
}

pub fn untracked_paths_command(repo: &str) -> (r: CommandSpec)
    ensures
        r@ == git_command(
            repo@,
            seq!["ls-files"@, "--others"@, "--exclude-standard"@, "-z"@],
        ),
{
    let r = CommandSpec::new("git", repo).arg("ls-files").arg("--others").arg(
        "--exclude-standard",
    ).arg("-z");
    assert(r@.args =~= seq!["ls-files"@, "--others"@, "--exclude-standard"@, "-z"@]);
    r
}

/// The entries of a list in which each ends with a NUL character.
pub open spec fn entries(output: Seq<char>) -> Seq<Seq<char>> {
    pieces(output, '\0').filter(|path: Seq<char>| path.len() > 0)
}

fn list_entries(output: &str) -> (r: Vec<String>)
    ensures
        texts(r@) == entries(output@),
{
    let all = split(output, '\0');
    let mut out: Vec<String> = Vec::new();
    let mut i: usize = 0;
    let ghost pred = |path: Seq<char>| path.len() > 0;
    let ghost t = texts(all@);
    proof {
        reveal(Seq::filter);
    }
    assert(texts(out@) =~= t.take(0).filter(pred));
    while i < all.len()
        invariant
            i <= all@.len(),
            t == texts(all@),
            pred == (|path: Seq<char>| path.len() > 0),
            texts(out@) == t.take(i as int).filter(pred),
        decreases all@.len() - i,
    {
        proof {
            reveal(Seq::filter);
            assert(t.take(i + 1).drop_last() =~= t.take(i as int));
            assert(t.take(i + 1).last() == all@[i as int]@);
        }
        if all[i].as_str().unicode_len() > 0 {
            push_text(&mut out, all[i].as_str());
        }
        i += 1;
    }
    assert(t.take(i as int) =~= t);
    out
}

/// The untracked paths, in ascending order.
pub fn untracked_paths(output: &ProcessOutput) -> (r: Vec<String>)
    ensures
        ascending(texts(r@)),
        texts(r@).to_multiset() == entries(output.stdout@).to_multiset(),
{
    let found = list_entries(output.stdout.as_str());
    sort(&found)
}

pub fn repository_status_command(repo: &str) -> (r: CommandSpec)
    ensures
        r@ == git_command(repo@, seq!["status"@, "--porcelain=v1"@, "-z"@]),
{
    let r = CommandSpec::new("git", repo).arg("status").arg("--porcelain=v1").arg("-z");
    assert(r@.args =~= seq!["status"@, "--porcelain=v1"@, "-z"@]);
    r
}

/// The status of a repository, as Git reports it.
pub fn repository_status(output: &ProcessOutput) -> (r: String)
    ensures
        r@ == output.stdout@,
{
    output.stdout.clone()
}

pub fn committed_paths_command(repo: &str, baseline: &str) -> (r: CommandSpec)
    ensures
        r@ == git_command(
            repo@,
            seq!["diff"@, "--name-only"@, "-z"@, baseline@ + "..HEAD"@, "--"@],
        ),
{
    let range = cat2(baseline, "..HEAD");
    let r = CommandSpec::new("git", repo).arg("diff").arg("--name-only").arg("-z").arg(
        range.as_str(),
    ).arg("--");
    assert(r@.args =~= seq!["diff"@, "--name-only"@, "-z"@, baseline@ + "..HEAD"@, "--"@]);
    r
}

/// The paths that were committed since a baseline, as Git lists them.
pub fn committed_paths_since(output: &ProcessOutput) -> (r: Vec<String>)
    ensures
        texts(r@) == entries(output.stdout@),
{
    list_entries(output.stdout.as_str())
}

pub fn ancestry_command(repo: &str, baseline: &str) -> (r: CommandSpec)
    ensures
        r@ == git_command(repo@, seq!["merge-base"@, "--is-ancestor"@, baseline@, "HEAD"@]),
{
    let r = CommandSpec::new("git", repo).arg("merge-base").arg("--is-ancestor").arg(baseline).arg(
        "HEAD",
    );
    assert(r@.args =~= seq!["merge-base"@, "--is-ancestor"@, baseline@, "HEAD"@]);
    r
}

/// Whether the commit that is checked out descends from the baseline.
pub fn head_descends_from(output: &ProcessOutput) -> (r: Result<bool, Failure>)
    ensures
        match output.code {
            Some(0) => r == Ok::<bool, Failure>(true),
            Some(1) => r == Ok::<bool, Failure>(false),
            _ => failed(
                r,
                "could not determine whether the frontier commit descends from the baseline"@,
            ),
        },
{
    match output.code {
        Some(0) => Ok(true),
        Some(1) => Ok(false),
        _ => fail_with(
            "could not determine whether the frontier commit descends from the baseline",
        ),
    }
}

/// The arguments that compare the work tree, or the index, with a reference, some
/// paths left out.
pub open spec fn diff_args(
    reference: Seq<char>,
    cached: bool,
    excluded_prefix: Option<Seq<char>>,
) -> Seq<Seq<char>> {
    let head = if cached {
        seq!["diff"@, "--cached"@, "--quiet"@, reference, "--"@]
    } else {
        seq!["diff"@, "--quiet"@, reference, "--"@]
    };
    match excluded_prefix {
        Some(prefix) => head + seq!["."@, ":(exclude)"@ + prefix + "**"@],
        None => head,
    }
}

pub fn diff_command(
    repo: &str,
    reference: &str,
    cached: bool,
    excluded_prefix: Option<&str>,
) -> (r: CommandSpec)
    ensures
        r@ == git_command(repo@, diff_args(reference@, cached, str_option(excluded_prefix))),
{
    let mut r = CommandSpec::new("git", repo).arg("diff");
    if cached {
        r = r.arg("--cached");
    }
    r = r.arg("--quiet").arg(reference).arg("--");
    if let Some(prefix) = excluded_prefix {
        r = r.arg(".").arg(cat3(":(exclude)", prefix, "**").as_str());
    }
    assert(r@.args =~= diff_args(reference@, cached, str_option(excluded_prefix)));
    r
}

/// Whether a comparison with the baseline found no difference.
pub fn diff_matches(output: &ProcessOutput) -> (r: Result<bool, Failure>)
    ensures
        match output.code {
            Some(0) => r == Ok::<bool, Failure>(true),
            Some(1) => r == Ok::<bool, Failure>(false),
            _ => failed(
                r,
                "could not compare the current repository with its pre-Propose baseline"@,
            ),
        },
{
    match output.code {
        Some(0) => Ok(true),
        Some(1) => Ok(false),
        _ => fail_with("could not compare the current repository with its pre-Propose baseline"),
    }
}

/// What the work tree is compared with: the stash of the baseline, or its commit.
pub open spec fn worktree_reference(b: BaselineView) -> Seq<char> {
    match b.tracked_stash {
        Some(stash) => stash,
        None => b.head,
    }
}

/// What the index is compared with: the stashed index, or the commit.
pub open spec fn index_reference(b: BaselineView) -> Seq<char> {
    match b.tracked_stash {
        Some(stash) => stash + "^2"@,
        None => b.head,
    }
}

/// The two comparisons with a baseline: of the work tree, then of the index.
pub fn baseline_diffs(repo: &str, baseline: &SliceBaseline, excluded_prefix: Option<&str>) -> (r: (
    CommandSpec,
    CommandSpec,
))
    ensures
        r.0@ == git_command(
            repo@,
            diff_args(worktree_reference(baseline@), false, str_option(excluded_prefix)),
        ),
        r.1@ == git_command(
            repo@,
            diff_args(index_reference(baseline@), true, str_option(excluded_prefix)),
        ),
{
    match &baseline.tracked_stash {
        Some(stash) => {
            let index = cat2(stash.as_str(), "^2");
            (
                diff_command(repo, stash.as_str(), false, excluded_prefix),
                diff_command(repo, index.as_str(), true, excluded_prefix),
            )
        },
        None => (
            diff_command(repo, baseline.head.as_str(), false, excluded_prefix),
            diff_command(repo, baseline.head.as_str(), true, excluded_prefix),
        ),
    }
}

/// The paths outside an excluded prefix.
pub open spec fn outside(paths: Seq<Seq<char>>, excluded_prefix: Option<Seq<char>>) -> Seq<
    Seq<char>,
> {
    match excluded_prefix {
        Some(prefix) => paths.filter(|path: Seq<char>| !starts(path, prefix)),
        None => paths,
    }
}

fn keep_outside(paths: &Vec<String>, excluded_prefix: Option<&str>) -> (r: Vec<String>)
    ensures
        texts(r@) == outside(texts(paths@), str_option(excluded_prefix)),
{
    let prefix = match excluded_prefix {
        None => return copy_all(paths),
        Some(prefix) => prefix,
    };
    let mut out: Vec<String> = Vec::new();
    let mut i: usize = 0;
    let ghost pred = |path: Seq<char>| !starts(path, prefix@);
    let ghost t = texts(paths@);
    proof {
        reveal(Seq::filter);
    }
    assert(texts(out@) =~= t.take(0).filter(pred));
    while i < paths.len()
        invariant
            i <= paths@.len(),
            t == texts(paths@),
            pred == (|path: Seq<char>| !starts(path, prefix@)),
            texts(out@) == t.take(i as int).filter(pred),
        decreases paths@.len() - i,
    {
        proof {
            reveal(Seq::filter);
            assert(t.take(i + 1).drop_last() =~= t.take(i as int));
            assert(t.take(i + 1).last() == paths@[i as int]@);
        }
        if !starts_with(paths[i].as_str(), prefix) {
            push_text(&mut out, paths[i].as_str());
        }
        i += 1;
    }
    assert(t.take(i as int) =~= t);
    out
}

/// What is known of a repository when it is compared with a baseline.
pub enum Comparison {
    /// It differs.
    Differs,
    /// The files at these paths are still to be compared, one after the other.
    Files(Vec<String>),
}

/// Decides the comparison of a repository with a baseline, as far as it does not
/// depend on what untracked files hold. `worktree` and `index` say whether the two
/// comparisons found no difference; the untracked paths outside the excluded prefix
/// have to be those of the baseline.
pub fn baseline_matches_except(
    baseline: &SliceBaseline,
    worktree: bool,
    index: bool,
    current_untracked: &Vec<String>,
    excluded_prefix: Option<&str>,
) -> (r: Comparison)
    ensures
        ({
            let expected = outside(baseline@.untracked, str_option(excluded_prefix));
            let current = outside(texts(current_untracked@), str_option(excluded_prefix));
            match r {
                Comparison::Differs => !worktree || !index || expected != current,
                Comparison::Files(paths) => worktree && index && expected == current && texts(paths@)
                    == expected,
            }
        }),
{
    if !worktree || !index {
        return Comparison::Differs;
    }
    let expected = keep_outside(&baseline.untracked, excluded_prefix);
    let current = keep_outside(current_untracked, excluded_prefix);
    if same_texts(&expected, &current) {
        Comparison::Files(expected)
    } else {
        Comparison::Differs
    }
}

/// Whether two lists hold the same texts in the same order.
pub fn same_texts(a: &Vec<String>, b: &Vec<String>) -> (r: bool)
    ensures
        r == (texts(a@) == texts(b@)),
{
    if a.len() != b.len() {
        assert(texts(a@).len() != texts(b@).len());
        return false;
    }
    let mut i: usize = 0;
    while i < a.len()
        invariant
            i <= a@.len(),
            a@.len() == b@.len(),
            forall|k: int| 0 <= k < i ==> texts(a@)[k] == texts(b@)[k],
        decreases a@.len() - i,
    {
        if !equal(a[i].as_str(), b[i].as_str()) {
            assert(texts(a@)[i as int] != texts(b@)[i as int]);
            return false;
        }
        i += 1;
    }
    assert(texts(a@) =~= texts(b@));
    true
}

pub const BASELINE_REFS: &'static str = "refs/opsx-build/baselines/";

pub const RECOVERY_REFS: &'static str = "refs/opsx-build/recovery/";

pub fn stash_command(repo: &str) -> (r: CommandSpec)
    ensures
        r@ == git_command(
            repo@,
            seq!["stash"@, "create"@, "opsx-build pre-Propose rollback baseline"@],
        ),
{
    let r = CommandSpec::new("git", repo).arg("stash").arg("create").arg(
        "opsx-build pre-Propose rollback baseline",
    );
    assert(r@.args =~= seq!["stash"@, "create"@, "opsx-build pre-Propose rollback baseline"@]);
    r
}

/// The stash of the tracked edits. Where there were none, Git reports nothing.
pub open spec fn stash_of(output: Seq<char>) -> Option<Seq<char>> {
    if trimmed(output).len() > 0 {
        Some(trimmed(output))
    } else {
        None
    }
}

pub fn tracked_stash(output: &ProcessOutput) -> (r: Option<String>)
    ensures
        text_option(r) == stash_of(output.stdout@),
{
    let stash = trim(output.stdout.as_str());
    if stash.as_str().unicode_len() > 0 {
        Some(stash)
    } else {
        None
    }
}

/// Keeps the stash of a baseline reachable.
pub fn keep_stash_command(repo: &str, snapshot_id: &str, stash: &str) -> (r: CommandSpec)
    ensures
        r@ == git_command(repo@, seq!["update-ref"@, BASELINE_REFS@ + snapshot_id@, stash@]),
{
    let reference = cat2(BASELINE_REFS, snapshot_id);
    let r = CommandSpec::new("git", repo).arg("update-ref").arg(reference.as_str()).arg(stash);
    assert(r@.args =~= seq!["update-ref"@, BASELINE_REFS@ + snapshot_id@, stash@]);
    r
}

/// The baseline of a repository, given what Git reports of it. Without a commit there
/// is none.
pub fn capture_slice_baseline(
    head: Option<String>,
    stash: &ProcessOutput,
    untracked: Vec<String>,
    status: String,
    snapshot_id: String,
) -> (r: Result<SliceBaseline, Failure>)
    ensures
        match (head, r) {
            (Some(head), Ok(b)) => b@ == (BaselineView {
                head: head@,
                tracked_stash: stash_of(stash.stdout@),
                untracked: texts(untracked@),
                status: status@,
                snapshot_id: snapshot_id@,
            }),
            (None, Err(e)) => e.message@ == "cannot record a pre-Propose baseline without HEAD"@,
            _ => false,
        },
{
    match head {
        None => fail_with("cannot record a pre-Propose baseline without HEAD"),
        Some(head) => Ok(
            SliceBaseline { head, tracked_stash: tracked_stash(stash), untracked, status, snapshot_id },
        ),
    }
}

/// Lets go of the stash of a baseline, where it has one.
pub fn release_slice_baseline(repo: &str, baseline: &SliceBaseline) -> (r: Option<CommandSpec>)
    ensures
        match r {
            Some(c) => baseline@.tracked_stash is Some && c@ == git_command(
                repo@,
                seq!["update-ref"@, "-d"@, BASELINE_REFS@ + baseline@.snapshot_id],
            ),
            None => baseline@.tracked_stash is None,
        },
{
    if baseline.tracked_stash.is_some() {
        let reference = cat2(BASELINE_REFS, baseline.snapshot_id.as_str());
        let r = CommandSpec::new("git", repo).arg("update-ref").arg("-d").arg(reference.as_str());
        assert(r@.args =~= seq![
            "update-ref"@,
            "-d"@,
            BASELINE_REFS@ + baseline@.snapshot_id,
        ]);
        Some(r)
    } else {
        None
    }
}

/// What a rollback left for later inspection.
#[derive(Debug, Clone, PartialEq, Eq)]
pub struct RollbackReport {
    pub recovery_ref: Option<String>,
    pub diagnostic_path: String,
}

pub fn failed_status_command(repo: &str) -> (r: CommandSpec)
    ensures
        r@ == git_command(repo@, seq!["status"@, "--short"@]),
{
    let r = CommandSpec::new("git", repo).arg("status").arg("--short");
    assert(r@.args =~= seq!["status"@, "--short"@]);
    r
}

pub fn failed_diff_command(repo: &str, baseline_head: &str) -> (r: CommandSpec)
    ensures
        r@ == git_command(repo@, seq!["diff"@, "--binary"@, baseline_head@, "--"@]),
{
    let r = CommandSpec::new("git", repo).arg("diff").arg("--binary").arg(baseline_head).arg("--");
    assert(r@.args =~= seq!["diff"@, "--binary"@, baseline_head@, "--"@]);
    r
}

/// What is kept of a failed attempt.
pub fn rollback_diagnostic(baseline_head: &str, status: &str, diff: &str) -> (r: String)
    ensures
        r@ == "baseline: "@ + baseline_head@ + "\n\nstatus:\n"@ + status@ + "\n\ndiff:\n"@ + diff@,
{
    cat5("baseline: ", baseline_head, "\n\nstatus:\n", status, "\n\ndiff:\n").concat(diff)
}

/// The reference that keeps the commits of a failed attempt, where it made any.
pub fn recovery_reference(head: Option<&str>, baseline_head: &str, recovery_id: &str) -> (r: Option<
    String,
>)
    ensures
        text_option(r) == (match head {
            Some(h) if h@ != baseline_head@ => Some(RECOVERY_REFS@ + recovery_id@),
            _ => None,
        }),
{
    match head {
        Some(h) => {
            if equal(h, baseline_head) {
                None
            } else {
                Some(cat2(RECOVERY_REFS, recovery_id))
            }
        },
        None => None,
    }
}

pub fn keep_commits_command(repo: &str, reference: &str, head: &str) -> (r: CommandSpec)
    ensures
        r@ == git_command(repo@, seq!["update-ref"@, reference@, head@]),
{
    let r = CommandSpec::new("git", repo).arg("update-ref").arg(reference).arg(head);
    assert(r@.args =~= seq!["update-ref"@, reference@, head@]);
    r
}

/// One step of a rollback.
pub enum RollbackAction {
    /// Run the command.
    Run(CommandSpec),
    /// Put the file at this path back as the baseline has it.
    Restore(String),
    /// Stop with this message.
    Refuse(String),
}

pub enum RollbackView {
    Run(CommandView),
    Restore(Seq<char>),
    Refuse(Seq<char>),
}

impl View for RollbackAction {
    type V = RollbackView;

    open spec fn view(&self) -> RollbackView {
        match *self {
            RollbackAction::Run(c) => RollbackView::Run(c@),
            RollbackAction::Restore(p) => RollbackView::Restore(p@),
            RollbackAction::Refuse(m) => RollbackView::Refuse(m@),
        }
    }
}

/// The untracked paths that appeared since the baseline.
pub open spec fn created(current: Seq<Seq<char>>, baseline: Seq<Seq<char>>) -> Seq<Seq<char>> {
    current.filter(|path: Seq<char>| !baseline.contains(path))
}

pub open spec fn unsafe_path_message(path: Seq<char>) -> Seq<char> {
    "Git returned unsafe repository-relative path `"@ + path + "`"@
}

/// The first path from `from` on that does not stay below the repository.
pub open spec fn first_unsafe(paths: Seq<Seq<char>>, from: int) -> Option<int>
    decreases paths.len() - from,
{
    if from < 0 || from >= paths.len() {
        None
    } else if !safe_relative(paths[from]) {
        Some(from)
    } else {
        first_unsafe(paths, from + 1)
    }
}

/// The steps that put untracked files back, up to the first path that must not be
/// written.
pub open spec fn restores(paths: Seq<Seq<char>>, n: int) -> Seq<RollbackView>
    decreases n,
{
    if n <= 0 {
        Seq::empty()
    } else {
        restores(paths, n - 1).push(RollbackView::Restore(paths[n - 1]))
    }
}

/// The steps of a rollback: the commit of the baseline, then without what appeared
/// since, then the untracked files, then the tracked edits.
pub open spec fn rollback_plan(repo: Seq<char>, b: BaselineView, current: Seq<Seq<char>>) -> Seq<
    RollbackView,
> {
    let fresh = created(current, b.untracked);
    let reset = seq![RollbackView::Run(git_command(repo, seq!["reset"@, "--hard"@, b.head]))];
    let clean = if fresh.len() > 0 {
        seq![RollbackView::Run(git_command(repo, seq!["clean"@, "-f"@, "--"@] + fresh))]
    } else {
        Seq::empty()
    };
    match first_unsafe(b.untracked, 0) {
        Some(i) => reset + clean + restores(b.untracked, i) + seq![
            RollbackView::Refuse(unsafe_path_message(b.untracked[i])),
        ],
        None => {
            let files = restores(b.untracked, b.untracked.len() as int);
            let edits = match b.tracked_stash {
                Some(stash) => seq![
                    RollbackView::Run(
                        git_command(repo, seq!["stash"@, "apply"@, "--index"@, stash]),
                    ),
                ],
                None => Seq::empty(),
            };
            reset + clean + files + edits
        },
    }
}

fn created_paths(current: &Vec<String>, baseline: &Vec<String>) -> (r: Vec<String>)
    ensures
        texts(r@) == created(texts(current@), texts(baseline@)),
{
    let mut out: Vec<String> = Vec::new();
    let mut i: usize = 0;
    let ghost t = texts(current@);
    let ghost known = texts(baseline@);
    let ghost pred = |path: Seq<char>| !known.contains(path);
    proof {
        reveal(Seq::filter);
    }
    assert(texts(out@) =~= t.take(0).filter(pred));
    while i < current.len()
        invariant
            i <= current@.len(),
            t == texts(current@),
            known == texts(baseline@),
            pred == (|path: Seq<char>| !known.contains(path)),
            texts(out@) == t.take(i as int).filter(pred),
        decreases current@.len() - i,
    {
        proof {
            reveal(Seq::filter);
            assert(t.take(i + 1).drop_last() =~= t.take(i as int));
            assert(t.take(i + 1).last() == current@[i as int]@);
        }
        if !holds(baseline, current[i].as_str()) {
            push_text(&mut out, current[i].as_str());
        }
        i += 1;
    }
    assert(t.take(i as int) =~= t);
    out
}

fn find_unsafe(paths: &Vec<String>) -> (r: Option<usize>)
    ensures
        match r {
            Some(i) => i < paths@.len() && first_unsafe(texts(paths@), 0) == Some(i as int),
            None => first_unsafe(texts(paths@), 0) is None,
        },
{
    let mut i: usize = 0;
    while i < paths.len()
        invariant
            i <= paths@.len(),
            first_unsafe(texts(paths@), 0) == first_unsafe(texts(paths@), i as int),
        decreases paths@.len() - i,
    {
        assert(texts(paths@)[i as int] == paths@[i as int]@);
        if safe_relative_path(paths[i].as_str()).is_err() {
            return Some(i);
        }
        i += 1;
    }
    None
}

/// Plans the way back to a baseline, given the untracked paths there are now. Nothing
/// is planned where one of the paths that would be removed is outside the repository.
pub fn reset_to_slice_baseline(
    repo: &str,
    baseline: &SliceBaseline,
    current_untracked: &Vec<String>,
) -> (r: Result<Vec<RollbackAction>, Failure>)
    ensures
        ({
            let fresh = created(texts(current_untracked@), baseline@.untracked);
            match first_unsafe(fresh, 0) {
                Some(i) => failed(r, unsafe_path_message(fresh[i])),
                None => r matches Ok(plan) && seen_all(plan@) == rollback_plan(
                    repo@,
                    baseline@,
                    texts(current_untracked@),
                ),
            }
        }),
{
    let fresh = created_paths(current_untracked, &baseline.untracked);
    if let Some(i) = find_unsafe(&fresh) {
        assert(texts(fresh@)[i as int] == fresh@[i as int]@);
        return fail(cat3("Git returned unsafe repository-relative path `", fresh[i].as_str(), "`"));
    }
    let mut plan: Vec<RollbackAction> = Vec::new();
    let reset = CommandSpec::new("git", repo).arg("reset").arg("--hard").arg(baseline.head.as_str());
    assert(reset@.args =~= seq!["reset"@, "--hard"@, baseline@.head]);
    let first = RollbackAction::Run(reset);
    proof {
        lemma_seen_all_push(plan@, first);
    }
    plan.push(first);
    let ghost start = seq![RollbackView::Run(reset@)];
    assert(seen_all(plan@) =~= start);
    if fresh.len() > 0 {
        let clean = CommandSpec::new("git", repo).arg("clean").arg("-f").arg("--").args(&fresh);
        assert(clean@.args =~= seq!["clean"@, "-f"@, "--"@] + texts(fresh@));
        let step = RollbackAction::Run(clean);
        proof {
            lemma_seen_all_push(plan@, step);
            assert(start + seq![step@] =~= start.push(step@));
        }
        plan.push(step);
    } else {
        assert(start + Seq::<RollbackView>::empty() =~= start);
    }
    let ghost head = seen_all(plan@);
    let stop = find_unsafe(&baseline.untracked);
    let count: usize = match stop {
        Some(i) => i,
        None => baseline.untracked.len(),
    };
    let mut i: usize = 0;
    assert(seen_all(plan@) =~= head + restores(baseline@.untracked, 0));
    while i < count
        invariant
            i <= count <= baseline.untracked@.len(),
            seen_all(plan@) == head + restores(baseline@.untracked, i as int),
        decreases count - i,
    {
        let step = RollbackAction::Restore(baseline.untracked[i].clone());
        proof {
            lemma_seen_all_push(plan@, step);
        }
        plan.push(step);
        i += 1;
        assert(seen_all(plan@) =~= head + restores(baseline@.untracked, i as int));
    }
    match stop {
        Some(k) => {
            assert(baseline@.untracked[k as int] == baseline.untracked@[k as int]@);
            let message = cat3(
                "Git returned unsafe repository-relative path `",
                baseline.untracked[k].as_str(),
                "`",
            );
            let step = RollbackAction::Refuse(message);
            proof {
                lemma_seen_all_push(plan@, step);
                assert(seen_all(plan@) + seq![step@] =~= seen_all(plan@).push(step@));
            }
            plan.push(step);
        },
        None => {
            if let Some(stash) = &baseline.tracked_stash {
                let apply = CommandSpec::new("git", repo).arg("stash").arg("apply").arg(
                    "--index",
                ).arg(stash.as_str());
                assert(apply@.args =~= seq!["stash"@, "apply"@, "--index"@, stash@]);
                let step = RollbackAction::Run(apply);
                proof {
                    lemma_seen_all_push(plan@, step);
                    assert(seen_all(plan@) + seq![step@] =~= seen_all(plan@).push(step@));
                }
                plan.push(step);
            } else {
                assert(seen_all(plan@) + Seq::<RollbackView>::empty() =~= seen_all(plan@));
            }
        },
    }
    Ok(plan)
}

/// A rollback removes no file that was there before: what it cleans is never among the
/// untracked paths of the baseline, and it leaves behind nothing that appeared since.
pub proof fn law_rollback_removes_only_what_appeared(
    current: Seq<Seq<char>>,
    baseline: Seq<Seq<char>>,
    path: Seq<char>,
)
    ensures
        created(current, baseline).contains(path) <==> current.contains(path) && !baseline.contains(
            path,
        ),
{
    let pred = |p: Seq<char>| !baseline.contains(p);
    let fresh = created(current, baseline);
    if fresh.contains(path) {
        current.lemma_filter_contains_rev(pred, path);
        let i = choose|i: int| 0 <= i < fresh.len() && fresh[i] == path;
        current.lemma_filter_pred(pred, i);
    }
    if current.contains(path) && pred(path) {
        let i = choose|i: int| 0 <= i < current.len() && current[i] == path;
        current.lemma_filter_contains(pred, i);
    }
}

/// Accepts a rollback only where the repository shows the state that was recorded.
pub fn check_rollback(
    baseline: &SliceBaseline,
    restored_status: &str,
    unchanged: bool,
    diagnostic_path: &str,
) -> (r: Result<(), Failure>)
    ensures
        if restored_status@ == baseline@.status && unchanged {
            r is Ok
        } else {
            failed(
                r,
                "rollback could not reproduce the pre-Propose Git-visible working-tree state; failed-attempt diagnostics remain at `"@
                    + diagnostic_path@ + "`"@,
            )
        },
{
    if equal(restored_status, baseline.status.as_str()) && unchanged {
        Ok(())
    } else {
        fail(
            cat3(
                "rollback could not reproduce the pre-Propose Git-visible working-tree state; failed-attempt diagnostics remain at `",
                diagnostic_path,
                "`",
            ),
        )
    }
}

pub const METADATA_NAME: &'static str = "opsx-build";

pub const LEGACY_METADATA_NAME: &'static str = "ospx-build";

pub fn metadata_command(repo: &str, name: &str) -> (r: CommandSpec)
    ensures
        r@ == git_command(repo@, seq!["rev-parse"@, "--git-path"@, name@]),
{
    let r = CommandSpec::new("git", repo).arg("rev-parse").arg("--git-path").arg(name);
    assert(r@.args =~= seq!["rev-parse"@, "--git-path"@, name@]);
    r
}

/// Where private metadata is kept, given what Git reports for it.
pub fn metadata_path(repo: &str, output: &ProcessOutput) -> (r: String)
    ensures
        r@ == joined_path(repo@, trimmed(output.stdout@)),
{
    let path = trim(output.stdout.as_str());
    join_path(repo, path.as_str())
}

/// The command that locates the metadata kept under the older name.
pub fn legacy_metadata_dir(repo: &str) -> (r: CommandSpec)
    ensures
        r@ == git_command(repo@, seq!["rev-parse"@, "--git-path"@, LEGACY_METADATA_NAME@]),
{
    metadata_command(repo, LEGACY_METADATA_NAME)
}

/// The entries of a list are read one by one: what stands before a NUL character is an entry
/// where it is not empty, and what follows is read the same way.
pub proof fn law_entries_end_at_nul_characters(path: Seq<char>, rest: Seq<char>)
    requires
        forall|i: int| 0 <= i < path.len() ==> #[trigger] path[i] != '\0',
    ensures
        path.len() > 0 ==> entries(path + seq!['\0'] + rest) == seq![path] + entries(rest),
        path.len() == 0 ==> entries(path + seq!['\0'] + rest) == entries(rest),
        entries(Seq::empty()).len() == 0,
{
    let keep = |p: Seq<char>| p.len() > 0;
    crate::text_laws::law_pieces_end_at_separators(path, '\0', rest);
    let all = pieces(path + seq!['\0'] + rest, '\0');
    assert(all =~= seq![path] + pieces(rest, '\0'));
    Seq::filter_distributes_over_add(seq![path], pieces(rest, '\0'), keep);
    let one = seq![path];
    assert(one.drop_last() =~= Seq::<Seq<char>>::empty());
    reveal(Seq::filter);
    assert(one.drop_last().filter(keep) =~= Seq::<Seq<char>>::empty());
    if path.len() > 0 {
        assert(one.filter(keep) =~= one);
    } else {
        assert(one.filter(keep) =~= Seq::<Seq<char>>::empty());
        assert(one.filter(keep) + pieces(rest, '\0').filter(keep) =~= pieces(rest, '\0').filter(
            keep,
        ));
    }
    let none = Seq::<char>::empty();
    let p = pieces(none, '\0');
    assert(p.filter(keep).len() == 0) by {
        reveal_with_fuel(Seq::filter, 2);
        assert(none.subrange(0, 0) =~= none);
        assert(p =~= seq![none.subrange(0, 0)]);
        assert(p.drop_last() =~= Seq::<Seq<char>>::empty());
    }
}

/// Of paths, those below an excluded prefix are left out and no others.
pub proof fn law_only_the_excluded_is_left_out(
    paths: Seq<Seq<char>>,
    prefix: Seq<char>,
    path: Seq<char>,
)
    ensures
        outside(paths, None) == paths,
        outside(paths, Some(prefix)).contains(path) <==> paths.contains(path)
            && !prefix.is_prefix_of(path),
{
    let keep = |p: Seq<char>| !starts(p, prefix);
    crate::agenda::lemma_filter_member(paths, keep, path);
    if prefix.len() <= path.len() {
        assert(path.subrange(0, prefix.len() as int) == prefix <==> prefix.is_prefix_of(path));
    }
}

/// A comparison names what it compares with, and takes the index where that is asked for.
pub proof fn law_comparisons_name_their_reference(
    repo: Seq<char>,
    reference: Seq<char>,
    cached: bool,
    prefix: Seq<char>,
    b: BaselineView,
)
    ensures
        diff_args(reference, true, None) == seq!["diff"@, "--cached"@, "--quiet"@, reference, "--"@],
        diff_args(reference, false, None) == seq!["diff"@, "--quiet"@, reference, "--"@],
        diff_args(reference, cached, Some(prefix)) == diff_args(reference, cached, None) + seq![
            "."@,
            ":(exclude)"@ + prefix + "**"@,
        ],
        b.tracked_stash is None ==> worktree_reference(b) == b.head && index_reference(b) == b.head,
        b.tracked_stash matches Some(s) ==> worktree_reference(b) == s && index_reference(b) == s
            + "^2"@,
        git_command(repo, diff_args(reference, cached, None)).program == "git"@,
        git_command(repo, diff_args(reference, cached, None)).cwd == repo,
{
}

/// The first path that leaves the repository is found: those before it stay below it.
pub proof fn law_the_first_unsafe_path_is_found(paths: Seq<Seq<char>>, from: int)
    requires
        0 <= from <= paths.len(),
    ensures
        first_unsafe(paths, from) matches Some(i) ==> {
            &&& from <= i < paths.len()
            &&& !safe_relative(paths[i])
            &&& forall|k: int| from <= k < i ==> safe_relative(#[trigger] paths[k])
        },
        first_unsafe(paths, from) is None ==> forall|k: int|
            from <= k < paths.len() ==> safe_relative(#[trigger] paths[k]),
    decreases paths.len() - from,
{
    if from < paths.len() && safe_relative(paths[from]) {
        law_the_first_unsafe_path_is_found(paths, from + 1);
    }
}

/// A stash is what Git reports of it without the white space around it, and no report is no
/// stash.
pub proof fn law_stashes_are_what_is_reported(before: Seq<char>, id: Seq<char>, after: Seq<char>)
    requires
        crate::text_laws::blank(before),
        crate::text_laws::blank(after),
    ensures
        id.len() > 0 && !crate::text::space(id[0]) && !crate::text::space(id.last()) ==> stash_of(
            before + id + after,
        ) == Some(id),
        stash_of(before) is None,
{
    crate::text_laws::law_trimming_takes_off_white_space(before, id, after);
}

} // verus!
