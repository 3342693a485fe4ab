//! What a rollback leaves of a checkout, going by what Git's manual says of the commands in
//! its plan.
use crate::git::{
    created, first_unsafe, git_command, law_rollback_removes_only_what_appeared, restores,
    rollback_plan, unsafe_path_message, BaselineView, RollbackView,
};
use crate::process::CommandView;
use vstd::prelude::*;
use vstd::string::*;

verus! {

/// Whose edits the tracked files of a checkout hold.
pub enum Edits {
    /// None: they are as the commit has them.
    Clean,
    /// Those that were put aside under this name.
    Stashed(Seq<char>),
    /// Others.
    Other,
}

/// What is known of a checkout: its commit, its untracked paths, those of them that are as
/// they were when the baseline was recorded, and the edits of its tracked files.
#[verifier::ext_equal]
pub struct Checkout {
    pub head: Seq<char>,
    pub untracked: Set<Seq<char>>,
    pub saved: Set<Seq<char>>,
    pub edits: Edits,
}

/// Whether a command has arguments that begin with `words`.
pub open spec fn begins(c: CommandView, words: Seq<Seq<char>>) -> bool {
    words.is_prefix_of(c.args)
}

/// A checkout after a command: `reset --hard` moves the commit and drops the edits, `clean`
/// removes the paths it is given, and `stash apply` puts edits back.
pub open spec fn after_command(c: Checkout, command: CommandView) -> Checkout {
    if begins(command, seq!["reset"@, "--hard"@]) {
        Checkout { head: command.args[2], edits: Edits::Clean, ..c }
    } else if begins(command, seq!["clean"@, "-f"@, "--"@]) {
        let gone = command.args.skip(3).to_set();
        Checkout {
            untracked: c.untracked.difference(gone),
            saved: c.saved.difference(gone),
            ..c
        }
    } else if begins(command, seq!["stash"@, "apply"@, "--index"@]) {
        Checkout { edits: Edits::Stashed(command.args[3]), ..c }
    } else {
        c
    }
}

/// A checkout after a step of a rollback.
pub open spec fn after_step(c: Checkout, step: RollbackView) -> Checkout {
    match step {
        RollbackView::Run(command) => after_command(c, command),
        RollbackView::Restore(path) => Checkout {
            untracked: c.untracked.insert(path),
            saved: c.saved.insert(path),
            ..c
        },
        RollbackView::Refuse(_) => c,
    }
}

/// A checkout after the steps of a rollback.
pub open spec fn after_steps(c: Checkout, plan: Seq<RollbackView>) -> Checkout
    decreases plan.len(),
{
    if plan.len() == 0 {
        c
    } else {
        after_step(after_steps(c, plan.drop_last()), plan.last())
    }
}

proof fn lemma_steps_added(c: Checkout, a: Seq<RollbackView>, b: Seq<RollbackView>)
    ensures
        after_steps(c, a + b) == after_steps(after_steps(c, a), b),
    decreases b.len(),
{
    if b.len() == 0 {
        assert(a + b =~= a);
    } else {
        assert((a + b).drop_last() =~= a + b.drop_last());
        assert((a + b).last() == b.last());
        lemma_steps_added(c, a, b.drop_last());
    }
}

proof fn lemma_one_step(c: Checkout, step: RollbackView)
    ensures
        after_steps(c, seq![step]) == after_step(c, step),
{
    let one = seq![step];
    assert(one.drop_last() =~= Seq::empty());
    reveal_with_fuel(after_steps, 2);
}

/// The files that are put back stand there as they were saved.
proof fn lemma_restored(c: Checkout, paths: Seq<Seq<char>>, n: int)
    requires
        0 <= n <= paths.len(),
    ensures
        after_steps(c, restores(paths, n)) == (Checkout {
            untracked: c.untracked.union(paths.take(n).to_set()),
            saved: c.saved.union(paths.take(n).to_set()),
            ..c
        }),
    decreases n,
{
    if n == 0 {
        assert(paths.take(0).to_set() =~= Set::empty());
        assert(c.untracked.union(Set::empty()) =~= c.untracked);
        assert(c.saved.union(Set::empty()) =~= c.saved);
    } else {
        lemma_restored(c, paths, n - 1);
        let all = restores(paths, n);
        assert(all.drop_last() =~= restores(paths, n - 1));
        let path = paths[n - 1];
        let less = paths.take(n - 1);
        let more = paths.take(n);
        assert(more =~= less.push(path));
        assert forall|p: Seq<char>| more.to_set().contains(p) == less.to_set().insert(
            path,
        ).contains(p) by {
            if less.contains(p) {
                let i = choose|i: int| 0 <= i < less.len() && less[i] == p;
                assert(more[i] == p);
            }
            if p == path {
                assert(more[n - 1] == p);
            }
            if more.contains(p) && p != path {
                let i = choose|i: int| 0 <= i < more.len() && more[i] == p;
                assert(less[i] == p);
            }
        }
        assert(more.to_set() =~= less.to_set().insert(path));
        assert(c.untracked.union(less.to_set()).insert(path) =~= c.untracked.union(more.to_set()));
        assert(c.saved.union(less.to_set()).insert(path) =~= c.saved.union(more.to_set()));
    }
}

proof fn lemma_reset(c: Checkout, repo: Seq<char>, head: Seq<char>)
    ensures
        after_command(c, git_command(repo, seq!["reset"@, "--hard"@, head])) == (Checkout {
            head,
            edits: Edits::Clean,
            ..c
        }),
{
    let args = seq!["reset"@, "--hard"@, head];
    assert(seq!["reset"@, "--hard"@] =~= args.subrange(0, 2));
}

proof fn lemma_clean(c: Checkout, repo: Seq<char>, paths: Seq<Seq<char>>)
    ensures
        after_command(c, git_command(repo, seq!["clean"@, "-f"@, "--"@] + paths)) == (Checkout {
            untracked: c.untracked.difference(paths.to_set()),
            saved: c.saved.difference(paths.to_set()),
            ..c
        }),
{
    reveal_strlit("reset");
    reveal_strlit("clean");
    let words = seq!["clean"@, "-f"@, "--"@];
    let args = words + paths;
    assert(words =~= args.subrange(0, 3));
    assert(args.skip(3) =~= paths);
    assert("reset"@[0] != "clean"@[0]);
    let other = seq!["reset"@, "--hard"@];
    assert(other[0] != args[0]);
    assert(!other.is_prefix_of(args)) by {
        if other.is_prefix_of(args) {
            assert(other[0] == args.subrange(0, 2)[0]);
        }
    }
}

proof fn lemma_apply(c: Checkout, repo: Seq<char>, stash: Seq<char>)
    ensures
        after_command(c, git_command(repo, seq!["stash"@, "apply"@, "--index"@, stash])) == (
        Checkout { edits: Edits::Stashed(stash), ..c }),
{
    reveal_strlit("reset");
    reveal_strlit("clean");
    reveal_strlit("stash");
    let args = seq!["stash"@, "apply"@, "--index"@, stash];
    assert(seq!["stash"@, "apply"@, "--index"@] =~= args.subrange(0, 3));
    assert("reset"@[0] != "stash"@[0]);
    assert("clean"@[0] != "stash"@[0]);
    let one = seq!["reset"@, "--hard"@];
    let two = seq!["clean"@, "-f"@, "--"@];
    assert(!one.is_prefix_of(args)) by {
        if one.is_prefix_of(args) {
            assert(one[0] == args.subrange(0, 2)[0]);
        }
    }
    assert(!two.is_prefix_of(args)) by {
        if two.is_prefix_of(args) {
            assert(two[0] == args.subrange(0, 3)[0]);
        }
    }
}

/// A rollback leaves the recorded commit, exactly the recorded untracked paths, each as it
/// was recorded, and the recorded edits, if there were any; provided that `current` lists the
/// untracked paths of the checkout and that no recorded path leaves the repository.
pub proof fn law_a_rollback_leaves_the_recorded_state(
    c: Checkout,
    repo: Seq<char>,
    b: BaselineView,
    current: Seq<Seq<char>>,
)
    requires
        c.untracked == current.to_set(),
        c.saved.subset_of(c.untracked),
        first_unsafe(b.untracked, 0) is None,
    ensures
        after_steps(c, rollback_plan(repo, b, current)) == (Checkout {
            head: b.head,
            untracked: b.untracked.to_set(),
            saved: b.untracked.to_set(),
            edits: match b.tracked_stash {
                Some(stash) => Edits::Stashed(stash),
                None => Edits::Clean,
            },
        }),
{
    let fresh = created(current, b.untracked);
    let reset = git_command(repo, seq!["reset"@, "--hard"@, b.head]);
    let wipe = git_command(repo, seq!["clean"@, "-f"@, "--"@] + fresh);
    let first = seq![RollbackView::Run(reset)];
    let clean = if fresh.len() > 0 {
        seq![RollbackView::Run(wipe)]
    } else {
        Seq::empty()
    };
    let files = restores(b.untracked, b.untracked.len() as int);
    let edits = match b.tracked_stash {
        Some(stash) => seq![
            RollbackView::Run(git_command(repo, seq!["stash"@, "apply"@, "--index"@, stash])),
        ],
        None => Seq::empty(),
    };
    let none = Set::<Seq<char>>::empty();
    lemma_steps_added(c, first + clean + files, edits);
    lemma_steps_added(c, first + clean, files);
    lemma_steps_added(c, first, clean);
    lemma_one_step(c, RollbackView::Run(reset));
    lemma_reset(c, repo, b.head);
    let one = after_steps(c, first);
    lemma_one_step(one, RollbackView::Run(wipe));
    lemma_clean(one, repo, fresh);
    let two = after_steps(one, clean);
    assert(two.untracked =~= one.untracked.difference(fresh.to_set()) && two.saved
        =~= one.saved.difference(fresh.to_set())) by {
        if fresh.len() == 0 {
            assert(fresh.to_set() =~= none);
        }
    }
    lemma_restored(two, b.untracked, b.untracked.len() as int);
    assert(b.untracked.take(b.untracked.len() as int) =~= b.untracked);
    let three = after_steps(two, files);
    assert forall|p: Seq<char>| three.untracked.contains(p) == b.untracked.to_set().contains(
        p,
    ) by {
        law_rollback_removes_only_what_appeared(current, b.untracked, p);
    }
    assert(three.untracked =~= b.untracked.to_set());
    assert forall|p: Seq<char>| three.saved.contains(p) == b.untracked.to_set().contains(p) by {
        law_rollback_removes_only_what_appeared(current, b.untracked, p);
    }
    assert(three.saved =~= b.untracked.to_set());
    if let Some(stash) = b.tracked_stash {
        lemma_one_step(three, edits[0]);
        lemma_apply(three, repo, stash);
    }
}

proof fn lemma_restores(paths: Seq<Seq<char>>, n: int)
    requires
        0 <= n <= paths.len(),
    ensures
        restores(paths, n).len() == n,
        forall|k: int|
            0 <= k < n ==> #[trigger] restores(paths, n)[k] == RollbackView::Restore(paths[k]),
    decreases n,
{
    if n > 0 {
        lemma_restores(paths, n - 1);
    }
}

proof fn lemma_unsafe_bounds(paths: Seq<Seq<char>>, from: int)
    requires
        0 <= from,
    ensures
        first_unsafe(paths, from) matches Some(i) ==> from <= i < paths.len(),
    decreases paths.len() - from,
{
    if from < paths.len() {
        lemma_unsafe_bounds(paths, from + 1);
    }
}

/// A rollback whose baseline has a path that leaves the repository stops there: the plan ends
/// with a refusal, and only recorded paths before that one are written.
pub proof fn law_a_rollback_stops_at_an_unsafe_path(
    repo: Seq<char>,
    b: BaselineView,
    current: Seq<Seq<char>>,
    i: int,
)
    requires
        first_unsafe(b.untracked, 0) == Some(i),
    ensures
        ({
            let plan = rollback_plan(repo, b, current);
            &&& plan.last() == RollbackView::Refuse(unsafe_path_message(b.untracked[i]))
            &&& forall|k: int|
                0 <= k < plan.len() ==> (#[trigger] plan[k] matches RollbackView::Restore(path)
                    ==> b.untracked.take(i).contains(path))
        }),
{
    let plan = rollback_plan(repo, b, current);
    let fresh = created(current, b.untracked);
    let lead = if fresh.len() > 0 {
        2int
    } else {
        1int
    };
    lemma_unsafe_bounds(b.untracked, 0);
    lemma_restores(b.untracked, i);
    assert(plan.len() == lead + i + 1);
    assert forall|k: int| 0 <= k < plan.len() implies (#[trigger] plan[k] matches RollbackView::Restore(
        path,
    ) ==> b.untracked.take(i).contains(path)) by {
        if let RollbackView::Restore(path) = plan[k] {
            assert(lead <= k < lead + i);
            assert(plan[k] == restores(b.untracked, i)[k - lead]);
            assert(b.untracked.take(i)[k - lead] == path);
        }
    }
}

} // verus!
