//! What keeps a checkout in order: the bundled skills, the checkpoint that is forgotten and
//! the history that is rewound.
use crate::cli::{BackendKind, Cli};
use crate::effect::{effects0, effects2, effects3, push_effect, Effect, EffectView};
use crate::failure::{fail_with, failed, Failure};
use crate::git::git_command;
use crate::numeral::{decimal, decimal_text};
use crate::process::{shell_quote, shell_quoted, CommandSpec};
use crate::text::{
    cat2, cat3, cat4, cat5, equal, lowered, seen_all, str_option, text_option, to_lower, trim,
    trimmed,
};
use crate::workflow::{short, short_hash};
use vstd::prelude::*;
use vstd::string::*;

verus! {

/// What became of a bundled skill.
#[derive(Debug, Clone, Copy, PartialEq, Eq, Structural)]
pub enum SkillInstallAction {
    Installed,
    Updated,
    WouldInstall,
    WouldUpdate,
}

impl SkillInstallAction {
    pub open spec fn name(self) -> Seq<char> {
        match self {
            SkillInstallAction::Installed => "Installed"@,
            SkillInstallAction::Updated => "Updated"@,
            SkillInstallAction::WouldInstall => "Would install"@,
            SkillInstallAction::WouldUpdate => "Would update"@,
        }
    }

    pub fn title(self) -> (r: &'static str)
        ensures
            r@ == self.name(),
    {
        match self {
            SkillInstallAction::Installed => "Installed",
            SkillInstallAction::Updated => "Updated",
            SkillInstallAction::WouldInstall => "Would install",
            SkillInstallAction::WouldUpdate => "Would update",
        }
    }
}

/// A bundled skill that was not as it should be.
#[derive(Debug, Clone)]
pub struct InstalledSkill {
    pub name: String,
    pub action: SkillInstallAction,
}

/// What is said of one skill.
pub open spec fn skill_line(s: InstalledSkill) -> EffectView {
    EffectView::Info(
        s.action.name() + " bundled agent skill `"@ + s.name@ + "` in target repository"@,
    )
}

/// What is said of skills, and of the guidance for Codex where that changed.
pub open spec fn skill_lines(list: Seq<InstalledSkill>, guidance: bool, dry_run: bool) -> Seq<
    EffectView,
> {
    let lines = list.map_values(|s: InstalledSkill| skill_line(s));
    if guidance {
        lines.push(
            EffectView::Info(
                if dry_run {
                    "Would add the opsx-build managed guidance to AGENTS.md for Codex"@
                } else {
                    "Added the opsx-build managed guidance to AGENTS.md for Codex"@
                },
            ),
        )
    } else {
        lines
    }
}

/// Whether a run has an agent that reads the guidance for Codex.
pub fn uses_codex(cli: &Cli) -> (r: bool)
    ensures
        r == (cli.worker_connection.backend == BackendKind::Codex
            || cli.frontier_connection.backend == BackendKind::Codex),
{
    cli.worker_connection.backend == BackendKind::Codex || cli.frontier_connection.backend
        == BackendKind::Codex
}

/// What is said of the skills, one by one.
pub fn synchronize_skills(changes: &Vec<InstalledSkill>, guidance: bool, dry_run: bool) -> (r: Vec<
    Effect,
>)
    ensures
        seen_all(r@) == skill_lines(changes@, guidance, dry_run),
{
    let mut list = effects0();
    let ghost all = changes@.map_values(|s: InstalledSkill| skill_line(s));
    let mut i: usize = 0;
    assert(seen_all(list@) =~= all.take(0));
    while i < changes.len()
        invariant
            i <= changes@.len(),
            all == changes@.map_values(|s: InstalledSkill| skill_line(s)),
            seen_all(list@) == all.take(i as int),
        decreases changes@.len() - i,
    {
        push_effect(
            &mut list,
            Effect::Info(
                cat4(
                    changes[i].action.title(),
                    " bundled agent skill `",
                    changes[i].name.as_str(),
                    "` in target repository",
                ),
            ),
        );
        assert(seen_all(list@) =~= all.take(i + 1));
        i += 1;
    }
    assert(all.take(i as int) =~= all);
    if guidance {
        let line = if dry_run {
            "Would add the opsx-build managed guidance to AGENTS.md for Codex"
        } else {
            "Added the opsx-build managed guidance to AGENTS.md for Codex"
        };
        push_effect(&mut list, Effect::Info(line.to_owned()));
    }
    list
}

/// What is said when the skills were brought up to date, where `changed` files were not.
pub open spec fn skills_result(changed: nat, dry_run: bool) -> Seq<char> {
    if dry_run {
        "DRY RUN — "@ + decimal(changed) + " bundled skill file(s) would change"@
    } else if changed == 0 {
        "Bundled unattended skills are already current"@
    } else {
        "Updated "@ + decimal(changed) + " bundled unattended skill file(s)"@
    }
}

pub fn skills_summary(changed: u64, dry_run: bool) -> (r: String)
    ensures
        r@ == skills_result(changed as nat, dry_run),
{
    let number = decimal_text(changed);
    if dry_run {
        cat3("DRY RUN — ", number.as_str(), " bundled skill file(s) would change")
    } else if changed == 0 {
        "Bundled unattended skills are already current".to_owned()
    } else {
        cat3("Updated ", number.as_str(), " bundled unattended skill file(s)")
    }
}

/// What is said of a checkpoint that was to be forgotten. `removed` says whether there was one.
pub fn forget_effect(dry_run: bool, removed: bool) -> (r: Effect)
    ensures
        r@ == if dry_run {
            EffectView::Warn("DRY RUN — the checkpoint would be forgotten"@)
        } else if removed {
            EffectView::Success(
                "Forgot opsx-build checkpoint; repository files and Git history were untouched"@,
            )
        } else {
            EffectView::Info("No opsx-build checkpoint exists"@)
        },
{
    if dry_run {
        Effect::Warn("DRY RUN — the checkpoint would be forgotten".to_owned())
    } else if removed {
        Effect::Success(
            "Forgot opsx-build checkpoint; repository files and Git history were untouched".to_owned(),
        )
    } else {
        Effect::Info("No opsx-build checkpoint exists".to_owned())
    }
}

/// The revision that a run is asked to go back to.
pub fn rewind_revision(cli: &Cli) -> (r: Result<String, Failure>)
    ensures
        match text_option(cli.rewind_target) {
            Some(revision) => r matches Ok(s) && s@ == revision,
            None => failed(r, "rewind target was not resolved"@),
        },
{
    match &cli.rewind_target {
        Some(revision) => Ok(revision.as_str().to_owned()),
        None => fail_with("rewind target was not resolved"),
    }
}

pub const REWIND_WARNING: &'static str =
    "Rewind discards tracked working-tree changes and moves the current branch; untracked files are preserved";

/// What is said before history is rewound.
pub fn rewind_notice(revision: &str, target: &str) -> (r: Vec<Effect>)
    ensures
        seen_all(r@) == seq![
            EffectView::Info(
                "Rewind target `"@ + revision@ + "` resolves to "@ + short(target@),
            ),
            EffectView::Warn(REWIND_WARNING@),
        ],
{
    let hash = short_hash(target);
    effects2(
        Effect::Info(cat4("Rewind target `", revision, "` resolves to ", hash.as_str())),
        Effect::Warn(REWIND_WARNING.to_owned()),
    )
}

/// What a dry run shows in place of rewinding.
pub fn rewind_dry_run(target: &str) -> (r: Vec<Effect>)
    ensures
        seen_all(r@) == seq![
            EffectView::Warn("DRY RUN — Git and opsx-build metadata will not be changed"@),
            EffectView::Info("Would run: git reset --hard "@ + short(target@)),
            EffectView::Info("Would forget the current opsx-build workflow checkpoint"@),
        ],
{
    let hash = short_hash(target);
    effects3(
        Effect::Warn("DRY RUN — Git and opsx-build metadata will not be changed".to_owned()),
        Effect::Info(cat2("Would run: git reset --hard ", hash.as_str())),
        Effect::Info("Would forget the current opsx-build workflow checkpoint".to_owned()),
    )
}

/// What the user is asked before history is rewound.
pub fn rewind_prompt(revision: &str, target: &str) -> (r: String)
    ensures
        r@ == "Rewind this repository to `"@ + revision@ + "` ("@ + short(target@) + ")? [y/N] "@,
{
    let hash = short_hash(target);
    cat5("Rewind this repository to `", revision, "` (", hash.as_str(), ")? [y/N] ")
}

/// Whether an answer agrees.
pub open spec fn agreement(response: Seq<char>) -> bool {
    lowered(trimmed(response)) == "y"@ || lowered(trimmed(response)) == "yes"@
}

pub fn agrees(response: &str) -> (r: bool)
    ensures
        r == agreement(response@),
{
    let bare = trim(response);
    let word = to_lower(bare.as_str());
    equal(word.as_str(), "y") || equal(word.as_str(), "yes")
}

/// What a rewind does next.
#[derive(Debug, Clone, Copy, PartialEq, Eq, Structural)]
pub enum RewindStep {
    /// Say what would be done, and change nothing.
    Preview,
    /// Ask the user.
    Ask,
    /// Change nothing: the user did not agree.
    Cancel,
    /// Reset the repository.
    Reset,
}

/// What a rewind does, given the user's answer once there is one. The repository is reset
/// only outside a dry run, and only with the user's agreement.
pub fn rewind_step(dry_run: bool, yes: bool, terminal: bool, answer: Option<&str>) -> (r: Result<
    RewindStep,
    Failure,
>)
    ensures
        if dry_run {
            r == Ok::<_, Failure>(RewindStep::Preview)
        } else if yes {
            r == Ok::<_, Failure>(RewindStep::Reset)
        } else if !terminal {
            failed(r, "rewind requires confirmation on a terminal; rerun with --yes"@)
        } else {
            r == Ok::<_, Failure>(
                match answer {
                    None => RewindStep::Ask,
                    Some(response) => if agreement(response@) {
                        RewindStep::Reset
                    } else {
                        RewindStep::Cancel
                    },
                },
            )
        },
        r == Ok::<_, Failure>(RewindStep::Reset) <==> !dry_run && (yes || (terminal && (
        answer matches Some(response) && agreement(response@)))),
{
    if dry_run {
        return Ok(RewindStep::Preview);
    }
    if yes {
        return Ok(RewindStep::Reset);
    }
    if !terminal {
        return fail_with("rewind requires confirmation on a terminal; rerun with --yes");
    }
    match answer {
        None => Ok(RewindStep::Ask),
        Some(response) => if agrees(response) {
            Ok(RewindStep::Reset)
        } else {
            Ok(RewindStep::Cancel)
        },
    }
}

/// The command that rewinds history.
pub fn hard_reset(repo: &str, target: &str) -> (r: CommandSpec)
    ensures
        r@ == git_command(repo@, seq!["reset"@, "--hard"@, target@]),
{
    let r = CommandSpec::new("git", repo).arg("reset").arg("--hard").arg(target);
    assert(r@.args =~= seq!["reset"@, "--hard"@, target@]);
    r
}

/// What is said once history was rewound.
pub open spec fn rewound(
    repo: Seq<char>,
    revision: Seq<char>,
    target: Seq<char>,
    previous: Option<Seq<char>>,
    untracked: nat,
) -> Seq<EffectView> {
    let done = seq![
        EffectView::Success(
            "Rewound tracked repository state to `"@ + revision + "` ("@ + short(target) + ")"@,
        ),
    ];
    let left = if previous is Some && previous->0 != target {
        done.push(
            EffectView::Info(
                "Previous HEAD was "@ + short(previous->0)
                    + "; it remains recoverable through Git's reflog"@,
            ),
        )
    } else {
        done
    };
    let kept = if untracked > 0 {
        left.push(
            EffectView::Warn(
                "Preserved "@ + decimal(untracked)
                    + " untracked path(s); inspect them before restarting"@,
            ),
        )
    } else {
        left
    };
    kept.push(
        EffectView::Info(
            "Restart with: opsx-build --repo "@ + shell_quoted(repo) + " --loop advance"@,
        ),
    )
}

pub fn rewind_effects(
    repo: &str,
    revision: &str,
    target: &str,
    previous: Option<&str>,
    untracked: u64,
) -> (r: Vec<Effect>)
    ensures
        seen_all(r@) == rewound(
            repo@,
            revision@,
            target@,
            str_option(previous),
            untracked as nat,
        ),
{
    let hash = short_hash(target);
    let mut list = effects0();
    push_effect(
        &mut list,
        Effect::Success(
            cat5("Rewound tracked repository state to `", revision, "` (", hash.as_str(), ")"),
        ),
    );
    if let Some(head) = previous {
        if !equal(head, target) {
            let old_hash = short_hash(head);
            push_effect(
                &mut list,
                Effect::Info(
                    cat3(
                        "Previous HEAD was ",
                        old_hash.as_str(),
                        "; it remains recoverable through Git's reflog",
                    ),
                ),
            );
        }
    }
    if untracked > 0 {
        let number = decimal_text(untracked);
        push_effect(
            &mut list,
            Effect::Warn(
                cat3(
                    "Preserved ",
                    number.as_str(),
                    " untracked path(s); inspect them before restarting",
                ),
            ),
        );
    }
    let place = shell_quote(repo);
    push_effect(
        &mut list,
        Effect::Info(cat3("Restart with: opsx-build --repo ", place.as_str(), " --loop advance")),
    );
    assert(seen_all(list@) =~= rewound(
        repo@,
        revision@,
        target@,
        str_option(previous),
        untracked as nat,
    ));
    list
}

/// An empty answer does not agree to rewinding history.
pub proof fn law_silence_does_not_agree(response: Seq<char>)
    requires
        trimmed(response).len() == 0,
    ensures
        lowered(trimmed(response)) != "y"@ && lowered(trimmed(response)) != "yes"@,
{
    reveal_strlit("y");
    reveal_strlit("yes");
    assert(lowered(trimmed(response)).len() == 0);
}

/// An answer agrees where it is a yes, in any letters and with white space around it.
pub proof fn law_a_yes_agrees(before: Seq<char>, word: Seq<char>, after: Seq<char>)
    requires
        crate::text_laws::blank(before),
        crate::text_laws::blank(after),
    ensures
        word.len() == 1 && (word[0] == 'y' || word[0] == 'Y') ==> agreement(before + word + after),
        word.len() == 3 && (word[0] == 'y' || word[0] == 'Y') && (word[1] == 'e' || word[1] == 'E')
            && (word[2] == 's' || word[2] == 'S') ==> agreement(before + word + after),
        word.len() > 0 && !crate::text::space(word[0]) && !crate::text::space(word.last())
            && agreement(before + word + after) ==> (word.len() == 1 || word.len() == 3) && (word[0]
            == 'y' || word[0] == 'Y'),
        !agreement(before),
{
    reveal_strlit("y");
    reveal_strlit("yes");
    crate::text_laws::law_trimming_takes_off_white_space(before, word, after);
    assert(lowered(Seq::<char>::empty()).len() == 0);
    if word.len() > 0 {
        assert(lowered(word).len() == word.len());
        crate::text_laws::law_lowering_keeps_places(word, 0);
        if word.len() == 3 {
            crate::text_laws::law_lowering_keeps_places(word, 1);
            crate::text_laws::law_lowering_keeps_places(word, 2);
            crate::text_laws::law_what_is_white_space(word[2]);
            if (word[0] == 'y' || word[0] == 'Y') && (word[1] == 'e' || word[1] == 'E') && (word[2]
                == 's' || word[2] == 'S') {
                assert(lowered(word) =~= "yes"@);
            }
        }
        crate::text_laws::law_what_is_white_space(word[0]);
        if word.len() == 1 && (word[0] == 'y' || word[0] == 'Y') {
            assert(lowered(word) =~= "y"@);
        }
    }
}

/// Every skill that was not as it should be is told of, in order, by its name. The guidance
/// is told of last, where it changed.
pub proof fn law_every_skill_is_told_of(
    list: Seq<InstalledSkill>,
    guidance: bool,
    dry_run: bool,
    i: int,
)
    ensures
        skill_lines(list, guidance, dry_run).len() == list.len() + (if guidance {
            1int
        } else {
            0
        }),
        0 <= i < list.len() ==> (skill_lines(list, guidance, dry_run)[i] matches EffectView::Info(
            t,
        ) && (list[i].name@ + "` in target repository"@).is_suffix_of(t) && (match list[i].action {
            SkillInstallAction::Installed => "Installed"@,
            SkillInstallAction::Updated => "Updated"@,
            SkillInstallAction::WouldInstall => "Would install"@,
            SkillInstallAction::WouldUpdate => "Would update"@,
        }).is_prefix_of(t)),
        guidance && dry_run ==> skill_lines(list, guidance, dry_run).last() == EffectView::Info(
            "Would add the opsx-build managed guidance to AGENTS.md for Codex"@,
        ),
        guidance && !dry_run ==> skill_lines(list, guidance, dry_run).last() == EffectView::Info(
            "Added the opsx-build managed guidance to AGENTS.md for Codex"@,
        ),
{
    if 0 <= i < list.len() {
        let a = list[i].action.name();
        let tail = list[i].name@ + "` in target repository"@;
        let t = a + " bundled agent skill `"@ + list[i].name@ + "` in target repository"@;
        assert(t.subrange(0, a.len() as int) =~= a);
        assert(t.subrange(t.len() - tail.len(), t.len() as int) =~= tail);
        assert(skill_lines(list, guidance, dry_run)[i] == skill_line(list[i]));
    }
}

/// What is said of the skills as a whole gives how many files changed, and a dry run never
/// says that any did.
pub proof fn law_skill_counts_are_said(changed: nat)
    ensures
        skills_result(0, false) == "Bundled unattended skills are already current"@,
        changed > 0 ==> skills_result(changed, false) == "Updated "@ + decimal(changed)
            + " bundled unattended skill file(s)"@,
        skills_result(changed, true) == "DRY RUN — "@ + decimal(changed)
            + " bundled skill file(s) would change"@,
{
}

/// What is said once history was rewound: the target first, how to start again in the
/// repository last, and in between the head that was left, where it was another one, and the
/// paths that were kept, where there are any.
pub proof fn law_rewinding_tells_what_is_left(
    repo: Seq<char>,
    revision: Seq<char>,
    target: Seq<char>,
    previous: Option<Seq<char>>,
    untracked: nat,
)
    ensures
        ({
            let r = rewound(repo, revision, target, previous, untracked);
            let moved = previous is Some && previous->0 != target;
            &&& r.len() == 2 + (if moved {
                1int
            } else {
                0
            }) + (if untracked > 0 {
                1int
            } else {
                0
            })
            &&& r[0] == EffectView::Success(
                "Rewound tracked repository state to `"@ + revision + "` ("@ + short(target)
                    + ")"@,
            )
            &&& r.last() == EffectView::Info(
                "Restart with: opsx-build --repo "@ + shell_quoted(repo) + " --loop advance"@,
            )
            &&& moved ==> r[1] == EffectView::Info(
                "Previous HEAD was "@ + short(previous->0)
                    + "; it remains recoverable through Git's reflog"@,
            )
            &&& untracked > 0 ==> r[r.len() - 2] == EffectView::Warn(
                "Preserved "@ + decimal(untracked)
                    + " untracked path(s); inspect them before restarting"@,
            )
        }),
{
}

} // verus!
