//! What the agents are told: the text of every prompt of a workflow.
use crate::agenda::{AgendaAssignment, AssignmentView};
use crate::backend::StageProtocol;
use crate::names::{Harness, HarnessView};
use crate::numeral::{decimal, decimal_text};
use crate::state::{RunState, RunStateView, TooLargeOutcome, TooLargeView};
use crate::text::{contains_text, occurs_at, str_option, trim, trimmed};
use vstd::prelude::*;
use vstd::string::*;

verus! {

pub const BOOTSTRAP_CHANGE: &'static str = "bootstrap-implementation-slices";

pub const BOOTSTRAP_PATH: &'static str = "automation/bootstrap.md";

pub const BOOTSTRAP_PROPOSAL_CONTEXT: &'static str = "This is the one-time planning-only bootstrap change. Its purpose is to decompose the complete project goal into bounded implementation slices; do not implement product code and do not report TOO_LARGE merely because the overall project spans many slices. Use the exact assigned change name and create only this one OpenSpec change. During this Propose stage, create or update only that change's normal OpenSpec artifacts. Do not create or modify `automation/slices/README.md` or any implementation slice under `automation/slices/`; the subsequent Apply stage exclusively owns those deliverables. Record the intended agenda structure, slice files, acceptance criteria, and required tests in the OpenSpec design and tasks so a fresh Apply session can materialize them.";

pub const BOOTSTRAP_APPLY_CONTEXT: &'static str = "Apply this planning-only bootstrap change completely. Create the ordered implementation agenda and README required by `automation/bootstrap.md`, using `openspec/config.yaml` as the project authority. Do not implement product functionality and do not create OpenSpec changes for the planned implementation slices. Before reporting READY, inspect the completed agenda against every structural requirement in `automation/bootstrap.md` and correct any omission within this Apply stage. Do not archive the bootstrap change.";

pub const PROPOSAL_REPAIR: &'static str = " Continue in this same planning session and perform the proposal workflow now; do not merely describe what should be proposed and do not create a duplicate change. Inspect active OpenSpec changes first and continue the intended existing scaffold when one is present. Follow any exact agenda assignment above; otherwise use the completed exploration and repository's durable planning evidence. Run all commands synchronously and wait for every command and subagent to finish. Return READY only after `openspec status --change <name> --json` reports `isPlanningComplete: true`. If no change is warranted, return DONE. If the selected slice exceeds one reliable worker change, return TOO_LARGE with an ordered decomposition. Return BLOCKED only for a genuine external decision.";

/// The proposal prompt again, with what was wrong with its result.
pub open spec fn repaired_proposal(subject: Seq<char>, failure: Seq<char>) -> Seq<char> {
    subject + "\n\nPOSTCONDITION REPAIR: "@ + failure + PROPOSAL_REPAIR@
}

pub fn proposal_postcondition_repair(subject: &str, failure: &str) -> (r: String)
    ensures
        r@ == repaired_proposal(subject@, failure@),
{
    subject.to_owned().concat("\n\nPOSTCONDITION REPAIR: ").concat(failure).concat(PROPOSAL_REPAIR)
}

pub const ARCHIVE: &'static str = "\n\nArchive this successfully verified OpenSpec change, including normal specification synchronization. The user has already authorized the normal archive choices: if delta specs need synchronization, choose `Sync now (recommended)`, verify the sync, and continue the archive; if they are already synchronized, choose `Archive now`. Do not stop to request routine confirmation for either choice, and do not treat that confirmation as a BLOCKED condition. Report BLOCKED only if synchronization, verification, or archival cannot safely be completed without a genuine human decision or unavailable external input.";

/// What the archive stage is asked.
pub open spec fn archiving(change: Seq<char>) -> Seq<char> {
    change + ARCHIVE@
}

pub fn archive_subject(change: &str) -> (r: String)
    ensures
        r@ == archiving(change@),
{
    change.to_owned().concat(ARCHIVE)
}

pub const PROPOSAL_MESSAGE: &'static str = "`. Add a conventional Git commit body derived from the completed OpenSpec proposal, specs, design, and tasks. Use imperative mood. Write a short first paragraph explaining the intended observable change and why it is being made. Add at most one second paragraph for an important scope boundary or acceptance condition. Separate paragraphs with a blank line and hard-wrap every body line at 72 columns or fewer. Prefer roughly four to eight body lines in total. Do not write one dense summary paragraph, Markdown headings or lists, file or task inventories, command invocations, generated boilerplate, or behavior not approved by those artifacts. Check the subject and body formatting before creating each commit. Once all relevant work is committed, message formatting alone is not a BLOCKED condition: preserve the existing commits, mention any formatting imperfection briefly, and report READY without requesting permission to amend or creating a replacement commit.";

/// How the proposal commit is to be described.
pub open spec fn proposal_message(change: Seq<char>) -> Seq<char> {
    "Use commit subject exactly `openspec: propose "@ + change + PROPOSAL_MESSAGE@
}

pub fn proposal_commit_message(change: &str) -> (r: String)
    ensures
        r@ == proposal_message(change@),
{
    "Use commit subject exactly `openspec: propose ".to_owned().concat(change).concat(PROPOSAL_MESSAGE)
}

pub const COMPLETION_MESSAGE: &'static str = "`. Add a conventional Git commit body derived from the completed OpenSpec artifacts and actual verification results. Use imperative mood. Write a short first paragraph explaining the delivered observable behavior and its purpose. Add at most one second paragraph summarizing the most important validation that actually ran or a material scope boundary. Separate paragraphs with a blank line and hard-wrap every body line at 72 columns or fewer. Prefer roughly four to eight body lines in total. Do not write one dense summary paragraph, Markdown headings or lists, file or task inventories, exhaustive implementation mechanics, generated boilerplate, or claims about checks that did not run. Check the subject and body formatting before creating each commit. Once all relevant work is committed, message formatting alone is not a BLOCKED condition: preserve the existing commits, mention any formatting imperfection briefly, and report READY without requesting permission to amend or creating a replacement commit.";

/// How the completion commit is to be described.
pub open spec fn completion_message(change: Seq<char>) -> Seq<char> {
    "Use commit subject exactly `openspec: complete "@ + change + COMPLETION_MESSAGE@
}

pub fn completion_commit_message(change: &str) -> (r: String)
    ensures
        r@ == completion_message(change@),
{
    "Use commit subject exactly `openspec: complete ".to_owned().concat(change).concat(COMPLETION_MESSAGE)
}

pub const DIRECTION: &'static str = "\n\nTreat this as implementation guidance. Do not change the approved OpenSpec requirements.";

/// A prompt with the operator's direction, where there is one.
pub open spec fn with_guidance(base: Seq<char>, direction: Option<Seq<char>>) -> Seq<char> {
    match direction {
        Some(d) => base + "\n\nUser direction for this iteration:\n"@ + d + DIRECTION@,
        None => base,
    }
}

pub fn with_direction(base: &str, direction: Option<&str>) -> (r: String)
    ensures
        r@ == with_guidance(base@, str_option(direction)),
{
    match direction {
        Some(d) => base.to_owned().concat("\n\nUser direction for this iteration:\n").concat(d).concat(DIRECTION),
        None => base.to_owned(),
    }
}

pub const SIDECAR_1: &'static str = "\n\nSIDECAR WORKSPACE: The current working directory contains OpenSpec planning state only. The product source and its Git repository are at `";

pub const SIDECAR_2: &'static str = "` and are available through ";

pub const SIDECAR_3: &'static str = "'s additional-directory access. Read the product's existing `";

pub const SIDECAR_4: &'static str = "` when present. Make product code/test/documentation edits only there, run product commands from there, and use targeted language-server navigation and searches rather than surveying the whole repository. Keep OpenSpec artifacts and sidecar-local workflow files in the current planning repository.";

/// A prompt with where the product is, where it is planned outside.
pub open spec fn with_workspace(
    product_repo: Option<Seq<char>>,
    subject: Seq<char>,
    h: HarnessView,
) -> Seq<char> {
    match product_repo {
        Some(product) => subject + SIDECAR_1@ + product + SIDECAR_2@ + h.title + SIDECAR_3@ + h.guide() + SIDECAR_4@,
        None => subject,
    }
}

pub fn with_sidecar_context(state: &RunState, subject: &str, harness: &Harness) -> (r: String)
    ensures
        r@ == with_workspace(state@.product_repo, subject@, harness@),
{
    match &state.product_repo {
        Some(product) => {
            let guide = harness.guide();
            subject.to_owned().concat(SIDECAR_1).concat(product.as_str()).concat(SIDECAR_2).concat(harness.title.as_str()).concat(SIDECAR_3).concat(guide.as_str()).concat(SIDECAR_4)
        },
        None => subject.to_owned(),
    }
}

pub const REPLAN_1: &'static str = "The local worker could not reliably complete the ordered agenda slice below. The orchestrator has discarded that failed attempt and restored the exact pre-Propose repository state. Replan the agenda using your stronger planning judgement; do not implement the slice and do not create or modify any OpenSpec change.\n\nOriginal agenda file: `";

pub const REPLAN_2: &'static str = "\n\nRewrite the original agenda file so it describes only the first independently implementable and verifiable subset. Keep its current filename and therefore its current OpenSpec change name. Add the remaining work as immediately following child slices whose numeric ordinal appends `.1`, `.2`, and so on to the original ordinal. For example, `0009-feature.md` may be followed by `0009.1-next-part.md` and `0009.2-final-part.md`; those filenames map to OpenSpec change names `0009-1-next-part` and `0009-2-final-part`. Child slices may later be subdivided recursively in the same way. Choose boundaries that a local coding model can complete reliably, not merely conceptual chapter boundaries. Preserve dependencies and acceptance criteria so the sequence still delivers the original objective.\n\nModify only files under `automation/slices/`. Update an agenda index there if one exists and needs updating. Do not modify source code, tests, OpenSpec artifacts, ";

pub const REPLAN_GUIDED: &'static str = ", or other project files. Inspect repository evidence only as needed to choose sound boundaries; do not perform an exhaustive repository survey.\n\nCommit the agenda-only replan with commit message exactly `opsx: subdivide ";

pub const REPLAN_3: &'static str = "`. Preserve every pre-existing working-tree change exactly. Do not reset, stash, restore, discard, amend, or rewrite existing history. Return REPLANNED only after the subdivision is committed, the original slice is materially narrower, at least one child slice exists, and no uncommitted changes from your work remain. Return BLOCKED only if the agenda cannot be subdivided safely from available evidence.\n\n--- BEGIN ORIGINAL AGENDA SLICE ---\n";

/// What the frontier model is asked where a slice is too large for the worker.
pub open spec fn replanning(a: AssignmentView, outcome: TooLargeView, h: HarnessView) -> Seq<char> {
    REPLAN_1@ + a.path + "`\nOriginal OpenSpec change name: `"@ + a.change + "`\nLocal failure stage: "@ + outcome.stage.name() + "\nLocal failure report:\n"@ + trimmed(outcome.summary) + REPLAN_2@ + h.guide() + REPLAN_GUIDED@ + a.change + REPLAN_3@ + trimmed(a.content) + "\n--- END ORIGINAL AGENDA SLICE ---"@
}

pub fn frontier_replan_prompt(
    a: &AgendaAssignment,
    outcome: &TooLargeOutcome,
    harness: &Harness,
) -> (r: String)
    ensures
        r@ == replanning(a@, outcome@, harness@),
{
    let failure = trim(outcome.summary.as_str());
    let content = trim(a.content.as_str());
    let guide = harness.guide();
    REPLAN_1.to_owned().concat(a.path.as_str()).concat("`\nOriginal OpenSpec change name: `").concat(a.change.as_str()).concat("`\nLocal failure stage: ").concat(outcome.stage.title()).concat("\nLocal failure report:\n").concat(failure.as_str()).concat(REPLAN_2).concat(guide.as_str()).concat(REPLAN_GUIDED).concat(a.change.as_str()).concat(REPLAN_3).concat(content.as_str()).concat("\n--- END ORIGINAL AGENDA SLICE ---")
}

pub const ABANDONED: &'static str = "\n\nA preceding terminal attempt was abandoned and the repository was restored to its exact pre-Propose state. Remediation is required; READY is not a valid result for this review.\nFailed stage: ";

pub const REVIEW_1: &'static str = "Carry out the frontier architect's independent whole-project acceptance review before the terminal agenda slice. Re-read the complete goal in `openspec/config.yaml`, the ordered agenda and its README, the unchanged terminal gate `";

pub const REVIEW_2: &'static str = "`, canonical and archived OpenSpec evidence, delivered code, and real tests. Use targeted inspection and run relevant existing end-to-end checks where practical. Determine whether every material project goal is implemented and the repository is ready for the terminal acceptance change. Do not create or modify any OpenSpec change and do not implement product code.";

pub const REVIEW_3: &'static str = "\n\nIf the project is ready, leave the repository, index, working tree, and Git history exactly unchanged and return READY.\n\nIf material functionality or validation is missing, preserve `";

pub const REVIEW_4: &'static str = "` byte-for-byte as the terminal gate. Add one or more bounded, independently implementable remediation slice files under `automation/slices/` whose numeric ordinals sort after every existing nonterminal slice and before `9999`. Update the agenda README so the new execution order and project-goal coverage remain accurate. Each remediation slice must satisfy the existing agenda contract and be small enough for the worker model. Modify only files under `automation/slices/`; do not modify source, tests, OpenSpec state, ";

pub const REVIEW_GUIDED: &'static str = ", or any other path. Commit the agenda-only remediation with subject exactly `opsx: add acceptance remediation`. Preserve pre-existing user work and never reset, stash, restore, discard, amend, or rewrite history. Return REPLANNED only after the remediation agenda is committed and the working state outside the permitted agenda paths is unchanged.\n\nReturn BLOCKED only when this review or safe remediation genuinely requires a human decision or unavailable external input.\n\n--- BEGIN TERMINAL ACCEPTANCE SLICE ---\n";

/// What the frontier model is told of an attempt that was given up.
pub open spec fn abandoned(escalation: Option<TooLargeView>) -> Seq<char> {
    match escalation {
        Some(outcome) => ABANDONED@ + outcome.stage.name() + "\nFailure report:\n"@ + trimmed(outcome.summary),
        None => Seq::empty(),
    }
}

/// What the frontier model is asked before the terminal slice that ends the agenda.
pub open spec fn reviewing(
    a: AssignmentView,
    escalation: Option<TooLargeView>,
    h: HarnessView,
) -> Seq<char> {
    REVIEW_1@ + a.path + REVIEW_2@ + abandoned(escalation) + REVIEW_3@ + a.path + REVIEW_4@ + h.guide() + REVIEW_GUIDED@ + trimmed(a.content) + "\n--- END TERMINAL ACCEPTANCE SLICE ---"@
}

pub open spec fn outcome_of(escalation: Option<&TooLargeOutcome>) -> Option<TooLargeView> {
    match escalation {
        Some(outcome) => Some(outcome@),
        None => None,
    }
}

pub fn terminal_review_prompt(
    a: &AgendaAssignment,
    escalation: Option<&TooLargeOutcome>,
    harness: &Harness,
) -> (r: String)
    ensures
        r@ == reviewing(a@, outcome_of(escalation), harness@),
{
    let failure = match escalation {
        Some(outcome) => {
            let summary = trim(outcome.summary.as_str());
            ABANDONED.to_owned().concat(outcome.stage.title()).concat("\nFailure report:\n").concat(summary.as_str())
        },
        None => String::new(),
    };
    let content = trim(a.content.as_str());
    let guide = harness.guide();
    REVIEW_1.to_owned().concat(a.path.as_str()).concat(REVIEW_2).concat(failure.as_str()).concat(REVIEW_3).concat(a.path.as_str()).concat(REVIEW_4).concat(guide.as_str()).concat(REVIEW_GUIDED).concat(content.as_str()).concat("\n--- END TERMINAL ACCEPTANCE SLICE ---")
}

pub const BOOTSTRAP_SUBJECT_1: &'static str = "Bootstrap this repository by carrying out the exact planning assignment below. Create or continue only the OpenSpec change `";

pub const BOOTSTRAP_SUBJECT_2: &'static str = "`. This change decomposes the complete project goal into a durable agenda for later worker-model runs; it does not implement product functionality. Treat `openspec/config.yaml` as the project authority and do not survey the product source tree.\n\nAssigned bootstrap file: `";

pub const AGENDA_SUBJECT_1: &'static str = "Create the OpenSpec planning artifacts for the exact ordered agenda assignment below. This is ";

pub const AGENDA_SUBJECT_2: &'static str = ". This Propose stage is planning-only: do not implement production code or invoke an Apply or implementation skill. Do not select, create, or modify a different slice. Create or continue the OpenSpec change with the exact name `";

pub const AGENDA_SUBJECT_3: &'static str = "`. The agenda content is authoritative; use repository inspection only to elaborate its implementation details.\n\nAssigned agenda file: `";

pub const BROWNFIELD_SUBJECT_1: &'static str = "\n\nCreate the complete OpenSpec planning artifacts for the exact bounded brownfield change `";

pub const BROWNFIELD_SUBJECT_2: &'static str = "`. The current working directory is the external planning repository; the product repository is `";

pub const BROWNFIELD_SUBJECT_3: &'static str = "` and is available as an additional ";

pub const BROWNFIELD_SUBJECT_4: &'static str = " directory. Treat `openspec/config.yaml` as durable supplied context. Inspect only the product files, symbols, references, and tests needed for this change; do not attempt to understand or survey the entire product repository. During Propose, write only planning artifacts and do not implement product code.";

pub const PRESCRIBED_SUBJECT: &'static str = "`. During exploration, investigate without creating artifacts. During proposal, create or continue only `";

pub const CAMPAIGN_SUBJECT: &'static str = ". Select and pursue exactly one coherent, bounded remaining slice toward the objective. Use the repository and archived OpenSpec history as durable evidence of earlier iterations. If the overall objective is already satisfied and no meaningful slice remains, carry that conclusion into Propose so it can return DONE without creating artifacts.";

/// The occasion of an assignment.
pub open spec fn occasion(campaign: Option<crate::state::CampaignView>) -> Seq<char> {
    match campaign {
        Some(c) => "campaign iteration "@ + decimal(c.iteration as nat),
        None => "an advance operation"@,
    }
}

/// What a run is about, as its planning stages are told. `instructions` is the
/// assignment of a bootstrap run.
pub open spec fn subject_of(s: RunStateView, instructions: Seq<char>, h: HarnessView) -> Seq<char> {
    if s.bootstrap {
        BOOTSTRAP_SUBJECT_1@ + BOOTSTRAP_CHANGE@ + BOOTSTRAP_SUBJECT_2@ + BOOTSTRAP_PATH@ + "`\n\n--- BEGIN BOOTSTRAP ASSIGNMENT ---\n"@ + trimmed(instructions) + "\n--- END BOOTSTRAP ASSIGNMENT ---"@
    } else {
        match (s.agenda, s.product_repo, s.change, s.campaign) {
            (Some(a), _, _, _) => AGENDA_SUBJECT_1@ + occasion(s.campaign) + AGENDA_SUBJECT_2@ + a.change + AGENDA_SUBJECT_3@ + a.path + "`\n\n--- BEGIN ASSIGNED AGENDA SLICE ---\n"@ + trimmed(a.content) + "\n--- END ASSIGNED AGENDA SLICE ---"@,
            (None, Some(product), Some(change), _) => s.request + BROWNFIELD_SUBJECT_1@ + change + BROWNFIELD_SUBJECT_2@ + product + BROWNFIELD_SUBJECT_3@ + h.title + BROWNFIELD_SUBJECT_4@,
            (None, None, Some(change), _) => s.request + "\n\nUse the exact OpenSpec change name `"@ + change + PRESCRIBED_SUBJECT@ + change + "` and do not select or modify a differently named change."@,
            (None, _, None, Some(c)) => s.request + "\n\nThis is campaign iteration "@ + decimal(c.iteration as nat) + CAMPAIGN_SUBJECT@,
            (None, _, None, None) => s.request,
        }
    }
}

pub fn campaign_subject(state: &RunState, instructions: &str, harness: &Harness) -> (r: String)
    ensures
        r@ == subject_of(state@, instructions@, harness@),
{
    if state.bootstrap {
        let bare = trim(instructions);
        return BOOTSTRAP_SUBJECT_1.to_owned().concat(BOOTSTRAP_CHANGE).concat(BOOTSTRAP_SUBJECT_2).concat(BOOTSTRAP_PATH).concat("`\n\n--- BEGIN BOOTSTRAP ASSIGNMENT ---\n").concat(bare.as_str()).concat("\n--- END BOOTSTRAP ASSIGNMENT ---");
    }
    if let Some(a) = &state.agenda {
        let occasion = match &state.campaign {
            Some(c) => {
                let number = decimal_text(c.iteration as u64);
                "campaign iteration ".to_owned().concat(number.as_str())
            },
            None => "an advance operation".to_owned(),
        };
        let content = trim(a.content.as_str());
        return AGENDA_SUBJECT_1.to_owned().concat(occasion.as_str()).concat(AGENDA_SUBJECT_2).concat(a.change.as_str()).concat(AGENDA_SUBJECT_3).concat(a.path.as_str()).concat("`\n\n--- BEGIN ASSIGNED AGENDA SLICE ---\n").concat(content.as_str()).concat("\n--- END ASSIGNED AGENDA SLICE ---");
    }
    if let Some(change) = &state.change {
        if let Some(product) = &state.product_repo {
            return state.request.as_str().to_owned().concat(BROWNFIELD_SUBJECT_1).concat(change.as_str()).concat(BROWNFIELD_SUBJECT_2).concat(product.as_str()).concat(BROWNFIELD_SUBJECT_3).concat(harness.title.as_str()).concat(BROWNFIELD_SUBJECT_4);
        }
        return state.request.as_str().to_owned().concat("\n\nUse the exact OpenSpec change name `").concat(change.as_str()).concat(PRESCRIBED_SUBJECT).concat(change.as_str()).concat("` and do not select or modify a differently named change.");
    }
    match &state.campaign {
        Some(c) => {
            let number = decimal_text(c.iteration as u64);
            state.request.as_str().to_owned().concat("\n\nThis is campaign iteration ").concat(number.as_str()).concat(CAMPAIGN_SUBJECT)
        },
        None => state.request.clone(),
    }
}

pub const STAGE_PROMPT_1: &'static str = "\n\nThis invocation is controlled by opsx-build. Operate autonomously. Use BLOCKED only when progress genuinely requires a human decision or unavailable external input.\n\nTERMINAL PROTOCOL — MANDATORY\n\nReturn the supplied structured output with `opsx_status` set to exactly one of: ";

pub const STAGE_PROMPT_2: &'static str = ". Include a concise `summary`. If structured output is unavailable, you MUST NOT finish this invocation without emitting exactly one final line in the form `OPSX_STATUS: <value>` using the same allowed values. This obligation belongs to this outermost invocation even if a nested skill or OpenSpec command already reported success. Do not omit or paraphrase the fallback marker, wrap it in Markdown, or place text after it.";

/// A stage's prompt: its command and subject, and the protocol of its result.
pub open spec fn prompt_of(command: Seq<char>, subject: Seq<char>, protocol: StageProtocol) -> Seq<char> {
    let task = if command.len() == 0 {
        subject
    } else {
        command + " "@ + subject
    };
    task + STAGE_PROMPT_1@ + protocol.values() + STAGE_PROMPT_2@
}

pub fn stage_prompt(command: &str, subject: &str, protocol: StageProtocol) -> (r: String)
    ensures
        r@ == prompt_of(command@, subject@, protocol),
{
    let task = if command.unicode_len() == 0 {
        subject.to_owned()
    } else {
        command.to_owned().concat(" ").concat(subject)
    };
    task.as_str().to_owned().concat(STAGE_PROMPT_1).concat(protocol.terminal_values()).concat(STAGE_PROMPT_2)
}

pub const TERMINAL_PLANNING: &'static str = "Act as the frontier architect that set the project goal. Formulate the terminal whole-project acceptance change from the exact 9999 agenda assignment, the complete goal in `openspec/config.yaml`, canonical and archived OpenSpec evidence, and the delivered repository. The resulting specs, design, tasks, and acceptance scenarios must test the original goal as an integrated whole rather than merely restating the final agenda file. This is planning-only and must not implement product code. Do not report DONE: the orchestrator has established that the terminal acceptance gate remains.";

pub const AGENDA_PLANNING: &'static str = "Use the assigned agenda slice as the planning authority and preserve correct partial artifacts for its exact assigned change. Do not report DONE: the orchestrator has already established that this agenda slice remains.";

pub const PRESCRIBED_PLANNING: &'static str = "Use the exact prescribed change name and create or continue only that OpenSpec change. Do not substitute a generated name or modify another active change.";

pub const OPEN_PLANNING: &'static str = "Use conclusions from exploration and preserve correct partial proposal artifacts from any interrupted attempt. If the requested objective is already satisfied and no coherent implementation work remains, do not create or modify OpenSpec artifacts; report DONE.";

pub const SYNCHRONOUS: &'static str = " Run every OpenSpec command synchronously: never background or detach commands, and do not return while a command or subagent is still working.";

/// What the proposal rests on.
pub open spec fn planning_context(s: RunStateView, frontier_terminal: bool) -> Seq<char> {
    if s.bootstrap {
        BOOTSTRAP_PROPOSAL_CONTEXT@
    } else if crate::state::at_terminal_gate(s) && frontier_terminal {
        TERMINAL_PLANNING@
    } else if s.agenda is Some {
        AGENDA_PLANNING@
    } else if s.change is Some {
        PRESCRIBED_PLANNING@
    } else {
        OPEN_PLANNING@
    }
}

/// What the proposal stage is asked.
pub open spec fn proposing(subject: Seq<char>, context: Seq<char>) -> Seq<char> {
    subject + "\n\n"@ + context + SYNCHRONOUS@
}

pub fn propose_subject(
    state: &RunState,
    frontier_terminal: bool,
    instructions: &str,
    harness: &Harness,
) -> (r: String)
    ensures
        r@ == proposing(
            subject_of(state@, instructions@, harness@),
            planning_context(state@, frontier_terminal),
        ),
{
    let context = if state.bootstrap {
        BOOTSTRAP_PROPOSAL_CONTEXT
    } else if crate::state::is_terminal_gate(state) && frontier_terminal {
        TERMINAL_PLANNING
    } else if state.agenda.is_some() {
        AGENDA_PLANNING
    } else if state.change.is_some() {
        PRESCRIBED_PLANNING
    } else {
        OPEN_PLANNING
    };
    let about = campaign_subject(state, instructions, harness);
    let subject = about.as_str();
    subject.to_owned().concat("\n\n").concat(context).concat(SYNCHRONOUS)
}

pub const PROPOSAL_COMMIT_BOOTSTRAP_1: &'static str = "Create the proposal milestone Git commit for bootstrap OpenSpec change `";

pub const PROPOSAL_COMMIT_BOOTSTRAP_2: &'static str = "`. Inspect Git status and diffs. Commit the generated bootstrap scaffold (`openspec/config.yaml`, `automation/bootstrap.md`, the opsx-build managed fragments in `";

pub const PROPOSAL_COMMIT_GUIDED: &'static str = "` and `AGENTS.md`, and OpenSpec's project-local agent integration) together with the proposal artifacts for this exact change. Do not commit the source Markdown passed to the bootstrap command merely because it is present. ";

pub const PROPOSAL_COMMIT_BOOTSTRAP_3: &'static str = " Preserve all unrelated work. Never reset, stash, restore, discard, amend, or rewrite existing history. If the relevant proposal work is already committed and nothing remains to commit, confirm that and report READY.";

pub const PROPOSAL_COMMIT_SIDECAR_1: &'static str = "Create the proposal milestone Git commit for sidecar OpenSpec change `";

pub const PROPOSAL_COMMIT_SIDECAR_2: &'static str = "`. The current working directory is the planning repository. Commit all planning files belonging to this exact change, including its OpenSpec artifacts and sidecar-local agent integration. ";

pub const PROPOSAL_COMMIT_SIDECAR_3: &'static str = "` during this stage. Preserve unrelated work and never reset, stash, restore, discard, amend, or rewrite history. If the planning work is already committed, confirm that and report READY.";

pub const PROPOSAL_COMMIT_PLAIN_1: &'static str = "Create the proposal milestone Git commit for OpenSpec change `";

pub const PROPOSAL_COMMIT_PLAIN_2: &'static str = "`. Inspect Git status and diffs. Commit only the proposal artifacts for this change and directly related canonical OpenSpec specification updates. ";

pub const PROPOSAL_COMMIT_PLAIN_3: &'static str = " Preserve all unrelated work. Never reset, stash, restore, discard, amend, or rewrite existing history. If the relevant proposal work is already committed and nothing remains to commit, confirm that and report READY.";

/// What the proposal commit stage is asked.
pub open spec fn proposal_committing(s: RunStateView, change: Seq<char>, h: HarnessView) -> Seq<char> {
    if s.bootstrap {
        PROPOSAL_COMMIT_BOOTSTRAP_1@ + change + PROPOSAL_COMMIT_BOOTSTRAP_2@ + h.guide() + PROPOSAL_COMMIT_GUIDED@ + proposal_message(change) + PROPOSAL_COMMIT_BOOTSTRAP_3@
    } else {
        match s.product_repo {
            Some(product) => PROPOSAL_COMMIT_SIDECAR_1@ + change + PROPOSAL_COMMIT_SIDECAR_2@ + proposal_message(change) + " Do not create a commit in the product repository `"@ + product + PROPOSAL_COMMIT_SIDECAR_3@,
            None => PROPOSAL_COMMIT_PLAIN_1@ + change + PROPOSAL_COMMIT_PLAIN_2@ + proposal_message(change) + PROPOSAL_COMMIT_PLAIN_3@,
        }
    }
}

pub fn proposal_commit_task(state: &RunState, change: &str, harness: &Harness) -> (r: String)
    ensures
        r@ == proposal_committing(state@, change@, harness@),
{
    let message = proposal_commit_message(change);
    if state.bootstrap {
        let guide = harness.guide();
        return PROPOSAL_COMMIT_BOOTSTRAP_1.to_owned().concat(change).concat(PROPOSAL_COMMIT_BOOTSTRAP_2).concat(guide.as_str()).concat(PROPOSAL_COMMIT_GUIDED).concat(message.as_str()).concat(PROPOSAL_COMMIT_BOOTSTRAP_3);
    }
    match &state.product_repo {
        Some(product) => PROPOSAL_COMMIT_SIDECAR_1.to_owned().concat(change).concat(PROPOSAL_COMMIT_SIDECAR_2).concat(message.as_str()).concat(" Do not create a commit in the product repository `").concat(product.as_str()).concat(PROPOSAL_COMMIT_SIDECAR_3),
        None => PROPOSAL_COMMIT_PLAIN_1.to_owned().concat(change).concat(PROPOSAL_COMMIT_PLAIN_2).concat(message.as_str()).concat(PROPOSAL_COMMIT_PLAIN_3),
    }
}

pub const FINAL_COMMIT_BOOTSTRAP_1: &'static str = "Create the completion milestone Git commit for bootstrap OpenSpec change `";

pub const FINAL_COMMIT_BOOTSTRAP_2: &'static str = "`. Inspect Git status, history, and diffs. Commit the generated `automation/slices/` agenda, archived bootstrap change artifacts, and any remaining files belonging only to this bootstrap workflow. ";

pub const FINAL_COMMIT_BOOTSTRAP_3: &'static str = " Preserve all unrelated work, including the source Markdown supplied to the bootstrap command unless it was already deliberately tracked as project documentation. Never reset, stash, restore, discard, amend, or rewrite existing history. If all relevant work is already committed and nothing remains to commit, confirm that and report READY.";

pub const FINAL_COMMIT_SIDECAR_1: &'static str = "Complete the two Git milestones for sidecar OpenSpec change `";

pub const FINAL_COMMIT_SIDECAR_2: &'static str = "` and commit only the implementation, tests, and product documentation belonging to this change there. ";

pub const FINAL_COMMIT_SIDECAR_3: &'static str = " Obtain that product commit hash. Then inspect the current planning repository and commit its synchronized specifications, archived change artifacts, sidecar metadata, and other planning-only files with subject exactly `openspec: archive ";

pub const FINAL_COMMIT_SIDECAR_4: &'static str = "`. Give that planning commit a concise imperative-mood body summarizing the synchronized and archived specification outcome. Apply the same short-paragraph, blank-line, 72-column wrapping, and no-inventory rules as the product commit, then add a final `Product-Commit: <hash>` trailer. Preserve unrelated work in both repositories. Never reset, stash, restore, discard, amend, or rewrite either history. If one repository's relevant work is already committed, preserve it and still complete the other milestone. Report READY only after both repositories have no uncommitted work belonging to this change.";

pub const FINAL_COMMIT_PLAIN_1: &'static str = "Create the completion milestone Git commit for OpenSpec change `";

pub const FINAL_COMMIT_PLAIN_2: &'static str = "`. Inspect Git status, history, and diffs. Commit the implementation, tests, synchronized specifications, archived change artifacts, and documentation that belong to this completed change. ";

pub const FINAL_COMMIT_PLAIN_3: &'static str = " Preserve all unrelated work. Never reset, stash, restore, discard, amend, or rewrite existing history. If all relevant work is already committed and nothing remains to commit, confirm that and report READY.";

/// What the completion commit stage is asked.
pub open spec fn completion_committing(s: RunStateView, change: Seq<char>) -> Seq<char> {
    if s.bootstrap {
        FINAL_COMMIT_BOOTSTRAP_1@ + change + FINAL_COMMIT_BOOTSTRAP_2@ + completion_message(change) + FINAL_COMMIT_BOOTSTRAP_3@
    } else {
        match s.product_repo {
            Some(product) => FINAL_COMMIT_SIDECAR_1@ + change + "`. First inspect the product repository `"@ + product + FINAL_COMMIT_SIDECAR_2@ + completion_message(change) + FINAL_COMMIT_SIDECAR_3@ + change + FINAL_COMMIT_SIDECAR_4@,
            None => FINAL_COMMIT_PLAIN_1@ + change + FINAL_COMMIT_PLAIN_2@ + completion_message(change) + FINAL_COMMIT_PLAIN_3@,
        }
    }
}

pub fn final_commit_task(state: &RunState, change: &str) -> (r: String)
    ensures
        r@ == completion_committing(state@, change@),
{
    let message = completion_commit_message(change);
    if state.bootstrap {
        return FINAL_COMMIT_BOOTSTRAP_1.to_owned().concat(change).concat(FINAL_COMMIT_BOOTSTRAP_2).concat(message.as_str()).concat(FINAL_COMMIT_BOOTSTRAP_3);
    }
    match &state.product_repo {
        Some(product) => FINAL_COMMIT_SIDECAR_1.to_owned().concat(change).concat("`. First inspect the product repository `").concat(product.as_str()).concat(FINAL_COMMIT_SIDECAR_2).concat(message.as_str()).concat(FINAL_COMMIT_SIDECAR_3).concat(change).concat(FINAL_COMMIT_SIDECAR_4),
        None => FINAL_COMMIT_PLAIN_1.to_owned().concat(change).concat(FINAL_COMMIT_PLAIN_2).concat(message.as_str()).concat(FINAL_COMMIT_PLAIN_3),
    }
}

pub const APPLY_TERMINAL: &'static str = "\n\nImplement or continue implementing this terminal whole-project acceptance change completely. This is frontier-owned work: exercise the real acceptance criteria against the delivered project, preserve correct partial work, and replace incorrect task-owned work where necessary. Run the required project checks, using narrowly scoped sandbox escape when the checks genuinely require facilities unavailable inside the sandbox. Do not archive the change. Report TOO_LARGE only if the terminal acceptance work cannot safely be completed even by the frontier model; do not subdivide merely because it would be too large for the worker model.";

pub const APPLY_PLAIN: &'static str = "\n\nImplement or continue implementing this OpenSpec change completely. Preserve correct partial work and run appropriate project checks. Do not archive the change. If the assigned slice cannot reliably be completed and verified as one bounded worker-model change, report TOO_LARGE with evidence and an ordered decomposition instead of digging an increasingly broad implementation hole. Do not use TOO_LARGE for ordinary difficulty or correctable engineering failures.";

/// What the apply stage is asked, before direction and workspace are put behind it.
pub open spec fn applying(bootstrap: bool, frontier_terminal: bool, change: Seq<char>) -> Seq<char> {
    if bootstrap {
        change + "\n\n"@ + BOOTSTRAP_APPLY_CONTEXT@
    } else if frontier_terminal {
        change + APPLY_TERMINAL@
    } else {
        change + APPLY_PLAIN@
    }
}

pub fn apply_task(bootstrap: bool, frontier_terminal: bool, change: &str) -> (r: String)
    ensures
        r@ == applying(bootstrap, frontier_terminal, change@),
{
    if bootstrap {
        change.to_owned().concat("\n\n").concat(BOOTSTRAP_APPLY_CONTEXT)
    } else if frontier_terminal {
        change.to_owned().concat(APPLY_TERMINAL)
    } else {
        change.to_owned().concat(APPLY_PLAIN)
    }
}

pub const VERIFY_BOOTSTRAP: &'static str = "\n\nVerify the generated implementation agenda against `automation/bootstrap.md` and the complete project goal in `openspec/config.yaml`. Confirm that no product code was implemented, every material goal is assigned, each slice is independently bounded for the worker model, and `9999-project-acceptance.md` is a genuine whole-project DONE gate. Report RETRY with all concrete corrections when it is not.";

pub const VERIFY_TERMINAL: &'static str = "\n\nPerform the independent frontier verification of the complete project goal. Verify this terminal change against its OpenSpec artifacts, then compare the delivered repository with every material requirement in `openspec/config.yaml`, the ordered agenda including `automation/slices/9999-project-acceptance.md`, synchronized canonical specs, archived change evidence, and the real end-to-end acceptance results. Run the required whole-project checks rather than relying only on task checkboxes or earlier summaries. Report VERIFIED only when the original project goal is demonstrably complete. Report RETRY with concrete findings for bounded correctable defects; make clear when a finding represents missing functionality broad enough to require new remediation slices before the terminal gate.";

pub const VERIFY_PLAIN: &'static str = "\n\nVerify the implementation against its OpenSpec artifacts and run relevant checks. Report RETRY only for a concrete, correctable implementation issue and explain the required repair.";

/// What the verify stage is asked, before the workspace is put behind it.
pub open spec fn verifying(bootstrap: bool, frontier_terminal: bool, change: Seq<char>) -> Seq<char> {
    if bootstrap {
        change + VERIFY_BOOTSTRAP@
    } else if frontier_terminal {
        change + VERIFY_TERMINAL@
    } else {
        change + VERIFY_PLAIN@
    }
}

pub fn verify_task(bootstrap: bool, frontier_terminal: bool, change: &str) -> (r: String)
    ensures
        r@ == verifying(bootstrap, frontier_terminal, change@),
{
    if bootstrap {
        change.to_owned().concat(VERIFY_BOOTSTRAP)
    } else if frontier_terminal {
        change.to_owned().concat(VERIFY_TERMINAL)
    } else {
        change.to_owned().concat(VERIFY_PLAIN)
    }
}

pub const REPAIR_BOOTSTRAP: &'static str = "\n\nRepair the planning-only implementation agenda and its bootstrap OpenSpec artifacts. Do not implement product code and do not create implementation OpenSpec changes. Re-check the complete goal in `openspec/config.yaml`.\n\nVerifier context:\n";

pub const REPAIR_TERMINAL: &'static str = "\n\nRepair or continue repairing the terminal whole-project acceptance implementation and tests. This is frontier-owned work. Preserve correct partial work, correct task-owned defects, run the real acceptance checks, and keep the approved OpenSpec scope. Use narrowly scoped sandbox escape when required checks genuinely cannot run inside the sandbox. Report TOO_LARGE only if the work cannot safely be completed even by the frontier model.\n\nVerifier context:\n";

pub const REPAIR_PLAIN: &'static str = "\n\nRepair or continue repairing the implementation and tests. Preserve correct partial work and the approved OpenSpec scope. Re-run relevant checks. If the verifier has exposed that the assigned slice cannot reliably fit one bounded worker-model change, report TOO_LARGE with evidence and an ordered decomposition. Do not use TOO_LARGE for an ordinary correctable verification failure.\n\nVerifier context:\n";

/// What the repair stage is asked, before direction and workspace are put behind it.
pub open spec fn repairing(bootstrap: bool, frontier_terminal: bool, change: Seq<char>, finding: Seq<char>) -> Seq<char> {
    if bootstrap {
        change + REPAIR_BOOTSTRAP@ + finding
    } else if frontier_terminal {
        change + REPAIR_TERMINAL@ + finding
    } else {
        change + REPAIR_PLAIN@ + finding
    }
}

pub fn repair_task(bootstrap: bool, frontier_terminal: bool, change: &str, finding: &str) -> (r: String)
    ensures
        r@ == repairing(bootstrap, frontier_terminal, change@, finding@),
{
    if bootstrap {
        change.to_owned().concat(REPAIR_BOOTSTRAP).concat(finding)
    } else if frontier_terminal {
        change.to_owned().concat(REPAIR_TERMINAL).concat(finding)
    } else {
        change.to_owned().concat(REPAIR_PLAIN).concat(finding)
    }
}

pub const NO_FINDING: &'static str = "No verifier finding was supplied; apply the user's direction and re-run relevant checks.";

pub const ARCHIVE_RECOVERY: &'static str = "\n\nRECOVERY: The preceding attempt ended without a usable terminal result while this OpenSpec change remained active. Inspect durable OpenSpec state and complete the archive now. Invoke actual agent tools one at a time; do not print XML, JSON, or any other textual representation of intended tool calls.";

proof fn lemma_told(whole: Seq<char>, before: Seq<char>, told: Seq<char>, after: Seq<char>)
    requires
        whole == before + told + after,
    ensures
        contains_text(whole, told),
        occurs_at(whole, told, before.len() as int),
{
    let at = before.len() as int;
    assert(whole.subrange(at, at + told.len()) =~= told);
    assert(occurs_at(whole, told, at));
}

/// The stages that work on a change are told its name first, and what they are told depends
/// on whether they bootstrap or work on the terminal slice. A repair is told the finding,
/// last and as it is.
pub proof fn law_stages_are_told_their_change(
    bootstrap: bool,
    terminal: bool,
    change: Seq<char>,
    finding: Seq<char>,
)
    ensures
        applying(bootstrap, terminal, change) == change + (if bootstrap {
            "\n\n"@ + BOOTSTRAP_APPLY_CONTEXT@
        } else if terminal {
            APPLY_TERMINAL@
        } else {
            APPLY_PLAIN@
        }),
        verifying(bootstrap, terminal, change) == change + (if bootstrap {
            VERIFY_BOOTSTRAP@
        } else if terminal {
            VERIFY_TERMINAL@
        } else {
            VERIFY_PLAIN@
        }),
        change.is_prefix_of(repairing(bootstrap, terminal, change, finding)),
        finding.is_suffix_of(repairing(bootstrap, terminal, change, finding)),
        repairing(bootstrap, terminal, change, finding).len() == change.len() + finding.len() + (
        if bootstrap {
            REPAIR_BOOTSTRAP@
        } else if terminal {
            REPAIR_TERMINAL@
        } else {
            REPAIR_PLAIN@
        }).len(),
        change.is_prefix_of(archiving(change)),
{
    let r = repairing(bootstrap, terminal, change, finding);
    assert(r.subrange(0, change.len() as int) =~= change);
    assert(r.subrange(r.len() - finding.len(), r.len() as int) =~= finding);
    assert(archiving(change).subrange(0, change.len() as int) =~= change);
    assert(change + "\n\n"@ + BOOTSTRAP_APPLY_CONTEXT@ =~= change + ("\n\n"@
        + BOOTSTRAP_APPLY_CONTEXT@));
}

/// What the operator directs is handed on word for word behind the task, and without a
/// direction the task is handed on alone. Where the product is planned outside, its place is
/// handed on too.
pub proof fn law_directions_are_handed_on(
    base: Seq<char>,
    direction: Seq<char>,
    product: Seq<char>,
    h: HarnessView,
)
    ensures
        with_guidance(base, None) == base,
        (base + "\n\nUser direction for this iteration:\n"@ + direction).is_prefix_of(
            with_guidance(base, Some(direction)),
        ),
        with_workspace(None, base, h) == base,
        base.is_prefix_of(with_workspace(Some(product), base, h)),
        contains_text(with_workspace(Some(product), base, h), SIDECAR_1@ + product + SIDECAR_2@),
        contains_text(with_workspace(Some(product), base, h), h.guide()),
{
    let a = base + "\n\nUser direction for this iteration:\n"@ + direction;
    let r = with_guidance(base, Some(direction));
    assert(r.subrange(0, a.len() as int) =~= a);
    let w = with_workspace(Some(product), base, h);
    assert(w.subrange(0, base.len() as int) =~= base);
    let told = SIDECAR_1@ + product + SIDECAR_2@;
    let rest = h.title + SIDECAR_3@ + h.guide() + SIDECAR_4@;
    assert(w =~= base + told + rest);
    lemma_told(w, base, told, rest);
    let head = base + told + h.title + SIDECAR_3@;
    assert(w =~= head + h.guide() + SIDECAR_4@);
    lemma_told(w, head, h.guide(), SIDECAR_4@);
}

/// A prompt has its command and its subject, and names the results that the stage may give.
pub proof fn law_prompts_name_their_results(
    command: Seq<char>,
    subject: Seq<char>,
    protocol: StageProtocol,
)
    ensures
        command.len() == 0 ==> subject.is_prefix_of(prompt_of(command, subject, protocol)),
        command.len() > 0 ==> (command + " "@ + subject).is_prefix_of(
            prompt_of(command, subject, protocol),
        ),
        contains_text(
            prompt_of(command, subject, protocol),
            match protocol {
                StageProtocol::Ready => "READY or BLOCKED"@,
                StageProtocol::Worker => "READY, TOO_LARGE, or BLOCKED"@,
                StageProtocol::Propose => "READY, DONE, TOO_LARGE, or BLOCKED"@,
                StageProtocol::Verify => "VERIFIED, RETRY, or BLOCKED"@,
                StageProtocol::Frontier => "REPLANNED or BLOCKED"@,
                StageProtocol::TerminalReview => "READY, REPLANNED, or BLOCKED"@,
            },
        ),
{
    let task = if command.len() == 0 {
        subject
    } else {
        command + " "@ + subject
    };
    let r = prompt_of(command, subject, protocol);
    assert(r.subrange(0, task.len() as int) =~= task);
    lemma_told(r, task + STAGE_PROMPT_1@, protocol.values(), STAGE_PROMPT_2@);
}

/// The two commits of a change are asked for under the subjects that name it, and a sidecar
/// is told where its product is.
pub proof fn law_commits_are_asked_for_by_subject(
    s: RunStateView,
    change: Seq<char>,
    h: HarnessView,
)
    ensures
        contains_text(
            proposal_committing(s, change, h),
            "Use commit subject exactly `openspec: propose "@ + change + PROPOSAL_MESSAGE@,
        ),
        contains_text(
            completion_committing(s, change),
            "Use commit subject exactly `openspec: complete "@ + change + COMPLETION_MESSAGE@,
        ),
        !s.bootstrap ==> (s.product_repo matches Some(product) ==> contains_text(
            proposal_committing(s, change, h),
            product,
        ) && contains_text(completion_committing(s, change), product)),
        s.bootstrap ==> PROPOSAL_COMMIT_BOOTSTRAP_1@.is_prefix_of(proposal_committing(s, change, h))
            && FINAL_COMMIT_BOOTSTRAP_1@.is_prefix_of(completion_committing(s, change)),
        !s.bootstrap && s.product_repo is None ==> PROPOSAL_COMMIT_PLAIN_1@.is_prefix_of(
            proposal_committing(s, change, h),
        ) && FINAL_COMMIT_PLAIN_1@.is_prefix_of(completion_committing(s, change)),
{
    let p = proposal_committing(s, change, h);
    let pm = proposal_message(change);
    let c = completion_committing(s, change);
    let cm = completion_message(change);
    if s.bootstrap {
        lemma_told(
            p,
            PROPOSAL_COMMIT_BOOTSTRAP_1@ + change + PROPOSAL_COMMIT_BOOTSTRAP_2@ + h.guide()
                + PROPOSAL_COMMIT_GUIDED@,
            pm,
            PROPOSAL_COMMIT_BOOTSTRAP_3@,
        );
        lemma_told(
            c,
            FINAL_COMMIT_BOOTSTRAP_1@ + change + FINAL_COMMIT_BOOTSTRAP_2@,
            cm,
            FINAL_COMMIT_BOOTSTRAP_3@,
        );
        assert(p.subrange(0, PROPOSAL_COMMIT_BOOTSTRAP_1@.len() as int)
            =~= PROPOSAL_COMMIT_BOOTSTRAP_1@);
        assert(c.subrange(0, FINAL_COMMIT_BOOTSTRAP_1@.len() as int) =~= FINAL_COMMIT_BOOTSTRAP_1@);
    } else if s.product_repo is Some {
        let product = s.product_repo->0;
        let middle = " Do not create a commit in the product repository `"@;
        let a = PROPOSAL_COMMIT_SIDECAR_1@ + change + PROPOSAL_COMMIT_SIDECAR_2@;
        let z = middle + product + PROPOSAL_COMMIT_SIDECAR_3@;
        assert(p =~= a + pm + z);
        lemma_told(p, a, pm, z);
        lemma_told(p, a + pm + middle, product, PROPOSAL_COMMIT_SIDECAR_3@);
        let first = FINAL_COMMIT_SIDECAR_1@ + change + "`. First inspect the product repository `"@;
        let last = FINAL_COMMIT_SIDECAR_3@ + change + FINAL_COMMIT_SIDECAR_4@;
        assert(c =~= (first + product + FINAL_COMMIT_SIDECAR_2@) + cm + last);
        lemma_told(c, first + product + FINAL_COMMIT_SIDECAR_2@, cm, last);
        assert(c =~= first + product + (FINAL_COMMIT_SIDECAR_2@ + cm + last));
        lemma_told(c, first, product, FINAL_COMMIT_SIDECAR_2@ + cm + last);
    } else {
        lemma_told(
            p,
            PROPOSAL_COMMIT_PLAIN_1@ + change + PROPOSAL_COMMIT_PLAIN_2@,
            pm,
            PROPOSAL_COMMIT_PLAIN_3@,
        );
        lemma_told(
            c,
            FINAL_COMMIT_PLAIN_1@ + change + FINAL_COMMIT_PLAIN_2@,
            cm,
            FINAL_COMMIT_PLAIN_3@,
        );
        assert(p.subrange(0, PROPOSAL_COMMIT_PLAIN_1@.len() as int) =~= PROPOSAL_COMMIT_PLAIN_1@);
        assert(c.subrange(0, FINAL_COMMIT_PLAIN_1@.len() as int) =~= FINAL_COMMIT_PLAIN_1@);
    }
}

/// A bootstrap is told its instructions, without the white space around them.
pub proof fn law_bootstraps_are_told_their_instructions(
    s: RunStateView,
    instructions: Seq<char>,
    h: HarnessView,
)
    requires
        s.bootstrap,
    ensures
        ("`\n\n--- BEGIN BOOTSTRAP ASSIGNMENT ---\n"@ + trimmed(instructions)
            + "\n--- END BOOTSTRAP ASSIGNMENT ---"@).is_suffix_of(subject_of(s, instructions, h)),
{
    let told = "`\n\n--- BEGIN BOOTSTRAP ASSIGNMENT ---\n"@ + trimmed(instructions)
        + "\n--- END BOOTSTRAP ASSIGNMENT ---"@;
    let r = subject_of(s, instructions, h);
    assert(r.subrange(r.len() - told.len(), r.len() as int) =~= told);
}

/// A run of an agenda is told its slice as it stands, with its change and its path, and the
/// iteration that it belongs to.
pub proof fn law_agenda_runs_are_told_their_slice(
    s: RunStateView,
    instructions: Seq<char>,
    h: HarnessView,
)
    requires
        !s.bootstrap,
        s.agenda is Some,
    ensures
        ("`\n\n--- BEGIN ASSIGNED AGENDA SLICE ---\n"@ + trimmed(s.agenda->0.content)
            + "\n--- END ASSIGNED AGENDA SLICE ---"@).is_suffix_of(subject_of(s, instructions, h)),
        contains_text(
            subject_of(s, instructions, h),
            AGENDA_SUBJECT_2@ + s.agenda->0.change + AGENDA_SUBJECT_3@ + s.agenda->0.path,
        ),
        s.campaign matches Some(c) ==> (AGENDA_SUBJECT_1@ + ("campaign iteration "@ + decimal(
            c.iteration as nat,
        ))).is_prefix_of(subject_of(s, instructions, h)),
{
    let r = subject_of(s, instructions, h);
    let g = s.agenda->0;
    let slice = "`\n\n--- BEGIN ASSIGNED AGENDA SLICE ---\n"@ + trimmed(g.content)
        + "\n--- END ASSIGNED AGENDA SLICE ---"@;
    let place = AGENDA_SUBJECT_2@ + g.change + AGENDA_SUBJECT_3@ + g.path;
    let a = AGENDA_SUBJECT_1@ + occasion(s.campaign);
    assert(r =~= a + place + slice);
    lemma_told(r, a, place, slice);
    assert(r.subrange(r.len() - slice.len(), r.len() as int) =~= slice);
    assert(r.subrange(0, a.len() as int) =~= a);
}

/// Any other run is told its request first, as it was made. Behind it stand the change that
/// is prescribed, the place of the product and the iteration, where there are such.
pub proof fn law_requests_are_told_as_made(
    s: RunStateView,
    instructions: Seq<char>,
    h: HarnessView,
)
    requires
        !s.bootstrap,
        s.agenda is None,
    ensures
        s.request.is_prefix_of(subject_of(s, instructions, h)),
        s.change matches Some(change) ==> contains_text(subject_of(s, instructions, h), change),
        s.change is Some ==> (s.product_repo matches Some(product) ==> contains_text(
            subject_of(s, instructions, h),
            product,
        )),
        s.change is None && s.campaign is None ==> subject_of(s, instructions, h) == s.request,
        s.change is None ==> (s.campaign matches Some(c) ==> (s.request
            + "\n\nThis is campaign iteration "@ + decimal(c.iteration as nat)).is_prefix_of(
            subject_of(s, instructions, h),
        )),
{
    let r = subject_of(s, instructions, h);
    assert(r.subrange(0, s.request.len() as int) =~= s.request);
    if s.change is Some {
        let change = s.change->0;
        if s.product_repo is Some {
            let product = s.product_repo->0;
            let a = s.request + BROWNFIELD_SUBJECT_1@;
            let z = BROWNFIELD_SUBJECT_3@ + h.title + BROWNFIELD_SUBJECT_4@;
            assert(r =~= a + change + (BROWNFIELD_SUBJECT_2@ + product + z));
            lemma_told(r, a, change, BROWNFIELD_SUBJECT_2@ + product + z);
            assert(r =~= (a + change + BROWNFIELD_SUBJECT_2@) + product + z);
            lemma_told(r, a + change + BROWNFIELD_SUBJECT_2@, product, z);
        } else {
            let a = s.request + "\n\nUse the exact OpenSpec change name `"@;
            let z = PRESCRIBED_SUBJECT@ + change
                + "` and do not select or modify a differently named change."@;
            assert(r =~= a + change + z);
            lemma_told(r, a, change, z);
        }
    } else if s.campaign is Some {
        let a = s.request + "\n\nThis is campaign iteration "@ + decimal(
            s.campaign->0.iteration as nat,
        );
        assert(r.subrange(0, a.len() as int) =~= a);
    }
}

/// The frontier model is told the slice that it divides, with its path and change, where the
/// work failed and what was said of it.
pub proof fn law_the_frontier_is_told_what_failed(
    a: AssignmentView,
    outcome: TooLargeView,
    h: HarnessView,
)
    ensures
        (REPLAN_1@ + a.path + "`\nOriginal OpenSpec change name: `"@ + a.change).is_prefix_of(
            replanning(a, outcome, h),
        ),
        contains_text(
            replanning(a, outcome, h),
            "`\nLocal failure stage: "@ + outcome.stage.name() + "\nLocal failure report:\n"@
                + trimmed(outcome.summary),
        ),
        (trimmed(a.content) + "\n--- END ORIGINAL AGENDA SLICE ---"@).is_suffix_of(
            replanning(a, outcome, h),
        ),
        (REVIEW_1@ + a.path).is_prefix_of(reviewing(a, None, h)),
        (trimmed(a.content) + "\n--- END TERMINAL ACCEPTANCE SLICE ---"@).is_suffix_of(
            reviewing(a, None, h),
        ),
        (trimmed(a.content) + "\n--- END TERMINAL ACCEPTANCE SLICE ---"@).is_suffix_of(
            reviewing(a, Some(outcome), h),
        ),
        contains_text(
            reviewing(a, Some(outcome), h),
            ABANDONED@ + outcome.stage.name() + "\nFailure report:\n"@ + trimmed(outcome.summary),
        ),
        reviewing(a, None, h).len() < reviewing(a, Some(outcome), h).len(),
{
    let r = replanning(a, outcome, h);
    let head = REPLAN_1@ + a.path + "`\nOriginal OpenSpec change name: `"@ + a.change;
    assert(r.subrange(0, head.len() as int) =~= head);
    let told = "`\nLocal failure stage: "@ + outcome.stage.name() + "\nLocal failure report:\n"@
        + trimmed(outcome.summary);
    let slice = trimmed(a.content) + "\n--- END ORIGINAL AGENDA SLICE ---"@;
    let middle = REPLAN_2@ + h.guide() + REPLAN_GUIDED@ + a.change + REPLAN_3@;
    assert(r =~= head + told + (middle + slice));
    lemma_told(r, head, told, middle + slice);
    assert(r.subrange(r.len() - slice.len(), r.len() as int) =~= slice);
    let n = reviewing(a, None, h);
    let s = reviewing(a, Some(outcome), h);
    let first = REVIEW_1@ + a.path;
    assert(n.subrange(0, first.len() as int) =~= first);
    let end = trimmed(a.content) + "\n--- END TERMINAL ACCEPTANCE SLICE ---"@;
    assert(n.subrange(n.len() - end.len(), n.len() as int) =~= end);
    assert(s.subrange(s.len() - end.len(), s.len() as int) =~= end);
    let given_up = abandoned(Some(outcome));
    let rest = REVIEW_3@ + a.path + REVIEW_4@ + h.guide() + REVIEW_GUIDED@ + end;
    assert(s =~= (first + REVIEW_2@) + given_up + rest);
    lemma_told(s, first + REVIEW_2@, given_up, rest);
    reveal_strlit("\nFailure report:\n");
}

/// The proposal is told what the run is about first, then what it rests on: the bootstrap,
/// the terminal slice where the frontier model plans it, the slice of the agenda, the change
/// that is prescribed, or what was found out.
pub proof fn law_proposals_rest_on_what_is_planned(
    s: RunStateView,
    frontier: bool,
    subject: Seq<char>,
    context: Seq<char>,
    failure: Seq<char>,
)
    ensures
        (subject + "\n\n"@ + context).is_prefix_of(proposing(subject, context)),
        s.bootstrap ==> planning_context(s, frontier) == BOOTSTRAP_PROPOSAL_CONTEXT@,
        !s.bootstrap && crate::state::at_terminal_gate(s) && frontier ==> planning_context(
            s,
            frontier,
        ) == TERMINAL_PLANNING@,
        !s.bootstrap && s.agenda is Some && !(crate::state::at_terminal_gate(s) && frontier)
            ==> planning_context(s, frontier) == AGENDA_PLANNING@,
        !s.bootstrap && s.agenda is None && s.change is Some && !(crate::state::at_terminal_gate(s)
            && frontier) ==> planning_context(s, frontier) == PRESCRIBED_PLANNING@,
        !s.bootstrap && s.agenda is None && s.change is None && !(crate::state::at_terminal_gate(s)
            && frontier) ==> planning_context(s, frontier) == OPEN_PLANNING@,
        (subject + "\n\nPOSTCONDITION REPAIR: "@ + failure).is_prefix_of(
            repaired_proposal(subject, failure),
        ),
{
    let a = subject + "\n\n"@ + context;
    assert(proposing(subject, context).subrange(0, a.len() as int) =~= a);
    let b = subject + "\n\nPOSTCONDITION REPAIR: "@ + failure;
    assert(repaired_proposal(subject, failure).subrange(0, b.len() as int) =~= b);
}

proof fn lemma_still_told(before: Seq<char>, told: Seq<char>, after: Seq<char>, p: Seq<char>)
    requires
        contains_text(told, p),
    ensures
        contains_text(before + told + after, p),
{
    let whole = before + told + after;
    let at = choose|at: int| occurs_at(told, p, at);
    let from = before.len() + at;
    assert(whole.subrange(from, from + p.len()) =~= told.subrange(at, at + p.len()));
    assert(occurs_at(whole, p, from));
}

/// Nothing that an agent is to be told is lost on the way: what stands in a subject stands in
/// the subject with a direction, with the place of the product, and in the prompt of the
/// stage. The direction itself does too.
pub proof fn law_nothing_told_is_lost(
    subject: Seq<char>,
    told: Seq<char>,
    direction: Option<Seq<char>>,
    product: Option<Seq<char>>,
    command: Seq<char>,
    protocol: StageProtocol,
    h: HarnessView,
)
    ensures
        contains_text(subject, told) ==> contains_text(with_guidance(subject, direction), told),
        contains_text(subject, told) ==> contains_text(with_workspace(product, subject, h), told),
        contains_text(subject, told) ==> contains_text(prompt_of(command, subject, protocol), told),
        direction matches Some(d) ==> contains_text(with_guidance(subject, direction), d),
        product matches Some(p) ==> contains_text(with_workspace(product, subject, h), p),
        told.is_prefix_of(subject) || told.is_suffix_of(subject) ==> contains_text(subject, told),
{
    let none = Seq::<char>::empty();
    if told.is_prefix_of(subject) {
        assert(subject.subrange(0, told.len() as int) =~= told);
        assert(occurs_at(subject, told, 0));
    }
    if told.is_suffix_of(subject) {
        let at = subject.len() - told.len();
        assert(subject.subrange(at, at + told.len()) =~= told);
        assert(occurs_at(subject, told, at));
    }
    if contains_text(subject, told) {
        assert(none + subject + none =~= subject);
        if direction is Some {
            let z = "\n\nUser direction for this iteration:\n"@ + direction->0 + DIRECTION@;
            lemma_still_told(none, subject, z, told);
            assert(none + subject + z =~= with_guidance(subject, direction));
        }
        if product is Some {
            let z = SIDECAR_1@ + product->0 + SIDECAR_2@ + h.title + SIDECAR_3@ + h.guide()
                + SIDECAR_4@;
            lemma_still_told(none, subject, z, told);
            assert(none + subject + z =~= with_workspace(product, subject, h));
        }
        let head = if command.len() == 0 {
            none
        } else {
            command + " "@
        };
        let z = STAGE_PROMPT_1@ + protocol.values() + STAGE_PROMPT_2@;
        lemma_still_told(head, subject, z, told);
        assert(head + subject + z =~= prompt_of(command, subject, protocol));
    }
    if direction is Some {
        let a = subject + "\n\nUser direction for this iteration:\n"@;
        lemma_told(with_guidance(subject, direction), a, direction->0, DIRECTION@);
    }
    if product is Some {
        let a = subject + SIDECAR_1@;
        let z = SIDECAR_2@ + h.title + SIDECAR_3@ + h.guide() + SIDECAR_4@;
        assert(with_workspace(product, subject, h) =~= a + product->0 + z);
        lemma_told(with_workspace(product, subject, h), a, product->0, z);
    }
}

} // verus!
