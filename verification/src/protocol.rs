//! What holds of the terminal results that the stages accept.
use crate::backend::{law_status_words, signal_word, status_signal, StageProtocol, StageSignal};
use crate::text::starts;
use vstd::prelude::*;
use vstd::string::*;

verus! {

/// The results that a stage accepts, in order.
pub open spec fn accepted(p: StageProtocol) -> Seq<StageSignal> {
    match p {
        StageProtocol::Ready => seq![StageSignal::Ready, StageSignal::Blocked],
        StageProtocol::Worker => seq![
            StageSignal::Ready,
            StageSignal::TooLarge,
            StageSignal::Blocked,
        ],
        StageProtocol::Propose => seq![
            StageSignal::Ready,
            StageSignal::Done,
            StageSignal::TooLarge,
            StageSignal::Blocked,
        ],
        StageProtocol::Verify => seq![
            StageSignal::Verified,
            StageSignal::Retry,
            StageSignal::Blocked,
        ],
        StageProtocol::Frontier => seq![StageSignal::Replanned, StageSignal::Blocked],
        StageProtocol::TerminalReview => seq![
            StageSignal::Ready,
            StageSignal::Replanned,
            StageSignal::Blocked,
        ],
    }
}

/// The words of some results, as a sentence lists them.
pub open spec fn listed(signals: Seq<StageSignal>) -> Seq<char> {
    if signals.len() == 2 {
        signal_word(signals[0]) + " or "@ + signal_word(signals[1])
    } else {
        leading(signals.drop_last()) + "or "@ + signal_word(signals.last())
    }
}

/// Words that others follow in a list.
pub open spec fn leading(signals: Seq<StageSignal>) -> Seq<char>
    decreases signals.len(),
{
    if signals.len() == 0 {
        Seq::empty()
    } else {
        leading(signals.drop_last()) + signal_word(signals.last()) + ", "@
    }
}

/// The words of some results, as a schema enumerates them.
pub open spec fn enumerated(signals: Seq<StageSignal>) -> Seq<char>
    decreases signals.len(),
{
    if signals.len() == 0 {
        Seq::empty()
    } else if signals.len() == 1 {
        "\""@ + signal_word(signals.last()) + "\""@
    } else {
        enumerated(signals.drop_last()) + ",\""@ + signal_word(signals.last()) + "\""@
    }
}

pub const SCHEMA_HEAD: &'static str =
    "{\"type\":\"object\",\"properties\":{\"opsx_status\":{\"type\":\"string\",\"enum\":[";

/// The words that a prompt lists are the ones that the schema of the structured result
/// enumerates, in the same order, and each of them is read back as its result.
pub proof fn law_prompts_and_schemas_name_the_same_results(p: StageProtocol)
    ensures
        p.values() == listed(accepted(p)),
        starts(p.schema(), SCHEMA_HEAD@ + enumerated(accepted(p)) + "]}"@),
        forall|i: int|
            0 <= i < accepted(p).len() ==> status_signal(signal_word(#[trigger] accepted(p)[i]))
                == Some(accepted(p)[i]),
{
    assert forall|i: int| 0 <= i < accepted(p).len() implies status_signal(
        signal_word(#[trigger] accepted(p)[i]),
    ) == Some(accepted(p)[i]) by {
        law_status_words(accepted(p)[i]);
    }
    lemma_listed(p);
    lemma_enumerated(p);
}

/// Every stage may be blocked. Only a proposal may find its work done, only it and a worker
/// may find it too large, only the frontier plans anew, only verification asks for another
/// try, and planning anew is never ready.
pub proof fn law_results_belong_to_their_stages(p: StageProtocol)
    ensures
        accepted(p).last() == StageSignal::Blocked,
        accepted(p).contains(StageSignal::Done) <==> p == StageProtocol::Propose,
        accepted(p).contains(StageSignal::TooLarge) <==> p == StageProtocol::Propose || p
            == StageProtocol::Worker,
        accepted(p).contains(StageSignal::Replanned) <==> p == StageProtocol::Frontier || p
            == StageProtocol::TerminalReview,
        accepted(p).contains(StageSignal::Retry) <==> p == StageProtocol::Verify,
        accepted(p).contains(StageSignal::Verified) <==> p == StageProtocol::Verify,
        accepted(p).contains(StageSignal::Ready) <==> p != StageProtocol::Verify && p
            != StageProtocol::Frontier,
{
    let all = accepted(p);
    assert(all[0] == all[0] && all[1] == all[1]);
    if all.len() > 2 {
        assert(all[2] == all[2]);
    }
    if all.len() > 3 {
        assert(all[3] == all[3]);
    }
}

proof fn lemma_listed(p: StageProtocol)
    ensures
        p.values() == listed(accepted(p)),
{
    reveal_with_fuel(leading, 4);
    reveal_strlit(" or ");
    reveal_strlit("or ");
    reveal_strlit(", ");
    reveal_strlit("READY");
    reveal_strlit("BLOCKED");
    reveal_strlit("TOO_LARGE");
    reveal_strlit("DONE");
    reveal_strlit("VERIFIED");
    reveal_strlit("RETRY");
    reveal_strlit("REPLANNED");
    reveal_strlit("READY or BLOCKED");
    reveal_strlit("READY, TOO_LARGE, or BLOCKED");
    reveal_strlit("READY, DONE, TOO_LARGE, or BLOCKED");
    reveal_strlit("VERIFIED, RETRY, or BLOCKED");
    reveal_strlit("REPLANNED or BLOCKED");
    reveal_strlit("READY, REPLANNED, or BLOCKED");
    assert(p.values() =~= listed(accepted(p)));
}

proof fn lemma_enumerated(p: StageProtocol)
    ensures
        starts(p.schema(), SCHEMA_HEAD@ + enumerated(accepted(p)) + "]}"@),
{
    reveal_with_fuel(enumerated, 5);
    reveal_strlit("\"");
    reveal_strlit(",\"");
    reveal_strlit("]}");
    reveal_strlit("READY");
    reveal_strlit("BLOCKED");
    reveal_strlit("TOO_LARGE");
    reveal_strlit("DONE");
    reveal_strlit("VERIFIED");
    reveal_strlit("RETRY");
    reveal_strlit("REPLANNED");
    reveal_strlit("{\"type\":\"object\",\"properties\":{\"opsx_status\":{\"type\":\"string\",\"enum\":[");
    let head = SCHEMA_HEAD@ + enumerated(accepted(p)) + "]}"@;
    match p {
        StageProtocol::Ready => {
            reveal_strlit(
                "{\"type\":\"object\",\"properties\":{\"opsx_status\":{\"type\":\"string\",\"enum\":[\"READY\",\"BLOCKED\"]},\"summary\":{\"type\":\"string\",\"description\":\"Concise stage result. For BLOCKED, include the exact blocker and evidence needed for a human decision.\"}},\"required\":[\"opsx_status\",\"summary\"],\"additionalProperties\":false}",
            );
        },
        StageProtocol::Worker => {
            reveal_strlit(
                "{\"type\":\"object\",\"properties\":{\"opsx_status\":{\"type\":\"string\",\"enum\":[\"READY\",\"TOO_LARGE\",\"BLOCKED\"]},\"summary\":{\"type\":\"string\",\"description\":\"Concise worker-stage result. For TOO_LARGE, cite a concrete capacity or scope constraint, what was inspected or attempted, why ordered tasks within the assigned change cannot resolve it, and the minimum necessary decomposition. Multiple implementation steps or tests alone are insufficient. For BLOCKED, include the exact external decision or unavailable input.\"}},\"required\":[\"opsx_status\",\"summary\"],\"additionalProperties\":false}",
            );
        },
        StageProtocol::Propose => {
            reveal_strlit(
                "{\"type\":\"object\",\"properties\":{\"opsx_status\":{\"type\":\"string\",\"enum\":[\"READY\",\"DONE\",\"TOO_LARGE\",\"BLOCKED\"]},\"summary\":{\"type\":\"string\",\"description\":\"Concise proposal result. DONE means the requested objective is already satisfied. For TOO_LARGE, cite repository evidence of a concrete capacity or scope constraint, why ordered tasks within the assigned change cannot resolve it, and the minimum necessary decomposition. Multiple implementation steps or tests alone are insufficient. Neither outcome may create or modify OpenSpec artifacts. Include the exact external blocker for BLOCKED.\"}},\"required\":[\"opsx_status\",\"summary\"],\"additionalProperties\":false}",
            );
        },
        StageProtocol::Verify => {
            reveal_strlit(
                "{\"type\":\"object\",\"properties\":{\"opsx_status\":{\"type\":\"string\",\"enum\":[\"VERIFIED\",\"RETRY\",\"BLOCKED\"]},\"summary\":{\"type\":\"string\",\"description\":\"Concise stage result. For RETRY, include every actionable verification finding needed by the repair stage. For BLOCKED, include the exact blocker.\"}},\"required\":[\"opsx_status\",\"summary\"],\"additionalProperties\":false}",
            );
        },
        StageProtocol::Frontier => {
            reveal_strlit(
                "{\"type\":\"object\",\"properties\":{\"opsx_status\":{\"type\":\"string\",\"enum\":[\"REPLANNED\",\"BLOCKED\"]},\"summary\":{\"type\":\"string\",\"description\":\"Concise frontier-planning result. REPLANNED means the oversized agenda slice was replaced by a smaller first slice plus one or more ordered hierarchical descendants and committed. BLOCKED means safe subdivision requires a genuine external decision.\"}},\"required\":[\"opsx_status\",\"summary\"],\"additionalProperties\":false}",
            );
        },
        StageProtocol::TerminalReview => {
            reveal_strlit(
                "{\"type\":\"object\",\"properties\":{\"opsx_status\":{\"type\":\"string\",\"enum\":[\"READY\",\"REPLANNED\",\"BLOCKED\"]},\"summary\":{\"type\":\"string\",\"description\":\"Concise terminal acceptance review. READY means the project is ready for its final acceptance slice and no repository state changed. REPLANNED means one or more bounded remediation slices were inserted before the unchanged terminal gate and committed. BLOCKED means safe review or remediation requires a genuine external decision.\"}},\"required\":[\"opsx_status\",\"summary\"],\"additionalProperties\":false}",
            );
        },
    }
    assert(p.schema().subrange(0, head.len() as int) =~= head);
}

} // verus!
