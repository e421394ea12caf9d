//! What holds of the arguments of tools.

use vstd::prelude::*;

use crate::engine::BeginSessionRequest;
use crate::engine::RecordStepRequest;
use crate::engine::RollbackRequest;
use crate::engine::SaveCheckpointRequest;
use crate::engine::StepOutcomeStatus;
use crate::engine::VerifyStepRequest;
use crate::mcp;
use crate::number::Real;
use crate::outside;
use crate::text;
use crate::text_laws;
use crate::types;
use crate::types::ActionKind;
use crate::types::RiskLevel;
use crate::types::StepAction;
use crate::types::Verdict;

verus! {

// ── Names ────────────────────────────────────────────────────

/// The text is only white space.
pub open spec fn is_blank(s: Seq<char>) -> bool {
    forall|i: int| 0 <= i < s.len() ==> text::is_space(#[trigger] s[i])
}

/// The texts differ at most in the case of ASCII letters.
pub open spec fn same_but_case(a: Seq<char>, b: Seq<char>) -> bool {
    &&& a.len() == b.len()
    &&& forall|i: int|
        0 <= i < a.len() ==> {
            let x = (#[trigger] a[i]) as int;
            let y = b[i] as int;
            x == y || (65 <= x <= 90 && y == x + 32) || (65 <= y <= 90 && x == y + 32)
        }
}

proof fn lemma_lower_alike(a: Seq<char>, b: Seq<char>)
    requires
        same_but_case(a, b),
    ensures
        text::ascii_lower(a) == text::ascii_lower(b),
{
    assert forall|i: int| 0 <= i < a.len() implies text::ascii_lower(a)[i] == text::ascii_lower(
        b,
    )[i] by {
        let x = a[i];
        let y = b[i];
        assert(x as int == y as int || (65 <= x as int <= 90 && y as int == x as int + 32) || (65
            <= y as int <= 90 && x as int == y as int + 32));
        assert(text::ascii_lower_char(x) as int == text::ascii_lower_char(y) as int);
    }
    assert(text::ascii_lower(a) =~= text::ascii_lower(b));
}

/// Letters of either case are white space in neither.
proof fn lemma_solid_ends(a: Seq<char>, b: Seq<char>)
    requires
        same_but_case(a, b),
        a.len() > 0,
        !text::is_space(a[0]),
        !text::is_space(a.last()),
    ensures
        !text::is_space(b[0]),
        !text::is_space(b.last()),
{
    let n = a.len() - 1;
    assert(a[0] as int == b[0] as int || 65 <= a[0] as int <= 90 || 65 <= b[0] as int <= 90);
    assert(a[n] as int == b[n] as int || 65 <= a[n] as int <= 90 || 65 <= b[n] as int <= 90);
}

/// White space around the name of a known action type and the case of its letters do not
/// matter.
pub proof fn law_known_actions(
    front: Seq<char>,
    name: Seq<char>,
    back: Seq<char>,
    kind: ActionKind,
)
    requires
        is_blank(front),
        is_blank(back),
        !(kind is Other),
        same_but_case(kind.name(), name),
    ensures
        types::named_action(front + name + back) == Some(kind),
{
    reveal_strlit("read");
    reveal_strlit("write");
    reveal_strlit("delete");
    reveal_strlit("execute");
    reveal_strlit("api_call");
    reveal_strlit("search");
    assert("read"@[0] == 'r' && "write"@[0] == 'w' && "delete"@[0] == 'd' && "execute"@[0] == 'e'
        && "api_call"@[0] == 'a' && "search"@[0] == 's');
    let own = kind.name();
    lemma_solid_ends(own, name);
    text_laws::law_trimmed_spaces(front, name, back);
    lemma_lower_alike(own, name);
    assert(text::ascii_lower(own) =~= own);
}

/// The names of the known action types.
pub proof fn law_action_names()
    ensures
        ActionKind::Read.name() == "read"@,
        ActionKind::Write.name() == "write"@,
        ActionKind::Delete.name() == "delete"@,
        ActionKind::Execute.name() == "execute"@,
        ActionKind::ApiCall.name() == "api_call"@,
        ActionKind::Search.name() == "search"@,
        forall|s: Seq<char>| (#[trigger] ActionKind::Other(s).name()) == s,
{
}

/// Text that names no known action type names one of its own, without the white space
/// around it. Blank text names none.
pub proof fn law_other_actions(front: Seq<char>, name: Seq<char>, back: Seq<char>)
    requires
        is_blank(front),
        is_blank(back),
        name.len() > 0 ==> !text::is_space(name[0]) && !text::is_space(name.last()),
    ensures
        name.len() == 0 ==> types::named_action(front + name + back) is None,
        name.len() > 0 && (forall|kind: ActionKind|
            !(kind is Other) ==> !same_but_case(#[trigger] kind.name(), name))
            ==> types::named_action(front + name + back) == Some(ActionKind::Other(name)),
{
    text_laws::law_trimmed_spaces(front, name, back);
    reveal_strlit("read");
    reveal_strlit("write");
    reveal_strlit("delete");
    reveal_strlit("execute");
    reveal_strlit("api_call");
    reveal_strlit("search");
    if name.len() == 0 {
        assert(text::ascii_lower(name).len() == 0);
    } else if forall|kind: ActionKind|
        !(kind is Other) ==> !same_but_case(#[trigger] kind.name(), name) {
        assert(!same_but_case(ActionKind::Read.name(), name));
        assert(!same_but_case(ActionKind::Write.name(), name));
        assert(!same_but_case(ActionKind::Delete.name(), name));
        assert(!same_but_case(ActionKind::Execute.name(), name));
        assert(!same_but_case(ActionKind::ApiCall.name(), name));
        assert(!same_but_case(ActionKind::Search.name(), name));
        lemma_unlowered(name, "read"@);
        lemma_unlowered(name, "write"@);
        lemma_unlowered(name, "delete"@);
        lemma_unlowered(name, "execute"@);
        lemma_unlowered(name, "api_call"@);
        lemma_unlowered(name, "search"@);
    }
}

proof fn lemma_unlowered(name: Seq<char>, lower: Seq<char>)
    ensures
        text::ascii_lower(name) == lower ==> same_but_case(lower, name),
{
    if text::ascii_lower(name) == lower {
        assert(name.len() == lower.len());
        assert forall|i: int| 0 <= i < lower.len() implies ({
            let x = (#[trigger] lower[i]) as int;
            let y = name[i] as int;
            x == y || (65 <= x <= 90 && y == x + 32) || (65 <= y <= 90 && x == y + 32)
        }) by {
            assert(text::ascii_lower(name)[i] == text::ascii_lower_char(name[i]));
        }
    }
}

/// Writing, calling an interface and whatever is not known are dangerous in some measure.
pub proof fn law_medium_risk(kind: ActionKind)
    ensures
        kind.risk() == RiskLevel::Medium <==> kind is Write || kind is ApiCall || kind is Other,
        RiskLevel::Low.label() == "Low"@,
        RiskLevel::Medium.label() == "Medium"@,
        RiskLevel::High.label() == "High"@,
        RiskLevel::Critical.label() == "Critical"@,
{
}

/// A pass has no reasons, and any other verdict has its own.
pub proof fn law_reasons(v: Verdict)
    ensures
        v is Pass ==> v.reasons().len() == 0,
        v matches Verdict::Warn { reasons } ==> v.reasons() == reasons,
        v matches Verdict::Fail { reasons, .. } ==> v.reasons() == reasons,
{
}

/// White space around the name of a status and the case of its letters do not matter, and
/// nothing else names a status.
pub proof fn law_status_names(front: Seq<char>, name: Seq<char>, back: Seq<char>)
    requires
        is_blank(front),
        is_blank(back),
        name.len() > 0 ==> !text::is_space(name[0]) && !text::is_space(name.last()),
    ensures
        mcp::named_status(front + name + back) == Some(StepOutcomeStatus::Success)
            <==> same_but_case("success"@, name),
        mcp::named_status(front + name + back) == Some(StepOutcomeStatus::Failure)
            <==> same_but_case("failure"@, name),
        mcp::named_status(front + name + back) == Some(StepOutcomeStatus::RolledBack)
            <==> same_but_case("rolled_back"@, name),
        mcp::named_status(front + name + back) == Some(StepOutcomeStatus::Skipped)
            <==> same_but_case("skipped"@, name),
{
    text_laws::law_trimmed_spaces(front, name, back);
    reveal_strlit("success");
    reveal_strlit("failure");
    reveal_strlit("rolled_back");
    reveal_strlit("skipped");
    let a = "success"@;
    let b = "failure"@;
    let c = "rolled_back"@;
    let d = "skipped"@;
    assert(text::ascii_lower(a) =~= a);
    assert(text::ascii_lower(b) =~= b);
    assert(text::ascii_lower(c) =~= c);
    assert(text::ascii_lower(d) =~= d);
    assert(a[0] == 's' && b[0] == 'f' && a[1] == 'u' && d[1] == 'k' && c.len() == 11);
    assert(a != b && a != d && b != d);
    lemma_unlowered(name, a);
    lemma_unlowered(name, b);
    lemma_unlowered(name, c);
    lemma_unlowered(name, d);
    if same_but_case(a, name) {
        lemma_lower_alike(a, name);
    }
    if same_but_case(b, name) {
        lemma_lower_alike(b, name);
    }
    if same_but_case(c, name) {
        lemma_lower_alike(c, name);
    }
    if same_but_case(d, name) {
        lemma_lower_alike(d, name);
    }
}

// ── Actions ──────────────────────────────────────────────────

/// Target files are the elements that are texts: one more text is one more file behind
/// the others, and anything else is left out.
pub proof fn law_target_files(items: Seq<Option<Seq<char>>>, file: Seq<char>)
    ensures
        mcp::only_texts(Seq::empty()) == Seq::<Seq<char>>::empty(),
        mcp::only_texts(items.push(Some(file))) == mcp::only_texts(items).push(file),
        mcp::only_texts(items.push(None)) == mcp::only_texts(items),
{
    let keep = |o: Option<Seq<char>>| o is Some;
    let get = |o: Option<Seq<char>>| o->0;
    reveal(Seq::filter);
    assert(Seq::<Option<Seq<char>>>::empty().filter(keep) =~= Seq::<Option<Seq<char>>>::empty());
    assert(mcp::only_texts(Seq::empty()) =~= Seq::<Seq<char>>::empty());
    let with = items.push(Some(file));
    let without = items.push(None);
    assert(with.drop_last() =~= items);
    assert(without.drop_last() =~= items);
    assert(with.filter(keep) == items.filter(keep).push(Some(file)));
    assert(without.filter(keep) == items.filter(keep));
    assert(mcp::only_texts(with) =~= mcp::only_texts(items).push(file));
}

/// What the arguments of a tool describe: the fields as they are, and where there is none
/// an action that reads, with no arguments and no files.
pub proof fn law_described_action(json: &str, r: Result<StepAction, String>)
    requires
        call_ensures(mcp::build_action, (json,), r),
    ensures
        r matches Ok(a) ==> {
            &&& outside::json_text_field(json@, "description"@) == Some(a.description@)
            &&& a.description@.len() > 0
            &&& text::opt_text(a.tool_name) == outside::json_text_field(json@, "tool_name"@)
            &&& outside::json_text_field(json@, "action_type"@) is None ==> a.action_type@ is Read
            &&& outside::json_text_field(json@, "action_type"@) matches Some(name) ==> Some(
                a.action_type@,
            ) == types::named_action(name)
            &&& outside::json_raw_field(json@, "arguments"@) is None ==> a.arguments@ == "{}"@
            &&& outside::json_raw_field(json@, "arguments"@) matches Some(args) ==> a.arguments@
                == args
            &&& outside::json_items_field(json@, "target_files"@) is None
                ==> a.target_files@.len() == 0
            &&& outside::json_items_field(json@, "target_files"@) matches Some(items)
                ==> text::strings(a.target_files@) == mcp::only_texts(items)
        },
        outside::json_text_field(json@, "action_type"@) is None ==> (r is Ok <==> (
        outside::json_text_field(json@, "description"@) matches Some(d) && d.len() > 0)),
        outside::json_text_field(json@, "action_type"@) matches Some(name)
            ==> types::named_action(name) is None ==> (r matches Err(e) && e@
            == "invalid action_type: action type must not be empty"@),
        outside::json_text_field(json@, "description"@) is None ==> r is Err,
        r matches Err(e) ==> (e@ == "invalid action_type: action type must not be empty"@ || e@
            == "description must not be empty"@),
{
    let none = Seq::<char>::empty();
    law_known_actions(none, "read"@, none, ActionKind::Read);
    assert(none + "read"@ + none =~= "read"@);
    if let Ok(a) = r {
        assert(text::strings(a.target_files@).len() == a.target_files@.len());
        assert(a.description@.len() > 0);
        assert(outside::json_text_field(json@, "description"@) is Some);
    }
}

/// The number of a step counts as it is as long as it fits.
pub proof fn law_small_counts(n: u64)
    ensures
        n <= u32::MAX ==> mcp::small_count(Some(n)) == Some(n as u32),
        mcp::small_count(None) is None,
        (mcp::small_count(Some(n))->0 as int - n as int) % 0x1_0000_0000 == 0,
{
    let m = n as int % 0x1_0000_0000;
    assert((m - n as int) % 0x1_0000_0000 == 0) by (nonlinear_arith)
        requires
            m == n as int % 0x1_0000_0000,
    ;
}

// ── Requests ─────────────────────────────────────────────────

/// What is asked to be recorded is what the fields say. A step succeeded and cost no
/// tokens and no time where nothing is said of it.
pub proof fn law_record_request(json: &str, cost: Real, r: Result<RecordStepRequest, String>)
    requires
        call_ensures(mcp::record_request, (json, cost), r),
    ensures
        r matches Ok(q) ==> {
            &&& outside::json_text_field(json@, "session_id"@) == Some(q.session_id@)
            &&& text::opt_text(q.plan) == outside::json_text_field(json@, "plan"@)
            &&& text::opt_text(q.reason) == outside::json_text_field(json@, "reason"@)
            &&& text::opt_text(q.checkpoint_id) == outside::json_text_field(
                json@,
                "checkpoint_id"@,
            )
            &&& text::opt_text(q.result_message) == outside::json_text_field(
                json@,
                "result_message"@,
            )
            &&& outside::json_text_field(json@, "description"@) == Some(q.action.description@)
            &&& text::opt_text(q.action.tool_name) == outside::json_text_field(
                json@,
                "tool_name"@,
            )
            &&& outside::json_text_field(json@, "result_status"@) is None ==> q.result_status
                == StepOutcomeStatus::Success
            &&& outside::json_count_field(json@, "tokens_used"@) is None ==> q.tokens_used == 0
            &&& outside::json_count_field(json@, "tokens_used"@) matches Some(n) ==> q.tokens_used
                == n
            &&& outside::json_count_field(json@, "duration_ms"@) is None ==> q.duration_ms == 0
            &&& outside::json_count_field(json@, "duration_ms"@) matches Some(n) ==> q.duration_ms
                == n
            &&& outside::json_count_field(json@, "step_number"@) is None ==> q.step_number is None
            &&& outside::json_count_field(json@, "step_number"@) matches Some(n) ==> n <= u32::MAX
                ==> q.step_number == Some(n as u32)
            &&& q.cost_usd == cost
        },
        outside::json_text_field(json@, "session_id"@) is None ==> (r matches Err(e) && e@
            == "missing required field: session_id"@),
        outside::json_text_field(json@, "result_status"@) matches Some(s) ==> (
        mcp::named_status(s) is None && mcp::has_action(json@) ==> (r matches Err(e) && e@
            == "invalid result_status: "@ + s)),
{
    let none = Seq::<char>::empty();
    assert(none + "success"@ + none =~= "success"@);
    reveal_strlit("success");
    law_status_names(none, "success"@, none);
    assert(same_but_case("success"@, "success"@));
    reveal_strlit("missing required field: ");
    reveal_strlit("session_id");
    reveal_strlit("missing required field: session_id");
    assert("missing required field: "@ + "session_id"@ =~= "missing required field: session_id"@);
}

/// What is asked to be verified is what the fields say.
pub proof fn law_verify_request(json: &str, r: Result<VerifyStepRequest, String>)
    requires
        call_ensures(mcp::verify_request, (json,), r),
    ensures
        r matches Ok(q) ==> {
            &&& outside::json_text_field(json@, "session_id"@) == Some(q.session_id@)
            &&& text::opt_text(q.plan) == outside::json_text_field(json@, "plan"@)
            &&& outside::json_text_field(json@, "description"@) == Some(q.action.description@)
            &&& outside::json_count_field(json@, "step_number"@) is None ==> q.step_number is None
            &&& outside::json_count_field(json@, "step_number"@) matches Some(n) ==> n <= u32::MAX
                ==> q.step_number == Some(n as u32)
        },
        outside::json_text_field(json@, "session_id"@) is None ==> r is Err,
        outside::json_text_field(json@, "description"@) is None ==> r is Err,
        (outside::json_text_field(json@, "session_id"@) is Some && outside::json_text_field(
            json@,
            "action_type"@,
        ) is None && (outside::json_text_field(json@, "description"@) matches Some(d) && d.len()
            > 0)) ==> r is Ok,
{
    let none = Seq::<char>::empty();
    law_known_actions(none, "read"@, none, ActionKind::Read);
    assert(none + "read"@ + none =~= "read"@);
}

/// What is asked to be rolled back is what the fields say.
pub proof fn law_rollback_request(json: &str, r: Result<RollbackRequest, String>)
    requires
        call_ensures(mcp::rollback_request, (json,), r),
    ensures
        outside::json_text_field(json@, "session_id"@) is None <==> r is Err,
        r matches Ok(q) ==> {
            &&& outside::json_text_field(json@, "session_id"@) == Some(q.session_id@)
            &&& text::opt_text(q.checkpoint_id) == outside::json_text_field(
                json@,
                "checkpoint_id"@,
            )
            &&& text::opt_text(q.reason) == outside::json_text_field(json@, "reason"@)
            &&& outside::json_count_field(json@, "steps_back"@) is None ==> q.steps_back is None
            &&& outside::json_count_field(json@, "steps_back"@) matches Some(n) ==> n <= u32::MAX
                ==> q.steps_back == Some(n as u32)
        },
{
}

/// A session is begun under the name, for the agent and in the directory that the fields
/// say, and in the current directory where they say none.
pub proof fn law_begin_request(json: &str, current_dir: String, r: BeginSessionRequest)
    requires
        call_ensures(mcp::begin_request, (json, current_dir), r),
    ensures
        text::opt_text(r.session_id) == outside::json_text_field(json@, "session_id"@),
        text::opt_text(r.agent_name) == outside::json_text_field(json@, "agent_name"@),
        outside::json_text_field(json@, "working_dir"@) is None ==> r.working_dir@ == current_dir@,
        outside::json_text_field(json@, "working_dir"@) matches Some(dir) ==> r.working_dir@ == dir,
{
}

/// A checkpoint is asked for by a session and an action.
pub proof fn law_save_request(json: &str, r: Result<SaveCheckpointRequest, String>)
    requires
        call_ensures(mcp::save_request, (json,), r),
    ensures
        r matches Ok(q) ==> outside::json_text_field(json@, "session_id"@) == Some(q.session_id@)
            && outside::json_text_field(json@, "description"@) == Some(q.action.description@),
        outside::json_text_field(json@, "session_id"@) is None ==> r is Err,
        outside::json_text_field(json@, "description"@) is None ==> r is Err,
{
}

}
