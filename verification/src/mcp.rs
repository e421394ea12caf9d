//! Tools that agents call, and what their arguments mean.

use vstd::prelude::*;

use crate::engine::BeginSessionRequest;
use crate::engine::RecordStepRequest;
use crate::engine::RollbackRequest;
use crate::engine::SaveCheckpointRequest;
use crate::engine::StepOutcomeStatus;
use crate::engine::VerifyStepRequest;
use crate::number;
use crate::number::Real;
use crate::outside;
use crate::text;
use crate::types;
use crate::types::ActionKind;
use crate::types::ActionType;
use crate::types::StepAction;

verus! {

// ── Fields ───────────────────────────────────────────────────

/// The text of a field that must be there.
pub fn require_text(value: Option<String>, field: &str) -> (r: Result<String, String>)
    ensures
        r is Ok <==> value is Some,
        r matches Ok(s) ==> value == Some(s),
        r matches Err(e) ==> e@ == "missing required field: "@ + field@,
{
    match value {
        Some(s) => Ok(s),
        None => {
            let mut m = "missing required field: ".to_string();
            m.append(field);
            Err(m)
        },
    }
}

/// The text of a field of the arguments that must be there.
pub fn require_str(json: &str, field: &str) -> (r: Result<String, String>)
    ensures
        r is Ok <==> outside::json_text_field(json@, field@) is Some,
        r matches Ok(s) ==> outside::json_text_field(json@, field@) == Some(s@),
        r matches Err(e) ==> e@ == "missing required field: "@ + field@,
{
    require_text(outside::json_str(json, field), field)
}

/// The count of a field of the arguments in its low 32 bits.
pub open spec fn small_count(value: Option<u64>) -> Option<u32> {
    match value {
        Some(n) => Some((n as int % 0x1_0000_0000) as u32),
        None => None,
    }
}

/// The count in its low 32 bits.
fn low_count(value: Option<u64>) -> (r: Option<u32>)
    ensures
        r == small_count(value),
{
    match value {
        Some(n) => Some(number::low_half(n)),
        None => None,
    }
}

/// The status that a text names: surrounding white space and the case of ASCII
/// letters do not matter.
pub open spec fn named_status(value: Seq<char>) -> Option<StepOutcomeStatus> {
    let name = text::ascii_lower(text::trim(value));
    if name == "success"@ {
        Some(StepOutcomeStatus::Success)
    } else if name == "failure"@ {
        Some(StepOutcomeStatus::Failure)
    } else if name == "rolled_back"@ {
        Some(StepOutcomeStatus::RolledBack)
    } else if name == "skipped"@ {
        Some(StepOutcomeStatus::Skipped)
    } else {
        None
    }
}

/// The status that a text names.
pub fn parse_status(value: &str) -> (r: Result<StepOutcomeStatus, String>)
    ensures
        r is Ok <==> named_status(value@) is Some,
        r matches Ok(s) ==> named_status(value@) == Some(s),
        r matches Err(e) ==> e@ == "invalid result_status: "@ + value@,
{
    let lowered = text::to_ascii_lower(text::trim_spaces(value));
    let name = lowered.as_str();
    if text::str_eq(name, "success") {
        Ok(StepOutcomeStatus::Success)
    } else if text::str_eq(name, "failure") {
        Ok(StepOutcomeStatus::Failure)
    } else if text::str_eq(name, "rolled_back") {
        Ok(StepOutcomeStatus::RolledBack)
    } else if text::str_eq(name, "skipped") {
        Ok(StepOutcomeStatus::Skipped)
    } else {
        let mut m = "invalid result_status: ".to_string();
        m.append(value);
        Err(m)
    }
}

// ── Actions ──────────────────────────────────────────────────

/// The fields of an action.
pub struct ActionFields {
    pub action_type: Option<Seq<char>>,
    pub description: Option<Seq<char>>,
    pub tool_name: Option<Seq<char>>,
    pub arguments: Option<Seq<char>>,
    pub target_files: Option<Seq<Option<Seq<char>>>>,
}

/// The elements that are texts, in their order.
pub open spec fn only_texts(items: Seq<Option<Seq<char>>>) -> Seq<Seq<char>> {
    items.filter(|o: Option<Seq<char>>| o is Some).map_values(|o: Option<Seq<char>>| o->0)
}

/// The type of the action: a read where none is given.
pub open spec fn given_type(fields: ActionFields) -> Option<ActionKind> {
    types::named_action(text::or_text(fields.action_type, "read"@))
}

/// The action was described.
pub open spec fn is_described(fields: ActionFields) -> bool {
    text::or_text(fields.description, Seq::empty()).len() > 0
}

/// `action` is the one that the fields describe.
pub open spec fn describes(fields: ActionFields, action: StepAction) -> bool {
    &&& Some(action.action_type@) == given_type(fields)
    &&& text::opt_text(action.tool_name) == fields.tool_name
    &&& action.arguments@ == text::or_text(fields.arguments, "{}"@)
    &&& text::strings(action.target_files@) == match fields.target_files {
        Some(items) => only_texts(items),
        None => Seq::empty(),
    }
    &&& action.description@ == text::or_text(fields.description, Seq::empty())
}

/// What is said of fields that describe no action.
pub open spec fn action_error(fields: ActionFields) -> Seq<char> {
    if given_type(fields) is None {
        "invalid action_type: action type must not be empty"@
    } else {
        "description must not be empty"@
    }
}

/// The elements that are texts, in their order.
fn keep_texts(items: Vec<Option<String>>) -> (r: Vec<String>)
    ensures
        text::strings(r@) == only_texts(text::opt_texts(items@)),
{
    let ghost all = text::opt_texts(items@);
    let ghost keep = |o: Option<Seq<char>>| o is Some;
    let ghost get = |o: Option<Seq<char>>| o->0;
    let mut out: Vec<String> = Vec::new();
    let mut i: usize = 0;
    proof {
        reveal(Seq::filter);
        assert(all.take(0) =~= Seq::<Option<Seq<char>>>::empty());
        assert(text::strings(out@) =~= Seq::<Option<Seq<char>>>::empty().map_values(get));
    }
    while i < items.len()
        invariant
            i <= items.len(),
            all == text::opt_texts(items@),
            keep == (|o: Option<Seq<char>>| o is Some),
            get == (|o: Option<Seq<char>>| o->0),
            text::strings(out@) == all.take(i as int).filter(keep).map_values(get),
        decreases items.len() - i,
    {
        let ghost kept = all.take(i as int).filter(keep);
        proof {
            assert(all[i as int] == text::opt_text(items@[i as int]));
            crate::verification::patterns::lemma_filter_next(all, keep, i as int);
        }
        let ghost before = out@;
        match &items[i] {
            Some(s) => {
                out.push(s.clone());
                proof {
                    assert(text::strings(out@) =~= text::strings(before).push(s@));
                    assert((kept + seq![all[i as int]]).map_values(get) =~= kept.map_values(
                        get,
                    ).push(s@));
                }
            },
            None => {
                assert(kept + Seq::<Option<Seq<char>>>::empty() =~= kept);
            },
        }
        i += 1;
    }
    assert(all.take(i as int) =~= all);
    out
}

/// The fields with their texts.
pub open spec fn fields_of(
    action_type: Option<String>,
    description: Option<String>,
    tool_name: Option<String>,
    arguments: Option<String>,
    target_files: Option<Vec<Option<String>>>,
) -> ActionFields {
    ActionFields {
        action_type: text::opt_text(action_type),
        description: text::opt_text(description),
        tool_name: text::opt_text(tool_name),
        arguments: text::opt_text(arguments),
        target_files: match target_files {
            Some(v) => Some(text::opt_texts(v@)),
            None => None,
        },
    }
}

/// The action that the fields describe.
pub fn action_from_fields(
    action_type: Option<String>,
    description: Option<String>,
    tool_name: Option<String>,
    arguments: Option<String>,
    target_files: Option<Vec<Option<String>>>,
) -> (r: Result<StepAction, String>)
    ensures
        r is Ok <==> given_type(
            fields_of(action_type, description, tool_name, arguments, target_files),
        ) is Some && is_described(
            fields_of(action_type, description, tool_name, arguments, target_files),
        ),
        r matches Ok(a) ==> describes(
            fields_of(action_type, description, tool_name, arguments, target_files),
            a,
        ),
        r matches Err(e) ==> e@ == action_error(
            fields_of(action_type, description, tool_name, arguments, target_files),
        ),
{
    let named = match action_type {
        Some(s) => s,
        None => "read".to_string(),
    };
    let kind = match ActionType::parse(named.as_str()) {
        Ok(t) => t,
        Err(e) => {
            let mut m = "invalid action_type: ".to_string();
            m.append(e.as_str());
            proof {
                reveal_strlit("invalid action_type: ");
                reveal_strlit("action type must not be empty");
                reveal_strlit("invalid action_type: action type must not be empty");
                assert("invalid action_type: "@ + "action type must not be empty"@
                    =~= "invalid action_type: action type must not be empty"@);
            }
            return Err(m);
        },
    };
    let description = match description {
        Some(s) => s,
        None => "".to_string(),
    };
    proof {
        reveal_strlit("");
        assert(""@ =~= Seq::<char>::empty());
    }
    if text::chars_of(description.as_str()).len() == 0 {
        return Err("description must not be empty".to_string());
    }
    let arguments = match arguments {
        Some(s) => s,
        None => "{}".to_string(),
    };
    let target_files = match target_files {
        Some(items) => keep_texts(items),
        None => {
            let none: Vec<String> = Vec::new();
            assert(text::strings(none@) =~= Seq::<Seq<char>>::empty());
            none
        },
    };
    Ok(StepAction { action_type: kind, tool_name, arguments, target_files, description })
}

/// The fields of an action in the arguments of a tool.
pub open spec fn json_fields(json: Seq<char>) -> ActionFields {
    ActionFields {
        action_type: outside::json_text_field(json, "action_type"@),
        description: outside::json_text_field(json, "description"@),
        tool_name: outside::json_text_field(json, "tool_name"@),
        arguments: outside::json_raw_field(json, "arguments"@),
        target_files: outside::json_items_field(json, "target_files"@),
    }
}

/// The action that the arguments of a tool describe.
pub fn build_action(json: &str) -> (r: Result<StepAction, String>)
    ensures
        r is Ok <==> given_type(json_fields(json@)) is Some && is_described(json_fields(json@)),
        r matches Ok(a) ==> describes(json_fields(json@), a),
        r matches Err(e) ==> e@ == action_error(json_fields(json@)),
{
    let action_type = outside::json_str(json, "action_type");
    let description = outside::json_str(json, "description");
    let tool_name = outside::json_str(json, "tool_name");
    let arguments = outside::json_raw(json, "arguments");
    let target_files = outside::json_items(json, "target_files");
    assert(fields_of(action_type, description, tool_name, arguments, target_files) == json_fields(
        json@,
    ));
    action_from_fields(action_type, description, tool_name, arguments, target_files)
}

// ── Requests ─────────────────────────────────────────────────

/// What is asked for when a session is begun. Without a working directory it is
/// `current_dir`.
pub fn begin_request(json: &str, current_dir: String) -> (r: BeginSessionRequest)
    ensures
        text::opt_text(r.session_id) == outside::json_text_field(json@, "session_id"@),
        text::opt_text(r.agent_name) == outside::json_text_field(json@, "agent_name"@),
        r.working_dir@ == text::or_text(
            outside::json_text_field(json@, "working_dir"@),
            current_dir@,
        ),
{
    let working_dir = match outside::json_str(json, "working_dir") {
        Some(dir) => dir,
        None => current_dir,
    };
    BeginSessionRequest {
        session_id: outside::json_str(json, "session_id"),
        agent_name: outside::json_str(json, "agent_name"),
        working_dir,
    }
}

/// The arguments name a session and describe an action.
pub open spec fn has_action(json: Seq<char>) -> bool {
    &&& outside::json_text_field(json, "session_id"@) is Some
    &&& given_type(json_fields(json)) is Some
    &&& is_described(json_fields(json))
}

/// What is said of arguments that do not.
pub open spec fn no_action_error(json: Seq<char>) -> Seq<char> {
    if outside::json_text_field(json, "session_id"@) is None {
        "missing required field: "@ + "session_id"@
    } else {
        action_error(json_fields(json))
    }
}

/// The session and the action in the arguments.
fn session_and_action(json: &str) -> (r: Result<(String, StepAction), String>)
    ensures
        r is Ok <==> has_action(json@),
        r matches Ok(p) ==> outside::json_text_field(json@, "session_id"@) == Some(p.0@)
            && describes(json_fields(json@), p.1),
        r matches Err(e) ==> e@ == no_action_error(json@),
{
    let session_id = match require_str(json, "session_id") {
        Ok(s) => s,
        Err(e) => {
            return Err(e);
        },
    };
    match build_action(json) {
        Ok(action) => Ok((session_id, action)),
        Err(e) => Err(e),
    }
}

/// What is asked for when a step is verified.
pub fn verify_request(json: &str) -> (r: Result<VerifyStepRequest, String>)
    ensures
        r is Ok <==> has_action(json@),
        r matches Ok(q) ==> outside::json_text_field(json@, "session_id"@) == Some(q.session_id@)
            && describes(json_fields(json@), q.action) && q.step_number == small_count(
            outside::json_count_field(json@, "step_number"@),
        ) && text::opt_text(q.plan) == outside::json_text_field(json@, "plan"@),
        r matches Err(e) ==> e@ == no_action_error(json@),
{
    match session_and_action(json) {
        Ok((session_id, action)) => Ok(
            VerifyStepRequest {
                session_id,
                step_number: low_count(outside::json_u64(json, "step_number")),
                plan: outside::json_str(json, "plan"),
                action,
            },
        ),
        Err(e) => Err(e),
    }
}

/// What is asked for when a checkpoint is saved.
pub fn save_request(json: &str) -> (r: Result<SaveCheckpointRequest, String>)
    ensures
        r is Ok <==> has_action(json@),
        r matches Ok(q) ==> outside::json_text_field(json@, "session_id"@) == Some(q.session_id@)
            && describes(json_fields(json@), q.action),
        r matches Err(e) ==> e@ == no_action_error(json@),
{
    match session_and_action(json) {
        Ok((session_id, action)) => Ok(SaveCheckpointRequest { session_id, action }),
        Err(e) => Err(e),
    }
}

/// The status that the arguments name. A step succeeded where they name none.
pub open spec fn given_status(json: Seq<char>) -> Seq<char> {
    text::or_text(outside::json_text_field(json, "result_status"@), "success"@)
}

/// The count, or 0 where there is none.
pub open spec fn or_zero(value: Option<u64>) -> u64 {
    match value {
        Some(n) => n,
        None => 0,
    }
}

/// `q` is what the arguments ask to record, at this cost.
pub open spec fn asks_to_record(json: Seq<char>, cost_usd: Real, q: RecordStepRequest) -> bool {
    &&& outside::json_text_field(json, "session_id"@) == Some(q.session_id@)
    &&& describes(json_fields(json), q.action)
    &&& q.step_number == small_count(outside::json_count_field(json, "step_number"@))
    &&& text::opt_text(q.plan) == outside::json_text_field(json, "plan"@)
    &&& text::opt_text(q.reason) == outside::json_text_field(json, "reason"@)
    &&& text::opt_text(q.checkpoint_id) == outside::json_text_field(json, "checkpoint_id"@)
    &&& Some(q.result_status) == named_status(given_status(json))
    &&& text::opt_text(q.result_message) == outside::json_text_field(json, "result_message"@)
    &&& q.tokens_used == or_zero(outside::json_count_field(json, "tokens_used"@))
    &&& q.cost_usd == cost_usd
    &&& q.duration_ms == or_zero(outside::json_count_field(json, "duration_ms"@))
}

/// What is asked for when a step is recorded, at this cost.
pub fn record_request(json: &str, cost_usd: Real) -> (r: Result<RecordStepRequest, String>)
    ensures
        r is Ok <==> has_action(json@) && named_status(given_status(json@)) is Some,
        r matches Ok(q) ==> asks_to_record(json@, cost_usd, q),
        r matches Err(e) ==> e@ == (if !has_action(json@) {
            no_action_error(json@)
        } else {
            "invalid result_status: "@ + given_status(json@)
        }),
{
    let (session_id, action) = match session_and_action(json) {
        Ok(p) => p,
        Err(e) => {
            return Err(e);
        },
    };
    let status_text = match outside::json_str(json, "result_status") {
        Some(s) => s,
        None => "success".to_string(),
    };
    let result_status = match parse_status(status_text.as_str()) {
        Ok(s) => s,
        Err(e) => {
            return Err(e);
        },
    };
    let tokens_used = match outside::json_u64(json, "tokens_used") {
        Some(n) => n,
        None => 0,
    };
    let duration_ms = match outside::json_u64(json, "duration_ms") {
        Some(n) => n,
        None => 0,
    };
    Ok(
        RecordStepRequest {
            session_id,
            step_number: low_count(outside::json_u64(json, "step_number")),
            plan: outside::json_str(json, "plan"),
            action,
            reason: outside::json_str(json, "reason"),
            checkpoint_id: outside::json_str(json, "checkpoint_id"),
            result_status,
            result_message: outside::json_str(json, "result_message"),
            tokens_used,
            cost_usd,
            duration_ms,
        },
    )
}

/// What is asked for when steps are rolled back.
pub fn rollback_request(json: &str) -> (r: Result<RollbackRequest, String>)
    ensures
        r is Ok <==> outside::json_text_field(json@, "session_id"@) is Some,
        r matches Ok(q) ==> outside::json_text_field(json@, "session_id"@) == Some(q.session_id@)
            && text::opt_text(q.checkpoint_id) == outside::json_text_field(
            json@,
            "checkpoint_id"@,
        ) && q.steps_back == small_count(outside::json_count_field(json@, "steps_back"@))
            && text::opt_text(q.reason) == outside::json_text_field(json@, "reason"@),
        r matches Err(e) ==> e@ == "missing required field: "@ + "session_id"@,
{
    match require_str(json, "session_id") {
        Ok(session_id) => Ok(
            RollbackRequest {
                session_id,
                checkpoint_id: outside::json_str(json, "checkpoint_id"),
                steps_back: low_count(outside::json_u64(json, "steps_back")),
                reason: outside::json_str(json, "reason"),
            },
        ),
        Err(e) => Err(e),
    }
}

}
