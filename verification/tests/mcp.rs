use carapace::engine::StepOutcomeStatus;
use carapace::mcp::{
    action_from_fields, begin_request, build_action, parse_status, record_request, require_str,
    require_text, rollback_request, save_request, verify_request,
};
use carapace::number::Real;
use carapace::tools::{tool_definitions, tool_named, ArgumentKind, ToolKind};
use carapace::types::ActionType;

#[test]
fn tool_definitions_include_checkpoint_tools() {
    let tool_names: Vec<String> = tool_definitions()
        .into_iter()
        .map(|tool| tool.name.to_string())
        .collect();

    assert!(tool_names.contains(&"carapace_begin_session".to_string()));
    assert!(tool_names.contains(&"carapace_verify_step".to_string()));
    assert!(tool_names.contains(&"carapace_save_checkpoint".to_string()));
    assert!(tool_names.contains(&"carapace_record_step".to_string()));
    assert!(tool_names.contains(&"carapace_rollback".to_string()));
    assert!(tool_names.contains(&"carapace_session_summary".to_string()));
}

#[test]
fn parse_statuses() {
    assert!(matches!(parse_status("success").unwrap(), StepOutcomeStatus::Success));
    assert!(matches!(parse_status("failure").unwrap(), StepOutcomeStatus::Failure));
    assert!(matches!(parse_status("rolled_back").unwrap(), StepOutcomeStatus::RolledBack));
    assert!(matches!(parse_status("skipped").unwrap(), StepOutcomeStatus::Skipped));
    assert!(parse_status("oops").is_err());
}

#[test]
fn build_action_requires_description() {
    let val = "{\"action_type\":\"write\",\"tool_name\":\"edit_file\",\"target_files\":[\"src/lib.rs\"]}";

    assert!(build_action(val).is_err());
    assert_eq!(build_action(val).unwrap_err(), "description must not be empty");
}

#[test]
fn statuses_are_read_leniently() {
    assert_eq!(parse_status("  Rolled_BACK\n"), Ok(StepOutcomeStatus::RolledBack));
    assert_eq!(parse_status(" oops "), Err("invalid result_status:  oops ".to_string()));
    assert!(parse_status("").is_err());
}

#[test]
fn actions_are_built_from_arguments() {
    let a = build_action(
        "{\"action_type\":\" Write \",\"description\":\"d\",\"tool_name\":\"t\",\
         \"arguments\":{\"b\":[1, 2],\"a\":null},\"target_files\":[\"x\",3,\"y\",null]}",
    )
    .unwrap();
    assert!(matches!(a.action_type, ActionType::Write));
    assert_eq!(a.description, "d");
    assert_eq!(a.tool_name.as_deref(), Some("t"));
    assert_eq!(a.target_files, vec!["x".to_string(), "y".to_string()]);
    let expected: serde_json::Value = serde_json::from_str("{\"b\":[1,2],\"a\":null}").unwrap();
    assert_eq!(a.arguments, expected.to_string());

    let a = build_action("{\"description\":\"d\",\"target_files\":\"x\"}").unwrap();
    assert!(matches!(a.action_type, ActionType::Read));
    assert_eq!(a.arguments, "{}");
    assert!(a.tool_name.is_none());
    assert!(a.target_files.is_empty());

    let a = build_action("{\"description\":\"d\",\"action_type\":\"Deploy\"}").unwrap();
    assert_eq!(a.action_type.as_str(), "Deploy");
}

#[test]
fn broken_arguments_build_no_action() {
    assert_eq!(
        build_action("{\"action_type\":\"  \",\"description\":\"d\"}").unwrap_err(),
        "invalid action_type: action type must not be empty"
    );
    assert_eq!(build_action("not json").unwrap_err(), "description must not be empty");
    assert_eq!(build_action("{\"description\":7}").unwrap_err(), "description must not be empty");
    assert_eq!(
        action_from_fields(Some("".into()), None, None, None, None).unwrap_err(),
        "invalid action_type: action type must not be empty"
    );
    assert_eq!(
        action_from_fields(None, Some("".into()), None, None, None).unwrap_err(),
        "description must not be empty"
    );
    let a = action_from_fields(
        Some("search".into()),
        Some("d".into()),
        None,
        Some("[1]".into()),
        Some(vec![None, Some("f".into())]),
    )
    .unwrap();
    assert!(matches!(a.action_type, ActionType::Search));
    assert_eq!(a.arguments, "[1]");
    assert_eq!(a.target_files, vec!["f".to_string()]);
}

#[test]
fn required_fields() {
    assert_eq!(require_str("{\"a\":\"x\"}", "a"), Ok("x".to_string()));
    assert_eq!(require_str("{\"a\":1}", "a"), Err("missing required field: a".to_string()));
    assert_eq!(require_str("[]", "a"), Err("missing required field: a".to_string()));
    assert_eq!(require_text(None, "b"), Err("missing required field: b".to_string()));
}

#[test]
fn requests_to_begin() {
    let r = begin_request("{\"session_id\":\"s\",\"agent_name\":\"a\",\"working_dir\":\"/w\"}", "/here".into());
    assert_eq!(r.session_id.as_deref(), Some("s"));
    assert_eq!(r.agent_name.as_deref(), Some("a"));
    assert_eq!(r.working_dir, "/w");
    let r = begin_request("{}", "/here".into());
    assert!(r.session_id.is_none() && r.agent_name.is_none());
    assert_eq!(r.working_dir, "/here");
}

#[test]
fn requests_to_verify_and_save() {
    let json = "{\"session_id\":\"s\",\"description\":\"d\",\"step_number\":4294967298,\"plan\":\"p\"}";
    let r = verify_request(json).unwrap();
    assert_eq!(r.session_id, "s");
    assert_eq!(r.step_number, Some(2));
    assert_eq!(r.plan.as_deref(), Some("p"));
    assert_eq!(r.action.description, "d");
    assert_eq!(save_request(json).unwrap().session_id, "s");
    assert_eq!(
        verify_request("{\"description\":\"d\"}").unwrap_err(),
        "missing required field: session_id"
    );
    assert_eq!(save_request("{\"session_id\":\"s\"}").unwrap_err(), "description must not be empty");
    let r = verify_request("{\"session_id\":\"s\",\"description\":\"d\",\"step_number\":-1}").unwrap();
    assert_eq!(r.step_number, None);
}

#[test]
fn requests_to_record() {
    let cost = Real { bits: 0.5f64.to_bits() };
    let r = record_request(
        "{\"session_id\":\"s\",\"description\":\"d\",\"reason\":\"r\",\"checkpoint_id\":\"c\",\
         \"result_status\":\"FAILURE\",\"result_message\":\"m\",\"tokens_used\":7,\"duration_ms\":9}",
        cost,
    )
    .unwrap();
    assert_eq!(r.result_status, StepOutcomeStatus::Failure);
    assert_eq!(r.result_message.as_deref(), Some("m"));
    assert_eq!(r.reason.as_deref(), Some("r"));
    assert_eq!(r.checkpoint_id.as_deref(), Some("c"));
    assert_eq!((r.tokens_used, r.duration_ms), (7, 9));
    assert_eq!(r.cost_usd, cost);
    assert!(r.step_number.is_none());

    let r = record_request("{\"session_id\":\"s\",\"description\":\"d\"}", cost).unwrap();
    assert_eq!(r.result_status, StepOutcomeStatus::Success);
    assert_eq!((r.tokens_used, r.duration_ms), (0, 0));
    assert_eq!(
        record_request("{\"session_id\":\"s\",\"description\":\"d\",\"result_status\":\"x\"}", cost).unwrap_err(),
        "invalid result_status: x"
    );
    assert_eq!(
        record_request("{\"result_status\":\"x\"}", cost).unwrap_err(),
        "missing required field: session_id"
    );
}

#[test]
fn requests_to_roll_back() {
    let r = rollback_request("{\"session_id\":\"s\",\"checkpoint_id\":\"c\",\"steps_back\":2,\"reason\":\"r\"}").unwrap();
    assert_eq!(r.session_id, "s");
    assert_eq!(r.checkpoint_id.as_deref(), Some("c"));
    assert_eq!(r.steps_back, Some(2));
    assert_eq!(r.reason.as_deref(), Some("r"));
    assert_eq!(rollback_request("{}").unwrap_err(), "missing required field: session_id");
}

#[test]
fn listed_tools_can_be_called() {
    let tools = tool_definitions();
    assert_eq!(tools.len(), 7);
    for t in &tools {
        assert_eq!(tool_named(t.name), Some(t.kind));
        for r in &t.required {
            assert!(t.arguments.iter().any(|a| a.name == *r), "{}: {r}", t.name);
        }
    }
    assert_eq!(tool_named("carapace_learn"), Some(ToolKind::Learn));
    assert_eq!(tool_named("carapace_fly"), None);
    assert_eq!(tool_named(""), None);
}

#[test]
fn arguments_of_tools() {
    let tools = tool_definitions();
    assert_eq!(tools[1].required, vec!["session_id", "action_type", "description"]);
    assert_eq!(
        tools[1].arguments[3].choices,
        vec!["read", "write", "delete", "execute", "api_call", "search"]
    );
    assert_eq!(tools[1].arguments[6].kind, ArgumentKind::TextList);
    assert_eq!(tools[3].arguments.len(), 15);
    assert_eq!(tools[3].arguments[10].choices, vec!["success", "failure", "rolled_back", "skipped"]);
    assert_eq!(tools[3].arguments[13].kind, ArgumentKind::Number);
    assert_eq!(
        tools[6].arguments[0].description,
        Some("Minimum confidence threshold (0.0-1.0, default 0.3)")
    );
    assert!(tools[0].required.is_empty());
}
