//! The tools that agents can call.

use vstd::prelude::*;

use crate::text;

verus! {

/// What a tool is called for.
#[derive(Debug, Clone, Copy, PartialEq, Eq, Structural)]
pub enum ToolKind {
    BeginSession,
    VerifyStep,
    SaveCheckpoint,
    RecordStep,
    Rollback,
    SessionSummary,
    Learn,
}

/// What kind of value an argument takes.
#[derive(Debug, Clone, Copy, PartialEq, Eq, Structural)]
pub enum ArgumentKind {
    Text,
    Integer,
    Number,
    Object,
    TextList,
}

/// An argument of a tool.
#[derive(Debug)]
pub struct Argument {
    pub name: &'static str,
    pub kind: ArgumentKind,
    pub description: Option<&'static str>,
    /// The values that are accepted, where not all are.
    pub choices: Vec<&'static str>,
}

/// A tool and its arguments.
#[derive(Debug)]
pub struct ToolDefinition {
    pub kind: ToolKind,
    pub name: &'static str,
    pub description: &'static str,
    pub required: Vec<&'static str>,
    pub arguments: Vec<Argument>,
}

/// An argument with its texts.
#[verifier::ext_equal]
pub struct ArgumentText {
    pub name: Seq<char>,
    pub kind: ArgumentKind,
    pub description: Option<Seq<char>>,
    pub choices: Seq<Seq<char>>,
}

impl View for Argument {
    type V = ArgumentText;

    open spec fn view(&self) -> ArgumentText {
        ArgumentText {
            name: self.name@,
            kind: self.kind,
            description: match self.description {
                Some(d) => Some(d@),
                None => None,
            },
            choices: text::texts(self.choices@),
        }
    }
}

/// The texts of arguments.
pub open spec fn arguments(v: Seq<Argument>) -> Seq<ArgumentText> {
    v.map_values(|a: Argument| a@)
}

/// A tool with its texts.
#[verifier::ext_equal]
pub struct ToolText {
    pub kind: ToolKind,
    pub name: Seq<char>,
    pub description: Seq<char>,
    pub required: Seq<Seq<char>>,
    pub arguments: Seq<ArgumentText>,
}

impl View for ToolDefinition {
    type V = ToolText;

    open spec fn view(&self) -> ToolText {
        ToolText {
            kind: self.kind,
            name: self.name@,
            description: self.description@,
            required: text::texts(self.required@),
            arguments: arguments(self.arguments@),
        }
    }
}

/// The texts of tools.
pub open spec fn tools(v: Seq<ToolDefinition>) -> Seq<ToolText> {
    v.map_values(|t: ToolDefinition| t@)
}

/// An argument without more to say about it.
pub open spec fn plain_arg(name: Seq<char>, kind: ArgumentKind) -> ArgumentText {
    ArgumentText { name, kind, description: None, choices: Seq::empty() }
}

/// An argument with a description.
pub open spec fn described_arg(name: Seq<char>, kind: ArgumentKind, description: Seq<char>) -> ArgumentText {
    ArgumentText { name, kind, description: Some(description), choices: Seq::empty() }
}

/// A text argument that takes only these values.
pub open spec fn choice_arg(name: Seq<char>, choices: Seq<Seq<char>>) -> ArgumentText {
    ArgumentText { name, kind: ArgumentKind::Text, description: None, choices }
}

fn plain(name: &'static str, kind: ArgumentKind) -> (r: Argument)
    ensures
        r@ == plain_arg(name@, kind),
{
    let r = Argument { name, kind, description: None, choices: Vec::new() };
    assert(r@.choices =~= Seq::<Seq<char>>::empty());
    r
}

fn described(name: &'static str, kind: ArgumentKind, description: &'static str) -> (r: Argument)
    ensures
        r@ == described_arg(name@, kind, description@),
{
    let r = Argument { name, kind, description: Some(description), choices: Vec::new() };
    assert(r@.choices =~= Seq::<Seq<char>>::empty());
    r
}

fn choice(name: &'static str, choices: Vec<&'static str>) -> (r: Argument)
    ensures
        r@ == choice_arg(name@, text::texts(choices@)),
{
    Argument { name, kind: ArgumentKind::Text, description: None, choices }
}

/// The arguments of a tool that is given an action.
pub open spec fn action_arguments() -> Seq<ArgumentText> {
    seq![
        plain_arg("session_id"@, ArgumentKind::Text),
        plain_arg("step_number"@, ArgumentKind::Integer),
        plain_arg("plan"@, ArgumentKind::Text),
        choice_arg("action_type"@, seq!["read"@, "write"@, "delete"@, "execute"@, "api_call"@, "search"@]),
        plain_arg("tool_name"@, ArgumentKind::Text),
        plain_arg("arguments"@, ArgumentKind::Object),
        plain_arg("target_files"@, ArgumentKind::TextList),
        plain_arg("description"@, ArgumentKind::Text),
    ]
}

fn action_args() -> (r: Vec<Argument>)
    ensures
        arguments(r@) == action_arguments(),
{
    let action_type = choice("action_type", vec!["read", "write", "delete", "execute", "api_call", "search"]);
    assert(action_type@ =~= choice_arg("action_type"@, seq!["read"@, "write"@, "delete"@, "execute"@, "api_call"@, "search"@]));
    let r = vec![
        plain("session_id", ArgumentKind::Text),
        plain("step_number", ArgumentKind::Integer),
        plain("plan", ArgumentKind::Text),
        action_type,
        plain("tool_name", ArgumentKind::Text),
        plain("arguments", ArgumentKind::Object),
        plain("target_files", ArgumentKind::TextList),
        plain("description", ArgumentKind::Text),
    ];
    assert(arguments(r@) =~= action_arguments());
    r
}

/// The arguments of `carapace_begin_session`.
pub open spec fn begin_arguments() -> Seq<ArgumentText> {
    seq![
        described_arg("session_id"@, ArgumentKind::Text, "Optional session ID to resume; omit for a new session"@),
        described_arg("agent_name"@, ArgumentKind::Text, "Name of the calling agent"@),
        described_arg("working_dir"@, ArgumentKind::Text, "Absolute path to the project directory"@),
    ]
}

fn begin_args() -> (r: Vec<Argument>)
    ensures
        arguments(r@) == begin_arguments(),
{
    let r = vec![
        described("session_id", ArgumentKind::Text, "Optional session ID to resume; omit for a new session"),
        described("agent_name", ArgumentKind::Text, "Name of the calling agent"),
        described("working_dir", ArgumentKind::Text, "Absolute path to the project directory"),
    ];
    assert(arguments(r@) =~= begin_arguments());
    r
}

/// The arguments of `carapace_record_step`.
pub open spec fn record_arguments() -> Seq<ArgumentText> {
    seq![
        plain_arg("session_id"@, ArgumentKind::Text),
        plain_arg("step_number"@, ArgumentKind::Integer),
        plain_arg("plan"@, ArgumentKind::Text),
        plain_arg("action_type"@, ArgumentKind::Text),
        plain_arg("tool_name"@, ArgumentKind::Text),
        plain_arg("arguments"@, ArgumentKind::Object),
        plain_arg("target_files"@, ArgumentKind::TextList),
        plain_arg("description"@, ArgumentKind::Text),
        plain_arg("reason"@, ArgumentKind::Text),
        plain_arg("checkpoint_id"@, ArgumentKind::Text),
        choice_arg("result_status"@, seq!["success"@, "failure"@, "rolled_back"@, "skipped"@]),
        plain_arg("result_message"@, ArgumentKind::Text),
        plain_arg("tokens_used"@, ArgumentKind::Integer),
        plain_arg("cost_usd"@, ArgumentKind::Number),
        plain_arg("duration_ms"@, ArgumentKind::Integer),
    ]
}

fn record_args() -> (r: Vec<Argument>)
    ensures
        arguments(r@) == record_arguments(),
{
    let result_status = choice("result_status", vec!["success", "failure", "rolled_back", "skipped"]);
    assert(result_status@ =~= choice_arg("result_status"@, seq!["success"@, "failure"@, "rolled_back"@, "skipped"@]));
    let r = vec![
        plain("session_id", ArgumentKind::Text),
        plain("step_number", ArgumentKind::Integer),
        plain("plan", ArgumentKind::Text),
        plain("action_type", ArgumentKind::Text),
        plain("tool_name", ArgumentKind::Text),
        plain("arguments", ArgumentKind::Object),
        plain("target_files", ArgumentKind::TextList),
        plain("description", ArgumentKind::Text),
        plain("reason", ArgumentKind::Text),
        plain("checkpoint_id", ArgumentKind::Text),
        result_status,
        plain("result_message", ArgumentKind::Text),
        plain("tokens_used", ArgumentKind::Integer),
        plain("cost_usd", ArgumentKind::Number),
        plain("duration_ms", ArgumentKind::Integer),
    ];
    assert(arguments(r@) =~= record_arguments());
    r
}

/// The arguments of `carapace_rollback`.
pub open spec fn rollback_arguments() -> Seq<ArgumentText> {
    seq![
        plain_arg("session_id"@, ArgumentKind::Text),
        plain_arg("checkpoint_id"@, ArgumentKind::Text),
        plain_arg("steps_back"@, ArgumentKind::Integer),
        plain_arg("reason"@, ArgumentKind::Text),
    ]
}

fn rollback_args() -> (r: Vec<Argument>)
    ensures
        arguments(r@) == rollback_arguments(),
{
    let r = vec![
        plain("session_id", ArgumentKind::Text),
        plain("checkpoint_id", ArgumentKind::Text),
        plain("steps_back", ArgumentKind::Integer),
        plain("reason", ArgumentKind::Text),
    ];
    assert(arguments(r@) =~= rollback_arguments());
    r
}

/// The arguments of `carapace_session_summary`.
pub open spec fn summary_arguments() -> Seq<ArgumentText> {
    seq![
        plain_arg("session_id"@, ArgumentKind::Text),
    ]
}

fn summary_args() -> (r: Vec<Argument>)
    ensures
        arguments(r@) == summary_arguments(),
{
    let r = vec![
        plain("session_id", ArgumentKind::Text),
    ];
    assert(arguments(r@) =~= summary_arguments());
    r
}

/// The arguments of `carapace_learn`.
pub open spec fn learn_arguments() -> Seq<ArgumentText> {
    seq![
        described_arg("min_confidence"@, ArgumentKind::Number, "Minimum confidence threshold (0.0-1.0, default 0.3)"@),
    ]
}

fn learn_args() -> (r: Vec<Argument>)
    ensures
        arguments(r@) == learn_arguments(),
{
    let r = vec![
        described("min_confidence", ArgumentKind::Number, "Minimum confidence threshold (0.0-1.0, default 0.3)"),
    ];
    assert(arguments(r@) =~= learn_arguments());
    r
}

/// The tools, in the order in which they are listed.
pub open spec fn tool_table() -> Seq<ToolText> {
    seq![
        ToolText {
            kind: ToolKind::BeginSession,
            name: "carapace_begin_session"@,
            description: "Start or resume a Carapace session before multi-step tool execution."@,
            required: Seq::empty(),
            arguments: begin_arguments(),
        },
        ToolText {
            kind: ToolKind::VerifyStep,
            name: "carapace_verify_step"@,
            description: "Verify a proposed step before executing a tool action. Returns pass/warn/fail."@,
            required: seq!["session_id"@, "action_type"@, "description"@],
            arguments: action_arguments(),
        },
        ToolText {
            kind: ToolKind::SaveCheckpoint,
            name: "carapace_save_checkpoint"@,
            description: "Create a git-backed checkpoint before a risky step so the session can roll back to it."@,
            required: seq!["session_id"@, "action_type"@, "description"@],
            arguments: action_arguments(),
        },
        ToolText {
            kind: ToolKind::RecordStep,
            name: "carapace_record_step"@,
            description: "Record the outcome of a tool action after execution."@,
            required: seq!["session_id"@, "action_type"@, "description"@, "result_status"@],
            arguments: record_arguments(),
        },
        ToolText {
            kind: ToolKind::Rollback,
            name: "carapace_rollback"@,
            description: "Roll back to a saved checkpoint, or undo the last N checkpointed steps."@,
            required: seq!["session_id"@],
            arguments: rollback_arguments(),
        },
        ToolText {
            kind: ToolKind::SessionSummary,
            name: "carapace_session_summary"@,
            description: "Return the summary for a recorded Carapace session."@,
            required: seq!["session_id"@],
            arguments: summary_arguments(),
        },
        ToolText {
            kind: ToolKind::Learn,
            name: "carapace_learn"@,
            description: "Analyze past sessions to discover failure patterns and generate adaptive verification rules."@,
            required: Seq::empty(),
            arguments: learn_arguments(),
        },
    ]
}

/// The tools, in the order in which they are listed.
pub fn tool_definitions() -> (r: Vec<ToolDefinition>)
    ensures
        tools(r@) == tool_table(),
{
    let begin = ToolDefinition {
        kind: ToolKind::BeginSession,
        name: "carapace_begin_session",
        description: "Start or resume a Carapace session before multi-step tool execution.",
        required: Vec::new(),
        arguments: begin_args(),
    };
    assert(begin@ =~= tool_table()[0]);
    let verify = ToolDefinition {
        kind: ToolKind::VerifyStep,
        name: "carapace_verify_step",
        description: "Verify a proposed step before executing a tool action. Returns pass/warn/fail.",
        required: vec!["session_id", "action_type", "description"],
        arguments: action_args(),
    };
    assert(verify@ =~= tool_table()[1]);
    let save = ToolDefinition {
        kind: ToolKind::SaveCheckpoint,
        name: "carapace_save_checkpoint",
        description: "Create a git-backed checkpoint before a risky step so the session can roll back to it.",
        required: vec!["session_id", "action_type", "description"],
        arguments: action_args(),
    };
    assert(save@ =~= tool_table()[2]);
    let record = ToolDefinition {
        kind: ToolKind::RecordStep,
        name: "carapace_record_step",
        description: "Record the outcome of a tool action after execution.",
        required: vec!["session_id", "action_type", "description", "result_status"],
        arguments: record_args(),
    };
    assert(record@ =~= tool_table()[3]);
    let rollback = ToolDefinition {
        kind: ToolKind::Rollback,
        name: "carapace_rollback",
        description: "Roll back to a saved checkpoint, or undo the last N checkpointed steps.",
        required: vec!["session_id"],
        arguments: rollback_args(),
    };
    assert(rollback@ =~= tool_table()[4]);
    let summary = ToolDefinition {
        kind: ToolKind::SessionSummary,
        name: "carapace_session_summary",
        description: "Return the summary for a recorded Carapace session.",
        required: vec!["session_id"],
        arguments: summary_args(),
    };
    assert(summary@ =~= tool_table()[5]);
    let learn = ToolDefinition {
        kind: ToolKind::Learn,
        name: "carapace_learn",
        description: "Analyze past sessions to discover failure patterns and generate adaptive verification rules.",
        required: Vec::new(),
        arguments: learn_args(),
    };
    assert(learn@ =~= tool_table()[6]);
    let r = vec![begin, verify, save, record, rollback, summary, learn];
    assert(tools(r@) =~= tool_table());
    r
}

/// The tool of this name.
pub open spec fn named_tool(name: Seq<char>) -> Option<ToolKind> {
    if name == "carapace_begin_session"@ {
        Some(ToolKind::BeginSession)
    } else if name == "carapace_verify_step"@ {
        Some(ToolKind::VerifyStep)
    } else if name == "carapace_save_checkpoint"@ {
        Some(ToolKind::SaveCheckpoint)
    } else if name == "carapace_record_step"@ {
        Some(ToolKind::RecordStep)
    } else if name == "carapace_rollback"@ {
        Some(ToolKind::Rollback)
    } else if name == "carapace_session_summary"@ {
        Some(ToolKind::SessionSummary)
    } else if name == "carapace_learn"@ {
        Some(ToolKind::Learn)
    } else {
        None
    }
}

/// The tool of this name, if there is one.
pub fn tool_named(name: &str) -> (r: Option<ToolKind>)
    ensures
        r == named_tool(name@),
{
    if text::str_eq(name, "carapace_begin_session") {
        Some(ToolKind::BeginSession)
    } else if text::str_eq(name, "carapace_verify_step") {
        Some(ToolKind::VerifyStep)
    } else if text::str_eq(name, "carapace_save_checkpoint") {
        Some(ToolKind::SaveCheckpoint)
    } else if text::str_eq(name, "carapace_record_step") {
        Some(ToolKind::RecordStep)
    } else if text::str_eq(name, "carapace_rollback") {
        Some(ToolKind::Rollback)
    } else if text::str_eq(name, "carapace_session_summary") {
        Some(ToolKind::SessionSummary)
    } else if text::str_eq(name, "carapace_learn") {
        Some(ToolKind::Learn)
    } else {
        None
    }
}

// ── Laws ─────────────────────────────────────────────────────

/// Every listed tool can be called by its name, and no other name is one of a tool.
pub proof fn law_listed_tools_are_callable(name: Seq<char>)
    ensures
        forall|i: int|
            0 <= i < tool_table().len() ==> named_tool((#[trigger] tool_table()[i]).name) == Some(
                tool_table()[i].kind,
            ),
        named_tool(name) is Some ==> exists|i: int|
            0 <= i < tool_table().len() && (#[trigger] tool_table()[i]).name == name,
{
    reveal_strlit("carapace_begin_session");
    reveal_strlit("carapace_verify_step");
    reveal_strlit("carapace_save_checkpoint");
    reveal_strlit("carapace_record_step");
    reveal_strlit("carapace_rollback");
    reveal_strlit("carapace_session_summary");
    reveal_strlit("carapace_learn");
    assert("carapace_begin_session"@[9] == 'b' && "carapace_begin_session"@[10] == 'e');
    assert("carapace_verify_step"@[9] == 'v' && "carapace_verify_step"@[10] == 'e');
    assert("carapace_save_checkpoint"@[9] == 's' && "carapace_save_checkpoint"@[10] == 'a');
    assert("carapace_record_step"@[9] == 'r' && "carapace_record_step"@[10] == 'e');
    assert("carapace_rollback"@[9] == 'r' && "carapace_rollback"@[10] == 'o');
    assert("carapace_session_summary"@[9] == 's' && "carapace_session_summary"@[10] == 'e');
    assert("carapace_learn"@[9] == 'l' && "carapace_learn"@[10] == 'e');
    if named_tool(name) is Some {
        let i: int = if name == "carapace_begin_session"@ {
            0
        } else if name == "carapace_verify_step"@ {
            1
        } else if name == "carapace_save_checkpoint"@ {
            2
        } else if name == "carapace_record_step"@ {
            3
        } else if name == "carapace_rollback"@ {
            4
        } else if name == "carapace_session_summary"@ {
            5
        } else {
            6
        };
        assert(tool_table()[i].name == name);
    }
}

/// Every argument that a tool requires is one that it has.
pub proof fn law_required_arguments_exist(t: int, k: int)
    requires
        0 <= t < tool_table().len(),
        0 <= k < tool_table()[t].required.len(),
    ensures
        exists|a: int|
            0 <= a < tool_table()[t].arguments.len() && (#[trigger] tool_table()[t].arguments[a]).name
                == tool_table()[t].required[k],
{
    let arguments = tool_table()[t].arguments;
    if t == 1 {
        assert(arguments[0].name == "session_id"@);
        assert(arguments[3].name == "action_type"@);
        assert(arguments[7].name == "description"@);
    }
    if t == 2 {
        assert(arguments[0].name == "session_id"@);
        assert(arguments[3].name == "action_type"@);
        assert(arguments[7].name == "description"@);
    }
    if t == 3 {
        assert(arguments[0].name == "session_id"@);
        assert(arguments[3].name == "action_type"@);
        assert(arguments[7].name == "description"@);
        assert(arguments[10].name == "result_status"@);
    }
    if t == 4 {
        assert(arguments[0].name == "session_id"@);
    }
    if t == 5 {
        assert(arguments[0].name == "session_id"@);
    }
}

}
