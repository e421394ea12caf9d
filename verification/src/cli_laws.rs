//! What holds of the command line.

use vstd::prelude::*;

use crate::cli;
use crate::cli::RunOutcome;
use crate::cli::WrapEnd;
use crate::cli::WrapStep;
use crate::number::Timestamp;
use crate::outside;
use crate::text;
use crate::text_laws;
use crate::types::Anomaly;
use crate::types::AnomalyType;
use crate::types::ExecutionContext;
use crate::types::Severity;
use crate::types::SessionSummary;
use crate::types::StepAction;
use crate::types::StepResult;
use crate::types::StepSummary;
use crate::types::Verdict;
use crate::types::VerificationOutcome;

verus! {

// ── Command lines ────────────────────────────────────────────

/// The only characters that a word needs no quotes for are letters and digits of ASCII and
/// five others. A word of such characters stands as it is, and any other is put in quotes,
/// even where it is empty.
pub proof fn law_quoting(value: Seq<char>)
    ensures
        value.len() > 0 && (forall|i: int|
            0 <= i < value.len() ==> {
                let c = #[trigger] value[i];
                ||| 'a' <= c <= 'z'
                ||| 'A' <= c <= 'Z'
                ||| '0' <= c <= '9'
                ||| c == '_'
                ||| c == '-'
                ||| c == '.'
                ||| c == '/'
                ||| c == ':'
            }) ==> cli::shell_word(value) == value,
        !(value.len() > 0 && (forall|i: int|
            0 <= i < value.len() ==> {
                let c = #[trigger] value[i];
                ||| 'a' <= c <= 'z'
                ||| 'A' <= c <= 'Z'
                ||| '0' <= c <= '9'
                ||| c == '_'
                ||| c == '-'
                ||| c == '.'
                ||| c == '/'
                ||| c == ':'
            })) ==> cli::shell_word(value).len() >= 2 && cli::shell_word(value)[0] == '\''
            && cli::shell_word(value).last() == '\'',
        value.len() > 0 && !(forall|i: int|
            0 <= i < value.len() ==> cli::is_shell_safe(#[trigger] value[i])) && !value.contains(
            '\'',
        ) ==> cli::shell_word(value) == seq!['\''] + value + seq!['\''],
{
    if !value.contains('\'') {
        text_laws::law_replacing(
            value,
            Seq::empty(),
            '\'',
            seq!['\'', '"', '\'', '"', '\''],
        );
    }
}

/// The parts of a command are those given, without white space around them: one more part
/// comes behind the others, and a blank one is left out.
pub proof fn law_command_parts(
    command: Seq<Seq<char>>,
    front: Seq<char>,
    part: Seq<char>,
    back: Seq<char>,
)
    requires
        forall|i: int| 0 <= i < front.len() ==> text::is_space(#[trigger] front[i]),
        forall|i: int| 0 <= i < back.len() ==> text::is_space(#[trigger] back[i]),
        part.len() > 0 ==> !text::is_space(part[0]) && !text::is_space(part.last()),
    ensures
        cli::command_parts(Seq::empty()) == Seq::<Seq<char>>::empty(),
        part.len() > 0 ==> cli::command_parts(command.push(front + part + back))
            == cli::command_parts(command).push(part),
        part.len() == 0 ==> cli::command_parts(command.push(front + part + back))
            == cli::command_parts(command),
{
    let cut = |p: Seq<char>| text::trim(p);
    let keep = |p: Seq<char>| p.len() > 0;
    reveal(Seq::filter);
    text_laws::law_trimmed_spaces(front, part, back);
    assert(Seq::<Seq<char>>::empty().map_values(cut) =~= Seq::<Seq<char>>::empty());
    assert(Seq::<Seq<char>>::empty().filter(keep) =~= Seq::<Seq<char>>::empty());
    let more = command.push(front + part + back).map_values(cut);
    assert(more.drop_last() =~= command.map_values(cut));
    assert(more.last() == part);
}

/// A single part is the command line itself. Several are escaped, with a space between
/// them.
pub proof fn law_command_line(parts: Seq<Seq<char>>, part: Seq<char>)
    ensures
        cli::command_line(seq![part]) == part,
        parts.len() == 1 ==> cli::command_line(parts.push(part)) == cli::shell_word(parts[0])
            + " "@ + cli::shell_word(part),
        parts.len() > 1 ==> cli::command_line(parts.push(part)) == cli::command_line(parts) + " "@
            + cli::shell_word(part),
{
    let escape = |p: Seq<char>| cli::shell_word(p);
    let words = parts.map_values(escape);
    let more = parts.push(part).map_values(escape);
    assert(more =~= words.push(cli::shell_word(part)));
    text_laws::law_joining(words, cli::shell_word(part), " "@);
    if parts.len() == 1 {
        text_laws::law_joining(words, cli::shell_word(parts[0]), " "@);
        assert(words =~= seq![cli::shell_word(parts[0])]);
    }
}

/// The agent of a wrapped command is the one that was named, or else the first word of
/// the command line.
pub proof fn law_agent(
    named: Option<String>,
    line: &str,
    word: Seq<char>,
    space: char,
    rest: Seq<char>,
    r: Option<String>,
)
    requires
        call_ensures(cli::wrapped_agent, (named, line), r),
        word.len() > 0,
        text_laws::is_solid(word),
        text::is_space(space),
        line@ == word || line@ == word + seq![space] + rest,
    ensures
        named is Some ==> r == named,
        named is None ==> (r matches Some(agent) && agent@ == word),
{
    text_laws::law_words(word, space, rest);
    assert((seq![word] + text::words(rest))[0] == word);
}

/// The number of a step is the one given, or else one more than there are steps before it.
pub proof fn law_step_number(given: Option<u32>, previous: Vec<StepSummary>, r: u32)
    requires
        call_ensures(cli::step_number_or_next, (given, &previous), r),
    ensures
        given matches Some(n) ==> r == n,
        given is None && previous@.len() < u32::MAX ==> r == previous@.len() + 1,
{
}

// ── Output ───────────────────────────────────────────────────

/// What is shown of a verdict begins with the verdict. Then comes one line for each
/// reason, and then one for each suggestion, in their order.
pub proof fn law_verdict_lines(v: Verdict, i: int)
    ensures
        v is Pass ==> cli::verdict_lines(v) == seq!["Verification: pass"@],
        v matches Verdict::Warn { reasons } ==> {
            &&& cli::verdict_lines(v).len() == 1 + reasons.len()
            &&& cli::verdict_lines(v)[0] == "Verification: warn"@
            &&& 0 <= i < reasons.len() ==> cli::verdict_lines(v)[1 + i] == "- "@ + reasons[i]
        },
        v matches Verdict::Fail { reasons, suggestions } ==> {
            &&& cli::verdict_lines(v).len() == 1 + reasons.len() + suggestions.len()
            &&& cli::verdict_lines(v)[0] == "Verification: fail"@
            &&& 0 <= i < reasons.len() ==> cli::verdict_lines(v)[1 + i] == "- "@ + reasons[i]
            &&& 0 <= i < suggestions.len() ==> cli::verdict_lines(v)[1 + reasons.len() + i]
                == "  suggestion: "@ + suggestions[i]
        },
{
}

/// What is shown of anomalies is a heading and one line for each, in their order, with its
/// type, its severity and its detail. Nothing is shown where there are none.
pub proof fn law_anomaly_lines(list: Seq<Anomaly>, i: int)
    ensures
        list.len() == 0 ==> cli::anomalies_shown(list).len() == 0,
        list.len() > 0 ==> cli::anomalies_shown(list).len() == 1 + list.len()
            && cli::anomalies_shown(list)[0] == "Anomalies:"@,
        0 <= i < list.len() ==> cli::anomalies_shown(list)[1 + i] == "- "@ + (
        match list[i].anomaly_type {
            AnomalyType::GoalDrift => "GoalDrift"@,
            AnomalyType::LoopTrap => "LoopTrap"@,
            AnomalyType::TokenSpike => "TokenSpike"@,
            AnomalyType::PlanDeviation => "PlanDeviation"@,
            AnomalyType::ConsistencyViolation => "ConsistencyViolation"@,
        }) + " ("@ + (match list[i].severity {
            Severity::Info => "Info"@,
            Severity::Warning => "Warning"@,
            Severity::Critical => "Critical"@,
        }) + "): "@ + list[i].detail@,
{
}

/// The lines that show a session, each with its own total.
pub proof fn law_summary_lines(s: SessionSummary, cost: Seq<char>)
    ensures
        cli::summary_shown(s, cost).len() == 10,
        cli::summary_shown(s, cost)[0] == "Session: "@ + s.session_id@,
        cli::summary_shown(s, cost)[1] == "Steps: "@ + text::decimal(s.total_steps as nat),
        cli::summary_shown(s, cost)[2] == "Successful: "@ + text::decimal(
            s.successful_steps as nat,
        ),
        cli::summary_shown(s, cost)[3] == "Failed: "@ + text::decimal(s.failed_steps as nat),
        cli::summary_shown(s, cost)[4] == "Rollbacks: "@ + text::decimal(s.rollbacks as nat),
        cli::summary_shown(s, cost)[5] == "Verifier interceptions: "@ + text::decimal(
            s.verifier_interceptions as nat,
        ),
        cli::summary_shown(s, cost)[6] == "Anomalies: "@ + text::decimal(
            s.anomalies_detected as nat,
        ),
        cli::summary_shown(s, cost)[7] == "Tokens: "@ + text::decimal(s.total_tokens as nat),
        cli::summary_shown(s, cost)[8] == "Cost (USD): "@ + cost,
        cli::summary_shown(s, cost)[9] == "Duration (ms): "@ + text::decimal(
            s.total_duration_ms as nat,
        ),
{
}

// ── Wrapping ─────────────────────────────────────────────────

/// A wrapped command does not run where its verification failed, and only there. Then it
/// is recorded as skipped, the session is blocked, and the exit code says so.
pub proof fn law_blocked_command(
    session_id: &str,
    action: StepAction,
    verification: VerificationOutcome,
    now: Timestamp,
    r: WrapStep,
)
    requires
        call_ensures(cli::after_verification, (session_id, action, verification, now), r),
    ensures
        r is Blocked <==> verification.decision@ is Fail,
        r matches WrapStep::Run(a, v) ==> a == action && v == verification,
        r matches WrapStep::Blocked(end) ==> {
            &&& end.exit == Ok::<i32, String>(2)
            &&& end.session_status@ == "blocked"@
            &&& end.entry.session_id@ == session_id@
            &&& end.entry.step_number == 1
            &&& end.entry.action == action
            &&& end.entry.verification == verification
            &&& end.entry.reason matches Some(why)
            &&& why@ == "Verification blocked wrapped command"@
            &&& end.entry.checkpoint_id is None
            &&& end.entry.tokens_used == 0
            &&& end.entry.cost_usd.magnitude() == 0
            &&& end.entry.duration_ms == 0
            &&& end.entry.timestamp == now
            &&& end.entry.result matches StepResult::Skipped { reason }
            &&& reason@ == "Blocked before execution"@
        },
{
}

/// A wrapped command succeeded exactly where it exited with 0. Its exit code is handed on,
/// and a signal counts as 1. Where it did not start there is no code.
pub proof fn law_command_that_ran(
    session_id: &str,
    action: StepAction,
    verification: VerificationOutcome,
    outcome: RunOutcome,
    duration_ms: u64,
    now: Timestamp,
    r: WrapEnd,
)
    requires
        call_ensures(
            cli::after_run,
            (session_id, action, verification, outcome, duration_ms, now),
            r,
        ),
    ensures
        r.entry.result is Success <==> outcome == RunOutcome::Exited(Some(0i32)),
        !(r.entry.result is Success) ==> r.entry.result is Failure,
        r.session_status@ == "completed"@ <==> r.entry.result is Success,
        r.session_status@ == "failed"@ <==> r.entry.result is Failure,
        r.exit is Err <==> outcome is NotStarted,
        r.exit matches Ok(code) ==> (code == 0 <==> r.entry.result is Success),
        outcome matches RunOutcome::Exited(Some(code)) ==> r.exit == Ok::<i32, String>(code) && (
        r.entry.result matches StepResult::Failure { error } ==> error@
            == "Command exited with status "@ + text::signed_decimal(code as int)),
        outcome matches RunOutcome::Exited(None) ==> r.exit == Ok::<i32, String>(1) && (
        r.entry.result matches StepResult::Failure { error } && error@
            == "Command exited with status terminated by signal"@),
        outcome matches RunOutcome::NotStarted(why) ==> (
        r.entry.result matches StepResult::Failure { error } && error@
            == "Failed to spawn wrapped command: "@ + why@),
        r.entry.session_id@ == session_id@,
        r.entry.step_number == 1,
        r.entry.action == action,
        r.entry.verification == verification,
        r.entry.reason matches Some(why) && why@ == "Executed via carapace wrap"@,
        r.entry.checkpoint_id is None,
        r.entry.tokens_used == 0,
        r.entry.cost_usd.magnitude() == 0,
        r.entry.duration_ms == duration_ms,
        r.entry.timestamp == now,
{
    reveal_strlit("completed");
    reveal_strlit("failed");
    assert("completed"@.len() != "failed"@.len());
    reveal_strlit("Command exited with status ");
    reveal_strlit("terminated by signal");
    reveal_strlit("Command exited with status terminated by signal");
    assert("Command exited with status "@ + "terminated by signal"@
        =~= "Command exited with status terminated by signal"@);
}

/// A wrapped command stands as the execution of its line by a shell, as the first step of
/// its session, with nothing before it.
pub proof fn law_wrapped_step(
    line: &str,
    config_path: &str,
    files: Vec<String>,
    action: StepAction,
    session_id: &str,
    dir: &str,
    agent: Option<String>,
    plan: Option<String>,
    ctx: ExecutionContext,
)
    requires
        call_ensures(cli::wrap_action, (line, config_path, files), action),
        call_ensures(cli::wrap_context, (session_id, dir, &agent, plan), ctx),
    ensures
        action.action_type@ is Execute,
        action.tool_name matches Some(tool) && tool@ == "wrap"@,
        action.arguments@ == outside::json_object_text(
            seq!["command"@, "shell"@, "config_path"@],
            seq![line@, "sh -lc"@, config_path@],
        ),
        action.target_files == files,
        action.description@ == "Execute wrapped command: "@ + line@,
        ctx.session_id@ == session_id@,
        ctx.step_number == 1,
        ctx.working_dir@ == dir@,
        ctx.agent_name == agent,
        ctx.plan == plan,
        ctx.previous_steps@.len() == 0,
{
}

}
