//! Traces as comma-separated values.

use vstd::prelude::*;

use crate::outside;
use crate::storage;
use crate::text;
use crate::types::TraceEntry;

verus! {

/// A field: the value in quotes, with its own quotes doubled.
pub open spec fn quoted(value: Seq<char>) -> Seq<char> {
    seq!['"'] + text::replaced(value, '"', seq!['"', '"']) + seq!['"']
}

/// The names of the columns.
pub open spec fn csv_header() -> Seq<char> {
    "step_id,session_id,step_number,action_type,description,verification,result,tokens,cost_usd,duration_ms,timestamp\n"@
}

/// The row of a step. `cost` is its cost with four decimals, and `instant` its
/// instant in RFC 3339 notation.
pub open spec fn row_with(step: TraceEntry, cost: Seq<char>, instant: Seq<char>) -> Seq<char> {
    quoted(step.step_id@) + ","@ + quoted(step.session_id@) + ","@ + text::decimal(
        step.step_number as nat,
    ) + ","@ + quoted(step.action.action_type@.name()) + ","@ + quoted(step.action.description@)
        + ","@ + quoted(storage::verdict_name(step.verification.decision@)) + ","@ + quoted(
        storage::result_name(step.result),
    ) + ","@ + text::decimal(step.tokens_used as nat) + ","@ + cost + ","@ + text::decimal(
        step.duration_ms as nat,
    ) + ","@ + quoted(instant) + "\n"@
}

/// The row of a step. `cost` is its cost with four decimals.
pub open spec fn csv_row(step: TraceEntry, cost: Seq<char>) -> Seq<char> {
    row_with(step, cost, outside::rfc3339(step.timestamp.parts().0, step.timestamp.parts().1))
}

/// The rows of the steps.
pub open spec fn csv_rows(steps: Seq<TraceEntry>, costs: Seq<Seq<char>>) -> Seq<char>
    decreases steps.len(),
{
    if steps.len() == 0 {
        Seq::empty()
    } else {
        csv_rows(steps.drop_last(), costs.drop_last()) + csv_row(steps.last(), costs.last())
    }
}

/// A field: the value in quotes, with its own quotes doubled.
pub fn csv_field(value: &str) -> (r: String)
    ensures
        r@ == quoted(value@),
{
    let mut out = String::new();
    out.push('"');
    proof {
        reveal_strlit("\"\"");
        assert("\"\""@ =~= seq!['"', '"']);
    }
    let escaped = text::replace_char(value, '"', "\"\"");
    out.append(escaped.as_str());
    out.push('"');
    assert(out@ =~= quoted(value@));
    out
}

/// The row of a step, by its cost with four decimals and its instant in RFC 3339
/// notation.
pub fn render_row(step: &TraceEntry, cost: &str, instant: &str) -> (r: String)
    ensures
        r@ == row_with(*step, cost@, instant@),
{
    let mut out = csv_field(step.step_id.as_str());
    out.append(",");
    out.append(csv_field(step.session_id.as_str()).as_str());
    out.append(",");
    out.append(text::to_decimal(step.step_number as u64).as_str());
    out.append(",");
    out.append(csv_field(step.action.action_type.as_str()).as_str());
    out.append(",");
    out.append(csv_field(step.action.description.as_str()).as_str());
    out.append(",");
    out.append(csv_field(storage::verification_label(&step.verification.decision)).as_str());
    out.append(",");
    out.append(csv_field(storage::result_label(&step.result)).as_str());
    out.append(",");
    out.append(text::to_decimal(step.tokens_used).as_str());
    out.append(",");
    out.append(cost);
    out.append(",");
    out.append(text::to_decimal(step.duration_ms).as_str());
    out.append(",");
    out.append(csv_field(instant).as_str());
    out.append("\n");
    out
}

/// The trace as comma-separated values. `costs` are the costs of the steps with
/// four decimals.
pub fn export_csv(steps: &[TraceEntry], costs: &Vec<String>) -> (r: String)
    requires
        costs@.len() == steps@.len(),
    ensures
        r@ == csv_header() + csv_rows(steps@, text::strings(costs@)),
{
    let mut out = "step_id,session_id,step_number,action_type,description,verification,result,tokens,cost_usd,duration_ms,timestamp\n".to_string();
    let ghost all = text::strings(costs@);
    let mut i: usize = 0;
    proof {
        assert(csv_header() + csv_rows(steps@.take(0), all.take(0)) =~= csv_header());
    }
    while i < steps.len()
        invariant
            i <= steps.len(),
            costs@.len() == steps@.len(),
            all == text::strings(costs@),
            out@ == csv_header() + csv_rows(steps@.take(i as int), all.take(i as int)),
        decreases steps.len() - i,
    {
        let instant = steps[i].timestamp.to_rfc3339();
        let row = render_row(&steps[i], costs[i].as_str(), instant.as_str());
        let ghost before = out@;
        out.append(row.as_str());
        proof {
            assert(steps@.take(i + 1).drop_last() =~= steps@.take(i as int));
            assert(all.take(i + 1).drop_last() =~= all.take(i as int));
            assert(steps@.take(i + 1).last() == steps@[i as int]);
            assert(all.take(i + 1).last() == costs@[i as int]@);
            assert(out@ =~= csv_header() + (csv_rows(steps@.take(i as int), all.take(i as int))
                + row@));
        }
        i += 1;
    }
    proof {
        assert(steps@.take(i as int) =~= steps@);
        assert(all.take(i as int) =~= all);
    }
    out
}

// ── Laws ─────────────────────────────────────────────────────

/// What a reader makes of the inside of a field: doubled quotes are single ones.
pub open spec fn undoubled(s: Seq<char>) -> Seq<char>
    decreases s.len(),
{
    if s.len() == 0 {
        Seq::empty()
    } else if s.len() >= 2 && s.last() == '"' && s[s.len() - 2] == '"' {
        undoubled(s.take(s.len() - 2)).push('"')
    } else {
        undoubled(s.drop_last()).push(s.last())
    }
}

/// What a reader makes of a field.
pub open spec fn unquoted(field: Seq<char>) -> Seq<char> {
    undoubled(field.subrange(1, field.len() - 1))
}

proof fn lemma_undouble(value: Seq<char>)
    ensures
        undoubled(text::replaced(value, '"', seq!['"', '"'])) == value,
    decreases value.len(),
{
    if value.len() > 0 {
        let rest = text::replaced(value.drop_last(), '"', seq!['"', '"']);
        let all = text::replaced(value, '"', seq!['"', '"']);
        lemma_undouble(value.drop_last());
        if value.last() == '"' {
            assert(all.take(all.len() - 2) =~= rest);
        } else {
            assert(all.drop_last() =~= rest);
        }
        assert(value.drop_last().push(value.last()) =~= value);
    }
}

/// A field can be read back: whatever the value holds, quotes, commas and line
/// breaks among it, the reader gets the value.
pub proof fn law_field_round_trip(value: Seq<char>)
    ensures
        unquoted(quoted(value)) == value,
{
    let inner = text::replaced(value, '"', seq!['"', '"']);
    assert(quoted(value).subrange(1, quoted(value).len() - 1) =~= inner);
    lemma_undouble(value);
}

}
