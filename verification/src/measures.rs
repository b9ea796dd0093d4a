//! What a turn measured, where states are kept, and how documents are read.
use vstd::prelude::*;
use crate::context::{path_join, RuntimeContextView};
use crate::ids::decimal;
use crate::json::{as_text, get, member_named, texts_among, Json, Member};
use crate::search::{find_from, lemma_find_from};
use crate::separators::{call_parts, duration_text, metrics_text, time_parts, verb, RuntimeMetricsSummary};
use crate::styled::{flat, styled_above, styled_below, unstyled, SpanView, Style};
use crate::text::joined;

verus! {

/// A time below a second is told in milliseconds, any other in seconds.
pub proof fn law_times_are_told(duration_ms: nat, seconds: Seq<char>)
    ensures
        duration_ms < 1000 ==> duration_text(duration_ms, seconds) == decimal(duration_ms) + "ms"@,
        duration_ms >= 1000 ==> duration_text(duration_ms, seconds) == seconds + "s"@,
{
}

/// Nothing is told of the measures exactly if nothing was measured.
pub proof fn law_measures_are_told_if_any(m: RuntimeMetricsSummary)
    ensures
        metrics_text(m) is None <==> m.tool_calls.amount == 0 && m.api_calls.amount == 0
            && m.websocket_calls.amount == 0 && m.streaming_events.amount == 0
            && m.websocket_events.amount == 0 && m.responses_api_overhead.amount == 0
            && m.responses_api_inference_time.amount == 0
            && m.responses_api_engine_iapi_ttft.amount == 0
            && m.responses_api_engine_service_ttft.amount == 0
            && m.responses_api_engine_iapi_tbt.amount == 0
            && m.responses_api_engine_service_tbt.amount == 0,
        metrics_text(m) matches Some(text) ==> text == joined(
            call_parts(m) + time_parts(m),
            " • "@,
        ),
{
}

/// The name of each kind of call stands before its own number and time.
pub proof fn law_calls_are_told_apart(m: RuntimeMetricsSummary)
    ensures
        ({
            let parts = call_parts(m);
            &&& m.tool_calls.amount > 0 ==> parts[0] == "Local tools: "@ + decimal(
                m.tool_calls.amount as nat,
            ) + " "@ + (if m.tool_calls.amount == 1 {
                "call"@
            } else {
                "calls"@
            }) + " ("@ + m.tool_calls.time() + ")"@
            &&& m.tool_calls.amount == 0 && m.api_calls.amount > 0 ==> parts[0] == "Inference: "@
                + decimal(m.api_calls.amount as nat) + " "@ + (if m.api_calls.amount == 1 {
                "call"@
            } else {
                "calls"@
            }) + " ("@ + m.api_calls.time() + ")"@
            &&& m.websocket_events.amount > 0 ==> parts.last() == decimal(
                m.websocket_events.amount as nat,
            ) + " events received ("@ + m.websocket_events.time() + ")"@
            &&& m.websocket_events.amount == 0 && m.streaming_events.amount > 0 ==> parts.last() == (
            if m.streaming_events.amount == 1 {
                "Stream"@
            } else {
                "Streams"@
            }) + ": "@ + decimal(m.streaming_events.amount as nat) + " "@ + (
            if m.streaming_events.amount == 1 {
                "event"@
            } else {
                "events"@
            }) + " ("@ + m.streaming_events.time() + ")"@
            &&& m.websocket_events.amount == 0 && m.streaming_events.amount == 0
                && m.websocket_calls.amount > 0 ==> parts.last() == "WebSocket: "@ + decimal(
                m.websocket_calls.amount as nat,
            ) + " events send ("@ + m.websocket_calls.time() + ")"@
            &&& parts.len() == (if m.tool_calls.amount > 0 {
                1int
            } else {
                0
            }) + (if m.api_calls.amount > 0 {
                1int
            } else {
                0
            }) + (if m.websocket_calls.amount > 0 {
                1int
            } else {
                0
            }) + (if m.streaming_events.amount > 0 {
                1int
            } else {
                0
            }) + (if m.websocket_events.amount > 0 {
                1int
            } else {
                0
            })
        }),
{
}

/// The words for how a turn with monitors went, by the number that was drawn.
pub proof fn law_verbs_are_apart(i: int, j: int)
    requires
        0 <= i < j < 8,
    ensures
        verb(i) != verb(j),
{
    reveal_strlit("Baked");
    reveal_strlit("Brewed");
    reveal_strlit("Churned");
    reveal_strlit("Cogitated");
    reveal_strlit("Cooked");
    reveal_strlit("Crunched");
    reveal_strlit("Sautéed");
    reveal_strlit("Worked");
    assert("Baked"@.len() == 5 && "Brewed"@.len() == 6 && "Churned"@.len() == 7);
    assert("Cogitated"@.len() == 9 && "Cooked"@.len() == 6 && "Crunched"@.len() == 8);
    assert("Sautéed"@.len() == 7 && "Worked"@.len() == 6);
    assert("Brewed"@[0] == 'B' && "Cooked"@[0] == 'C' && "Worked"@[0] == 'W');
    assert("Churned"@[0] == 'C' && "Sautéed"@[0] == 'S');
}

/// The state of a process is kept under the workspace, in a directory of its own.
pub proof fn law_state_is_kept_under_the_workspace(ctx: RuntimeContextView)
    requires
        ctx.workspace_root.len() > 0,
        ctx.workspace_root.last() != '/',
        ctx.process_id.len() > 0,
        ctx.process_id[0] != '/',
        ctx.process_id.last() != '/',
    ensures
        ctx.qunux_dir() == ctx.workspace_root + "/.qunux"@,
        ctx.process_dir() == ctx.workspace_root + "/.qunux/processes/"@ + ctx.process_id,
        ctx.state_path() == ctx.workspace_root + "/.qunux/processes/"@ + ctx.process_id
            + "/closure.json"@,
{
    let (w, p) = (ctx.workspace_root, ctx.process_id);
    reveal_strlit("/");
    reveal_strlit(".qunux");
    reveal_strlit("/.qunux");
    reveal_strlit("processes");
    reveal_strlit("/.qunux/processes/");
    reveal_strlit("closure.json");
    reveal_strlit("/closure.json");
    assert(ctx.qunux_dir() =~= w + "/.qunux"@);
    let q = ctx.qunux_dir();
    assert(q.last() == 's' || q.last() != '/') by {
        assert(q.last() == "/.qunux"@[6]);
    }
    let d = path_join(q, "processes"@);
    assert(d =~= w + "/.qunux/processes"@) by {
        reveal_strlit("/.qunux/processes");
    }
    assert(d.last() == 's') by {
        assert(d.last() == "processes"@[8]);
    }
    assert(ctx.process_dir() =~= w + "/.qunux/processes/"@ + p);
    assert(ctx.process_dir().last() == p.last());
    assert(ctx.state_path() =~= w + "/.qunux/processes/"@ + p + "/closure.json"@);
}

/// A name stands for the first member of an object that has it; there is none in anything else.
pub proof fn law_member_is_the_first_of_its_name(members: Vec<Member>, name: Seq<char>, at: int)
    requires
        0 <= at <= members@.len(),
        at < members@.len() ==> members@[at].name@ == name,
        forall|i: int| 0 <= i < at ==> (#[trigger] members@[i]).name@ != name,
    ensures
        at < members@.len() ==> get(Json::Object(members), name) == Some(members@[at].value),
        at == members@.len() ==> get(Json::Object(members), name) is None,
{
    lemma_find_from(members@, member_named(name), 0);
    if at < members@.len() {
        assert((member_named(name))(members@[at]));
    }
    if let Some(i) = find_from(members@, member_named(name), 0) {
        assert((member_named(name))(members@[i]));
    }
}

/// The texts of a list are those of its items that are texts, in order.
pub proof fn law_texts_are_in_order(list: Seq<Json>, n: int)
    requires
        0 <= n <= list.len(),
        forall|i: int| 0 <= i < n ==> as_text(#[trigger] list[i]) is Some,
    ensures
        texts_among(list, n).len() == n,
        forall|i: int| 0 <= i < n ==> Some(#[trigger] texts_among(list, n)[i]) == as_text(list[i]),
    decreases n,
{
    if n > 0 {
        law_texts_are_in_order(list, n - 1);
        assert(as_text(list[n - 1]) is Some);
    }
}

proof fn lemma_flat_alike(a: Seq<SpanView>, b: Seq<SpanView>)
    requires
        a.len() == b.len(),
        forall|i: int| 0 <= i < a.len() ==> (#[trigger] a[i]).text == b[i].text,
    ensures
        flat(a) == flat(b),
    decreases a.len(),
{
    if a.len() > 0 {
        assert forall|i: int| 0 <= i < a.len() - 1 implies (#[trigger] a.drop_last()[i]).text
            == b.drop_last()[i].text by {
            assert(a[i].text == b[i].text);
        }
        lemma_flat_alike(a.drop_last(), b.drop_last());
        assert(a[a.len() - 1].text == b[a.len() - 1].text);
    }
}

/// Styling changes no text. A style below fills in what a span leaves open; one above has its way; the
/// empty style changes nothing.
pub proof fn law_styles_lie_on_each_other(line: Seq<SpanView>, style: Style)
    ensures
        flat(styled_below(line, style)) == flat(line),
        flat(styled_above(line, style)) == flat(line),
        styled_below(line, unstyled()) == line,
        styled_above(line, unstyled()) == line,
        forall|i: int|
            0 <= i < line.len() ==> (#[trigger] styled_below(line, style)[i]).style.color == (
            if line[i].style.color is Some {
                line[i].style.color
            } else {
                style.color
            }),
        forall|i: int|
            0 <= i < line.len() ==> (#[trigger] styled_above(line, style)[i]).style.color == (
            if style.color is Some {
                style.color
            } else {
                line[i].style.color
            }),
        forall|i: int|
            0 <= i < line.len() ==> (#[trigger] styled_below(line, style)[i]).style.dim == (
            if line[i].style.dim is Some {
                line[i].style.dim
            } else {
                style.dim
            }),
        forall|i: int|
            0 <= i < line.len() ==> (#[trigger] styled_above(line, style)[i]).style.bold == (
            if style.bold is Some {
                style.bold
            } else {
                line[i].style.bold
            }),
{
    lemma_flat_alike(styled_below(line, style), line);
    lemma_flat_alike(styled_above(line, style), line);
    assert(styled_below(line, unstyled()) =~= line);
    assert(styled_above(line, unstyled()) =~= line);
}

} // verus!
