//! How tool calls and their outputs are paired.

use vstd::prelude::*;

verus! {

use crate::debug_record::{DebugToolKind, ItemModel, OutputModel};
use crate::json::{field_of, json_value, text_of, Json};
use crate::redactor::{
    arguments_step, control_success, dense, fresh, id_step, ids_in, item_step, opt_id_step,
    output_step, redactor_inv, remember_step, results_step, scan_step, table_of, take_call_step,
    DebugCallState, IdNamespace, RedactorLimits, RedactorModel, SpineCarriers,
};
use crate::redactor_laws::{
    lemma_arguments, lemma_fresh, lemma_id, lemma_item, lemma_remember, lemma_scan, lemma_take,
};
use crate::rollout::{ResponseItem, ToolOutput, ToolText};
use crate::shapes::{elements, output_body, text_view, tool_kind};

/// A response item with its own JSON, where that is at hand.
pub ghost struct SourceItem {
    pub item: ResponseItem,
    pub raw: Option<Json>,
}

/// The state after a sequence of response items.
pub open spec fn after_items(s: RedactorModel, items: Seq<SourceItem>) -> RedactorModel
    decreases items.len(),
{
    if items.len() == 0 {
        s
    } else {
        item_step(after_items(s, items.drop_last()), items.last().item, items.last().raw).0
    }
}

/// Whether an item announces the call with the given identifier.
pub open spec fn announces(item: ResponseItem, call: Seq<char>) -> bool {
    match item {
        ResponseItem::FunctionCall { call_id, .. } => call_id@ == call,
        ResponseItem::CustomToolCall { call_id, .. } => call_id@ == call,
        _ => false,
    }
}

/// Whether an item is an output of the call with the given identifier.
pub open spec fn answers(item: ResponseItem, call: Seq<char>) -> bool {
    match item {
        ResponseItem::FunctionCallOutput { call_id, .. } => text_view(call_id) == Some(call),
        ResponseItem::CustomToolCallOutput { call_id, .. } => call_id@ == call,
        _ => false,
    }
}

/// The tool that a function call names, where it is one of the tools that
/// answer with a fixed text: open, close and next.
pub open spec fn control_tool(item: ResponseItem) -> Option<DebugToolKind> {
    match item {
        ResponseItem::FunctionCall { name, namespace, code_mode, .. } => {
            let tool = tool_kind(text_view(namespace), name@, code_mode);
            if tool is SpineOpen || tool is SpineClose || tool is SpineNext {
                Some(tool)
            } else {
                None
            }
        },
        _ => None,
    }
}

/// What is kept of the output in a function call output.
pub open spec fn kept_output(item: ItemModel) -> Option<OutputModel> {
    match item {
        ItemModel::FunctionCallOutput { output, .. } => Some(output),
        _ => None,
    }
}

/// The call with the given identifier, where it awaits its output.
spec fn pending(s: RedactorModel, call: Seq<char>) -> Option<DebugCallState> {
    let ids = ids_in(s, IdNamespace::Call);
    if ids.contains_key(call) && s.calls.contains_key(ids[call]) {
        Some(s.calls[ids[call]])
    } else {
        None
    }
}

/// Unless a failure is latched, every awaited call has a number in use.
spec fn sane(s: RedactorModel) -> bool {
    &&& redactor_inv(s)
    &&& s.failure is None ==> forall|k: u64| #[trigger]
        s.calls.contains_key(k) ==> k < ids_in(s, IdNamespace::Call).len()
}

/// A step within the limits that leaves the awaited calls alone.
spec fn quiet(s: RedactorModel, t: RedactorModel) -> bool {
    &&& sane(t)
    &&& t.failure is None ==> s.failure is None && forall|call: Seq<char>| #[trigger]
        pending(t, call) == pending(s, call)
}

/// As [`quiet`], but for one call.
spec fn quiet_but(s: RedactorModel, t: RedactorModel, but: Seq<char>) -> bool {
    &&& sane(t)
    &&& t.failure is None ==> s.failure is None && forall|call: Seq<char>|
        call != but ==> #[trigger] pending(t, call) == pending(s, call)
}

proof fn lemma_quiet_id(s: RedactorModel, namespace: IdNamespace, value: Seq<char>)
    requires
        sane(s),
    ensures
        quiet(s, id_step(s, namespace, value).0),
        ({
            let t = id_step(s, namespace, value);
            t.0.failure is None ==> ids_in(t.0, namespace).contains_key(value) && ids_in(
                t.0,
                namespace,
            )[value] == t.1
        }),
{
    let t = id_step(s, namespace, value).0;
    lemma_id(s, namespace, value);
    assert(dense(s.ids[table_of(namespace)]));
    assert(dense(t.ids[table_of(IdNamespace::Call)]));
    if t.failure is None {
        let table = ids_in(s, namespace);
        assert(table.len() <= s.tracked_id_entries);
        if !table.contains_key(value) {
            let grown = ids_in(t, namespace);
            assert(grown.dom() =~= table.dom().insert(value));
        }
        assert(t.calls == s.calls);
        assert forall|call: Seq<char>| #[trigger] pending(t, call) == pending(s, call) by {
            if call == value && !table.contains_key(value) && namespace == IdNamespace::Call {
                assert(!s.calls.contains_key(table.len() as u64));
            }
        }
    }
}

proof fn lemma_quiet_opt(s: RedactorModel, namespace: IdNamespace, value: Option<Seq<char>>)
    requires
        sane(s),
    ensures
        quiet(s, opt_id_step(s, namespace, value).0),
{
    if let Some(value) = value {
        lemma_quiet_id(s, namespace, value);
    }
}

proof fn lemma_quiet_two(
    s: RedactorModel,
    n1: IdNamespace,
    v1: Option<Seq<char>>,
    n2: IdNamespace,
    v2: Option<Seq<char>>,
)
    requires
        sane(s),
    ensures
        quiet(s, opt_id_step(opt_id_step(s, n1, v1).0, n2, v2).0),
{
    lemma_quiet_opt(s, n1, v1);
    lemma_quiet_opt(opt_id_step(s, n1, v1).0, n2, v2);
}

proof fn lemma_quiet_three(
    s: RedactorModel,
    n1: IdNamespace,
    v1: Option<Seq<char>>,
    n2: IdNamespace,
    v2: Option<Seq<char>>,
    n3: IdNamespace,
    v3: Option<Seq<char>>,
)
    requires
        sane(s),
    ensures
        quiet(s, opt_id_step(opt_id_step(opt_id_step(s, n1, v1).0, n2, v2).0, n3, v3).0),
{
    lemma_quiet_opt(s, n1, v1);
    lemma_quiet_two(opt_id_step(s, n1, v1).0, n2, v2, n3, v3);
}

proof fn lemma_quiet_arguments(s: RedactorModel, tool: DebugToolKind, arguments: ToolText)
    requires
        sane(s),
    ensures
        quiet(s, arguments_step(s, tool, arguments).0),
{
    let t = arguments_step(s, tool, arguments).0;
    lemma_arguments(s, tool, arguments);
    assert(t.calls == s.calls && t.ids == s.ids);
    assert forall|call: Seq<char>| #[trigger] pending(t, call) == pending(s, call) by {}
}

proof fn lemma_quiet_results(s: RedactorModel, items: Seq<Json>)
    requires
        sane(s),
    ensures
        quiet(s, results_step(s, items).0),
    decreases items.len(),
{
    if items.len() > 0 {
        lemma_quiet_results(s, items.drop_last());
        let before = results_step(s, items.drop_last()).0;
        let reference = field_of(Some(items.last()), "execution_ref"@);
        if let Some(text) = text_of(reference) {
            lemma_quiet_id(before, IdNamespace::Execution, text);
        }
    }
}

proof fn lemma_quiet_output(
    s: RedactorModel,
    state: Option<DebugCallState>,
    output: ToolOutput,
    raw_output: Option<Json>,
)
    requires
        sane(s),
    ensures
        quiet(s, output_step(s, state, output, raw_output).0),
{
    if let Some(call) = state {
        if call.tool is SpineSpawn && s.failure is None {
            lemma_scan(s, output.scan);
            let scanned = match raw_output {
                Some(Json::Text(text)) => scan_step(s, output.scan),
                _ => (s, true),
            };
            let parsed = match raw_output {
                Some(Json::Text(text)) => if scanned.1 {
                    json_value(vstd::utf8::encode_utf8(text@))
                } else {
                    None
                },
                _ => raw_output,
            };
            let t = scanned.0;
            assert(t.calls == s.calls && t.ids == s.ids);
            assert forall|call: Seq<char>| #[trigger] pending(t, call) == pending(s, call) by {}
            lemma_quiet_results(t, elements(field_of(parsed, "results"@)));
        }
    }
}

proof fn lemma_call(
    s: RedactorModel,
    tool: DebugToolKind,
    arguments: ToolText,
    call_id: Seq<char>,
    id: Option<Seq<char>>,
    turn_id: Option<Seq<char>>,
)
    requires
        sane(s),
    ensures
        ({
            let a = arguments_step(s, tool, arguments);
            let b = id_step(a.0, IdNamespace::Call, call_id);
            let c = remember_step(b.0, b.1, tool, arguments);
            let d = opt_id_step(c, IdNamespace::Item, id);
            let t = opt_id_step(d.0, IdNamespace::Turn, turn_id).0;
            &&& quiet_but(s, t, call_id)
            &&& t.failure is None ==> (pending(t, call_id) matches Some(state) && state.tool
                == tool)
        }),
{
    let a = arguments_step(s, tool, arguments);
    let b = id_step(a.0, IdNamespace::Call, call_id);
    let c = remember_step(b.0, b.1, tool, arguments);
    lemma_quiet_arguments(s, tool, arguments);
    lemma_quiet_id(a.0, IdNamespace::Call, call_id);
    lemma_remember(b.0, b.1, tool, arguments);
    if c.failure is None {
        assert(dense(b.0.ids[table_of(IdNamespace::Call)]));
        assert forall|call: Seq<char>| call != call_id implies #[trigger] pending(c, call)
            == pending(b.0, call) by {}
        assert forall|k: u64| #[trigger] c.calls.contains_key(k) implies k < ids_in(
            c,
            IdNamespace::Call,
        ).len() by {
            if k != b.1 {
                assert(b.0.calls.contains_key(k));
            }
        }
        assert(pending(c, call_id) is Some);
    }
    assert(sane(c));
    lemma_quiet_two(c, IdNamespace::Item, id, IdNamespace::Turn, turn_id);
}

proof fn lemma_take_pending(s: RedactorModel, call_id: Seq<char>, number: u64)
    requires
        sane(s),
        s.failure is None ==> ids_in(s, IdNamespace::Call).contains_key(call_id) && ids_in(
            s,
            IdNamespace::Call,
        )[call_id] == number,
    ensures
        quiet_but(s, take_call_step(s, Some(number)).0, call_id),
        s.failure is None ==> pending(take_call_step(s, Some(number)).0, call_id) is None
            && take_call_step(s, Some(number)).1 == pending(s, call_id),
{
    let t = take_call_step(s, Some(number)).0;
    lemma_take(s, Some(number));
    if t.failure is None {
        assert(dense(s.ids[table_of(IdNamespace::Call)]));
        assert forall|call: Seq<char>| call != call_id implies #[trigger] pending(t, call)
            == pending(s, call) by {}
    }
}

proof fn lemma_answer(
    s: RedactorModel,
    call_id: Seq<char>,
    number: u64,
    output: ToolOutput,
    raw_output: Option<Json>,
    id: Option<Seq<char>>,
    turn_id: Option<Seq<char>>,
)
    requires
        sane(s),
        s.failure is None ==> ids_in(s, IdNamespace::Call).contains_key(call_id) && ids_in(
            s,
            IdNamespace::Call,
        )[call_id] == number,
    ensures
        ({
            let b = take_call_step(s, Some(number));
            let c = output_step(b.0, b.1, output, raw_output);
            let d = opt_id_step(c.0, IdNamespace::Item, id);
            let t = opt_id_step(d.0, IdNamespace::Turn, turn_id).0;
            &&& quiet_but(s, t, call_id)
            &&& t.failure is None ==> pending(t, call_id) is None
        }),
{
    let b = take_call_step(s, Some(number));
    let c = output_step(b.0, b.1, output, raw_output);
    lemma_take_pending(s, call_id, number);
    lemma_quiet_output(b.0, b.1, output, raw_output);
    lemma_quiet_two(c.0, IdNamespace::Item, id, IdNamespace::Turn, turn_id);
}

/// What one item does to the awaited calls, within the limits.
spec fn pairs(s: RedactorModel, item: ResponseItem, t: RedactorModel) -> bool {
    &&& sane(t)
    &&& t.failure is None ==> {
        &&& s.failure is None
        &&& forall|call: Seq<char>|
            !announces(item, call) && !answers(item, call) ==> #[trigger] pending(t, call)
                == pending(s, call)
        &&& forall|call: Seq<char>|
            answers(item, call) ==> #[trigger] pending(t, call) is None
        &&& forall|call: Seq<char>|
            announces(item, call) && control_tool(item) is Some ==> (#[trigger] pending(
                t,
                call,
            ) matches Some(state) && Some(state.tool) == control_tool(item))
    }
}

#[verifier::rlimit(60)]
#[verifier::spinoff_prover]
proof fn lemma_pairs(s: RedactorModel, item: ResponseItem, raw: Option<Json>)
    requires
        sane(s),
    ensures
        pairs(s, item, item_step(s, item, raw).0),
{
    match item {
        ResponseItem::AdditionalTools { id, .. } => {
            lemma_quiet_opt(s, IdNamespace::Item, text_view(id));
        },
        ResponseItem::Message { id, turn_id, .. } => {
            lemma_quiet_two(
                s,
                IdNamespace::Item,
                text_view(id),
                IdNamespace::Turn,
                text_view(turn_id),
            );
        },
        ResponseItem::AgentMessage { id, turn_id, .. } => {
            lemma_quiet_two(
                s,
                IdNamespace::Item,
                text_view(id),
                IdNamespace::Turn,
                text_view(turn_id),
            );
        },
        ResponseItem::Reasoning { id, turn_id, .. } => {
            lemma_quiet_two(
                s,
                IdNamespace::Item,
                text_view(id),
                IdNamespace::Turn,
                text_view(turn_id),
            );
        },
        ResponseItem::LocalShellCall { id, call_id, turn_id, .. } => {
            lemma_quiet_three(
                s,
                IdNamespace::Item,
                text_view(id),
                IdNamespace::Call,
                text_view(call_id),
                IdNamespace::Turn,
                text_view(turn_id),
            );
        },
        ResponseItem::FunctionCall {
            id,
            name,
            namespace,
            code_mode,
            arguments,
            call_id,
            turn_id,
        } => {
            let tool = tool_kind(text_view(namespace), name@, code_mode);
            lemma_call(s, tool, arguments, call_id@, text_view(id), text_view(turn_id));
        },
        ResponseItem::ToolSearchCall { id, call_id, turn_id, .. } => {
            lemma_quiet_three(
                s,
                IdNamespace::Item,
                text_view(id),
                IdNamespace::Call,
                text_view(call_id),
                IdNamespace::Turn,
                text_view(turn_id),
            );
        },
        ResponseItem::FunctionCallOutput { id, call_id, output, turn_id } => {
            let raw_output = field_of(raw, "output"@);
            match text_view(call_id) {
                Some(call) => {
                    let a = id_step(s, IdNamespace::Call, call);
                    lemma_quiet_id(s, IdNamespace::Call, call);
                    lemma_answer(
                        a.0,
                        call,
                        a.1,
                        output,
                        raw_output,
                        text_view(id),
                        text_view(turn_id),
                    );
                },
                None => {
                    lemma_quiet_two(
                        s,
                        IdNamespace::Item,
                        text_view(id),
                        IdNamespace::Turn,
                        text_view(turn_id),
                    );
                },
            }
        },
        ResponseItem::CustomToolCall {
            id,
            call_id,
            name,
            namespace,
            code_mode,
            input,
            turn_id,
            ..
        } => {
            let tool = tool_kind(text_view(namespace), name@, code_mode);
            lemma_call(s, tool, input, call_id@, text_view(id), text_view(turn_id));
        },
        ResponseItem::CustomToolCallOutput { id, call_id, output, turn_id, .. } => {
            let a = id_step(s, IdNamespace::Call, call_id@);
            lemma_quiet_id(s, IdNamespace::Call, call_id@);
            lemma_answer(
                a.0,
                call_id@,
                a.1,
                output,
                field_of(raw, "output"@),
                text_view(id),
                text_view(turn_id),
            );
        },
        ResponseItem::ToolSearchOutput { id, call_id, turn_id, .. } => {
            lemma_quiet_three(
                s,
                IdNamespace::Item,
                text_view(id),
                IdNamespace::Call,
                text_view(call_id),
                IdNamespace::Turn,
                text_view(turn_id),
            );
        },
        ResponseItem::WebSearchCall { id, turn_id, .. } => {
            lemma_quiet_two(
                s,
                IdNamespace::Item,
                text_view(id),
                IdNamespace::Turn,
                text_view(turn_id),
            );
        },
        ResponseItem::ImageGenerationCall { id, turn_id, .. } => {
            lemma_quiet_two(
                s,
                IdNamespace::Item,
                text_view(id),
                IdNamespace::Turn,
                text_view(turn_id),
            );
        },
        ResponseItem::Compaction { id, turn_id } => {
            lemma_quiet_two(
                s,
                IdNamespace::Item,
                text_view(id),
                IdNamespace::Turn,
                text_view(turn_id),
            );
        },
        ResponseItem::CompactionTrigger => {},
        ResponseItem::ContextCompaction { id, turn_id, .. } => {
            lemma_quiet_two(
                s,
                IdNamespace::Item,
                text_view(id),
                IdNamespace::Turn,
                text_view(turn_id),
            );
        },
        ResponseItem::Other => {},
    }
}

proof fn lemma_after(s: RedactorModel, items: Seq<SourceItem>)
    requires
        sane(s),
    ensures
        sane(after_items(s, items)),
    decreases items.len(),
{
    if items.len() > 0 {
        lemma_after(s, items.drop_last());
        let before = after_items(s, items.drop_last());
        lemma_pairs(before, items.last().item, items.last().raw);
    }
}

/// The state before an item, with the item's step.
proof fn lemma_take_one_more(s: RedactorModel, items: Seq<SourceItem>, at: int)
    requires
        0 <= at < items.len(),
    ensures
        after_items(s, items.take(at + 1)) == item_step(
            after_items(s, items.take(at)),
            items[at].item,
            items[at].raw,
        ).0,
{
    assert(items.take(at + 1).drop_last() =~= items.take(at));
    assert(items.take(at + 1).last() == items[at]);
}

/// What the item at a position does to the awaited calls.
proof fn lemma_pairs_at(s: RedactorModel, items: Seq<SourceItem>, at: int)
    requires
        sane(s),
        0 <= at < items.len(),
    ensures
        pairs(after_items(s, items.take(at)), items[at].item, after_items(s, items.take(at + 1))),
{
    lemma_take_one_more(s, items, at);
    lemma_after(s, items.take(at));
    lemma_pairs(after_items(s, items.take(at)), items[at].item, items[at].raw);
}

/// From a position on, nothing announces a call: where it is not awaited at
/// first, it is not awaited at the end; where nothing answers it either, it is
/// awaited as at first.
proof fn lemma_stretch(
    s: RedactorModel,
    items: Seq<SourceItem>,
    call: Seq<char>,
    from: int,
    to: int,
)
    requires
        sane(s),
        0 <= from <= to <= items.len(),
        after_items(s, items.take(to)).failure is None,
        forall|k: int| from <= k < to ==> !announces((#[trigger] items[k]).item, call),
    ensures
        after_items(s, items.take(from)).failure is None,
        pending(after_items(s, items.take(from)), call) is None ==> pending(
            after_items(s, items.take(to)),
            call,
        ) is None,
        (forall|k: int| from <= k < to ==> !answers((#[trigger] items[k]).item, call))
            ==> pending(after_items(s, items.take(to)), call) == pending(
            after_items(s, items.take(from)),
            call,
        ),
    decreases to - from,
{
    if from < to {
        lemma_pairs_at(s, items, to - 1);
        assert(!announces(items[to - 1].item, call));
        lemma_stretch(s, items, call, from, to - 1);
    }
}

proof fn lemma_sane_fresh(limits: RedactorLimits, carriers: SpineCarriers)
    ensures
        sane(fresh(limits, carriers)),
{
    lemma_fresh(limits, carriers);
}

proof fn lemma_carriers(s: RedactorModel, items: Seq<SourceItem>)
    requires
        redactor_inv(s),
    ensures
        redactor_inv(after_items(s, items)),
        after_items(s, items).carriers == s.carriers,
    decreases items.len(),
{
    if items.len() > 0 {
        lemma_carriers(s, items.drop_last());
        let before = after_items(s, items.drop_last());
        lemma_item(before, items.last().item, items.last().raw);
    }
}

/// What is kept of an output follows the awaited call.
proof fn lemma_kept(s: RedactorModel, item: ResponseItem, raw: Option<Json>, call: Seq<char>)
    requires
        sane(s),
        s.failure is None,
        item is FunctionCallOutput,
        answers(item, call),
        pending(s, call) is Some || item_step(s, item, raw).0.failure is None,
    ensures
        ({
            let output = item->FunctionCallOutput_output;
            let kept = kept_output(item_step(s, item, raw).1);
            match pending(s, call) {
                None => kept == Some(OutputModel::Redacted { body: output_body(output.body) }),
                Some(state) => (state.tool is SpineOpen || state.tool is SpineClose
                    || state.tool is SpineNext) ==> kept == Some(
                    OutputModel::Control {
                        exact_success_carrier: control_success(s.carriers, state.tool, output.body),
                        body: output_body(output.body),
                    },
                ),
            }
        }),
{
    if let ResponseItem::FunctionCallOutput { id, call_id, output, turn_id } = item {
        let a = id_step(s, IdNamespace::Call, call);
        lemma_quiet_id(s, IdNamespace::Call, call);
        lemma_id(s, IdNamespace::Call, call);
        lemma_answer(
            a.0,
            call,
            a.1,
            output,
            field_of(raw, "output"@),
            text_view(id),
            text_view(turn_id),
        );
        assert(a.0.failure is None);
        assert(pending(a.0, call) == pending(s, call));
        lemma_take_pending(a.0, call, a.1);
    }
}

/// The first output of a control call is kept as a control output, and says of
/// a success exactly whether the body is the text by which that tool reports
/// it: whatever was redacted before the call, and whatever comes between the
/// call and its output, as long as no limit is exceeded.
pub proof fn the_first_output_is_control(
    limits: RedactorLimits,
    carriers: SpineCarriers,
    items: Seq<SourceItem>,
    call: Seq<char>,
    from: int,
    at: int,
)
    requires
        0 <= from < at < items.len(),
        control_tool(items[from].item) is Some,
        announces(items[from].item, call),
        items[at].item is FunctionCallOutput,
        answers(items[at].item, call),
        forall|k: int|
            from < k < at ==> !announces((#[trigger] items[k]).item, call) && !answers(
                items[k].item,
                call,
            ),
        after_items(fresh(limits, carriers), items.take(at)).failure is None,
    ensures
        ({
            let before = after_items(fresh(limits, carriers), items.take(at));
            let output = items[at].item->FunctionCallOutput_output;
            kept_output(item_step(before, items[at].item, items[at].raw).1) == Some(
                OutputModel::Control {
                    exact_success_carrier: control_success(
                        carriers,
                        control_tool(items[from].item)->0,
                        output.body,
                    ),
                    body: output_body(output.body),
                },
            )
        }),
{
    let s = fresh(limits, carriers);
    lemma_sane_fresh(limits, carriers);
    lemma_stretch(s, items, call, from + 1, at);
    lemma_pairs_at(s, items, from);
    lemma_after(s, items.take(at));
    lemma_carriers(s, items.take(at));
    let before = after_items(s, items.take(at));
    assert(pending(before, call) is Some);
    lemma_kept(before, items[at].item, items[at].raw, call);
}

/// Once a call has been answered, every further output for it is redacted, as
/// long as the call is not announced again and no limit is exceeded.
pub proof fn further_outputs_are_redacted(
    limits: RedactorLimits,
    carriers: SpineCarriers,
    items: Seq<SourceItem>,
    call: Seq<char>,
    first: int,
    at: int,
)
    requires
        0 <= first < at < items.len(),
        answers(items[first].item, call),
        items[at].item is FunctionCallOutput,
        answers(items[at].item, call),
        forall|k: int| first < k < at ==> !announces((#[trigger] items[k]).item, call),
        after_items(fresh(limits, carriers), items.take(at + 1)).failure is None,
    ensures
        ({
            let before = after_items(fresh(limits, carriers), items.take(at));
            let output = items[at].item->FunctionCallOutput_output;
            kept_output(item_step(before, items[at].item, items[at].raw).1) == Some(
                OutputModel::Redacted { body: output_body(output.body) },
            )
        }),
{
    let s = fresh(limits, carriers);
    lemma_sane_fresh(limits, carriers);
    lemma_take_one_more(s, items, at);
    lemma_pairs_at(s, items, at);
    lemma_after(s, items.take(at));
    lemma_stretch(s, items, call, first + 1, at);
    lemma_pairs_at(s, items, first);
    lemma_kept(after_items(s, items.take(at)), items[at].item, items[at].raw, call);
}

/// An output whose call was never announced is redacted, as long as no limit
/// is exceeded.
pub proof fn an_output_without_a_call_is_redacted(
    limits: RedactorLimits,
    carriers: SpineCarriers,
    items: Seq<SourceItem>,
    call: Seq<char>,
    at: int,
)
    requires
        0 <= at < items.len(),
        items[at].item is FunctionCallOutput,
        answers(items[at].item, call),
        forall|k: int| 0 <= k < at ==> !announces((#[trigger] items[k]).item, call),
        after_items(fresh(limits, carriers), items.take(at + 1)).failure is None,
    ensures
        ({
            let before = after_items(fresh(limits, carriers), items.take(at));
            let output = items[at].item->FunctionCallOutput_output;
            kept_output(item_step(before, items[at].item, items[at].raw).1) == Some(
                OutputModel::Redacted { body: output_body(output.body) },
            )
        }),
{
    let s = fresh(limits, carriers);
    lemma_sane_fresh(limits, carriers);
    lemma_take_one_more(s, items, at);
    lemma_pairs_at(s, items, at);
    lemma_after(s, items.take(at));
    assert(items.take(0) =~= Seq::empty());
    lemma_stretch(s, items, call, 0, at);
    lemma_kept(after_items(s, items.take(at)), items[at].item, items[at].raw, call);
}

} // verus!
