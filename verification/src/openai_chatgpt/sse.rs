//! Server-sent event framing of the response stream: splitting the byte
//! stream into events, reading each event's JSON payload, refusing tool and
//! function output, and holding the stream to exactly one terminal event.

use vstd::prelude::*;
use vstd::utf8::{decode_utf8, encode_utf8, valid_utf8};

use crate::json::{
    get_in, json_document, json_get, json_str, json_u64, parse_json, str_in,
    JsonValue,
};
use crate::openai_chatgpt::MAX_SSE_BUFFER;
use crate::provider::{events_view, ProviderEvent, ProviderEventModel, PublicError};
use crate::text::{
    bytes_eq, chars_eq, chars_of, contains_text, copy_bytes, ends_with_text, find_char,
    leading_whitespace_len, push_chars, starts_with, string_eq_str, string_from_utf8, string_of,
    text_contains, text_ends_with, text_lines, trim_start,
};

verus! {

/// The payload of a `data:` line, as a one-element sequence; nothing for any
/// other line.
pub open spec fn data_piece(line: Seq<char>) -> Seq<Seq<char>> {
    if starts_with(line, "data:"@) {
        seq![trim_start(line.skip("data:"@.len() as int))]
    } else {
        seq![]
    }
}

pub open spec fn data_pieces(lines: Seq<Seq<char>>) -> Seq<Seq<char>>
    decreases lines.len(),
{
    if lines.len() == 0 {
        seq![]
    } else {
        data_piece(lines[0]) + data_pieces(lines.drop_first())
    }
}

/// The parts joined with line feeds between them.
pub open spec fn join_lines(parts: Seq<Seq<char>>) -> Seq<char>
    decreases parts.len(),
{
    if parts.len() == 0 {
        seq![]
    } else if parts.len() == 1 {
        parts[0]
    } else {
        join_lines(parts.drop_last()) + seq!['\n'] + parts.last()
    }
}

/// The data of an event: the payloads of its `data:` lines, each without
/// leading whitespace, joined by line feeds.
pub open spec fn sse_data(text: Seq<char>) -> Seq<char> {
    join_lines(data_pieces(text_lines(text)))
}

proof fn lemma_data_pieces_push(lines: Seq<Seq<char>>, line: Seq<char>)
    ensures
        data_pieces(lines.push(line)) == data_pieces(lines) + data_piece(line),
    decreases lines.len(),
{
    if lines.len() == 0 {
        assert(lines.push(line).drop_first() =~= Seq::<Seq<char>>::empty());
        assert(lines.push(line)[0] == line);
        assert(data_pieces(Seq::<Seq<char>>::empty()) == Seq::<Seq<char>>::empty());
        assert(data_piece(line) + Seq::<Seq<char>>::empty() =~= data_piece(line));
        assert(Seq::<Seq<char>>::empty() + data_piece(line) =~= data_piece(line));
    } else {
        lemma_data_pieces_push(lines.drop_first(), line);
        assert(lines.push(line).drop_first() =~= lines.drop_first().push(line));
        assert(lines.push(line)[0] == lines[0]);
        assert(data_piece(lines[0]) + (data_pieces(lines.drop_first()) + data_piece(line)) =~= (
        data_piece(lines[0]) + data_pieces(lines.drop_first())) + data_piece(line));
    }
}

proof fn lemma_join_push(parts: Seq<Seq<char>>, p: Seq<char>)
    ensures
        join_lines(parts.push(p)) == (if parts.len() == 0 {
            p
        } else {
            join_lines(parts) + seq!['\n'] + p
        }),
{
    assert(parts.push(p).drop_last() =~= parts);
    assert(parts.push(p).last() == p);
    if parts.len() == 0 {
        assert(parts.push(p)[0] == p);
    }
}

fn sse_data_of(text: &[char]) -> (data: Vec<char>)
    ensures
        data@ == sse_data(text@),
{
    let data_prefix = chars_of("data:");
    let mut out: Vec<char> = Vec::new();
    let mut has_piece = false;
    let mut start: usize = 0;
    let ghost mut done: Seq<Seq<char>> = seq![];
    assert(text@.skip(0) =~= text@);
    assert(done + text_lines(text@) =~= text_lines(text@));
    while start < text.len()
        invariant
            start <= text@.len(),
            data_prefix@ == "data:"@,
            text_lines(text@) == done + text_lines(text@.skip(start as int)),
            out@ == join_lines(data_pieces(done)),
            has_piece == (data_pieces(done).len() > 0),
        decreases text@.len() - start,
    {
        let rest = &text[start..text.len()];
        assert(rest@ =~= text@.skip(start as int));
        let j = find_char(rest, '\n');
        let mut end = j;
        if j < rest.len() && j > 0 && rest[j - 1] == '\r' {
            end = j - 1;
        }
        let line = &rest[0..end];
        let ghost tail_lines = if j < rest@.len() {
            text_lines(rest@.skip(j + 1))
        } else {
            Seq::<Seq<char>>::empty()
        };
        assert(text_lines(rest@) == seq![line@] + tail_lines) by {
            if j < rest@.len() {
                assert(line@ =~= crate::text::strip_line_end(rest@.take(j as int)));
            } else {
                assert(line@ =~= rest@);
            }
        }
        let ghost before_pieces = data_pieces(done);
        if line.len() >= data_prefix.len() && chars_eq(&line[0..data_prefix.len()], &data_prefix) {
            let after = &line[data_prefix.len()..line.len()];
            let k = leading_whitespace_len(after);
            let piece = &after[k..after.len()];
            assert(starts_with(line@, "data:"@)) by {
                assert(line@.take(data_prefix@.len() as int) =~= line@.subrange(
                    0,
                    data_prefix@.len() as int,
                ));
            }
            assert(after@ =~= line@.skip("data:"@.len() as int));
            assert(piece@ =~= trim_start(after@));
            if has_piece {
                out.push('\n');
            }
            push_chars(&mut out, piece);
            has_piece = true;
            proof {
                lemma_data_pieces_push(done, line@);
                assert(data_pieces(done.push(line@)) =~= before_pieces.push(piece@));
                lemma_join_push(before_pieces, piece@);
            }
        } else {
            assert(!starts_with(line@, "data:"@)) by {
                if starts_with(line@, "data:"@) {
                    assert(line@.subrange(0, data_prefix@.len() as int) =~= line@.take(
                        data_prefix@.len() as int,
                    ));
                }
            }
            proof {
                lemma_data_pieces_push(done, line@);
                assert(data_pieces(done.push(line@)) =~= before_pieces);
            }
        }
        proof {
            assert(done + text_lines(rest@) =~= done.push(line@) + tail_lines);
            done = done.push(line@);
        }
        if j < rest.len() {
            assert(rest@.skip(j + 1) =~= text@.skip(start + j + 1));
            start = start + j + 1;
        } else {
            assert(text@.skip(text@.len() as int) =~= Seq::<char>::empty());
            start = text.len();
        }
    }
    assert(text@.skip(start as int) =~= Seq::<char>::empty());
    assert(done + Seq::<Seq<char>>::empty() =~= done);
    out
}

/// Output types the compatibility adapter refuses: function and tool calls
/// and every other `*_call` item.
pub open spec fn is_unsupported_output_type(kind: Seq<char>) -> bool {
    contains_text(kind, "function"@) || contains_text(kind, "tool"@) || contains_text(
        kind,
        "computer_call"@,
    ) || contains_text(kind, "web_search_call"@) || contains_text(kind, "mcp_call"@)
        || contains_text(kind, "shell_call"@) || contains_text(kind, "image_generation_call"@)
        || ends_with_text(kind, "_call"@)
}

pub fn is_unsupported_provider_output_type(kind: &str) -> (r: bool)
    ensures
        r == is_unsupported_output_type(kind@),
{
    let k = chars_of(kind);
    text_contains(&k, &chars_of("function")) || text_contains(&k, &chars_of("tool"))
        || text_contains(&k, &chars_of("computer_call")) || text_contains(
        &k,
        &chars_of("web_search_call"),
    ) || text_contains(&k, &chars_of("mcp_call")) || text_contains(&k, &chars_of("shell_call"))
        || text_contains(&k, &chars_of("image_generation_call")) || text_ends_with(
        &k,
        &chars_of("_call"),
    )
}

/// A `"type"` field whose string value is an unsupported output type.
pub open spec fn is_unsupported_type_field(field: (String, JsonValue)) -> bool {
    field.0@ == "type"@ && match field.1 {
        JsonValue::String(s) => is_unsupported_output_type(s@),
        _ => false,
    }
}

/// Whether an unsupported output type appears anywhere in a document.
pub open spec fn json_has_unsupported(value: JsonValue) -> bool
    decreases value,
{
    match value {
        JsonValue::Object(fields) => exists|i: int|
            0 <= i < fields@.len() && (is_unsupported_type_field(#[trigger] fields@[i])
                || json_has_unsupported(fields@[i].1)),
        JsonValue::Array(items) => exists|i: int|
            0 <= i < items@.len() && json_has_unsupported(#[trigger] items@[i]),
        _ => false,
    }
}

pub fn contains_unsupported_provider_output(value: &JsonValue) -> (r: bool)
    ensures
        r == json_has_unsupported(*value),
    decreases value,
{
    match value {
        JsonValue::Object(fields) => {
            let mut i: usize = 0;
            while i < fields.len()
                invariant
                    i <= fields@.len(),
                    *value == JsonValue::Object(*fields),
                    forall|k: int|
                        0 <= k < i ==> !(is_unsupported_type_field(#[trigger] fields@[k])
                            || json_has_unsupported(fields@[k].1)),
                decreases fields@.len() - i,
            {
                let field = &fields[i];
                let type_hit = string_eq_str(&field.0, "type") && match &field.1 {
                    JsonValue::String(s) => is_unsupported_provider_output_type(s.as_str()),
                    _ => false,
                };
                assert(type_hit == is_unsupported_type_field(fields@[i as int]));
                proof {
                    assert(*fields == (*value)->Object_0);
                    assert(decreases_to!(*value => (*value)->Object_0));
                    assert(decreases_to!(*fields => fields@));
                    assert(decreases_to!(fields@ => fields@[i as int]));
                    assert(decreases_to!(fields@[i as int] => fields@[i as int].1));
                }
                if type_hit || contains_unsupported_provider_output(&field.1) {
                    assert(json_has_unsupported(*value)) by {
                        assert(is_unsupported_type_field(fields@[i as int]) || json_has_unsupported(
                            fields@[i as int].1,
                        ));
                        assert(json_has_unsupported(JsonValue::Object(*fields)));
                    }
                    return true;
                }
                i = i + 1;
            }
            false
        },
        JsonValue::Array(items) => {
            let mut i: usize = 0;
            while i < items.len()
                invariant
                    i <= items@.len(),
                    *value == JsonValue::Array(*items),
                    forall|k: int| 0 <= k < i ==> !json_has_unsupported(#[trigger] items@[k]),
                decreases items@.len() - i,
            {
                proof {
                    assert(*items == (*value)->Array_0);
                    assert(decreases_to!(*value => (*value)->Array_0));
                    assert(decreases_to!(*items => items@));
                    assert(decreases_to!(items@ => items@[i as int]));
                }
                if contains_unsupported_provider_output(&items[i]) {
                    assert(json_has_unsupported(*value)) by {
                        assert(json_has_unsupported(items@[i as int]));
                        assert(json_has_unsupported(JsonValue::Array(*items)));
                    }
                    return true;
                }
                i = i + 1;
            }
            false
        },
        _ => false,
    }
}

/// The events that one parsed payload stands for.
#[verifier::opaque]
pub open spec fn events_from_document(value: JsonValue) -> Result<
    Seq<ProviderEventModel>,
    PublicError,
> {
    let v = Some(value);
    let kind = json_str(json_get(v, "type"@));
    let response = json_get(v, "response"@);
    if json_has_unsupported(value) {
        Err(PublicError::UnsupportedProviderOutput)
    } else if kind == Some("response.output_text.delta"@) {
        match json_str(json_get(v, "delta"@)) {
            Some(delta) => Ok(seq![ProviderEventModel::Delta(delta)]),
            None => Err(PublicError::ProviderUnavailable),
        }
    } else if kind == Some("response.completed"@) {
        Ok(
            seq![
                ProviderEventModel::Completed {
                    response_id: json_str(json_get(response, "id"@)),
                    input_tokens: json_u64(
                        json_get(json_get(response, "usage"@), "input_tokens"@),
                    ),
                    output_tokens: json_u64(
                        json_get(json_get(response, "usage"@), "output_tokens"@),
                    ),
                },
            ],
        )
    } else if kind == Some("response.failed"@) || kind == Some("response.incomplete"@) || kind
        == Some("error"@) {
        Err(PublicError::ProviderUnavailable)
    } else {
        Ok(seq![])
    }
}

/// The events of one SSE event block. Oversized blocks hit the output limit,
/// non-UTF-8 blocks and unparsable payloads make the provider unavailable,
/// and blocks without data or with the `[DONE]` marker carry no event.
#[verifier::opaque]
pub open spec fn parse_sse_event_spec(event: Seq<u8>) -> Result<
    Seq<ProviderEventModel>,
    PublicError,
> {
    if event.len() > MAX_SSE_BUFFER {
        Err(PublicError::OutputLimit)
    } else if !valid_utf8(event) {
        Err(PublicError::ProviderUnavailable)
    } else {
        let data = sse_data(decode_utf8(event));
        if data.len() == 0 || data == "[DONE]"@ {
            Ok(seq![])
        } else {
            match json_document(encode_utf8(data)) {
                Some(value) => events_from_document(value),
                None => Err(PublicError::ProviderUnavailable),
            }
        }
    }
}

/// The effect of appending the outcome of `r` to `output`.
pub open spec fn appended(
    before: Seq<ProviderEvent>,
    after: Seq<ProviderEvent>,
    r: Result<(), PublicError>,
    expected: Result<Seq<ProviderEventModel>, PublicError>,
) -> bool {
    match expected {
        Ok(events) => r is Ok && events_view(after) == events_view(before) + events,
        Err(e) => r == Err::<(), PublicError>(e) && after == before,
    }
}

fn push_event(output: &mut Vec<ProviderEvent>, event: ProviderEvent)
    ensures
        events_view(final(output)@) == events_view(old(output)@) + seq![event@],
{
    output.push(event);
    assert(events_view(output@) =~= events_view(old(output)@) + seq![event@]);
}

/// Reads the events of one parsed event payload onto `output`.
pub fn events_from_json(value: &JsonValue, output: &mut Vec<ProviderEvent>) -> (r: Result<
    (),
    PublicError,
>)
    ensures
        appended(old(output)@, final(output)@, r, events_from_document(*value)),
{
    reveal(events_from_document);
    let kind = str_in(value.get("type"));
    if contains_unsupported_provider_output(value) {
        return Err(PublicError::UnsupportedProviderOutput);
    }
    let is_kind = |name: &str| -> (b: bool)
        ensures
            b == (json_str(json_get(Some(*value), "type"@)) == Some(name@)),
        {
            match kind {
                Some(k) => string_eq_str(k, name),
                None => false,
            }
        };
    if is_kind("response.output_text.delta") {
        match str_in(value.get("delta")) {
            Some(delta) => {
                push_event(output, ProviderEvent::Delta(delta.clone()));
                Ok(())
            },
            None => Err(PublicError::ProviderUnavailable),
        }
    } else if is_kind("response.completed") {
        let response = value.get("response");
        let usage = get_in(response, "usage");
        let response_id = match str_in(get_in(response, "id")) {
            Some(id) => Some(id.clone()),
            None => None,
        };
        let input_tokens = match get_in(usage, "input_tokens") {
            Some(n) => n.as_u64(),
            None => None,
        };
        let output_tokens = match get_in(usage, "output_tokens") {
            Some(n) => n.as_u64(),
            None => None,
        };
        push_event(output, ProviderEvent::Completed { response_id, input_tokens, output_tokens });
        Ok(())
    } else if is_kind("response.failed") || is_kind("response.incomplete") || is_kind("error") {
        Err(PublicError::ProviderUnavailable)
    } else {
        assert(events_view(output@) + Seq::<ProviderEventModel>::empty() =~= events_view(
            output@,
        ));
        Ok(())
    }
}

/// Reads one SSE event block and appends the events it stands for.
pub fn parse_sse_event(event: &[u8], output: &mut Vec<ProviderEvent>) -> (r: Result<
    (),
    PublicError,
>)
    ensures
        appended(old(output)@, final(output)@, r, parse_sse_event_spec(event@)),
{
    reveal(parse_sse_event_spec);
    assert(events_view(output@) + Seq::<ProviderEventModel>::empty() =~= events_view(output@));
    if event.len() > MAX_SSE_BUFFER {
        return Err(PublicError::OutputLimit);
    }
    let text = match string_from_utf8(copy_bytes(event)) {
        Some(text) => text,
        None => return Err(PublicError::ProviderUnavailable),
    };
    let chars = chars_of(text.as_str());
    let data = sse_data_of(&chars);
    if data.len() == 0 {
        return Ok(());
    }
    if chars_eq(&data, &chars_of("[DONE]")) {
        return Ok(());
    }
    let data_text = string_of(&data);
    let value = match parse_json(data_text.as_str().as_bytes()) {
        Some(value) => value,
        None => return Err(PublicError::ProviderUnavailable),
    };
    events_from_json(&value, output)
}

pub open spec fn is_completed(event: ProviderEventModel) -> bool {
    event is Completed
}

/// Hands a batch of events on in order while holding the stream to one
/// terminal: any event after `Completed`, a second `Completed` included,
/// makes the provider unavailable. Gives the events handed on, whether the
/// terminal has been seen, and the result.
pub open spec fn emit_batch(saw_completed: bool, batch: Seq<ProviderEventModel>) -> (
    Seq<ProviderEventModel>,
    bool,
    Result<(), PublicError>,
)
    decreases batch.len(),
{
    if batch.len() == 0 {
        (seq![], saw_completed, Ok(()))
    } else if saw_completed {
        (seq![], saw_completed, Err(PublicError::ProviderUnavailable))
    } else {
        let next = emit_batch(is_completed(batch[0]), batch.drop_first());
        (seq![batch[0]] + next.0, next.1, next.2)
    }
}

/// A stream prefix in which the terminal, if seen, is the one and last event.
pub open spec fn stream_consistent(events: Seq<ProviderEventModel>, saw_completed: bool) -> bool {
    &&& forall|i: int| 0 <= i < events.len() - 1 ==> !is_completed(#[trigger] events[i])
    &&& saw_completed <==> (events.len() > 0 && is_completed(events.last()))
}

/// Law: handing on a batch keeps the stream consistent.
pub proof fn lemma_emit_batch_keeps_stream_consistent(
    events: Seq<ProviderEventModel>,
    saw_completed: bool,
    batch: Seq<ProviderEventModel>,
)
    requires
        stream_consistent(events, saw_completed),
    ensures
        ({
            let (emitted, saw_after, _) = emit_batch(saw_completed, batch);
            stream_consistent(events + emitted, saw_after)
        }),
    decreases batch.len(),
{
    if batch.len() > 0 && !saw_completed {
        let first = batch[0];
        let pushed = events.push(first);
        assert(stream_consistent(pushed, is_completed(first))) by {
            assert(pushed.last() == first);
            assert forall|i: int| 0 <= i < pushed.len() - 1 implies !is_completed(
                #[trigger] pushed[i],
            ) by {
                assert(pushed[i] == events[i]);
                if i == events.len() - 1 {
                    assert(events.last() == events[i]);
                }
            }
        }
        lemma_emit_batch_keeps_stream_consistent(pushed, is_completed(first), batch.drop_first());
        let next = emit_batch(is_completed(first), batch.drop_first());
        assert(pushed + next.0 =~= events + (seq![first] + next.0));
    } else {
        assert(events + Seq::<ProviderEventModel>::empty() =~= events);
    }
}

/// Hands each event of `batch` on to `sink` in order, refusing any event
/// after the terminal.
pub fn emit_provider_batch(
    batch: Vec<ProviderEvent>,
    saw_completed: &mut bool,
    sink: &mut Vec<ProviderEvent>,
) -> (r: Result<(), PublicError>)
    ensures
        ({
            let (emitted, saw_after, result) = emit_batch(*old(saw_completed), events_view(batch@));
            &&& events_view(final(sink)@) == events_view(old(sink)@) + emitted
            &&& *final(saw_completed) == saw_after
            &&& r == result
        }),
{
    let mut rest = batch;
    let ghost total = emit_batch(*saw_completed, events_view(rest@));
    let ghost mut emitted: Seq<ProviderEventModel> = seq![];
    assert(events_view(sink@) + emitted =~= events_view(sink@));
    while rest.len() > 0
        invariant
            total == emit_batch(*old(saw_completed), events_view(batch@)),
            events_view(sink@) == events_view(old(sink)@) + emitted,
            ({
                let next = emit_batch(*saw_completed, events_view(rest@));
                total == (emitted + next.0, next.1, next.2)
            }),
        decreases rest@.len(),
    {
        let ghost before = events_view(rest@);
        let item = rest.remove(0);
        assert(events_view(rest@) =~= before.drop_first());
        assert(before[0] == item@);
        let completed = match &item {
            ProviderEvent::Completed { .. } => true,
            ProviderEvent::Delta(_) => false,
        };
        if *saw_completed {
            assert(emit_batch(*saw_completed, before) == (
                Seq::<ProviderEventModel>::empty(),
                true,
                Err::<(), PublicError>(PublicError::ProviderUnavailable),
            ));
            assert(emitted + Seq::<ProviderEventModel>::empty() =~= emitted);
            return Err(PublicError::ProviderUnavailable);
        }
        *saw_completed = completed;
        push_event(sink, item);
        proof {
            let next = emit_batch(*saw_completed, events_view(rest@));
            assert(emitted.push(item@) + next.0 =~= emitted + (seq![item@] + next.0));
            emitted = emitted.push(item@);
        }
    }
    assert(events_view(rest@) =~= Seq::<ProviderEventModel>::empty());
    assert(emitted + Seq::<ProviderEventModel>::empty() =~= emitted);
    Ok(())
}

/// Whether `w` occurs in `b` at `i`.
pub open spec fn window_at(b: Seq<u8>, i: int, w: Seq<u8>) -> bool {
    0 <= i && i + w.len() <= b.len() && b.subrange(i, i + w.len()) == w
}

/// The first position at which `w` occurs in `b`.
#[verifier::opaque]
pub open spec fn first_window(b: Seq<u8>, w: Seq<u8>) -> Option<int> {
    if exists|i: int| #[trigger] window_at(b, i, w) {
        Some(
            choose|i: int|
                #[trigger] window_at(b, i, w) && forall|j: int| 0 <= j < i ==> !window_at(b, j, w),
        )
    } else {
        None
    }
}

pub open spec fn crlf_crlf() -> Seq<u8> {
    seq![13u8, 10u8, 13u8, 10u8]
}

pub open spec fn lf_lf() -> Seq<u8> {
    seq![10u8, 10u8]
}

/// Where the first complete event ends: at the first blank line written with
/// carriage returns, or else at the first one written with bare line feeds.
pub open spec fn event_boundary(buffer: Seq<u8>) -> Option<int> {
    match first_window(buffer, crlf_crlf()) {
        Some(i) => Some(i),
        None => first_window(buffer, lf_lf()),
    }
}

/// The length of the blank line that a buffer starts with.
pub open spec fn delimiter_len(buffer: Seq<u8>) -> nat {
    if window_at(buffer, 0, crlf_crlf()) {
        4
    } else if window_at(buffer, 0, lf_lf()) {
        2
    } else {
        0
    }
}

proof fn lemma_first_window_is_least(b: Seq<u8>, w: Seq<u8>, i: int)
    requires
        window_at(b, i, w),
        forall|j: int| 0 <= j < i ==> !window_at(b, j, w),
    ensures
        first_window(b, w) == Some(i),
{
    reveal(first_window);
    let c = choose|k: int| #[trigger] window_at(b, k, w) && forall|j: int| 0 <= j < k ==> !window_at(b, j, w);
    assert(window_at(b, c, w) && forall|j: int| 0 <= j < c ==> !window_at(b, j, w));
    if c < i {
        assert(!window_at(b, c, w));
    }
    if i < c {
        assert(!window_at(b, i, w));
    }
}

proof fn lemma_first_window_found(b: Seq<u8>, w: Seq<u8>)
    requires
        first_window(b, w) is Some,
    ensures
        window_at(b, first_window(b, w)->0, w),
{
    reveal(first_window);
    let i = choose|i: int| #[trigger] window_at(b, i, w);
    let j = least_window_from(b, w, i);
    lemma_first_window_is_least(b, w, j);
}

/// Some position of `w` in `b` at or before `i` with none before it.
proof fn least_window_from(b: Seq<u8>, w: Seq<u8>, i: int) -> (j: int)
    requires
        window_at(b, i, w),
    ensures
        window_at(b, j, w),
        forall|k: int| 0 <= k < j ==> !window_at(b, k, w),
    decreases i,
{
    if exists|k: int| 0 <= k < i && #[trigger] window_at(b, k, w) {
        let k = choose|k: int| 0 <= k < i && #[trigger] window_at(b, k, w);
        least_window_from(b, w, k)
    } else {
        i
    }
}

fn find_window(b: &[u8], w: &[u8]) -> (r: Option<usize>)
    requires
        w@.len() > 0,
    ensures
        match r {
            Some(i) => first_window(b@, w@) == Some(i as int),
            None => first_window(b@, w@) is None,
        },
{
    if w.len() > b.len() {
        assert forall|i: int| !#[trigger] window_at(b@, i, w@) by {}
        proof {
            reveal(first_window);
        }
        return None;
    }
    let last = b.len() - w.len();
    let mut i: usize = 0;
    loop
        invariant
            0 < w@.len() <= b@.len(),
            b@.len() <= usize::MAX,
            last == b@.len() - w@.len(),
            i <= last,
            forall|k: int| 0 <= k < i ==> !#[trigger] window_at(b@, k, w@),
        decreases last - i,
    {
        let end = i + w.len();
        if bytes_eq(&b[i..end], w) {
            assert(b@.subrange(i as int, end as int) == w@);
            proof {
                lemma_first_window_is_least(b@, w@, i as int);
            }
            return Some(i);
        }
        if i == last {
            assert forall|k: int| !#[trigger] window_at(b@, k, w@) by {
                if window_at(b@, k, w@) {
                    assert(k <= last);
                    if k == i {
                    }
                }
            }
            proof {
                reveal(first_window);
            }
            return None;
        }
        i = i + 1;
    }
}

/// Law joining [`find_event_boundary`] and [`event_delimiter_len`]: at a
/// boundary that the first finds, the second is never 0: it is 4 where the
/// bytes there begin with `\r\n\r\n`, 2 otherwise, and the blank line lies
/// within the buffer.
pub proof fn lemma_boundary_has_delimiter(buffer: Seq<u8>)
    requires
        event_boundary(buffer) is Some,
    ensures
        ({
            let b = event_boundary(buffer)->0;
            &&& 0 <= b <= buffer.len()
            &&& delimiter_len(buffer.skip(b)) > 0
            &&& delimiter_len(buffer.skip(b)) == if window_at(buffer.skip(b), 0, crlf_crlf()) {
                4nat
            } else {
                2nat
            }
            &&& delimiter_len(buffer.skip(b)) == if b + 4 <= buffer.len() && buffer.subrange(
                b,
                b + 4,
            ) == seq![13u8, 10u8, 13u8, 10u8] {
                4nat
            } else {
                2nat
            }
            &&& b + delimiter_len(buffer.skip(b)) <= buffer.len()
        }),
{
    let b = event_boundary(buffer)->0;
    if first_window(buffer, crlf_crlf()) is Some {
        lemma_first_window_found(buffer, crlf_crlf());
        assert(buffer.skip(b).subrange(0, 4) =~= buffer.subrange(b, b + 4));
        assert(window_at(buffer.skip(b), 0, crlf_crlf()));
    } else {
        lemma_first_window_found(buffer, lf_lf());
        if b + 4 <= buffer.len() && buffer.subrange(b, b + 4) == seq![13u8, 10u8, 13u8, 10u8] {
            assert(buffer.skip(b).subrange(0, 4) =~= buffer.subrange(b, b + 4));
            assert(window_at(buffer.skip(b), 0, crlf_crlf()));
        }
        let after = buffer.skip(b);
        assert(after.subrange(0, 2) =~= buffer.subrange(b, b + 2));
        assert(window_at(after, 0, lf_lf()));
        if window_at(after, 0, crlf_crlf()) {
            assert(after.subrange(0, 4)[0] == after[0]);
            assert(after.subrange(0, 2)[0] == after[0]);
        }
    }
}

/// Splits every complete event off the front of the buffer and hands its
/// events on, until the terminal has been seen or no complete event is
/// left. Gives the rest of the buffer, whether the terminal has been seen,
/// the events handed on and the result.
pub open spec fn drain_events(buffer: Seq<u8>, saw_completed: bool) -> (
    Seq<u8>,
    bool,
    Seq<ProviderEventModel>,
    Result<(), PublicError>,
)
    decreases buffer.len(),
{
    if saw_completed {
        (buffer, saw_completed, seq![], Ok(()))
    } else {
        match event_boundary(buffer) {
            None => (buffer, saw_completed, seq![], Ok(())),
            Some(b) => {
                let after = buffer.skip(b);
                let rest = after.skip(delimiter_len(after) as int);
                match parse_sse_event_spec(buffer.take(b)) {
                    Err(e) => (rest, saw_completed, seq![], Err(e)),
                    Ok(batch) => {
                        let (emitted, saw_after, result) = emit_batch(saw_completed, batch);
                        if result is Err {
                            (rest, saw_after, emitted, result)
                        } else {
                            proof {
                                lemma_boundary_has_delimiter(buffer);
                            }
                            let next = drain_events(rest, saw_after);
                            (next.0, next.1, emitted + next.2, next.3)
                        }
                    },
                }
            },
        }
    }
}

/// Position of the first complete event's end in `buffer`.
pub fn find_event_boundary(buffer: &[u8]) -> (r: Option<usize>)
    ensures
        match r {
            Some(i) => event_boundary(buffer@) == Some(i as int),
            None => event_boundary(buffer@) is None,
        },
{
    let crlf = vec![13u8, 10u8, 13u8, 10u8];
    let lf = vec![10u8, 10u8];
    assert(crlf@ =~= crlf_crlf());
    assert(lf@ =~= lf_lf());
    match find_window(buffer, &crlf) {
        Some(i) => Some(i),
        None => find_window(buffer, &lf),
    }
}

/// Length of the blank line that `buffer` starts with, or zero.
pub fn event_delimiter_len(buffer: &[u8]) -> (n: usize)
    ensures
        n == delimiter_len(buffer@),
{
    if buffer.len() >= 4 && buffer[0] == 13u8 && buffer[1] == 10u8 && buffer[2] == 13u8
        && buffer[3] == 10u8 {
        assert(buffer@.subrange(0, 4) =~= crlf_crlf());
        4
    } else if buffer.len() >= 2 && buffer[0] == 10u8 && buffer[1] == 10u8 {
        assert(buffer@.subrange(0, 2) =~= lf_lf());
        assert(!window_at(buffer@, 0, crlf_crlf())) by {
            if window_at(buffer@, 0, crlf_crlf()) {
                assert(buffer@.subrange(0, 4)[0] == buffer@[0]);
            }
        }
        2
    } else {
        assert(!window_at(buffer@, 0, crlf_crlf())) by {
            if window_at(buffer@, 0, crlf_crlf()) {
                assert(buffer@.subrange(0, 4)[0] == buffer@[0]);
                assert(buffer@.subrange(0, 4)[1] == buffer@[1]);
                assert(buffer@.subrange(0, 4)[2] == buffer@[2]);
                assert(buffer@.subrange(0, 4)[3] == buffer@[3]);
            }
        }
        assert(!window_at(buffer@, 0, lf_lf())) by {
            if window_at(buffer@, 0, lf_lf()) {
                assert(buffer@.subrange(0, 2)[0] == buffer@[0]);
                assert(buffer@.subrange(0, 2)[1] == buffer@[1]);
            }
        }
        0
    }
}

/// Splits off and hands on every complete event in `buffer`, stopping after
/// the terminal.
pub fn emit_complete_sse_events(
    buffer: &mut Vec<u8>,
    saw_completed: &mut bool,
    sink: &mut Vec<ProviderEvent>,
) -> (r: Result<(), PublicError>)
    ensures
        ({
            let (rest, saw_after, emitted, result) = drain_events(old(buffer)@, *old(saw_completed));
            &&& final(buffer)@ == rest
            &&& *final(saw_completed) == saw_after
            &&& events_view(final(sink)@) == events_view(old(sink)@) + emitted
            &&& r == result
        }),
{
    let ghost total = drain_events(buffer@, *saw_completed);
    let ghost mut emitted: Seq<ProviderEventModel> = seq![];
    assert(events_view(sink@) + emitted =~= events_view(sink@));
    loop
        invariant
            total == drain_events(old(buffer)@, *old(saw_completed)),
            events_view(sink@) == events_view(old(sink)@) + emitted,
            ({
                let next = drain_events(buffer@, *saw_completed);
                total == (next.0, next.1, emitted + next.2, next.3)
            }),
        decreases buffer@.len(),
    {
        if *saw_completed {
            assert(emitted + Seq::<ProviderEventModel>::empty() =~= emitted);
            return Ok(());
        }
        let boundary = match find_event_boundary(buffer.as_slice()) {
            Some(b) => b,
            None => {
                assert(emitted + Seq::<ProviderEventModel>::empty() =~= emitted);
                return Ok(());
            },
        };
        proof {
            lemma_boundary_has_delimiter(buffer@);
        }
        let ghost before = buffer@;
        let event = vstd::slice::slice_to_vec(&buffer[0..boundary]);
        let delimiter = event_delimiter_len(&buffer[boundary..buffer.len()]);
        assert(buffer@.subrange(boundary as int, buffer@.len() as int) =~= before.skip(
            boundary as int,
        ));
        *buffer = vstd::slice::slice_to_vec(&buffer[boundary + delimiter..buffer.len()]);
        assert(buffer@ =~= before.skip(boundary as int).skip(delimiter as int));
        assert(event@ =~= before.take(boundary as int));
        let mut batch: Vec<ProviderEvent> = Vec::new();
        let parsed = parse_sse_event(&event, &mut batch);
        assert(events_view(batch@) =~= Seq::<ProviderEventModel>::empty() + events_view(batch@));
        if let Err(e) = parsed {
            assert(emitted + Seq::<ProviderEventModel>::empty() =~= emitted);
            return Err(e);
        }
        let ghost before_sink = events_view(sink@);
        let emitted_batch = emit_provider_batch(batch, saw_completed, sink);
        if let Err(e) = emitted_batch {
            return Err(e);
        }
        proof {
            let batch_out = events_view(sink@).skip(before_sink.len() as int);
            assert(events_view(sink@) =~= before_sink + batch_out);
            let next = drain_events(buffer@, *saw_completed);
            assert(emitted + (batch_out + next.2) =~= (emitted + batch_out) + next.2);
            emitted = emitted + batch_out;
            assert(events_view(sink@) =~= events_view(old(sink)@) + emitted);
        }
    }
}

/// One received piece of the stream: refused when the buffer would grow
/// past its limit, otherwise appended and drained.
pub open spec fn receive_piece(buffer: Seq<u8>, saw_completed: bool, piece: Seq<u8>) -> (
    Seq<u8>,
    bool,
    Seq<ProviderEventModel>,
    Result<(), PublicError>,
) {
    if buffer.len() + piece.len() > MAX_SSE_BUFFER {
        (buffer, saw_completed, seq![], Err(PublicError::OutputLimit))
    } else {
        drain_events(buffer + piece, saw_completed)
    }
}

/// Takes in one piece of the stream.
pub fn receive_sse_piece(
    buffer: &mut Vec<u8>,
    saw_completed: &mut bool,
    piece: &[u8],
    sink: &mut Vec<ProviderEvent>,
) -> (r: Result<(), PublicError>)
    ensures
        ({
            let (rest, saw_after, emitted, result) = receive_piece(
                old(buffer)@,
                *old(saw_completed),
                piece@,
            );
            &&& final(buffer)@ == rest
            &&& *final(saw_completed) == saw_after
            &&& events_view(final(sink)@) == events_view(old(sink)@) + emitted
            &&& r == result
        }),
{
    if piece.len() > MAX_SSE_BUFFER || buffer.len() > MAX_SSE_BUFFER - piece.len() {
        assert(events_view(sink@) + Seq::<ProviderEventModel>::empty() =~= events_view(sink@));
        return Err(PublicError::OutputLimit);
    }
    let mut i: usize = 0;
    let ghost start = buffer@;
    while i < piece.len()
        invariant
            i <= piece@.len(),
            buffer@ == start + piece@.take(i as int),
        decreases piece@.len() - i,
    {
        buffer.push(piece[i]);
        i = i + 1;
        assert(buffer@ =~= start + piece@.take(i as int));
    }
    assert(piece@.take(piece@.len() as int) =~= piece@);
    emit_complete_sse_events(buffer, saw_completed, sink)
}

/// The end of the stream: a leftover event without its blank line still
/// counts, and the stream succeeds only once the terminal has been seen.
pub open spec fn finish_stream(buffer: Seq<u8>, saw_completed: bool) -> (
    bool,
    Seq<ProviderEventModel>,
    Result<(), PublicError>,
) {
    let last = if buffer.len() > 0 {
        match parse_sse_event_spec(buffer) {
            Err(e) => (saw_completed, Seq::<ProviderEventModel>::empty(), Err(e)),
            Ok(batch) => {
                let (emitted, saw_after, result) = emit_batch(saw_completed, batch);
                (saw_after, emitted, result)
            },
        }
    } else {
        (saw_completed, Seq::<ProviderEventModel>::empty(), Ok(()))
    };
    if last.2 is Err {
        last
    } else if last.0 {
        (last.0, last.1, Ok(()))
    } else {
        (last.0, last.1, Err(PublicError::ProviderUnavailable))
    }
}

/// Ends the stream once no more bytes arrive.
pub fn finish_sse_stream(
    buffer: &[u8],
    saw_completed: &mut bool,
    sink: &mut Vec<ProviderEvent>,
) -> (r: Result<(), PublicError>)
    ensures
        ({
            let (saw_after, emitted, result) = finish_stream(buffer@, *old(saw_completed));
            &&& *final(saw_completed) == saw_after
            &&& events_view(final(sink)@) == events_view(old(sink)@) + emitted
            &&& r == result
        }),
{
    assert(events_view(sink@) + Seq::<ProviderEventModel>::empty() =~= events_view(sink@));
    if buffer.len() > 0 {
        let mut batch: Vec<ProviderEvent> = Vec::new();
        let parsed = parse_sse_event(buffer, &mut batch);
        assert(events_view(batch@) =~= Seq::<ProviderEventModel>::empty() + events_view(batch@));
        if let Err(e) = parsed {
            return Err(e);
        }
        let emitted = emit_provider_batch(batch, saw_completed, sink);
        if let Err(e) = emitted {
            return Err(e);
        }
    }
    if *saw_completed {
        Ok(())
    } else {
        Err(PublicError::ProviderUnavailable)
    }
}

/// The size of the pieces that the stream is taken in by.
pub const SSE_PIECE_LEN: usize = 4096;

/// A whole response body taken in piece by piece: gives the events handed
/// on, whether the terminal was seen, and the result. The stream stops with
/// success as soon as the terminal has been handed on.
pub open spec fn sse_stream(buffer: Seq<u8>, saw_completed: bool, bytes: Seq<u8>) -> (
    Seq<ProviderEventModel>,
    bool,
    Result<(), PublicError>,
)
    decreases bytes.len(),
{
    if bytes.len() == 0 {
        let (saw_after, emitted, result) = finish_stream(buffer, saw_completed);
        (emitted, saw_after, result)
    } else {
        let n = if bytes.len() < SSE_PIECE_LEN {
            bytes.len() as int
        } else {
            SSE_PIECE_LEN as int
        };
        let (rest, saw_after, emitted, result) = receive_piece(
            buffer,
            saw_completed,
            bytes.take(n),
        );
        if result is Err {
            (emitted, saw_after, result)
        } else if saw_after {
            (emitted, saw_after, Ok(()))
        } else {
            let next = sse_stream(rest, saw_after, bytes.skip(n));
            (emitted + next.0, next.1, next.2)
        }
    }
}

/// Reads a complete response body as an event stream, handing its events
/// on to `sink`; a cancelled request reads nothing.
pub fn parse_sse_buffer(bytes: &[u8], cancelled: bool, sink: &mut Vec<ProviderEvent>) -> (r:
    Result<Vec<ProviderEvent>, PublicError>)
    ensures
        cancelled ==> r == Err::<Vec<ProviderEvent>, PublicError>(PublicError::Cancelled)
            && final(sink)@ == old(sink)@,
        !cancelled ==> ({
            let (emitted, _, result) = sse_stream(Seq::empty(), false, bytes@);
            &&& events_view(final(sink)@) == events_view(old(sink)@) + emitted
            &&& match r {
                Ok(v) => result is Ok && v@.len() == 0,
                Err(e) => result == Err::<(), PublicError>(e),
            }
        }),
{
    if cancelled {
        return Err(PublicError::Cancelled);
    }
    let mut buffer: Vec<u8> = Vec::new();
    let mut saw_completed = false;
    let mut offset: usize = 0;
    let ghost total = sse_stream(Seq::empty(), false, bytes@);
    let ghost mut emitted: Seq<ProviderEventModel> = seq![];
    assert(bytes@.skip(0) =~= bytes@);
    assert(events_view(sink@) + emitted =~= events_view(sink@));
    while offset < bytes.len()
        invariant
            !cancelled,
            offset <= bytes@.len(),
            !saw_completed,
            total == sse_stream(Seq::empty(), false, bytes@),
            events_view(sink@) == events_view(old(sink)@) + emitted,
            ({
                let next = sse_stream(buffer@, saw_completed, bytes@.skip(offset as int));
                total == (emitted + next.0, next.1, next.2)
            }),
        decreases bytes@.len() - offset,
    {
        let remaining = bytes.len() - offset;
        let n = if remaining < SSE_PIECE_LEN {
            remaining
        } else {
            SSE_PIECE_LEN
        };
        let piece = &bytes[offset..offset + n];
        let ghost rest_bytes = bytes@.skip(offset as int);
        assert(piece@ =~= rest_bytes.take(n as int));
        let ghost before_sink = events_view(sink@);
        let received = receive_sse_piece(&mut buffer, &mut saw_completed, piece, sink);
        let ghost piece_out = events_view(sink@).skip(before_sink.len() as int);
        assert(events_view(sink@) =~= before_sink + piece_out);
        if let Err(e) = received {
            return Err(e);
        }
        if saw_completed {
            return Ok(Vec::new());
        }
        assert(rest_bytes.skip(n as int) =~= bytes@.skip(offset + n));
        proof {
            let next = sse_stream(buffer@, saw_completed, bytes@.skip(offset + n));
            assert(emitted + (piece_out + next.0) =~= (emitted + piece_out) + next.0);
            emitted = emitted + piece_out;
        }
        offset = offset + n;
    }
    assert(bytes@.skip(offset as int) =~= Seq::<u8>::empty());
    let ghost before_sink = events_view(sink@);
    let finished = finish_sse_stream(buffer.as_slice(), &mut saw_completed, sink);
    proof {
        let finish_out = events_view(sink@).skip(before_sink.len() as int);
        assert(events_view(sink@) =~= before_sink + finish_out);
        assert(events_view(sink@) =~= events_view(old(sink)@) + (emitted + finish_out));
    }
    match finished {
        Ok(()) => Ok(Vec::new()),
        Err(e) => Err(e),
    }
}

proof fn lemma_drain_keeps_stream_consistent(
    events: Seq<ProviderEventModel>,
    buffer: Seq<u8>,
    saw_completed: bool,
)
    requires
        stream_consistent(events, saw_completed),
    ensures
        ({
            let (_, saw_after, emitted, _) = drain_events(buffer, saw_completed);
            stream_consistent(events + emitted, saw_after)
        }),
    decreases buffer.len(),
{
    assert(events + Seq::<ProviderEventModel>::empty() =~= events);
    if !saw_completed {
        if let Some(b) = event_boundary(buffer) {
            let after = buffer.skip(b);
            let rest = after.skip(delimiter_len(after) as int);
            if let Ok(batch) = parse_sse_event_spec(buffer.take(b)) {
                lemma_emit_batch_keeps_stream_consistent(events, saw_completed, batch);
                let (emitted, saw_after, result) = emit_batch(saw_completed, batch);
                if result is Ok {
                    lemma_boundary_has_delimiter(buffer);
                    lemma_drain_keeps_stream_consistent(events + emitted, rest, saw_after);
                    let next = drain_events(rest, saw_after);
                    assert(events + emitted + next.2 =~= events + (emitted + next.2));
                }
            }
        }
    }
}

proof fn lemma_stream_keeps_consistency(
    events: Seq<ProviderEventModel>,
    buffer: Seq<u8>,
    saw_completed: bool,
    bytes: Seq<u8>,
)
    requires
        stream_consistent(events, saw_completed),
    ensures
        ({
            let (emitted, saw_after, result) = sse_stream(buffer, saw_completed, bytes);
            &&& stream_consistent(events + emitted, saw_after)
            &&& result is Ok ==> saw_after
        }),
    decreases bytes.len(),
{
    if bytes.len() == 0 {
        assert(events + Seq::<ProviderEventModel>::empty() =~= events);
        if buffer.len() > 0 {
            if let Ok(batch) = parse_sse_event_spec(buffer) {
                lemma_emit_batch_keeps_stream_consistent(events, saw_completed, batch);
            }
        }
    } else {
        let n = if bytes.len() < SSE_PIECE_LEN {
            bytes.len() as int
        } else {
            SSE_PIECE_LEN as int
        };
        let piece = bytes.take(n);
        assert(events + Seq::<ProviderEventModel>::empty() =~= events);
        if buffer.len() + piece.len() <= MAX_SSE_BUFFER {
            lemma_drain_keeps_stream_consistent(events, buffer + piece, saw_completed);
        }
        let (rest, saw_after, emitted, result) = receive_piece(buffer, saw_completed, piece);
        if result is Ok && !saw_after {
            lemma_stream_keeps_consistency(events + emitted, rest, saw_after, bytes.skip(n));
            let next = sse_stream(rest, saw_after, bytes.skip(n));
            assert(events + emitted + next.0 =~= events + (emitted + next.0));
        }
    }
}

/// Law: a response body read to success hands on exactly one terminal
/// event, and it is the last event handed on.
pub proof fn lemma_successful_stream_ends_with_single_terminal(bytes: Seq<u8>)
    ensures
        ({
            let (emitted, _, result) = sse_stream(Seq::empty(), false, bytes);
            result is Ok ==> {
                &&& emitted.len() > 0
                &&& is_completed(emitted.last())
                &&& forall|i: int| 0 <= i < emitted.len() - 1 ==> !is_completed(#[trigger] emitted[i])
            }
        }),
{
    let none = Seq::<ProviderEventModel>::empty();
    lemma_stream_keeps_consistency(none, Seq::empty(), false, bytes);
    let (emitted, _, _) = sse_stream(Seq::empty(), false, bytes);
    assert(none + emitted =~= emitted);
}

} // verus!
