//! Translation of an event stream: Anthropic server-sent events become OpenAI
//! chunks as they arrive.

use crate::clock::unix_seconds;
use crate::json::{copy_or_null, parse, text_or_blank, Json, Tree};
use crate::text::{
    after_prefix, chars_of, concat3, is_blank, is_empty, is_some_text, lines_of, position, slice_of,
};
use crate::translate::{
    anthropic_usage_to_openai, make_text_or_null, map_stop_reason_to_finish_reason,
};
use std::collections::HashMap;
use vstd::prelude::*;

verus! {

broadcast use vstd::std_specs::hash::group_hash_axioms;

// ---------------------------------------------------------------------------
// Frames
// ---------------------------------------------------------------------------

/// The earlier of two places, the first of two that begin together.
pub open spec fn earlier(a: Option<(int, int)>, b: Option<(int, int)>) -> Option<(int, int)> {
    match (a, b) {
        (Some(x), Some(y)) => if y.0 < x.0 {
            b
        } else {
            a
        },
        (None, _) => b,
        (_, None) => a,
    }
}

/// Where the text `mark` first stands: its beginning and its end.
pub open spec fn place(buf: Seq<char>, mark: Seq<char>) -> Option<(int, int)> {
    match crate::text::find(buf, mark) {
        Some(i) => Some((i, i + mark.len())),
        None => None,
    }
}

/// The first blank line in any of the three line-ending styles: where it
/// begins and where it ends.
pub open spec fn boundary(buf: Seq<char>) -> Option<(int, int)> {
    earlier(earlier(place(buf, "\r\n\r\n"@), place(buf, "\n\n"@)), place(buf, "\r\r"@))
}

/// The payload that a line of a frame carries.
pub open spec fn line_event(line: Seq<char>) -> Option<Tree> {
    match crate::text::strip_prefix(line, "data:"@) {
        None => None,
        Some(rest) => {
            let data = match crate::text::strip_prefix(rest, " "@) {
                Some(data) => data,
                None => rest,
            };
            if data.len() == 0 {
                None
            } else {
                crate::json::parsed(data)
            }
        },
    }
}

/// The payloads that the lines of a frame carry.
pub open spec fn line_events(lines: Seq<Seq<char>>) -> Seq<Tree>
    decreases lines.len(),
{
    if lines.len() == 0 {
        Seq::empty()
    } else {
        match line_event(lines.last()) {
            Some(event) => line_events(lines.drop_last()).push(event),
            None => line_events(lines.drop_last()),
        }
    }
}

/// The payloads that a frame carries.
pub open spec fn frame_events(raw: Seq<char>) -> Seq<Tree> {
    line_events(crate::text::lines(raw))
}

/// The first blank line: where it begins and where it ends.
pub fn next_frame_boundary(buf: &Vec<char>) -> (r: Option<(usize, usize)>)
    ensures
        match r {
            Some(p) => boundary(buf@) == Some((p.0 as int, p.1 as int)) && p.0 < p.1 <= buf@.len(),
            None => boundary(buf@) is None,
        },
{
    proof {
        reveal_strlit("\r\n\r\n");
        reveal_strlit("\n\n");
        reveal_strlit("\r\r");
        assert("\r\n\r\n"@.len() == 4 && "\n\n"@.len() == 2 && "\r\r"@.len() == 2);
    }
    let n: usize = buf.len();
    let mut best: Option<(usize, usize)> = match position(buf, "\r\n\r\n") {
        Some(i) => Some((i, i + 4)),
        None => None,
    };
    if let Some(i) = position(buf, "\n\n") {
        best = match best {
            Some(p) => if i < p.0 {
                Some((i, i + 2))
            } else {
                Some(p)
            },
            None => Some((i, i + 2)),
        };
    }
    if let Some(i) = position(buf, "\r\r") {
        best = match best {
            Some(p) => if i < p.0 {
                Some((i, i + 2))
            } else {
                Some(p)
            },
            None => Some((i, i + 2)),
        };
    }
    best
}

/// The payload of a line of a frame.
pub struct ParsedSse {
    pub data: Json,
}

/// The documents of the payloads.
pub open spec fn payloads(parsed: Seq<ParsedSse>) -> Seq<Tree> {
    parsed.map_values(|p: ParsedSse| p.data@)
}

/// Whether a carriage return behind a line makes no difference to what it
/// carries, for every line of a frame.
pub open spec fn steady(raw: Seq<char>) -> bool {
    forall|i: int|
        0 <= i < crate::text::lines(raw).len() ==> line_event(
            (#[trigger] crate::text::lines(raw)[i]).push('\r'),
        ) == line_event(crate::text::lines(raw)[i])
}

/// A carriage return behind a line makes no difference, where it makes none
/// behind the text that the line carries.
proof fn lemma_steady_line(line: Seq<char>)
    requires
        ({
            let rest = crate::text::strip_prefix(line, "data:"@);
            rest is Some ==> {
                let data = match crate::text::strip_prefix(rest->0, " "@) {
                    Some(data) => data,
                    None => rest->0,
                };
                &&& crate::json::parsed(data.push('\r')) == crate::json::parsed(data)
                &&& data.len() == 0 ==> crate::json::parsed(data) is None
            }
        }),
    ensures
        line_event(line.push('\r')) == line_event(line),
{
    let longer = line.push('\r');
    reveal_strlit("data:");
    reveal_strlit(" ");
    let mark = "data:"@;
    assert(mark.len() == 5 && mark[4] == ':' && " "@.len() == 1 && " "@[0] == ' ');
    if crate::text::strip_prefix(line, mark) is Some {
        assert(mark.is_prefix_of(longer)) by {
            assert(longer.take(5) =~= line.take(5));
        }
        let rest = line.skip(5);
        assert(longer.skip(5) =~= rest.push('\r'));
        if " "@.is_prefix_of(rest) {
            assert(rest[0] == rest.take(1)[0]);
            assert(rest.push('\r').take(1) =~= rest.take(1));
            assert(" "@.is_prefix_of(rest.push('\r')));
            assert(rest.push('\r').skip(1) =~= rest.skip(1).push('\r'));
        } else {
            if " "@.is_prefix_of(rest.push('\r')) {
                assert(rest.push('\r').take(1)[0] == ' ');
                assert(rest[0] == ' ');
                assert(rest.take(1) =~= " "@);
            }
        }
    } else {
        if mark.is_prefix_of(longer) {
            assert(longer.take(5)[4] == ':');
            assert(longer.take(5) =~= line.take(5));
        }
    }
}

/// Reads the payloads of a frame. The event type is not needed: the payload
/// repeats it.
pub fn parse_sse_chunk(raw: &str) -> (r: Vec<ParsedSse>)
    ensures
        payloads(r@) == frame_events(raw@),
        steady(raw@),
{
    let lines: Vec<String> = lines_of(raw);
    let ghost all = crate::text::views(lines@);
    let mut out: Vec<ParsedSse> = Vec::new();
    let mut i: usize = 0;
    assert(payloads(out@) =~= line_events(all.take(0)));
    while i < lines.len()
        invariant
            i <= lines@.len(),
            all == crate::text::views(lines@),
            payloads(out@) == line_events(all.take(i as int)),
            forall|k: int|
                0 <= k < i ==> line_event((#[trigger] all[k]).push('\r')) == line_event(all[k]),
        decreases lines@.len() - i,
    {
        let ghost before = out@;
        assert(all.take(i + 1).drop_last() == all.take(i as int));
        assert(all.take(i + 1).last() == lines@[i as int]@);
        if let Some(rest) = after_prefix(lines[i].as_str(), "data:") {
            let data = match after_prefix(rest.as_str(), " ") {
                Some(data) => data,
                None => rest,
            };
            if let Some(v) = parse(data.as_str()) {
                out.push(ParsedSse { data: v });
                assert(payloads(out@) =~= payloads(before).push(v@));
            }
        }
        proof {
            lemma_steady_line(all[i as int]);
        }
        i += 1;
    }
    assert(all.take(lines@.len() as int) == all);
    out
}

// ---------------------------------------------------------------------------
// Usage
// ---------------------------------------------------------------------------

/// The token counts of a stream so far.
#[derive(Clone, Copy)]
pub struct AnthropicUsage {
    pub input_tokens: u64,
    pub output_tokens: u64,
    pub cache_read: Option<u64>,
    pub cache_creation: Option<u64>,
}

/// No tokens counted yet.
pub open spec fn no_usage() -> AnthropicUsage {
    AnthropicUsage { input_tokens: 0, output_tokens: 0, cache_read: None, cache_creation: None }
}

/// The first number, or the second where there is none.
pub open spec fn newest(patch: Option<u64>, current: u64) -> u64 {
    match patch {
        Some(n) => n,
        None => current,
    }
}

/// The first number, or the second where there is none.
pub open spec fn newest_option(patch: Option<u64>, current: Option<u64>) -> Option<u64> {
    match patch {
        Some(n) => Some(n),
        None => current,
    }
}

/// The counts after a report: what it names replaces what was counted.
pub open spec fn merged(usage: AnthropicUsage, report: Option<Tree>) -> AnthropicUsage {
    match report {
        Some(patch) => AnthropicUsage {
            input_tokens: newest(patch.count_at("input_tokens"@), usage.input_tokens),
            output_tokens: newest(patch.count_at("output_tokens"@), usage.output_tokens),
            cache_read: newest_option(
                patch.count_at("cache_read_input_tokens"@),
                usage.cache_read,
            ),
            cache_creation: newest_option(
                patch.count_at("cache_creation_input_tokens"@),
                usage.cache_creation,
            ),
        },
        None => usage,
    }
}

/// A number as a document.
pub open spec fn count_option_tree(n: Option<u64>) -> Option<Tree> {
    match n {
        Some(n) => Some(crate::json::count_tree(n)),
        None => None,
    }
}

/// The counts as a usage report of the upstream's dialect.
pub open spec fn usage_report(usage: AnthropicUsage) -> Tree {
    crate::json::empty_tree().with(
        "input_tokens"@,
        crate::json::count_tree(usage.input_tokens),
    ).with("output_tokens"@, crate::json::count_tree(usage.output_tokens)).with_some(
        "cache_read_input_tokens"@,
        count_option_tree(usage.cache_read),
    ).with_some("cache_creation_input_tokens"@, count_option_tree(usage.cache_creation))
}

impl AnthropicUsage {
    /// No tokens counted yet.
    fn none() -> (r: Self)
        ensures
            r == no_usage(),
    {
        AnthropicUsage { input_tokens: 0, output_tokens: 0, cache_read: None, cache_creation: None }
    }

    /// Takes a report in. The upstream reports totals, so what a report names
    /// replaces what was counted.
    fn merge(&mut self, patch: Option<&Json>)
        ensures
            *final(self) == merged(*old(self), crate::json::seen(patch)),
    {
        if let Some(patch) = patch {
            if let Some(v) = patch.u64_at("input_tokens") {
                self.input_tokens = v;
            }
            if let Some(v) = patch.u64_at("output_tokens") {
                self.output_tokens = v;
            }
            if let Some(v) = patch.u64_at("cache_read_input_tokens") {
                self.cache_read = Some(v);
            }
            if let Some(v) = patch.u64_at("cache_creation_input_tokens") {
                self.cache_creation = Some(v);
            }
        }
    }

    /// The counts as a usage report of the upstream's dialect.
    fn to_value(&self) -> (r: Json)
        ensures
            r@ == usage_report(*self),
    {
        let cache_read: Option<Json> = match self.cache_read {
            Some(n) => Some(Json::count(n)),
            None => None,
        };
        let cache_creation: Option<Json> = match self.cache_creation {
            Some(n) => Some(Json::count(n)),
            None => None,
        };
        Json::object().with("input_tokens", Json::count(self.input_tokens)).with(
            "output_tokens",
            Json::count(self.output_tokens),
        ).with_some("cache_read_input_tokens", cache_read).with_some(
            "cache_creation_input_tokens",
            cache_creation,
        )
    }
}

// ---------------------------------------------------------------------------
// The state machine
// ---------------------------------------------------------------------------

/// What a translation in progress knows of its stream.
#[verifier::ext_equal]
pub ghost struct Stream {
    pub message_id: Seq<char>,
    pub model: Seq<char>,
    pub role_sent: bool,
    pub usage: AnthropicUsage,
    pub tool_calls: u64,
    pub slots: Map<u64, u64>,
    pub finish_sent: bool,
}

/// What one event puts out: a delta, and at the end a finish reason with the
/// usage.
pub ghost struct Emission {
    pub delta: Tree,
    pub finish: Option<Seq<char>>,
    pub usage: Option<Tree>,
}

/// A stream of which nothing has arrived.
pub open spec fn new_stream(fallback_model: Seq<char>) -> Stream {
    Stream {
        message_id: Seq::empty(),
        model: fallback_model,
        role_sent: false,
        usage: no_usage(),
        tool_calls: 0,
        slots: Map::empty(),
        finish_sent: false,
    }
}

/// A delta within the message.
pub open spec fn delta_only(delta: Tree) -> Option<Emission> {
    Some(Emission { delta, finish: None, usage: None })
}

/// The end of the message.
pub open spec fn ending(s: Stream, finish: Seq<char>) -> Option<Emission> {
    Some(
        Emission {
            delta: crate::json::empty_tree(),
            finish: Some(finish),
            usage: Some(crate::translate::usage_tree(Some(usage_report(s.usage)))),
        },
    )
}

/// The delta that opens the message.
pub open spec fn opening_delta() -> Tree {
    crate::json::empty_tree().with("role"@, Tree::Text("assistant"@))
}

/// The event `message_start`: takes id, model and usage, and opens the message
/// once.
pub open spec fn on_message_start(s: Stream, data: Tree) -> (Stream, Option<Emission>) {
    let msg = crate::json::or_null(data.field("message"@));
    let named = match msg.text_at("model"@) {
        Some(m) => if m.len() > 0 {
            m
        } else {
            s.model
        },
        None => s.model,
    };
    let t = Stream {
        message_id: match msg.text_at("id"@) {
            Some(id) => id,
            None => "msg_stream"@,
        },
        model: named,
        role_sent: true,
        usage: merged(s.usage, msg.field("usage"@)),
        ..s
    };
    (
        t,
        if s.role_sent {
            None
        } else {
            delta_only(opening_delta())
        },
    )
}

/// The delta that begins a tool call.
pub open spec fn call_delta(index: u64, block: Tree) -> Tree {
    crate::json::empty_tree().with(
        "tool_calls"@,
        Tree::Array(
            seq![
                crate::json::empty_tree().with("index"@, crate::json::count_tree(index)).with(
                    "id"@,
                    crate::json::or_null(block.field("id"@)),
                ).with("type"@, Tree::Text("function"@)).with(
                    "function"@,
                    crate::json::empty_tree().with(
                        "name"@,
                        crate::json::or_null(block.field("name"@)),
                    ).with("arguments"@, Tree::Text(Seq::empty())),
                ),
            ],
        ),
    )
}

/// The event `content_block_start`: a tool call gets the next index, under
/// which its arguments will follow.
pub open spec fn on_block_start(s: Stream, data: Tree) -> (Stream, Option<Emission>) {
    let block = crate::json::or_null(data.field("content_block"@));
    let at = crate::json::or_zero(data.count_at("index"@));
    if crate::translate::is_type(block, "tool_use"@) {
        (
            Stream {
                tool_calls: crate::translate::wrapped_sum(s.tool_calls, 1),
                slots: s.slots.insert(at, s.tool_calls),
                ..s
            },
            delta_only(call_delta(s.tool_calls, block)),
        )
    } else {
        (s, None)
    }
}

/// The delta that carries a piece of a tool call's arguments.
pub open spec fn arguments_delta(index: u64, piece: Seq<char>) -> Tree {
    crate::json::empty_tree().with(
        "tool_calls"@,
        Tree::Array(
            seq![
                crate::json::empty_tree().with("index"@, crate::json::count_tree(index)).with(
                    "function"@,
                    crate::json::empty_tree().with("arguments"@, Tree::Text(piece)),
                ),
            ],
        ),
    )
}

/// The event `content_block_delta`.
pub open spec fn on_block_delta(s: Stream, data: Tree) -> Option<Emission> {
    let delta = crate::json::or_null(data.field("delta"@));
    let at = crate::json::or_zero(data.count_at("index"@));
    if crate::translate::is_type(delta, "text_delta"@) {
        delta_only(
            crate::json::empty_tree().with(
                "content"@,
                crate::json::or_null(delta.field("text"@)),
            ),
        )
    } else if crate::translate::is_type(delta, "thinking_delta"@) {
        delta_only(
            crate::json::empty_tree().with(
                "reasoning_content"@,
                crate::json::or_null(delta.field("thinking"@)),
            ),
        )
    } else if crate::translate::is_type(delta, "input_json_delta"@) && s.slots.contains_key(at) {
        delta_only(
            arguments_delta(
                s.slots[at],
                crate::json::or_blank(delta.text_at("partial_json"@)),
            ),
        )
    } else {
        None
    }
}

/// The event `message_delta`: takes the usage and, with a stop reason, ends the
/// message once.
pub open spec fn on_message_delta(s: Stream, data: Tree) -> (Stream, Option<Emission>) {
    let t = Stream { usage: merged(s.usage, data.field("usage"@)), ..s };
    match data.text_in("delta"@, "stop_reason"@) {
        Some(reason) => if s.finish_sent {
            (t, None)
        } else {
            let finish = match crate::translate::finish_reason(Some(reason)) {
                Some(finish) => finish,
                None => "stop"@,
            };
            let u = Stream { finish_sent: true, ..t };
            (u, ending(u, finish))
        },
        None => (t, None),
    }
}

/// The event `message_stop`: ends the message unless it has ended.
pub open spec fn on_message_stop(s: Stream) -> (Stream, Option<Emission>) {
    if s.finish_sent {
        (s, None)
    } else {
        let t = Stream { finish_sent: true, ..s };
        (t, ending(t, "stop"@))
    }
}

/// What an event does to the stream and puts out.
pub open spec fn step(s: Stream, data: Tree) -> (Stream, Option<Emission>) {
    if crate::translate::is_type(data, "message_start"@) {
        on_message_start(s, data)
    } else if crate::translate::is_type(data, "content_block_start"@) {
        on_block_start(s, data)
    } else if crate::translate::is_type(data, "content_block_delta"@) {
        (s, on_block_delta(s, data))
    } else if crate::translate::is_type(data, "message_delta"@) {
        on_message_delta(s, data)
    } else if crate::translate::is_type(data, "message_stop"@) {
        on_message_stop(s)
    } else {
        (s, None)
    }
}

/// A chunk of the client's dialect.
pub open spec fn chunk_tree(s: Stream, e: Emission, created: u64) -> Tree {
    let choice = crate::json::empty_tree().with("index"@, crate::json::count_tree(0)).with(
        "delta"@,
        e.delta,
    ).with("finish_reason"@, crate::translate::text_or_null(e.finish));
    crate::json::empty_tree().with(
        "id"@,
        Tree::Text(
            if s.message_id.len() == 0 {
                "chatcmpl-stream"@
            } else {
                s.message_id
            },
        ),
    ).with("object"@, Tree::Text("chat.completion.chunk"@)).with(
        "created"@,
        crate::json::count_tree(created),
    ).with("model"@, Tree::Text(s.model)).with("choices"@, Tree::Array(seq![choice])).with_some(
        "usage"@,
        e.usage,
    )
}

/// A chunk as it goes over the wire.
pub open spec fn chunk_text(s: Stream, e: Emission, created: u64) -> Seq<char> {
    "data: "@ + crate::json::rendered(chunk_tree(s, e, created)) + "\n\n"@
}

/// The chunk of an event that puts something out.
pub open spec fn emitted(after: (Stream, Option<Emission>), created: u64) -> Option<Seq<char>> {
    match after.1 {
        Some(e) => Some(chunk_text(after.0, e, created)),
        None => None,
    }
}

/// The chunks that a sequence of events gives, and the stream after it.
pub open spec fn translated(s: Stream, events: Seq<Tree>, created: u64) -> (Stream, Seq<Seq<char>>)
    decreases events.len(),
{
    if events.len() == 0 {
        (s, Seq::empty())
    } else {
        let before = translated(s, events.drop_last(), created);
        let after = step(before.0, events.last());
        (
            after.0,
            match after.1 {
                Some(e) => before.1.push(chunk_text(after.0, e, created)),
                None => before.1,
            },
        )
    }
}

/// The chunks that the complete frames in a buffer give, the stream after them
/// and what is left in the buffer.
pub open spec fn drained(s: Stream, buf: Seq<char>, created: u64) -> (
    Stream,
    Seq<char>,
    Seq<Seq<char>>,
)
    decreases buf.len(),
{
    match boundary(buf) {
        Some(p) => if 0 <= p.0 < p.1 <= buf.len() {
            let first = translated(s, frame_events(buf.take(p.0)), created);
            let rest = drained(first.0, buf.skip(p.1), created);
            (rest.0, rest.1, first.1 + rest.2)
        } else {
            (s, buf, Seq::empty())
        },
        None => (s, buf, Seq::empty()),
    }
}

/// The mark at the end of every stream.
pub open spec fn done_text() -> Seq<char> {
    "data: [DONE]\n\n"@
}

/// The chunks that the end of the input gives, the end mark among them, and the
/// stream after it.
pub open spec fn finished(s: Stream, buf: Seq<char>, created: u64) -> (Stream, Seq<Seq<char>>) {
    if crate::text::trim(buf).len() > 0 {
        let last = translated(s, frame_events(buf), created);
        (last.0, last.1.push(done_text()))
    } else {
        (s, seq![done_text()])
    }
}

/// The chunks that a blank line behind the input and the end mark give, and the
/// stream after them.
pub open spec fn closed_by_blank_line(s: Stream, buf: Seq<char>, created: u64) -> (
    Stream,
    Seq<Seq<char>>,
) {
    let d = drained(s, buf + "\n\n"@, created);
    (d.0, d.2.push(done_text()))
}

/// A translation in progress.
pub struct SseTranslator {
    fallback_model: String,
    message_id: String,
    model: String,
    role_sent: bool,
    usage: AnthropicUsage,
    tool_call_index: u64,
    block_index_to_tool_call_index: HashMap<u64, u64>,
    finish_reason_sent: bool,
    buffer: String,
}

impl SseTranslator {
    /// What the translation knows of its stream.
    pub closed spec fn stream(&self) -> Stream {
        Stream {
            message_id: self.message_id@,
            model: self.model@,
            role_sent: self.role_sent,
            usage: self.usage,
            tool_calls: self.tool_call_index,
            slots: self.block_index_to_tool_call_index@,
            finish_sent: self.finish_reason_sent,
        }
    }

    /// The text that has arrived and belongs to no complete frame.
    pub closed spec fn pending(&self) -> Seq<char> {
        self.buffer@
    }

    /// The model to name until the stream names one.
    pub closed spec fn fallback(&self) -> Seq<char> {
        self.fallback_model@
    }

    /// A translation of a stream of which nothing has arrived.
    pub fn new(fallback_model: &str) -> (r: Self)
        ensures
            r.stream() == new_stream(fallback_model@),
            r.pending() == Seq::<char>::empty(),
            r.fallback() == fallback_model@,
    {
        let r = SseTranslator {
            fallback_model: fallback_model.to_owned(),
            message_id: String::new(),
            model: fallback_model.to_owned(),
            role_sent: false,
            usage: AnthropicUsage::none(),
            tool_call_index: 0,
            block_index_to_tool_call_index: HashMap::new(),
            finish_reason_sent: false,
            buffer: String::new(),
        };
        assert(r.message_id@ =~= Seq::<char>::empty());
        assert(r.buffer@ =~= Seq::<char>::empty());
        r
    }

    /// A chunk as it goes over the wire.
    fn make_chunk(
        &self,
        delta: Json,
        finish: Option<&str>,
        usage: Option<Json>,
        created: u64,
    ) -> (r: String)
        ensures
            r@ == chunk_text(
                self.stream(),
                (Emission {
                    delta: delta@,
                    finish: crate::text::seen_str(finish),
                    usage: crate::json::seen_own(usage),
                }),
                created,
            ),
    {
        let id = if is_empty(self.message_id.as_str()) {
            Json::text("chatcmpl-stream")
        } else {
            Json::text(self.message_id.as_str())
        };
        let choice = Json::object().with("index", Json::count(0)).with("delta", delta).with(
            "finish_reason",
            make_text_or_null(finish),
        );
        let choices: Vec<Json> = vec![choice];
        assert(crate::json::trees(choices@) =~= seq![choice@]);
        let chunk = Json::object().with("id", id).with(
            "object",
            Json::text("chat.completion.chunk"),
        ).with("created", Json::count(created)).with(
            "model",
            Json::text(self.model.as_str()),
        ).with("choices", Json::array(choices)).with_some("usage", usage);
        concat3("data: ", chunk.render().as_str(), "\n\n")
    }

    /// The end of the message as it goes over the wire.
    fn make_ending(&self, finish: &str, created: u64) -> (r: String)
        ensures
            r@ == chunk_text(self.stream(), ending(self.stream(), finish@)->0, created),
    {
        let report = self.usage.to_value();
        let usage = anthropic_usage_to_openai(Some(&report));
        self.make_chunk(Json::object(), Some(finish), Some(usage), created)
    }

    /// Takes the event `message_start` in.
    fn start_message(&mut self, data: &Json, created: u64) -> (r: Option<String>)
        ensures
            final(self).stream() == on_message_start(old(self).stream(), data@).0,
            final(self).pending() == old(self).pending(),
            final(self).fallback() == old(self).fallback(),
            crate::text::seen_string(r) == emitted(
                on_message_start(old(self).stream(), data@),
                created,
            ),
    {
        let msg = copy_or_null(data.get("message"));
        self.message_id = match msg.str_at("id") {
            Some(id) => id.to_owned(),
            None => "msg_stream".to_owned(),
        };
        if let Some(m) = msg.str_at("model") {
            if !is_empty(m) {
                self.model = m.to_owned();
            }
        }
        self.usage.merge(msg.get("usage"));
        if !self.role_sent {
            self.role_sent = true;
            let delta = Json::object().with("role", Json::text("assistant"));
            return Some(self.make_chunk(delta, None, None, created));
        }
        None
    }

    /// Takes the event `content_block_start` in.
    fn start_block(&mut self, data: &Json, created: u64) -> (r: Option<String>)
        ensures
            final(self).stream() == on_block_start(old(self).stream(), data@).0,
            final(self).pending() == old(self).pending(),
            final(self).fallback() == old(self).fallback(),
            crate::text::seen_string(r) == emitted(
                on_block_start(old(self).stream(), data@),
                created,
            ),
    {
        let block = copy_or_null(data.get("content_block"));
        let at: u64 = match data.u64_at("index") {
            Some(n) => n,
            None => 0,
        };
        if !block.is_text_at("type", "tool_use") {
            return None;
        }
        let index: u64 = self.tool_call_index;
        self.tool_call_index = index.wrapping_add(1);
        self.block_index_to_tool_call_index.insert(at, index);
        let none = String::new();
        assert(none@ =~= Seq::<char>::empty());
        let call = Json::object().with("index", Json::count(index)).with(
            "id",
            copy_or_null(block.get("id")),
        ).with("type", Json::text("function")).with(
            "function",
            Json::object().with("name", copy_or_null(block.get("name"))).with(
                "arguments",
                Json::Text(none),
            ),
        );
        let calls: Vec<Json> = vec![call];
        assert(crate::json::trees(calls@) =~= seq![call@]);
        let delta = Json::object().with("tool_calls", Json::array(calls));
        Some(self.make_chunk(delta, None, None, created))
    }

    /// Takes the event `content_block_delta` in.
    fn continue_block(&self, data: &Json, created: u64) -> (r: Option<String>)
        ensures
            crate::text::seen_string(r) == emitted(
                (self.stream(), on_block_delta(self.stream(), data@)),
                created,
            ),
    {
        let delta = copy_or_null(data.get("delta"));
        let at: u64 = match data.u64_at("index") {
            Some(n) => n,
            None => 0,
        };
        let kind = delta.str_at("type");
        if is_some_text(kind, "text_delta") {
            let piece = Json::object().with("content", copy_or_null(delta.get("text")));
            return Some(self.make_chunk(piece, None, None, created));
        }
        if is_some_text(kind, "thinking_delta") {
            let piece = Json::object().with(
                "reasoning_content",
                copy_or_null(delta.get("thinking")),
            );
            return Some(self.make_chunk(piece, None, None, created));
        }
        if is_some_text(kind, "input_json_delta") {
            if let Some(index) = self.block_index_to_tool_call_index.get(&at) {
                let call = Json::object().with("index", Json::count(*index)).with(
                    "function",
                    Json::object().with(
                        "arguments",
                        Json::Text(text_or_blank(delta.str_at("partial_json"))),
                    ),
                );
                let calls: Vec<Json> = vec![call];
                assert(crate::json::trees(calls@) =~= seq![call@]);
                let piece = Json::object().with("tool_calls", Json::array(calls));
                return Some(self.make_chunk(piece, None, None, created));
            }
        }
        None
    }

    /// Takes an event in; gives the chunk that it leads to, which bears the given
    /// time.
    pub fn translate_event(&mut self, data: &Json, created: u64) -> (r: Option<String>)
        ensures
            final(self).stream() == step(old(self).stream(), data@).0,
            final(self).pending() == old(self).pending(),
            final(self).fallback() == old(self).fallback(),
            crate::text::seen_string(r) == emitted(step(old(self).stream(), data@), created),
    {
        let kind = data.str_at("type");
        if is_some_text(kind, "message_start") {
            self.start_message(data, created)
        } else if is_some_text(kind, "content_block_start") {
            self.start_block(data, created)
        } else if is_some_text(kind, "content_block_delta") {
            self.continue_block(data, created)
        } else if is_some_text(kind, "message_delta") {
            self.usage.merge(data.get("usage"));
            match data.str_in("delta", "stop_reason") {
                Some(reason) => {
                    if self.finish_reason_sent {
                        return None;
                    }
                    self.finish_reason_sent = true;
                    let finish: &str = match map_stop_reason_to_finish_reason(Some(reason)) {
                        Some(finish) => finish,
                        None => "stop",
                    };
                    Some(self.make_ending(finish, created))
                },
                None => None,
            }
        } else if is_some_text(kind, "message_stop") {
            if self.finish_reason_sent {
                return None;
            }
            self.finish_reason_sent = true;
            Some(self.make_ending("stop", created))
        } else {
            None
        }
    }

    /// Takes the events of a frame in, and adds the chunks that they give.
    fn translate_frame(&mut self, raw: &str, created: u64, out: &mut Vec<String>)
        ensures
            steady(raw@),
            final(self).stream() == translated(old(self).stream(), frame_events(raw@), created).0,
            final(self).pending() == old(self).pending(),
            final(self).fallback() == old(self).fallback(),
            crate::text::views(final(out)@) == crate::text::views(old(out)@) + translated(
                old(self).stream(),
                frame_events(raw@),
                created,
            ).1,
    {
        let parsed: Vec<ParsedSse> = parse_sse_chunk(raw);
        let ghost events = payloads(parsed@);
        let mut i: usize = 0;
        assert(crate::text::views(out@) =~= crate::text::views(old(out)@) + translated(
            self.stream(),
            events.take(0),
            created,
        ).1);
        while i < parsed.len()
            invariant
                i <= parsed@.len(),
                events == payloads(parsed@),
                self.stream() == translated(old(self).stream(), events.take(i as int), created).0,
                self.pending() == old(self).pending(),
                self.fallback() == old(self).fallback(),
                crate::text::views(out@) == crate::text::views(old(out)@) + translated(
                    old(self).stream(),
                    events.take(i as int),
                    created,
                ).1,
            decreases parsed@.len() - i,
        {
            let ghost before = out@;
            assert(events.take(i + 1).drop_last() == events.take(i as int));
            assert(events.take(i + 1).last() == parsed@[i as int].data@);
            if let Some(chunk) = self.translate_event(&parsed[i].data, created) {
                out.push(chunk);
                assert(crate::text::views(out@) =~= crate::text::views(before).push(chunk@));
                assert(crate::text::views(out@) =~= crate::text::views(old(out)@) + translated(
                    old(self).stream(),
                    events.take(i + 1),
                    created,
                ).1);
            }
            i += 1;
        }
        assert(events.take(parsed@.len() as int) == events);
    }

    /// Takes text of the upstream in; gives the chunks that became complete,
    /// which bear the given time.
    pub fn feed_at(&mut self, text: &str, created: u64) -> (r: Vec<String>)
        ensures
            (final(self).stream(), final(self).pending(), crate::text::views(r@)) == drained(
                old(self).stream(),
                old(self).pending() + text@,
                created,
            ),
            final(self).fallback() == old(self).fallback(),
    {
        self.buffer.append(text);
        let mut out: Vec<String> = Vec::new();
        let ghost whole = drained(self.stream(), self.pending(), created);
        assert(crate::text::views(out@) + whole.2 =~= whole.2);
        loop
            invariant
                self.fallback() == old(self).fallback(),
                whole == drained(old(self).stream(), old(self).pending() + text@, created),
                ({
                    let rest = drained(self.stream(), self.pending(), created);
                    whole == (rest.0, rest.1, crate::text::views(out@) + rest.2)
                }),
            decreases self.pending().len(),
        {
            let chars: Vec<char> = chars_of(self.buffer.as_str());
            match next_frame_boundary(&chars) {
                Some((start, end)) => {
                    let frame = slice_of(&chars, 0, start);
                    let ghost before = out@;
                    let ghost stream = self.stream();
                    let ghost pending = self.pending();
                    assert(chars@.subrange(0, start as int) =~= pending.take(start as int));
                    assert(chars@.subrange(end as int, chars@.len() as int) =~= pending.skip(
                        end as int,
                    ));
                    self.buffer = slice_of(&chars, end, chars.len());
                    self.translate_frame(frame.as_str(), created, &mut out);
                    proof {
                        let first = translated(
                            stream,
                            frame_events(pending.take(start as int)),
                            created,
                        );
                        let rest = drained(first.0, pending.skip(end as int), created);
                        assert(crate::text::views(before) + (first.1 + rest.2)
                            =~= crate::text::views(out@) + rest.2);
                    }
                },
                None => {
                    assert(crate::text::views(out@) + Seq::<Seq<char>>::empty()
                        =~= crate::text::views(out@));
                    return out;
                },
            }
        }
    }

    /// Takes the end of the input in; gives the chunks of a last frame without
    /// a blank line behind it, which bear the given time, and the end mark. A
    /// blank line and the end mark would have given the same.
    pub fn finish_at(&mut self, created: u64) -> (r: Vec<String>)
        ensures
            (final(self).stream(), crate::text::views(r@)) == finished(
                old(self).stream(),
                old(self).pending(),
                created,
            ),
            boundary(old(self).pending()) is None ==> (
            final(self).stream(),
            crate::text::views(r@),
            ) == closed_by_blank_line(old(self).stream(), old(self).pending(), created),
            final(self).pending() == Seq::<char>::empty(),
            final(self).fallback() == old(self).fallback(),
    {
        let mut out: Vec<String> = Vec::new();
        let rest = self.buffer.clone();
        self.buffer = String::new();
        assert(self.buffer@ =~= Seq::<char>::empty());
        assert(self.stream() == old(self).stream());
        if !is_blank(rest.as_str()) {
            self.translate_frame(rest.as_str(), created, &mut out);
            assert(crate::text::views(out@) =~= translated(
                old(self).stream(),
                frame_events(rest@),
                created,
            ).1);
        }
        proof {
            if boundary(old(self).pending()) is None {
                law_finishing_is_a_blank_line(old(self).stream(), old(self).pending(), created);
            }
        }
        let ghost before = out@;
        out.push("data: [DONE]\n\n".to_owned());
        assert(crate::text::views(out@) =~= crate::text::views(before).push(done_text()));
        out
    }

    /// Takes text of the upstream in; gives the chunks that became complete,
    /// which bear the current time.
    pub fn feed(&mut self, text: &str) -> (r: Vec<String>)
        ensures
            exists|created: u64|
                (final(self).stream(), final(self).pending(), crate::text::views(r@))
                    == #[trigger] drained(
                    old(self).stream(),
                    old(self).pending() + text@,
                    created,
                ),
            final(self).fallback() == old(self).fallback(),
    {
        let created: u64 = unix_seconds();
        self.feed_at(text, created)
    }

    /// Takes the end of the input in; gives the last chunks, which bear the
    /// current time, and the end mark.
    pub fn finish(&mut self) -> (r: Vec<String>)
        ensures
            exists|created: u64|
                (final(self).stream(), crate::text::views(r@)) == #[trigger] finished(
                    old(self).stream(),
                    old(self).pending(),
                    created,
                ) && (boundary(old(self).pending()) is None ==> (
                final(self).stream(),
                crate::text::views(r@),
                ) == closed_by_blank_line(old(self).stream(), old(self).pending(), created)),
            final(self).pending() == Seq::<char>::empty(),
            final(self).fallback() == old(self).fallback(),
    {
        let created: u64 = unix_seconds();
        self.finish_at(created)
    }
}

/// The model that a translation names until its stream names one.
pub fn fallback_model(t: &SseTranslator) -> (r: &str)
    ensures
        r@ == t.fallback(),
{
    t.fallback_model.as_str()
}

// ---------------------------------------------------------------------------
// Laws
// ---------------------------------------------------------------------------

proof fn lemma_find_extends(a: Seq<char>, b: Seq<char>, p: Seq<char>)
    ensures
        match crate::text::find(a, p) {
            Some(i) => crate::text::find(a + b, p) == Some(i),
            None => match crate::text::find(a + b, p) {
                Some(j) => j + p.len() > a.len(),
                None => true,
            },
        },
{
    crate::text::lemma_find_from(a, p, 0);
    crate::text::lemma_find_from(a + b, p, 0);
    assert forall|k: int| 0 <= k && k + p.len() <= a.len() implies crate::text::stands_at(a, p, k)
        == crate::text::stands_at(a + b, p, k) by {
        assert((a + b).subrange(k, k + p.len()) =~= a.subrange(k, k + p.len()));
    }
    match crate::text::find(a, p) {
        Some(i) => {
            assert(crate::text::stands_at(a + b, p, i));
            match crate::text::find(a + b, p) {
                Some(j) => {
                    if j < i {
                        assert(crate::text::stands_at(a, p, j));
                    }
                    if i < j {
                        assert(!crate::text::stands_at(a + b, p, i));
                    }
                },
                None => {},
            }
        },
        None => {
            match crate::text::find(a + b, p) {
                Some(j) => {
                    if j + p.len() <= a.len() {
                        assert(crate::text::stands_at(a, p, j));
                    }
                },
                None => {},
            }
        },
    }
}

/// Two marks that stand close to each other agree where they overlap.
proof fn lemma_marks_agree(s: Seq<char>, p: Seq<char>, i: int, q: Seq<char>, j: int, k: int)
    requires
        crate::text::stands_at(s, p, i),
        crate::text::stands_at(s, q, j),
        i <= k < i + p.len(),
        j <= k < j + q.len(),
    ensures
        p[k - i] == q[k - j],
{
    assert(s.subrange(i, i + p.len())[k - i] == s[k]);
    assert(s.subrange(j, j + q.len())[k - j] == s[k]);
}

proof fn lemma_boundary_extends(a: Seq<char>, b: Seq<char>)
    requires
        boundary(a) is Some,
    ensures
        boundary(a + b) == boundary(a),
        match boundary(a) {
            Some(p) => 0 <= p.0 < p.1 <= a.len(),
            None => false,
        },
{
    let long = "\r\n\r\n"@;
    let feed = "\n\n"@;
    let back = "\r\r"@;
    reveal_strlit("\r\n\r\n");
    reveal_strlit("\n\n");
    reveal_strlit("\r\r");
    assert(long.len() == 4 && feed.len() == 2 && back.len() == 2);
    assert(long[0] == '\r' && long[1] == '\n' && long[2] == '\r' && long[3] == '\n');
    assert(feed[0] == '\n' && feed[1] == '\n');
    assert(back[0] == '\r' && back[1] == '\r');
    let c = a + b;
    lemma_find_extends(a, b, long);
    lemma_find_extends(a, b, feed);
    lemma_find_extends(a, b, back);
    crate::text::lemma_find_from(a, long, 0);
    crate::text::lemma_find_from(a, feed, 0);
    crate::text::lemma_find_from(a, back, 0);
    crate::text::lemma_find_from(c, long, 0);
    crate::text::lemma_find_from(c, feed, 0);
    crate::text::lemma_find_from(c, back, 0);
    if crate::text::find(a, long) is None {
        if let Some(j) = crate::text::find(c, long) {
            if let Some(i) = crate::text::find(a, feed) {
                assert(crate::text::stands_at(c, feed, i));
                if j == i {
                    lemma_marks_agree(c, long, j, feed, i, i);
                } else if j == i - 1 {
                    lemma_marks_agree(c, long, j, feed, i, i + 1);
                }
            }
            if let Some(i) = crate::text::find(a, back) {
                assert(crate::text::stands_at(c, back, i));
                if j == i {
                    lemma_marks_agree(c, long, j, back, i, i + 1);
                } else if j == i - 1 {
                    lemma_marks_agree(c, long, j, back, i, i);
                }
            }
        }
    }
}

/// What a stream gives does not depend on how its text is cut: feeding two
/// pieces one after the other gives the chunks, the state and the rest that
/// feeding both at once gives.
pub proof fn law_feeding_in_pieces(s: Stream, a: Seq<char>, b: Seq<char>, created: u64)
    ensures
        ({
            let first = drained(s, a, created);
            let second = drained(first.0, first.1 + b, created);
            drained(s, a + b, created) == (second.0, second.1, first.2 + second.2)
        }),
    decreases a.len(),
{
    let first = drained(s, a, created);
    let second = drained(first.0, first.1 + b, created);
    if let Some(p) = boundary(a) {
        lemma_boundary_extends(a, b);
        let one = translated(s, frame_events(a.take(p.0)), created);
        law_feeding_in_pieces(one.0, a.skip(p.1), b, created);
        assert((a + b).take(p.0) =~= a.take(p.0));
        assert((a + b).skip(p.1) =~= a.skip(p.1) + b);
        let rest = drained(one.0, a.skip(p.1), created);
        assert(one.1 + (rest.2 + second.2) =~= (one.1 + rest.2) + second.2);
    } else {
        assert(first.2 + second.2 =~= second.2);
    }
}

/// No complete frame is left in the buffer.
pub proof fn law_nothing_complete_is_left(s: Stream, buf: Seq<char>, created: u64)
    ensures
        boundary(drained(s, buf, created).1) is None,
    decreases buf.len(),
{
    if let Some(p) = boundary(buf) {
        lemma_boundary_extends(buf, Seq::empty());
        let first = translated(s, frame_events(buf.take(p.0)), created);
        law_nothing_complete_is_left(first.0, buf.skip(p.1), created);
    }
}

/// What a text of two characters needs to stand somewhere.
proof fn lemma_pair_stands(s: Seq<char>, p: Seq<char>, i: int)
    requires
        p.len() == 2,
    ensures
        crate::text::stands_at(s, p, i) <==> 0 <= i && i + 2 <= s.len() && s[i] == p[0] && s[i + 1]
            == p[1],
{
    if 0 <= i && i + 2 <= s.len() {
        let part = s.subrange(i, i + 2);
        assert(part[0] == s[i] && part[1] == s[i + 1]);
        if s[i] == p[0] && s[i + 1] == p[1] {
            assert(part =~= p);
        }
    }
}

/// Where two line feeds first stand, once they stand behind a text in which they
/// do not.
proof fn lemma_feeds_behind(buf: Seq<char>)
    requires
        crate::text::find(buf, "\n\n"@) is None,
    ensures
        crate::text::find(buf + "\n\n"@, "\n\n"@) == if buf.len() >= 1 && buf.last() == '\n' {
            Some(buf.len() - 1)
        } else {
            Some(buf.len() as int)
        },
{
    let feed = "\n\n"@;
    let c = buf + feed;
    let n = buf.len() as int;
    assert(feed.len() == 2 && feed[0] == '\n' && feed[1] == '\n') by {
        reveal_strlit("\n\n");
    }
    lemma_pair_stands(c, feed, n);
    lemma_pair_stands(c, feed, n - 1);
    assert forall|j: int| 0 <= j < n - 1 implies !crate::text::stands_at(c, feed, j) by {
        crate::text::lemma_find_from(buf, feed, 0);
        lemma_pair_stands(c, feed, j);
        lemma_pair_stands(buf, feed, j);
    }
    lemma_found(c, feed, if n >= 1 && buf[n - 1] == '\n' {
        n - 1
    } else {
        n
    });
}

/// Where a text stands and does not stand before, it is found.
proof fn lemma_found(s: Seq<char>, p: Seq<char>, i: int)
    requires
        0 <= i,
        crate::text::stands_at(s, p, i),
        forall|j: int| 0 <= j < i ==> !crate::text::stands_at(s, p, j),
    ensures
        crate::text::find(s, p) == Some(i),
{
    crate::text::lemma_find_from(s, p, 0);
}

/// Where two line ends of the long kind first stand, once two line feeds stand
/// behind a text in which they do not.
proof fn lemma_long_behind(buf: Seq<char>)
    requires
        crate::text::find(buf, "\r\n\r\n"@) is None,
    ensures
        ({
            let n = buf.len() as int;
            crate::text::find(buf + "\n\n"@, "\r\n\r\n"@) == if n >= 3 && buf[n - 3] == '\r'
                && buf[n - 2] == '\n' && buf[n - 1] == '\r' {
                Some(n - 3)
            } else {
                None
            }
        }),
{
    let long = "\r\n\r\n"@;
    let feed = "\n\n"@;
    let c = buf + feed;
    let n = buf.len() as int;
    reveal_strlit("\r\n\r\n");
    reveal_strlit("\n\n");
    lemma_find_extends(buf, feed, long);
    crate::text::lemma_find_from(c, long, 0);
    if let Some(j) = crate::text::find(c, long) {
        assert(c.subrange(j, j + 4)[0] == c[j]);
        assert(c.subrange(j, j + 4)[1] == c[j + 1]);
        assert(c.subrange(j, j + 4)[2] == c[j + 2]);
    }
    if n >= 3 && buf[n - 3] == '\r' && buf[n - 2] == '\n' && buf[n - 1] == '\r' {
        assert(c.subrange(n - 3, n + 1) =~= long);
        assert(crate::text::stands_at(c, long, n - 3));
    }
}

/// Two carriage returns stand nowhere, once two line feeds stand behind a text in
/// which they do not.
proof fn lemma_returns_behind(buf: Seq<char>)
    requires
        crate::text::find(buf, "\r\r"@) is None,
    ensures
        crate::text::find(buf + "\n\n"@, "\r\r"@) is None,
{
    let c = buf + "\n\n"@;
    reveal_strlit("\n\n");
    reveal_strlit("\r\r");
    lemma_find_extends(buf, "\n\n"@, "\r\r"@);
    crate::text::lemma_find_from(c, "\r\r"@, 0);
    if let Some(k) = crate::text::find(c, "\r\r"@) {
        assert(c.subrange(k, k + 2)[1] == c[k + 1]);
    }
}

/// Where the first blank line is, once one stands behind a text that holds none.
proof fn lemma_boundary_behind(buf: Seq<char>)
    requires
        boundary(buf) is None,
    ensures
        ({
            let n = buf.len() as int;
            boundary(buf + "\n\n"@) == if n >= 3 && buf[n - 3] == '\r' && buf[n - 2] == '\n' && buf[n
                - 1] == '\r' {
                Some((n - 3, n + 1))
            } else if n >= 1 && buf[n - 1] == '\n' {
                Some((n - 1, n + 1))
            } else {
                Some((n, n + 2))
            }
        }),
{
    assert("\r\n\r\n"@.len() == 4 && "\n\n"@.len() == 2) by {
        reveal_strlit("\r\n\r\n");
        reveal_strlit("\n\n");
    }
    lemma_feeds_behind(buf);
    lemma_long_behind(buf);
    lemma_returns_behind(buf);
}

proof fn lemma_no_data(s: Seq<char>)
    requires
        !s.contains('d'),
    ensures
        frame_events(s) == Seq::<Tree>::empty(),
{
    crate::text::lemma_lines_without(s, 0, 'd');
    lemma_lines_carry_nothing(crate::text::lines(s));
}

proof fn lemma_lines_carry_nothing(lines: Seq<Seq<char>>)
    requires
        forall|i: int| 0 <= i < lines.len() ==> !(#[trigger] lines[i]).contains('d'),
    ensures
        line_events(lines) == Seq::<Tree>::empty(),
    decreases lines.len(),
{
    if lines.len() > 0 {
        let line = lines[lines.len() - 1];
        reveal_strlit("data:");
        if "data:"@.is_prefix_of(line) {
            assert(line.take(5)[0] == 'd');
            assert(line.contains(line[0]));
        }
        assert forall|i: int| 0 <= i < lines.drop_last().len() implies !(
        #[trigger] lines.drop_last()[i]).contains('d') by {
            assert(lines.drop_last()[i] == lines[i]);
        }
        lemma_lines_carry_nothing(lines.drop_last());
    }
}

/// The end of the input gives what a blank line behind it and the end mark would
/// have given: a last frame without its blank line is not lost. Where the input
/// ends with a carriage return and a line feed, that return must make no
/// difference to what reads the line.
pub proof fn law_finishing_is_a_blank_line(s: Stream, buf: Seq<char>, created: u64)
    requires
        boundary(buf) is None,
        crate::text::trim(buf).len() > 0 && buf.len() >= 2 && buf[buf.len() - 2] == '\r'
            && buf.last() == '\n' ==> steady(buf),
    ensures
        finished(s, buf, created) == closed_by_blank_line(s, buf, created),
{
    let n = buf.len() as int;
    let c = buf + "\n\n"@;
    reveal_strlit("\n\n");
    lemma_boundary_behind(buf);
    let p = boundary(c)->0;
    let frame = c.take(p.0);
    let rest = c.skip(p.1);
    assert(frame =~= buf.take(p.0));
    assert(boundary(rest) is None) by {
        reveal_strlit("\r\n\r\n");
        reveal_strlit("\r\r");
        crate::text::lemma_find_from(rest, "\r\n\r\n"@, 0);
        crate::text::lemma_find_from(rest, "\n\n"@, 0);
        crate::text::lemma_find_from(rest, "\r\r"@, 0);
    }
    if crate::text::trim(buf).len() == 0 {
        crate::text::lemma_blank_is_white(buf);
        lemma_no_data(buf);
        lemma_no_data(frame);
    } else {
        lemma_same_frame(buf, p.0);
    }
    let one = translated(s, frame_events(frame), created);
    assert(drained(one.0, rest, created) == (one.0, rest, Seq::<Seq<char>>::empty()));
    assert(one.1 + Seq::<Seq<char>>::empty() =~= one.1);
    assert(Seq::<Seq<char>>::empty().push(done_text()) =~= seq![done_text()]);
}

proof fn lemma_event_push(lines: Seq<Seq<char>>, line: Seq<char>)
    ensures
        line_events(lines.push(line)) == match line_event(line) {
            Some(event) => line_events(lines).push(event),
            None => line_events(lines),
        },
{
    assert(lines.push(line).drop_last() =~= lines);
}

/// What stands before the blank line carries what the whole text carries.
proof fn lemma_same_frame(buf: Seq<char>, at: int)
    requires
        ({
            let n = buf.len() as int;
            ||| at == n
            ||| at == n - 1 && n >= 1 && buf[n - 1] == '\n' && (n >= 2 && buf[n - 2] == '\r'
                ==> steady(buf))
            ||| at == n - 3 && n >= 3 && buf[n - 3] == '\r' && buf[n - 2] == '\n' && buf[n - 1]
                == '\r'
        }),
    ensures
        frame_events(buf.take(at)) == frame_events(buf),
{
    let n = buf.len() as int;
    let frame = buf.take(at);
    reveal_strlit("data:");
    let (front, piece) = crate::text::lemma_last_piece(frame);
    crate::text::lemma_lines_end(front, piece);
    let none = Seq::<char>::empty();
    assert(line_event(none) is None);
    if at == n {
        assert(frame =~= buf);
    } else if at == n - 1 {
        crate::text::lemma_lines_push(front, piece);
        assert(buf =~= frame.push('\n'));
        assert((front + piece).push('\n') =~= front + piece.push('\n'));
        let all = crate::text::lines(front);
        let line = crate::text::without_cr(piece);
        assert(crate::text::lines(buf) == all.push(line));
        lemma_event_push(all, line);
        lemma_event_push(all, piece);
        if piece.len() > 0 && piece.last() == '\r' {
            assert(frame[n - 2] == piece.last());
            assert(buf[n - 2] == '\r');
            assert(steady(buf));
            assert(crate::text::lines(buf)[all.len() as int] == line);
            assert(line.push('\r') =~= piece);
        }
        if piece.len() == 0 {
            assert(line =~= none);
        }
    } else {
        let whole = piece.push('\r');
        assert forall|i: int| 0 <= i < whole.len() implies #[trigger] whole[i] != '\n' by {
            if i < piece.len() {
                assert(piece.contains(piece[i]));
            }
        }
        let head = front + whole.push('\n');
        let tail = seq!['\r'];
        assert(buf =~= frame.push('\r').push('\n').push('\r'));
        assert((front + piece).push('\r').push('\n').push('\r') =~= head + tail);
        crate::text::lemma_lines_push(front, whole);
        crate::text::lemma_lines_end(head, tail);
        let all = crate::text::lines(front);
        assert(whole.drop_last() =~= piece);
        assert(crate::text::lines(buf) == all.push(piece).push(tail));
        lemma_event_push(all.push(piece), tail);
        lemma_event_push(all, piece);
        assert(line_event(tail) is None);
        if piece.len() == 0 {
            assert(piece =~= none);
        }
    }
}

/// How many chunks of a sequence of events open the message.
pub open spec fn openings(s: Stream, events: Seq<Tree>, created: u64) -> nat
    decreases events.len(),
{
    if events.len() == 0 {
        0
    } else {
        let before = translated(s, events.drop_last(), created).0;
        openings(s, events.drop_last(), created) + match step(before, events.last()).1 {
            Some(e) => if e.delta == opening_delta() {
                1nat
            } else {
                0
            },
            None => 0,
        }
    }
}

/// How many chunks of a sequence of events end the message.
pub open spec fn endings(s: Stream, events: Seq<Tree>, created: u64) -> nat
    decreases events.len(),
{
    if events.len() == 0 {
        0
    } else {
        let before = translated(s, events.drop_last(), created).0;
        endings(s, events.drop_last(), created) + match step(before, events.last()).1 {
            Some(e) => if e.finish is Some {
                1nat
            } else {
                0
            },
            None => 0,
        }
    }
}

proof fn lemma_event_names()
    ensures
        "message_start"@ != "content_block_start"@,
        "message_start"@ != "content_block_delta"@,
        "message_start"@ != "message_delta"@,
        "message_start"@ != "message_stop"@,
        "content_block_start"@ != "content_block_delta"@,
        "content_block_start"@ != "message_delta"@,
        "content_block_start"@ != "message_stop"@,
        "content_block_delta"@ != "message_delta"@,
        "content_block_delta"@ != "message_stop"@,
        "message_delta"@ != "message_stop"@,
{
    reveal_strlit("message_start");
    reveal_strlit("content_block_start");
    reveal_strlit("content_block_delta");
    reveal_strlit("message_delta");
    reveal_strlit("message_stop");
    assert("message_start"@.len() == 13 && "message_start"@[8] == 's');
    assert("message_delta"@.len() == 13 && "message_delta"@[8] == 'd');
    assert("content_block_start"@.len() == 19 && "content_block_start"@[14] == 's');
    assert("content_block_delta"@.len() == 19 && "content_block_delta"@[14] == 'd');
    assert("message_stop"@.len() == 12);
}

proof fn lemma_opening_is_distinct(value: Tree)
    ensures
        crate::json::empty_tree() != opening_delta(),
        crate::json::empty_tree().with("content"@, value) != opening_delta(),
        crate::json::empty_tree().with("reasoning_content"@, value) != opening_delta(),
        crate::json::empty_tree().with("tool_calls"@, value) != opening_delta(),
{
    reveal_strlit("role");
    reveal_strlit("content");
    reveal_strlit("reasoning_content");
    reveal_strlit("tool_calls");
    assert("role"@.len() == 4 && "content"@.len() == 7);
    assert("reasoning_content"@.len() == 17 && "tool_calls"@.len() == 10);
    assert(opening_delta().field("role"@) is Some);
    assert(crate::json::empty_tree().field("role"@) is None);
    assert(crate::json::empty_tree().with("content"@, value).field("role"@) is None);
    assert(crate::json::empty_tree().with("reasoning_content"@, value).field("role"@) is None);
    assert(crate::json::empty_tree().with("tool_calls"@, value).field("role"@) is None);
}

proof fn lemma_step_opening(s: Stream, data: Tree)
    ensures
        match step(s, data).1 {
            Some(e) => e.delta == opening_delta() ==> !s.role_sent && step(s, data).0.role_sent,
            None => true,
        },
        s.role_sent ==> step(s, data).0.role_sent,
{
    if let Some(e) = step(s, data).1 {
        if e.delta.field("content"@) is Some {
            lemma_opening_is_distinct(e.delta.field("content"@)->0);
        }
        if e.delta.field("reasoning_content"@) is Some {
            lemma_opening_is_distinct(e.delta.field("reasoning_content"@)->0);
        }
        if e.delta.field("tool_calls"@) is Some {
            lemma_opening_is_distinct(e.delta.field("tool_calls"@)->0);
        }
        lemma_opening_is_distinct(Tree::Null);
    }
}

/// A stream opens its message at most once, and not at all where it was opened
/// before.
pub proof fn law_message_opens_once(s: Stream, events: Seq<Tree>, created: u64)
    ensures
        openings(s, events, created) <= 1,
        s.role_sent ==> openings(s, events, created) == 0,
        openings(s, events, created) == 1 || s.role_sent ==> translated(s, events, created).0.role_sent,
    decreases events.len(),
{
    if events.len() > 0 {
        law_message_opens_once(s, events.drop_last(), created);
        lemma_step_opening(translated(s, events.drop_last(), created).0, events.last());
    }
}

/// A stream ends its message at most once; exactly once where a `message_stop`
/// arrives and the message had not ended before.
pub proof fn law_message_ends_once(s: Stream, events: Seq<Tree>, created: u64)
    ensures
        endings(s, events, created) <= 1,
        s.finish_sent ==> endings(s, events, created) == 0,
        translated(s, events, created).0.finish_sent == (s.finish_sent || endings(
            s,
            events,
            created,
        ) == 1),
        (exists|i: int|
            0 <= i < events.len() && crate::translate::is_type(
                #[trigger] events[i],
                "message_stop"@,
            )) && !s.finish_sent ==> endings(s, events, created) == 1,
    decreases events.len(),
{
    if events.len() > 0 {
        let shorter = events.drop_last();
        law_message_ends_once(s, shorter, created);
        lemma_event_names();
        if exists|i: int|
            0 <= i < events.len() && crate::translate::is_type(
                #[trigger] events[i],
                "message_stop"@,
            ) {
            let i = choose|i: int|
                0 <= i < events.len() && crate::translate::is_type(
                    #[trigger] events[i],
                    "message_stop"@,
                );
            if i < shorter.len() {
                assert(crate::translate::is_type(shorter[i], "message_stop"@));
            }
        }
    }
}

/// Whether an event can end the message.
pub open spec fn ends_message(data: Tree) -> bool {
    crate::translate::is_type(data, "message_stop"@) || (crate::translate::is_type(
        data,
        "message_delta"@,
    ) && data.text_in("delta"@, "stop_reason"@) is Some)
}

/// Whether one of the first events can end the message.
pub open spec fn ended_before(events: Seq<Tree>, i: int) -> bool {
    exists|j: int| 0 <= j < i && ends_message(#[trigger] events[j])
}

/// What the event at a place of a sequence does to the stream and puts out.
pub open spec fn step_at(s: Stream, events: Seq<Tree>, created: u64, i: int) -> (
    Stream,
    Option<Emission>,
) {
    step(translated(s, events.take(i), created).0, events[i])
}

proof fn lemma_ended(s: Stream, events: Seq<Tree>, created: u64, i: int)
    requires
        0 <= i <= events.len(),
    ensures
        translated(s, events.take(i), created).0.finish_sent == (s.finish_sent || ended_before(
            events,
            i,
        )),
    decreases i,
{
    if i > 0 {
        lemma_ended(s, events, created, i - 1);
        lemma_event_names();
        assert(events.take(i).drop_last() =~= events.take(i - 1));
        assert(events.take(i).last() == events[i - 1]);
        if ends_message(events[i - 1]) {
            assert(ended_before(events, i));
        }
        if ended_before(events, i) && !ended_before(events, i - 1) {
            let j = choose|j: int| 0 <= j < i && ends_message(#[trigger] events[j]);
            assert(j == i - 1);
        }
    }
}

/// The message ends with the first event that can end it, a `message_stop` or a
/// `message_delta` with a stop reason, and with no other; and the chunk of that
/// event, and no other, bears a reason and usage.
pub proof fn law_first_ending_event_ends(s: Stream, events: Seq<Tree>, created: u64, i: int)
    requires
        0 <= i < events.len(),
    ensures
        ({
            let after = step_at(s, events, created, i);
            &&& (after.1 matches Some(e) && e.finish is Some) <==> !s.finish_sent && ends_message(
                events[i],
            ) && !ended_before(events, i)
            &&& after.1 matches Some(e) ==> {
                let chunk = chunk_tree(after.0, e, created);
                &&& chunk.field("usage"@) is Some <==> e.finish is Some
                &&& chunk.items_at("choices"@) matches Some(choices)
                &&& choices.len() == 1
                &&& choices[0].field("finish_reason"@) == Some(
                    crate::translate::text_or_null(e.finish),
                )
            }
        }),
{
    lemma_ended(s, events, created, i);
    lemma_event_names();
    reveal_strlit("id");
    reveal_strlit("object");
    reveal_strlit("created");
    reveal_strlit("model");
    reveal_strlit("choices");
    reveal_strlit("usage");
    assert("id"@.len() == 2 && "object"@.len() == 6 && "created"@.len() == 7);
    assert("model"@.len() == 5 && "choices"@.len() == 7 && "usage"@.len() == 5);
    assert("model"@[0] == 'm' && "usage"@[0] == 'u');
}

/// Whether an event begins a tool call in the block `at`.
pub open spec fn begins_call(data: Tree, at: u64) -> bool {
    &&& crate::translate::is_type(data, "content_block_start"@)
    &&& crate::json::or_zero(data.count_at("index"@)) == at
    &&& crate::translate::is_type(
        crate::json::or_null(data.field("content_block"@)),
        "tool_use"@,
    )
}

/// Whether an event carries a piece of the arguments of the call in the block
/// `at`.
pub open spec fn continues_call(data: Tree, at: u64) -> bool {
    &&& crate::translate::is_type(data, "content_block_delta"@)
    &&& crate::json::or_zero(data.count_at("index"@)) == at
    &&& crate::translate::is_type(
        crate::json::or_null(data.field("delta"@)),
        "input_json_delta"@,
    )
}

proof fn lemma_slot_kept(s: Stream, events: Seq<Tree>, created: u64, at: u64)
    requires
        s.slots.contains_key(at),
        forall|i: int| 0 <= i < events.len() ==> !begins_call(#[trigger] events[i], at),
    ensures
        translated(s, events, created).0.slots.contains_key(at),
        translated(s, events, created).0.slots[at] == s.slots[at],
    decreases events.len(),
{
    if events.len() > 0 {
        let shorter = events.drop_last();
        assert forall|i: int| 0 <= i < shorter.len() implies !begins_call(
            #[trigger] shorter[i],
            at,
        ) by {
            assert(shorter[i] == events[i]);
        }
        lemma_slot_kept(s, shorter, created, at);
        assert(!begins_call(events[events.len() - 1], at));
        lemma_event_names();
    }
}

/// The arguments of a tool call go out under the index under which the call
/// went out, whatever arrives in between, up to another call in the same
/// block.
pub proof fn law_arguments_follow_their_call(
    s: Stream,
    call: Tree,
    between: Seq<Tree>,
    piece: Tree,
    at: u64,
    created: u64,
)
    requires
        begins_call(call, at),
        forall|i: int| 0 <= i < between.len() ==> !begins_call(#[trigger] between[i], at),
        continues_call(piece, at),
    ensures
        step(s, call).1 == delta_only(
            call_delta(s.tool_calls, crate::json::or_null(call.field("content_block"@))),
        ),
        step(translated(step(s, call).0, between, created).0, piece).1 == delta_only(
            arguments_delta(
                s.tool_calls,
                crate::json::or_blank(
                    crate::json::or_null(piece.field("delta"@)).text_at("partial_json"@),
                ),
            ),
        ),
{
    lemma_event_names();
    reveal_strlit("text_delta");
    reveal_strlit("thinking_delta");
    reveal_strlit("input_json_delta");
    assert("text_delta"@.len() == 10 && "thinking_delta"@.len() == 14);
    assert("input_json_delta"@.len() == 16);
    lemma_slot_kept(step(s, call).0, between, created, at);
}

/// Tool calls are numbered in the order in which they begin.
pub proof fn law_calls_are_numbered(s: Stream, first: Tree, second: Tree, a: u64, b: u64)
    requires
        begins_call(first, a),
        begins_call(second, b),
        s.tool_calls < u64::MAX,
    ensures
        step(step(s, first).0, second).1 == delta_only(
            call_delta(
                (s.tool_calls + 1) as u64,
                crate::json::or_null(second.field("content_block"@)),
            ),
        ),
{
    lemma_event_names();
}

/// The end of the input always gives the end mark, as the last of the chunks.
pub proof fn law_stream_ends_with_mark(s: Stream, buf: Seq<char>, created: u64)
    ensures
        finished(s, buf, created).1.len() > 0,
        finished(s, buf, created).1.last() == done_text(),
{
}

/// A stream that has ended puts nothing but the end mark out when it is ended
/// again.
pub proof fn law_nothing_is_left_after_the_end(s: Stream, created: u64)
    ensures
        finished(s, Seq::empty(), created) == (s, seq![done_text()]),
{
}

/// A piece of text, of thinking or of the arguments of a call goes out as such, as it
/// came, and changes nothing else.
pub proof fn law_pieces_go_out_as_they_came(s: Stream, data: Tree, delta: Tree, piece: Tree)
    requires
        data.text_at("type"@) == Some("content_block_delta"@),
        data.field("delta"@) == Some(delta),
    ensures
        step(s, data).0 == s,
        delta.text_at("type"@) == Some("text_delta"@) && delta.field("text"@) == Some(piece)
            ==> step(s, data).1 is Some && step(s, data).1->0.delta == Tree::Object(
            map!["content"@ => piece],
        ) && step(s, data).1->0.finish is None,
        delta.text_at("type"@) == Some("thinking_delta"@) && delta.field("thinking"@) == Some(piece)
            ==> step(s, data).1 is Some && step(s, data).1->0.delta == Tree::Object(
            map!["reasoning_content"@ => piece],
        ) && step(s, data).1->0.finish is None,
        delta.text_at("type"@) != Some("text_delta"@) && delta.text_at("type"@) != Some(
            "thinking_delta"@,
        ) && delta.text_at("type"@) != Some("input_json_delta"@) ==> step(s, data).1 is None,
{
    lemma_event_names();
    reveal_strlit("text_delta");
    reveal_strlit("thinking_delta");
    reveal_strlit("input_json_delta");
    assert("text_delta"@.len() == 10);
    assert("thinking_delta"@.len() == 14);
    assert("input_json_delta"@.len() == 16);
    assert(crate::json::empty_tree().with("content"@, piece).members() =~= map![
        "content"@ => piece,
    ]);
    assert(crate::json::empty_tree().with("reasoning_content"@, piece).members() =~= map![
        "reasoning_content"@ => piece,
    ]);
}

/// The beginning of a tool call goes out with its id and its name under the next
/// number, and pieces of the arguments of its block go out under that number.
pub proof fn law_calls_go_out_with_id_and_name(
    s: Stream,
    start: Tree,
    block: Tree,
    at: u64,
    piece: Tree,
    text: Seq<char>,
)
    requires
        start.text_at("type"@) == Some("content_block_start"@),
        start.field("content_block"@) == Some(block),
        start.count_at("index"@) == Some(at),
        block.text_at("type"@) == Some("tool_use"@),
        piece.text_at("type"@) == Some("content_block_delta"@),
        piece.count_at("index"@) == Some(at),
        piece.text_in("delta"@, "type"@) == Some("input_json_delta"@),
        piece.text_in("delta"@, "partial_json"@) == Some(text),
    ensures
        ({
            let first = step(s, start);
            let second = step(first.0, piece);
            let call = first.1->0.delta.items_at("tool_calls"@)->0[0];
            let more = second.1->0.delta.items_at("tool_calls"@)->0[0];
            &&& first.1 is Some && second.1 is Some
            &&& first.1->0.delta.items_at("tool_calls"@) matches Some(calls) && calls.len() == 1
            &&& call.count_at("index"@) == Some(s.tool_calls)
            &&& call.text_at("type"@) == Some("function"@)
            &&& call.field("id"@) == Some(
                match block.field("id"@) {
                    Some(id) => id,
                    None => Tree::Null,
                },
            )
            &&& call.field_in("function"@, "name"@) == Some(
                match block.field("name"@) {
                    Some(name) => name,
                    None => Tree::Null,
                },
            )
            &&& call.text_in("function"@, "arguments"@) == Some(Seq::<char>::empty())
            &&& second.1->0.delta.items_at("tool_calls"@) matches Some(pieces) && pieces.len() == 1
            &&& more.count_at("index"@) == Some(s.tool_calls)
            &&& more.text_in("function"@, "arguments"@) == Some(text)
            &&& s.tool_calls < u64::MAX ==> first.0.tool_calls == s.tool_calls + 1
        }),
{
    lemma_event_names();
    reveal_strlit("text_delta");
    reveal_strlit("thinking_delta");
    reveal_strlit("input_json_delta");
    assert("text_delta"@.len() == 10);
    assert("thinking_delta"@.len() == 14);
    assert("input_json_delta"@.len() == 16);
    reveal_strlit("index");
    reveal_strlit("id");
    reveal_strlit("type");
    reveal_strlit("function");
    reveal_strlit("name");
    reveal_strlit("arguments");
    assert("index"@.len() == 5);
    assert("id"@.len() == 2);
    assert("type"@.len() == 4 && "type"@[0] == 't');
    assert("function"@.len() == 8);
    assert("name"@.len() == 4 && "name"@[0] == 'n');
    assert("arguments"@.len() == 9);
}

/// A piece of arguments in a block in which no call began does not go out, nor does
/// the beginning of a block that is no call.
pub proof fn law_only_calls_go_out_as_calls(s: Stream, data: Tree)
    ensures
        data.text_at("type"@) == Some("content_block_start"@) && data.text_in(
            "content_block"@,
            "type"@,
        ) != Some("tool_use"@) ==> step(s, data) == (s, None::<Emission>),
        data.text_at("type"@) == Some("content_block_delta"@) && data.text_in("delta"@, "type"@)
            == Some("input_json_delta"@) && s.slots.dom() == Set::<u64>::empty() ==> step(s, data)
            == (s, None::<Emission>),
        data.text_at("type"@) != Some("message_start"@) && data.text_at("type"@) != Some(
            "content_block_start"@,
        ) && data.text_at("type"@) != Some("content_block_delta"@) && data.text_at("type"@) != Some(
            "message_delta"@,
        ) && data.text_at("type"@) != Some("message_stop"@) ==> step(s, data) == (
            s,
            None::<Emission>,
        ),
{
    lemma_event_names();
    reveal_strlit("text_delta");
    reveal_strlit("thinking_delta");
    reveal_strlit("input_json_delta");
    assert("text_delta"@.len() == 10);
    assert("thinking_delta"@.len() == 14);
    assert("input_json_delta"@.len() == 16);
}

/// A message is opened by its start, which names its id and its model; the start goes
/// out once, as the assistant's.
pub proof fn law_messages_are_opened(s: Stream, data: Tree, message: Tree)
    requires
        data.text_at("type"@) == Some("message_start"@),
        data.field("message"@) == Some(message),
    ensures
        ({
            let after = step(s, data);
            &&& after.0.message_id == match message.text_at("id"@) {
                Some(id) => id,
                None => "msg_stream"@,
            }
            &&& after.0.model == match message.text_at("model"@) {
                Some(model) => if model.len() > 0 {
                    model
                } else {
                    s.model
                },
                None => s.model,
            }
            &&& after.0.role_sent
            &&& after.0.tool_calls == s.tool_calls && after.0.slots == s.slots
                && after.0.finish_sent == s.finish_sent
            &&& !s.role_sent ==> after.1 is Some && after.1->0.delta == Tree::Object(
                map!["role"@ => Tree::Text("assistant"@)],
            ) && after.1->0.finish is None
            &&& s.role_sent ==> after.1 is None
        }),
{
    lemma_event_names();
    assert(opening_delta().members() =~= map!["role"@ => Tree::Text("assistant"@)]);
}

/// A message ends with the client's word for the upstream's reason, with nothing more
/// said, and with what was used up to then.
pub proof fn law_messages_end_with_a_reason(s: Stream, data: Tree, reason: Seq<char>)
    requires
        !s.finish_sent,
        data.text_at("type"@) == Some("message_stop"@) || (data.text_at("type"@) == Some(
            "message_delta"@,
        ) && data.text_in("delta"@, "stop_reason"@) == Some(reason)),
    ensures
        ({
            let after = step(s, data);
            &&& after.0.finish_sent
            &&& after.1 is Some
            &&& after.1->0.delta == Tree::Object(Map::empty())
            &&& after.1->0.finish == Some(
                if data.text_at("type"@) == Some("message_stop"@) {
                    "stop"@
                } else if reason == "max_tokens"@ {
                    "length"@
                } else if reason == "tool_use"@ {
                    "tool_calls"@
                } else {
                    "stop"@
                },
            )
            &&& after.1->0.usage == Some(
                crate::translate::usage_tree(Some(usage_report(after.0.usage))),
            )
        }),
{
    lemma_event_names();
    reveal_strlit("end_turn");
    reveal_strlit("stop_sequence");
    reveal_strlit("max_tokens");
    reveal_strlit("tool_use");
    assert("end_turn"@.len() == 8 && "end_turn"@[0] == 'e');
    assert("stop_sequence"@.len() == 13);
    assert("max_tokens"@.len() == 10);
    assert("tool_use"@.len() == 8 && "tool_use"@[0] == 't');
}

/// What was used is taken from each report that names it, later reports taking the
/// place of earlier ones, and told on as it was reported.
pub proof fn law_usage_follows_the_reports(u: AnthropicUsage, patch: Tree)
    ensures
        ({
            let after = merged(u, Some(patch));
            &&& merged(u, None) == u
            &&& after.input_tokens == match patch.count_at("input_tokens"@) {
                Some(n) => n,
                None => u.input_tokens,
            }
            &&& after.output_tokens == match patch.count_at("output_tokens"@) {
                Some(n) => n,
                None => u.output_tokens,
            }
            &&& after.cache_read == match patch.count_at("cache_read_input_tokens"@) {
                Some(n) => Some(n),
                None => u.cache_read,
            }
            &&& after.cache_creation == match patch.count_at("cache_creation_input_tokens"@) {
                Some(n) => Some(n),
                None => u.cache_creation,
            }
            &&& usage_report(u).count_at("input_tokens"@) == Some(u.input_tokens)
            &&& usage_report(u).count_at("output_tokens"@) == Some(u.output_tokens)
            &&& usage_report(u).count_at("cache_read_input_tokens"@) == u.cache_read
            &&& usage_report(u).count_at("cache_creation_input_tokens"@) == u.cache_creation
        }),
{
    reveal_strlit("input_tokens");
    reveal_strlit("output_tokens");
    reveal_strlit("cache_read_input_tokens");
    reveal_strlit("cache_creation_input_tokens");
    assert("input_tokens"@.len() == 12);
    assert("output_tokens"@.len() == 13);
    assert("cache_read_input_tokens"@.len() == 23);
    assert("cache_creation_input_tokens"@.len() == 27);
}

/// The start of a message and every change of it bring their usage along.
pub proof fn law_usage_is_taken_from_events(s: Stream, data: Tree)
    ensures
        data.text_at("type"@) == Some("message_start"@) ==> step(s, data).0.usage == merged(
            s.usage,
            data.field_in("message"@, "usage"@),
        ),
        data.text_at("type"@) == Some("message_delta"@) ==> step(s, data).0.usage == merged(
            s.usage,
            data.field("usage"@),
        ),
        data.text_at("type"@) != Some("message_start"@) && data.text_at("type"@) != Some(
            "message_delta"@,
        ) ==> step(s, data).0.usage == s.usage,
{
    lemma_event_names();
}

/// A chunk tells its id, its model and its time, and carries what goes out.
pub proof fn law_chunks_carry_what_goes_out(s: Stream, e: Emission, created: u64)
    ensures
        ({
            let chunk = chunk_tree(s, e, created);
            let choices = chunk.items_at("choices"@)->0;
            &&& chunk.text_at("id"@) == Some(
                if s.message_id.len() > 0 {
                    s.message_id
                } else {
                    "chatcmpl-stream"@
                },
            )
            &&& chunk.text_at("object"@) == Some("chat.completion.chunk"@)
            &&& chunk.count_at("created"@) == Some(created)
            &&& chunk.text_at("model"@) == Some(s.model)
            &&& chunk.items_at("choices"@) is Some
            &&& choices.len() == 1
            &&& choices[0].count_at("index"@) == Some(0u64)
            &&& choices[0].field("delta"@) == Some(e.delta)
            &&& choices[0].field("finish_reason"@) == Some(
                match e.finish {
                    Some(reason) => Tree::Text(reason),
                    None => Tree::Null,
                },
            )
            &&& chunk.field("usage"@) == e.usage
            &&& chunk_text(s, e, created) == "data: "@ + crate::json::rendered(chunk) + "\n\n"@
        }),
{
    reveal_strlit("id");
    reveal_strlit("object");
    reveal_strlit("created");
    reveal_strlit("model");
    reveal_strlit("choices");
    reveal_strlit("usage");
    reveal_strlit("index");
    reveal_strlit("delta");
    reveal_strlit("finish_reason");
    assert("id"@.len() == 2);
    assert("object"@.len() == 6);
    assert("created"@.len() == 7 && "created"@[1] == 'r');
    assert("model"@.len() == 5 && "model"@[0] == 'm');
    assert("choices"@.len() == 7 && "choices"@[1] == 'h');
    assert("usage"@.len() == 5 && "usage"@[0] == 'u');
    assert("index"@.len() == 5 && "index"@[0] == 'i');
    assert("delta"@.len() == 5 && "delta"@[0] == 'd');
    assert("finish_reason"@.len() == 13);
}

/// Events are translated one after the other: the chunks of two sequences are those of
/// the first and then those of the second, and an event gives the chunk of what it
/// puts out, or none.
pub proof fn law_events_are_translated_in_order(
    s: Stream,
    a: Seq<Tree>,
    b: Seq<Tree>,
    event: Tree,
    created: u64,
)
    ensures
        ({
            let first = translated(s, a, created);
            let second = translated(first.0, b, created);
            &&& translated(s, Seq::empty(), created) == (s, Seq::<Seq<char>>::empty())
            &&& translated(s, a + b, created) == (second.0, first.1 + second.1)
            &&& translated(s, seq![event], created).0 == step(s, event).0
            &&& translated(s, seq![event], created).1 == match step(s, event).1 {
                Some(e) => seq![chunk_text(step(s, event).0, e, created)],
                None => Seq::empty(),
            }
        }),
    decreases b.len(),
{
    let first = translated(s, a, created);
    assert(seq![event].drop_last() =~= Seq::<Tree>::empty());
    assert(translated(s, seq![event].drop_last(), created).1 =~= Seq::<Seq<char>>::empty());
    if step(s, event).1 is Some {
        let chunk = chunk_text(step(s, event).0, step(s, event).1->0, created);
        assert(Seq::<Seq<char>>::empty().push(chunk) =~= seq![chunk]);
    }
    if b.len() == 0 {
        assert(a + b =~= a);
        assert(first.1 + Seq::<Seq<char>>::empty() =~= first.1);
    } else {
        law_events_are_translated_in_order(s, a, b.drop_last(), event, created);
        assert((a + b).drop_last() =~= a + b.drop_last());
        let second = translated(first.0, b, created);
        assert(translated(s, a + b, created).1 =~= first.1 + second.1);
    }
}

/// A frame carries the documents of its data lines, in their order: of a line what
/// follows the mark, without one space.
pub proof fn law_frames_carry_their_data_lines(
    line: Seq<char>,
    data: Seq<char>,
    lines: Seq<Seq<char>>,
    more: Seq<Seq<char>>,
)
    requires
        data.len() > 0,
        data[0] != ' ',
    ensures
        line_event("data: "@ + data) == crate::json::parsed(data),
        line_event("data:"@ + data) == crate::json::parsed(data),
        !"data:"@.is_prefix_of(line) ==> line_event(line) is None,
        line_event("data:"@) is None,
        line_events(lines + more) == line_events(lines) + line_events(more),
        line_events(seq![line]) == match line_event(line) {
            Some(event) => seq![event],
            None => Seq::empty(),
        },
        frame_events(line) == line_events(crate::text::lines(line)),
    decreases more.len(),
{
    reveal_strlit("data: ");
    reveal_strlit("data:");
    reveal_strlit(" ");
    let a = "data: "@ + data;
    let b = "data:"@ + data;
    assert(a.take(5) =~= "data:"@);
    assert(a.skip(5) =~= " "@ + data);
    assert((" "@ + data).take(1) =~= " "@);
    assert((" "@ + data).skip(1) =~= data);
    assert(b.take(5) =~= "data:"@);
    assert(b.skip(5) =~= data);
    if " "@.is_prefix_of(data) {
        assert(data.take(1)[0] == data[0]);
    }
    let none = "data:"@.skip(5);
    assert("data:"@.is_prefix_of("data:"@)) by {
        assert("data:"@.take(5) =~= "data:"@);
    }
    assert(none =~= Seq::<char>::empty());
    assert(seq![line].drop_last() =~= Seq::<Seq<char>>::empty());
    assert(line_events(seq![line].drop_last()) =~= Seq::<Tree>::empty());
    if line_event(line) is Some {
        assert(Seq::<Tree>::empty().push(line_event(line)->0) =~= seq![line_event(line)->0]);
    }
    if more.len() == 0 {
        assert(lines + more =~= lines);
        assert(line_events(lines) + Seq::<Tree>::empty() =~= line_events(lines));
    } else {
        law_frames_carry_their_data_lines(line, data, lines, more.drop_last());
        assert((lines + more).drop_last() =~= lines + more.drop_last());
        assert(line_events(lines + more) =~= line_events(lines) + line_events(more));
    }
}

/// A blank line, in any of three styles, ends a frame: the frame is translated, and what
/// follows waits for its own.
pub proof fn law_blank_lines_end_frames(
    s: Stream,
    frame: Seq<char>,
    mark: Seq<char>,
    rest: Seq<char>,
    created: u64,
)
    requires
        mark == "\n\n"@ || mark == "\r\n\r\n"@ || mark == "\r\r"@,
        !frame.contains('\n'),
        !frame.contains('\r'),
    ensures
        ({
            let first = translated(s, frame_events(frame), created);
            let d = drained(first.0, rest, created);
            drained(s, frame + mark + rest, created) == (d.0, d.1, first.1 + d.2)
        }),
        drained(s, frame, created) == (s, frame, Seq::<Seq<char>>::empty()),
{
    let long = "\r\n\r\n"@;
    let feed = "\n\n"@;
    let back = "\r\r"@;
    reveal_strlit("\r\n\r\n");
    reveal_strlit("\n\n");
    reveal_strlit("\r\r");
    let buf = frame + mark + rest;
    let n: int = frame.len() as int;
    assert forall|k: int| 0 <= k < n implies #[trigger] frame[k] != '\n' && frame[k] != '\r' by {
        assert(frame.contains(frame[k]));
    }
    assert(buf.take(n) =~= frame);
    assert(frame.take(n) =~= frame);
    lemma_not_before(buf, frame, long);
    lemma_not_before(buf, frame, feed);
    lemma_not_before(buf, frame, back);
    assert(buf.subrange(n, n + mark.len()) =~= mark);
    assert(crate::text::stands_at(buf, mark, n));
    lemma_found(buf, mark, n);
    crate::text::lemma_find_from(buf, long, 0);
    crate::text::lemma_find_from(buf, feed, 0);
    crate::text::lemma_find_from(buf, back, 0);
    if mark == feed {
        if crate::text::stands_at(buf, long, n) {
            assert(buf.subrange(n, n + 4)[0] == buf[n]);
            assert(buf[n] == feed[0]);
        }
    }
    if mark == back {
        if crate::text::stands_at(buf, long, n) {
            assert(buf.subrange(n, n + 4)[1] == buf[n + 1]);
            assert(buf[n + 1] == back[1]);
        }
        if crate::text::stands_at(buf, feed, n) {
            assert(buf.subrange(n, n + 2)[0] == buf[n]);
            assert(buf[n] == back[0]);
        }
    }
    if mark == long {
        if crate::text::stands_at(buf, feed, n) {
            assert(buf.subrange(n, n + 2)[0] == buf[n]);
            assert(buf[n] == long[0]);
        }
        if crate::text::stands_at(buf, back, n) {
            assert(buf.subrange(n, n + 2)[1] == buf[n + 1]);
            assert(buf[n + 1] == long[1]);
        }
    }
    assert(boundary(buf) == Some((n, n + mark.len())));
    assert(buf.take(n) =~= frame);
    assert(buf.skip(n + mark.len()) =~= rest);
    lemma_not_before(frame, frame, long);
    lemma_not_before(frame, frame, feed);
    lemma_not_before(frame, frame, back);
    crate::text::lemma_find_from(frame, long, 0);
    crate::text::lemma_find_from(frame, feed, 0);
    crate::text::lemma_find_from(frame, back, 0);
}

/// A mark that begins with the end of a line stands nowhere in a line.
proof fn lemma_not_before(buf: Seq<char>, frame: Seq<char>, mark: Seq<char>)
    requires
        frame.len() <= buf.len(),
        buf.take(frame.len() as int) == frame,
        mark.len() > 0,
        mark[0] == '\n' || mark[0] == '\r',
        forall|k: int| 0 <= k < frame.len() ==> #[trigger] frame[k] != '\n' && frame[k] != '\r',
    ensures
        forall|k: int| 0 <= k < frame.len() ==> !#[trigger] crate::text::stands_at(buf, mark, k),
{
    assert forall|k: int| 0 <= k < frame.len() implies !#[trigger] crate::text::stands_at(
        buf,
        mark,
        k,
    ) by {
        if crate::text::stands_at(buf, mark, k) {
            assert(buf.subrange(k, k + mark.len())[0] == buf[k]);
            assert(buf.take(frame.len() as int)[k] == frame[k]);
        }
    }
}

/// A translation begins with nothing said and the model that was asked for.
pub proof fn law_streams_begin_with_nothing(model: Seq<char>)
    ensures
        ({
            let s = new_stream(model);
            &&& s.model == model && s.message_id.len() == 0
            &&& !s.role_sent && !s.finish_sent
            &&& s.tool_calls == 0 && s.slots == Map::<u64, u64>::empty()
            &&& s.usage.input_tokens == 0 && s.usage.output_tokens == 0
            &&& s.usage.cache_read is None && s.usage.cache_creation is None
            &&& done_text() == "data: [DONE]\n\n"@
        }),
{
}

/// A piece that is missing goes out as nothing, and no piece comes with a count of
/// tokens.
pub proof fn law_missing_pieces_go_out_as_nothing(s: Stream, data: Tree, delta: Tree)
    requires
        data.text_at("type"@) == Some("content_block_delta"@),
        data.field("delta"@) == Some(delta),
    ensures
        delta.text_at("type"@) == Some("text_delta"@) && delta.field("text"@) is None ==> step(
            s,
            data,
        ).1 is Some && step(s, data).1->0.delta == Tree::Object(map!["content"@ => Tree::Null]),
        delta.text_at("type"@) == Some("thinking_delta"@) && delta.field("thinking"@) is None
            ==> step(s, data).1 is Some && step(s, data).1->0.delta == Tree::Object(
            map!["reasoning_content"@ => Tree::Null],
        ),
        step(s, data).1 is Some ==> step(s, data).1->0.usage is None && step(
            s,
            data,
        ).1->0.finish is None,
{
    lemma_event_names();
    reveal_strlit("text_delta");
    reveal_strlit("thinking_delta");
    reveal_strlit("input_json_delta");
    assert("text_delta"@.len() == 10);
    assert("thinking_delta"@.len() == 14);
    assert("input_json_delta"@.len() == 16);
    assert(crate::json::empty_tree().with("content"@, Tree::Null).members() =~= map![
        "content"@ => Tree::Null,
    ]);
    assert(crate::json::empty_tree().with("reasoning_content"@, Tree::Null).members() =~= map![
        "reasoning_content"@ => Tree::Null,
    ]);
}

/// Arguments go to the call that was begun at their place, as they came, and
/// nowhere where none was begun there. Without a place they belong to the first,
/// and without a text they are empty.
pub proof fn law_arguments_go_to_the_call_at_their_place(s: Stream, data: Tree, at: u64)
    requires
        data.text_at("type"@) == Some("content_block_delta"@),
        data.text_in("delta"@, "type"@) == Some("input_json_delta"@),
        data.count_at("index"@) == Some(at) || (data.count_at("index"@) is None && at == 0),
    ensures
        !s.slots.contains_key(at) ==> step(s, data) == (s, None::<Emission>),
        s.slots.contains_key(at) ==> ({
            let out = step(s, data).1;
            let calls = out->0.delta.items_at("tool_calls"@);
            &&& out is Some
            &&& calls is Some && calls->0.len() == 1
            &&& calls->0[0].count_at("index"@) == Some(s.slots[at])
            &&& data.text_in("delta"@, "partial_json"@) is Some ==> calls->0[0].text_in(
                "function"@,
                "arguments"@,
            ) == data.text_in("delta"@, "partial_json"@)
            &&& data.text_in("delta"@, "partial_json"@) is None ==> calls->0[0].text_in(
                "function"@,
                "arguments"@,
            ) == Some(Seq::<char>::empty())
        }),
{
    lemma_event_names();
    reveal_strlit("text_delta");
    reveal_strlit("thinking_delta");
    reveal_strlit("input_json_delta");
    reveal_strlit("index");
    reveal_strlit("function");
    assert("text_delta"@.len() == 10);
    assert("thinking_delta"@.len() == 14);
    assert("input_json_delta"@.len() == 16);
    assert("index"@.len() == 5);
    assert("function"@.len() == 8);
}

/// Only the beginning of a message changes its name, its model and whether it was
/// opened; only a call changes the calls, and it changes none of the others.
pub proof fn law_events_change_only_what_they_tell(s: Stream, data: Tree, other: u64)
    ensures
        ({
            let t = step(s, data).0;
            let at = match data.count_at("index"@) {
                Some(at) => at,
                None => 0,
            };
            let begins = data.text_at("type"@) == Some("content_block_start"@) && data.text_in(
                "content_block"@,
                "type"@,
            ) == Some("tool_use"@);
            &&& data.text_at("type"@) != Some("message_start"@) ==> t.message_id == s.message_id
                && t.model == s.model && t.role_sent == s.role_sent
            &&& !begins ==> t.tool_calls == s.tool_calls && t.slots == s.slots
            &&& begins ==> t.slots.contains_key(at) && t.slots[at] == s.tool_calls
            &&& begins && other != at ==> t.slots.contains_key(other) == s.slots.contains_key(other)
            &&& begins && other != at && s.slots.contains_key(other) ==> t.slots[other]
                == s.slots[other]
            &&& s.finish_sent ==> t.finish_sent
        }),
{
    lemma_event_names();
}

/// A message that was ended is not ended again, and one goes on until it is told
/// why it stops.
pub proof fn law_ended_messages_stay_ended(s: Stream, data: Tree)
    ensures
        s.finish_sent && data.text_at("type"@) == Some("message_stop"@) ==> step(s, data) == (
            s,
            None::<Emission>,
        ),
        s.finish_sent && data.text_at("type"@) == Some("message_delta"@) ==> step(
            s,
            data,
        ).1 is None,
        data.text_at("type"@) == Some("message_delta"@) && data.text_in(
            "delta"@,
            "stop_reason"@,
        ) is None ==> step(s, data).1 is None && step(s, data).0.finish_sent == s.finish_sent,
{
    lemma_event_names();
}

/// A beginning that tells nothing of its message opens it under a name of its own
/// and the model that was asked for.
pub proof fn law_nameless_messages_are_opened(s: Stream, data: Tree)
    requires
        data.text_at("type"@) == Some("message_start"@),
        data.field("message"@) is None,
    ensures
        step(s, data).0.message_id == "msg_stream"@,
        step(s, data).0.model == s.model,
        step(s, data).0.role_sent,
        step(s, data).0.usage == s.usage,
        step(s, data).1 is Some <==> !s.role_sent,
{
    lemma_event_names();
}

/// A frame ends at its first blank line, however many lines it has: what stands
/// before it is translated, and what follows is read on.
pub proof fn law_frames_end_at_the_first_blank_line(
    s: Stream,
    frame: Seq<char>,
    mark: Seq<char>,
    rest: Seq<char>,
    created: u64,
)
    requires
        mark == "\n\n"@ || mark == "\r\n\r\n"@ || mark == "\r\r"@,
        forall|k: int|
            0 <= k < frame.len() ==> !#[trigger] crate::text::stands_at(
                frame + mark + rest,
                "\n\n"@,
                k,
            ),
        forall|k: int|
            0 <= k < frame.len() ==> !#[trigger] crate::text::stands_at(
                frame + mark + rest,
                "\r\n\r\n"@,
                k,
            ),
        forall|k: int|
            0 <= k < frame.len() ==> !#[trigger] crate::text::stands_at(
                frame + mark + rest,
                "\r\r"@,
                k,
            ),
    ensures
        ({
            let first = translated(s, frame_events(frame), created);
            let d = drained(first.0, rest, created);
            drained(s, frame + mark + rest, created) == (d.0, d.1, first.1 + d.2)
        }),
{
    let long = "\r\n\r\n"@;
    let feed = "\n\n"@;
    let back = "\r\r"@;
    reveal_strlit("\r\n\r\n");
    reveal_strlit("\n\n");
    reveal_strlit("\r\r");
    let buf = frame + mark + rest;
    let n: int = frame.len() as int;
    assert(buf.subrange(n, n + mark.len()) =~= mark);
    assert(crate::text::stands_at(buf, mark, n));
    crate::text::lemma_find_from(buf, long, 0);
    crate::text::lemma_find_from(buf, feed, 0);
    crate::text::lemma_find_from(buf, back, 0);
    if mark == feed {
        if crate::text::stands_at(buf, long, n) {
            assert(buf.subrange(n, n + 4)[0] == buf[n]);
            assert(buf[n] == feed[0]);
        }
    }
    if mark == back {
        if crate::text::stands_at(buf, long, n) {
            assert(buf.subrange(n, n + 4)[1] == buf[n + 1]);
            assert(buf[n + 1] == back[1]);
        }
        if crate::text::stands_at(buf, feed, n) {
            assert(buf.subrange(n, n + 2)[0] == buf[n]);
            assert(buf[n] == back[0]);
        }
    }
    if mark == long {
        if crate::text::stands_at(buf, feed, n) {
            assert(buf.subrange(n, n + 2)[0] == buf[n]);
            assert(buf[n] == long[0]);
        }
        if crate::text::stands_at(buf, back, n) {
            assert(buf.subrange(n, n + 2)[1] == buf[n + 1]);
            assert(buf[n + 1] == long[1]);
        }
    }
    lemma_found(buf, mark, n);
    assert(boundary(buf) == Some((n, n + mark.len())));
    assert(buf.take(n) =~= frame);
    assert(buf.skip(n + mark.len()) =~= rest);
}

} // verus!
