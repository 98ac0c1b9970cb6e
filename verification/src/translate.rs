//! Translation between the two chat dialects: OpenAI requests become Anthropic
//! requests on the way up, Anthropic responses become OpenAI responses on the
//! way down.

use crate::clock::unix_seconds;
use crate::json::{
    copy_not_null, copy_or_null, floor_double, is_positive, parse, text_or_blank, Json,
    Tree,
};
use crate::models::{
    ceiling_of, clamp_glm53_budget_to_model, glm53_thinking_budget, is_glm53_model,
    is_reasoning_model, normalize_glm53_effort, resolve_default_max_tokens,
    GLM53_MIN_THINKING_BUDGET,
};
use crate::text::{
    after_prefix, before_suffix, begins, is_blank, is_empty, is_some_text, joined, split_at_first,
};
use vstd::prelude::*;

verus! {

// ---------------------------------------------------------------------------
// Message contents
// ---------------------------------------------------------------------------

/// Whether a document's member `type` is the given text.
pub open spec fn is_type(t: Tree, kind: Seq<char>) -> bool {
    t.text_at("type"@) == Some(kind)
}

/// Whether a message has the given role.
pub open spec fn is_role(t: Tree, role: Seq<char>) -> bool {
    t.text_at("role"@) == Some(role)
}

/// The texts under `key` of the parts of type `kind`, one after the other.
pub open spec fn gathered(
    parts: Seq<Tree>,
    kind: Seq<char>,
    key: Seq<char>,
) -> Seq<char>
    decreases parts.len(),
{
    if parts.len() == 0 {
        Seq::empty()
    } else if is_type(parts.last(), kind) {
        gathered(parts.drop_last(), kind, key) + crate::json::or_blank(parts.last().text_at(key))
    } else {
        gathered(parts.drop_last(), kind, key)
    }
}

/// The text of a message's content, which is a text or a list of parts.
pub open spec fn message_text(msg: Tree) -> Seq<char> {
    match msg.field("content"@) {
        Some(Tree::Text(s)) => s,
        Some(Tree::Array(parts)) => gathered(parts, "text"@, "text"@),
        _ => Seq::empty(),
    }
}

/// Media type and payload of a base64 `data:` URL, neither of them empty.
pub open spec fn data_url(url: Seq<char>) -> Option<(Seq<char>, Seq<char>)> {
    match crate::text::strip_prefix(url, "data:"@) {
        None => None,
        Some(rest) => match crate::text::split_once(rest, ","@) {
            None => None,
            Some(parts) => match crate::text::strip_suffix(parts.0, ";base64"@) {
                None => None,
                Some(media) => if media.len() == 0 || parts.1.len() == 0 {
                    None
                } else {
                    Some((media, parts.1))
                },
            },
        },
    }
}

/// A text block.
pub open spec fn text_block(s: Seq<char>) -> Tree {
    crate::json::empty_tree().with("type"@, Tree::Text("text"@)).with(
        "text"@,
        Tree::Text(s),
    )
}

/// An image block.
pub open spec fn image_block(source: Tree) -> Tree {
    crate::json::empty_tree().with("type"@, Tree::Text("image"@)).with(
        "source"@,
        source,
    )
}

/// The block for an image URL: a base64 source for a `data:` URL, a URL source
/// for an HTTP URL, and the URL as a text for any other.
pub open spec fn image_url_block(url: Seq<char>) -> Tree {
    match data_url(url) {
        Some(parts) => image_block(
            crate::json::empty_tree().with("type"@, Tree::Text("base64"@)).with(
                "media_type"@,
                Tree::Text(parts.0),
            ).with("data"@, Tree::Text(parts.1)),
        ),
        None => if "http://"@.is_prefix_of(url) || "https://"@.is_prefix_of(url) {
            image_block(
                crate::json::empty_tree().with("type"@, Tree::Text("url"@)).with(
                    "url"@,
                    Tree::Text(url),
                ),
            )
        } else {
            text_block(url)
        },
    }
}

/// The block for a content part.
pub open spec fn part_block(part: Tree) -> Tree {
    if is_type(part, "text"@) {
        text_block(crate::json::or_blank(part.text_at("text"@)))
    } else if is_type(part, "image_url"@) {
        let url = crate::json::or_blank(part.text_in("image_url"@, "url"@));
        if url.len() == 0 {
            text_block(Seq::empty())
        } else {
            image_url_block(url)
        }
    } else {
        text_block(Seq::empty())
    }
}

/// The blocks for a list of content parts.
pub open spec fn part_blocks(parts: Seq<Tree>) -> Seq<Tree> {
    parts.map_values(|p: Tree| part_block(p))
}

/// A message's content in the upstream's shape: a text stays a text, parts
/// become blocks, anything else is the empty text.
pub open spec fn content_tree(msg: Tree) -> Tree {
    match msg.field("content"@) {
        Some(Tree::Text(s)) => Tree::Text(s),
        Some(Tree::Array(parts)) => Tree::Array(part_blocks(parts)),
        _ => Tree::Text(Seq::empty()),
    }
}

/// The input of a tool call: the arguments read as a JSON object, or the empty
/// object where they are blank or anything else.
pub open spec fn tool_input(arguments: Option<Seq<char>>) -> Tree {
    match arguments {
        Some(raw) => if crate::text::trim(raw).len() == 0 {
            crate::json::empty_tree()
        } else {
            match crate::json::parsed(raw) {
                Some(Tree::Object(members)) => Tree::Object(members),
                _ => crate::json::empty_tree(),
            }
        },
        None => crate::json::empty_tree(),
    }
}

/// Whether every part is a text part.
pub open spec fn all_text(parts: Seq<Tree>) -> bool {
    forall|i: int| 0 <= i < parts.len() ==> is_type(#[trigger] parts[i], "text"@)
}

/// The content of a tool result: text parts are joined into one text.
pub open spec fn tool_result_tree(msg: Tree) -> Tree {
    match msg.field("content"@) {
        Some(Tree::Text(s)) => Tree::Text(s),
        Some(Tree::Array(parts)) => if all_text(parts) {
            Tree::Text(gathered(parts, "text"@, "text"@))
        } else {
            Tree::Array(part_blocks(parts))
        },
        _ => Tree::Text(Seq::empty()),
    }
}

/// The block for a tool call of an assistant message.
pub open spec fn tool_use_block(call: Tree) -> Tree {
    crate::json::empty_tree().with("type"@, Tree::Text("tool_use"@)).with(
        "id"@,
        crate::json::or_null(call.field("id"@)),
    ).with("name"@, crate::json::or_null(call.field_in("function"@, "name"@))).with(
        "input"@,
        tool_input(call.text_in("function"@, "arguments"@)),
    )
}

/// The blocks for a list of tool calls.
pub open spec fn tool_use_blocks(calls: Seq<Tree>) -> Seq<Tree> {
    calls.map_values(|c: Tree| tool_use_block(c))
}

/// A message of the upstream's dialect.
pub open spec fn message(role: Seq<char>, content: Tree) -> Tree {
    crate::json::empty_tree().with("role"@, Tree::Text(role)).with("content"@, content)
}

/// A message of the client in the upstream's dialect. An assistant message
/// with tool calls becomes its text, if any, followed by the calls.
pub open spec fn message_tree(msg: Tree) -> Tree {
    let calls = msg.items_at("tool_calls"@);
    if is_role(msg, "assistant"@) {
        if calls matches Some(c) && c.len() > 0 {
            let text = message_text(msg);
            let lead = if text.len() > 0 {
                seq![text_block(text)]
            } else {
                Seq::empty()
            };
            message("assistant"@, Tree::Array(lead + tool_use_blocks(calls->0)))
        } else {
            message("assistant"@, content_tree(msg))
        }
    } else {
        message("user"@, content_tree(msg))
    }
}

/// Whether a message begins a run of tool results.
pub open spec fn begins_run(msg: Tree) -> bool {
    is_role(msg, "tool"@) && (msg.text_at("tool_call_id"@) matches Some(id) && id.len() > 0)
}

/// Whether a message continues a run of tool results.
pub open spec fn continues_run(msg: Tree) -> bool {
    is_role(msg, "tool"@) && msg.text_at("tool_call_id"@) is Some
}

/// Where the run of tool results that stands at `at` ends.
pub open spec fn run_end(messages: Seq<Tree>, at: int) -> int
    decreases messages.len() - at,
{
    if 0 <= at < messages.len() && continues_run(messages[at]) {
        run_end(messages, at + 1)
    } else {
        at
    }
}

/// The block for a tool result.
pub open spec fn tool_result_block(msg: Tree) -> Tree {
    crate::json::empty_tree().with("type"@, Tree::Text("tool_result"@)).with(
        "tool_use_id"@,
        Tree::Text(crate::json::or_blank(msg.text_at("tool_call_id"@))),
    ).with("content"@, tool_result_tree(msg))
}

/// The blocks for a run of tool results.
pub open spec fn tool_result_blocks(run: Seq<Tree>) -> Seq<Tree> {
    run.map_values(|m: Tree| tool_result_block(m))
}

/// The messages from `at` on in the upstream's dialect, each run of tool
/// results as one user message.
pub open spec fn coalesced_from(messages: Seq<Tree>, at: int) -> Seq<Tree>
    decreases messages.len() - at,
{
    if at < 0 || at >= messages.len() {
        Seq::empty()
    } else if begins_run(messages[at]) {
        let end = run_end(messages, at);
        if at < end <= messages.len() {
            seq![
                message(
                    "user"@,
                    Tree::Array(tool_result_blocks(messages.subrange(at, end))),
                ),
            ] + coalesced_from(messages, end)
        } else {
            Seq::empty()
        }
    } else {
        seq![message_tree(messages[at])] + coalesced_from(messages, at + 1)
    }
}

/// The messages in the upstream's dialect.
pub open spec fn coalesced(messages: Seq<Tree>) -> Seq<Tree> {
    coalesced_from(messages, 0)
}

proof fn lemma_run_end(messages: Seq<Tree>, at: int)
    requires
        0 <= at <= messages.len(),
    ensures
        at <= run_end(messages, at) <= messages.len(),
        forall|i: int| at <= i < run_end(messages, at) ==> continues_run(#[trigger] messages[i]),
    decreases messages.len() - at,
{
    if at < messages.len() && continues_run(messages[at]) {
        lemma_run_end(messages, at + 1);
    }
}

/// The texts under `key` of the parts of type `kind`, one after the other.
pub fn gather_text(parts: &Vec<Json>, kind: &str, key: &str) -> (r: String)
    ensures
        r@ == gathered(crate::json::trees(parts@), kind@, key@),
{
    let mut out: String = String::new();
    let mut i: usize = 0;
    let ghost all = crate::json::trees(parts@);
    assert(out@ =~= gathered(all.take(0), kind@, key@));
    while i < parts.len()
        invariant
            i <= parts@.len(),
            all == crate::json::trees(parts@),
            out@ == gathered(all.take(i as int), kind@, key@),
        decreases parts@.len() - i,
    {
        let part = &parts[i];
        assert(all.take(i + 1).drop_last() == all.take(i as int));
        assert(all.take(i + 1).last() == part@);
        if part.is_text_at("type", kind) {
            if let Some(text) = part.str_at(key) {
                out.append(text);
            } else {
                assert(out@ + Seq::<char>::empty() =~= out@);
            }
        }
        i += 1;
    }
    assert(all.take(parts@.len() as int) == all);
    out
}

/// The text of a message's content.
fn extract_text(msg: &Json) -> (r: String)
    ensures
        r@ == message_text(msg@),
{
    match msg.get("content") {
        Some(content) => {
            if let Some(s) = content.as_str() {
                return s.to_owned();
            }
            if let Some(parts) = content.as_items() {
                return gather_text(parts, "text", "text");
            }
            let r = String::new();
            assert(r@ =~= Seq::<char>::empty());
            r
        },
        None => {
            let r = String::new();
            assert(r@ =~= Seq::<char>::empty());
            r
        },
    }
}

/// Media type and payload of a base64 `data:` URL.
fn parse_data_url(url: &str) -> (r: Option<(String, String)>)
    ensures
        match r {
            Some(parts) => data_url(url@) == Some((parts.0@, parts.1@)),
            None => data_url(url@) is None,
        },
{
    let rest = match after_prefix(url, "data:") {
        Some(rest) => rest,
        None => {
            return None;
        },
    };
    let (meta, data) = match split_at_first(rest.as_str(), ",") {
        Some(parts) => parts,
        None => {
            return None;
        },
    };
    match before_suffix(meta.as_str(), ";base64") {
        Some(media) => if is_empty(media.as_str()) || is_empty(data.as_str()) {
            None
        } else {
            Some((media, data))
        },
        None => None,
    }
}

/// A text block.
pub fn make_text_block(s: &str) -> (r: Json)
    ensures
        r@ == text_block(s@),
{
    Json::object().with("type", Json::text("text")).with("text", Json::text(s))
}

/// The block for an image URL.
fn image_url_to_anthropic_block(url: &str) -> (r: Json)
    ensures
        r@ == image_url_block(url@),
{
    if let Some((media_type, data)) = parse_data_url(url) {
        let source = Json::object().with("type", Json::text("base64")).with(
            "media_type",
            Json::Text(media_type),
        ).with("data", Json::Text(data));
        return Json::object().with("type", Json::text("image")).with("source", source);
    }
    if begins(url, "http://") || begins(url, "https://") {
        let source = Json::object().with("type", Json::text("url")).with("url", Json::text(url));
        return Json::object().with("type", Json::text("image")).with("source", source);
    }
    make_text_block(url)
}

/// The block for a content part.
fn content_part_to_anthropic(part: &Json) -> (r: Json)
    ensures
        r@ == part_block(part@),
{
    proof {
        reveal_strlit("");
        assert(""@ =~= Seq::<char>::empty());
        reveal_strlit("text");
        reveal_strlit("image_url");
        assert("text"@.len() != "image_url"@.len());
    }
    if part.is_text_at("type", "text") {
        let text = text_or_blank(part.str_at("text"));
        make_text_block(text.as_str())
    } else if part.is_text_at("type", "image_url") {
        let url = text_or_blank(part.str_in("image_url", "url"));
        if is_empty(url.as_str()) {
            make_text_block("")
        } else {
            image_url_to_anthropic_block(url.as_str())
        }
    } else {
        make_text_block("")
    }
}

/// The blocks for a list of content parts.
fn content_parts_to_anthropic(parts: &Vec<Json>) -> (r: Json)
    ensures
        r@ == Tree::Array(part_blocks(crate::json::trees(parts@))),
{
    let mut out: Vec<Json> = Vec::new();
    let mut i: usize = 0;
    while i < parts.len()
        invariant
            i <= parts@.len(),
            out@.len() == i,
            forall|k: int| 0 <= k < i ==> (#[trigger] out@[k])@ == part_block(parts@[k]@),
        decreases parts@.len() - i,
    {
        out.push(content_part_to_anthropic(&parts[i]));
        i += 1;
    }
    assert(crate::json::trees(out@) =~= part_blocks(crate::json::trees(parts@)));
    Json::array(out)
}

/// The empty text.
fn blank() -> (r: Json)
    ensures
        r@ == Tree::Text(Seq::empty()),
{
    let s = String::new();
    assert(s@ =~= Seq::<char>::empty());
    Json::Text(s)
}

/// A message's content in the upstream's shape.
fn translate_content_openai_to_anthropic(msg: &Json) -> (r: Json)
    ensures
        r@ == content_tree(msg@),
{
    match msg.get("content") {
        Some(content) => {
            if let Some(s) = content.as_str() {
                return Json::text(s);
            }
            if let Some(parts) = content.as_items() {
                return content_parts_to_anthropic(parts);
            }
            blank()
        },
        None => blank(),
    }
}

/// The input of a tool call.
fn parse_tool_arguments(raw: Option<&str>) -> (r: Json)
    ensures
        r@ == tool_input(crate::text::seen_str(raw)),
{
    match raw {
        Some(raw) => {
            if is_blank(raw) {
                return Json::object();
            }
            match parse(raw) {
                Some(v) => if v.is_object() {
                    v
                } else {
                    Json::object()
                },
                None => Json::object(),
            }
        },
        None => Json::object(),
    }
}

/// Whether every part is a text part.
fn are_all_text(parts: &Vec<Json>) -> (r: bool)
    ensures
        r == all_text(crate::json::trees(parts@)),
{
    let ghost all = crate::json::trees(parts@);
    let mut i: usize = 0;
    while i < parts.len()
        invariant
            i <= parts@.len(),
            all == crate::json::trees(parts@),
            forall|k: int| 0 <= k < i ==> is_type(#[trigger] all[k], "text"@),
        decreases parts@.len() - i,
    {
        assert(all[i as int] == parts@[i as int]@);
        if !parts[i].is_text_at("type", "text") {
            return false;
        }
        i += 1;
    }
    true
}

/// The content of a tool result.
fn tool_result_content(msg: &Json) -> (r: Json)
    ensures
        r@ == tool_result_tree(msg@),
{
    match msg.get("content") {
        Some(content) => {
            if let Some(s) = content.as_str() {
                return Json::text(s);
            }
            if let Some(parts) = content.as_items() {
                if are_all_text(parts) {
                    return Json::Text(gather_text(parts, "text", "text"));
                }
                return content_parts_to_anthropic(parts);
            }
            blank()
        },
        None => blank(),
    }
}

/// The block for a tool call.
fn tool_call_to_anthropic(call: &Json) -> (r: Json)
    ensures
        r@ == tool_use_block(call@),
{
    Json::object().with("type", Json::text("tool_use")).with(
        "id",
        copy_or_null(call.get("id")),
    ).with("name", copy_or_null(call.get_in("function", "name"))).with(
        "input",
        parse_tool_arguments(call.str_in("function", "arguments")),
    )
}

/// A message of the client in the upstream's dialect.
fn translate_message_openai_to_anthropic(msg: &Json) -> (r: Json)
    ensures
        r@ == message_tree(msg@),
{
    let assistant = msg.is_text_at("role", "assistant");
    if assistant {
        if let Some(calls) = msg.items_at("tool_calls") {
            if calls.len() > 0 {
                let mut blocks: Vec<Json> = Vec::new();
                let text = extract_text(msg);
                let ghost lead = if text@.len() > 0 {
                    seq![text_block(text@)]
                } else {
                    Seq::empty()
                };
                if !is_empty(text.as_str()) {
                    blocks.push(make_text_block(text.as_str()));
                }
                assert(crate::json::trees(blocks@) =~= lead);
                let ghost n = blocks@.len();
                let mut i: usize = 0;
                while i < calls.len()
                    invariant
                        i <= calls@.len(),
                        n == lead.len(),
                        blocks@.len() == n + i,
                        forall|k: int| 0 <= k < n ==> (#[trigger] blocks@[k])@ == lead[k],
                        forall|k: int|
                            n <= k < n + i ==> (#[trigger] blocks@[k])@ == tool_use_block(
                                calls@[k - n]@,
                            ),
                    decreases calls@.len() - i,
                {
                    blocks.push(tool_call_to_anthropic(&calls[i]));
                    i += 1;
                }
                assert(crate::json::trees(blocks@) =~= lead + tool_use_blocks(
                    crate::json::trees(calls@),
                ));
                return Json::object().with("role", Json::text("assistant")).with(
                    "content",
                    Json::array(blocks),
                );
            }
        }
    }
    let role: &str = if assistant {
        "assistant"
    } else {
        "user"
    };
    Json::object().with("role", Json::text(role)).with(
        "content",
        translate_content_openai_to_anthropic(msg),
    )
}

/// The messages in the upstream's dialect, each run of tool results as one
/// user message.
fn translate_messages_with_tool_coalescing(messages: &Vec<Json>) -> (r: Vec<Json>)
    ensures
        crate::json::trees(r@) == coalesced(crate::json::trees(messages@)),
{
    let ghost all = crate::json::trees(messages@);
    let mut out: Vec<Json> = Vec::new();
    let mut i: usize = 0;
    assert(crate::json::trees(out@) + coalesced(all) =~= coalesced(all));
    while i < messages.len()
        invariant
            i <= messages@.len(),
            all == crate::json::trees(messages@),
            crate::json::trees(out@) + coalesced_from(all, i as int) == coalesced(all),
        decreases messages@.len() - i,
    {
        let m = &messages[i];
        let ghost start = i as int;
        let ghost before = out@;
        assert(all[i as int] == m@);
        let id = text_or_blank(m.str_at("tool_call_id"));
        if m.is_text_at("role", "tool") && !is_empty(id.as_str()) {
            proof {
                lemma_run_end(all, start);
                lemma_run_end(all, start + 1);
                assert(continues_run(all[start]));
            }
            let mut results: Vec<Json> = Vec::new();
            while i < messages.len()
                invariant_except_break
                    results@.len() == i - start,
                invariant
                    0 <= start <= i <= messages@.len(),
                    all == crate::json::trees(messages@),
                    run_end(all, start) == run_end(all, i as int),
                    results@.len() == i - start,
                    forall|k: int|
                        0 <= k < results@.len() ==> (#[trigger] results@[k])@ == tool_result_block(
                            all[start + k],
                        ),
                ensures
                    i == run_end(all, start),
                decreases messages@.len() - i,
            {
                let tool = &messages[i];
                assert(all[i as int] == tool@);
                match tool.str_at("tool_call_id") {
                    Some(tool_call_id) => {
                        if !tool.is_text_at("role", "tool") {
                            break;
                        }
                        results.push(
                            Json::object().with("type", Json::text("tool_result")).with(
                                "tool_use_id",
                                Json::text(tool_call_id),
                            ).with("content", tool_result_content(tool)),
                        );
                        i += 1;
                    },
                    None => {
                        break;
                    },
                }
            }
            assert(crate::json::trees(results@) =~= tool_result_blocks(
                all.subrange(start, i as int),
            ));
            let made = Json::object().with("role", Json::text("user")).with(
                "content",
                Json::array(results),
            );
            out.push(made);
            assert(crate::json::trees(out@) =~= crate::json::trees(before).push(made@));
            assert(crate::json::trees(before) + (seq![made@] + coalesced_from(all, i as int))
                =~= crate::json::trees(out@) + coalesced_from(all, i as int));
        } else {
            let made = translate_message_openai_to_anthropic(m);
            out.push(made);
            assert(crate::json::trees(out@) =~= crate::json::trees(before).push(made@));
            assert(crate::json::trees(before) + (seq![made@] + coalesced_from(all, i + 1))
                =~= crate::json::trees(out@) + coalesced_from(all, i + 1));
            i += 1;
        }
    }
    assert(crate::json::trees(out@) + Seq::<Tree>::empty() =~= crate::json::trees(out@));
    out
}

// ---------------------------------------------------------------------------
// Reasoning
// ---------------------------------------------------------------------------

/// The `tool_choice` of the upstream's dialect.
pub open spec fn tool_choice_tree(choice: Tree) -> Option<Tree> {
    match choice {
        Tree::Text(s) => if s == "auto"@ {
            Some(crate::json::empty_tree().with("type"@, Tree::Text("auto"@)))
        } else if s == "required"@ {
            Some(crate::json::empty_tree().with("type"@, Tree::Text("any"@)))
        } else {
            None
        },
        Tree::Object(_) => if is_type(choice, "function"@) {
            Some(
                crate::json::empty_tree().with("type"@, Tree::Text("tool"@)).with(
                    "name"@,
                    crate::json::or_null(choice.field_in("function"@, "name"@)),
                ),
            )
        } else {
            None
        },
        _ => None,
    }
}

/// The budget of a thinking configuration, under either of its names.
pub open spec fn budget_field(thinking: Tree) -> Option<Tree> {
    match thinking.field("budget_tokens"@) {
        Some(v) => Some(v),
        None => thinking.field("budgetTokens"@),
    }
}

/// A thinking configuration that switches thinking off.
pub open spec fn thinking_disabled() -> Tree {
    crate::json::empty_tree().with("type"@, Tree::Text("disabled"@))
}

/// A thinking configuration that switches thinking on.
pub open spec fn thinking_enabled(budget: u64) -> Tree {
    crate::json::empty_tree().with("type"@, Tree::Text("enabled"@)).with(
        "budget_tokens"@,
        crate::json::count_tree(budget),
    )
}

/// Whether a type of thinking configuration switches thinking on.
pub open spec fn switches_on(kind: Option<Seq<char>>) -> bool {
    kind == Some("enabled"@) || kind == Some("adaptive"@)
}

/// The thinking configuration that a request spells out.
pub open spec fn explicit_thinking(req: Tree) -> Option<Tree> {
    match req.field("thinking"@) {
        None => None,
        Some(explicit) => {
            let kind = explicit.text_at("type"@);
            if kind == Some("disabled"@) {
                Some(thinking_disabled())
            } else if switches_on(kind) {
                let budget = match budget_field(explicit) {
                    Some(v) => v.count(),
                    None => None,
                };
                let typed = crate::json::empty_tree().with("type"@, Tree::Text(kind->0));
                let sized = if budget matches Some(b) && b > 0 {
                    typed.with("budget_tokens"@, crate::json::count_tree(budget->0))
                } else {
                    typed
                };
                if kind == Some("adaptive"@) {
                    Some(
                        sized.with_some(
                            "display"@,
                            match explicit.flag_at("display"@) {
                                Some(b) => Some(Tree::Bool(b)),
                                None => None,
                            },
                        ),
                    )
                } else {
                    Some(sized)
                }
            } else {
                None
            }
        },
    }
}

/// The thinking configuration for a model outside the GLM-5.3 family: the
/// explicit one, else off for the effort `none`, else the default budget for a
/// model that reasons.
pub open spec fn plain_thinking(req: Tree, model: Seq<char>) -> Option<Tree> {
    match explicit_thinking(req) {
        Some(explicit) => Some(explicit),
        None => if req.text_at("reasoning_effort"@) == Some("none"@) {
            Some(thinking_disabled())
        } else if crate::models::reasons(model) {
            Some(thinking_enabled(GLM53_MIN_THINKING_BUDGET))
        } else {
            None
        },
    }
}

/// The budget that a GLM-5.3 request asks for: the explicit one rounded down
/// where that is positive, else the one of the effort.
pub open spec fn glm53_budget(req: Tree) -> u64 {
    let standard = crate::models::effort_budget(
        crate::models::effort_of(req.text_at("reasoning_effort"@)),
    );
    if switches_on(req.text_in("thinking"@, "type"@)) {
        match budget_field(crate::json::or_null(req.field("thinking"@))) {
            Some(Tree::Number(n)) => if crate::json::number_floor(n) > 0 {
                crate::json::number_floor(n)
            } else {
                standard
            },
            _ => standard,
        }
    } else {
        standard
    }
}

/// Thinking configuration and output configuration of a GLM-5.3 request.
pub open spec fn glm53_reasoning(req: Tree, model: Seq<char>) -> (Tree, Option<Tree>) {
    if req.text_in("thinking"@, "type"@) == Some("disabled"@) {
        (thinking_disabled(), None)
    } else {
        let effort = crate::models::effort_of(req.text_at("reasoning_effort"@));
        (
            thinking_enabled(
                crate::models::fitted_budget(
                    glm53_budget(req),
                    crate::models::catalog_ceiling(model),
                ),
            ),
            Some(
                crate::json::empty_tree().with(
                    "effort"@,
                    Tree::Text(crate::models::effort_text(effort)),
                ),
            ),
        )
    }
}

/// Whether thinking is on in a request to the upstream.
pub open spec fn thinks(t: Tree) -> bool {
    switches_on(t.text_in("thinking"@, "type"@))
}

/// The thinking budget of a request to the upstream, where it is a positive
/// number.
pub open spec fn usable_budget(t: Tree) -> Option<u64> {
    match t.field_in("thinking"@, "budget_tokens"@) {
        Some(Tree::Number(n)) => if crate::json::number_positive(n) {
            Some(crate::json::number_floor(n))
        } else {
            None
        },
        _ => None,
    }
}

/// Output tokens with the thinking budget added, up to the ceiling.
pub open spec fn raised_max(max_tokens: u64, budget: u64, ceiling: Option<u64>) -> u64 {
    let sum = if max_tokens + budget > u64::MAX {
        u64::MAX
    } else {
        (max_tokens + budget) as u64
    };
    match ceiling {
        Some(max) => if sum < max {
            sum
        } else {
            max
        },
        None => sum,
    }
}

/// A request made fit for the upstream. With thinking on, the sampling
/// parameters go, a budget that is missing or unusable becomes the default
/// one, and the budget is added to the output tokens. With thinking off,
/// `top_p` goes where `temperature` stands beside it.
pub open spec fn compatible(t: Tree) -> Tree {
    if thinks(t) {
        let sized = match usable_budget(t) {
            Some(_) => t,
            None => t.with(
                "thinking"@,
                crate::json::or_null(t.field("thinking"@)).with(
                    "budget_tokens"@,
                    crate::json::count_tree(GLM53_MIN_THINKING_BUDGET),
                ),
            ),
        };
        let budget = match usable_budget(t) {
            Some(b) => b,
            None => GLM53_MIN_THINKING_BUDGET,
        };
        let bare = sized.without("temperature"@).without("top_k"@).without("top_p"@);
        bare.with(
            "max_tokens"@,
            crate::json::count_tree(
                raised_max(
                    crate::json::or_zero(bare.count_at("max_tokens"@)),
                    budget,
                    crate::models::catalog_ceiling(
                        crate::json::or_blank(bare.text_at("model"@)),
                    ),
                ),
            ),
        )
    } else if t.field("temperature"@) is Some && t.field("top_p"@) is Some {
        t.without("top_p"@)
    } else {
        t
    }
}

/// The `tool_choice` of the upstream's dialect.
fn translate_tool_choice(choice: &Json) -> (r: Option<Json>)
    ensures
        crate::json::seen_own(r) == tool_choice_tree(choice@),
{
    if let Some(s) = choice.as_str() {
        if crate::text::same(s, "auto") {
            return Some(Json::object().with("type", Json::text("auto")));
        }
        if crate::text::same(s, "required") {
            return Some(Json::object().with("type", Json::text("any")));
        }
        return None;
    }
    if choice.is_object() && choice.is_text_at("type", "function") {
        return Some(
            Json::object().with("type", Json::text("tool")).with(
                "name",
                copy_or_null(choice.get_in("function", "name")),
            ),
        );
    }
    None
}

/// The budget of a thinking configuration, under either of its names.
fn find_budget(thinking: &Json) -> (r: Option<&Json>)
    ensures
        crate::json::seen(r) == budget_field(thinking@),
{
    match thinking.get("budget_tokens") {
        Some(v) => Some(v),
        None => thinking.get("budgetTokens"),
    }
}

/// Whether a type of thinking configuration switches thinking on.
fn does_switch_on(kind: Option<&str>) -> (r: bool)
    ensures
        r == switches_on(crate::text::seen_str(kind)),
{
    is_some_text(kind, "enabled") || is_some_text(kind, "adaptive")
}

/// A thinking configuration that switches thinking off.
fn make_disabled() -> (r: Json)
    ensures
        r@ == thinking_disabled(),
{
    Json::object().with("type", Json::text("disabled"))
}

/// A thinking configuration that switches thinking on.
fn make_enabled(budget: u64) -> (r: Json)
    ensures
        r@ == thinking_enabled(budget),
{
    Json::object().with("type", Json::text("enabled")).with("budget_tokens", Json::count(budget))
}

/// The thinking configuration that a request spells out.
fn explicit_thinking_config(req: &Json) -> (r: Option<Json>)
    ensures
        crate::json::seen_own(r) == explicit_thinking(req@),
{
    let explicit = match req.get("thinking") {
        Some(explicit) => explicit,
        None => {
            return None;
        },
    };
    let kind = explicit.str_at("type");
    if is_some_text(kind, "disabled") {
        return Some(make_disabled());
    }
    if !does_switch_on(kind) {
        return None;
    }
    let name = text_or_blank(kind);
    let mut out = Json::object().with("type", Json::Text(name));
    let budget: Option<u64> = match find_budget(explicit) {
        Some(v) => v.as_u64(),
        None => None,
    };
    if let Some(b) = budget {
        if b > 0 {
            out = out.with("budget_tokens", Json::count(b));
        }
    }
    if is_some_text(kind, "adaptive") {
        if let Some(display) = explicit.bool_at("display") {
            out = out.with("display", Json::Bool(display));
        }
    }
    Some(out)
}

/// The thinking configuration for a model outside the GLM-5.3 family.
fn translate_thinking(req: &Json, model: &str) -> (r: Option<Json>)
    ensures
        crate::json::seen_own(r) == plain_thinking(req@, model@),
{
    if let Some(explicit) = explicit_thinking_config(req) {
        return Some(explicit);
    }
    if req.is_text_at("reasoning_effort", "none") {
        return Some(make_disabled());
    }
    if is_reasoning_model(model) {
        return Some(make_enabled(GLM53_MIN_THINKING_BUDGET));
    }
    None
}

/// The budget that a GLM-5.3 request asks for.
fn requested_glm53_budget(req: &Json) -> (r: u64)
    ensures
        r == glm53_budget(req@),
{
    let standard: u64 = glm53_thinking_budget(
        normalize_glm53_effort(req.str_at("reasoning_effort")),
    );
    if let Some(explicit) = req.get("thinking") {
        if does_switch_on(explicit.str_at("type")) {
            if let Some(budget) = find_budget(explicit) {
                if let Some(bits) = budget.as_double() {
                    let floored: u64 = floor_double(bits);
                    if floored > 0 {
                        return floored;
                    }
                }
            }
        }
    }
    standard
}

/// Thinking configuration and output configuration of a GLM-5.3 request.
fn translate_glm53_reasoning(req: &Json, model: &str) -> (r: (Json, Option<Json>))
    ensures
        (r.0@, crate::json::seen_own(r.1)) == glm53_reasoning(req@, model@),
{
    if is_some_text(req.str_in("thinking", "type"), "disabled") {
        return (make_disabled(), None);
    }
    let effort = normalize_glm53_effort(req.str_at("reasoning_effort"));
    let budget: u64 = requested_glm53_budget(req);
    let fitted: u64 = clamp_glm53_budget_to_model(budget, ceiling_of(model));
    (
        make_enabled(fitted),
        Some(Json::object().with("effort", Json::text(effort.as_str()))),
    )
}

/// The thinking budget of a request to the upstream, where it is usable.
fn find_usable_budget(result: &Json) -> (r: Option<u64>)
    ensures
        r == usable_budget(result@),
{
    match result.get_in("thinking", "budget_tokens") {
        Some(v) => match v.as_double() {
            Some(bits) => if is_positive(bits) {
                Some(floor_double(bits))
            } else {
                None
            },
            None => None,
        },
        None => None,
    }
}

/// Makes a request fit for the upstream's rules on thinking.
pub fn apply_anthropic_thinking_compat(result: Json) -> (r: Json)
    ensures
        r@ == compatible(result@),
{
    if !does_switch_on(result.str_in("thinking", "type")) {
        if result.get("temperature").is_some() && result.get("top_p").is_some() {
            return result.without("top_p");
        }
        return result;
    }
    let usable: Option<u64> = find_usable_budget(&result);
    let mut sized = result;
    let budget: u64 = match usable {
        Some(b) => b,
        None => {
            let thinking = copy_or_null(sized.get("thinking")).with(
                "budget_tokens",
                Json::count(GLM53_MIN_THINKING_BUDGET),
            );
            sized = sized.with("thinking", thinking);
            GLM53_MIN_THINKING_BUDGET
        },
    };
    let bare = sized.without("temperature").without("top_k").without("top_p");
    let model = text_or_blank(bare.str_at("model"));
    let max_tokens: u64 = match bare.u64_at("max_tokens") {
        Some(n) => n,
        None => 0,
    };
    let sum: u64 = if max_tokens > u64::MAX - budget {
        u64::MAX
    } else {
        max_tokens + budget
    };
    let raised: u64 = match ceiling_of(model.as_str()) {
        Some(max) => if sum < max {
            sum
        } else {
            max
        },
        None => sum,
    };
    bare.with("max_tokens", Json::count(raised))
}

// ---------------------------------------------------------------------------
// Requests
// ---------------------------------------------------------------------------

/// The texts of the system messages that have any.
pub open spec fn system_texts(messages: Seq<Tree>) -> Seq<Seq<char>>
    decreases messages.len(),
{
    if messages.len() == 0 {
        Seq::empty()
    } else if is_role(messages.last(), "system"@) && message_text(messages.last()).len() > 0 {
        system_texts(messages.drop_last()).push(message_text(messages.last()))
    } else {
        system_texts(messages.drop_last())
    }
}

/// The messages that are no system messages.
pub open spec fn conversation(messages: Seq<Tree>) -> Seq<Tree>
    decreases messages.len(),
{
    if messages.len() == 0 {
        Seq::empty()
    } else if is_role(messages.last(), "system"@) {
        conversation(messages.drop_last())
    } else {
        conversation(messages.drop_last()).push(messages.last())
    }
}

/// The stop sequences that a client's `stop` stands for.
pub open spec fn stop_tree(stop: Option<Tree>) -> Option<Tree> {
    match stop {
        Some(Tree::Text(s)) => Some(Tree::Array(seq![Tree::Text(s)])),
        Some(Tree::Array(items)) => if items.len() > 0 {
            Some(Tree::Array(items))
        } else {
            None
        },
        _ => None,
    }
}

/// A tool definition in the upstream's dialect.
pub open spec fn tool_tree(tool: Tree) -> Tree {
    crate::json::empty_tree().with(
        "name"@,
        crate::json::or_null(tool.field_in("function"@, "name"@)),
    ).with_some(
        "description"@,
        crate::json::not_null(tool.field_in("function"@, "description"@)),
    ).with_some(
        "input_schema"@,
        crate::json::not_null(tool.field_in("function"@, "parameters"@)),
    )
}

/// Whether a client forbids tools.
pub open spec fn forbids_tools(req: Tree) -> bool {
    req.text_at("tool_choice"@) == Some("none"@)
}

/// The tool definitions in the upstream's dialect.
pub open spec fn tools_tree(req: Tree) -> Option<Tree> {
    match req.items_at("tools"@) {
        Some(tools) => if tools.len() > 0 && !forbids_tools(req) {
            Some(Tree::Array(tools.map_values(|t: Tree| tool_tree(t))))
        } else {
            None
        },
        None => None,
    }
}

/// The choice of tools in the upstream's dialect.
pub open spec fn choice_tree(req: Tree) -> Option<Tree> {
    if forbids_tools(req) {
        None
    } else {
        match req.field("tool_choice"@) {
            Some(choice) => tool_choice_tree(choice),
            None => None,
        }
    }
}

/// The boolean as a document.
pub open spec fn flag_tree(flag: Option<bool>) -> Option<Tree> {
    match flag {
        Some(b) => Some(Tree::Bool(b)),
        None => None,
    }
}

/// What a request says before reasoning and tools: model, messages, limits and
/// sampling.
pub open spec fn request_basis(req: Tree, model: Seq<char>, messages: Seq<Tree>) -> Tree {
    let asked = match req.count_at("max_tokens"@) {
        Some(n) => n,
        None => crate::models::default_max_tokens(model),
    };
    let texts = system_texts(messages);
    crate::json::empty_tree().with("model"@, Tree::Text(model)).with(
        "messages"@,
        Tree::Array(coalesced(conversation(messages))),
    ).with("max_tokens"@, crate::json::count_tree(asked)).with_some(
        "system"@,
        if texts.len() > 0 {
            Some(Tree::Text(crate::text::join(texts, "\n\n"@)))
        } else {
            None
        },
    ).with_some("temperature"@, crate::json::not_null(req.field("temperature"@))).with_some(
        "top_p"@,
        crate::json::not_null(req.field("top_p"@)),
    ).with_some("stream"@, flag_tree(req.flag_at("stream"@))).with_some(
        "stop_sequences"@,
        stop_tree(req.field("stop"@)),
    )
}

/// A request with its reasoning configured for the model.
pub open spec fn reasoned(basis: Tree, req: Tree, model: Seq<char>) -> Tree {
    if crate::models::in_glm53_family(model) {
        let pair = glm53_reasoning(req, model);
        basis.with("thinking"@, pair.0).with_some("output_config"@, pair.1)
    } else {
        basis.with_some("thinking"@, plain_thinking(req, model))
    }
}

/// The request to the upstream for a client's model and messages.
pub open spec fn request_tree(req: Tree, model: Seq<char>, messages: Seq<Tree>) -> Tree {
    compatible(reasoned(request_basis(req, model, messages), req, model)).with_some(
        "tools"@,
        tools_tree(req),
    ).with_some("tool_choice"@, choice_tree(req))
}

/// The request to the upstream for a client's request, or why there is none.
pub open spec fn translated_request(req: Tree) -> Result<Tree, Seq<char>> {
    if !(req is Object) {
        Err("OpenAI request body must be a JSON object"@)
    } else {
        match req.text_at("model"@) {
            None => Err("OpenAI request is missing `model`"@),
            Some(model) => match req.items_at("messages"@) {
                None => Err("OpenAI request is missing `messages`"@),
                Some(messages) => Ok(request_tree(req, model, messages)),
            },
        }
    }
}

/// Whether an outcome is the expected one.
pub open spec fn agrees(r: Result<Json, String>, expected: Result<Tree, Seq<char>>) -> bool {
    match (r, expected) {
        (Ok(json), Ok(tree)) => json@ == tree,
        (Err(e), Err(message)) => e@ == message,
        _ => false,
    }
}

/// The texts of the system messages that have any.
fn collect_system_texts(messages: &Vec<Json>) -> (r: Vec<String>)
    ensures
        crate::text::views(r@) == system_texts(crate::json::trees(messages@)),
{
    let ghost all = crate::json::trees(messages@);
    let mut out: Vec<String> = Vec::new();
    let mut i: usize = 0;
    assert(crate::text::views(out@) =~= system_texts(all.take(0)));
    while i < messages.len()
        invariant
            i <= messages@.len(),
            all == crate::json::trees(messages@),
            crate::text::views(out@) == system_texts(all.take(i as int)),
        decreases messages@.len() - i,
    {
        let m = &messages[i];
        let ghost before = out@;
        assert(all.take(i + 1).drop_last() == all.take(i as int));
        assert(all.take(i + 1).last() == m@);
        if m.is_text_at("role", "system") {
            let text = extract_text(m);
            if !is_empty(text.as_str()) {
                out.push(text);
                assert(crate::text::views(out@) =~= crate::text::views(before).push(text@));
            }
        }
        i += 1;
    }
    assert(all.take(messages@.len() as int) == all);
    out
}

/// The messages that are no system messages.
fn collect_conversation(messages: &Vec<Json>) -> (r: Vec<Json>)
    ensures
        crate::json::trees(r@) == conversation(crate::json::trees(messages@)),
{
    let ghost all = crate::json::trees(messages@);
    let mut out: Vec<Json> = Vec::new();
    let mut i: usize = 0;
    assert(crate::json::trees(out@) =~= conversation(all.take(0)));
    while i < messages.len()
        invariant
            i <= messages@.len(),
            all == crate::json::trees(messages@),
            crate::json::trees(out@) == conversation(all.take(i as int)),
        decreases messages@.len() - i,
    {
        let m = &messages[i];
        let ghost before = out@;
        assert(all.take(i + 1).drop_last() == all.take(i as int));
        assert(all.take(i + 1).last() == m@);
        if !m.is_text_at("role", "system") {
            let copy = m.duplicate();
            out.push(copy);
            assert(crate::json::trees(out@) =~= crate::json::trees(before).push(m@));
        }
        i += 1;
    }
    assert(all.take(messages@.len() as int) == all);
    out
}

/// The stop sequences that a client's `stop` stands for.
fn translate_stop(stop: Option<&Json>) -> (r: Option<Json>)
    ensures
        crate::json::seen_own(r) == stop_tree(crate::json::seen(stop)),
{
    match stop {
        Some(stop) => {
            if let Some(s) = stop.as_str() {
                let one: Vec<Json> = vec![Json::text(s)];
                assert(crate::json::trees(one@) =~= seq![Tree::Text(s@)]);
                return Some(Json::array(one));
            }
            if let Some(items) = stop.as_items() {
                if items.len() > 0 {
                    return Some(stop.duplicate());
                }
            }
            None
        },
        None => None,
    }
}

/// The tool definitions in the upstream's dialect.
fn translate_tools(req: &Json) -> (r: Option<Json>)
    ensures
        crate::json::seen_own(r) == tools_tree(req@),
{
    let tools = match req.items_at("tools") {
        Some(tools) => tools,
        None => {
            return None;
        },
    };
    if tools.len() == 0 || req.is_text_at("tool_choice", "none") {
        return None;
    }
    let mut out: Vec<Json> = Vec::new();
    let mut i: usize = 0;
    while i < tools.len()
        invariant
            i <= tools@.len(),
            out@.len() == i,
            forall|k: int| 0 <= k < i ==> (#[trigger] out@[k])@ == tool_tree(tools@[k]@),
        decreases tools@.len() - i,
    {
        let tool = &tools[i];
        out.push(
            Json::object().with("name", copy_or_null(tool.get_in("function", "name"))).with_some(
                "description",
                copy_not_null(tool.get_in("function", "description")),
            ).with_some("input_schema", copy_not_null(tool.get_in("function", "parameters"))),
        );
        i += 1;
    }
    assert(crate::json::trees(out@) =~= crate::json::trees(tools@).map_values(
        |t: Tree| tool_tree(t),
    ));
    Some(Json::array(out))
}

/// The boolean as a document.
fn make_flag(flag: Option<bool>) -> (r: Option<Json>)
    ensures
        crate::json::seen_own(r) == flag_tree(flag),
{
    match flag {
        Some(b) => Some(Json::Bool(b)),
        None => None,
    }
}

/// What a request says before reasoning and tools.
fn make_request_basis(req: &Json, model: &str, messages: &Vec<Json>) -> (r: Json)
    ensures
        r@ == request_basis(req@, model@, crate::json::trees(messages@)),
{
    let asked: u64 = match req.u64_at("max_tokens") {
        Some(n) => n,
        None => resolve_default_max_tokens(model),
    };
    let talk: Vec<Json> = collect_conversation(messages);
    let texts: Vec<String> = collect_system_texts(messages);
    let system: Option<Json> = if texts.len() > 0 {
        Some(Json::Text(joined(&texts, "\n\n")))
    } else {
        None
    };
    Json::object().with("model", Json::text(model)).with(
        "messages",
        Json::array(translate_messages_with_tool_coalescing(&talk)),
    ).with("max_tokens", Json::count(asked)).with_some("system", system).with_some(
        "temperature",
        copy_not_null(req.get("temperature")),
    ).with_some("top_p", copy_not_null(req.get("top_p"))).with_some(
        "stream",
        make_flag(req.bool_at("stream")),
    ).with_some("stop_sequences", translate_stop(req.get("stop")))
}

/// Translates an OpenAI chat request into an Anthropic messages request.
pub fn translate_request_openai_to_anthropic(req: &Json) -> (r: Result<Json, String>)
    ensures
        agrees(r, translated_request(req@)),
{
    if !req.is_object() {
        return Err("OpenAI request body must be a JSON object".to_owned());
    }
    let model = match req.str_at("model") {
        Some(model) => model,
        None => {
            return Err("OpenAI request is missing `model`".to_owned());
        },
    };
    let messages = match req.items_at("messages") {
        Some(messages) => messages,
        None => {
            return Err("OpenAI request is missing `messages`".to_owned());
        },
    };
    let basis = make_request_basis(req, model, messages);
    let configured = if is_glm53_model(model) {
        let (thinking, output) = translate_glm53_reasoning(req, model);
        basis.with("thinking", thinking).with_some("output_config", output)
    } else {
        basis.with_some("thinking", translate_thinking(req, model))
    };
    let fit = apply_anthropic_thinking_compat(configured);
    let choice: Option<Json> = if req.is_text_at("tool_choice", "none") {
        None
    } else {
        match req.get("tool_choice") {
            Some(choice) => translate_tool_choice(choice),
            None => None,
        }
    };
    Ok(fit.with_some("tools", translate_tools(req)).with_some("tool_choice", choice))
}

// ---------------------------------------------------------------------------
// Responses
// ---------------------------------------------------------------------------

/// The sum of two counts, modulo two to the power of 64.
pub open spec fn wrapped_sum(a: u64, b: u64) -> u64 {
    if a + b > u64::MAX {
        (a + b - 0x1_0000_0000_0000_0000) as u64
    } else {
        (a + b) as u64
    }
}

/// All tokens of the prompt that a usage report counts: fresh input, input read
/// from the cache and input written to it.
pub open spec fn prompt_tokens(usage: Tree) -> u64 {
    wrapped_sum(
        wrapped_sum(
            crate::json::or_zero(usage.count_at("input_tokens"@)),
            crate::json::or_zero(usage.count_at("cache_read_input_tokens"@)),
        ),
        crate::json::or_zero(usage.count_at("cache_creation_input_tokens"@)),
    )
}

/// A usage report in the client's dialect. The cached part is broken out where
/// the upstream reports one, be it zero.
pub open spec fn usage_tree(usage: Option<Tree>) -> Tree {
    let report = crate::json::or_null(usage);
    let prompt = prompt_tokens(report);
    let output = crate::json::or_zero(report.count_at("output_tokens"@));
    crate::json::empty_tree().with("prompt_tokens"@, crate::json::count_tree(prompt)).with(
        "completion_tokens"@,
        crate::json::count_tree(output),
    ).with("total_tokens"@, crate::json::count_tree(wrapped_sum(prompt, output))).with_some(
        "prompt_tokens_details"@,
        match report.count_at("cache_read_input_tokens"@) {
            Some(cached) => Some(
                crate::json::empty_tree().with("cached_tokens"@, crate::json::count_tree(cached)),
            ),
            None => None,
        },
    )
}

/// The client's finish reason for the upstream's stop reason.
pub open spec fn finish_reason(stop_reason: Option<Seq<char>>) -> Option<Seq<char>> {
    match stop_reason {
        Some(s) => if s == "end_turn"@ || s == "stop_sequence"@ {
            Some("stop"@)
        } else if s == "max_tokens"@ {
            Some("length"@)
        } else if s == "tool_use"@ {
            Some("tool_calls"@)
        } else {
            None
        },
        None => None,
    }
}

/// The text as a document, or null where there is none.
pub open spec fn text_or_null(s: Option<Seq<char>>) -> Tree {
    match s {
        Some(s) => Tree::Text(s),
        None => Tree::Null,
    }
}

/// The blocks of a given type.
pub open spec fn blocks_of(blocks: Seq<Tree>, kind: Seq<char>) -> Seq<Tree>
    decreases blocks.len(),
{
    if blocks.len() == 0 {
        Seq::empty()
    } else if is_type(blocks.last(), kind) {
        blocks_of(blocks.drop_last(), kind).push(blocks.last())
    } else {
        blocks_of(blocks.drop_last(), kind)
    }
}

/// A tool call in the client's dialect: its input goes out as a JSON text.
pub open spec fn tool_call_tree(block: Tree) -> Tree {
    let input = match block.field("input"@) {
        Some(input) => input,
        None => crate::json::empty_tree(),
    };
    crate::json::empty_tree().with("id"@, crate::json::or_null(block.field("id"@))).with(
        "type"@,
        Tree::Text("function"@),
    ).with(
        "function"@,
        crate::json::empty_tree().with("name"@, crate::json::or_null(block.field("name"@))).with(
            "arguments"@,
            Tree::Text(crate::json::rendered(input)),
        ),
    )
}

/// The tool calls in the client's dialect.
pub open spec fn tool_call_trees(blocks: Seq<Tree>) -> Seq<Tree> {
    blocks.map_values(|b: Tree| tool_call_tree(b))
}

/// The assistant's message that a response's blocks make up.
pub open spec fn reply_message(content: Seq<Tree>) -> Tree {
    let text = gathered(content, "text"@, "text"@);
    let reasoning = gathered(content, "thinking"@, "thinking"@);
    let calls = blocks_of(content, "tool_use"@);
    crate::json::empty_tree().with("role"@, Tree::Text("assistant"@)).with(
        "content"@,
        if text.len() == 0 {
            Tree::Null
        } else {
            Tree::Text(text)
        },
    ).with_some(
        "reasoning_content"@,
        if reasoning.len() > 0 {
            Some(Tree::Text(reasoning))
        } else {
            None
        },
    ).with_some(
        "tool_calls"@,
        if calls.len() > 0 {
            Some(Tree::Array(tool_call_trees(calls)))
        } else {
            None
        },
    )
}

/// The client's response for the blocks of an upstream response.
pub open spec fn response_tree(
    resp: Tree,
    content: Seq<Tree>,
    model: Seq<char>,
    created: u64,
) -> Tree {
    let choice = crate::json::empty_tree().with("index"@, crate::json::count_tree(0)).with(
        "message"@,
        reply_message(content),
    ).with("finish_reason"@, text_or_null(finish_reason(resp.text_at("stop_reason"@))));
    crate::json::empty_tree().with(
        "id"@,
        match resp.field("id"@) {
            Some(id) => id,
            None => Tree::Text("chatcmpl-translated"@),
        },
    ).with("object"@, Tree::Text("chat.completion"@)).with(
        "created"@,
        crate::json::count_tree(created),
    ).with("model"@, Tree::Text(model)).with("choices"@, Tree::Array(seq![choice])).with(
        "usage"@,
        usage_tree(resp.field("usage"@)),
    )
}

/// The client's response for an upstream response, or why there is none.
pub open spec fn translated_response(
    resp: Tree,
    model: Seq<char>,
    created: u64,
) -> Result<Tree, Seq<char>> {
    if !(resp is Object) {
        Err("Anthropic response must be an object"@)
    } else {
        match resp.items_at("content"@) {
            None => Err("Anthropic response is missing `content`"@),
            Some(content) => Ok(response_tree(resp, content, model, created)),
        }
    }
}

fn add_counts(a: u64, b: u64) -> (r: u64)
    ensures
        r == wrapped_sum(a, b),
{
    a.wrapping_add(b)
}

fn count_or_zero(report: &Json, key: &str) -> (r: u64)
    ensures
        r == crate::json::or_zero(report@.count_at(key@)),
{
    match report.u64_at(key) {
        Some(n) => n,
        None => 0,
    }
}

/// Turns an Anthropic usage report into OpenAI's, in which the prompt counts
/// the cached tokens too. The sums wrap around at two to the power of 64.
pub fn anthropic_usage_to_openai(usage: Option<&Json>) -> (r: Json)
    ensures
        r@ == usage_tree(crate::json::seen(usage)),
{
    let report = copy_or_null(usage);
    let input: u64 = count_or_zero(&report, "input_tokens");
    let output: u64 = count_or_zero(&report, "output_tokens");
    let cache_read: u64 = count_or_zero(&report, "cache_read_input_tokens");
    let cache_creation: u64 = count_or_zero(&report, "cache_creation_input_tokens");
    let prompt: u64 = add_counts(add_counts(input, cache_read), cache_creation);
    let details: Option<Json> = match report.u64_at("cache_read_input_tokens") {
        Some(cached) => Some(Json::object().with("cached_tokens", Json::count(cached))),
        None => None,
    };
    Json::object().with("prompt_tokens", Json::count(prompt)).with(
        "completion_tokens",
        Json::count(output),
    ).with("total_tokens", Json::count(add_counts(prompt, output))).with_some(
        "prompt_tokens_details",
        details,
    )
}

/// The client's finish reason for the upstream's stop reason.
pub fn map_stop_reason_to_finish_reason(stop_reason: Option<&str>) -> (r: Option<&'static str>)
    ensures
        crate::text::seen_str(r) == finish_reason(crate::text::seen_str(stop_reason)),
{
    if is_some_text(stop_reason, "end_turn") || is_some_text(stop_reason, "stop_sequence") {
        Some("stop")
    } else if is_some_text(stop_reason, "max_tokens") {
        Some("length")
    } else if is_some_text(stop_reason, "tool_use") {
        Some("tool_calls")
    } else {
        None
    }
}

/// The tool calls among the blocks, in the client's dialect.
fn translate_tool_uses(content: &Vec<Json>) -> (r: Vec<Json>)
    ensures
        crate::json::trees(r@) == tool_call_trees(
            blocks_of(crate::json::trees(content@), "tool_use"@),
        ),
{
    let ghost all = crate::json::trees(content@);
    let mut out: Vec<Json> = Vec::new();
    let mut i: usize = 0;
    assert(crate::json::trees(out@) =~= tool_call_trees(blocks_of(all.take(0), "tool_use"@)));
    while i < content.len()
        invariant
            i <= content@.len(),
            all == crate::json::trees(content@),
            crate::json::trees(out@) == tool_call_trees(
                blocks_of(all.take(i as int), "tool_use"@),
            ),
        decreases content@.len() - i,
    {
        let block = &content[i];
        let ghost before = out@;
        assert(all.take(i + 1).drop_last() == all.take(i as int));
        assert(all.take(i + 1).last() == block@);
        if block.is_text_at("type", "tool_use") {
            let arguments = match block.get("input") {
                Some(input) => input.render(),
                None => Json::object().render(),
            };
            let call = Json::object().with("id", copy_or_null(block.get("id"))).with(
                "type",
                Json::text("function"),
            ).with(
                "function",
                Json::object().with("name", copy_or_null(block.get("name"))).with(
                    "arguments",
                    Json::Text(arguments),
                ),
            );
            out.push(call);
            assert(crate::json::trees(out@) =~= crate::json::trees(before).push(call@));
            assert(tool_call_trees(blocks_of(all.take(i + 1), "tool_use"@)) =~= tool_call_trees(
                blocks_of(all.take(i as int), "tool_use"@),
            ).push(call@));
        }
        i += 1;
    }
    assert(all.take(content@.len() as int) == all);
    out
}

/// The assistant's message that a response's blocks make up.
fn make_reply_message(content: &Vec<Json>) -> (r: Json)
    ensures
        r@ == reply_message(crate::json::trees(content@)),
{
    let text = gather_text(content, "text", "text");
    let reasoning = gather_text(content, "thinking", "thinking");
    let calls: Vec<Json> = translate_tool_uses(content);
    assert(crate::json::trees(calls@).len() == blocks_of(
        crate::json::trees(content@),
        "tool_use"@,
    ).len());
    let shown = if is_empty(text.as_str()) {
        Json::Null
    } else {
        Json::Text(text)
    };
    let thought: Option<Json> = if is_empty(reasoning.as_str()) {
        None
    } else {
        Some(Json::Text(reasoning))
    };
    let called: Option<Json> = if calls.len() > 0 {
        Some(Json::array(calls))
    } else {
        None
    };
    Json::object().with("role", Json::text("assistant")).with("content", shown).with_some(
        "reasoning_content",
        thought,
    ).with_some("tool_calls", called)
}

/// The text as a document, or null where there is none.
pub fn make_text_or_null(s: Option<&str>) -> (r: Json)
    ensures
        r@ == text_or_null(crate::text::seen_str(s)),
{
    match s {
        Some(s) => Json::text(s),
        None => Json::Null,
    }
}

/// Translates an Anthropic messages response into an OpenAI chat completion
/// that bears the given time.
pub fn translate_response_at(resp: &Json, model: &str, created: u64) -> (r: Result<Json, String>)
    ensures
        agrees(r, translated_response(resp@, model@, created)),
{
    if !resp.is_object() {
        return Err("Anthropic response must be an object".to_owned());
    }
    let content = match resp.items_at("content") {
        Some(content) => content,
        None => {
            return Err("Anthropic response is missing `content`".to_owned());
        },
    };
    let choice = Json::object().with("index", Json::count(0)).with(
        "message",
        make_reply_message(content),
    ).with(
        "finish_reason",
        make_text_or_null(map_stop_reason_to_finish_reason(resp.str_at("stop_reason"))),
    );
    let choices: Vec<Json> = vec![choice];
    assert(crate::json::trees(choices@) =~= seq![choice@]);
    let id = match resp.get("id") {
        Some(id) => id.duplicate(),
        None => Json::text("chatcmpl-translated"),
    };
    Ok(
        Json::object().with("id", id).with("object", Json::text("chat.completion")).with(
            "created",
            Json::count(created),
        ).with("model", Json::text(model)).with("choices", Json::array(choices)).with(
            "usage",
            anthropic_usage_to_openai(resp.get("usage")),
        ),
    )
}

/// Translates an Anthropic messages response into an OpenAI chat completion
/// that bears the current time.
pub fn translate_response_anthropic_to_openai(resp: &Json, model: &str) -> (r: Result<
    Json,
    String,
>)
    ensures
        exists|created: u64| agrees(r, #[trigger] translated_response(resp@, model@, created)),
{
    let created: u64 = unix_seconds();
    translate_response_at(resp, model, created)
}

/// The envelope of an error in the client's dialect.
pub open spec fn error_tree(message: Seq<char>, error_type: Seq<char>) -> Tree {
    crate::json::empty_tree().with(
        "error"@,
        crate::json::empty_tree().with("type"@, Tree::Text(error_type)).with(
            "message"@,
            Tree::Text(message),
        ),
    )
}

/// Builds an error envelope in the client's dialect.
pub fn openai_error_body(message: &str, error_type: &str) -> (r: Json)
    ensures
        r@ == error_tree(message@, error_type@),
{
    Json::object().with(
        "error",
        Json::object().with("type", Json::text(error_type)).with("message", Json::text(message)),
    )
}

// ---------------------------------------------------------------------------
// Laws
// ---------------------------------------------------------------------------

proof fn lemma_request_names()
    ensures
        "tools"@ != "tool_choice"@,
        "tools"@ != "thinking"@,
        "tools"@ != "temperature"@,
        "tools"@ != "top_p"@,
        "tools"@ != "top_k"@,
        "tools"@ != "max_tokens"@,
        "tools"@ != "model"@,
        "tools"@ != "messages"@,
        "tools"@ != "output_config"@,
        "tool_choice"@ != "thinking"@,
        "tool_choice"@ != "temperature"@,
        "tool_choice"@ != "top_p"@,
        "tool_choice"@ != "top_k"@,
        "tool_choice"@ != "max_tokens"@,
        "tool_choice"@ != "model"@,
        "tool_choice"@ != "messages"@,
        "tool_choice"@ != "output_config"@,
        "thinking"@ != "temperature"@,
        "thinking"@ != "top_p"@,
        "thinking"@ != "top_k"@,
        "thinking"@ != "max_tokens"@,
        "thinking"@ != "model"@,
        "thinking"@ != "messages"@,
        "thinking"@ != "output_config"@,
        "max_tokens"@ != "temperature"@,
        "max_tokens"@ != "top_p"@,
        "max_tokens"@ != "top_k"@,
        "max_tokens"@ != "model"@,
        "max_tokens"@ != "messages"@,
        "max_tokens"@ != "output_config"@,
        "model"@ != "temperature"@,
        "model"@ != "top_p"@,
        "model"@ != "top_k"@,
        "model"@ != "messages"@,
        "model"@ != "system"@,
        "model"@ != "stream"@,
        "model"@ != "stop_sequences"@,
        "model"@ != "output_config"@,
        "messages"@ != "temperature"@,
        "messages"@ != "top_p"@,
        "messages"@ != "top_k"@,
        "messages"@ != "system"@,
        "messages"@ != "stream"@,
        "messages"@ != "stop_sequences"@,
        "messages"@ != "output_config"@,
        "output_config"@ != "temperature"@,
        "output_config"@ != "top_p"@,
        "output_config"@ != "top_k"@,
        "output_config"@ != "system"@,
        "output_config"@ != "stream"@,
        "output_config"@ != "stop_sequences"@,
        "temperature"@ != "top_p"@,
{
    reveal_strlit("tools");
    reveal_strlit("tool_choice");
    reveal_strlit("thinking");
    reveal_strlit("temperature");
    reveal_strlit("top_p");
    reveal_strlit("top_k");
    reveal_strlit("max_tokens");
    reveal_strlit("model");
    reveal_strlit("messages");
    reveal_strlit("system");
    reveal_strlit("stream");
    reveal_strlit("stop_sequences");
    reveal_strlit("output_config");
    assert("tools"@.len() == 5 && "tools"@[0] == 't' && "tools"@[1] == 'o' && "tools"@[2] == 'o');
    assert("tool_choice"@.len() == 11 && "tool_choice"@[0] == 't' && "tool_choice"@[1] == 'o' && "tool_choice"@[2] == 'o');
    assert("thinking"@.len() == 8 && "thinking"@[0] == 't' && "thinking"@[1] == 'h' && "thinking"@[2] == 'i');
    assert("temperature"@.len() == 11 && "temperature"@[0] == 't' && "temperature"@[1] == 'e' && "temperature"@[2] == 'm');
    assert("top_p"@.len() == 5 && "top_p"@[0] == 't' && "top_p"@[1] == 'o' && "top_p"@[2] == 'p');
    assert("top_k"@.len() == 5 && "top_k"@[0] == 't' && "top_k"@[1] == 'o' && "top_k"@[2] == 'p');
    assert("max_tokens"@.len() == 10 && "max_tokens"@[0] == 'm' && "max_tokens"@[1] == 'a' && "max_tokens"@[2] == 'x');
    assert("model"@.len() == 5 && "model"@[0] == 'm' && "model"@[1] == 'o' && "model"@[2] == 'd');
    assert("messages"@.len() == 8 && "messages"@[0] == 'm' && "messages"@[1] == 'e' && "messages"@[2] == 's');
    assert("system"@.len() == 6 && "system"@[0] == 's' && "system"@[1] == 'y' && "system"@[2] == 's');
    assert("stream"@.len() == 6 && "stream"@[0] == 's' && "stream"@[1] == 't' && "stream"@[2] == 'r');
    assert("stop_sequences"@.len() == 14 && "stop_sequences"@[0] == 's' && "stop_sequences"@[1] == 't' && "stop_sequences"@[2] == 'o');
    assert("output_config"@.len() == 13 && "output_config"@[0] == 'o' && "output_config"@[1] == 'u' && "output_config"@[2] == 't');
}

proof fn lemma_type_names()
    ensures
        "type"@ != "budget_tokens"@,
        "enabled"@ != "disabled"@,
        "adaptive"@ != "disabled"@,
{
    reveal_strlit("type");
    reveal_strlit("budget_tokens");
    reveal_strlit("enabled");
    reveal_strlit("disabled");
    reveal_strlit("adaptive");
    assert("type"@.len() == 4 && "budget_tokens"@.len() == 13 && "enabled"@.len() == 7);
    assert("adaptive"@.len() == 8 && "adaptive"@[0] == 'a');
    assert("disabled"@.len() == 8 && "disabled"@[0] == 'd');
}

/// A request that goes out with thinking on carries none of the sampling
/// parameters, and asks for no more output than the catalog allows its model.
pub proof fn law_thinking_excludes_sampling(req: Tree)
    requires
        translated_request(req) is Ok,
        thinks(translated_request(req)->Ok_0),
    ensures
        ({
            let out = translated_request(req)->Ok_0;
            &&& out.field("temperature"@) is None
            &&& out.field("top_p"@) is None
            &&& out.field("top_k"@) is None
            &&& out.count_at("max_tokens"@) is Some
            &&& match crate::models::catalog_ceiling(req.text_at("model"@)->0) {
                Some(max) => out.count_at("max_tokens"@)->0 <= max,
                None => true,
            }
        }),
{
    lemma_request_names();
    lemma_type_names();
    let model = req.text_at("model"@)->0;
    let messages = req.items_at("messages"@)->0;
    let e = reasoned(request_basis(req, model, messages), req, model);
    let f = compatible(e);
    let out = translated_request(req)->Ok_0;
    assert(out.field("thinking"@) == f.field("thinking"@));
    assert(thinks(f));
    assert(thinks(e));
    assert(e.text_at("model"@) == Some(model));
    assert(out.field("max_tokens"@) == f.field("max_tokens"@));
}

/// The thinking budget that a number stands for: an integer that is positive is
/// meant, and anything else stands for the default one.
pub open spec fn settled_budget(v: Option<Tree>) -> u64 {
    match v {
        Some(Tree::Number(crate::json::Numeric::Unsigned(u))) => if u > 0 {
            u
        } else {
            GLM53_MIN_THINKING_BUDGET
        },
        _ => GLM53_MIN_THINKING_BUDGET,
    }
}

/// With thinking on, a budget that is missing, zero or negative becomes the
/// default one and any other integer stays, the budget is added to the output
/// tokens up to what the catalog allows the model, the sampling parameters go,
/// and everything else stays. An integer beyond those that are doubles, and a
/// number that is none, are left out.
pub proof fn law_thinking_budget_is_settled(t: Tree, other: Seq<char>)
    requires
        thinks(t),
        match t.field_in("thinking"@, "budget_tokens"@) {
            Some(Tree::Number(crate::json::Numeric::Unsigned(u))) => u
                <= crate::json::EXACT_INTEGERS,
            Some(Tree::Number(crate::json::Numeric::Double(_))) => false,
            _ => true,
        },
    ensures
        ({
            let out = compatible(t);
            let budget = settled_budget(t.field_in("thinking"@, "budget_tokens"@));
            &&& out.field("temperature"@) is None
            &&& out.field("top_k"@) is None
            &&& out.field("top_p"@) is None
            &&& out.field_in("thinking"@, "budget_tokens"@) == Some(
                crate::json::count_tree(budget),
            )
            &&& thinks(out)
            &&& out.count_at("max_tokens"@) == Some(
                raised_max(
                    crate::json::or_zero(t.count_at("max_tokens"@)),
                    budget,
                    crate::models::catalog_ceiling(crate::json::or_blank(t.text_at("model"@))),
                ),
            )
            &&& other != "thinking"@ && other != "max_tokens"@ && other != "temperature"@ && other
                != "top_k"@ && other != "top_p"@ ==> out.field(other) == t.field(other)
        }),
{
    lemma_request_names();
    lemma_type_names();
    reveal_strlit("type");
    reveal_strlit("budget_tokens");
    assert("type"@.len() == 4 && "budget_tokens"@.len() == 13);
}

/// No request goes out with both `temperature` and `top_p`.
pub proof fn law_temperature_excludes_top_p(req: Tree)
    requires
        translated_request(req) is Ok,
    ensures
        ({
            let out = translated_request(req)->Ok_0;
            out.field("temperature"@) is None || out.field("top_p"@) is None
        }),
{
    lemma_request_names();
    let model = req.text_at("model"@)->0;
    let messages = req.items_at("messages"@)->0;
    let f = compatible(reasoned(request_basis(req, model, messages), req, model));
    let out = translated_request(req)->Ok_0;
    assert(out.field("temperature"@) == f.field("temperature"@));
    assert(out.field("top_p"@) == f.field("top_p"@));
}

/// A GLM-5.3 request names an effort level exactly where it goes out with
/// thinking on.
pub proof fn law_glm53_effort_goes_with_thinking(req: Tree)
    requires
        translated_request(req) is Ok,
        crate::models::in_glm53_family(req.text_at("model"@)->0),
    ensures
        ({
            let out = translated_request(req)->Ok_0;
            thinks(out) == (out.field("output_config"@) is Some)
        }),
{
    lemma_request_names();
    lemma_type_names();
    let model = req.text_at("model"@)->0;
    let messages = req.items_at("messages"@)->0;
    let e = reasoned(request_basis(req, model, messages), req, model);
    let f = compatible(e);
    let out = translated_request(req)->Ok_0;
    assert(request_basis(req, model, messages).field("output_config"@) is None);
    assert(out.field("thinking"@) == f.field("thinking"@));
    assert(out.field("output_config"@) == f.field("output_config"@));
    assert(f.field("output_config"@) == e.field("output_config"@));
    assert(thinks(f) == thinks(e));
}

proof fn lemma_message_role(msg: Tree)
    ensures
        is_role(message_tree(msg), "user"@) || is_role(message_tree(msg), "assistant"@),
{
    reveal_strlit("role");
    reveal_strlit("content");
    assert("role"@.len() != "content"@.len());
}

proof fn lemma_coalesced_roles(messages: Seq<Tree>, at: int)
    ensures
        forall|i: int|
            0 <= i < coalesced_from(messages, at).len() ==> is_role(
                #[trigger] coalesced_from(messages, at)[i],
                "user"@,
            ) || is_role(coalesced_from(messages, at)[i], "assistant"@),
    decreases messages.len() - at,
{
    if 0 <= at < messages.len() {
        reveal_strlit("role");
        reveal_strlit("content");
        assert("role"@.len() != "content"@.len());
        if begins_run(messages[at]) {
            let end = run_end(messages, at);
            if at < end <= messages.len() {
                lemma_coalesced_roles(messages, end);
                let made = message(
                    "user"@,
                    Tree::Array(tool_result_blocks(messages.subrange(at, end))),
                );
                assert(is_role(made, "user"@));
                lemma_roles_prepend(made, coalesced_from(messages, end));
            }
        } else {
            lemma_coalesced_roles(messages, at + 1);
            lemma_message_role(messages[at]);
            lemma_roles_prepend(message_tree(messages[at]), coalesced_from(messages, at + 1));
        }
    }
}

proof fn lemma_roles_prepend(first: Tree, rest: Seq<Tree>)
    requires
        is_role(first, "user"@) || is_role(first, "assistant"@),
        forall|i: int|
            0 <= i < rest.len() ==> is_role(#[trigger] rest[i], "user"@) || is_role(
                rest[i],
                "assistant"@,
            ),
    ensures
        forall|i: int|
            0 <= i < (seq![first] + rest).len() ==> is_role(
                #[trigger] (seq![first] + rest)[i],
                "user"@,
            ) || is_role((seq![first] + rest)[i], "assistant"@),
{
    assert forall|i: int| 0 <= i < (seq![first] + rest).len() implies is_role(
        #[trigger] (seq![first] + rest)[i],
        "user"@,
    ) || is_role((seq![first] + rest)[i], "assistant"@) by {
        if i > 0 {
            assert((seq![first] + rest)[i] == rest[i - 1]);
        }
    }
}

/// Every message that goes out has the role of the user or of the assistant:
/// system messages and tool results never go out under their own roles.
pub proof fn law_messages_have_two_roles(req: Tree, i: int)
    requires
        translated_request(req) is Ok,
        0 <= i < translated_request(req)->Ok_0.items_at("messages"@)->0.len(),
    ensures
        ({
            let out = translated_request(req)->Ok_0;
            &&& out.items_at("messages"@) is Some
            &&& is_role(out.items_at("messages"@)->0[i], "user"@) || is_role(
                out.items_at("messages"@)->0[i],
                "assistant"@,
            )
        }),
{
    lemma_request_names();
    let model = req.text_at("model"@)->0;
    let messages = req.items_at("messages"@)->0;
    let basis = request_basis(req, model, messages);
    let e = reasoned(basis, req, model);
    let f = compatible(e);
    let out = translated_request(req)->Ok_0;
    assert(basis.field("messages"@) == Some(Tree::Array(coalesced(conversation(messages)))));
    assert(e.field("messages"@) == basis.field("messages"@));
    assert(f.field("messages"@) == e.field("messages"@));
    assert(out.field("messages"@) == f.field("messages"@));
    lemma_coalesced_roles(conversation(messages), 0);
}

proof fn lemma_full_run(messages: Seq<Tree>, at: int)
    requires
        0 <= at <= messages.len(),
        forall|i: int| 0 <= i < messages.len() ==> continues_run(#[trigger] messages[i]),
    ensures
        run_end(messages, at) == messages.len(),
    decreases messages.len() - at,
{
    if at < messages.len() {
        assert(continues_run(messages[at]));
        lemma_full_run(messages, at + 1);
    }
}

/// Tool results that stand side by side go out as one user message, with one
/// block for each of them in their order.
pub proof fn law_tool_results_coalesce(messages: Seq<Tree>)
    requires
        messages.len() > 0,
        begins_run(messages[0]),
        forall|i: int| 0 <= i < messages.len() ==> continues_run(#[trigger] messages[i]),
    ensures
        coalesced(messages) == seq![
            message("user"@, Tree::Array(tool_result_blocks(messages))),
        ],
{
    lemma_full_run(messages, 0);
    assert(messages.subrange(0, messages.len() as int) == messages);
    assert(coalesced_from(messages, messages.len() as int) =~= Seq::<Tree>::empty());
}

/// A usage report counts as prompt all input, cached or not, and as total the
/// prompt and the output, as long as the sums stay below two to the power
/// of 64.
pub proof fn law_usage_counts_cached_input(usage: Tree)
    requires
        crate::json::or_zero(usage.count_at("input_tokens"@)) + crate::json::or_zero(
            usage.count_at("cache_read_input_tokens"@),
        ) + crate::json::or_zero(usage.count_at("cache_creation_input_tokens"@))
            + crate::json::or_zero(usage.count_at("output_tokens"@)) <= u64::MAX,
    ensures
        ({
            let out = usage_tree(Some(usage));
            &&& out.count_at("prompt_tokens"@) is Some
            &&& out.count_at("completion_tokens"@) is Some
            &&& out.count_at("total_tokens"@) is Some
            &&& out.count_at("prompt_tokens"@)->0 == crate::json::or_zero(
                usage.count_at("input_tokens"@),
            ) + crate::json::or_zero(usage.count_at("cache_read_input_tokens"@))
                + crate::json::or_zero(usage.count_at("cache_creation_input_tokens"@))
            &&& out.count_at("total_tokens"@)->0 == out.count_at("prompt_tokens"@)->0
                + out.count_at("completion_tokens"@)->0
        }),
{
    reveal_strlit("prompt_tokens");
    reveal_strlit("completion_tokens");
    reveal_strlit("total_tokens");
    reveal_strlit("prompt_tokens_details");
    assert("prompt_tokens"@.len() == 13);
    assert("completion_tokens"@.len() == 17);
    assert("total_tokens"@.len() == 12);
    assert("prompt_tokens_details"@.len() == 21);
}

/// Texts are gathered part by part: what two lists hold is what one list of both
/// holds, and a part gives the text under the key where it has the type.
pub proof fn law_texts_are_gathered_in_order(
    a: Seq<Tree>,
    b: Seq<Tree>,
    part: Tree,
    kind: Seq<char>,
    key: Seq<char>,
)
    ensures
        gathered(Seq::empty(), kind, key) == Seq::<char>::empty(),
        gathered(a + b, kind, key) == gathered(a, kind, key) + gathered(b, kind, key),
        gathered(seq![part], kind, key) == if part.text_at("type"@) == Some(kind) {
            match part.text_at(key) {
                Some(s) => s,
                None => Seq::empty(),
            }
        } else {
            Seq::empty()
        },
    decreases b.len(),
{
    assert(seq![part].drop_last() =~= Seq::<Tree>::empty());
    assert(gathered(seq![part].drop_last(), kind, key) =~= Seq::<char>::empty());
    if b.len() == 0 {
        assert(a + b =~= a);
        assert(gathered(a, kind, key) + Seq::<char>::empty() =~= gathered(a, kind, key));
    } else {
        law_texts_are_gathered_in_order(a, b.drop_last(), part, kind, key);
        assert((a + b).drop_last() =~= a + b.drop_last());
    }
}

/// The messages of the conversation are those that are no system messages, in
/// their order.
pub proof fn law_conversations_lack_only_system_messages(messages: Seq<Tree>)
    ensures
        conversation(messages) == messages.filter(
            |m: Tree| m.text_at("role"@) != Some("system"@),
        ),
    decreases messages.len(),
{
    reveal(Seq::filter);
    if messages.len() > 0 {
        law_conversations_lack_only_system_messages(messages.drop_last());
    }
}

/// What system messages say is gathered message by message: the text of each that
/// says anything, and nothing of others.
pub proof fn law_system_messages_are_heard(a: Seq<Tree>, b: Seq<Tree>, m: Tree)
    ensures
        system_texts(a + b) == system_texts(a) + system_texts(b),
        system_texts(Seq::empty()) == Seq::<Seq<char>>::empty(),
        m.text_at("role"@) != Some("system"@) ==> system_texts(seq![m]) == Seq::<
            Seq<char>,
        >::empty(),
        m.text_at("role"@) == Some("system"@) ==> match m.field("content"@) {
            Some(Tree::Text(s)) => system_texts(seq![m]) == if s.len() > 0 {
                seq![s]
            } else {
                Seq::<Seq<char>>::empty()
            },
            Some(Tree::Array(parts)) => {
                let s = gathered(parts, "text"@, "text"@);
                system_texts(seq![m]) == if s.len() > 0 {
                    seq![s]
                } else {
                    Seq::<Seq<char>>::empty()
                }
            },
            _ => system_texts(seq![m]) == Seq::<Seq<char>>::empty(),
        },
    decreases b.len(),
{
    assert(seq![m].drop_last() =~= Seq::<Tree>::empty());
    assert(system_texts(seq![m].drop_last()) =~= Seq::<Seq<char>>::empty());
    assert(Seq::<Seq<char>>::empty().push(message_text(m)) =~= seq![message_text(m)]);
    if b.len() == 0 {
        assert(a + b =~= a);
        assert(system_texts(a) + Seq::<Seq<char>>::empty() =~= system_texts(a));
    } else {
        law_system_messages_are_heard(a, b.drop_last(), m);
        assert((a + b).drop_last() =~= a + b.drop_last());
        assert(system_texts(a + b) =~= system_texts(a) + system_texts(b));
    }
}

proof fn lemma_run_end_apart(a: Seq<Tree>, b: Seq<Tree>, at: int)
    requires
        0 <= at <= a.len(),
        b.len() == 0 || !continues_run(b[0]),
    ensures
        run_end(a + b, at) == run_end(a, at),
        at <= run_end(a, at) <= a.len(),
    decreases a.len() - at,
{
    if at < a.len() {
        assert((a + b)[at] == a[at]);
        if continues_run(a[at]) {
            lemma_run_end_apart(a, b, at + 1);
        }
    } else if b.len() > 0 {
        assert((a + b)[at] == b[0]);
    }
}

proof fn lemma_run_end_shift(a: Seq<Tree>, b: Seq<Tree>, at: int)
    requires
        0 <= at <= b.len(),
    ensures
        run_end(a + b, a.len() + at) == a.len() + run_end(b, at),
    decreases b.len() - at,
{
    if at < b.len() {
        assert((a + b)[a.len() + at] == b[at]);
        if continues_run(b[at]) {
            lemma_run_end_shift(a, b, at + 1);
        }
    }
}

proof fn lemma_coalesced_shift(a: Seq<Tree>, b: Seq<Tree>, at: int)
    requires
        0 <= at <= b.len(),
    ensures
        coalesced_from(a + b, a.len() + at) == coalesced_from(b, at),
    decreases b.len() - at,
{
    if at < b.len() {
        assert((a + b)[a.len() + at] == b[at]);
        if begins_run(b[at]) {
            lemma_run_end_shift(a, b, at);
            lemma_run_end(b, at);
            let end = run_end(b, at);
            if at < end {
                assert((a + b).subrange(a.len() + at, a.len() + end) =~= b.subrange(at, end));
                lemma_coalesced_shift(a, b, end);
            }
        } else {
            lemma_coalesced_shift(a, b, at + 1);
        }
    }
}

proof fn lemma_coalesced_apart(a: Seq<Tree>, b: Seq<Tree>, at: int)
    requires
        0 <= at <= a.len(),
        b.len() == 0 || !continues_run(b[0]),
    ensures
        coalesced_from(a + b, at) == coalesced_from(a, at) + coalesced(b),
    decreases a.len() - at,
{
    if at == a.len() {
        lemma_coalesced_shift(a, b, 0);
        assert(coalesced_from(a, at) + coalesced(b) =~= coalesced(b));
    } else {
        assert((a + b)[at] == a[at]);
        if begins_run(a[at]) {
            lemma_run_end_apart(a, b, at);
            lemma_run_end_apart(a, b, at + 1);
            let end = run_end(a, at);
            assert(at < end);
            lemma_coalesced_apart(a, b, end);
            assert((a + b).subrange(at, end) =~= a.subrange(at, end));
            let one = seq![
                message("user"@, Tree::Array(tool_result_blocks(a.subrange(at, end)))),
            ];
            assert(one + (coalesced_from(a, end) + coalesced(b)) =~= (one + coalesced_from(a, end))
                + coalesced(b));
        } else {
            lemma_coalesced_apart(a, b, at + 1);
            let one = seq![message_tree(a[at])];
            assert(one + (coalesced_from(a, at + 1) + coalesced(b)) =~= (one + coalesced_from(
                a,
                at + 1,
            )) + coalesced(b));
        }
    }
}

/// Messages are translated one by one, in their order, but for runs of tool
/// results: a list that is cut anywhere but before a tool result goes out as its
/// two parts do.
pub proof fn law_messages_are_translated_apart(a: Seq<Tree>, b: Seq<Tree>)
    requires
        b.len() == 0 || b[0].text_at("role"@) != Some("tool"@) || b[0].text_at("tool_call_id"@)
            is None,
    ensures
        coalesced(a + b) == coalesced(a) + coalesced(b),
        coalesced(Seq::empty()) == Seq::<Tree>::empty(),
{
    lemma_coalesced_apart(a, b, 0);
}

proof fn lemma_one_message(msg: Tree)
    requires
        !(msg.text_at("role"@) == Some("tool"@) && (msg.text_at("tool_call_id"@) matches Some(id)
            && id.len() > 0)),
    ensures
        coalesced(seq![msg]) == seq![message_tree(msg)],
{
    assert(coalesced_from(seq![msg], 1) =~= Seq::<Tree>::empty());
    assert(seq![message_tree(msg)] + Seq::<Tree>::empty() =~= seq![message_tree(msg)]);
}

/// A message without tool calls, and no tool result, goes out with what it says: a
/// text as it is, one block for each part, and the empty text for anything else.
/// What the assistant says is the assistant's, and everything else the user's.
pub proof fn law_messages_keep_what_they_say(msg: Tree)
    requires
        !(msg.text_at("role"@) == Some("tool"@) && (msg.text_at("tool_call_id"@) matches Some(id)
            && id.len() > 0)),
        !(msg.text_at("role"@) == Some("assistant"@) && (msg.items_at("tool_calls"@) matches Some(
            calls,
        ) && calls.len() > 0)),
    ensures
        coalesced(seq![msg]).len() == 1,
        ({
            let out = coalesced(seq![msg])[0];
            &&& out.text_at("role"@) == Some(
                if msg.text_at("role"@) == Some("assistant"@) {
                    "assistant"@
                } else {
                    "user"@
                },
            )
            &&& match msg.field("content"@) {
                Some(Tree::Text(s)) => out.field("content"@) == Some(Tree::Text(s)),
                Some(Tree::Array(parts)) => out.items_at("content"@) matches Some(blocks)
                    && blocks.len() == parts.len(),
                _ => out.field("content"@) == Some(Tree::Text(Seq::empty())),
            }
            &&& forall|k: Seq<char>| k != "role"@ && k != "content"@ ==> out.field(k) is None
        }),
{
    reveal_strlit("role");
    reveal_strlit("content");
    reveal_strlit("user");
    reveal_strlit("assistant");
    assert("role"@.len() == 4 && "role"@[0] == 'r');
    assert("content"@.len() == 7);
    assert("user"@.len() == 4 && "user"@[0] == 'u');
    assert("assistant"@.len() == 9);
    lemma_one_message(msg);
}

/// The text of a text part, and of a URL that is neither that of an image nor
/// data, goes out as a text block.
pub proof fn law_text_parts_keep_their_text(msg: Tree, parts: Seq<Tree>, i: int, url: Seq<char>)
    requires
        msg.text_at("role"@) == Some("user"@),
        msg.field("content"@) == Some(Tree::Array(parts)),
        0 <= i < parts.len(),
    ensures
        ({
            let block = coalesced(seq![msg])[0].items_at("content"@)->0[i];
            let part = parts[i];
            &&& part.text_at("type"@) == Some("text"@) ==> block.text_at("type"@) == Some("text"@)
                && block.text_at("text"@) == Some(
                match part.text_at("text"@) {
                    Some(s) => s,
                    None => Seq::empty(),
                },
            )
            &&& part.text_at("type"@) == Some("image_url"@) && part.text_in("image_url"@, "url"@)
                == Some(url) && !"data:"@.is_prefix_of(url) && !"http://"@.is_prefix_of(url)
                && !"https://"@.is_prefix_of(url) ==> block.text_at("type"@) == Some("text"@)
                && block.text_at("text"@) == Some(url)
            &&& part.text_at("type"@) != Some("text"@) && part.text_at("type"@) != Some(
                "image_url"@,
            ) ==> block.text_at("type"@) == Some("text"@) && block.text_at("text"@) == Some(
                Seq::<char>::empty(),
            )
        }),
{
    reveal_strlit("role");
    reveal_strlit("content");
    reveal_strlit("user");
    reveal_strlit("assistant");
    reveal_strlit("tool");
    reveal_strlit("type");
    reveal_strlit("text");
    reveal_strlit("image_url");
    assert("role"@.len() == 4 && "role"@[0] == 'r');
    assert("content"@.len() == 7);
    assert("user"@.len() == 4 && "user"@[0] == 'u');
    assert("assistant"@.len() == 9 && "assistant"@[0] == 'a');
    assert("tool"@.len() == 4 && "tool"@[0] == 't' && "tool"@[1] == 'o');
    assert("type"@.len() == 4 && "type"@[0] == 't' && "type"@[1] == 'y');
    assert("text"@.len() == 4 && "text"@[0] == 't' && "text"@[1] == 'e');
    assert("image_url"@.len() == 9 && "image_url"@[0] == 'i');
    lemma_one_message(msg);
    if url.len() == 0 {
        assert(url =~= Seq::<char>::empty());
    }
}

/// A part with the URL of an image on the web goes out as an image with that URL.
pub proof fn law_image_urls_are_kept(msg: Tree, parts: Seq<Tree>, i: int, url: Seq<char>)
    requires
        msg.text_at("role"@) == Some("user"@),
        msg.field("content"@) == Some(Tree::Array(parts)),
        0 <= i < parts.len(),
        parts[i].text_at("type"@) == Some("image_url"@),
        parts[i].text_in("image_url"@, "url"@) == Some(url),
        "http://"@.is_prefix_of(url) || "https://"@.is_prefix_of(url),
    ensures
        ({
            let block = coalesced(seq![msg])[0].items_at("content"@)->0[i];
            &&& block.text_at("type"@) == Some("image"@)
            &&& block.text_in("source"@, "type"@) == Some("url"@)
            &&& block.text_in("source"@, "url"@) == Some(url)
        }),
{
    reveal_strlit("role");
    reveal_strlit("content");
    reveal_strlit("user");
    reveal_strlit("assistant");
    reveal_strlit("tool");
    reveal_strlit("type");
    reveal_strlit("text");
    reveal_strlit("image_url");
    reveal_strlit("source");
    reveal_strlit("url");
    reveal_strlit("http://");
    reveal_strlit("https://");
    reveal_strlit("data:");
    assert("role"@.len() == 4 && "role"@[0] == 'r');
    assert("content"@.len() == 7 && "content"@[0] == 'c');
    assert("user"@.len() == 4 && "user"@[0] == 'u');
    assert("assistant"@.len() == 9 && "assistant"@[0] == 'a');
    assert("tool"@.len() == 4 && "tool"@[0] == 't' && "tool"@[1] == 'o');
    assert("type"@.len() == 4 && "type"@[0] == 't' && "type"@[1] == 'y');
    assert("text"@.len() == 4 && "text"@[0] == 't' && "text"@[1] == 'e');
    assert("image_url"@.len() == 9 && "image_url"@[0] == 'i');
    assert("source"@.len() == 6);
    assert("url"@.len() == 3);
    assert("http://"@.len() == 7 && "http://"@[0] == 'h');
    assert("https://"@.len() == 8);
    assert("data:"@.len() == 5);
    lemma_one_message(msg);
    if "http://"@.is_prefix_of(url) {
        assert(url.take(7)[0] == 'h');
    } else {
        assert(url.take(8)[0] == 'h');
    }
    if "data:"@.is_prefix_of(url) {
        assert(url.take(5)[0] == 'd');
    }
}

/// A part with the data of an image goes out as an image with that data and its
/// media type.
pub proof fn law_image_data_is_kept(
    msg: Tree,
    parts: Seq<Tree>,
    i: int,
    media: Seq<char>,
    data: Seq<char>,
)
    requires
        msg.text_at("role"@) == Some("user"@),
        msg.field("content"@) == Some(Tree::Array(parts)),
        0 <= i < parts.len(),
        parts[i].text_at("type"@) == Some("image_url"@),
        parts[i].text_in("image_url"@, "url"@) == Some("data:"@ + media + ";base64,"@ + data),
        media.len() > 0,
        !media.contains(','),
        data.len() > 0,
    ensures
        ({
            let block = coalesced(seq![msg])[0].items_at("content"@)->0[i];
            &&& block.text_at("type"@) == Some("image"@)
            &&& block.text_in("source"@, "type"@) == Some("base64"@)
            &&& block.text_in("source"@, "media_type"@) == Some(media)
            &&& block.text_in("source"@, "data"@) == Some(data)
        }),
{
    reveal_strlit("role");
    reveal_strlit("content");
    reveal_strlit("user");
    reveal_strlit("assistant");
    reveal_strlit("tool");
    reveal_strlit("type");
    reveal_strlit("text");
    reveal_strlit("image_url");
    reveal_strlit("source");
    reveal_strlit("data");
    reveal_strlit("media_type");
    assert("role"@.len() == 4 && "role"@[0] == 'r');
    assert("content"@.len() == 7);
    assert("user"@.len() == 4 && "user"@[0] == 'u');
    assert("assistant"@.len() == 9 && "assistant"@[0] == 'a');
    assert("tool"@.len() == 4 && "tool"@[0] == 't' && "tool"@[1] == 'o');
    assert("type"@.len() == 4 && "type"@[0] == 't' && "type"@[1] == 'y');
    assert("text"@.len() == 4 && "text"@[0] == 't' && "text"@[1] == 'e');
    assert("image_url"@.len() == 9 && "image_url"@[0] == 'i');
    assert("source"@.len() == 6);
    assert("data"@.len() == 4 && "data"@[0] == 'd');
    assert("media_type"@.len() == 10);
    reveal_strlit("data:");
    reveal_strlit(";base64,");
    reveal_strlit(";base64");
    reveal_strlit(",");
    lemma_one_message(msg);
    let mark = ";base64"@;
    let url = "data:"@ + media + ";base64,"@ + data;
    let rest = media + ";base64,"@ + data;
    assert(url.take(5) =~= "data:"@);
    assert(url.skip(5) =~= rest);
    let n: int = media.len() + 7int;
    assert(";base64,"@ =~= mark + ","@);
    assert forall|k: int| 0 <= k < n implies !crate::text::stands_at(rest, ","@, k) by {
        if crate::text::stands_at(rest, ","@, k) {
            assert(rest.subrange(k, k + 1)[0] == rest[k]);
            if k < media.len() {
                assert(media.contains(media[k]));
            } else {
                assert(rest[k] == mark[k - media.len()]);
            }
        }
    }
    assert(crate::text::stands_at(rest, ","@, n)) by {
        assert(rest.subrange(n, n + 1) =~= ","@);
    }
    crate::text::lemma_find_from(rest, ","@, 0);
    assert(crate::text::find(rest, ","@) == Some(n));
    let head = rest.take(n);
    assert(head =~= media + mark);
    assert(mark.is_suffix_of(head)) by {
        assert(head.skip(head.len() - mark.len()) =~= mark);
    }
    assert(head.take(head.len() - mark.len()) =~= media);
    assert(rest.skip(n + 1) =~= data);
}

/// A call that the assistant made goes out with its id, its name and its
/// arguments, behind what the assistant said along with it.
pub proof fn law_tool_calls_are_carried(msg: Tree, calls: Seq<Tree>, i: int)
    requires
        msg.text_at("role"@) == Some("assistant"@),
        msg.items_at("tool_calls"@) == Some(calls),
        0 <= i < calls.len(),
    ensures
        coalesced(seq![msg]).len() == 1,
        ({
            let out = coalesced(seq![msg])[0];
            let blocks = out.items_at("content"@)->0;
            let said = match msg.field("content"@) {
                Some(Tree::Text(s)) => s,
                Some(Tree::Array(parts)) => gathered(parts, "text"@, "text"@),
                _ => Seq::empty(),
            };
            let lead: int = if said.len() > 0 {
                1
            } else {
                0
            };
            let block = blocks[lead + i];
            &&& out.text_at("role"@) == Some("assistant"@)
            &&& out.items_at("content"@) is Some
            &&& blocks.len() == lead + calls.len()
            &&& said.len() > 0 ==> blocks[0].text_at("type"@) == Some("text"@)
                && blocks[0].text_at("text"@) == Some(said)
            &&& block.text_at("type"@) == Some("tool_use"@)
            &&& block.field("id"@) == Some(
                match calls[i].field("id"@) {
                    Some(id) => id,
                    None => Tree::Null,
                },
            )
            &&& block.field("name"@) == Some(
                match calls[i].field_in("function"@, "name"@) {
                    Some(name) => name,
                    None => Tree::Null,
                },
            )
            &&& match calls[i].text_in("function"@, "arguments"@) {
                Some(raw) => crate::text::trim(raw).len() > 0 ==> match crate::json::parsed(raw) {
                    Some(Tree::Object(members)) => block.field("input"@) == Some(
                        Tree::Object(members),
                    ),
                    _ => block.field("input"@) == Some(Tree::Object(Map::empty())),
                },
                None => block.field("input"@) == Some(Tree::Object(Map::empty())),
            }
        }),
{
    reveal_strlit("role");
    reveal_strlit("content");
    reveal_strlit("user");
    reveal_strlit("assistant");
    reveal_strlit("tool");
    reveal_strlit("type");
    reveal_strlit("text");
    reveal_strlit("id");
    reveal_strlit("name");
    reveal_strlit("input");
    assert("role"@.len() == 4 && "role"@[0] == 'r');
    assert("content"@.len() == 7);
    assert("user"@.len() == 4 && "user"@[0] == 'u');
    assert("assistant"@.len() == 9);
    assert("tool"@.len() == 4 && "tool"@[0] == 't' && "tool"@[1] == 'o');
    assert("type"@.len() == 4 && "type"@[0] == 't' && "type"@[1] == 'y');
    assert("text"@.len() == 4 && "text"@[0] == 't' && "text"@[1] == 'e');
    assert("id"@.len() == 2);
    assert("name"@.len() == 4 && "name"@[0] == 'n');
    assert("input"@.len() == 5);
    lemma_one_message(msg);
}

/// Tool results that stand side by side go out as one message of the user, and in
/// it each with the id of its call and with what the tool gave: a text as it is,
/// text parts as one text, and other parts as the user's own parts would.
pub proof fn law_tool_results_keep_their_output(messages: Seq<Tree>, i: int)
    requires
        forall|k: int|
            0 <= k < messages.len() ==> (#[trigger] messages[k]).text_at("role"@) == Some("tool"@)
                && messages[k].text_at("tool_call_id"@) is Some,
        messages[0].text_at("tool_call_id"@)->0.len() > 0,
        0 <= i < messages.len(),
    ensures
        coalesced(messages).len() == 1,
        ({
            let out = coalesced(messages)[0];
            let block = out.items_at("content"@)->0[i];
            &&& out.text_at("role"@) == Some("user"@)
            &&& out.items_at("content"@) matches Some(blocks)
            &&& blocks.len() == messages.len()
            &&& block.text_at("type"@) == Some("tool_result"@)
            &&& block.text_at("tool_use_id"@) == messages[i].text_at("tool_call_id"@)
            &&& match messages[i].field("content"@) {
                Some(Tree::Text(s)) => block.field("content"@) == Some(Tree::Text(s)),
                Some(Tree::Array(parts)) => if forall|k: int|
                    0 <= k < parts.len() ==> (#[trigger] parts[k]).text_at("type"@) == Some(
                        "text"@,
                    ) {
                    block.field("content"@) == Some(Tree::Text(gathered(parts, "text"@, "text"@)))
                } else {
                    let own = Tree::Object(
                        map!["role"@ => Tree::Text("user"@), "content"@ => Tree::Array(parts)],
                    );
                    block.field("content"@) == coalesced(seq![own])[0].field("content"@)
                },
                _ => block.field("content"@) == Some(Tree::Text(Seq::empty())),
            }
        }),
{
    reveal_strlit("role");
    reveal_strlit("content");
    reveal_strlit("user");
    reveal_strlit("assistant");
    reveal_strlit("tool");
    reveal_strlit("type");
    reveal_strlit("text");
    reveal_strlit("tool_use_id");
    assert("role"@.len() == 4 && "role"@[0] == 'r');
    assert("content"@.len() == 7);
    assert("user"@.len() == 4 && "user"@[0] == 'u');
    assert("assistant"@.len() == 9);
    assert("tool"@.len() == 4 && "tool"@[0] == 't' && "tool"@[1] == 'o');
    assert("type"@.len() == 4 && "type"@[0] == 't' && "type"@[1] == 'y');
    assert("text"@.len() == 4 && "text"@[0] == 't' && "text"@[1] == 'e');
    assert("tool_use_id"@.len() == 11);
    assert forall|k: int| 0 <= k < messages.len() implies continues_run(#[trigger] messages[k]) by {
        assert(messages[k].text_at("role"@) == Some("tool"@));
    }
    law_tool_results_coalesce(messages);
    if let Some(Tree::Array(parts)) = messages[i].field("content"@) {
        let own = Tree::Object(
            map!["role"@ => Tree::Text("user"@), "content"@ => Tree::Array(parts)],
        );
        assert(own.text_at("role"@) == Some("user"@));
        assert(own.field("content"@) == Some(Tree::Array(parts)));
        lemma_one_message(own);
        assert(all_text(parts) == (forall|k: int|
            0 <= k < parts.len() ==> (#[trigger] parts[k]).text_at("type"@) == Some("text"@)));
    }
}

proof fn lemma_more_request_names()
    ensures
        "system"@ != "tools"@,
        "system"@ != "tool_choice"@,
        "system"@ != "thinking"@,
        "system"@ != "temperature"@,
        "system"@ != "top_p"@,
        "system"@ != "top_k"@,
        "system"@ != "max_tokens"@,
        "system"@ != "stream"@,
        "system"@ != "stop_sequences"@,
        "stream"@ != "tools"@,
        "stream"@ != "tool_choice"@,
        "stream"@ != "thinking"@,
        "stream"@ != "temperature"@,
        "stream"@ != "top_p"@,
        "stream"@ != "top_k"@,
        "stream"@ != "max_tokens"@,
        "stream"@ != "stop_sequences"@,
        "stop_sequences"@ != "tools"@,
        "stop_sequences"@ != "tool_choice"@,
        "stop_sequences"@ != "thinking"@,
        "stop_sequences"@ != "temperature"@,
        "stop_sequences"@ != "top_p"@,
        "stop_sequences"@ != "top_k"@,
        "stop_sequences"@ != "max_tokens"@,
        "temperature"@ != "top_k"@,
        "top_p"@ != "top_k"@,
{
    reveal_strlit("system");
    reveal_strlit("tools");
    reveal_strlit("tool_choice");
    reveal_strlit("thinking");
    reveal_strlit("temperature");
    reveal_strlit("top_p");
    reveal_strlit("top_k");
    reveal_strlit("max_tokens");
    reveal_strlit("stream");
    reveal_strlit("stop_sequences");
    assert("system"@.len() == 6 && "system"@[1] == 'y');
    assert("tools"@.len() == 5 && "tools"@[2] == 'o');
    assert("tool_choice"@.len() == 11 && "tool_choice"@[1] == 'o');
    assert("thinking"@.len() == 8);
    assert("temperature"@.len() == 11 && "temperature"@[1] == 'e');
    assert("top_p"@.len() == 5 && "top_p"@[2] == 'p' && "top_p"@[4] == 'p');
    assert("top_k"@.len() == 5 && "top_k"@[2] == 'p' && "top_k"@[4] == 'k');
    assert("max_tokens"@.len() == 10);
    assert("stream"@.len() == 6 && "stream"@[1] == 't');
    assert("stop_sequences"@.len() == 14);
}

/// A request keeps its model, its conversation, what its system messages say, and
/// whether it streams and where it stops.
pub proof fn law_requests_keep_what_they_ask(req: Tree)
    requires
        translated_request(req) is Ok,
    ensures
        ({
            let out = translated_request(req)->Ok_0;
            let messages = req.items_at("messages"@)->0;
            let texts = system_texts(messages);
            &&& req.text_at("model"@) is Some
            &&& req.items_at("messages"@) is Some
            &&& out.field("model"@) == req.field("model"@)
            &&& out.field("messages"@) == Some(
                Tree::Array(
                    coalesced(
                        messages.filter(|m: Tree| m.text_at("role"@) != Some("system"@)),
                    ),
                ),
            )
            &&& out.field("system"@) == if texts.len() > 0 {
                Some(Tree::Text(crate::text::join(texts, "\n\n"@)))
            } else {
                None
            }
            &&& out.field("stream"@) == match req.field("stream"@) {
                Some(Tree::Bool(b)) => Some(Tree::Bool(b)),
                _ => None,
            }
            &&& match req.field("stop"@) {
                Some(Tree::Text(s)) => out.items_at("stop_sequences"@) == Some(
                    seq![Tree::Text(s)],
                ),
                Some(Tree::Array(items)) => if items.len() > 0 {
                    out.items_at("stop_sequences"@) == Some(items)
                } else {
                    out.field("stop_sequences"@) is None
                },
                _ => out.field("stop_sequences"@) is None,
            }
        }),
{
    lemma_request_names();
    lemma_more_request_names();
    let messages = req.items_at("messages"@)->0;
    law_conversations_lack_only_system_messages(messages);
    let model = req.text_at("model"@)->0;
    let basis = request_basis(req, model, messages);
    let e = reasoned(basis, req, model);
    let f = compatible(e);
    let out = translated_request(req)->Ok_0;
    lemma_kept_fields(req, "model"@);
    lemma_kept_fields(req, "messages"@);
    lemma_kept_fields(req, "system"@);
    lemma_kept_fields(req, "stream"@);
    lemma_kept_fields(req, "stop_sequences"@);
}

/// What reasoning, sampling and tools leave alone.
proof fn lemma_kept_fields(req: Tree, k: Seq<char>)
    requires
        translated_request(req) is Ok,
        k == "model"@ || k == "messages"@ || k == "system"@ || k == "stream"@ || k
            == "stop_sequences"@,
    ensures
        translated_request(req)->Ok_0.field(k) == request_basis(
            req,
            req.text_at("model"@)->0,
            req.items_at("messages"@)->0,
        ).field(k),
{
    lemma_request_names();
    lemma_more_request_names();
    let model = req.text_at("model"@)->0;
    let basis = request_basis(req, model, req.items_at("messages"@)->0);
    let e = reasoned(basis, req, model);
    let f = compatible(e);
    assert(e.field(k) == basis.field(k));
    assert(f.field(k) == e.field(k));
}

/// The tools that a client offers are offered with their names, descriptions and
/// parameters, unless the client forbids tools.
pub proof fn law_tools_are_offered(req: Tree, tools: Seq<Tree>, i: int)
    requires
        translated_request(req) is Ok,
        req.items_at("tools"@) == Some(tools),
        0 <= i < tools.len(),
    ensures
        ({
            let out = translated_request(req)->Ok_0;
            if req.text_at("tool_choice"@) == Some("none"@) {
                out.field("tools"@) is None && out.field("tool_choice"@) is None
            } else {
                &&& out.items_at("tools"@) matches Some(offered)
                &&& offered.len() == tools.len()
                &&& offered[i].field("name"@) == Some(
                    match tools[i].field_in("function"@, "name"@) {
                        Some(name) => name,
                        None => Tree::Null,
                    },
                )
                &&& offered[i].field("description"@) == match tools[i].field_in(
                    "function"@,
                    "description"@,
                ) {
                    Some(Tree::Null) => None,
                    said => said,
                }
                &&& offered[i].field("input_schema"@) == match tools[i].field_in(
                    "function"@,
                    "parameters"@,
                ) {
                    Some(Tree::Null) => None,
                    said => said,
                }
            }
        }),
{
    lemma_request_names();
    lemma_more_request_names();
    reveal_strlit("name");
    reveal_strlit("description");
    reveal_strlit("input_schema");
    assert("name"@.len() == 4);
    assert("description"@.len() == 11);
    assert("input_schema"@.len() == 12);
    lemma_no_tools_before(req);
}

proof fn lemma_no_tools_before(req: Tree)
    requires
        translated_request(req) is Ok,
    ensures
        ({
            let model = req.text_at("model"@)->0;
            let f = compatible(
                reasoned(request_basis(req, model, req.items_at("messages"@)->0), req, model),
            );
            f.field("tools"@) is None && f.field("tool_choice"@) is None
        }),
{
    lemma_request_names();
    lemma_more_request_names();
    let model = req.text_at("model"@)->0;
    let basis = request_basis(req, model, req.items_at("messages"@)->0);
    let e = reasoned(basis, req, model);
    assert(basis.field("tools"@) is None && basis.field("tool_choice"@) is None);
    assert(e.field("tools"@) is None && e.field("tool_choice"@) is None);
}

/// A choice of tools goes out in the upstream's words: any tool, some tool or one by
/// its name. Any other choice, and that of none, does not go out, and without tools
/// none are offered.
pub proof fn law_tool_choices_are_reworded(req: Tree)
    requires
        translated_request(req) is Ok,
    ensures
        ({
            let out = translated_request(req)->Ok_0;
            let choice = req.field("tool_choice"@);
            &&& choice == Some(Tree::Text("auto"@)) ==> out.field("tool_choice"@) == Some(
                Tree::Object(map!["type"@ => Tree::Text("auto"@)]),
            )
            &&& choice == Some(Tree::Text("required"@)) ==> out.field("tool_choice"@) == Some(
                Tree::Object(map!["type"@ => Tree::Text("any"@)]),
            )
            &&& (choice is Some && choice->0 is Object && req.text_in("tool_choice"@, "type"@)
                == Some("function"@)) ==> {
                &&& out.text_in("tool_choice"@, "type"@) == Some("tool"@)
                &&& out.field_in("tool_choice"@, "name"@) == Some(
                    match choice->0.field_in("function"@, "name"@) {
                        Some(name) => name,
                        None => Tree::Null,
                    },
                )
            }
            &&& choice != Some(Tree::Text("auto"@)) && choice != Some(Tree::Text("required"@))
                && req.text_in("tool_choice"@, "type"@) != Some("function"@) ==> out.field(
                "tool_choice"@,
            ) is None
            &&& !(req.items_at("tools"@) matches Some(tools) && tools.len() > 0) ==> out.field(
                "tools"@,
            ) is None
        }),
{
    lemma_request_names();
    lemma_more_request_names();
    reveal_strlit("type");
    reveal_strlit("name");
    reveal_strlit("auto");
    reveal_strlit("required");
    reveal_strlit("none");
    assert("type"@.len() == 4 && "type"@[0] == 't');
    assert("name"@.len() == 4 && "name"@[0] == 'n' && "name"@[1] == 'a');
    assert("auto"@.len() == 4 && "auto"@[0] == 'a');
    assert("required"@.len() == 8);
    assert("none"@.len() == 4 && "none"@[0] == 'n' && "none"@[1] == 'o');
    lemma_no_tools_before(req);
    assert(crate::json::empty_tree().with("type"@, Tree::Text("auto"@)).members()
        =~= map!["type"@ => Tree::Text("auto"@)]);
    assert(crate::json::empty_tree().with("type"@, Tree::Text("any"@)).members()
        =~= map!["type"@ => Tree::Text("any"@)]);
}

/// A request that goes out with thinking off keeps its limit, the catalog's where it
/// names none, and its sampling parameters, of which `top_p` gives way to
/// `temperature`.
pub proof fn law_limits_and_sampling_are_kept(req: Tree)
    requires
        translated_request(req) is Ok,
        ({
            let kind = translated_request(req)->Ok_0.text_in("thinking"@, "type"@);
            kind != Some("enabled"@) && kind != Some("adaptive"@)
        }),
    ensures
        ({
            let out = translated_request(req)->Ok_0;
            &&& out.count_at("max_tokens"@) == Some(
                match req.count_at("max_tokens"@) {
                    Some(n) => n,
                    None => crate::models::default_max_tokens(req.text_at("model"@)->0),
                },
            )
            &&& out.field("temperature"@) == match req.field("temperature"@) {
                Some(Tree::Null) => None,
                asked => asked,
            }
            &&& out.field("top_p"@) == if out.field("temperature"@) is Some {
                None
            } else {
                match req.field("top_p"@) {
                    Some(Tree::Null) => None,
                    asked => asked,
                }
            }
        }),
{
    lemma_request_names();
    lemma_more_request_names();
    lemma_type_names();
    let model = req.text_at("model"@)->0;
    let basis = request_basis(req, model, req.items_at("messages"@)->0);
    let e = reasoned(basis, req, model);
    let f = compatible(e);
    let out = translated_request(req)->Ok_0;
    assert(out.field("thinking"@) == f.field("thinking"@));
    assert(out.field("max_tokens"@) == f.field("max_tokens"@));
    assert(out.field("temperature"@) == f.field("temperature"@));
    assert(out.field("top_p"@) == f.field("top_p"@));
    if thinks(e) {
        assert(thinks(f));
    }
    assert(f.field("max_tokens"@) == e.field("max_tokens"@));
    assert(e.field("max_tokens"@) == basis.field("max_tokens"@));
    assert(e.field("temperature"@) == basis.field("temperature"@));
    assert(e.field("top_p"@) == basis.field("top_p"@));
}

/// With thinking on, the limit is what was asked for, or the catalog's where nothing
/// was, with the budget that goes out added, up to what the catalog allows.
pub proof fn law_budgets_are_added_to_the_limit(req: Tree, budget: u64)
    requires
        translated_request(req) is Ok,
        ({
            let out = translated_request(req)->Ok_0;
            let kind = out.text_in("thinking"@, "type"@);
            &&& kind == Some("enabled"@) || kind == Some("adaptive"@)
            &&& out.field_in("thinking"@, "budget_tokens"@) == Some(
                Tree::Number(crate::json::Numeric::Unsigned(budget)),
            )
            &&& 0 < budget <= 0x20_0000_0000_0000
        }),
    ensures
        ({
            let out = translated_request(req)->Ok_0;
            let model = req.text_at("model"@)->0;
            let asked: int = match req.count_at("max_tokens"@) {
                Some(n) => n as int,
                None => crate::models::default_max_tokens(model) as int,
            };
            let sum = if asked + budget > u64::MAX {
                u64::MAX as int
            } else {
                asked + budget
            };
            &&& out.count_at("max_tokens"@) is Some
            &&& out.count_at("max_tokens"@)->0 == match crate::models::catalog_ceiling(model) {
                Some(max) => if sum < max {
                    sum
                } else {
                    max as int
                },
                None => sum,
            }
        }),
{
    lemma_request_names();
    lemma_more_request_names();
    lemma_type_names();
    let model = req.text_at("model"@)->0;
    let basis = request_basis(req, model, req.items_at("messages"@)->0);
    let e = reasoned(basis, req, model);
    let f = compatible(e);
    let out = translated_request(req)->Ok_0;
    assert(out.field("thinking"@) == f.field("thinking"@));
    assert(out.field("max_tokens"@) == f.field("max_tokens"@));
    assert(e.field("max_tokens"@) == basis.field("max_tokens"@));
    assert(e.field("model"@) == basis.field("model"@));
    assert(thinks(e));
}

/// A model outside the GLM-5.3 family thinks as its client says: with the budget
/// that is named, or not at all; where the client says nothing, with the smallest
/// budget where the catalog has the model as one that reasons, unless no effort is
/// wanted.
pub proof fn law_clients_decide_on_thinking(req: Tree, budget: u64)
    requires
        translated_request(req) is Ok,
        !crate::models::in_glm53_family(req.text_at("model"@)->0),
    ensures
        ({
            let out = translated_request(req)->Ok_0;
            let model = req.text_at("model"@)->0;
            let kind = req.text_in("thinking"@, "type"@);
            let said = kind == Some("enabled"@) || kind == Some("adaptive"@) || kind == Some(
                "disabled"@,
            );
            let none = req.text_at("reasoning_effort"@) == Some("none"@);
            &&& kind == Some("disabled"@) ==> out.field("thinking"@) == Some(
                Tree::Object(map!["type"@ => Tree::Text("disabled"@)]),
            )
            &&& kind == Some("enabled"@) || kind == Some("adaptive"@) ==> out.text_in(
                "thinking"@,
                "type"@,
            ) == kind
            &&& (kind == Some("enabled"@) || kind == Some("adaptive"@)) && 0 < budget
                <= 0x20_0000_0000_0000 && (req.field_in("thinking"@, "budget_tokens"@) == Some(
                Tree::Number(crate::json::Numeric::Unsigned(budget)),
            ) || (req.field_in("thinking"@, "budget_tokens"@) is None && req.field_in(
                "thinking"@,
                "budgetTokens"@,
            ) == Some(Tree::Number(crate::json::Numeric::Unsigned(budget))))) ==> out.field_in(
                "thinking"@,
                "budget_tokens"@,
            ) == Some(Tree::Number(crate::json::Numeric::Unsigned(budget)))
            &&& !said && none ==> out.field("thinking"@) == Some(
                Tree::Object(map!["type"@ => Tree::Text("disabled"@)]),
            )
            &&& !said && !none && crate::models::reasons(model) ==> out.text_in(
                "thinking"@,
                "type"@,
            ) == Some("enabled"@) && out.field_in("thinking"@, "budget_tokens"@) == Some(
                Tree::Number(crate::json::Numeric::Unsigned(1_024)),
            )
            &&& !said && !none && !crate::models::reasons(model) ==> out.field("thinking"@) is None
            &&& out.field("output_config"@) is None
        }),
{
    lemma_request_names();
    lemma_more_request_names();
    lemma_type_names();
    reveal_strlit("type");
    reveal_strlit("budget_tokens");
    reveal_strlit("display");
    reveal_strlit("enabled");
    reveal_strlit("adaptive");
    reveal_strlit("disabled");
    assert("type"@.len() == 4);
    assert("budget_tokens"@.len() == 13);
    assert("display"@.len() == 7 && "display"@[0] == 'd');
    assert("enabled"@.len() == 7 && "enabled"@[0] == 'e');
    assert("adaptive"@.len() == 8 && "adaptive"@[0] == 'a');
    assert("disabled"@.len() == 8 && "disabled"@[0] == 'd');
    let model = req.text_at("model"@)->0;
    let basis = request_basis(req, model, req.items_at("messages"@)->0);
    let e = reasoned(basis, req, model);
    let f = compatible(e);
    let out = translated_request(req)->Ok_0;
    assert(out.field("thinking"@) == f.field("thinking"@));
    assert(out.field("output_config"@) == f.field("output_config"@));
    assert(basis.field("thinking"@) is None);
    assert(basis.field("output_config"@) is None);
    assert(crate::json::empty_tree().with("type"@, Tree::Text("disabled"@)).members()
        =~= map!["type"@ => Tree::Text("disabled"@)]);
    assert(!thinks(e) ==> f.field("thinking"@) == e.field("thinking"@));
}

/// A GLM-5.3 request thinks unless its client switches that off, with the effort
/// that is asked for, and with the budget that is named, else that of the effort,
/// short of what the catalog allows the model.
pub proof fn law_glm53_thinks_with_effort(req: Tree, budget: u64)
    requires
        translated_request(req) is Ok,
        crate::models::in_glm53_family(req.text_at("model"@)->0),
    ensures
        ({
            let out = translated_request(req)->Ok_0;
            let kind = req.text_in("thinking"@, "type"@);
            let effort = crate::models::effort_of(req.text_at("reasoning_effort"@));
            let ceiling = crate::models::catalog_ceiling(req.text_at("model"@)->0);
            let named = (kind == Some("enabled"@) || kind == Some("adaptive"@)) && 0 < budget
                <= 0x20_0000_0000_0000 && (req.field_in("thinking"@, "budget_tokens"@) == Some(
                Tree::Number(crate::json::Numeric::Unsigned(budget)),
            ));
            let wanted = if named {
                budget
            } else {
                crate::models::effort_budget(effort)
            };
            let sent = match ceiling {
                Some(max) => if wanted < max {
                    wanted as int
                } else {
                    max - 1
                },
                None => wanted as int,
            };
            &&& kind == Some("disabled"@) ==> out.field("thinking"@) == Some(
                Tree::Object(map!["type"@ => Tree::Text("disabled"@)]),
            ) && out.field("output_config"@) is None
            &&& kind != Some("disabled"@) ==> out.text_in("thinking"@, "type"@) == Some("enabled"@)
                && out.text_in("output_config"@, "effort"@) == Some(
                crate::models::effort_text(effort),
            )
            &&& kind != Some("disabled"@) && (named || req.field("thinking"@) is None) ==> (
            out.field_in("thinking"@, "budget_tokens"@) matches Some(
                Tree::Number(crate::json::Numeric::Unsigned(b)),
            ) && b == sent)
        }),
{
    lemma_request_names();
    lemma_more_request_names();
    lemma_type_names();
    reveal_strlit("type");
    reveal_strlit("budget_tokens");
    reveal_strlit("enabled");
    reveal_strlit("adaptive");
    reveal_strlit("disabled");
    assert("type"@.len() == 4);
    assert("budget_tokens"@.len() == 13);
    assert("enabled"@.len() == 7);
    assert("adaptive"@.len() == 8 && "adaptive"@[0] == 'a');
    assert("disabled"@.len() == 8 && "disabled"@[0] == 'd');
    let model = req.text_at("model"@)->0;
    crate::models::law_catalog_knows_its_models(model);
    let basis = request_basis(req, model, req.items_at("messages"@)->0);
    let e = reasoned(basis, req, model);
    let f = compatible(e);
    let out = translated_request(req)->Ok_0;
    assert(out.field("thinking"@) == f.field("thinking"@));
    assert(out.field("output_config"@) == f.field("output_config"@));
    assert(basis.field("output_config"@) is None);
    assert(f.field("output_config"@) == e.field("output_config"@));
    assert(crate::json::empty_tree().with("type"@, Tree::Text("disabled"@)).members()
        =~= map!["type"@ => Tree::Text("disabled"@)]);
    assert(!thinks(e) ==> f.field("thinking"@) == e.field("thinking"@));
}

/// A request that is no object, or names no model or no messages, is refused, and
/// no other.
pub proof fn law_requests_need_model_and_messages(req: Tree)
    ensures
        translated_request(req) is Ok <==> req.field("model"@) is Some && req.field("model"@)->0
            is Text && req.field("messages"@) is Some && req.field("messages"@)->0 is Array,
        !(req is Object) ==> translated_request(req) == Err::<Tree, Seq<char>>(
            "OpenAI request body must be a JSON object"@,
        ),
        req is Object && !(req.field("model"@) is Some && req.field("model"@)->0 is Text)
            ==> translated_request(req) == Err::<Tree, Seq<char>>(
            "OpenAI request is missing `model`"@,
        ),
{
}

/// A response keeps its id, its text, its reasoning, why it ended and what it used,
/// and bears the model and the time.
pub proof fn law_responses_keep_what_they_say(
    resp: Tree,
    content: Seq<Tree>,
    model: Seq<char>,
    created: u64,
)
    requires
        resp.items_at("content"@) == Some(content),
    ensures
        translated_response(resp, model, created) is Ok,
        ({
            let out = translated_response(resp, model, created)->Ok_0;
            let choices = out.items_at("choices"@)->0;
            let said = choices[0].field("message"@)->0;
            let text = gathered(content, "text"@, "text"@);
            let reasoning = gathered(content, "thinking"@, "thinking"@);
            let ended = resp.text_at("stop_reason"@);
            &&& out.field("id"@) == Some(
                match resp.field("id"@) {
                    Some(id) => id,
                    None => Tree::Text("chatcmpl-translated"@),
                },
            )
            &&& out.text_at("object"@) == Some("chat.completion"@)
            &&& out.count_at("created"@) == Some(created)
            &&& out.text_at("model"@) == Some(model)
            &&& out.items_at("choices"@) is Some
            &&& choices.len() == 1
            &&& choices[0].count_at("index"@) == Some(0u64)
            &&& choices[0].field("message"@) is Some
            &&& said.text_at("role"@) == Some("assistant"@)
            &&& said.field("content"@) == Some(
                if text.len() > 0 {
                    Tree::Text(text)
                } else {
                    Tree::Null
                },
            )
            &&& said.field("reasoning_content"@) == if reasoning.len() > 0 {
                Some(Tree::Text(reasoning))
            } else {
                None
            }
            &&& choices[0].field("finish_reason"@) == Some(
                if ended == Some("end_turn"@) || ended == Some("stop_sequence"@) {
                    Tree::Text("stop"@)
                } else if ended == Some("max_tokens"@) {
                    Tree::Text("length"@)
                } else if ended == Some("tool_use"@) {
                    Tree::Text("tool_calls"@)
                } else {
                    Tree::Null
                },
            )
            &&& out.field("usage"@) == Some(usage_tree(resp.field("usage"@)))
        }),
{
    reveal_strlit("id");
    reveal_strlit("object");
    reveal_strlit("created");
    reveal_strlit("model");
    reveal_strlit("choices");
    reveal_strlit("usage");
    reveal_strlit("index");
    reveal_strlit("message");
    reveal_strlit("finish_reason");
    reveal_strlit("role");
    reveal_strlit("content");
    reveal_strlit("reasoning_content");
    reveal_strlit("tool_calls");
    assert("id"@.len() == 2);
    assert("object"@.len() == 6);
    assert("created"@.len() == 7 && "created"@[0] == 'c' && "created"@[1] == 'r');
    assert("model"@.len() == 5 && "model"@[0] == 'm');
    assert("choices"@.len() == 7 && "choices"@[0] == 'c' && "choices"@[1] == 'h');
    assert("usage"@.len() == 5 && "usage"@[0] == 'u');
    assert("index"@.len() == 5 && "index"@[0] == 'i');
    assert("message"@.len() == 7 && "message"@[0] == 'm');
    assert("finish_reason"@.len() == 13);
    assert("role"@.len() == 4);
    assert("content"@.len() == 7 && "content"@[0] == 'c' && "content"@[1] == 'o');
    assert("reasoning_content"@.len() == 17);
    assert("tool_calls"@.len() == 10);
    reveal_strlit("end_turn");
    reveal_strlit("stop_sequence");
    reveal_strlit("max_tokens");
    reveal_strlit("tool_use");
    assert("end_turn"@.len() == 8 && "end_turn"@[0] == 'e');
    assert("stop_sequence"@.len() == 13);
    assert("max_tokens"@.len() == 10);
    assert("tool_use"@.len() == 8 && "tool_use"@[0] == 't');
}

proof fn lemma_blocks_are_filtered(blocks: Seq<Tree>, kind: Seq<char>)
    ensures
        blocks_of(blocks, kind) == blocks.filter(|b: Tree| b.text_at("type"@) == Some(kind)),
    decreases blocks.len(),
{
    reveal(Seq::filter);
    if blocks.len() > 0 {
        lemma_blocks_are_filtered(blocks.drop_last(), kind);
    }
}

/// Every tool that a response uses goes out as a call with its id, its name and its
/// input as a JSON text, in their order; and where it uses none there are no calls.
pub proof fn law_tool_uses_are_carried(
    resp: Tree,
    content: Seq<Tree>,
    model: Seq<char>,
    created: u64,
    i: int,
)
    requires
        resp.items_at("content"@) == Some(content),
    ensures
        ({
            let said = translated_response(resp, model, created)->Ok_0.items_at(
                "choices"@,
            )->0[0].field("message"@)->0;
            let uses = content.filter(|b: Tree| b.text_at("type"@) == Some("tool_use"@));
            &&& uses.len() == 0 ==> said.field("tool_calls"@) is None
            &&& 0 <= i < uses.len() ==> {
                &&& said.items_at("tool_calls"@) matches Some(calls)
                &&& calls.len() == uses.len()
                &&& calls[i].text_at("type"@) == Some("function"@)
                &&& calls[i].field("id"@) == Some(
                    match uses[i].field("id"@) {
                        Some(id) => id,
                        None => Tree::Null,
                    },
                )
                &&& calls[i].field_in("function"@, "name"@) == Some(
                    match uses[i].field("name"@) {
                        Some(name) => name,
                        None => Tree::Null,
                    },
                )
                &&& calls[i].text_in("function"@, "arguments"@) == Some(
                    crate::json::rendered(
                        match uses[i].field("input"@) {
                            Some(input) => input,
                            None => Tree::Object(Map::empty()),
                        },
                    ),
                )
            }
        }),
{
    reveal_strlit("id");
    reveal_strlit("object");
    reveal_strlit("created");
    reveal_strlit("model");
    reveal_strlit("choices");
    reveal_strlit("usage");
    reveal_strlit("index");
    reveal_strlit("message");
    reveal_strlit("finish_reason");
    reveal_strlit("role");
    reveal_strlit("content");
    reveal_strlit("reasoning_content");
    reveal_strlit("tool_calls");
    reveal_strlit("type");
    reveal_strlit("function");
    reveal_strlit("name");
    reveal_strlit("arguments");
    assert("id"@.len() == 2);
    assert("object"@.len() == 6);
    assert("created"@.len() == 7 && "created"@[0] == 'c' && "created"@[1] == 'r');
    assert("model"@.len() == 5 && "model"@[0] == 'm');
    assert("choices"@.len() == 7 && "choices"@[0] == 'c' && "choices"@[1] == 'h');
    assert("usage"@.len() == 5 && "usage"@[0] == 'u');
    assert("index"@.len() == 5 && "index"@[0] == 'i');
    assert("message"@.len() == 7 && "message"@[0] == 'm');
    assert("finish_reason"@.len() == 13);
    assert("role"@.len() == 4 && "role"@[0] == 'r');
    assert("content"@.len() == 7 && "content"@[0] == 'c' && "content"@[1] == 'o');
    assert("reasoning_content"@.len() == 17);
    assert("tool_calls"@.len() == 10);
    assert("type"@.len() == 4 && "type"@[0] == 't');
    assert("function"@.len() == 8);
    assert("name"@.len() == 4 && "name"@[0] == 'n');
    assert("arguments"@.len() == 9);
    lemma_blocks_are_filtered(content, "tool_use"@);
}

/// A response that is no object with a list of blocks is refused, and no other.
pub proof fn law_responses_need_content(resp: Tree, model: Seq<char>, created: u64)
    ensures
        translated_response(resp, model, created) is Ok <==> resp.field("content"@) is Some
            && resp.field("content"@)->0 is Array,
        !(resp is Object) ==> translated_response(resp, model, created) == Err::<Tree, Seq<char>>(
            "Anthropic response must be an object"@,
        ),
        resp is Object && !(resp.field("content"@) is Some && resp.field("content"@)->0 is Array)
            ==> translated_response(resp, model, created) == Err::<Tree, Seq<char>>(
            "Anthropic response is missing `content`"@,
        ),
{
}

/// A usage report tells the output as it is and the cached input where it is
/// reported, and sums the rest modulo two to the power of 64.
pub proof fn law_usage_is_told(usage: Tree, input: u64, read: u64, written: u64, output: u64)
    requires
        usage.count_at("input_tokens"@) == Some(input) || (input == 0 && usage.count_at(
            "input_tokens"@,
        ) is None),
        usage.count_at("cache_read_input_tokens"@) == Some(read) || (read == 0 && usage.count_at(
            "cache_read_input_tokens"@,
        ) is None),
        usage.count_at("cache_creation_input_tokens"@) == Some(written) || (written == 0
            && usage.count_at("cache_creation_input_tokens"@) is None),
        usage.count_at("output_tokens"@) == Some(output) || (output == 0 && usage.count_at(
            "output_tokens"@,
        ) is None),
    ensures
        ({
            let out = usage_tree(Some(usage));
            &&& out.count_at("prompt_tokens"@) matches Some(prompt)
            &&& prompt == (input + read + written) % 0x1_0000_0000_0000_0000
            &&& out.count_at("completion_tokens"@) == Some(output)
            &&& out.count_at("total_tokens"@) matches Some(total)
            &&& total == (input + read + written + output) % 0x1_0000_0000_0000_0000
            &&& match usage.count_at("cache_read_input_tokens"@) {
                Some(cached) => out.field_in("prompt_tokens_details"@, "cached_tokens"@) == Some(
                    Tree::Number(crate::json::Numeric::Unsigned(cached)),
                ),
                None => out.field("prompt_tokens_details"@) is None,
            }
            &&& usage_tree(None).count_at("total_tokens"@) == Some(0u64)
        }),
{
    reveal_strlit("prompt_tokens");
    reveal_strlit("completion_tokens");
    reveal_strlit("total_tokens");
    reveal_strlit("prompt_tokens_details");
    assert("prompt_tokens"@.len() == 13);
    assert("completion_tokens"@.len() == 17);
    assert("total_tokens"@.len() == 12);
    assert("prompt_tokens_details"@.len() == 21);
}

/// The envelope of an error tells its type and its message.
pub proof fn law_errors_tell_type_and_message(message: Seq<char>, error_type: Seq<char>)
    ensures
        error_tree(message, error_type).text_in("error"@, "type"@) == Some(error_type),
        error_tree(message, error_type).text_in("error"@, "message"@) == Some(message),
{
    reveal_strlit("type");
    reveal_strlit("message");
    assert("type"@.len() == 4);
    assert("message"@.len() == 7);
}

/// What a message says does not depend on who says it: its content is that of a
/// message of the user with the same content.
pub proof fn law_contents_do_not_depend_on_the_role(msg: Tree, content: Tree)
    requires
        msg.field("content"@) == Some(content),
        !(msg.text_at("role"@) == Some("tool"@) && (msg.text_at("tool_call_id"@) matches Some(id)
            && id.len() > 0)),
        !(msg.text_at("role"@) == Some("assistant"@) && (msg.items_at("tool_calls"@) matches Some(
            calls,
        ) && calls.len() > 0)),
    ensures
        ({
            let own = Tree::Object(map!["role"@ => Tree::Text("user"@), "content"@ => content]);
            coalesced(seq![msg])[0].field("content"@) == coalesced(seq![own])[0].field("content"@)
        }),
{
    reveal_strlit("role");
    reveal_strlit("content");
    reveal_strlit("user");
    reveal_strlit("assistant");
    reveal_strlit("tool");
    assert("role"@.len() == 4 && "role"@[0] == 'r');
    assert("content"@.len() == 7);
    assert("user"@.len() == 4 && "user"@[0] == 'u');
    assert("assistant"@.len() == 9);
    assert("tool"@.len() == 4 && "tool"@[0] == 't');
    let own = Tree::Object(map!["role"@ => Tree::Text("user"@), "content"@ => content]);
    assert(own.text_at("role"@) == Some("user"@));
    assert(own.field("content"@) == Some(content));
    lemma_one_message(own);
    lemma_one_message(msg);
}

/// A part that is to be an image but names none is an empty text.
pub proof fn law_missing_images_are_empty_texts(msg: Tree, parts: Seq<Tree>, i: int)
    requires
        msg.text_at("role"@) == Some("user"@),
        msg.field("content"@) == Some(Tree::Array(parts)),
        0 <= i < parts.len(),
        parts[i].text_at("type"@) == Some("image_url"@),
        parts[i].text_in("image_url"@, "url"@) is None || parts[i].text_in(
            "image_url"@,
            "url"@,
        )->0.len() == 0,
    ensures
        ({
            let block = coalesced(seq![msg])[0].items_at("content"@)->0[i];
            &&& block.text_at("type"@) == Some("text"@)
            &&& block.text_at("text"@) is Some
            &&& block.text_at("text"@)->0.len() == 0
        }),
{
    reveal_strlit("role");
    reveal_strlit("content");
    reveal_strlit("user");
    reveal_strlit("assistant");
    reveal_strlit("tool");
    reveal_strlit("type");
    reveal_strlit("text");
    reveal_strlit("image_url");
    assert("role"@.len() == 4 && "role"@[0] == 'r');
    assert("content"@.len() == 7);
    assert("user"@.len() == 4 && "user"@[0] == 'u');
    assert("assistant"@.len() == 9 && "assistant"@[0] == 'a');
    assert("tool"@.len() == 4 && "tool"@[0] == 't' && "tool"@[1] == 'o');
    assert("type"@.len() == 4 && "type"@[0] == 't' && "type"@[1] == 'y');
    assert("text"@.len() == 4 && "text"@[0] == 't' && "text"@[1] == 'e');
    assert("image_url"@.len() == 9 && "image_url"@[0] == 'i');
    lemma_one_message(msg);
}

/// An image whose data cannot be read from its address, because it has no comma,
/// is not in base64, names no kind or is empty, is told by its address as a text.
pub proof fn law_broken_image_data_is_told(
    msg: Tree,
    parts: Seq<Tree>,
    i: int,
    head: Seq<char>,
    tail: Seq<char>,
    comma: bool,
)
    requires
        msg.text_at("role"@) == Some("user"@),
        msg.field("content"@) == Some(Tree::Array(parts)),
        0 <= i < parts.len(),
        parts[i].text_at("type"@) == Some("image_url"@),
        !head.contains(','),
        comma ==> (!";base64"@.is_suffix_of(head) || head == ";base64"@ || tail.len() == 0),
        parts[i].text_in("image_url"@, "url"@) == Some(
            "data:"@ + if comma {
                head + ","@ + tail
            } else {
                head
            },
        ),
    ensures
        ({
            let block = coalesced(seq![msg])[0].items_at("content"@)->0[i];
            &&& block.text_at("type"@) == Some("text"@)
            &&& block.text_at("text"@) == parts[i].text_in("image_url"@, "url"@)
        }),
{
    reveal_strlit("role");
    reveal_strlit("content");
    reveal_strlit("user");
    reveal_strlit("assistant");
    reveal_strlit("tool");
    reveal_strlit("type");
    reveal_strlit("text");
    reveal_strlit("image_url");
    assert("role"@.len() == 4 && "role"@[0] == 'r');
    assert("content"@.len() == 7);
    assert("user"@.len() == 4 && "user"@[0] == 'u');
    assert("assistant"@.len() == 9 && "assistant"@[0] == 'a');
    assert("tool"@.len() == 4 && "tool"@[0] == 't' && "tool"@[1] == 'o');
    assert("type"@.len() == 4 && "type"@[0] == 't' && "type"@[1] == 'y');
    assert("text"@.len() == 4 && "text"@[0] == 't' && "text"@[1] == 'e');
    assert("image_url"@.len() == 9 && "image_url"@[0] == 'i');
    reveal_strlit("data:");
    reveal_strlit("http://");
    reveal_strlit("https://");
    reveal_strlit(",");
    reveal_strlit(";base64");
    assert("data:"@.len() == 5 && "data:"@[0] == 'd');
    assert("http://"@.len() == 7 && "http://"@[0] == 'h');
    assert("https://"@.len() == 8 && "https://"@[0] == 'h');
    assert(","@.len() == 1 && ","@[0] == ',');
    assert(";base64"@.len() == 7);
    lemma_one_message(msg);
    let rest = if comma {
        head + ","@ + tail
    } else {
        head
    };
    let url = "data:"@ + rest;
    assert(url[0] == 'd');
    crate::text::law_ends_are_split_off(rest, "data:"@);
    if comma {
        assert forall|k: int| 0 <= k < head.len() implies !#[trigger] crate::text::stands_at(
            rest,
            ","@,
            k,
        ) by {
            if crate::text::stands_at(rest, ","@, k) {
                assert(rest.subrange(k, k + 1)[0] == rest[k]);
                assert(head.contains(head[k]));
            }
        }
        crate::text::law_splitting_is_at_the_first(head, ","@, tail);
        if head == ";base64"@ {
            assert(head.take(0).len() == 0);
        }
    } else {
        assert forall|k: int| !#[trigger] crate::text::stands_at(rest, ","@, k) by {
            if crate::text::stands_at(rest, ","@, k) {
                assert(rest.subrange(k, k + 1)[0] == rest[k]);
                assert(head.contains(head[k]));
            }
        }
        crate::text::law_texts_without_it_are_not_split(rest, ","@);
    }
    assert(data_url(url) is None);
    assert(!"http://"@.is_prefix_of(url)) by {
        if "http://"@.is_prefix_of(url) {
            assert(url.take(7)[0] == url[0]);
            assert("http://"@[0] == url[0]);
        }
    }
    assert(!"https://"@.is_prefix_of(url)) by {
        if "https://"@.is_prefix_of(url) {
            assert("https://"@[0] == url[0]);
        }
    }
}

/// A call whose arguments are blank has none.
pub proof fn law_blank_arguments_are_none(msg: Tree, calls: Seq<Tree>, i: int, raw: Seq<char>)
    requires
        msg.text_at("role"@) == Some("assistant"@),
        msg.items_at("tool_calls"@) == Some(calls),
        0 <= i < calls.len(),
        calls[i].text_in("function"@, "arguments"@) == Some(raw),
        crate::text::trim(raw).len() == 0,
    ensures
        ({
            let blocks = coalesced(seq![msg])[0].items_at("content"@)->0;
            blocks[blocks.len() - calls.len() + i].field("input"@) == Some(
                Tree::Object(Map::empty()),
            )
        }),
{
    reveal_strlit("role");
    reveal_strlit("content");
    reveal_strlit("assistant");
    reveal_strlit("tool");
    reveal_strlit("type");
    reveal_strlit("name");
    reveal_strlit("id");
    reveal_strlit("input");
    assert("role"@.len() == 4 && "role"@[0] == 'r');
    assert("content"@.len() == 7);
    assert("assistant"@.len() == 9);
    assert("tool"@.len() == 4 && "tool"@[0] == 't' && "tool"@[1] == 'o');
    assert("type"@.len() == 4 && "type"@[0] == 't' && "type"@[1] == 'y');
    assert("name"@.len() == 4 && "name"@[0] == 'n');
    assert("id"@.len() == 2);
    assert("input"@.len() == 5);
    law_tool_calls_are_carried(msg, calls, i);
    lemma_one_message(msg);
}

/// A client that thinks adaptively decides whether its thoughts are shown.
pub proof fn law_clients_decide_what_is_shown(req: Tree)
    requires
        translated_request(req) is Ok,
        !crate::models::in_glm53_family(req.text_at("model"@)->0),
    ensures
        ({
            let out = translated_request(req)->Ok_0;
            let kind = req.text_in("thinking"@, "type"@);
            &&& kind == Some("adaptive"@) ==> out.field_in("thinking"@, "display"@) == match req.field_in(
                "thinking"@,
                "display"@,
            ) {
                Some(Tree::Bool(b)) => Some(Tree::Bool(b)),
                _ => None,
            }
            &&& kind == Some("enabled"@) ==> out.field_in("thinking"@, "display"@) is None
        }),
{
    lemma_request_names();
    lemma_more_request_names();
    lemma_type_names();
    reveal_strlit("type");
    reveal_strlit("budget_tokens");
    reveal_strlit("display");
    reveal_strlit("enabled");
    reveal_strlit("adaptive");
    reveal_strlit("disabled");
    assert("type"@.len() == 4);
    assert("budget_tokens"@.len() == 13);
    assert("display"@.len() == 7 && "display"@[0] == 'd');
    assert("enabled"@.len() == 7 && "enabled"@[0] == 'e');
    assert("adaptive"@.len() == 8 && "adaptive"@[0] == 'a');
    assert("disabled"@.len() == 8 && "disabled"@[0] == 'd');
    let model = req.text_at("model"@)->0;
    let basis = request_basis(req, model, req.items_at("messages"@)->0);
    let e = reasoned(basis, req, model);
    let f = compatible(e);
    let out = translated_request(req)->Ok_0;
    assert(out.field("thinking"@) == f.field("thinking"@));
    assert(basis.field("thinking"@) is None);
}

/// A client that thinks without naming a budget above zero, as a whole number,
/// has the smallest there is.
pub proof fn law_missing_budgets_are_the_smallest(req: Tree)
    requires
        translated_request(req) is Ok,
        !crate::models::in_glm53_family(req.text_at("model"@)->0),
        req.text_in("thinking"@, "type"@) == Some("enabled"@) || req.text_in("thinking"@, "type"@)
            == Some("adaptive"@),
        ({
            let named = match req.field_in("thinking"@, "budget_tokens"@) {
                Some(v) => Some(v),
                None => req.field_in("thinking"@, "budgetTokens"@),
            };
            !(named is Some && named->0 is Number && named->0->Number_0 is Unsigned
                && named->0->Number_0->Unsigned_0 > 0)
        }),
    ensures
        translated_request(req)->Ok_0.field_in("thinking"@, "budget_tokens"@) == Some(
            Tree::Number(crate::json::Numeric::Unsigned(1_024)),
        ),
{
    lemma_request_names();
    lemma_more_request_names();
    lemma_type_names();
    reveal_strlit("type");
    reveal_strlit("budget_tokens");
    reveal_strlit("display");
    reveal_strlit("enabled");
    reveal_strlit("adaptive");
    reveal_strlit("disabled");
    assert("type"@.len() == 4);
    assert("budget_tokens"@.len() == 13);
    assert("display"@.len() == 7 && "display"@[0] == 'd');
    assert("enabled"@.len() == 7 && "enabled"@[0] == 'e');
    assert("adaptive"@.len() == 8 && "adaptive"@[0] == 'a');
    assert("disabled"@.len() == 8 && "disabled"@[0] == 'd');
    let model = req.text_at("model"@)->0;
    let basis = request_basis(req, model, req.items_at("messages"@)->0);
    let e = reasoned(basis, req, model);
    let f = compatible(e);
    let out = translated_request(req)->Ok_0;
    assert(out.field("thinking"@) == f.field("thinking"@));
    assert(basis.field("thinking"@) is None);
}

/// A model of the GLM-5.3 family thinks within the whole part of the budget that
/// the client names, under either name, where the client lets it think and that is
/// above zero; in every other case within the budget of the effort.
pub proof fn law_glm53_budgets_are_named_or_standard(req: Tree)
    requires
        translated_request(req) is Ok,
        crate::models::in_glm53_family(req.text_at("model"@)->0),
        req.text_in("thinking"@, "type"@) != Some("disabled"@),
    ensures
        ({
            let out = translated_request(req)->Ok_0;
            let kind = req.text_in("thinking"@, "type"@);
            let on = kind == Some("enabled"@) || kind == Some("adaptive"@);
            let named = match req.field_in("thinking"@, "budget_tokens"@) {
                Some(v) => Some(v),
                None => req.field_in("thinking"@, "budgetTokens"@),
            };
            let whole = if on && named is Some && named->0 is Number {
                crate::json::number_floor(named->0->Number_0)
            } else {
                0
            };
            let wanted = if whole > 0 {
                whole
            } else {
                crate::models::effort_budget(
                    crate::models::effort_of(req.text_at("reasoning_effort"@)),
                )
            };
            let sent = match crate::models::catalog_ceiling(req.text_at("model"@)->0) {
                Some(max) => if wanted < max {
                    wanted as int
                } else {
                    max - 1
                },
                None => wanted as int,
            };
            0 < sent <= 0x20_0000_0000_0000 ==> (out.field_in("thinking"@, "budget_tokens"@)
                matches Some(Tree::Number(crate::json::Numeric::Unsigned(b))) && b == sent)
        }),
{
    lemma_request_names();
    lemma_more_request_names();
    lemma_type_names();
    reveal_strlit("type");
    reveal_strlit("budget_tokens");
    reveal_strlit("display");
    reveal_strlit("enabled");
    reveal_strlit("adaptive");
    reveal_strlit("disabled");
    assert("type"@.len() == 4);
    assert("budget_tokens"@.len() == 13);
    assert("display"@.len() == 7 && "display"@[0] == 'd');
    assert("enabled"@.len() == 7 && "enabled"@[0] == 'e');
    assert("adaptive"@.len() == 8 && "adaptive"@[0] == 'a');
    assert("disabled"@.len() == 8 && "disabled"@[0] == 'd');
    let model = req.text_at("model"@)->0;
    let basis = request_basis(req, model, req.items_at("messages"@)->0);
    let e = reasoned(basis, req, model);
    let f = compatible(e);
    let out = translated_request(req)->Ok_0;
    assert(out.field("thinking"@) == f.field("thinking"@));
    assert(basis.field("thinking"@) is None);
}

} // verus!
