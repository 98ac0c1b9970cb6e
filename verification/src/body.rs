//! The changes to a request's body before it goes to the upstream: cache
//! markers, the id of the user, and the prompt of a start plan.

use crate::identity::EnvPromptInfo;
use crate::json::{copy_or_null, Json, Tree};
use crate::prompt::{
    build_start_plan_system, context_prefix_message_at, format_local_iso_date, make_ephemeral,
    make_marked_block,
};
use crate::text::{after_prefix, is_empty};
use vstd::prelude::*;

verus! {

// ---------------------------------------------------------------------------
// Cache markers
// ---------------------------------------------------------------------------

/// The blocks without cache markers.
pub open spec fn unmarked_blocks(blocks: Seq<Tree>) -> Seq<Tree> {
    blocks.map_values(|b: Tree| b.without("cache_control"@))
}

/// A message without cache markers, unless it is a system message.
pub open spec fn unmarked(msg: Tree) -> Tree {
    if crate::translate::is_role(msg, "system"@) {
        msg
    } else {
        match msg.field("content"@) {
            Some(Tree::Array(blocks)) => msg.with("content"@, Tree::Array(unmarked_blocks(blocks))),
            _ => msg,
        }
    }
}

/// A block with a cache marker, where it is an object.
pub open spec fn with_marker(block: Tree) -> Tree {
    if block is Object {
        block.with("cache_control"@, crate::prompt::ephemeral())
    } else {
        block
    }
}

/// A message with a cache marker on its last block. A text becomes a block.
pub open spec fn marked(msg: Tree) -> Tree {
    match msg.field("content"@) {
        Some(Tree::Text(s)) => msg.with(
            "content"@,
            Tree::Array(seq![crate::prompt::marked_block(s)]),
        ),
        Some(Tree::Array(blocks)) => if blocks.len() > 0 {
            msg.with(
                "content"@,
                Tree::Array(blocks.drop_last().push(with_marker(blocks.last()))),
            )
        } else {
            msg
        },
        _ => msg,
    }
}

/// The last of the first `end` messages that is no system message.
pub open spec fn last_turn(messages: Seq<Tree>, end: int) -> Option<int>
    decreases end,
{
    if end <= 0 || end > messages.len() {
        None
    } else if !crate::translate::is_role(messages[end - 1], "system"@) {
        Some(end - 1)
    } else {
        last_turn(messages, end - 1)
    }
}

/// The messages with one cache marker, on the last block of the last of them
/// that is no system message.
pub open spec fn cached(messages: Seq<Tree>) -> Seq<Tree> {
    let bare = messages.map_values(|m: Tree| unmarked(m));
    match last_turn(bare, bare.len() as int) {
        Some(i) => bare.update(i, marked(bare[i])),
        None => bare,
    }
}

/// A body with its cache marker in place.
pub open spec fn cached_body(body: Tree) -> Tree {
    match body.items_at("messages"@) {
        Some(messages) => body.with("messages"@, Tree::Array(cached(messages))),
        None => body,
    }
}

/// A copy of the blocks without cache markers.
fn unmark_blocks(blocks: &Vec<Json>) -> (r: Vec<Json>)
    ensures
        crate::json::trees(r@) == unmarked_blocks(crate::json::trees(blocks@)),
{
    let mut out: Vec<Json> = Vec::new();
    let mut i: usize = 0;
    while i < blocks.len()
        invariant
            i <= blocks@.len(),
            out@.len() == i,
            forall|k: int|
                0 <= k < i ==> (#[trigger] out@[k])@ == blocks@[k]@.without("cache_control"@),
        decreases blocks@.len() - i,
    {
        out.push(blocks[i].duplicate().without("cache_control"));
        i += 1;
    }
    assert(crate::json::trees(out@) =~= unmarked_blocks(crate::json::trees(blocks@)));
    out
}

/// A copy of a message without cache markers, unless it is a system message.
fn unmark(msg: &Json) -> (r: Json)
    ensures
        r@ == unmarked(msg@),
{
    if msg.is_text_at("role", "system") {
        return msg.duplicate();
    }
    if let Some(blocks) = msg.items_at("content") {
        return msg.duplicate().with("content", Json::array(unmark_blocks(blocks)));
    }
    msg.duplicate()
}

/// A copy of a message with a cache marker on its last block.
fn mark(msg: &Json) -> (r: Json)
    ensures
        r@ == marked(msg@),
{
    if let Some(s) = msg.str_at("content") {
        let block = make_marked_block(s);
        let blocks: Vec<Json> = vec![block];
        assert(crate::json::trees(blocks@) =~= seq![block@]);
        return msg.duplicate().with("content", Json::array(blocks));
    }
    if let Some(blocks) = msg.items_at("content") {
        let n: usize = blocks.len();
        if n > 0 {
            let ghost all = crate::json::trees(blocks@);
            let mut out: Vec<Json> = Vec::new();
            let mut i: usize = 0;
            while i < n - 1
                invariant
                    n == blocks@.len(),
                    n > 0,
                    i <= n - 1,
                    out@.len() == i,
                    forall|k: int| 0 <= k < i ==> (#[trigger] out@[k])@ == blocks@[k]@,
                decreases n - i,
            {
                out.push(blocks[i].duplicate());
                i += 1;
            }
            let last = &blocks[n - 1];
            let closing = if last.is_object() {
                last.duplicate().with("cache_control", make_ephemeral())
            } else {
                last.duplicate()
            };
            out.push(closing);
            assert(all.last() == last@);
            assert(crate::json::trees(out@) =~= all.drop_last().push(with_marker(all.last())));
            return msg.duplicate().with("content", Json::array(out));
        }
    }
    msg.duplicate()
}

/// The messages with one cache marker.
fn cache_messages(messages: &Vec<Json>) -> (r: Vec<Json>)
    ensures
        crate::json::trees(r@) == cached(crate::json::trees(messages@)),
{
    let ghost bare = crate::json::trees(messages@).map_values(|m: Tree| unmarked(m));
    let mut out: Vec<Json> = Vec::new();
    let mut i: usize = 0;
    while i < messages.len()
        invariant
            i <= messages@.len(),
            out@.len() == i,
            forall|k: int| 0 <= k < i ==> (#[trigger] out@[k])@ == unmarked(messages@[k]@),
        decreases messages@.len() - i,
    {
        out.push(unmark(&messages[i]));
        i += 1;
    }
    assert(crate::json::trees(out@) =~= bare);
    let mut end: usize = out.len();
    while end > 0
        invariant
            end <= out@.len(),
            crate::json::trees(out@) == bare,
            bare == crate::json::trees(messages@).map_values(|m: Tree| unmarked(m)),
            last_turn(bare, bare.len() as int) == last_turn(bare, end as int),
        decreases end,
    {
        assert(bare[end - 1] == out@[end - 1]@);
        if !out[end - 1].is_text_at("role", "system") {
            let closing = mark(&out[end - 1]);
            let ghost before = out@;
            out.set(end - 1, closing);
            assert(crate::json::trees(out@) =~= crate::json::trees(before).update(
                end - 1,
                closing@,
            ));
            return out;
        }
        end -= 1;
    }
    out
}

/// Clears the cache markers of all messages but the system's, and marks the last
/// block of the last of them.
pub fn apply_anthropic_cache_control(body: &mut Json)
    ensures
        final(body)@ == cached_body(old(body)@),
{
    let cached: Option<Vec<Json>> = match body.items_at("messages") {
        Some(messages) => Some(cache_messages(messages)),
        None => None,
    };
    if let Some(messages) = cached {
        body.put("messages", Json::array(messages));
    }
}

// ---------------------------------------------------------------------------
// The user id
// ---------------------------------------------------------------------------

/// A body with the user id among its metadata.
pub open spec fn identified(body: Tree, user_id: Seq<char>) -> Tree {
    body.with(
        "metadata"@,
        crate::json::or_null(body.field("metadata"@)).with("user_id"@, Tree::Text(user_id)),
    )
}

/// Sets the user id among the body's metadata, and keeps what else is there.
pub fn apply_anthropic_user_id(body: &mut Json, user_id: &str)
    ensures
        final(body)@ == identified(old(body)@, user_id@),
{
    let metadata = copy_or_null(body.get("metadata")).with("user_id", Json::text(user_id));
    body.put("metadata", metadata);
}

/// A session id without the prefix that tells what kind of session it is.
pub open spec fn bare_session(session: Seq<char>) -> Seq<char> {
    match crate::text::strip_prefix(session, "sess_"@) {
        Some(rest) if rest.len() > 0 => rest,
        _ => match crate::text::strip_prefix(session, "subagent_agent_"@) {
            Some(rest) if rest.len() > 0 => rest,
            _ => session,
        },
    }
}

/// The user id as a document: device, an empty account and session.
pub open spec fn user_id_tree(device_mid: Option<Seq<char>>, session: Option<Seq<char>>) -> Tree {
    crate::json::empty_tree().with_some(
        "device_id"@,
        match device_mid {
            Some(mid) => Some(Tree::Text(mid)),
            None => None,
        },
    ).with("account_uuid"@, Tree::Text(Seq::empty())).with(
        "session_id"@,
        Tree::Text(
            match session {
                Some(s) => bare_session(s),
                None => Seq::empty(),
            },
        ),
    )
}

fn strip_session(session: &str) -> (r: String)
    ensures
        r@ == bare_session(session@),
{
    if let Some(rest) = after_prefix(session, "sess_") {
        if !is_empty(rest.as_str()) {
            return rest;
        }
    }
    if let Some(rest) = after_prefix(session, "subagent_agent_") {
        if !is_empty(rest.as_str()) {
            return rest;
        }
    }
    session.to_owned()
}

/// The user id that goes with every request: a JSON text. It reads back as the
/// document that it was made of.
pub fn build_anthropic_metadata_user_id(device_mid: Option<&str>, session_id: Option<&str>) -> (r:
    String)
    ensures
        r@ == crate::json::rendered(
            user_id_tree(crate::text::seen_str(device_mid), crate::text::seen_str(session_id)),
        ),
        crate::json::parsed(r@) == Some(
            user_id_tree(crate::text::seen_str(device_mid), crate::text::seen_str(session_id)),
        ),
{
    let none = String::new();
    assert(none@ =~= Seq::<char>::empty());
    let session = match session_id {
        Some(s) => strip_session(s),
        None => String::new(),
    };
    assert(session_id is None ==> session@ =~= Seq::<char>::empty());
    let device: Option<Json> = match device_mid {
        Some(mid) => Some(Json::text(mid)),
        None => None,
    };
    let id = Json::object().with_some("device_id", device).with(
        "account_uuid",
        Json::Text(none),
    ).with("session_id", Json::Text(session));
    proof {
        reveal_strlit("$serde_json::private::RawValue");
        reveal_strlit("device_id");
        reveal_strlit("account_uuid");
        reveal_strlit("session_id");
        assert(crate::json::raw_mark().len() == 30);
        assert("device_id"@.len() == 9 && "account_uuid"@.len() == 12 && "session_id"@.len() == 10);
        reveal_with_fuel(crate::json::shallow, 3);
        assert(crate::json::shallow(id@, 127));
    }
    id.render()
}

// ---------------------------------------------------------------------------
// Start plan
// ---------------------------------------------------------------------------

/// The tools without cache markers.
pub open spec fn bare_tools(body: Tree) -> Tree {
    match body.items_at("tools"@) {
        Some(tools) => body.with("tools"@, Tree::Array(unmarked_blocks(tools))),
        None => body,
    }
}

/// A body with the turn that names the date before its messages, where it has
/// any.
pub open spec fn dated(body: Tree, data: Tree, date: Seq<char>) -> Tree {
    match body.items_at("messages"@) {
        Some(messages) => if messages.len() > 0 {
            body.with(
                "messages"@,
                Tree::Array(seq![crate::prompt::context_message(data, date)] + messages),
            )
        } else {
            body
        },
        None => body,
    }
}

/// A body made fit for a start plan: its system prompt, the turn that names the
/// date, and tools without cache markers.
pub open spec fn start_plan_body(
    body: Tree,
    data: Tree,
    provider: Option<Seq<char>>,
    env: EnvPromptInfo,
    date: Seq<char>,
) -> Tree {
    bare_tools(
        dated(
            body.with(
                "system"@,
                Tree::Array(
                    crate::prompt::start_plan_system(
                        data,
                        body.field("system"@),
                        body.text_at("model"@),
                        env,
                        provider,
                    ),
                ),
            ),
            data,
            date,
        ),
    )
}

/// Makes a body fit for a start plan on a given date.
pub fn apply_start_plan_system(
    body: &mut Json,
    data: &Json,
    provider: Option<&str>,
    env: &EnvPromptInfo,
    date: &str,
)
    ensures
        final(body)@ == start_plan_body(
            old(body)@,
            data@,
            crate::text::seen_str(provider),
            *env,
            date@,
        ),
{
    let blocks: Vec<Json> = build_start_plan_system(
        data,
        body.get("system"),
        body.str_at("model"),
        env,
        provider,
    );
    body.put("system", Json::array(blocks));
    let turns: Option<Vec<Json>> = match body.items_at("messages") {
        Some(messages) => if messages.len() > 0 {
            let prefix = context_prefix_message_at(data, date);
            let ghost all = crate::json::trees(messages@);
            let mut out: Vec<Json> = Vec::new();
            out.push(prefix);
            let mut i: usize = 0;
            while i < messages.len()
                invariant
                    i <= messages@.len(),
                    out@.len() == i + 1,
                    out@[0]@ == prefix@,
                    forall|k: int| 0 <= k < i ==> (#[trigger] messages@[k])@ == out@[k + 1]@,
                decreases messages@.len() - i,
            {
                out.push(messages[i].duplicate());
                i += 1;
            }
            assert(crate::json::trees(out@) =~= seq![prefix@] + all);
            Some(out)
        } else {
            None
        },
        None => None,
    };
    if let Some(turns) = turns {
        body.put("messages", Json::array(turns));
    }
    let tools: Option<Vec<Json>> = match body.items_at("tools") {
        Some(tools) => Some(unmark_blocks(tools)),
        None => None,
    };
    if let Some(tools) = tools {
        body.put("tools", Json::array(tools));
    }
}

/// A body as it goes to the upstream.
pub open spec fn transformed(
    body: Tree,
    start_plan: bool,
    data: Tree,
    provider: Option<Seq<char>>,
    user_id: Seq<char>,
    env: EnvPromptInfo,
    date: Seq<char>,
) -> Tree {
    let planned = if start_plan {
        start_plan_body(body, data, provider, env, date)
    } else {
        body
    };
    identified(cached_body(planned), user_id)
}

/// Makes a body fit for the upstream on a given date.
pub fn transform_body_at(
    body: &mut Json,
    start_plan: bool,
    data: &Json,
    provider: Option<&str>,
    metadata_user_id: &str,
    env: &EnvPromptInfo,
    date: &str,
)
    ensures
        final(body)@ == transformed(
            old(body)@,
            start_plan,
            data@,
            crate::text::seen_str(provider),
            metadata_user_id@,
            *env,
            date@,
        ),
{
    if start_plan {
        apply_start_plan_system(body, data, provider, env, date);
    }
    apply_anthropic_cache_control(body);
    apply_anthropic_user_id(body, metadata_user_id);
}

/// Makes a body fit for the upstream on the current date.
pub fn transform_anthropic_body(
    body: &mut Json,
    start_plan: bool,
    data: &Json,
    provider: Option<&str>,
    metadata_user_id: &str,
    env: &EnvPromptInfo,
)
    ensures
        exists|date: Seq<char>|
            crate::prompt::is_date(date) && final(body)@ == #[trigger] transformed(
                old(body)@,
                start_plan,
                data@,
                crate::text::seen_str(provider),
                metadata_user_id@,
                *env,
                date,
            ),
{
    let date = format_local_iso_date();
    transform_body_at(
        body,
        start_plan,
        data,
        provider,
        metadata_user_id,
        env,
        date.as_str(),
    );
    assert(body@ == transformed(
        old(body)@,
        start_plan,
        data@,
        crate::text::seen_str(provider),
        metadata_user_id@,
        *env,
        date@,
    ));
}

// ---------------------------------------------------------------------------
// Laws
// ---------------------------------------------------------------------------

proof fn lemma_names()
    ensures
        "role"@ != "content"@,
        "type"@ != "cache_control"@,
        "text"@ != "cache_control"@,
        "system"@ != "messages"@,
        "messages"@ != "tools"@,
        "system"@ != "tools"@,
        "metadata"@ != "messages"@,
        "metadata"@ != "tools"@,
        "metadata"@ != "system"@,
{
    reveal_strlit("role");
    reveal_strlit("content");
    reveal_strlit("type");
    reveal_strlit("text");
    reveal_strlit("cache_control");
    reveal_strlit("system");
    reveal_strlit("messages");
    reveal_strlit("tools");
    reveal_strlit("metadata");
    assert("role"@.len() == 4 && "content"@.len() == 7 && "type"@.len() == 4);
    assert("text"@.len() == 4 && "cache_control"@.len() == 13 && "system"@.len() == 6);
    assert("messages"@.len() == 8 && "messages"@[1] == 'e' && "messages"@[2] == 's');
    assert("metadata"@.len() == 8 && "metadata"@[2] == 't' && "tools"@.len() == 5);
}

proof fn lemma_last_turn(messages: Seq<Tree>, end: int)
    requires
        0 <= end <= messages.len(),
    ensures
        match last_turn(messages, end) {
            Some(i) => 0 <= i < end && !crate::translate::is_role(messages[i], "system"@)
                && forall|k: int|
                i < k < end ==> crate::translate::is_role(#[trigger] messages[k], "system"@),
            None => forall|k: int|
                0 <= k < end ==> crate::translate::is_role(#[trigger] messages[k], "system"@),
        },
    decreases end,
{
    if end > 0 && crate::translate::is_role(messages[end - 1], "system"@) {
        lemma_last_turn(messages, end - 1);
    }
}

proof fn lemma_last_turn_same_roles(a: Seq<Tree>, b: Seq<Tree>, end: int)
    requires
        a.len() == b.len(),
        0 <= end <= a.len(),
        forall|i: int|
            0 <= i < a.len() ==> crate::translate::is_role(#[trigger] a[i], "system"@)
                == crate::translate::is_role(b[i], "system"@),
    ensures
        last_turn(a, end) == last_turn(b, end),
    decreases end,
{
    if end > 0 {
        assert(crate::translate::is_role(a[end - 1], "system"@) == crate::translate::is_role(
            b[end - 1],
            "system"@,
        ));
        lemma_last_turn_same_roles(a, b, end - 1);
    }
}

proof fn lemma_without_twice(t: Tree, key: Seq<char>)
    ensures
        t.without(key).without(key) == t.without(key),
        t.without(key).field(key) is None,
{
    if let Tree::Object(m) = t {
        assert(m.remove(key).remove(key) =~= m.remove(key));
    }
}

proof fn lemma_with_same(t: Tree, key: Seq<char>)
    requires
        t.field(key) is Some,
    ensures
        t.with(key, t.field(key)->0) == t,
{
    if let Tree::Object(m) = t {
        assert(m.insert(key, m[key]) =~= m);
    }
}

proof fn lemma_with_twice(t: Tree, key: Seq<char>, a: Tree, b: Tree)
    ensures
        t.with(key, a).with(key, b) == t.with(key, b),
        t.with(key, a).field(key) == Some(a),
{
    assert(t.members().insert(key, a).insert(key, b) =~= t.members().insert(key, b));
}

proof fn lemma_unmarked_blocks_twice(blocks: Seq<Tree>)
    ensures
        unmarked_blocks(unmarked_blocks(blocks)) == unmarked_blocks(blocks),
{
    assert forall|i: int| 0 <= i < blocks.len() implies #[trigger] unmarked_blocks(
        unmarked_blocks(blocks),
    )[i] == unmarked_blocks(blocks)[i] by {
        lemma_without_twice(blocks[i], "cache_control"@);
    }
    assert(unmarked_blocks(unmarked_blocks(blocks)) =~= unmarked_blocks(blocks));
}

proof fn lemma_unmarked_twice(msg: Tree)
    ensures
        unmarked(unmarked(msg)) == unmarked(msg),
        crate::translate::is_role(unmarked(msg), "system"@) == crate::translate::is_role(
            msg,
            "system"@,
        ),
{
    lemma_names();
    if !crate::translate::is_role(msg, "system"@) {
        if let Some(Tree::Array(blocks)) = msg.field("content"@) {
            lemma_unmarked_blocks_twice(blocks);
            lemma_with_twice(
                msg,
                "content"@,
                Tree::Array(unmarked_blocks(blocks)),
                Tree::Array(unmarked_blocks(unmarked_blocks(blocks))),
            );
        }
    }
}

/// Marking an unmarked message again leaves it as it is.
proof fn lemma_mark_again(msg: Tree)
    requires
        !crate::translate::is_role(msg, "system"@),
        unmarked(msg) == msg,
    ensures
        marked(unmarked(marked(msg))) == marked(msg),
        !crate::translate::is_role(marked(msg), "system"@),
        !crate::translate::is_role(unmarked(marked(msg)), "system"@),
{
    lemma_names();
    let cc = "cache_control"@;
    match msg.field("content"@) {
        Some(Tree::Text(s)) => {
            let block = crate::translate::text_block(s);
            let one = seq![crate::prompt::marked_block(s)];
            let again = marked(msg);
            lemma_with_twice(msg, "content"@, Tree::Array(one), Tree::Array(unmarked_blocks(one)));
            assert(block.members().insert(cc, crate::prompt::ephemeral()).remove(cc)
                =~= block.members());
            assert(crate::prompt::marked_block(s).without(cc) == block);
            assert(unmarked_blocks(one) =~= seq![block]);
            assert(again.field("content"@) == Some(Tree::Array(one)));
            assert(unmarked(again) == msg.with("content"@, Tree::Array(seq![block])));
            lemma_with_twice(msg, "content"@, Tree::Array(seq![block]), Tree::Array(one));
            assert(seq![block].drop_last().push(with_marker(block)) =~= one);
            assert(seq![block].last() == block);
        },
        Some(Tree::Array(blocks)) => {
            if blocks.len() > 0 {
                let bare = blocks.drop_last().push(with_marker(blocks.last()));
                assert(unmarked(msg).field("content"@) == Some(
                    Tree::Array(unmarked_blocks(blocks)),
                ));
                assert(unmarked_blocks(blocks) == blocks);
                let last = blocks.last();
                assert(unmarked_blocks(blocks)[blocks.len() - 1] == last.without(cc));
                assert(last.without(cc) == last);
                lemma_without_twice(last, cc);
                assert(with_marker(last).without(cc) == last) by {
                    if let Tree::Object(m) = last {
                        assert(m.insert(cc, crate::prompt::ephemeral()).remove(cc) =~= m.remove(cc));
                    }
                }
                assert(unmarked_blocks(bare) =~= blocks) by {
                    assert forall|i: int| 0 <= i < blocks.len() implies #[trigger] unmarked_blocks(
                        bare,
                    )[i] == blocks[i] by {
                        assert(unmarked_blocks(blocks)[i] == blocks[i].without(cc));
                        if i < blocks.len() - 1 {
                            assert(bare[i] == blocks[i]);
                        }
                    }
                }
                let again = marked(msg);
                lemma_with_twice(msg, "content"@, Tree::Array(bare), Tree::Array(blocks));
                assert(unmarked(again) == msg.with("content"@, Tree::Array(blocks)));
                lemma_with_same(msg, "content"@);
            }
        },
        _ => {},
    }
}

/// A body whose marker is in place stays as it is when it is marked again.
pub proof fn law_marking_is_stable(messages: Seq<Tree>)
    ensures
        cached(cached(messages)) == cached(messages),
{
    let bare = messages.map_values(|m: Tree| unmarked(m));
    let out = cached(messages);
    let bare2 = out.map_values(|m: Tree| unmarked(m));
    lemma_last_turn(bare, bare.len() as int);
    assert forall|k: int| 0 <= k < bare.len() implies unmarked(#[trigger] bare[k]) == bare[k] by {
        lemma_unmarked_twice(messages[k]);
    }
    match last_turn(bare, bare.len() as int) {
        Some(i) => {
            lemma_mark_again(bare[i]);
            assert forall|k: int| 0 <= k < bare.len() && k != i implies #[trigger] bare2[k]
                == bare[k] by {
                assert(out[k] == bare[k]);
            }
            assert(bare2[i] == unmarked(marked(bare[i])));
            assert forall|k: int| 0 <= k < bare.len() implies crate::translate::is_role(
                #[trigger] bare[k],
                "system"@,
            ) == crate::translate::is_role(bare2[k], "system"@) by {
                if k != i {
                    assert(bare2[k] == bare[k]);
                }
            }
            lemma_last_turn_same_roles(bare, bare2, bare.len() as int);
            assert(cached(out) =~= out);
        },
        None => {
            assert(bare2 =~= bare);
        },
    }
}

/// Of the messages that are no system messages, only the last carries a cache
/// marker, and only on its last block.
pub proof fn law_one_marker_on_the_last_block(
    messages: Seq<Tree>,
    i: int,
    blocks: Seq<Tree>,
    j: int,
)
    requires
        0 <= i < cached(messages).len(),
        !crate::translate::is_role(cached(messages)[i], "system"@),
        cached(messages)[i].field("content"@) == Some(Tree::Array(blocks)),
        0 <= j < blocks.len(),
        blocks[j].field("cache_control"@) is Some,
    ensures
        j == blocks.len() - 1,
        forall|k: int|
            i < k < cached(messages).len() ==> crate::translate::is_role(
                #[trigger] cached(messages)[k],
                "system"@,
            ),
{
    lemma_names();
    let bare = messages.map_values(|m: Tree| unmarked(m));
    lemma_last_turn(bare, bare.len() as int);
    lemma_unmarked_twice(messages[i]);
    let msg = messages[i];
    if let Some(Tree::Array(all)) = msg.field("content"@) {
        if !crate::translate::is_role(msg, "system"@) {
            assert forall|k: int| 0 <= k < all.len() implies (
            #[trigger] unmarked_blocks(all)[k]).field("cache_control"@) is None by {
                lemma_without_twice(all[k], "cache_control"@);
            }
            lemma_with_twice(
                msg,
                "content"@,
                Tree::Array(unmarked_blocks(all)),
                Tree::Array(blocks),
            );
        }
    }
    let turn = last_turn(bare, bare.len() as int);
    if turn == Some(i) {
        assert(cached(messages)[i] == marked(bare[i]));
        assert forall|k: int| i < k < cached(messages).len() implies crate::translate::is_role(
            #[trigger] cached(messages)[k],
            "system"@,
        ) by {
            assert(cached(messages)[k] == bare[k]);
        }
        if let Some(Tree::Array(all)) = bare[i].field("content"@) {
            if j < blocks.len() - 1 {
                assert(blocks[j] == all[j]);
            }
        }
    } else {
        assert(cached(messages)[i] == bare[i]);
    }
}

/// The user id goes among the metadata, and everything else of the metadata and
/// of the body stays.
pub proof fn law_metadata_is_kept(body: Tree, user_id: Seq<char>, key: Seq<char>)
    requires
        body is Object,
    ensures
        identified(body, user_id).text_in("metadata"@, "user_id"@) == Some(user_id),
        key != "user_id"@ ==> identified(body, user_id).field_in("metadata"@, key)
            == body.field_in("metadata"@, key),
        key != "metadata"@ ==> identified(body, user_id).field(key) == body.field(key),
{
}

/// What goes to the upstream differs from the client's body in nothing but the
/// system prompt, the messages, the tools and the metadata; for a plan other
/// than a start plan not even in system prompt and tools.
pub proof fn law_other_members_are_kept(
    body: Tree,
    start_plan: bool,
    data: Tree,
    provider: Option<Seq<char>>,
    user_id: Seq<char>,
    env: EnvPromptInfo,
    date: Seq<char>,
    key: Seq<char>,
)
    requires
        body is Object,
        key != "messages"@,
        key != "metadata"@,
        start_plan ==> key != "system"@ && key != "tools"@,
    ensures
        transformed(body, start_plan, data, provider, user_id, env, date).field(key) == body.field(
            key,
        ),
{
}

/// Placing the cache marker changes nothing but cache markers: every message keeps
/// its members, every text its characters and every block its other members; a
/// system message stays as it is.
pub proof fn law_marking_keeps_what_is_said(
    messages: Seq<Tree>,
    i: int,
    j: int,
    key: Seq<char>,
)
    requires
        0 <= i < messages.len(),
    ensures
        cached(messages).len() == messages.len(),
        ({
            let before = messages[i];
            let after = cached(messages)[i];
            &&& before.text_at("role"@) == Some("system"@) ==> after == before
            &&& key != "content"@ ==> after.field(key) == before.field(key)
            &&& match before.field("content"@) {
                Some(Tree::Text(s)) => after.field("content"@) == Some(Tree::Text(s)) || (
                after.items_at("content"@) matches Some(blocks) && blocks.len() == 1
                    && blocks[0].text_at("type"@) == Some("text"@) && blocks[0].text_at("text"@)
                    == Some(s)),
                Some(Tree::Array(blocks)) => {
                    &&& after.items_at("content"@) matches Some(kept)
                    &&& kept.len() == blocks.len()
                    &&& 0 <= j < blocks.len() && key != "cache_control"@ ==> kept[j].field(key)
                        == blocks[j].field(key)
                    &&& 0 <= j < blocks.len() && !(blocks[j] is Object) ==> kept[j] == blocks[j]
                },
                other => after.field("content"@) == other,
            }
        }),
{
    lemma_names();
    let bare = messages.map_values(|m: Tree| unmarked(m));
    lemma_last_turn(bare, bare.len() as int);
    lemma_unmarked_twice(messages[i]);
    assert(bare[i] == unmarked(messages[i]));
    if let Some(Tree::Array(blocks)) = messages[i].field("content"@) {
        if 0 <= j < blocks.len() {
            assert(unmarked_blocks(blocks)[j] == blocks[j].without("cache_control"@));
        }
    }
    reveal_strlit("type");
    reveal_strlit("text");
    reveal_strlit("cache_control");
    reveal_strlit("role");
    reveal_strlit("content");
    assert("type"@.len() == 4 && "type"@[0] == 't' && "type"@[1] == 'y');
    assert("text"@.len() == 4 && "text"@[0] == 't' && "text"@[1] == 'e');
    assert("cache_control"@.len() == 13);
    assert("role"@.len() == 4 && "role"@[0] == 'r');
    assert("content"@.len() == 7);
}

/// The marker stands on the last block of the last message that is no system
/// message, a text becoming a block for it; and on no other block of such a message.
pub proof fn law_the_last_block_is_marked(messages: Seq<Tree>, i: int, j: int)
    requires
        0 <= i < messages.len(),
        messages[i].text_at("role"@) != Some("system"@),
    ensures
        ({
            let last = forall|k: int|
                i < k < messages.len() ==> (#[trigger] messages[k]).text_at("role"@) == Some(
                    "system"@,
                );
            let after = cached(messages)[i];
            let mark = Tree::Object(map!["type"@ => Tree::Text("ephemeral"@)]);
            match messages[i].field("content"@) {
                Some(Tree::Text(s)) => if last {
                    after.items_at("content"@) matches Some(blocks) && blocks.len() == 1
                        && blocks[0].field("cache_control"@) == Some(mark)
                } else {
                    after.field("content"@) == Some(Tree::Text(s))
                },
                Some(Tree::Array(blocks)) => 0 <= j < blocks.len() && blocks[j] is Object
                    ==> after.items_at("content"@)->0[j].field("cache_control"@) == if last && j
                    == blocks.len() - 1 {
                    Some(mark)
                } else {
                    None
                },
                _ => true,
            }
        }),
{
    lemma_names();
    let bare = messages.map_values(|m: Tree| unmarked(m));
    lemma_last_turn(bare, bare.len() as int);
    assert forall|k: int| 0 <= k < messages.len() implies (#[trigger] bare[k]).text_at("role"@)
        == messages[k].text_at("role"@) by {
        lemma_unmarked_twice(messages[k]);
        assert(bare[k] == unmarked(messages[k]));
    }
    assert(crate::prompt::ephemeral().members() =~= map!["type"@ => Tree::Text("ephemeral"@)]);
    let last = forall|k: int|
        i < k < messages.len() ==> (#[trigger] messages[k]).text_at("role"@) == Some("system"@);
    let turn = last_turn(bare, bare.len() as int);
    if last {
        if turn is Some && turn->0 > i {
            assert(messages[turn->0].text_at("role"@) == Some("system"@));
            assert(bare[turn->0].text_at("role"@) == Some("system"@));
        }
        assert(bare[i].text_at("role"@) != Some("system"@));
        assert(turn == Some(i));
    } else {
        let k = choose|k: int|
            i < k < messages.len() && (#[trigger] messages[k]).text_at("role"@) != Some(
                "system"@,
            );
        assert(bare[k].text_at("role"@) != Some("system"@));
        assert(turn != Some(i));
        assert(cached(messages)[i] == bare[i]);
    }
    if let Some(Tree::Array(blocks)) = messages[i].field("content"@) {
        if 0 <= j < blocks.len() {
            assert(unmarked_blocks(blocks)[j] == blocks[j].without("cache_control"@));
        }
    }
    reveal_strlit("type");
    reveal_strlit("text");
    reveal_strlit("cache_control");
    reveal_strlit("role");
    reveal_strlit("content");
    assert("type"@.len() == 4 && "type"@[0] == 't' && "type"@[1] == 'y');
    assert("text"@.len() == 4 && "text"@[0] == 't' && "text"@[1] == 'e');
    assert("cache_control"@.len() == 13);
    assert("role"@.len() == 4 && "role"@[0] == 'r');
    assert("content"@.len() == 7);
}

/// A body that is not for a start plan goes out with its messages, marked, and with
/// its system prompt and tools as they are; one for a start plan with the turn that
/// names the date in front of its messages, and with tools that bear no markers.
pub proof fn law_bodies_keep_their_messages(
    body: Tree,
    start_plan: bool,
    data: Tree,
    provider: Option<Seq<char>>,
    user_id: Seq<char>,
    env: EnvPromptInfo,
    date: Seq<char>,
    tools: Seq<Tree>,
    i: int,
    key: Seq<char>,
)
    requires
        body is Object,
    ensures
        ({
            let out = transformed(body, start_plan, data, provider, user_id, env, date);
            &&& body.field("messages"@) is None ==> out.field("messages"@) is None
            &&& body.items_at("messages"@) matches Some(messages) ==> out.items_at("messages"@)
                == Some(
                if start_plan && messages.len() > 0 {
                    cached(seq![crate::prompt::context_message(data, date)] + messages)
                } else {
                    cached(messages)
                },
            )
            &&& start_plan && body.items_at("tools"@) == Some(tools) && 0 <= i < tools.len() ==> {
                &&& out.items_at("tools"@) matches Some(sent)
                &&& sent.len() == tools.len()
                &&& sent[i].field("cache_control"@) is None
                &&& key != "cache_control"@ ==> sent[i].field(key) == tools[i].field(key)
            }
            &&& start_plan ==> out.field("system"@) == Some(
                Tree::Array(
                    crate::prompt::start_plan_system(
                        data,
                        body.field("system"@),
                        body.text_at("model"@),
                        env,
                        provider,
                    ),
                ),
            )
            &&& out.text_in("metadata"@, "user_id"@) == Some(user_id)
            &&& key != "user_id"@ ==> out.field_in("metadata"@, key) == body.field_in(
                "metadata"@,
                key,
            )
        }),
{
    lemma_names();
    if 0 <= i < tools.len() {
        assert(unmarked_blocks(tools)[i] == tools[i].without("cache_control"@));
    }
}

/// The id of a user names the device where there is one, no account, and the session
/// without the prefix that tells its kind.
pub proof fn law_user_ids_name_device_and_session(
    device_mid: Option<Seq<char>>,
    session: Seq<char>,
    bare: Seq<char>,
)
    ensures
        user_id_tree(device_mid, Some(session)).text_at("device_id"@) == device_mid,
        device_mid is None ==> user_id_tree(device_mid, Some(session)).field("device_id"@) is None,
        user_id_tree(device_mid, Some(session)).text_at("account_uuid"@) == Some(
            Seq::<char>::empty(),
        ),
        user_id_tree(device_mid, None).text_at("session_id"@) == Some(Seq::<char>::empty()),
        bare.len() > 0 ==> user_id_tree(device_mid, Some("sess_"@ + bare)).text_at("session_id"@)
            == Some(bare),
        bare.len() > 0 ==> user_id_tree(device_mid, Some("subagent_agent_"@ + bare)).text_at(
            "session_id"@,
        ) == Some(bare),
        !"sess_"@.is_prefix_of(session) && !"subagent_agent_"@.is_prefix_of(session)
            ==> user_id_tree(device_mid, Some(session)).text_at("session_id"@) == Some(session),
{
    reveal_strlit("device_id");
    reveal_strlit("account_uuid");
    reveal_strlit("session_id");
    assert("device_id"@.len() == 9);
    assert("account_uuid"@.len() == 12);
    assert("session_id"@.len() == 10);
    reveal_strlit("sess_");
    reveal_strlit("subagent_agent_");
    let one = "sess_"@ + bare;
    let two = "subagent_agent_"@ + bare;
    assert(one.take(5) =~= "sess_"@);
    assert(one.skip(5) =~= bare);
    assert(two.take(15) =~= "subagent_agent_"@);
    assert(two.skip(15) =~= bare);
    if "sess_"@.is_prefix_of(two) {
        assert(two.take(5)[1] == two[1]);
        assert("subagent_agent_"@[1] == 'u' && "sess_"@[1] == 'e');
    }
}

/// What stands in place of the messages or the tools and is no list is sent as it
/// is.
pub proof fn law_other_shapes_are_sent_as_they_are(
    body: Tree,
    start_plan: bool,
    data: Tree,
    provider: Option<Seq<char>>,
    user_id: Seq<char>,
    env: EnvPromptInfo,
    date: Seq<char>,
)
    requires
        body is Object,
    ensures
        ({
            let out = transformed(body, start_plan, data, provider, user_id, env, date);
            &&& body.items_at("messages"@) is None ==> out.field("messages"@) == body.field(
                "messages"@,
            )
            &&& body.items_at("tools"@) is None ==> out.field("tools"@) == body.field("tools"@)
            &&& !start_plan ==> out.field("tools"@) == body.field("tools"@)
            &&& !start_plan ==> out.field("system"@) == body.field("system"@)
            &&& out is Object
        }),
{
    reveal_strlit("messages");
    reveal_strlit("tools");
    reveal_strlit("system");
    reveal_strlit("metadata");
    assert("messages"@.len() == 8 && "messages"@[2] == 's');
    assert("tools"@.len() == 5);
    assert("system"@.len() == 6);
    assert("metadata"@.len() == 8 && "metadata"@[2] == 't');
}

/// A session that is only a prefix is named by it.
pub proof fn law_bare_prefixes_are_sessions(device_mid: Option<Seq<char>>)
    ensures
        user_id_tree(device_mid, Some("sess_"@)).text_at("session_id"@) == Some("sess_"@),
        user_id_tree(device_mid, Some("subagent_agent_"@)).text_at("session_id"@) == Some(
            "subagent_agent_"@,
        ),
{
    reveal_strlit("device_id");
    reveal_strlit("account_uuid");
    reveal_strlit("session_id");
    reveal_strlit("sess_");
    reveal_strlit("subagent_agent_");
    assert("device_id"@.len() == 9);
    assert("account_uuid"@.len() == 12);
    assert("session_id"@.len() == 10);
    assert("sess_"@.len() == 5);
    assert("subagent_agent_"@.len() == 15);
    assert("subagent_agent_"@[1] == 'u' && "sess_"@[1] == 'e');
    if "sess_"@.is_prefix_of("subagent_agent_"@) {
        assert("subagent_agent_"@.take(5)[1] == 'u');
    }
}

} // verus!
