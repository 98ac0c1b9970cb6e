//! The system prompt that a start plan asks for, and the user turn that names
//! the date. The wording comes from a document that is handed in.

use crate::identity::EnvPromptInfo;
use crate::json::{text_or_blank, Json, Tree};
use crate::text::{
    concat, concat3, decimal_of, is_blank, is_empty, joined, padded, replaced, same, trimmed,
};
use crate::translate::make_text_block;
use vstd::prelude::*;

verus! {

/// The name of the model provider that belongs to a sign-in provider.
pub open spec fn model_provider(provider: Seq<char>) -> Seq<char> {
    if provider == "bigmodel"@ {
        "bigmodel-api"@
    } else {
        "zai-api"@
    }
}

/// The name of the model provider that belongs to a sign-in provider.
pub fn provider_model_id(provider: &str) -> (r: &'static str)
    ensures
        r@ == model_provider(provider@),
{
    if same(provider, "bigmodel") {
        "bigmodel-api"
    } else {
        "zai-api"
    }
}

// ---------------------------------------------------------------------------
// Dates
// ---------------------------------------------------------------------------

/// A year in at least four characters, a minus sign among them.
pub open spec fn year_text(year: int) -> Seq<char> {
    if year < 0 {
        "-"@ + crate::text::zero_padded(crate::text::decimal((-year) as nat), 3)
    } else {
        crate::text::zero_padded(crate::text::decimal(year as nat), 4)
    }
}

/// A date as year, month and day with hyphens between them.
pub open spec fn date_text(year: int, month: nat, day: nat) -> Seq<char> {
    year_text(year) + "-"@ + crate::text::zero_padded(crate::text::decimal(month), 2) + "-"@
        + crate::text::zero_padded(crate::text::decimal(day), 2)
}

/// Whether a text is a date with a month from 1 to 12 and a day from 1 to 31.
pub open spec fn is_date(s: Seq<char>) -> bool {
    exists|year: int, month: nat, day: nat|
        1 <= month <= 12 && 1 <= day <= 31 && s == #[trigger] date_text(year, month, day)
}

/// `chrono::Local::now` gives the current date of the machine's time zone, and
/// `Datelike` its parts: the month from 1 to 12 and the day from 1 to 31.
#[verifier::external_body]
fn local_date() -> (r: (i32, u32, u32))
    ensures
        1 <= r.1 <= 12,
        1 <= r.2 <= 31,
{
    let now = chrono::Local::now();
    (
        chrono::Datelike::year(&now),
        chrono::Datelike::month(&now),
        chrono::Datelike::day(&now),
    )
}

/// A date as year, month and day with hyphens between them.
pub fn iso_date(year: i32, month: u32, day: u32) -> (r: String)
    ensures
        r@ == date_text(year as int, month as nat, day as nat),
{
    let year_part = if year < 0 {
        let magnitude: u128 = (-(year as i64)) as u128;
        concat("-", padded(decimal_of(magnitude).as_str(), 3).as_str())
    } else {
        padded(decimal_of(year as u128).as_str(), 4)
    };
    let month_part = padded(decimal_of(month as u128).as_str(), 2);
    let day_part = padded(decimal_of(day as u128).as_str(), 2);
    let front = concat3(year_part.as_str(), "-", month_part.as_str());
    concat3(front.as_str(), "-", day_part.as_str())
}

/// The current date of the machine's time zone.
pub fn format_local_iso_date() -> (r: String)
    ensures
        is_date(r@),
{
    let (year, month, day): (i32, u32, u32) = local_date();
    let r = iso_date(year, month, day);
    assert(r@ == date_text(year as int, month as nat, day as nat));
    r
}

// ---------------------------------------------------------------------------
// The system prompt
// ---------------------------------------------------------------------------

/// A text of the wording, empty where there is none.
pub open spec fn wording(data: Tree, section: Seq<char>, key: Seq<char>) -> Seq<char> {
    crate::json::or_blank(data.text_in(section, key))
}

fn read_wording(data: &Json, section: &str, key: &str) -> (r: String)
    ensures
        r@ == wording(data@, section@, key@),
{
    text_or_blank(data.str_in(section, key))
}

/// A line of the description of the surroundings.
pub open spec fn labelled(label: Seq<char>, value: Seq<char>) -> Seq<char> {
    "- "@ + label + ": "@ + value
}

fn make_labelled(label: &str, value: &str) -> (r: String)
    ensures
        r@ == labelled(label@, value@),
{
    let front = concat3("- ", label, ": ");
    concat(front.as_str(), value)
}

/// The lines of the description of the surroundings; the last names model and
/// provider, where both are known.
pub open spec fn environment_lines(
    data: Tree,
    env: EnvPromptInfo,
    model: Option<Seq<char>>,
    provider: Option<Seq<char>>,
) -> Seq<Seq<char>> {
    let e = "environment"@;
    let fixed = seq![
        wording(data, e, "heading"@),
        wording(data, e, "invokedLine"@),
        labelled(wording(data, e, "cwdLabel"@), env.cwd@),
        labelled(wording(data, e, "gitLabel"@), wording(data, e, "gitNo"@)),
        labelled(wording(data, e, "platformLabel"@), env.platform@),
        labelled(wording(data, e, "shellLabel"@), env.shell@),
        labelled(wording(data, e, "osVersionLabel"@), env.os_version@),
    ];
    match (model, provider) {
        (Some(m), Some(p)) => if crate::text::trim(m).len() > 0 {
            fixed.push(
                crate::text::replace(
                    crate::text::replace(
                        wording(data, e, "poweredByLine"@),
                        "{provider}"@,
                        model_provider(p),
                    ),
                    "{model}"@,
                    crate::text::trim(m),
                ),
            )
        } else {
            fixed
        },
        _ => fixed,
    }
}

/// The description of the surroundings.
pub open spec fn environment_section(
    data: Tree,
    env: EnvPromptInfo,
    model: Option<Seq<char>>,
    provider: Option<Seq<char>>,
) -> Seq<char> {
    crate::text::join(environment_lines(data, env, model, provider), "\n"@)
}

/// The description of the surroundings.
pub fn build_environment_section(
    data: &Json,
    env: &EnvPromptInfo,
    model: Option<&str>,
    provider: Option<&str>,
) -> (r: String)
    ensures
        r@ == environment_section(
            data@,
            *env,
            crate::text::seen_str(model),
            crate::text::seen_str(provider),
        ),
{
    let cwd_label = read_wording(data, "environment", "cwdLabel");
    let git_label = read_wording(data, "environment", "gitLabel");
    let git_no = read_wording(data, "environment", "gitNo");
    let platform_label = read_wording(data, "environment", "platformLabel");
    let shell_label = read_wording(data, "environment", "shellLabel");
    let os_label = read_wording(data, "environment", "osVersionLabel");
    let mut lines: Vec<String> = vec![
        read_wording(data, "environment", "heading"),
        read_wording(data, "environment", "invokedLine"),
        make_labelled(cwd_label.as_str(), env.cwd.as_str()),
        make_labelled(git_label.as_str(), git_no.as_str()),
        make_labelled(platform_label.as_str(), env.platform.as_str()),
        make_labelled(shell_label.as_str(), env.shell.as_str()),
        make_labelled(os_label.as_str(), env.os_version.as_str()),
    ];
    if let Some(m) = model {
        if let Some(p) = provider {
            let m = trimmed(m);
            if !is_empty(m.as_str()) {
                let line = read_wording(data, "environment", "poweredByLine");
                proof {
                    reveal_strlit("{provider}");
                    reveal_strlit("{model}");
                    assert("{provider}"@.len() == 10 && "{model}"@.len() == 7);
                }
                let named = replaced(line.as_str(), "{provider}", provider_model_id(p));
                lines.push(replaced(named.as_str(), "{model}", m.as_str()));
            }
        }
    }
    assert(crate::text::views(lines@) =~= environment_lines(
        data@,
        *env,
        crate::text::seen_str(model),
        crate::text::seen_str(provider),
    ));
    joined(&lines, "\n")
}

/// The block for one item of a client's system prompt: a text that is not
/// blank. Cache markers do not go along.
pub open spec fn system_item_block(item: Tree) -> Option<Tree> {
    match item {
        Tree::Text(s) => if crate::text::trim(s).len() > 0 {
            Some(crate::translate::text_block(s))
        } else {
            None
        },
        _ => if crate::translate::is_type(item, "text"@) {
            match item.text_at("text"@) {
                Some(text) => if crate::text::trim(text).len() > 0 {
                    Some(crate::translate::text_block(text))
                } else {
                    None
                },
                None => None,
            }
        } else {
            None
        },
    }
}

/// The blocks for the items of a client's system prompt.
pub open spec fn system_item_blocks(items: Seq<Tree>) -> Seq<Tree>
    decreases items.len(),
{
    if items.len() == 0 {
        Seq::empty()
    } else {
        match system_item_block(items.last()) {
            Some(block) => system_item_blocks(items.drop_last()).push(block),
            None => system_item_blocks(items.drop_last()),
        }
    }
}

/// The blocks of a client's system prompt, which is a text or a list.
pub open spec fn client_blocks(system: Option<Tree>) -> Seq<Tree> {
    match system {
        Some(Tree::Text(s)) => if crate::text::trim(s).len() > 0 {
            seq![crate::translate::text_block(crate::text::trim(s))]
        } else {
            Seq::empty()
        },
        Some(Tree::Array(items)) => system_item_blocks(items),
        _ => Seq::empty(),
    }
}

fn make_item_block(item: &Json) -> (r: Option<Json>)
    ensures
        crate::json::seen_own(r) == system_item_block(item@),
{
    if let Some(s) = item.as_str() {
        if is_blank(s) {
            return None;
        }
        return Some(make_text_block(s));
    }
    if item.is_text_at("type", "text") {
        if let Some(text) = item.str_at("text") {
            if !is_blank(text) {
                return Some(make_text_block(text));
            }
        }
    }
    None
}

/// The blocks of a client's system prompt.
fn normalize_user_system(system: Option<&Json>) -> (r: Vec<Json>)
    ensures
        crate::json::trees(r@) == client_blocks(crate::json::seen(system)),
{
    let mut out: Vec<Json> = Vec::new();
    assert(crate::json::trees(out@) =~= Seq::<Tree>::empty());
    let system = match system {
        Some(system) => system,
        None => {
            return out;
        },
    };
    if let Some(s) = system.as_str() {
        let text = trimmed(s);
        if !is_empty(text.as_str()) {
            let block = make_text_block(text.as_str());
            out.push(block);
            assert(crate::json::trees(out@) =~= seq![block@]);
        }
        return out;
    }
    if let Some(items) = system.as_items() {
        let ghost all = crate::json::trees(items@);
        let mut i: usize = 0;
        assert(crate::json::trees(out@) =~= system_item_blocks(all.take(0)));
        while i < items.len()
            invariant
                i <= items@.len(),
                all == crate::json::trees(items@),
                crate::json::trees(out@) == system_item_blocks(all.take(i as int)),
            decreases items@.len() - i,
        {
            let ghost before = out@;
            assert(all.take(i + 1).drop_last() =~= all.take(i as int));
            assert(all.take(i + 1).last() == items@[i as int]@);
            if let Some(block) = make_item_block(&items[i]) {
                out.push(block);
                assert(crate::json::trees(out@) =~= crate::json::trees(before).push(block@));
            }
            i += 1;
        }
        assert(all.take(items@.len() as int) =~= all);
    }
    out
}

/// The marker behind which the upstream may cache.
pub open spec fn ephemeral() -> Tree {
    crate::json::empty_tree().with("type"@, Tree::Text("ephemeral"@))
}

/// A text block with a cache marker.
pub open spec fn marked_block(s: Seq<char>) -> Tree {
    crate::translate::text_block(s).with("cache_control"@, ephemeral())
}

/// The marker behind which the upstream may cache.
pub fn make_ephemeral() -> (r: Json)
    ensures
        r@ == ephemeral(),
{
    Json::object().with("type", Json::text("ephemeral"))
}

/// A text block with a cache marker.
pub fn make_marked_block(s: &str) -> (r: Json)
    ensures
        r@ == marked_block(s@),
{
    make_text_block(s).with("cache_control", make_ephemeral())
}

/// The texts among the items of a list.
pub open spec fn texts_of(items: Seq<Tree>) -> Seq<Seq<char>>
    decreases items.len(),
{
    if items.len() == 0 {
        Seq::empty()
    } else {
        match items.last().text() {
            Some(s) => texts_of(items.drop_last()).push(s),
            None => texts_of(items.drop_last()),
        }
    }
}

/// The part of the system prompt that never changes.
pub open spec fn stable_text(data: Tree) -> Seq<char> {
    match data.items_at("stableSections"@) {
        Some(items) => crate::text::join(texts_of(items), "\n\n"@),
        None => Seq::empty(),
    }
}

/// The part of the system prompt that depends on the surroundings.
pub open spec fn dynamic_text(
    data: Tree,
    env: EnvPromptInfo,
    model: Option<Seq<char>>,
    provider: Option<Seq<char>>,
) -> Seq<char> {
    crate::text::join(
        seq![
            wording(data, "dynamicSections"@, "beforeEnvironment"@),
            environment_section(data, env, model, provider),
            wording(data, "dynamicSections"@, "afterEnvironment"@),
        ],
        "\n\n"@,
    )
}

/// The system prompt of a start plan: three blocks of its own, each with a
/// cache marker, and behind them the blocks of the client.
pub open spec fn start_plan_system(
    data: Tree,
    existing: Option<Tree>,
    model: Option<Seq<char>>,
    env: EnvPromptInfo,
    provider: Option<Seq<char>>,
) -> Seq<Tree> {
    seq![
        marked_block(crate::json::or_blank(data.text_at("cliPrefix"@))),
        marked_block(stable_text(data)),
        marked_block("\n\n"@ + dynamic_text(data, env, model, provider)),
    ] + client_blocks(existing)
}

fn make_stable_text(data: &Json) -> (r: String)
    ensures
        r@ == stable_text(data@),
{
    let items = match data.items_at("stableSections") {
        Some(items) => items,
        None => {
            let r = String::new();
            assert(r@ =~= Seq::<char>::empty());
            return r;
        },
    };
    let ghost all = crate::json::trees(items@);
    let mut texts: Vec<String> = Vec::new();
    let mut i: usize = 0;
    assert(crate::text::views(texts@) =~= texts_of(all.take(0)));
    while i < items.len()
        invariant
            i <= items@.len(),
            all == crate::json::trees(items@),
            crate::text::views(texts@) == texts_of(all.take(i as int)),
        decreases items@.len() - i,
    {
        let ghost before = texts@;
        assert(all.take(i + 1).drop_last() =~= all.take(i as int));
        assert(all.take(i + 1).last() == items@[i as int]@);
        if let Some(s) = items[i].as_str() {
            texts.push(s.to_owned());
            assert(crate::text::views(texts@) =~= crate::text::views(before).push(s@));
        }
        i += 1;
    }
    assert(all.take(items@.len() as int) =~= all);
    joined(&texts, "\n\n")
}

/// The system prompt of a start plan.
pub fn build_start_plan_system(
    data: &Json,
    existing_system: Option<&Json>,
    model: Option<&str>,
    env: &EnvPromptInfo,
    provider: Option<&str>,
) -> (r: Vec<Json>)
    ensures
        crate::json::trees(r@) == start_plan_system(
            data@,
            crate::json::seen(existing_system),
            crate::text::seen_str(model),
            *env,
            crate::text::seen_str(provider),
        ),
{
    let stable = make_stable_text(data);
    let parts: Vec<String> = vec![
        read_wording(data, "dynamicSections", "beforeEnvironment"),
        build_environment_section(data, env, model, provider),
        read_wording(data, "dynamicSections", "afterEnvironment"),
    ];
    assert(crate::text::views(parts@) =~= seq![
        wording(data@, "dynamicSections"@, "beforeEnvironment"@),
        environment_section(
            data@,
            *env,
            crate::text::seen_str(model),
            crate::text::seen_str(provider),
        ),
        wording(data@, "dynamicSections"@, "afterEnvironment"@),
    ]);
    let dynamic = joined(&parts, "\n\n");
    let front = concat("\n\n", dynamic.as_str());
    let prefix = text_or_blank(data.str_at("cliPrefix"));
    let mut out: Vec<Json> = vec![
        make_marked_block(prefix.as_str()),
        make_marked_block(stable.as_str()),
        make_marked_block(front.as_str()),
    ];
    let ghost official = crate::json::trees(out@);
    let mut client: Vec<Json> = normalize_user_system(existing_system);
    let ghost added = client@;
    out.append(&mut client);
    assert(crate::json::trees(out@) =~= official + crate::json::trees(added));
    assert(crate::json::trees(out@) =~= start_plan_system(
        data@,
        crate::json::seen(existing_system),
        crate::text::seen_str(model),
        *env,
        crate::text::seen_str(provider),
    ));
    out
}

// ---------------------------------------------------------------------------
// The context prefix
// ---------------------------------------------------------------------------

/// The text that names the date.
pub open spec fn context_text(data: Tree, date: Seq<char>) -> Seq<char> {
    let cp = "contextPrefix"@;
    let section = wording(data, cp, "currentDateHeading"@) + "\n"@ + crate::text::replace(
        wording(data, cp, "currentDateLine"@),
        "{date}"@,
        date,
    );
    wording(data, "systemReminder"@, "open"@) + crate::text::join(
        seq![wording(data, cp, "intro"@), section, Seq::empty(), wording(data, cp, "outro"@)],
        "\n"@,
    ) + wording(data, "systemReminder"@, "close"@)
}

/// The user turn that names the date.
pub open spec fn context_message(data: Tree, date: Seq<char>) -> Tree {
    crate::translate::message(
        "user"@,
        Tree::Array(seq![crate::translate::text_block(context_text(data, date))]),
    )
}

/// The user turn that names a given date.
pub fn context_prefix_message_at(data: &Json, date: &str) -> (r: Json)
    ensures
        r@ == context_message(data@, date@),
{
    proof {
        reveal_strlit("{date}");
        assert("{date}"@.len() == 6);
    }
    let heading = read_wording(data, "contextPrefix", "currentDateHeading");
    let line = read_wording(data, "contextPrefix", "currentDateLine");
    let dated = replaced(line.as_str(), "{date}", date);
    let section = concat3(heading.as_str(), "\n", dated.as_str());
    let none = String::new();
    assert(none@ =~= Seq::<char>::empty());
    let parts: Vec<String> = vec![
        read_wording(data, "contextPrefix", "intro"),
        section,
        none,
        read_wording(data, "contextPrefix", "outro"),
    ];
    assert(crate::text::views(parts@) =~= seq![
        wording(data@, "contextPrefix"@, "intro"@),
        section@,
        Seq::empty(),
        wording(data@, "contextPrefix"@, "outro"@),
    ]);
    let body = joined(&parts, "\n");
    let open = read_wording(data, "systemReminder", "open");
    let close = read_wording(data, "systemReminder", "close");
    let text = concat3(open.as_str(), body.as_str(), close.as_str());
    let block = make_text_block(text.as_str());
    let blocks: Vec<Json> = vec![block];
    assert(crate::json::trees(blocks@) =~= seq![block@]);
    Json::object().with("role", Json::text("user")).with("content", Json::array(blocks))
}

/// The user turn that names the current date.
pub fn build_context_prefix_message(data: &Json) -> (r: Json)
    ensures
        exists|date: Seq<char>| is_date(date) && r@ == #[trigger] context_message(data@, date),
{
    let date = format_local_iso_date();
    let r = context_prefix_message_at(data, date.as_str());
    assert(r@ == context_message(data@, date@));
    r
}

/// A start plan's system prompt begins with its own three blocks, each behind a
/// cache marker; what the client said follows without any.
pub proof fn law_official_blocks_come_first(
    data: Tree,
    existing: Option<Tree>,
    model: Option<Seq<char>>,
    env: EnvPromptInfo,
    provider: Option<Seq<char>>,
)
    ensures
        ({
            let blocks = start_plan_system(data, existing, model, env, provider);
            &&& blocks.len() >= 3
            &&& forall|i: int|
                0 <= i < blocks.len() ==> ((#[trigger] blocks[i]).field("cache_control"@) is Some
                    <==> i < 3)
        }),
{
    let blocks = start_plan_system(data, existing, model, env, provider);
    reveal_strlit("type");
    reveal_strlit("text");
    reveal_strlit("cache_control");
    assert("type"@.len() == 4 && "text"@.len() == 4 && "cache_control"@.len() == 13);
    lemma_client_blocks_unmarked(existing);
    assert forall|i: int| 0 <= i < blocks.len() implies ((#[trigger] blocks[i]).field(
        "cache_control"@,
    ) is Some <==> i < 3) by {
        if i >= 3 {
            assert(blocks[i] == client_blocks(existing)[i - 3]);
        }
    }
}

proof fn lemma_item_blocks_unmarked(items: Seq<Tree>)
    ensures
        forall|i: int|
            0 <= i < system_item_blocks(items).len() ==> (
            #[trigger] system_item_blocks(items)[i]).field("cache_control"@) is None,
    decreases items.len(),
{
    reveal_strlit("type");
    reveal_strlit("text");
    reveal_strlit("cache_control");
    assert("type"@.len() == 4 && "text"@.len() == 4 && "cache_control"@.len() == 13);
    if items.len() > 0 {
        lemma_item_blocks_unmarked(items.drop_last());
    }
}

proof fn lemma_client_blocks_unmarked(existing: Option<Tree>)
    ensures
        forall|i: int|
            0 <= i < client_blocks(existing).len() ==> (
            #[trigger] client_blocks(existing)[i]).field("cache_control"@) is None,
{
    reveal_strlit("type");
    reveal_strlit("text");
    reveal_strlit("cache_control");
    assert("type"@.len() == 4 && "text"@.len() == 4 && "cache_control"@.len() == 13);
    if let Some(Tree::Array(items)) = existing {
        lemma_item_blocks_unmarked(items);
    }
}

/// The system prompt of a start plan says what the wording says: the prefix, the
/// fixed sections, and the surroundings between their two neighbours.
pub proof fn law_official_blocks_say_their_wording(
    data: Tree,
    existing: Option<Tree>,
    model: Option<Seq<char>>,
    env: EnvPromptInfo,
    provider: Option<Seq<char>>,
    prefix: Seq<char>,
    before: Seq<char>,
    after: Seq<char>,
    i: int,
)
    requires
        data.text_at("cliPrefix"@) == Some(prefix),
        data.text_in("dynamicSections"@, "beforeEnvironment"@) == Some(before),
        data.text_in("dynamicSections"@, "afterEnvironment"@) == Some(after),
        0 <= i < 3,
    ensures
        ({
            let blocks = start_plan_system(data, existing, model, env, provider);
            &&& blocks[i].text_at("type"@) == Some("text"@)
            &&& blocks[i].field("cache_control"@) == Some(
                Tree::Object(map!["type"@ => Tree::Text("ephemeral"@)]),
            )
            &&& blocks[0].text_at("text"@) == Some(prefix)
            &&& data.items_at("stableSections"@) matches Some(items) ==> blocks[1].text_at(
                "text"@,
            ) == Some(crate::text::join(texts_of(items), "\n\n"@))
            &&& blocks[2].text_at("text"@) == Some(
                "\n\n"@ + before + "\n\n"@ + environment_section(data, env, model, provider)
                    + "\n\n"@ + after,
            )
        }),
{
    reveal_strlit("type");
    reveal_strlit("text");
    reveal_strlit("cache_control");
    assert("type"@.len() == 4 && "type"@[1] == 'y');
    assert("text"@.len() == 4 && "text"@[1] == 'e');
    assert("cache_control"@.len() == 13);
    assert(ephemeral().members() =~= map!["type"@ => Tree::Text("ephemeral"@)]);
    let env_text = environment_section(data, env, model, provider);
    crate::text::law_joined_texts_are_apart(seq![before, env_text], after, "\n\n"@);
    crate::text::law_joined_texts_are_apart(seq![before], env_text, "\n\n"@);
    crate::text::law_joined_texts_are_apart(Seq::empty(), before, "\n\n"@);
    assert(Seq::<Seq<char>>::empty().push(before) =~= seq![before]);
    assert(seq![before].push(env_text) =~= seq![before, env_text]);
    assert(seq![before, env_text].push(after) =~= seq![before, env_text, after]);
    assert("\n\n"@ + (before + "\n\n"@ + env_text + "\n\n"@ + after) =~= "\n\n"@ + before
        + "\n\n"@ + env_text + "\n\n"@ + after);
}

/// The texts of a list are those of its items that are texts, in their order.
pub proof fn law_texts_are_listed_in_order(items: Seq<Tree>)
    ensures
        texts_of(items) == items.filter(|t: Tree| t is Text).map_values(|t: Tree| t->Text_0),
    decreases items.len(),
{
    reveal(Seq::filter);
    let all = items.filter(|t: Tree| t is Text).map_values(|t: Tree| t->Text_0);
    if items.len() > 0 {
        law_texts_are_listed_in_order(items.drop_last());
        let front = items.drop_last().filter(|t: Tree| t is Text);
        if items.last() is Text {
            assert(front.push(items.last()).map_values(|t: Tree| t->Text_0) =~= front.map_values(
                |t: Tree| t->Text_0,
            ).push(items.last()->Text_0));
        }
    } else {
        assert(all =~= Seq::<Seq<char>>::empty());
    }
}

/// What the client's own system prompt says goes along behind the official blocks:
/// a text without white space around it, and of a list each text that says anything.
pub proof fn law_client_prompts_are_kept(
    data: Tree,
    existing: Tree,
    model: Option<Seq<char>>,
    env: EnvPromptInfo,
    provider: Option<Seq<char>>,
    a: Seq<Tree>,
    b: Seq<Tree>,
    item: Tree,
)
    ensures
        ({
            let blocks = start_plan_system(data, Some(existing), model, env, provider);
            &&& existing matches Tree::Text(s) ==> if crate::text::trim(s).len() > 0 {
                blocks.len() == 4 && blocks[3].text_at("type"@) == Some("text"@)
                    && blocks[3].text_at("text"@) == Some(crate::text::trim(s))
            } else {
                blocks.len() == 3
            }
            &&& existing matches Tree::Array(items) ==> blocks.skip(3) == client_blocks(
                Some(Tree::Array(items)),
            )
            &&& start_plan_system(data, None, model, env, provider).len() == 3
        }),
        client_blocks(Some(Tree::Array(a + b))) == client_blocks(Some(Tree::Array(a)))
            + client_blocks(Some(Tree::Array(b))),
        ({
            let said = if item is Text {
                item.text()
            } else if item.text_at("type"@) == Some("text"@) {
                item.text_at("text"@)
            } else {
                None
            };
            let made = client_blocks(Some(Tree::Array(seq![item])));
            match said {
                Some(s) => if crate::text::trim(s).len() > 0 {
                    made.len() == 1 && made[0].text_at("type"@) == Some("text"@)
                        && made[0].text_at("text"@) == Some(s) && made[0].field("cache_control"@)
                        is None
                } else {
                    made.len() == 0
                },
                None => made.len() == 0,
            }
        }),
{
    reveal_strlit("type");
    reveal_strlit("text");
    reveal_strlit("cache_control");
    assert("type"@.len() == 4 && "type"@[1] == 'y');
    assert("text"@.len() == 4 && "text"@[1] == 'e');
    assert("cache_control"@.len() == 13);
    let blocks = start_plan_system(data, Some(existing), model, env, provider);
    if let Tree::Array(items) = existing {
        assert(blocks.skip(3) =~= client_blocks(Some(Tree::Array(items))));
    }
    lemma_items_apart(a, b);
    assert(seq![item].drop_last() =~= Seq::<Tree>::empty());
    assert(system_item_blocks(seq![item].drop_last()) =~= Seq::<Tree>::empty());
}

proof fn lemma_items_apart(a: Seq<Tree>, b: Seq<Tree>)
    ensures
        system_item_blocks(a + b) == system_item_blocks(a) + system_item_blocks(b),
    decreases b.len(),
{
    if b.len() == 0 {
        assert(a + b =~= a);
        assert(system_item_blocks(a) + Seq::<Tree>::empty() =~= system_item_blocks(a));
    } else {
        lemma_items_apart(a, b.drop_last());
        assert((a + b).drop_last() =~= a + b.drop_last());
        assert(system_item_blocks(a + b) =~= system_item_blocks(a) + system_item_blocks(b));
    }
}

/// The description of the surroundings names directory, platform, shell and version,
/// each behind its label, line by line.
pub proof fn law_surroundings_are_described(
    data: Tree,
    env: EnvPromptInfo,
    heading: Seq<char>,
    invoked: Seq<char>,
    cwd: Seq<char>,
    git: Seq<char>,
    no: Seq<char>,
    platform: Seq<char>,
    shell: Seq<char>,
    version: Seq<char>,
)
    requires
        data.text_in("environment"@, "heading"@) == Some(heading),
        data.text_in("environment"@, "invokedLine"@) == Some(invoked),
        data.text_in("environment"@, "cwdLabel"@) == Some(cwd),
        data.text_in("environment"@, "gitLabel"@) == Some(git),
        data.text_in("environment"@, "gitNo"@) == Some(no),
        data.text_in("environment"@, "platformLabel"@) == Some(platform),
        data.text_in("environment"@, "shellLabel"@) == Some(shell),
        data.text_in("environment"@, "osVersionLabel"@) == Some(version),
    ensures
        environment_section(data, env, None, None) == crate::text::join(
            seq![
                heading,
                invoked,
                "- "@ + cwd + ": "@ + env.cwd@,
                "- "@ + git + ": "@ + no,
                "- "@ + platform + ": "@ + env.platform@,
                "- "@ + shell + ": "@ + env.shell@,
                "- "@ + version + ": "@ + env.os_version@,
            ],
            "\n"@,
        ),
{
    assert(environment_lines(data, env, None, None) =~= seq![
        heading,
        invoked,
        "- "@ + cwd + ": "@ + env.cwd@,
        "- "@ + git + ": "@ + no,
        "- "@ + platform + ": "@ + env.platform@,
        "- "@ + shell + ": "@ + env.shell@,
        "- "@ + version + ": "@ + env.os_version@,
    ]);
}

/// Where model and provider are known, one more line names them, the provider by the
/// name that belongs to it.
pub proof fn law_model_and_provider_are_named(
    data: Tree,
    env: EnvPromptInfo,
    model: Seq<char>,
    provider: Seq<char>,
    line: Seq<char>,
)
    requires
        data.text_in("environment"@, "poweredByLine"@) == Some(line),
    ensures
        environment_section(data, env, Some(model), None) == environment_section(
            data,
            env,
            None,
            None,
        ),
        environment_section(data, env, None, Some(provider)) == environment_section(
            data,
            env,
            None,
            None,
        ),
        environment_section(data, env, Some(model), Some(provider)) == environment_section(
            data,
            env,
            None,
            None,
        ) + if crate::text::trim(model).len() > 0 {
            "\n"@ + crate::text::replace(
                crate::text::replace(
                    line,
                    "{provider}"@,
                    if provider == "bigmodel"@ {
                        "bigmodel-api"@
                    } else {
                        "zai-api"@
                    },
                ),
                "{model}"@,
                crate::text::trim(model),
            )
        } else {
            Seq::empty()
        },
{
    let plain = environment_lines(data, env, None, None);
    if crate::text::trim(model).len() > 0 {
        let last = environment_lines(data, env, Some(model), Some(provider)).last();
        crate::text::law_joined_texts_are_apart(plain, last, "\n"@);
        assert(environment_section(data, env, None, None) + ("\n"@ + last) =~= environment_section(
            data,
            env,
            None,
            None,
        ) + "\n"@ + last);
    } else {
        assert(environment_section(data, env, None, None) + Seq::<char>::empty()
            =~= environment_section(data, env, None, None));
    }
}

/// The turn that names the date is the user's, and says what the wording says with the
/// date in its place.
pub proof fn law_the_date_is_named(
    data: Tree,
    date: Seq<char>,
    open: Seq<char>,
    intro: Seq<char>,
    heading: Seq<char>,
    line: Seq<char>,
    outro: Seq<char>,
    close: Seq<char>,
)
    requires
        data.text_in("systemReminder"@, "open"@) == Some(open),
        data.text_in("contextPrefix"@, "intro"@) == Some(intro),
        data.text_in("contextPrefix"@, "currentDateHeading"@) == Some(heading),
        data.text_in("contextPrefix"@, "currentDateLine"@) == Some(line),
        data.text_in("contextPrefix"@, "outro"@) == Some(outro),
        data.text_in("systemReminder"@, "close"@) == Some(close),
    ensures
        ({
            let turn = context_message(data, date);
            &&& turn.text_at("role"@) == Some("user"@)
            &&& turn.items_at("content"@) matches Some(blocks)
            &&& blocks.len() == 1
            &&& blocks[0].text_at("type"@) == Some("text"@)
            &&& blocks[0].text_at("text"@) == Some(
                open + (intro + "\n"@ + (heading + "\n"@ + crate::text::replace(
                    line,
                    "{date}"@,
                    date,
                )) + "\n"@ + "\n"@ + outro) + close,
            )
        }),
{
    reveal_strlit("type");
    reveal_strlit("text");
    reveal_strlit("role");
    reveal_strlit("content");
    assert("type"@.len() == 4 && "type"@[0] == 't' && "type"@[1] == 'y');
    assert("text"@.len() == 4 && "text"@[0] == 't' && "text"@[1] == 'e');
    assert("role"@.len() == 4 && "role"@[0] == 'r');
    assert("content"@.len() == 7);
    let section = heading + "\n"@ + crate::text::replace(line, "{date}"@, date);
    let none = Seq::<char>::empty();
    crate::text::law_joined_texts_are_apart(Seq::empty(), intro, "\n"@);
    crate::text::law_joined_texts_are_apart(seq![intro], section, "\n"@);
    crate::text::law_joined_texts_are_apart(seq![intro, section], none, "\n"@);
    crate::text::law_joined_texts_are_apart(seq![intro, section, none], outro, "\n"@);
    assert(Seq::<Seq<char>>::empty().push(intro) =~= seq![intro]);
    assert(seq![intro].push(section) =~= seq![intro, section]);
    assert(seq![intro, section].push(none) =~= seq![intro, section, none]);
    assert(seq![intro, section, none].push(outro) =~= seq![intro, section, none, outro]);
    assert(intro + "\n"@ + section + "\n"@ + none =~= intro + "\n"@ + section + "\n"@);
}

/// A date is written with four digits of the year, two of the month and two of the
/// day, zeros before them where they are short, and hyphens between them.
pub proof fn law_dates_are_written_out(year: nat, month: nat, day: nat)
    requires
        year <= 9999,
        month <= 99,
        day <= 99,
    ensures
        ({
            let s = date_text(year as int, month, day);
            &&& s.len() == 10
            &&& s.take(4) == crate::text::zero_padded(crate::text::decimal(year), 4)
            &&& s[4] == '-'
            &&& s.subrange(5, 7) == crate::text::zero_padded(crate::text::decimal(month), 2)
            &&& s[7] == '-'
            &&& s.skip(8) == crate::text::zero_padded(crate::text::decimal(day), 2)
        }),
{
    reveal_strlit("-");
    assert("-"@.len() == 1 && "-"@[0] == '-');
    lemma_short(year, 4);
    lemma_short(month, 2);
    lemma_short(day, 2);
    let s = date_text(year as int, month, day);
    let y = crate::text::zero_padded(crate::text::decimal(year), 4);
    let m = crate::text::zero_padded(crate::text::decimal(month), 2);
    let d = crate::text::zero_padded(crate::text::decimal(day), 2);
    assert(s.take(4) =~= y);
    assert(s.subrange(5, 7) =~= m);
    assert(s.skip(8) =~= d);
}

proof fn lemma_short(n: nat, width: nat)
    requires
        n <= 9999,
        width == 4 || (width == 2 && n <= 99),
    ensures
        crate::text::zero_padded(crate::text::decimal(n), width).len() == width,
{
    reveal_with_fuel(crate::text::decimal, 5);
    crate::text::law_short_numbers_are_filled_up(crate::text::decimal(n), width, 0);
}

/// A wording that is missing is empty, and what stands round it stays.
pub proof fn law_missing_wordings_are_empty(
    data: Tree,
    existing: Option<Tree>,
    model: Option<Seq<char>>,
    env: EnvPromptInfo,
    provider: Option<Seq<char>>,
)
    requires
        data.field("cliPrefix"@) is None,
        data.field("stableSections"@) is None,
        data.field("dynamicSections"@) is None,
    ensures
        ({
            let blocks = start_plan_system(data, existing, model, env, provider);
            &&& blocks[0].text_at("text"@) == Some(Seq::<char>::empty())
            &&& blocks[1].text_at("text"@) == Some(Seq::<char>::empty())
            &&& blocks[2].text_at("text"@) == Some(
                "\n\n"@ + ("\n\n"@ + environment_section(data, env, model, provider) + "\n\n"@),
            )
        }),
{
    reveal_strlit("type");
    reveal_strlit("text");
    reveal_strlit("cache_control");
    assert("type"@.len() == 4 && "type"@[1] == 'y');
    assert("text"@.len() == 4 && "text"@[1] == 'e');
    assert("cache_control"@.len() == 13);
    let middle = environment_section(data, env, model, provider);
    let none = Seq::<char>::empty();
    let sep = "\n\n"@;
    let parts = seq![none, middle, none];
    assert(parts.drop_last() =~= seq![none, middle]);
    assert(parts.drop_last().drop_last() =~= seq![none]);
    reveal_with_fuel(crate::text::join, 4);
    assert(crate::text::join(parts, sep) =~= sep + middle + sep);
}

/// A text is a date only where it is one written out with a month of the year and
/// a day that a month can have.
pub proof fn law_dates_have_month_and_day(s: Seq<char>, year: int, month: nat, day: nat)
    ensures
        is_date(s) ==> exists|y: int, m: nat, d: nat|
            1 <= m && m <= 12 && 1 <= d && d <= 31 && s == #[trigger] date_text(y, m, d),
        1 <= month && month <= 12 && 1 <= day && day <= 31 ==> is_date(date_text(year, month, day)),
{
}

} // verus!
