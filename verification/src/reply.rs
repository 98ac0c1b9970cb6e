//! Answers to clients.

use crate::headers::HeaderList;
use crate::json::{Json, Tree};
use crate::models::{catalog, ModelDef};
use crate::text::{chars_of, concat, decimal_of, has};
use crate::translate::openai_error_body;
use crate::upstream::error_body;
use vstd::prelude::*;

verus! {

/// The dialect that a client speaks.
#[derive(Debug, Clone, Copy, PartialEq, Eq, Structural)]
pub enum Format {
    OpenAi,
    Anthropic,
}

/// An answer to a client.
pub struct Reply {
    pub status: u16,
    pub headers: HeaderList,
    pub body: String,
}

/// An answer to a client, with its body as characters.
pub ghost struct ReplyRow {
    pub status: u16,
    pub headers: Map<Seq<char>, Seq<u8>>,
    pub body: Seq<char>,
}

impl View for Reply {
    type V = ReplyRow;

    open spec fn view(&self) -> ReplyRow {
        ReplyRow { status: self.status, headers: self.headers@, body: self.body@ }
    }
}

/// The bytes of a text.
pub open spec fn bytes(s: Seq<char>) -> Seq<u8> {
    vstd::utf8::encode_utf8(s)
}

// ---------------------------------------------------------------------------
// Headers
// ---------------------------------------------------------------------------

/// The headers of an answer that is a document.
pub open spec fn document_headers() -> Map<Seq<char>, Seq<u8>> {
    Map::empty().insert("content-type"@, bytes("application/json"@))
}

/// The headers of an answer that is a document.
pub fn base_response_headers() -> (r: HeaderList)
    ensures
        r@ == document_headers(),
{
    HeaderList::new().put_text("content-type", "application/json")
}

/// The headers of the upstream that reach the client.
pub open spec fn forwarded_names() -> Seq<Seq<char>> {
    seq![
        "content-type"@,
        "content-encoding"@,
        "cache-control"@,
        "x-request-id"@,
        "anthropic-ratelimit-requests-limit"@,
        "anthropic-ratelimit-requests-remaining"@,
        "anthropic-ratelimit-requests-reset"@,
        "anthropic-ratelimit-tokens-limit"@,
        "anthropic-ratelimit-tokens-remaining"@,
        "anthropic-ratelimit-tokens-reset"@,
    ]
}

fn forwarded_list() -> (r: Vec<&'static str>)
    ensures
        r@.map_values(|s: &'static str| s@) == forwarded_names(),
{
    let list: Vec<&'static str> = vec![
        "content-type",
        "content-encoding",
        "cache-control",
        "x-request-id",
        "anthropic-ratelimit-requests-limit",
        "anthropic-ratelimit-requests-remaining",
        "anthropic-ratelimit-requests-reset",
        "anthropic-ratelimit-tokens-limit",
        "anthropic-ratelimit-tokens-remaining",
        "anthropic-ratelimit-tokens-reset",
    ];
    assert(list@.map_values(|s: &'static str| s@) =~= forwarded_names());
    list
}

/// Headers with those of some names replaced by what the upstream sent, where it
/// sent them.
pub open spec fn forwarded(
    base: Map<Seq<char>, Seq<u8>>,
    upstream: Map<Seq<char>, Seq<u8>>,
    names: Seq<Seq<char>>,
) -> Map<Seq<char>, Seq<u8>>
    decreases names.len(),
{
    if names.len() == 0 {
        base
    } else {
        let front = forwarded(base, upstream, names.drop_last());
        let key = crate::text::lower(names.last());
        if upstream.contains_key(key) {
            front.insert(names.last(), upstream[key])
        } else {
            front
        }
    }
}

/// Whether a text can stand in a header: visible ASCII characters, spaces and
/// tabs.
pub open spec fn plain(s: Seq<char>) -> bool {
    forall|i: int| 0 <= i < s.len() ==> (' ' <= #[trigger] s[i] <= '~' || s[i] == '\t')
}

/// Whether a text can stand in a header.
fn is_plain(s: &str) -> (r: bool)
    ensures
        r == plain(s@),
{
    let chars: Vec<char> = chars_of(s);
    let mut i: usize = 0;
    while i < chars.len()
        invariant
            i <= chars@.len(),
            chars@ == s@,
            forall|k: int| 0 <= k < i ==> (' ' <= #[trigger] s@[k] <= '~' || s@[k] == '\t'),
        decreases chars@.len() - i,
    {
        let c = chars[i];
        if !((' ' <= c && c <= '~') || c == '\t') {
            assert(!(' ' <= s@[i as int] <= '~' || s@[i as int] == '\t'));
            return false;
        }
        i += 1;
    }
    true
}

/// Headers with those that tell which account served a request and at which
/// attempt. A name that cannot stand in a header is left out.
pub open spec fn told(
    base: Map<Seq<char>, Seq<u8>>,
    account: Seq<char>,
    attempt: u32,
) -> Map<Seq<char>, Seq<u8>> {
    let named = if plain(account) {
        base.insert("x-zswitch-account"@, bytes(account))
    } else {
        base
    };
    named.insert("x-zswitch-attempts"@, bytes(crate::text::decimal(attempt as nat)))
}

/// Adds the headers that tell which account served a request and at which
/// attempt.
fn tell(headers: HeaderList, account: &str, attempt: u32) -> (r: HeaderList)
    ensures
        r@ == told(headers@, account@, attempt),
{
    let named = if is_plain(account) {
        headers.put_text("x-zswitch-account", account)
    } else {
        headers
    };
    let count = decimal_of(attempt as u128);
    named.put_text("x-zswitch-attempts", count.as_str())
}

/// The headers of an answer that the upstream gave: those to begin with, those
/// that it sent, and those that tell of account and attempt.
pub open spec fn final_headers(
    base: Map<Seq<char>, Seq<u8>>,
    upstream: Map<Seq<char>, Seq<u8>>,
    account: Seq<char>,
    attempt: u32,
) -> Map<Seq<char>, Seq<u8>> {
    told(forwarded(base, upstream, forwarded_names()), account, attempt)
}

/// The headers of an answer that the upstream gave.
pub fn finalize_headers(
    headers: HeaderList,
    upstream_headers: &reqwest::header::HeaderMap<reqwest::header::HeaderValue>,
    account: &str,
    attempt: u32,
) -> (r: HeaderList)
    ensures
        r@ == final_headers(
            headers@,
            crate::headers::first_values(*upstream_headers),
            account@,
            attempt,
        ),
{
    let names: Vec<&'static str> = forwarded_list();
    let ghost all = forwarded_names();
    let ghost sent = crate::headers::first_values(*upstream_headers);
    let ghost base = headers@;
    let mut out = headers;
    let mut i: usize = 0;
    assert(all.take(0) =~= Seq::<Seq<char>>::empty());
    while i < names.len()
        invariant
            i <= names@.len(),
            all == names@.map_values(|s: &'static str| s@),
            sent == crate::headers::first_values(*upstream_headers),
            out@ == forwarded(base, sent, all.take(i as int)),
        decreases names@.len() - i,
    {
        assert(all.take(i + 1).drop_last() =~= all.take(i as int));
        assert(all.take(i + 1).last() == names@[i as int]@);
        out = out.put_from(names[i], upstream_headers);
        i += 1;
    }
    assert(all.take(names@.len() as int) =~= all);
    tell(out, account, attempt)
}

// ---------------------------------------------------------------------------
// Errors
// ---------------------------------------------------------------------------

/// An answer that is a document.
pub open spec fn document(status: u16, headers: Map<Seq<char>, Seq<u8>>, body: Tree) -> ReplyRow {
    ReplyRow { status, headers, body: crate::json::rendered(body) }
}

/// An answer that is a document.
pub fn json_response(status: u16, headers: HeaderList, body: Json) -> (r: Reply)
    ensures
        r@ == document(status, headers@, body@),
{
    Reply { status, headers, body: body.render() }
}

/// An answer that is an error: its envelope is the same in either dialect.
pub open spec fn error_row(status: u16, error_type: Seq<char>, message: Seq<char>) -> ReplyRow {
    document(status, document_headers(), crate::translate::error_tree(message, error_type))
}

/// An answer that is an error.
pub fn error_response(format: Format, status: u16, error_type: &str, message: &str) -> (r: Reply)
    ensures
        r@ == error_row(status, error_type@, message@),
{
    let body = match format {
        Format::OpenAi => openai_error_body(message, error_type),
        Format::Anthropic => error_body(error_type, message),
    };
    json_response(status, base_response_headers(), body)
}

/// An answer that hands on a mistake of the client as the upstream told it. For
/// a client of another dialect a body that is no error envelope is put into one.
pub open spec fn raw_error_row(
    format: Format,
    status: u16,
    body: Seq<char>,
    account: Seq<char>,
    attempt: u32,
) -> ReplyRow {
    ReplyRow {
        status,
        headers: told(document_headers(), account, attempt),
        body: if format == Format::OpenAi && !crate::text::contains(body, "\"error\""@) {
            crate::json::rendered(
                crate::translate::error_tree(
                    "upstream rejected the request: "@ + body,
                    "upstream_error"@,
                ),
            )
        } else {
            body
        },
    }
}

/// An answer that hands on a mistake of the client as the upstream told it.
pub fn raw_error_response(format: Format, status: u16, body: &str, account: &str, attempt: u32) -> (r:
    Reply)
    ensures
        r@ == raw_error_row(format, status, body@, account@, attempt),
{
    let headers = tell(base_response_headers(), account, attempt);
    let enveloped = has(body, "\"error\"");
    let out = if format == Format::OpenAi && !enveloped {
        let message = concat("upstream rejected the request: ", body);
        openai_error_body(message.as_str(), "upstream_error").render()
    } else {
        body.to_owned()
    };
    Reply { status, headers, body: out }
}

// ---------------------------------------------------------------------------
// Models
// ---------------------------------------------------------------------------

/// A model as it is listed to clients.
pub open spec fn listed_model(row: crate::models::ModelRow) -> Tree {
    crate::json::empty_tree().with("id"@, Tree::Text(row.id)).with(
        "object"@,
        Tree::Text("model"@),
    ).with("owned_by"@, Tree::Text("zcode-switch-gateway"@))
}

/// The catalog as it is listed to clients.
pub open spec fn listed_models() -> Tree {
    crate::json::empty_tree().with("object"@, Tree::Text("list"@)).with(
        "data"@,
        Tree::Array(
            crate::models::catalog_rows().map_values(
                |row: crate::models::ModelRow| listed_model(row),
            ),
        ),
    )
}

fn make_listed(m: &ModelDef) -> (r: Json)
    ensures
        r@ == listed_model(m@),
{
    Json::object().with("id", Json::text(m.id)).with("object", Json::text("model")).with(
        "owned_by",
        Json::text("zcode-switch-gateway"),
    )
}

/// The answer that lists the catalog.
pub fn handle_list_models() -> (r: Reply)
    ensures
        r@ == document(200, document_headers(), listed_models()),
{
    let models: Vec<ModelDef> = catalog();
    let ghost rows = crate::models::catalog_rows();
    let mut data: Vec<Json> = Vec::new();
    let mut i: usize = 0;
    while i < models.len()
        invariant
            i <= models@.len(),
            rows == models@.map_values(|m: ModelDef| m@),
            data@.len() == i,
            forall|k: int| 0 <= k < i ==> (#[trigger] data@[k])@ == listed_model(rows[k]),
        decreases models@.len() - i,
    {
        assert(rows[i as int] == models@[i as int]@);
        data.push(make_listed(&models[i]));
        i += 1;
    }
    assert(crate::json::trees(data@) =~= rows.map_values(
        |row: crate::models::ModelRow| listed_model(row),
    ));
    let list = Json::object().with("object", Json::text("list")).with("data", Json::array(data));
    json_response(200, base_response_headers(), list)
}

// ---------------------------------------------------------------------------
// Laws
// ---------------------------------------------------------------------------

proof fn lemma_forwarded(
    base: Map<Seq<char>, Seq<u8>>,
    upstream: Map<Seq<char>, Seq<u8>>,
    names: Seq<Seq<char>>,
    key: Seq<char>,
)
    requires
        !names.contains(key),
    ensures
        forwarded(base, upstream, names).contains_key(key) == base.contains_key(key),
        base.contains_key(key) ==> forwarded(base, upstream, names)[key] == base[key],
    decreases names.len(),
{
    if names.len() > 0 {
        let front = names.drop_last();
        assert(names[names.len() - 1] == names.last());
        if front.contains(key) {
            let i = choose|i: int| 0 <= i < front.len() && front[i] == key;
            assert(names[i] == key);
        }
        lemma_forwarded(base, upstream, front, key);
    }
}

/// Of the headers of the upstream only those of the list reach the client: any
/// other header of an answer comes from the gateway itself.
pub proof fn law_only_listed_headers_are_forwarded(
    base: Map<Seq<char>, Seq<u8>>,
    upstream: Map<Seq<char>, Seq<u8>>,
    account: Seq<char>,
    attempt: u32,
    key: Seq<char>,
)
    requires
        !forwarded_names().contains(key),
        key != "x-zswitch-account"@,
        key != "x-zswitch-attempts"@,
    ensures
        final_headers(base, upstream, account, attempt).contains_key(key) == base.contains_key(key),
        base.contains_key(key) ==> final_headers(base, upstream, account, attempt)[key]
            == base[key],
{
    lemma_forwarded(base, upstream, forwarded_names(), key);
}

/// Every answer of the upstream tells at which attempt it was given, and by which
/// account where its name can stand in a header.
pub proof fn law_answers_tell_account_and_attempt(
    base: Map<Seq<char>, Seq<u8>>,
    upstream: Map<Seq<char>, Seq<u8>>,
    account: Seq<char>,
    attempt: u32,
)
    ensures
        ({
            let out = final_headers(base, upstream, account, attempt);
            &&& out.contains_key("x-zswitch-attempts"@)
            &&& out["x-zswitch-attempts"@] == bytes(crate::text::decimal(attempt as nat))
            &&& plain(account) ==> out.contains_key("x-zswitch-account"@)
                && out["x-zswitch-account"@] == bytes(account)
        }),
{
    reveal_strlit("x-zswitch-attempts");
    reveal_strlit("x-zswitch-account");
    assert("x-zswitch-attempts"@.len() == 18 && "x-zswitch-account"@.len() == 17);
}

/// What is seen of an answer is what its fields hold.
pub proof fn law_answers_tell_their_fields(r: Reply)
    ensures
        r@.status == r.status,
        r@.headers == r.headers@,
        r@.body == r.body@,
{
}

proof fn lemma_forwarded_one(
    base: Map<Seq<char>, Seq<u8>>,
    upstream: Map<Seq<char>, Seq<u8>>,
    names: Seq<Seq<char>>,
    name: Seq<char>,
)
    requires
        names.contains(name),
    ensures
        upstream.contains_key(crate::text::lower(name)) ==> forwarded(
            base,
            upstream,
            names,
        ).contains_key(name) && forwarded(base, upstream, names)[name]
            == upstream[crate::text::lower(name)],
        !upstream.contains_key(crate::text::lower(name)) ==> (forwarded(
            base,
            upstream,
            names,
        ).contains_key(name) == base.contains_key(name) && (base.contains_key(name) ==> forwarded(
            base,
            upstream,
            names,
        )[name] == base[name])),
    decreases names.len(),
{
    let front = names.drop_last();
    let i = choose|i: int| 0 <= i < names.len() && names[i] == name;
    if i < front.len() {
        assert(front[i] == name);
    }
    if front.contains(name) {
        lemma_forwarded_one(base, upstream, front, name);
    } else {
        lemma_forwarded(base, upstream, front, name);
    }
}

/// An answer bears the upstream's value of each header that is forwarded, and its
/// own where the upstream has none: the kind and encoding of the body, caching,
/// the request's id, and what is left of the limits.
pub proof fn law_listed_headers_come_from_upstream(
    base: Map<Seq<char>, Seq<u8>>,
    upstream: Map<Seq<char>, Seq<u8>>,
    account: Seq<char>,
    attempt: u32,
    name: Seq<char>,
)
    requires
        name == "content-type"@ || name == "content-encoding"@ || name == "cache-control"@ || name
            == "x-request-id"@ || name == "anthropic-ratelimit-requests-limit"@ || name
            == "anthropic-ratelimit-requests-remaining"@ || name
            == "anthropic-ratelimit-requests-reset"@ || name == "anthropic-ratelimit-tokens-limit"@
            || name == "anthropic-ratelimit-tokens-remaining"@ || name
            == "anthropic-ratelimit-tokens-reset"@,
    ensures
        ({
            let out = final_headers(base, upstream, account, attempt);
            let key = crate::text::lower(name);
            &&& upstream.contains_key(key) ==> out.contains_key(name) && out[name] == upstream[key]
            &&& !upstream.contains_key(key) ==> out.contains_key(name) == base.contains_key(name)
            &&& !upstream.contains_key(key) && base.contains_key(name) ==> out[name] == base[name]
        }),
{
    reveal_strlit("content-type");
    reveal_strlit("content-encoding");
    reveal_strlit("cache-control");
    reveal_strlit("x-request-id");
    reveal_strlit("anthropic-ratelimit-requests-limit");
    reveal_strlit("anthropic-ratelimit-requests-remaining");
    reveal_strlit("anthropic-ratelimit-requests-reset");
    reveal_strlit("anthropic-ratelimit-tokens-limit");
    reveal_strlit("anthropic-ratelimit-tokens-remaining");
    reveal_strlit("anthropic-ratelimit-tokens-reset");
    reveal_strlit("x-zswitch-account");
    reveal_strlit("x-zswitch-attempts");
    assert("content-type"@.len() == 12 && "content-type"@[0] == 'c');
    assert("content-encoding"@.len() == 16);
    assert("cache-control"@.len() == 13);
    assert("x-request-id"@.len() == 12 && "x-request-id"@[0] == 'x');
    assert("anthropic-ratelimit-requests-limit"@.len() == 34 && "anthropic-ratelimit-requests-limit"@[29] == 'l');
    assert("anthropic-ratelimit-requests-remaining"@.len() == 38);
    assert("anthropic-ratelimit-requests-reset"@.len() == 34 && "anthropic-ratelimit-requests-reset"@[29] == 'r');
    assert("anthropic-ratelimit-tokens-limit"@.len() == 32 && "anthropic-ratelimit-tokens-limit"@[27] == 'l');
    assert("anthropic-ratelimit-tokens-remaining"@.len() == 36);
    assert("anthropic-ratelimit-tokens-reset"@.len() == 32 && "anthropic-ratelimit-tokens-reset"@[27] == 'r');
    assert("x-zswitch-account"@.len() == 17);
    assert("x-zswitch-attempts"@.len() == 18);
    let f = forwarded_names();
    assert(f[0] == "content-type"@ && f[1] == "content-encoding"@ && f[2] == "cache-control"@);
    assert(f[3] == "x-request-id"@ && f[4] == "anthropic-ratelimit-requests-limit"@);
    assert(f[5] == "anthropic-ratelimit-requests-remaining"@);
    assert(f[6] == "anthropic-ratelimit-requests-reset"@);
    assert(f[7] == "anthropic-ratelimit-tokens-limit"@);
    assert(f[8] == "anthropic-ratelimit-tokens-remaining"@);
    assert(f[9] == "anthropic-ratelimit-tokens-reset"@);
    lemma_forwarded_one(base, upstream, f, name);
}

/// An answer tells the attempt in digits, and the account where each character of
/// its name is a tab or can be printed in ASCII; where one cannot, the answer says
/// no more of the account than it did.
pub proof fn law_answers_name_the_account(
    base: Map<Seq<char>, Seq<u8>>,
    account: Seq<char>,
    attempt: u32,
)
    ensures
        ({
            let out = told(base, account, attempt);
            let ascii = forall|i: int|
                0 <= i < account.len() ==> (' ' <= #[trigger] account[i] <= '~' || account[i]
                    == '\t');
            let at_first = base.contains_key("x-zswitch-account"@);
            &&& out.contains_key("x-zswitch-attempts"@)
            &&& out["x-zswitch-attempts"@] == vstd::utf8::encode_utf8(
                crate::text::decimal(attempt as nat),
            )
            &&& ascii ==> out.contains_key("x-zswitch-account"@) && out["x-zswitch-account"@]
                == vstd::utf8::encode_utf8(account)
            &&& !ascii ==> out.contains_key("x-zswitch-account"@) == at_first
            &&& forall|key: Seq<char>|
                #![trigger out.contains_key(key)]
                key != "x-zswitch-account"@ && key != "x-zswitch-attempts"@ ==> out.contains_key(
                    key,
                ) == base.contains_key(key) && (base.contains_key(key) ==> out[key] == base[key])
        }),
{
    reveal_strlit("x-zswitch-account");
    reveal_strlit("x-zswitch-attempts");
    assert("x-zswitch-account"@.len() == 17);
    assert("x-zswitch-attempts"@.len() == 18);
}

/// A document is answered with its text, as JSON, under the status that is given;
/// an error in addition tells its type and its message.
pub proof fn law_documents_are_answered_as_json(
    status: u16,
    headers: Map<Seq<char>, Seq<u8>>,
    body: Tree,
    error_type: Seq<char>,
    message: Seq<char>,
)
    ensures
        document(status, headers, body).status == status,
        document(status, headers, body).headers == headers,
        document(status, headers, body).body == crate::json::rendered(body),
        document_headers().contains_key("content-type"@),
        document_headers()["content-type"@] == vstd::utf8::encode_utf8("application/json"@),
        document_headers().dom() =~= set!["content-type"@],
        error_row(status, error_type, message).status == status,
        error_row(status, error_type, message).headers == document_headers(),
        exists|t: Tree|
            error_row(status, error_type, message).body == #[trigger] crate::json::rendered(t)
                && t.text_in("error"@, "type"@) == Some(error_type) && t.text_in(
                "error"@,
                "message"@,
            ) == Some(message),
{
    crate::translate::law_errors_tell_type_and_message(message, error_type);
    let t = crate::translate::error_tree(message, error_type);
    assert(error_row(status, error_type, message).body == crate::json::rendered(t));
}

/// The upstream's refusal is answered under its own status, and its text goes on
/// as it came, unless the client speaks the other format and the text tells of no
/// error: then it is told as the message of one.
pub proof fn law_refusals_are_told(
    format: Format,
    status: u16,
    body: Seq<char>,
    account: Seq<char>,
    attempt: u32,
)
    ensures
        ({
            let r = raw_error_row(format, status, body, account, attempt);
            let telling = crate::text::contains(body, "\"error\""@);
            &&& r.status == status
            &&& r.headers == told(document_headers(), account, attempt)
            &&& format == Format::Anthropic || telling ==> r.body == body
            &&& format == Format::OpenAi && !telling ==> exists|t: Tree|
                r.body == #[trigger] crate::json::rendered(t) && t.text_in("error"@, "type"@)
                    == Some("upstream_error"@) && t.text_in("error"@, "message"@) == Some(
                    "upstream rejected the request: "@ + body,
                )
        }),
{
    let message = "upstream rejected the request: "@ + body;
    crate::translate::law_errors_tell_type_and_message(message, "upstream_error"@);
    let t = crate::translate::error_tree(message, "upstream_error"@);
    if format == Format::OpenAi && !crate::text::contains(body, "\"error\""@) {
        assert(raw_error_row(format, status, body, account, attempt).body == crate::json::rendered(
            t,
        ));
    }
}

/// The models are listed one by one in the order of the catalog, each under its
/// id.
pub proof fn law_models_are_listed(i: int)
    requires
        0 <= i < crate::models::catalog_rows().len(),
    ensures
        listed_models().text_at("object"@) == Some("list"@),
        listed_models().items_at("data"@) is Some,
        listed_models().items_at("data"@)->0.len() == crate::models::catalog_rows().len(),
        (listed_models().items_at("data"@)->0)[i].text_at("id"@) == Some(
            crate::models::catalog_rows()[i].id,
        ),
        (listed_models().items_at("data"@)->0)[i].text_at("object"@) == Some("model"@),
        (listed_models().items_at("data"@)->0)[i].text_at("owned_by"@) == Some(
            "zcode-switch-gateway"@,
        ),
{
    reveal_strlit("object");
    reveal_strlit("data");
    reveal_strlit("id");
    reveal_strlit("owned_by");
    assert("object"@.len() == 6);
    assert("data"@.len() == 4);
    assert("id"@.len() == 2);
    assert("owned_by"@.len() == 8);
}

} // verus!
