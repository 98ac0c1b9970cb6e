//! The request to the upstream: its headers, and what can be told of its body.

use crate::body::build_anthropic_metadata_user_id;
use crate::headers::header_str;
use crate::identity::{build_llm_identity_headers, IdentityValues};
use crate::json::{parse, Json, Tree};
use crate::pool::PoolEntry;
use crate::text::{add_optional_pair, add_pair, add_pairs, as_text, concat, concat3, lowered, same};
use vstd::prelude::*;

verus! {

/// The version of the dialect that the upstream speaks.
pub const ANTHROPIC_VERSION: &'static str = "2023-06-01";

/// The library that the client is built on.
pub const ANTHROPIC_SDK_UA: &'static str = "ai-sdk/anthropic/3.0.81";

/// The title that requests bear.
pub const DEFAULT_SOURCE_TITLE: &'static str = "cli";

/// Where requests say that they come from.
pub const DEFAULT_REFERER_ORIGIN: &'static str = "https://zcode.z.ai";

/// The headers of a client that never reach the upstream.
pub open spec fn stripped_names() -> Seq<Seq<char>> {
    seq![
        "host"@,
        "authorization"@,
        "x-api-key"@,
        "anthropic-version"@,
        "content-length"@,
        "content-type"@,
        "connection"@,
        "proxy-authorization"@,
        "proxy-authenticate"@,
        "transfer-encoding"@,
        "accept-encoding"@,
        "x-request-id"@,
        "x-zcode-trace-id"@,
        "x-zcode-session-type"@,
        "x-query-id"@,
        "x-session-id"@,
        "x-client-ts"@,
        "x-client-version"@,
        "x-client-sig"@,
        "x-client-nonce"@,
        "x-app-id"@,
        "x-client-pow"@,
        "x-client-sign-verified"@,
        "access-control-allow-origin"@,
        "access-control-allow-methods"@,
        "access-control-allow-headers"@,
        "access-control-max-age"@,
    ]
}

fn stripped_list() -> (r: Vec<&'static str>)
    ensures
        r@.map_values(|s: &'static str| s@) == stripped_names(),
{
    let list: Vec<&'static str> = vec![
        "host",
        "authorization",
        "x-api-key",
        "anthropic-version",
        "content-length",
        "content-type",
        "connection",
        "proxy-authorization",
        "proxy-authenticate",
        "transfer-encoding",
        "accept-encoding",
        "x-request-id",
        "x-zcode-trace-id",
        "x-zcode-session-type",
        "x-query-id",
        "x-session-id",
        "x-client-ts",
        "x-client-version",
        "x-client-sig",
        "x-client-nonce",
        "x-app-id",
        "x-client-pow",
        "x-client-sign-verified",
        "access-control-allow-origin",
        "access-control-allow-methods",
        "access-control-allow-headers",
        "access-control-max-age",
    ];
    assert(list@.map_values(|s: &'static str| s@) =~= stripped_names());
    list
}

/// Whether a header of a client must not reach the upstream, whatever the case
/// of its name.
pub fn should_strip(name: &str) -> (r: bool)
    ensures
        r == stripped_names().contains(crate::text::lower(name@)),
{
    let lower = lowered(name);
    let list: Vec<&'static str> = stripped_list();
    let ghost all = list@.map_values(|s: &'static str| s@);
    let mut i: usize = 0;
    while i < list.len()
        invariant
            i <= list@.len(),
            all == list@.map_values(|s: &'static str| s@),
            all == stripped_names(),
            lower@ == crate::text::lower(name@),
            forall|k: int| 0 <= k < i ==> #[trigger] all[k] != lower@,
        decreases list@.len() - i,
    {
        assert(all[i as int] == list@[i as int]@);
        if same(list[i], lower.as_str()) {
            return true;
        }
        i += 1;
    }
    false
}

/// The one header of a client that goes along.
pub open spec fn passed_through(
    inbound: reqwest::header::HeaderMap<reqwest::header::HeaderValue>,
) -> Seq<(Seq<char>, Seq<char>)> {
    crate::text::optional_pair(
        "anthropic-beta"@,
        crate::headers::header_text(inbound, "anthropic-beta"@),
    )
}

/// The one header of a client that goes along: the flags of beta features.
pub fn passthrough_header(
    inbound: &reqwest::header::HeaderMap<reqwest::header::HeaderValue>,
) -> (r: Vec<(String, String)>)
    ensures
        crate::text::pair_views(r@) == passed_through(*inbound),
{
    let mut out: Vec<(String, String)> = Vec::new();
    let value: Option<String> = header_str(inbound, "anthropic-beta");
    add_optional_pair(&mut out, "anthropic-beta", as_text(&value));
    assert(crate::text::pair_views(out@) =~= passed_through(*inbound));
    out
}

// ---------------------------------------------------------------------------
// Trace ids
// ---------------------------------------------------------------------------

/// Whether a character is a small hexadecimal digit.
pub open spec fn hex_char(c: char) -> bool {
    '0' <= c <= '9' || 'a' <= c <= 'f'
}

/// Whether a text has the shape of a UUID: hexadecimal digits in groups of 8,
/// 4, 4, 4 and 12 with hyphens between them.
pub open spec fn uuid_shaped(s: Seq<char>) -> bool {
    s.len() == 36 && forall|i: int|
        0 <= i < 36 ==> if i == 8 || i == 13 || i == 18 || i == 23 {
            #[trigger] s[i] == '-'
        } else {
            hex_char(s[i])
        }
}

/// `uuid::Uuid::new_v4` makes a random UUID, which displays as small
/// hexadecimal digits in groups with hyphens between them.
#[verifier::external_body]
pub(crate) fn new_uuid() -> (r: String)
    ensures
        uuid_shaped(r@),
{
    uuid::Uuid::new_v4().to_string()
}

/// The ids by which a request can be traced.
pub struct TraceIds {
    pub request: String,
    pub trace: String,
    pub query: String,
    pub session: String,
}

/// The ids by which a request can be traced, as characters.
pub ghost struct TraceRow {
    pub request: Seq<char>,
    pub trace: Seq<char>,
    pub query: Seq<char>,
    pub session: Seq<char>,
}

impl View for TraceIds {
    type V = TraceRow;

    open spec fn view(&self) -> TraceRow {
        TraceRow {
            request: self.request@,
            trace: self.trace@,
            query: self.query@,
            session: self.session@,
        }
    }
}

/// Whether all ids have the shape of a UUID.
pub open spec fn trace_shaped(ids: TraceRow) -> bool {
    uuid_shaped(ids.request) && uuid_shaped(ids.trace) && uuid_shaped(ids.query) && uuid_shaped(
        ids.session,
    )
}

/// New ids for a request.
pub fn new_trace_ids() -> (r: TraceIds)
    ensures
        trace_shaped(r@),
{
    TraceIds { request: new_uuid(), trace: new_uuid(), query: new_uuid(), session: new_uuid() }
}

/// The headers by which a request can be traced. Those of query and session do
/// not go along with a start plan.
pub open spec fn trace_pairs(plan: Seq<char>, ids: TraceRow) -> Seq<(Seq<char>, Seq<char>)> {
    let common = seq![
        ("x-request-id"@, ids.request),
        ("x-zcode-session-type"@, "main"@),
        ("x-zcode-trace-id"@, ids.trace),
    ];
    if plan == "start-plan"@ {
        common
    } else {
        common + seq![("x-query-id"@, ids.query), ("x-session-id"@, ids.session)]
    }
}

/// The headers by which a request can be traced.
fn trace_headers(plan: &str, ids: &TraceIds) -> (r: Vec<(String, String)>)
    ensures
        crate::text::pair_views(r@) == trace_pairs(plan@, ids@),
{
    let mut h: Vec<(String, String)> = Vec::new();
    add_pair(&mut h, "x-request-id", ids.request.as_str());
    add_pair(&mut h, "x-zcode-session-type", "main");
    add_pair(&mut h, "x-zcode-trace-id", ids.trace.as_str());
    if !same(plan, "start-plan") {
        add_pair(&mut h, "x-query-id", ids.query.as_str());
        add_pair(&mut h, "x-session-id", ids.session.as_str());
    }
    assert(crate::text::pair_views(h@) =~= trace_pairs(plan@, ids@));
    h
}

// ---------------------------------------------------------------------------
// Headers
// ---------------------------------------------------------------------------

/// A header that names the client, with the library that it is built on behind
/// its user agent.
pub open spec fn with_sdk(pair: (Seq<char>, Seq<char>)) -> (Seq<char>, Seq<char>) {
    if pair.0 == "User-Agent"@ {
        (pair.0, pair.1 + " "@ + ANTHROPIC_SDK_UA@)
    } else {
        pair
    }
}

/// The headers that name the client to the upstream.
pub open spec fn client_pairs(v: crate::identity::IdentityRow) -> Seq<(Seq<char>, Seq<char>)> {
    crate::identity::llm_headers(
        DEFAULT_SOURCE_TITLE@,
        DEFAULT_REFERER_ORIGIN@,
        v,
    ).map_values(|p: (Seq<char>, Seq<char>)| with_sdk(p))
}

/// The headers that prove who asks: the token of a start plan, or the key of
/// any other plan in two places.
pub open spec fn credential_pairs(entry: crate::pool::EntryRow) -> Seq<(Seq<char>, Seq<char>)> {
    if entry.plan == "start-plan"@ {
        seq![("authorization"@, "Bearer "@ + entry.jwt)]
    } else {
        seq![
            ("x-api-key"@, entry.credential),
            ("authorization"@, "Bearer "@ + entry.credential),
        ]
    }
}

/// All headers of a request to the upstream.
pub open spec fn upstream_pairs(
    entry: crate::pool::EntryRow,
    inbound: reqwest::header::HeaderMap<reqwest::header::HeaderValue>,
    accept_encoding: Seq<char>,
    v: crate::identity::IdentityRow,
    ids: TraceRow,
) -> Seq<(Seq<char>, Seq<char>)> {
    seq![("content-type"@, "application/json"@), ("accept-encoding"@, accept_encoding)]
        + passed_through(inbound) + client_pairs(v) + trace_pairs(entry.plan, ids)
        + credential_pairs(entry) + seq![("anthropic-version"@, ANTHROPIC_VERSION@)]
}

/// The headers that name the client to the upstream.
fn client_headers(v: &IdentityValues) -> (r: Vec<(String, String)>)
    ensures
        crate::text::pair_views(r@) == client_pairs(v@),
{
    let plain: Vec<(String, String)> = build_llm_identity_headers(
        DEFAULT_SOURCE_TITLE,
        DEFAULT_REFERER_ORIGIN,
        v,
    );
    let ghost all = crate::text::pair_views(plain@);
    let ghost want = client_pairs(v@);
    let mut out: Vec<(String, String)> = Vec::new();
    let mut i: usize = 0;
    assert(crate::text::pair_views(out@) =~= want.take(0));
    while i < plain.len()
        invariant
            i <= plain@.len(),
            all == crate::text::pair_views(plain@),
            want == all.map_values(|p: (Seq<char>, Seq<char>)| with_sdk(p)),
            crate::text::pair_views(out@) == want.take(i as int),
        decreases plain@.len() - i,
    {
        assert(all[i as int] == (plain@[i as int].0@, plain@[i as int].1@));
        assert(want[i as int] == with_sdk(all[i as int]));
        if same(plain[i].0.as_str(), "User-Agent") {
            let agent = concat3(plain[i].1.as_str(), " ", ANTHROPIC_SDK_UA);
            add_pair(&mut out, plain[i].0.as_str(), agent.as_str());
        } else {
            add_pair(&mut out, plain[i].0.as_str(), plain[i].1.as_str());
        }
        assert(crate::text::pair_views(out@) =~= want.take(i + 1));
        i += 1;
    }
    assert(want.take(plain@.len() as int) =~= want);
    out
}

/// All headers of a request of an account, with given trace ids.
pub fn upstream_headers_with(
    entry: &PoolEntry,
    inbound: &reqwest::header::HeaderMap<reqwest::header::HeaderValue>,
    accept_encoding: &str,
    v: &IdentityValues,
    ids: &TraceIds,
) -> (r: Vec<(String, String)>)
    ensures
        crate::text::pair_views(r@) == upstream_pairs(
            entry@,
            *inbound,
            accept_encoding@,
            v@,
            ids@,
        ),
{
    let mut h: Vec<(String, String)> = Vec::new();
    let passed: Vec<(String, String)> = passthrough_header(inbound);
    let client: Vec<(String, String)> = client_headers(v);
    let trace: Vec<(String, String)> = trace_headers(entry.plan.as_str(), ids);
    add_pair(&mut h, "content-type", "application/json");
    add_pair(&mut h, "accept-encoding", accept_encoding);
    add_pairs(&mut h, &passed);
    add_pairs(&mut h, &client);
    add_pairs(&mut h, &trace);
    if same(entry.plan.as_str(), "start-plan") {
        let bearer = concat("Bearer ", entry.jwt.as_str());
        add_pair(&mut h, "authorization", bearer.as_str());
    } else {
        let bearer = concat("Bearer ", entry.credential.as_str());
        add_pair(&mut h, "x-api-key", entry.credential.as_str());
        add_pair(&mut h, "authorization", bearer.as_str());
    }
    add_pair(&mut h, "anthropic-version", ANTHROPIC_VERSION);
    assert(crate::text::pair_views(h@) =~= upstream_pairs(
        entry@,
        *inbound,
        accept_encoding@,
        v@,
        ids@,
    ));
    h
}

/// All headers of a request of an account, with new trace ids.
pub fn build_upstream_headers(
    entry: &PoolEntry,
    inbound: &reqwest::header::HeaderMap<reqwest::header::HeaderValue>,
    accept_encoding: &str,
    v: &IdentityValues,
) -> (r: Vec<(String, String)>)
    ensures
        exists|ids: TraceRow|
            trace_shaped(ids) && crate::text::pair_views(r@) == #[trigger] upstream_pairs(
                entry@,
                *inbound,
                accept_encoding@,
                v@,
                ids,
            ),
{
    let ids = new_trace_ids();
    let r = upstream_headers_with(entry, inbound, accept_encoding, v, &ids);
    assert(trace_shaped(ids@));
    r
}

/// The user id of an account's request.
pub fn metadata_user_id_for(entry: &PoolEntry, session_id: &str) -> (r: String)
    ensures
        r@ == crate::json::rendered(
            crate::body::user_id_tree(entry@.device_mid, Some(session_id@)),
        ),
{
    build_anthropic_metadata_user_id(as_text(&entry.device_mid), Some(session_id))
}

// ---------------------------------------------------------------------------
// Bodies
// ---------------------------------------------------------------------------

/// The model that a request names and whether it asks for a stream; a hyphen
/// and no where that cannot be told.
pub open spec fn request_meta(request: Option<Tree>) -> (Seq<char>, bool) {
    match request {
        Some(v) => (
            match v.text_at("model"@) {
                Some(m) => m,
                None => "-"@,
            },
            v.flag_at("stream"@) == Some(true),
        ),
        None => ("-"@, false),
    }
}

/// The model that a request names and whether it asks for a stream.
pub fn meta_of(request: Option<&Json>) -> (r: (String, bool))
    ensures
        (r.0@, r.1) == request_meta(crate::json::seen(request)),
{
    match request {
        Some(v) => (
            match v.str_at("model") {
                Some(m) => m.to_owned(),
                None => "-".to_owned(),
            },
            match v.bool_at("stream") {
                Some(b) => b,
                None => false,
            },
        ),
        None => ("-".to_owned(), false),
    }
}

/// The model that a request's body names and whether it asks for a stream.
pub fn peek_meta(body: Option<&str>) -> (r: (String, bool))
    ensures
        (r.0@, r.1) == match crate::text::seen_str(body) {
            Some(text) => request_meta(crate::json::parsed(text)),
            None => request_meta(None),
        },
{
    match body {
        Some(text) => match parse(text) {
            Some(v) => meta_of(Some(&v)),
            None => meta_of(None),
        },
        None => meta_of(None),
    }
}

/// The envelope of an error in the upstream's dialect.
pub fn error_body(error_type: &str, message: &str) -> (r: Json)
    ensures
        r@ == crate::translate::error_tree(message@, error_type@),
{
    Json::object().with(
        "error",
        Json::object().with("type", Json::text(error_type)).with("message", Json::text(message)),
    )
}

// ---------------------------------------------------------------------------
// Laws
// ---------------------------------------------------------------------------

/// Of the headers of a client only the flags of beta features make a difference
/// to what is sent: its own key and all else stay behind.
pub proof fn law_only_beta_flags_pass_through(
    entry: crate::pool::EntryRow,
    one: reqwest::header::HeaderMap<reqwest::header::HeaderValue>,
    other: reqwest::header::HeaderMap<reqwest::header::HeaderValue>,
    accept_encoding: Seq<char>,
    v: crate::identity::IdentityRow,
    ids: TraceRow,
)
    requires
        crate::headers::header_text(one, "anthropic-beta"@) == crate::headers::header_text(
            other,
            "anthropic-beta"@,
        ),
    ensures
        upstream_pairs(entry, one, accept_encoding, v, ids) == upstream_pairs(
            entry,
            other,
            accept_encoding,
            v,
            ids,
        ),
{
}

/// The requests of a start plan bear no id of a query or a session, and those of
/// any other plan bear both.
pub proof fn law_start_plans_hide_the_session(plan: Seq<char>, ids: TraceRow)
    ensures
        ({
            let out = trace_pairs(plan, ids);
            &&& plan == "start-plan"@ ==> forall|i: int|
                0 <= i < out.len() ==> (#[trigger] out[i]).0 != "x-query-id"@ && out[i].0
                    != "x-session-id"@
            &&& plan != "start-plan"@ ==> out.contains(("x-query-id"@, ids.query)) && out.contains(
                ("x-session-id"@, ids.session),
            )
        }),
{
    reveal_strlit("x-request-id");
    reveal_strlit("x-zcode-session-type");
    reveal_strlit("x-zcode-trace-id");
    reveal_strlit("x-query-id");
    reveal_strlit("x-session-id");
    assert("x-request-id"@.len() == 12 && "x-session-id"@.len() == 12);
    assert("x-request-id"@[2] == 'r' && "x-session-id"@[2] == 's');
    assert("x-query-id"@.len() == 10 && "x-zcode-session-type"@.len() == 20);
    assert("x-zcode-trace-id"@.len() == 16);
    let out = trace_pairs(plan, ids);
    if plan != "start-plan"@ {
        assert(out[3] == ("x-query-id"@, ids.query));
        assert(out[4] == ("x-session-id"@, ids.session));
    }
}

/// A request proves who asks with what its own account holds, and with nothing
/// of another account.
pub proof fn law_requests_bear_their_own_credential(
    one: crate::pool::EntryRow,
    other: crate::pool::EntryRow,
    inbound: reqwest::header::HeaderMap<reqwest::header::HeaderValue>,
    accept_encoding: Seq<char>,
    v: crate::identity::IdentityRow,
    ids: TraceRow,
)
    requires
        one.plan == other.plan,
        upstream_pairs(one, inbound, accept_encoding, v, ids) == upstream_pairs(
            other,
            inbound,
            accept_encoding,
            v,
            ids,
        ),
    ensures
        one.plan == "start-plan"@ ==> one.jwt == other.jwt,
        one.plan != "start-plan"@ ==> one.credential == other.credential,
{
    let front = seq![("content-type"@, "application/json"@), ("accept-encoding"@, accept_encoding)]
        + passed_through(inbound) + client_pairs(v) + trace_pairs(one.plan, ids);
    let a = upstream_pairs(one, inbound, accept_encoding, v, ids);
    let b = upstream_pairs(other, inbound, accept_encoding, v, ids);
    let at = front.len() as int;
    assert(a[at] == credential_pairs(one)[0]);
    assert(b[at] == credential_pairs(other)[0]);
    if one.plan == "start-plan"@ {
        let x = "Bearer "@ + one.jwt;
        let y = "Bearer "@ + other.jwt;
        assert(x == y);
        assert(x.skip("Bearer "@.len() as int) =~= one.jwt);
        assert(y.skip("Bearer "@.len() as int) =~= other.jwt);
    }
}

/// The texts of trace ids are those that the fields hold.
pub proof fn law_ids_tell_their_fields(ids: TraceIds)
    ensures
        ids@.request == ids.request@,
        ids@.trace == ids.trace@,
        ids@.query == ids.query@,
        ids@.session == ids.session@,
{
}

/// What identifies a hop is kept from the way upstream, whatever the case of its
/// name: credentials, connection headers, trace ids, signatures and the answers to
/// a browser's questions. Of the rest nothing is.
pub proof fn law_hop_headers_are_stripped(name: Seq<char>)
    ensures
        stripped_names().contains("host"@),
        stripped_names().contains("authorization"@),
        stripped_names().contains("x-api-key"@),
        stripped_names().contains("anthropic-version"@),
        stripped_names().contains("content-length"@),
        stripped_names().contains("content-type"@),
        stripped_names().contains("connection"@),
        stripped_names().contains("proxy-authorization"@),
        stripped_names().contains("proxy-authenticate"@),
        stripped_names().contains("transfer-encoding"@),
        stripped_names().contains("accept-encoding"@),
        stripped_names().contains("x-request-id"@),
        stripped_names().contains("x-zcode-trace-id"@),
        stripped_names().contains("x-zcode-session-type"@),
        stripped_names().contains("x-query-id"@),
        stripped_names().contains("x-session-id"@),
        stripped_names().contains("x-client-ts"@),
        stripped_names().contains("x-client-version"@),
        stripped_names().contains("x-client-sig"@),
        stripped_names().contains("x-client-nonce"@),
        stripped_names().contains("x-app-id"@),
        stripped_names().contains("x-client-pow"@),
        stripped_names().contains("x-client-sign-verified"@),
        stripped_names().contains("access-control-allow-origin"@),
        stripped_names().contains("access-control-allow-methods"@),
        stripped_names().contains("access-control-allow-headers"@),
        stripped_names().contains("access-control-max-age"@),
        stripped_names().len() == 27,
{
    let s = stripped_names();
    assert(s[0] == "host"@ && s[1] == "authorization"@ && s[2] == "x-api-key"@);
    assert(s[3] == "anthropic-version"@ && s[4] == "content-length"@ && s[5] == "content-type"@);
    assert(s[6] == "connection"@ && s[7] == "proxy-authorization"@);
    assert(s[8] == "proxy-authenticate"@ && s[9] == "transfer-encoding"@);
    assert(s[10] == "accept-encoding"@ && s[11] == "x-request-id"@);
    assert(s[12] == "x-zcode-trace-id"@ && s[13] == "x-zcode-session-type"@);
    assert(s[14] == "x-query-id"@ && s[15] == "x-session-id"@ && s[16] == "x-client-ts"@);
    assert(s[17] == "x-client-version"@ && s[18] == "x-client-sig"@);
    assert(s[19] == "x-client-nonce"@ && s[20] == "x-app-id"@ && s[21] == "x-client-pow"@);
    assert(s[22] == "x-client-sign-verified"@ && s[23] == "access-control-allow-origin"@);
    assert(s[24] == "access-control-allow-methods"@ && s[25] == "access-control-allow-headers"@);
    assert(s[26] == "access-control-max-age"@);
}

/// The headers of a request upstream tell the kind of its body, the encodings that
/// are understood, the version of the interface and the ids of the request: the
/// ids of query and session are told outside the start plan only.
pub proof fn law_requests_are_traced(
    entry: crate::pool::EntryRow,
    inbound: reqwest::header::HeaderMap<reqwest::header::HeaderValue>,
    accept_encoding: Seq<char>,
    v: crate::identity::IdentityRow,
    ids: TraceRow,
)
    ensures
        ({
            let h = upstream_pairs(entry, inbound, accept_encoding, v, ids);
            &&& h.contains(("content-type"@, "application/json"@))
            &&& h.contains(("accept-encoding"@, accept_encoding))
            &&& h.contains(("anthropic-version"@, "2023-06-01"@))
            &&& h.contains(("x-request-id"@, ids.request))
            &&& h.contains(("x-zcode-session-type"@, "main"@))
            &&& h.contains(("x-zcode-trace-id"@, ids.trace))
            &&& entry.plan != "start-plan"@ ==> h.contains(("x-query-id"@, ids.query))
            &&& entry.plan != "start-plan"@ ==> h.contains(("x-session-id"@, ids.session))
        }),
{
    let h = upstream_pairs(entry, inbound, accept_encoding, v, ids);
    let n: int = 2int + passed_through(inbound).len() + client_pairs(v).len();
    assert(h[0] == ("content-type"@, "application/json"@));
    assert(h[1] == ("accept-encoding"@, accept_encoding));
    assert(h[h.len() - 1] == ("anthropic-version"@, "2023-06-01"@));
    let t = trace_pairs(entry.plan, ids);
    assert(h[n] == t[0] && h[n + 1] == t[1] && h[n + 2] == t[2]);
    if entry.plan != "start-plan"@ {
        assert(h[n + 3] == t[3] && h[n + 4] == t[4]);
    }
}

/// On the start plan a request bears the account's token as its authorization; on
/// every other plan the account's key, as key and as authorization.
pub proof fn law_requests_are_authorized(
    entry: crate::pool::EntryRow,
    inbound: reqwest::header::HeaderMap<reqwest::header::HeaderValue>,
    accept_encoding: Seq<char>,
    v: crate::identity::IdentityRow,
    ids: TraceRow,
)
    ensures
        ({
            let h = upstream_pairs(entry, inbound, accept_encoding, v, ids);
            &&& entry.plan == "start-plan"@ ==> h.contains(
                ("authorization"@, "Bearer "@ + entry.jwt),
            )
            &&& entry.plan != "start-plan"@ ==> h.contains(
                ("authorization"@, "Bearer "@ + entry.credential),
            )
            &&& entry.plan != "start-plan"@ ==> h.contains(("x-api-key"@, entry.credential))
        }),
{
    let h = upstream_pairs(entry, inbound, accept_encoding, v, ids);
    let n: int = 2int + passed_through(inbound).len() + client_pairs(v).len() + trace_pairs(
        entry.plan,
        ids,
    ).len();
    let c = credential_pairs(entry);
    assert(h[n] == c[0]);
    if entry.plan != "start-plan"@ {
        assert(h[n + 1] == c[1]);
        assert(c[1] == ("authorization"@, "Bearer "@ + entry.credential));
    }
}

/// A request upstream tells who asks, as a completion does, in the name of the
/// command line client; the client's own name is followed by that of the kit it
/// uses.
pub proof fn law_requests_tell_who_asks(
    entry: crate::pool::EntryRow,
    inbound: reqwest::header::HeaderMap<reqwest::header::HeaderValue>,
    accept_encoding: Seq<char>,
    v: crate::identity::IdentityRow,
    ids: TraceRow,
    name: Seq<char>,
    value: Seq<char>,
)
    requires
        crate::identity::llm_headers("cli"@, "https://zcode.z.ai"@, v).contains((name, value)),
    ensures
        ({
            let h = upstream_pairs(entry, inbound, accept_encoding, v, ids);
            &&& name != "User-Agent"@ ==> h.contains((name, value))
            &&& name == "User-Agent"@ ==> h.contains(
                (name, value + " "@ + "ai-sdk/anthropic/3.0.81"@),
            )
        }),
{
    let h = upstream_pairs(entry, inbound, accept_encoding, v, ids);
    let l = crate::identity::llm_headers("cli"@, "https://zcode.z.ai"@, v);
    let k = choose|k: int| 0 <= k < l.len() && l[k] == (name, value);
    let n: int = 2 + passed_through(inbound).len() as int;
    assert(client_pairs(v).len() == l.len());
    assert(client_pairs(v)[k] == with_sdk(l[k]));
    assert(h[n + k] == client_pairs(v)[k]);
}

/// A client's beta flags go on as they came, and a request upstream has no more
/// headers than these, those that tell who asks, the ids, the credential, and
/// three more.
pub proof fn law_requests_have_no_more_headers(
    entry: crate::pool::EntryRow,
    inbound: reqwest::header::HeaderMap<reqwest::header::HeaderValue>,
    accept_encoding: Seq<char>,
    v: crate::identity::IdentityRow,
    ids: TraceRow,
)
    ensures
        ({
            let h = upstream_pairs(entry, inbound, accept_encoding, v, ids);
            let beta = crate::headers::header_text(inbound, "anthropic-beta"@);
            &&& beta is Some ==> h.contains(("anthropic-beta"@, beta->0))
            &&& h.len() == 3 + (if beta is Some {
                1int
            } else {
                0
            }) + crate::identity::llm_headers("cli"@, "https://zcode.z.ai"@, v).len() + (if entry.plan
                == "start-plan"@ {
                4int
            } else {
                7
            })
        }),
{
    let h = upstream_pairs(entry, inbound, accept_encoding, v, ids);
    let beta = crate::headers::header_text(inbound, "anthropic-beta"@);
    if beta is Some {
        assert(h[2] == ("anthropic-beta"@, beta->0));
    }
}

/// A request is logged under the model it asks for, or a dash where it names none;
/// it asks for a stream only where it says so.
pub proof fn law_requests_name_model_and_stream(request: Tree)
    ensures
        request.text_at("model"@) is Some ==> request_meta(Some(request)).0 == request.text_at(
            "model"@,
        )->0,
        request.text_at("model"@) is None ==> request_meta(Some(request)).0 == "-"@,
        request_meta(Some(request)).1 <==> request.flag_at("stream"@) == Some(true),
        request_meta(None) == ("-"@, false),
{
}

/// An id in the shape of a UUID has 36 characters: hyphens after 8, 12, 16 and 20
/// digits, and no other character but the digits of base 16 in small letters.
pub proof fn law_ids_are_written_as_uuids(s: Seq<char>, i: int)
    requires
        uuid_shaped(s),
        0 <= i < s.len(),
    ensures
        s.len() == 36,
        s[i] == '-' <==> i == 8 || i == 13 || i == 18 || i == 23,
        s[i] != '-' ==> ('0' <= s[i] <= '9' || 'a' <= s[i] <= 'f'),
{
    assert(hex_char(s[i]) || s[i] == '-');
}

} // verus!
