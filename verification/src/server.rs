//! Who may use the gateway, and what it answers to plain questions.

use crate::headers::either_str;
use crate::json::{Json, Tree};
use crate::pool::PoolEntry;
use crate::signing::ct_eq;
use crate::text::{after_prefix, is_empty, trimmed};
use crate::upstream::error_body;
use vstd::prelude::*;

verus! {

/// The headers that let pages of other origins use the gateway.
pub open spec fn cors_pairs() -> Seq<(Seq<char>, Seq<char>)> {
    seq![
        ("access-control-allow-origin"@, "*"@),
        ("access-control-allow-methods"@, "GET, POST, OPTIONS"@),
        (
            "access-control-allow-headers"@,
            "Content-Type, Authorization, x-api-key, anthropic-version, anthropic-beta"@,
        ),
        ("access-control-max-age"@, "86400"@),
    ]
}

/// The headers that let pages of other origins use the gateway.
pub fn cors_headers() -> (r: Vec<(&'static str, &'static str)>)
    ensures
        r@.map_values(|p: (&'static str, &'static str)| (p.0@, p.1@)) == cors_pairs(),
{
    let list: Vec<(&'static str, &'static str)> = vec![
        ("access-control-allow-origin", "*"),
        ("access-control-allow-methods", "GET, POST, OPTIONS"),
        (
            "access-control-allow-headers",
            "Content-Type, Authorization, x-api-key, anthropic-version, anthropic-beta",
        ),
        ("access-control-max-age", "86400"),
    ];
    assert(list@.map_values(|p: (&'static str, &'static str)| (p.0@, p.1@)) =~= cors_pairs());
    list
}

// ---------------------------------------------------------------------------
// Keys
// ---------------------------------------------------------------------------

/// The key that a header presents: what it holds, without the word that may
/// stand before it.
pub open spec fn presented_key(header: Seq<char>) -> Seq<char> {
    let bare = crate::text::trim(header);
    match crate::text::strip_prefix(bare, "Bearer "@) {
        Some(key) => crate::text::trim(key),
        None => bare,
    }
}

/// Whether a header presents the key that is expected.
pub fn check_proxy_key(auth_header: &str, expected: &str) -> (r: bool)
    ensures
        r == (presented_key(auth_header@) == expected@),
{
    let bare = trimmed(auth_header);
    let key = match after_prefix(bare.as_str(), "Bearer ") {
        Some(key) => trimmed(key.as_str()),
        None => bare,
    };
    proof {
        vstd::utf8::encode_utf8_decode_utf8(key@);
        vstd::utf8::encode_utf8_decode_utf8(expected@);
    }
    ct_eq(key.as_str().as_bytes(), expected.as_bytes())
}

/// Whether a request is let in: no key is asked for, or the header of the
/// request presents it.
pub open spec fn admitted(expected: Option<Seq<char>>, header: Option<Seq<char>>) -> bool {
    match expected {
        None => true,
        Some(key) => key.len() == 0 || (header matches Some(h) && presented_key(h) == key),
    }
}

/// Whether a request is let in, by the headers that it bears. The key may stand
/// in either of two.
pub fn is_admitted(
    api_key: &Option<String>,
    headers: &reqwest::header::HeaderMap<reqwest::header::HeaderValue>,
) -> (r: bool)
    ensures
        r == admitted(
            crate::text::seen_string(*api_key),
            crate::headers::either_text(*headers, "authorization"@, "x-api-key"@),
        ),
{
    match api_key {
        Some(expected) => {
            if is_empty(expected.as_str()) {
                return true;
            }
            match either_str(headers, "authorization", "x-api-key") {
                Some(header) => check_proxy_key(header.as_str(), expected.as_str()),
                None => false,
            }
        },
        None => true,
    }
}

/// The key that is asked for where the configuration names one: without white
/// space around it, and none where that leaves nothing.
pub open spec fn asked_key(api_key: Option<Seq<char>>) -> Option<Seq<char>> {
    match api_key {
        None => None,
        Some(key) => if crate::text::trim(key).len() == 0 {
            None
        } else {
            Some(crate::text::trim(key))
        },
    }
}

/// The key that is asked for where the configuration names one.
pub fn key_to_ask(api_key: &Option<String>) -> (r: Option<String>)
    ensures
        crate::text::seen_string(r) == asked_key(crate::text::seen_string(*api_key)),
{
    match api_key {
        Some(key) => {
            let key = trimmed(key.as_str());
            if is_empty(key.as_str()) {
                None
            } else {
                Some(key)
            }
        },
        None => None,
    }
}

/// What a request that is not let in is told.
pub fn refusal() -> (r: Json)
    ensures
        r@ == crate::translate::error_tree(
            "Invalid or missing proxy API key"@,
            "authentication_error"@,
        ),
{
    error_body("authentication_error", "Invalid or missing proxy API key")
}

// ---------------------------------------------------------------------------
// Health
// ---------------------------------------------------------------------------

/// How many entries can be used.
pub open spec fn usable_count(entries: Seq<crate::pool::EntryRow>) -> nat
    decreases entries.len(),
{
    if entries.len() == 0 {
        0
    } else {
        usable_count(entries.drop_last()) + if crate::pool::usable(entries.last()) {
            1nat
        } else {
            0nat
        }
    }
}

/// What the gateway says of its health.
pub open spec fn health_tree(total: u64, usable: u64) -> Tree {
    crate::json::empty_tree().with("status"@, Tree::Text("ok"@)).with(
        "service"@,
        Tree::Text("zcode-switch-gateway"@),
    ).with(
        "accounts"@,
        crate::json::empty_tree().with("total"@, crate::json::count_tree(total)).with(
            "usable"@,
            crate::json::count_tree(usable),
        ),
    )
}

/// What the gateway says of its health: how many accounts there are, and how
/// many of them can be used.
pub fn health(entries: &Vec<PoolEntry>) -> (r: Json)
    ensures
        r@ == health_tree(
            entries@.len() as u64,
            usable_count(crate::pool::rows(entries@)) as u64,
        ),
{
    let ghost all = crate::pool::rows(entries@);
    let n: usize = entries.len();
    let mut usable: usize = 0;
    let mut i: usize = 0;
    assert(usable_count(all.take(0)) == 0);
    while i < n
        invariant
            i <= n,
            n == entries@.len(),
            all == crate::pool::rows(entries@),
            usable <= i,
            usable == usable_count(all.take(i as int)),
        decreases n - i,
    {
        assert(all.take(i + 1).drop_last() =~= all.take(i as int));
        assert(all.take(i + 1).last() == entries@[i as int]@);
        if is_empty(entries[i].unusable_reason.as_str()) {
            usable += 1;
        }
        i += 1;
    }
    assert(all.take(n as int) =~= all);
    Json::object().with("status", Json::text("ok")).with(
        "service",
        Json::text("zcode-switch-gateway"),
    ).with(
        "accounts",
        Json::object().with("total", Json::count(n as u64)).with(
            "usable",
            Json::count(usable as u64),
        ),
    )
}

// ---------------------------------------------------------------------------
// Laws
// ---------------------------------------------------------------------------

/// Where a key is asked for, a request gets in exactly when a header presents
/// that key; a request that presents none never does.
pub proof fn law_only_the_key_opens(expected: Seq<char>, header: Option<Seq<char>>)
    requires
        expected.len() > 0,
    ensures
        header is None ==> !admitted(Some(expected), header),
        header matches Some(h) ==> (admitted(Some(expected), header) <==> presented_key(h)
            == expected),
{
}

/// A blank key in the configuration asks for none, and a key that is asked for
/// is never empty.
pub proof fn law_blank_keys_ask_for_none(api_key: Option<Seq<char>>, header: Option<Seq<char>>)
    ensures
        asked_key(api_key) is None <==> (api_key matches Some(k) ==> crate::text::trim(k).len()
            == 0),
        asked_key(api_key) matches Some(k) ==> k.len() > 0,
        asked_key(api_key) is None ==> admitted(asked_key(api_key), header),
{
}

/// The accounts that can be used are counted among all accounts.
pub proof fn law_usable_accounts_are_among_all(entries: Seq<crate::pool::EntryRow>)
    ensures
        usable_count(entries) <= entries.len(),
    decreases entries.len(),
{
    if entries.len() > 0 {
        law_usable_accounts_are_among_all(entries.drop_last());
    }
}

/// A browser may ask from anywhere, with the methods and headers that the gateway
/// understands, and may remember so for a day.
pub proof fn law_browsers_may_ask()
    ensures
        cors_pairs().len() == 4,
        cors_pairs().contains(("access-control-allow-origin"@, "*"@)),
        cors_pairs().contains(("access-control-allow-methods"@, "GET, POST, OPTIONS"@)),
        cors_pairs().contains(
            (
                "access-control-allow-headers"@,
                "Content-Type, Authorization, x-api-key, anthropic-version, anthropic-beta"@,
            ),
        ),
        cors_pairs().contains(("access-control-max-age"@, "86400"@)),
{
    let c = cors_pairs();
    assert(c[0] == ("access-control-allow-origin"@, "*"@));
    assert(c[1] == ("access-control-allow-methods"@, "GET, POST, OPTIONS"@));
    assert(c[2].0 == "access-control-allow-headers"@);
    assert(c[3] == ("access-control-max-age"@, "86400"@));
}

/// A key is presented bare or behind the word for a bearer, with or without white
/// space around it, and is otherwise taken as it is.
pub proof fn law_keys_are_presented_bare_or_by_a_bearer(header: Seq<char>, key: Seq<char>)
    ensures
        crate::text::trim(header) == "Bearer "@ + key ==> presented_key(header)
            == crate::text::trim(key),
        (forall|rest: Seq<char>| crate::text::trim(header) != #[trigger] ("Bearer "@ + rest))
            ==> presented_key(header) == crate::text::trim(header),
{
    let bare = crate::text::trim(header);
    let p = "Bearer "@;
    if bare == p + key {
        assert(bare.take(p.len() as int) =~= p);
        assert(bare.skip(p.len() as int) =~= key);
    }
    if crate::text::strip_prefix(bare, p) is Some {
        let rest = bare.skip(p.len() as int);
        assert(bare =~= p + rest);
    }
}

/// Where a key is asked for, a request is let in exactly if it presents that key;
/// where none is, every request is.
pub proof fn law_requests_are_let_in_by_their_key(key: Seq<char>, header: Seq<char>)
    ensures
        key.len() > 0 ==> (admitted(Some(key), Some(header)) <==> presented_key(header) == key),
        key.len() > 0 ==> !admitted(Some(key), None),
        admitted(Some(Seq::empty()), Some(header)),
        admitted(Some(Seq::empty()), None),
        admitted(None, Some(header)),
        admitted(None, None),
        crate::text::trim(key).len() > 0 ==> asked_key(Some(key)) == Some(crate::text::trim(key)),
        crate::text::trim(key).len() == 0 ==> asked_key(Some(key)) is None,
        asked_key(None) is None,
{
}

/// Each account that nothing speaks against counts once as one that can be used,
/// and no other counts.
pub proof fn law_usable_accounts_are_counted(
    entries: Seq<crate::pool::EntryRow>,
    entry: crate::pool::EntryRow,
)
    ensures
        usable_count(Seq::empty()) == 0,
        usable_count(entries.push(entry)) == usable_count(entries) + if entry.unusable_reason.len()
            == 0 {
            1nat
        } else {
            0
        },
{
    assert(entries.push(entry).drop_last() =~= entries);
}

/// The health report is well, names the service, and tells how many accounts there
/// are and how many can be used.
pub proof fn law_health_tells_the_accounts(total: u64, usable: u64)
    ensures
        health_tree(total, usable).text_at("status"@) == Some("ok"@),
        health_tree(total, usable).text_at("service"@) == Some("zcode-switch-gateway"@),
        health_tree(total, usable).field_in("accounts"@, "total"@) == Some(
            Tree::Number(crate::json::Numeric::Unsigned(total)),
        ),
        health_tree(total, usable).field_in("accounts"@, "usable"@) == Some(
            Tree::Number(crate::json::Numeric::Unsigned(usable)),
        ),
{
    reveal_strlit("status");
    reveal_strlit("service");
    reveal_strlit("accounts");
    reveal_strlit("total");
    reveal_strlit("usable");
    assert("status"@.len() == 6 && "status"@[0] == 's');
    assert("service"@.len() == 7);
    assert("accounts"@.len() == 8);
    assert("total"@.len() == 5);
    assert("usable"@.len() == 6 && "usable"@[0] == 'u');
}

} // verus!
