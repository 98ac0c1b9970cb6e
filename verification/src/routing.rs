//! Where requests are really sent: the upstream publishes a table that maps
//! addresses to others. Whatever goes wrong, a request goes to its own address.
//! Times are in milliseconds.

use crate::json::{Json, Tree};
use crate::text::{
    add_optional_pair, add_pair, chars_of, concat, concat3, has, is_empty, last_char_position,
    lowered, same, slice_of, split_at_first, trimmed, trimmed_end_char,
};
use crate::url::split;
use vstd::hash_map::StringHashMap;
use vstd::prelude::*;

verus! {

/// How long a table is good for, in milliseconds.
pub const SUCCESS_TTL_MS: u64 = 300_000;

/// How long the gateway waits after a failure, in milliseconds.
pub const FAILURE_COOLDOWN_MS: u64 = 30_000;

/// How many entries a table may have.
pub const MAX_MAPPING_ENTRIES: usize = 256;

// ---------------------------------------------------------------------------
// Keys
// ---------------------------------------------------------------------------

/// A path without slashes at its end; a slash alone stays.
pub open spec fn bare_path(path: Seq<char>) -> Seq<char> {
    let bare = crate::text::trim_end_char(path, '/');
    if bare.len() == 0 {
        "/"@
    } else {
        bare
    }
}

/// Whether a text is not empty and made of digits.
pub open spec fn all_digits(s: Seq<char>) -> bool {
    s.len() > 0 && forall|i: int| 0 <= i < s.len() ==> '0' <= #[trigger] s[i] <= '9'
}

/// Host and port of an authority, with 443 for the port where it names none.
pub open spec fn host_and_port(authority: Seq<char>) -> (Seq<char>, Seq<char>) {
    match crate::text::last_char_before(authority, ':', authority.len() as int) {
        Some(i) => if all_digits(authority.skip(i + 1)) {
            (authority.take(i), authority.skip(i + 1))
        } else {
            (authority, "443"@)
        },
        None => (authority, "443"@),
    }
}

/// An address without its query: what stands before the first question mark.
pub open spec fn without_query(url: Seq<char>) -> Seq<char> {
    match crate::text::split_once(url, "?"@) {
        Some(parts) => parts.0,
        None => url,
    }
}

/// Scheme, host, port and path in one form.
pub open spec fn key_text(scheme: Seq<char>, host: Seq<char>, port: Seq<char>, path: Seq<char>) -> Seq<
    char,
> {
    scheme + "://"@ + crate::text::lower(host) + ":"@ + port + bare_path(path)
}

/// The key under which the table knows an address: host in small letters, port
/// always named, no slash at the end, no query.
pub open spec fn key_of(url: Seq<char>) -> Option<Seq<char>> {
    match crate::url::split_url(without_query(url)) {
        Some(parts) => {
            let place = host_and_port(parts.1);
            Some(key_text(parts.0, place.0, place.1, parts.2))
        },
        None => None,
    }
}

/// A path without slashes at its end.
fn normalize_path(path: &str) -> (r: String)
    ensures
        r@ == bare_path(path@),
{
    let bare = trimmed_end_char(path, '/');
    if is_empty(bare.as_str()) {
        "/".to_owned()
    } else {
        bare
    }
}

/// Whether a text is not empty and made of digits.
fn is_all_digits(s: &str) -> (r: bool)
    ensures
        r == all_digits(s@),
{
    let chars: Vec<char> = chars_of(s);
    if chars.len() == 0 {
        return false;
    }
    let mut i: usize = 0;
    while i < chars.len()
        invariant
            i <= chars@.len(),
            chars@ == s@,
            forall|k: int| 0 <= k < i ==> '0' <= #[trigger] s@[k] <= '9',
        decreases chars@.len() - i,
    {
        if !('0' <= chars[i] && chars[i] <= '9') {
            assert(!('0' <= s@[i as int] <= '9'));
            return false;
        }
        i += 1;
    }
    true
}

/// Host and port of an authority.
fn split_port(authority: &str) -> (r: (String, String))
    ensures
        (r.0@, r.1@) == host_and_port(authority@),
{
    let chars: Vec<char> = chars_of(authority);
    if let Some(i) = last_char_position(&chars, ':') {
        assert(chars@.subrange(i + 1, chars@.len() as int) =~= chars@.skip(i + 1));
        assert(chars@.subrange(0, i as int) =~= chars@.take(i as int));
        let n: usize = chars.len();
        let port = slice_of(&chars, i + 1, n);
        if is_all_digits(port.as_str()) {
            return (slice_of(&chars, 0, i), port);
        }
    }
    (authority.to_owned(), "443".to_owned())
}

/// An address without its query.
fn cut_query(url: &str) -> (r: String)
    ensures
        r@ == without_query(url@),
{
    match split_at_first(url, "?") {
        Some((front, _)) => front,
        None => url.to_owned(),
    }
}

/// The key under which the table knows an address.
pub fn routing_key(url: &str) -> (r: Option<String>)
    ensures
        crate::text::seen_string(r) == key_of(url@),
{
    let address = cut_query(url);
    let (scheme, authority, path) = match split(address.as_str()) {
        Some(parts) => parts,
        None => {
            return None;
        },
    };
    let (host, port) = split_port(authority.as_str());
    let lower = lowered(host.as_str());
    let path = normalize_path(path.as_str());
    let site = concat3(scheme.as_str(), "://", lower.as_str());
    let place = concat3(site.as_str(), ":", port.as_str());
    Some(concat(place.as_str(), path.as_str()))
}

// ---------------------------------------------------------------------------
// Tables
// ---------------------------------------------------------------------------

/// An address that may stand in the table: HTTPS, without credentials, query or
/// fragment.
pub open spec fn plain_https(value: Tree) -> Option<Seq<char>> {
    match value.text() {
        None => None,
        Some(s) => match crate::text::split_once(s, "://"@) {
            None => None,
            Some(parts) => if parts.0 == "https"@ && !crate::text::contains(parts.1, "@"@)
                && !crate::text::contains(parts.1, "?"@) && !crate::text::contains(parts.1, "#"@) {
                Some(s)
            } else {
                None
            },
        },
    }
}

/// An address that may stand in the table.
fn parse_plain_https_url(value: &Json) -> (r: Option<String>)
    ensures
        crate::text::seen_string(r) == plain_https(value@),
{
    let s = match value.as_str() {
        Some(s) => s,
        None => {
            return None;
        },
    };
    match split_at_first(s, "://") {
        Some((scheme, rest)) => {
            if !same(scheme.as_str(), "https") {
                return None;
            }
            if has(rest.as_str(), "@") || has(rest.as_str(), "?") || has(rest.as_str(), "#") {
                return None;
            }
            Some(s.to_owned())
        },
        None => None,
    }
}

/// What an entry of the table maps, by its key.
pub open spec fn route_of(entry: Tree) -> Option<(Seq<char>, Seq<char>)> {
    match (entry.field("from"@), entry.field("to"@)) {
        (Some(from), Some(to)) => match (plain_https(from), plain_https(to)) {
            (Some(from), Some(to)) => match key_of(from) {
                Some(key) => Some((key, to)),
                None => None,
            },
            _ => None,
        },
        _ => None,
    }
}

/// The table that a list of entries gives: one bad entry, or one address that
/// is mapped twice, spoils it.
pub open spec fn routes_of(entries: Seq<Tree>) -> Option<Map<Seq<char>, Seq<char>>>
    decreases entries.len(),
{
    if entries.len() == 0 {
        Some(Map::empty())
    } else {
        match (routes_of(entries.drop_last()), route_of(entries.last())) {
            (Some(routes), Some(route)) => if routes.contains_key(route.0) {
                None
            } else {
                Some(routes.insert(route.0, route.1))
            },
            _ => None,
        }
    }
}

/// The list of entries in the upstream's answer.
pub open spec fn entries_in(answer: Tree) -> Option<Seq<Tree>> {
    match answer.field_in("data"@, "proxyEndpoint"@) {
        Some(endpoint) => endpoint.items_at("mapping"@),
        None => None,
    }
}

/// The table in the upstream's answer.
pub open spec fn table_in(answer: Tree) -> Option<Map<Seq<char>, Seq<char>>> {
    match entries_in(answer) {
        Some(entries) => if entries.len() > MAX_MAPPING_ENTRIES {
            None
        } else {
            routes_of(entries)
        },
        None => None,
    }
}

/// The targets of a table, as characters.
pub open spec fn targets(table: Map<Seq<char>, String>) -> Map<Seq<char>, Seq<char>> {
    Map::new(|k: Seq<char>| table.contains_key(k), |k: Seq<char>| table[k]@)
}

/// What an entry of the table maps.
fn parse_route(entry: &Json) -> (r: Option<(String, String)>)
    ensures
        match r {
            Some(route) => route_of(entry@) == Some((route.0@, route.1@)),
            None => route_of(entry@) is None,
        },
{
    let from = match entry.get("from") {
        Some(from) => from,
        None => {
            return None;
        },
    };
    let to = match entry.get("to") {
        Some(to) => to,
        None => {
            return None;
        },
    };
    let from = match parse_plain_https_url(from) {
        Some(from) => from,
        None => {
            return None;
        },
    };
    let to = match parse_plain_https_url(to) {
        Some(to) => to,
        None => {
            return None;
        },
    };
    match routing_key(from.as_str()) {
        Some(key) => Some((key, to)),
        None => None,
    }
}

proof fn lemma_routes_fail(entries: Seq<Tree>, i: int)
    requires
        0 <= i <= entries.len(),
        routes_of(entries.take(i)) is None,
    ensures
        routes_of(entries) is None,
    decreases entries.len() - i,
{
    if i < entries.len() {
        assert(entries.take(i + 1).drop_last() =~= entries.take(i));
        lemma_routes_fail(entries, i + 1);
    } else {
        assert(entries.take(i) =~= entries);
    }
}

/// The table in the upstream's answer.
pub fn parse_mapping(parsed: &Json) -> (r: Option<StringHashMap<String>>)
    ensures
        match r {
            Some(table) => table_in(parsed@) == Some(targets(table@)),
            None => table_in(parsed@) is None,
        },
{
    let endpoint = match parsed.get_in("data", "proxyEndpoint") {
        Some(endpoint) => endpoint,
        None => {
            return None;
        },
    };
    let entries = match endpoint.items_at("mapping") {
        Some(entries) => entries,
        None => {
            return None;
        },
    };
    if entries.len() > MAX_MAPPING_ENTRIES {
        return None;
    }
    let ghost all = crate::json::trees(entries@);
    let mut table: StringHashMap<String> = StringHashMap::new();
    let mut i: usize = 0;
    assert(targets(table@) =~= Map::<Seq<char>, Seq<char>>::empty());
    assert(all.take(0) =~= Seq::<Tree>::empty());
    while i < entries.len()
        invariant
            i <= entries@.len(),
            all == crate::json::trees(entries@),
            entries_in(parsed@) == Some(all),
            all.len() <= MAX_MAPPING_ENTRIES,
            routes_of(all.take(i as int)) == Some(targets(table@)),
        decreases entries@.len() - i,
    {
        assert(all.take(i + 1).drop_last() =~= all.take(i as int));
        assert(all.take(i + 1).last() == entries@[i as int]@);
        match parse_route(&entries[i]) {
            Some((key, to)) => {
                if table.contains_key(key.as_str()) {
                    proof {
                        assert(targets(table@).contains_key(key@));
                        lemma_routes_fail(all, i + 1);
                    }
                    return None;
                }
                let ghost before = table@;
                let ghost k = key@;
                let ghost t = to@;
                table.insert(key, to);
                assert(targets(table@) =~= targets(before).insert(k, t));
            },
            None => {
                proof {
                    lemma_routes_fail(all, i + 1);
                }
                return None;
            },
        }
        i += 1;
    }
    assert(all.take(entries@.len() as int) =~= all);
    Some(table)
}

// ---------------------------------------------------------------------------
// Resolution
// ---------------------------------------------------------------------------

/// A target with the query of the address that it stands for.
pub open spec fn with_query(target: Seq<char>, url: Seq<char>) -> Seq<char> {
    match crate::text::split_once(url, "?"@) {
        None => target,
        Some(parts) => if parts.1.len() == 0 {
            target
        } else if crate::text::contains(target, "?"@) {
            target + "&"@ + parts.1
        } else {
            target + "?"@ + parts.1
        },
    }
}

/// A target with the query of the address that it stands for.
fn keep_query(target: &str, url: &str) -> (r: String)
    ensures
        r@ == with_query(target@, url@),
{
    match split_at_first(url, "?") {
        Some((_, query)) => {
            if is_empty(query.as_str()) {
                target.to_owned()
            } else if has(target, "?") {
                concat3(target, "&", query.as_str())
            } else {
                concat3(target, "?", query.as_str())
            }
        },
        None => target.to_owned(),
    }
}

/// What a table makes of an address: whether it maps it, and where to.
pub open spec fn routed(table: Option<Map<Seq<char>, Seq<char>>>, url: Seq<char>) -> (
    bool,
    Seq<char>,
) {
    match (table, key_of(url)) {
        (Some(table), Some(key)) => if table.contains_key(key) {
            (true, with_query(table[key], url))
        } else {
            (false, url)
        },
        _ => (false, url),
    }
}

/// The base of an origin, with a default for none and without slashes at its
/// end.
pub open spec fn base_of(origin: Option<Seq<char>>) -> Seq<char> {
    let named = match origin {
        Some(o) => if crate::text::trim(o).len() > 0 {
            crate::text::trim(o)
        } else {
            "https://zcode.z.ai"@
        },
        None => "https://zcode.z.ai"@,
    };
    crate::text::trim_end_char(named, '/')
}

/// The base of an origin.
pub fn base_url(origin: Option<&str>) -> (r: String)
    ensures
        r@ == base_of(crate::text::seen_str(origin)),
{
    match origin {
        Some(o) => {
            let t = trimmed(o);
            if is_empty(t.as_str()) {
                trimmed_end_char("https://zcode.z.ai", '/')
            } else {
                trimmed_end_char(t.as_str(), '/')
            }
        },
        None => trimmed_end_char("https://zcode.z.ai", '/'),
    }
}

/// What is to be done for an address.
pub enum RouteStep {
    /// Nothing more: whether it is mapped, and where to send.
    Answer(bool, String),
    /// The table must be asked for first.
    Refresh,
}

/// The table that is kept, and when it may be asked for again.
pub struct EndpointRoutingService {
    config_url: String,
    expires_at: u64,
    table: Option<StringHashMap<String>>,
    retry_after: u64,
}

impl EndpointRoutingService {
    /// The table that is kept, whether or not it is still good.
    pub closed spec fn table(&self) -> Option<Map<Seq<char>, Seq<char>>> {
        match self.table {
            Some(table) => Some(targets(table@)),
            None => None,
        }
    }

    /// Until when the table is good.
    pub closed spec fn good_until(&self) -> u64 {
        self.expires_at
    }

    /// Until when the table is not asked for after a failure.
    pub closed spec fn quiet_until(&self) -> u64 {
        self.retry_after
    }

    /// Where the table is asked for.
    pub closed spec fn source(&self) -> Seq<char> {
        self.config_url@
    }

    /// Whether the kept table is good.
    pub open spec fn fresh(&self, now: u64) -> bool {
        self.table() is Some && self.good_until() > now
    }

    /// A service that keeps no table yet.
    pub fn new(origin: Option<&str>, now: u64) -> (r: Self)
        ensures
            r.table() is None,
            r.quiet_until() == now,
            r.source() == base_of(crate::text::seen_str(origin)) + "/api/v1/agent/configs"@,
    {
        let base = base_url(origin);
        EndpointRoutingService {
            config_url: concat(base.as_str(), "/api/v1/agent/configs"),
            expires_at: now,
            table: None,
            retry_after: now,
        }
    }

    /// Where the table is asked for.
    pub fn config_url(&self) -> (r: String)
        ensures
            r@ == self.source(),
    {
        self.config_url.clone()
    }

    /// What the kept table makes of an address.
    pub fn answer(&self, url: &str) -> (r: (bool, String))
        ensures
            (r.0, r.1@) == routed(self.table(), url@),
    {
        if let Some(key) = routing_key(url) {
            if let Some(table) = &self.table {
                if let Some(target) = table.get(key.as_str()) {
                    assert(targets(table@).contains_key(key@));
                    return (true, keep_query(target.as_str(), url));
                }
                assert(!targets(table@).contains_key(key@));
            }
        }
        (false, url.to_owned())
    }

    /// What is to be done for an address: an address that has no key goes as it
    /// is, a good table answers, and within the time after a failure everything
    /// goes as it is.
    pub fn resolve(&self, url: &str, now: u64) -> (r: RouteStep)
        ensures
            match r {
                RouteStep::Answer(mapped, to) => if key_of(url@) is Some && self.fresh(now) {
                    (mapped, to@) == routed(self.table(), url@)
                } else {
                    !mapped && to@ == url@ && (key_of(url@) is None || self.quiet_until() > now)
                },
                RouteStep::Refresh => key_of(url@) is Some && !self.fresh(now)
                    && self.quiet_until() <= now,
            },
    {
        if routing_key(url).is_none() {
            return RouteStep::Answer(false, url.to_owned());
        }
        if self.table.is_some() && self.expires_at > now {
            let (mapped, to): (bool, String) = self.answer(url);
            return RouteStep::Answer(mapped, to);
        }
        if self.retry_after > now {
            return RouteStep::Answer(false, url.to_owned());
        }
        RouteStep::Refresh
    }

    /// Takes the upstream's answer in, where one came and could be read. A table
    /// replaces the kept one; anything else leaves it, and starts a pause.
    pub fn refresh(&mut self, answer: Option<&Json>, now: u64)
        ensures
            final(self).source() == old(self).source(),
            match table_answered(crate::json::seen(answer)) {
                Some(table) => {
                    &&& final(self).table() == Some(table)
                    &&& final(self).good_until() == crate::pool::later(now, SUCCESS_TTL_MS as int)
                    &&& final(self).quiet_until() == now
                },
                None => {
                    &&& final(self).table() == old(self).table()
                    &&& final(self).good_until() == old(self).good_until()
                    &&& final(self).quiet_until() == crate::pool::later(
                        now,
                        FAILURE_COOLDOWN_MS as int,
                    )
                },
            },
    {
        let table: Option<StringHashMap<String>> = match answer {
            Some(answer) => match answer.i64_at("code") {
                Some(code) => if code == 0 {
                    parse_mapping(answer)
                } else {
                    None
                },
                None => None,
            },
            None => None,
        };
        match table {
            Some(table) => {
                self.table = Some(table);
                self.expires_at = add_millis(now, SUCCESS_TTL_MS);
                self.retry_after = now;
            },
            None => {
                self.retry_after = add_millis(now, FAILURE_COOLDOWN_MS);
            },
        }
    }
}

/// The table in an answer that reports success.
pub open spec fn table_answered(answer: Option<Tree>) -> Option<Map<Seq<char>, Seq<char>>> {
    match answer {
        Some(answer) => if answer.signed_at("code"@) == Some(0i64) {
            table_in(answer)
        } else {
            None
        },
        None => None,
    }
}

/// A time some milliseconds later.
pub fn add_millis(now: u64, millis: u64) -> (r: u64)
    ensures
        r == crate::pool::later(now, millis as int),
{
    if now > u64::MAX - millis {
        u64::MAX
    } else {
        now + millis
    }
}

/// The headers of a request for the table: those that name the client, the
/// credential where there is one, and what is accepted.
pub fn refresh_headers(identity: Vec<(String, String)>, credential: Option<&str>) -> (r: Vec<
    (String, String),
>)
    ensures
        crate::text::pair_views(r@) == crate::text::pair_views(identity@)
            + crate::text::optional_pair("x-api-key"@, crate::text::seen_str(credential)) + seq![
            ("accept"@, "application/json"@),
        ],
{
    let mut h: Vec<(String, String)> = identity;
    add_optional_pair(&mut h, "x-api-key", credential);
    add_pair(&mut h, "accept", "application/json");
    h
}

// ---------------------------------------------------------------------------
// Laws
// ---------------------------------------------------------------------------

proof fn lemma_no_mark(s: Seq<char>)
    ensures
        crate::text::contains(s, "?"@) <==> s.contains('?'),
        !s.contains('?') ==> without_query(s) == s,
        !without_query(s).contains('?'),
{
    let mark = "?"@;
    reveal_strlit("?");
    assert forall|i: int| crate::text::stands_at(s, mark, i) <==> 0 <= i < s.len() && #[trigger] s[i]
        == '?' by {
        if 0 <= i < s.len() {
            assert(s.subrange(i, i + 1) =~= seq![s[i]]);
            assert(mark =~= seq!['?']);
            assert(s.subrange(i, i + 1)[0] == s[i]);
        }
    }
    if s.contains('?') {
        let i = choose|i: int| 0 <= i < s.len() && s[i] == '?';
        assert(crate::text::stands_at(s, mark, i));
    }
    if crate::text::contains(s, mark) {
        let i = choose|i: int| crate::text::stands_at(s, mark, i);
        assert(s[i] == '?');
    }
    crate::text::lemma_find_from(s, mark, 0);
    assert forall|k: int| 0 <= k < without_query(s).len() implies #[trigger] without_query(s)[k]
        != '?' by {
        assert(without_query(s)[k] == s[k]);
        assert(!crate::text::stands_at(s, mark, k));
    }
}

/// A query makes no difference to whether an address is mapped, and goes along
/// to where it is mapped.
pub proof fn law_queries_are_kept(
    table: Map<Seq<char>, Seq<char>>,
    address: Seq<char>,
    query: Seq<char>,
)
    requires
        !address.contains('?'),
        query.len() > 0,
    ensures
        ({
            let url = address + "?"@ + query;
            &&& key_of(url) == key_of(address)
            &&& routed(Some(table), url).0 == routed(Some(table), address).0
            &&& routed(Some(table), url).0 ==> {
                let target = table[key_of(address)->0];
                &&& routed(Some(table), address).1 == target
                &&& routed(Some(table), url).1 == if target.contains('?') {
                    target + "&"@ + query
                } else {
                    target + "?"@ + query
                }
            }
        }),
{
    let mark = "?"@;
    let url = address + mark + query;
    let at = address.len() as int;
    reveal_strlit("?");
    lemma_no_mark(address);
    crate::text::lemma_find_from(address, mark, 0);
    assert(crate::text::stands_at(url, mark, at)) by {
        assert(url.subrange(at, at + 1) =~= mark);
    }
    crate::text::lemma_find_from(url, mark, 0);
    assert(crate::text::find(url, mark) == Some(at)) by {
        let i = crate::text::find(url, mark)->0;
        if i < at {
            assert(url.subrange(i, i + 1)[0] == address[i]);
            assert(address.contains(address[i]));
        }
    }
    assert(url.take(at) =~= address);
    assert(url.skip(at + 1) =~= query);
    if routed(Some(table), url).0 {
        lemma_no_mark(table[key_of(address)->0]);
    }
}

/// Whatever fails, a request goes to its own address: without a table, for an
/// address without a key, and for one that the table does not map.
pub proof fn law_routing_fails_open(table: Option<Map<Seq<char>, Seq<char>>>, url: Seq<char>)
    ensures
        !routed(table, url).0 ==> routed(table, url).1 == url,
        routed(table, url).0 ==> table is Some && key_of(url) is Some && table->0.contains_key(
            key_of(url)->0,
        ),
        table is None ==> routed(table, url) == (false, url),
{
}

/// A table that maps an address twice, or holds an address that is not plain
/// HTTPS, is refused as a whole.
pub proof fn law_bad_entries_spoil_the_table(entries: Seq<Tree>, i: int, j: int)
    requires
        0 <= i < entries.len(),
        route_of(entries[i]) is None || (0 <= j < i && route_of(entries[j]) is Some && (route_of(
            entries[i],
        )->0).0 == (route_of(entries[j])->0).0),
    ensures
        routes_of(entries) is None,
{
    assert(entries.take(i + 1).drop_last() =~= entries.take(i));
    assert(entries.take(i + 1).last() == entries[i]);
    if route_of(entries[i]) is Some {
        if routes_of(entries.take(i)) is Some {
            lemma_routes_keys(entries.take(i), j);
            assert(entries.take(i)[j] == entries[j]);
        }
    }
    lemma_routes_fail(entries, i + 1);
}

proof fn lemma_routes_keys(entries: Seq<Tree>, j: int)
    requires
        routes_of(entries) is Some,
        0 <= j < entries.len(),
    ensures
        route_of(entries[j]) is Some,
        routes_of(entries)->0.contains_key((route_of(entries[j])->0).0),
    decreases entries.len(),
{
    if j < entries.len() - 1 {
        lemma_routes_keys(entries.drop_last(), j);
        assert(entries.drop_last()[j] == entries[j]);
    }
}

proof fn lemma_char_from(s: Seq<char>, c: char, k: int)
    requires
        0 <= k <= s.len(),
    ensures
        match crate::text::char_from(s, c, k) {
            Some(i) => k <= i < s.len() && s[i] == c && forall|j: int|
                k <= j < i ==> #[trigger] s[j] != c,
            None => forall|j: int| k <= j < s.len() ==> #[trigger] s[j] != c,
        },
    decreases s.len() - k,
{
    if k < s.len() && s[k] != c {
        lemma_char_from(s, c, k + 1);
    }
}

proof fn lemma_last_char(s: Seq<char>, c: char, end: int)
    requires
        0 <= end <= s.len(),
    ensures
        match crate::text::last_char_before(s, c, end) {
            Some(i) => 0 <= i < end && s[i] == c && forall|j: int|
                i < j < end ==> #[trigger] s[j] != c,
            None => forall|j: int| 0 <= j < end ==> #[trigger] s[j] != c,
        },
    decreases end,
{
    if end > 0 && s[end - 1] != c {
        lemma_last_char(s, c, end - 1);
    }
}

proof fn lemma_trim_end(s: Seq<char>, c: char)
    ensures
        crate::text::trim_end_char(s, c).len() <= s.len(),
        crate::text::trim_end_char(s, c) == s.take(crate::text::trim_end_char(s, c).len() as int),
        crate::text::trim_end_char(s, c).len() > 0 ==> crate::text::trim_end_char(s, c).last()
            != c,
    decreases s.len(),
{
    if s.len() > 0 && s.last() == c {
        lemma_trim_end(s.drop_last(), c);
        let n = crate::text::trim_end_char(s, c).len() as int;
        assert(s.drop_last().take(n) =~= s.take(n));
    } else {
        assert(s.take(s.len() as int) =~= s);
    }
}

proof fn lemma_bare_path(path: Seq<char>)
    requires
        path.len() > 0,
        path[0] == '/',
    ensures
        bare_path(path).len() > 0,
        bare_path(path)[0] == '/',
        bare_path(bare_path(path)) == bare_path(path),
{
    reveal_strlit("/");
    lemma_trim_end(path, '/');
    let bare = crate::text::trim_end_char(path, '/');
    if bare.len() == 0 {
        assert("/"@.drop_last() =~= Seq::<char>::empty());
        assert(crate::text::trim_end_char("/"@, '/') =~= Seq::<char>::empty()) by {
            reveal_with_fuel(crate::text::trim_end_char, 2);
        }
    } else {
        assert(bare[0] == path[0]);
        assert(crate::text::trim_end_char(bare, '/') == bare);
    }
}

/// What a URL splits into: a path that begins with a slash, and an authority
/// without slashes and at signs.
proof fn lemma_split_url(url: Seq<char>)
    requires
        crate::url::split_url(url) is Some,
    ensures
        ({
            let parts = crate::url::split_url(url)->0;
            &&& crate::url::known_scheme(parts.0)
            &&& forall|i: int|
                0 <= i < parts.1.len() ==> #[trigger] parts.1[i] != '/' && parts.1[i] != '@'
            &&& parts.2.len() > 0
            &&& parts.2[0] == '/'
        }),
{
    reveal_strlit("/");
    let rest = crate::text::split_once(url, "://"@)->0;
    let halves = crate::url::authority_and_path(rest.1);
    lemma_char_from(rest.1, '/', 0);
    lemma_last_char(halves.0, '@', halves.0.len() as int);
    let host = crate::url::after_last(halves.0, '@');
    assert forall|i: int| 0 <= i < host.len() implies #[trigger] host[i] != '/' && host[i] != '@' by {
        let shift = halves.0.len() - host.len();
        assert(host[i] == halves.0[i + shift]);
        assert(halves.0[i + shift] == rest.1[i + shift]);
    }
}

/// The parts of a URL without question marks hold none.
proof fn lemma_split_has_no_mark(url: Seq<char>)
    requires
        !url.contains('?'),
        crate::url::split_url(url) is Some,
    ensures
        ({
            let parts = crate::url::split_url(url)->0;
            &&& forall|i: int| 0 <= i < parts.1.len() ==> #[trigger] parts.1[i] != '?'
            &&& forall|i: int| 0 <= i < parts.2.len() ==> #[trigger] parts.2[i] != '?'
        }),
{
    reveal_strlit("/");
    reveal_strlit("://");
    assert forall|i: int| 0 <= i < url.len() implies #[trigger] url[i] != '?' by {
        assert(url.contains(url[i]));
    }
    crate::text::lemma_find_from(url, "://"@, 0);
    let start = crate::text::find(url, "://"@)->0 + 3;
    let rest = url.skip(start);
    assert(crate::text::split_once(url, "://"@) == Some((url.take(start - 3), rest)));
    let halves = crate::url::authority_and_path(rest);
    lemma_char_from(rest, '/', 0);
    lemma_last_char(halves.0, '@', halves.0.len() as int);
    let host = crate::url::after_last(halves.0, '@');
    assert forall|i: int| 0 <= i < host.len() implies #[trigger] host[i] != '?' by {
        let shift = halves.0.len() - host.len();
        assert(host[i] == halves.0[i + shift]);
        assert(halves.0[i + shift] == rest[i + shift]);
        assert(rest[i + shift] == url[i + shift + start]);
    }
    assert forall|i: int| 0 <= i < halves.1.len() implies #[trigger] halves.1[i] != '?' by {
        if crate::text::char_from(rest, '/', 0) is Some {
            let at = crate::text::char_from(rest, '/', 0)->0;
            assert(halves.1[i] == rest[at + i]);
            assert(rest[at + i] == url[at + i + start]);
        }
    }
}

/// A URL put together of such parts splits into them.
proof fn lemma_split_joined(scheme: Seq<char>, authority: Seq<char>, path: Seq<char>)
    requires
        crate::url::known_scheme(scheme),
        forall|i: int|
            0 <= i < authority.len() ==> #[trigger] authority[i] != '/' && authority[i] != '@',
        path.len() > 0,
        path[0] == '/',
    ensures
        crate::url::split_url(scheme + "://"@ + authority + path) == Some((scheme, authority, path)),
{
    reveal_strlit("https");
    reveal_strlit("http");
    reveal_strlit("://");
    let mark = "://"@;
    let url = scheme + mark + authority + path;
    assert forall|k: int| 0 <= k < scheme.len() implies !crate::text::stands_at(url, mark, k) by {
        if crate::text::stands_at(url, mark, k) {
            assert(url.subrange(k, k + mark.len())[0] == url[k]);
            assert(url[k] == scheme[k]);
            assert(scheme[k] != ':');
        }
    }
    assert(crate::text::stands_at(url, mark, scheme.len() as int)) by {
        assert(url.subrange(scheme.len() as int, (scheme.len() + mark.len()) as int) =~= mark);
    }
    crate::text::lemma_find_from(url, mark, 0);
    assert(crate::text::find(url, mark) == Some(scheme.len() as int));
    let rest = authority + path;
    assert(url.take(scheme.len() as int) =~= scheme);
    assert(url.skip((scheme.len() + mark.len()) as int) =~= rest);
    lemma_char_from(rest, '/', 0);
    assert(rest[authority.len() as int] == '/');
    assert(crate::text::char_from(rest, '/', 0) == Some(authority.len() as int)) by {
        let i = crate::text::char_from(rest, '/', 0)->0;
        if i < authority.len() {
            assert(rest[i] == authority[i]);
        }
    }
    assert(rest.take(authority.len() as int) =~= authority);
    assert(rest.skip(authority.len() as int) =~= path);
    lemma_last_char(authority, '@', authority.len() as int);
}

/// Keys are in normal form: the key of a key is that key. So addresses that
/// differ in the case of the host, a default port, slashes at the end or the
/// query share one.
pub proof fn law_keys_are_normal(url: Seq<char>)
    requires
        key_of(url) is Some,
    ensures
        key_of(key_of(url)->0) == key_of(url),
{
    let address = without_query(url);
    let parts = crate::url::split_url(address)->0;
    let scheme = parts.0;
    let place = host_and_port(parts.1);
    let host = crate::text::lower(place.0);
    let port = place.1;
    let path = bare_path(parts.2);
    lemma_split_url(address);
    lemma_bare_path(parts.2);
    lemma_last_char(parts.1, ':', parts.1.len() as int);
    reveal_strlit(":");
    reveal_strlit("443");
    assert(all_digits("443"@));
    assert(all_digits(port));
    let authority = host + ":"@ + port;
    assert forall|i: int| 0 <= i < authority.len() implies #[trigger] authority[i] != '/'
        && authority[i] != '@' by {
        if i < host.len() {
            assert(authority[i] == crate::text::lower_char(place.0[i]));
            assert(place.0[i] == parts.1[i]);
        } else if i > host.len() {
            assert(authority[i] == port[i - host.len() - 1]);
        }
    }
    lemma_split_joined(scheme, authority, path);
    let key = key_of(url)->0;
    assert(key =~= scheme + "://"@ + authority + path);
    assert(without_query(key) == key) by {
        lemma_no_mark(url);
        lemma_split_has_no_mark(address);
        lemma_trim_end(parts.2, '/');
        lemma_no_mark(key);
        reveal_strlit("https");
        reveal_strlit("http");
        reveal_strlit("://");
        reveal_strlit("/");
        assert forall|i: int| 0 <= i < key.len() implies #[trigger] key[i] != '?' by {
            let front = scheme.len() + 3;
            if i < scheme.len() {
                assert(key[i] == scheme[i]);
            } else if i < front {
                assert(key[i] == "://"@[i - scheme.len()]);
            } else if i < front + host.len() {
                assert(key[i] == crate::text::lower_char(place.0[i - front]));
                assert(place.0[i - front] == parts.1[i - front]);
            } else if i < front + authority.len() {
                assert(key[i] == authority[i - front]);
            } else {
                let k = i - front - authority.len();
                assert(key[i] == path[k]);
                if crate::text::trim_end_char(parts.2, '/').len() > 0 {
                    assert(path[k] == parts.2[k]);
                }
            }
        }
    }
    lemma_last_char(authority, ':', authority.len() as int);
    assert(authority[host.len() as int] == ':');
    assert(crate::text::last_char_before(authority, ':', authority.len() as int) == Some(
        host.len() as int,
    )) by {
        let i = crate::text::last_char_before(authority, ':', authority.len() as int)->0;
        if i > host.len() {
            assert(authority[i] == port[i - host.len() - 1]);
        }
    }
    assert(authority.skip((host.len() + 1) as int) =~= port);
    assert(authority.take(host.len() as int) =~= host);
    assert(crate::text::lower(host) =~= host);
    assert(key =~= key_text(scheme, host, port, path));
}

proof fn lemma_address_has_no_query(
    scheme: Seq<char>,
    authority: Seq<char>,
    path: Seq<char>,
)
    requires
        scheme == "https"@ || scheme == "http"@,
        !authority.contains('?'),
        !path.contains('?'),
    ensures
        !(scheme + "://"@ + (authority + path)).contains('?'),
{
    reveal_strlit("https");
    reveal_strlit("http");
    reveal_strlit("://");
    let url = scheme + "://"@ + (authority + path);
    let n = scheme.len() as int;
    let m = authority.len() as int;
    assert("://"@.len() == 3);
    assert forall|k: int| 0 <= k < url.len() implies url[k] != '?' by {
        if k < n {
        } else if k < n + 3 {
        } else if k < n + 3 + m {
            assert(authority.contains(authority[k - n - 3]));
        } else {
            assert(path.contains(path[k - n - 3 - m]));
        }
    }
}

/// The key of an address is its scheme, its host in small letters, its port and
/// its path without the slashes at the end. Where no port is given it is that of
/// HTTPS.
pub proof fn law_keys_name_what_is_addressed(
    scheme: Seq<char>,
    host: Seq<char>,
    port: Seq<char>,
    path: Seq<char>,
)
    requires
        scheme == "https"@ || scheme == "http"@,
        !host.contains('/') && !host.contains('@') && !host.contains('?') && !host.contains(':'),
        port.len() > 0,
        forall|i: int| 0 <= i < port.len() ==> '0' <= #[trigger] port[i] <= '9',
        path.len() > 0,
        path[0] == '/',
        path.last() != '/',
        !path.contains('?'),
    ensures
        key_of(scheme + "://"@ + (host + ":"@ + port + path)) == Some(
            scheme + "://"@ + crate::text::lower(host) + ":"@ + port + path,
        ),
        key_of(scheme + "://"@ + (host + path)) == Some(
            scheme + "://"@ + crate::text::lower(host) + ":"@ + "443"@ + path,
        ),
{
    reveal_strlit(":");
    assert(":"@.len() == 1 && ":"@[0] == ':');
    let authority = host + ":"@ + port;
    let n = host.len() as int;
    assert forall|k: int| 0 <= k < authority.len() implies authority[k] != '/' && authority[k]
        != '@' && authority[k] != '?' by {
        if k < n {
            assert(host.contains(host[k]));
        } else if k > n {
            assert('0' <= port[k - n - 1] <= '9');
        }
    }
    lemma_address_has_no_query(scheme, authority, path);
    lemma_address_has_no_query(scheme, host, path);
    lemma_no_mark(scheme + "://"@ + (authority + path));
    lemma_no_mark(scheme + "://"@ + (host + path));
    crate::url::law_addresses_are_taken_apart(scheme, authority, path);
    crate::url::law_addresses_are_taken_apart(scheme, host, path);
    crate::text::law_last_characters_are_found(authority, ':', authority.len() as int);
    crate::text::law_last_characters_are_found(host, ':', n);
    assert(authority[n] == ':');
    let i = crate::text::last_char_before(authority, ':', authority.len() as int)->0;
    if i > n {
        assert('0' <= port[i - n - 1] <= '9');
    }
    assert(authority.skip(n + 1) =~= port);
    assert(authority.take(n) =~= host);
    assert(all_digits(port));
    let none = crate::text::last_char_before(host, ':', n);
    if none is Some {
        assert(host.contains(host[none->0]));
    }
    crate::text::law_ends_are_cut_off(path, '/');
}

/// Slashes at the end of a path make no difference, and what is all slashes is the
/// root.
pub proof fn law_slashes_at_the_end_make_no_difference(path: Seq<char>)
    ensures
        bare_path(path.push('/')) == bare_path(path),
        path.len() > 0 && path.last() != '/' ==> bare_path(path) == path,
        bare_path(Seq::empty()) == "/"@,
{
    crate::text::law_ends_are_cut_off(path, '/');
}

/// An address in a table is a text that begins with HTTPS and names no user, no
/// query and no fragment; it is taken as it is.
pub proof fn law_table_addresses_are_plain(value: Tree, rest: Seq<char>)
    ensures
        plain_https(value) is Some ==> value == Tree::Text(plain_https(value)->0),
        plain_https(value) is Some ==> "https://"@.is_prefix_of(plain_https(value)->0)
            && !crate::text::contains(plain_https(value)->0.skip(8), "@"@)
            && !crate::text::contains(plain_https(value)->0.skip(8), "?"@)
            && !crate::text::contains(plain_https(value)->0.skip(8), "#"@),
        !crate::text::contains(rest, "@"@) && !crate::text::contains(rest, "?"@)
            && !crate::text::contains(rest, "#"@) ==> plain_https(Tree::Text("https://"@ + rest))
            == Some("https://"@ + rest),
{
    reveal_strlit("https://");
    reveal_strlit("https");
    reveal_strlit("://");
    let p = "://"@;
    assert("https"@ + p =~= "https://"@);
    let url = "https"@ + p + rest;
    assert(url =~= "https://"@ + rest);
    assert forall|k: int| 0 <= k < "https"@.len() implies !#[trigger] crate::text::stands_at(
        url,
        p,
        k,
    ) by {
        if crate::text::stands_at(url, p, k) {
            assert(url.subrange(k, k + 3)[0] == url[k]);
        }
    }
    crate::text::law_splitting_is_at_the_first("https"@, p, rest);
    if plain_https(value) is Some {
        let s = plain_https(value)->0;
        crate::text::lemma_find_from(s, p, 0);
        let i = crate::text::find(s, p)->0;
        assert(s.take(i) == "https"@);
        assert(s.take(i).len() == 5);
        assert(s.subrange(i, i + 3) == p);
        assert(s =~= s.take(i) + s.subrange(i, i + 3) + s.skip(i + 3));
        assert("https://"@.is_prefix_of(s)) by {
            assert(s.take(8) =~= "https://"@);
        }
    }
}

/// An entry of a table maps the key of one plain address to another plain one.
pub proof fn law_entries_map_a_key_to_an_address(entry: Tree, from: Seq<char>, to: Seq<char>)
    ensures
        entry.field("from"@) == Some(Tree::Text(from)) && entry.field("to"@) == Some(
            Tree::Text(to),
        ) && plain_https(Tree::Text(from)) is Some && plain_https(Tree::Text(to)) is Some
            && key_of(from) is Some ==> route_of(entry) == Some((key_of(from)->0, to)),
        route_of(entry) is Some ==> entry.field("from"@) is Some && entry.field("to"@) is Some
            && plain_https(entry.field("from"@)->0) is Some && plain_https(entry.field("to"@)->0) is Some,
{
}

/// A table is built entry by entry: a further one adds its key and its address and
/// changes nothing else, and the table without entries maps nothing.
pub proof fn law_tables_are_built_entry_by_entry(entries: Seq<Tree>, entry: Tree, key: Seq<char>)
    ensures
        routes_of(Seq::empty()) is Some,
        !routes_of(Seq::empty())->0.contains_key(key),
        ({
            let more = routes_of(entries.push(entry));
            let fits = routes_of(entries) is Some && route_of(entry) is Some && !routes_of(
                entries,
            )->0.contains_key((route_of(entry)->0).0);
            &&& more is Some <==> fits
            &&& fits ==> more->0.contains_key((route_of(entry)->0).0)
            &&& fits ==> more->0[(route_of(entry)->0).0] == (route_of(entry)->0).1
            &&& fits && key != (route_of(entry)->0).0 ==> more->0.contains_key(key) == routes_of(
                entries,
            )->0.contains_key(key)
            &&& fits && key != (route_of(entry)->0).0 && routes_of(entries)->0.contains_key(key)
                ==> more->0[key] == routes_of(entries)->0[key]
        }),
{
    assert(entries.push(entry).drop_last() =~= entries);
}

/// A table is read from the list of mappings in an answer whose code is zero, and
/// only where the list has no more than 256 entries.
pub proof fn law_tables_are_read_from_good_answers(answer: Tree, endpoint: Tree, entries: Seq<Tree>)
    ensures
        table_answered(None) is None,
        answer.signed_at("code"@) != Some(0i64) ==> table_answered(Some(answer)) is None,
        answer.signed_at("code"@) == Some(0i64) && answer.field_in("data"@, "proxyEndpoint"@)
            == Some(endpoint) && endpoint.field("mapping"@) == Some(Tree::Array(entries))
            && entries.len() <= 256 ==> table_answered(Some(answer)) == routes_of(entries),
        answer.field_in("data"@, "proxyEndpoint"@) == Some(endpoint) && endpoint.field("mapping"@)
            == Some(Tree::Array(entries)) && entries.len() > 256 ==> table_answered(
            Some(answer),
        ) is None,
        answer.field_in("data"@, "proxyEndpoint"@) is None ==> table_answered(Some(answer)) is None,
        answer.field_in("data"@, "proxyEndpoint"@) == Some(endpoint) && endpoint.items_at(
            "mapping"@,
        ) is None ==> table_answered(Some(answer)) is None,
{
}

/// An address that the table maps goes to what it is mapped to.
pub proof fn law_mapped_addresses_are_sent_on(
    table: Map<Seq<char>, Seq<char>>,
    url: Seq<char>,
)
    requires
        !url.contains('?'),
        key_of(url) is Some,
    ensures
        routed(Some(table), url).0 <==> table.contains_key(key_of(url)->0),
        table.contains_key(key_of(url)->0) ==> routed(Some(table), url).1 == table[key_of(url)->0],
{
    lemma_no_mark(url);
    crate::text::lemma_find_from(url, "?"@, 0);
}

/// The table comes from the origin that is given, without white space around it
/// and slashes at its end; where none is given, or a blank one, from the service's
/// own.
pub proof fn law_tables_come_from_the_origin(origin: Seq<char>)
    ensures
        crate::text::trim(origin).len() > 0 ==> base_of(Some(origin)) == crate::text::trim_end_char(
            crate::text::trim(origin),
            '/',
        ),
        crate::text::trim(origin).len() == 0 ==> base_of(Some(origin)) == "https://zcode.z.ai"@,
        base_of(None) == "https://zcode.z.ai"@,
{
    reveal_strlit("https://zcode.z.ai");
    assert("https://zcode.z.ai"@.len() == 18 && "https://zcode.z.ai"@[17] == 'i');
}

/// A table is good for five minutes, and after a failure none is asked for within
/// half a minute.
pub proof fn law_tables_last_five_minutes(now: u64, s: EndpointRoutingService)
    requires
        now <= u64::MAX - 300_000,
    ensures
        crate::pool::later(now, SUCCESS_TTL_MS as int) == now + 300_000,
        crate::pool::later(now, FAILURE_COOLDOWN_MS as int) == now + 30_000,
        s.fresh(now) <==> s.table() is Some && s.good_until() > now,
{
}

} // verus!
