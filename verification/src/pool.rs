//! The account pool: which accounts there are, how they are doing, and which of
//! them to try next.

use crate::json::{Json, Numeric, Tree};
use crate::text::{concat, concat3, is_blank, is_empty, same, trimmed};
use std::time::Duration;
use vstd::hash_map::StringHashMap;
use vstd::prelude::*;

verus! {

/// How long a snapshot of the accounts stays fresh, in milliseconds.
pub const POOL_TTL_MS: u64 = 3_000;

/// What an attempt failed of.
#[derive(Debug, Clone, Copy, PartialEq, Eq, Structural)]
pub enum FailureKind {
    Unauthorized,
    PaymentRequired,
    Forbidden,
    RateLimited,
    ServerError,
    Network,
    BadRequest,
}

/// The seconds that an account sits out after a failure: longest after a
/// rejected credential, not at all after a mistake of the client.
pub open spec fn cooldown_secs(kind: FailureKind) -> u64 {
    match kind {
        FailureKind::Unauthorized => 300,
        FailureKind::PaymentRequired | FailureKind::Forbidden => 120,
        FailureKind::RateLimited => 30,
        FailureKind::ServerError | FailureKind::Network => 15,
        FailureKind::BadRequest => 0,
    }
}

/// `Duration::from_secs` gives the duration of that many whole seconds.
pub assume_specification[ Duration::from_secs ](secs: u64) -> (r: Duration)
    ensures
        crate::clock::whole_seconds(r) == secs,
        crate::clock::whole_millis(r) == secs * 1000,
        crate::clock::whole_nanos(r) == secs * 1_000_000_000,
;

/// The seconds that an account sits out after a failure.
pub fn cooldown_seconds(kind: FailureKind) -> (r: u64)
    ensures
        r == cooldown_secs(kind),
{
    match kind {
        FailureKind::Unauthorized => 300,
        FailureKind::PaymentRequired | FailureKind::Forbidden => 120,
        FailureKind::RateLimited => 30,
        FailureKind::ServerError | FailureKind::Network => 15,
        FailureKind::BadRequest => 0,
    }
}

/// How long an account sits out after a failure.
pub fn cooldown_for_failure(kind: FailureKind) -> (r: Duration)
    ensures
        crate::clock::whole_seconds(r) == cooldown_secs(kind),
        crate::clock::whole_millis(r) == cooldown_secs(kind) * 1000,
        crate::clock::whole_nanos(r) == cooldown_secs(kind) * 1_000_000_000,
{
    Duration::from_secs(cooldown_seconds(kind))
}

// ---------------------------------------------------------------------------
// Entries
// ---------------------------------------------------------------------------

/// What an account offers the gateway.
#[derive(Debug)]
pub struct PoolEntry {
    pub account_id: String,
    pub name: String,
    pub provider: String,
    pub plan: String,
    /// The key of a coding plan; empty for any other plan.
    pub credential: String,
    /// The token of a start plan; empty for any other plan.
    pub jwt: String,
    /// The device id under which the account's requests go out.
    pub device_mid: Option<String>,
    /// Where the account's messages are posted.
    pub messages_url: String,
    /// Whether the user took the account out of the pool.
    pub excluded: bool,
    /// Why the account cannot be used; empty where it can.
    pub unusable_reason: String,
}

/// A pool entry, with its texts as characters.
pub ghost struct EntryRow {
    pub account_id: Seq<char>,
    pub name: Seq<char>,
    pub provider: Seq<char>,
    pub plan: Seq<char>,
    pub credential: Seq<char>,
    pub jwt: Seq<char>,
    pub device_mid: Option<Seq<char>>,
    pub messages_url: Seq<char>,
    pub excluded: bool,
    pub unusable_reason: Seq<char>,
}

impl View for PoolEntry {
    type V = EntryRow;

    open spec fn view(&self) -> EntryRow {
        EntryRow {
            account_id: self.account_id@,
            name: self.name@,
            provider: self.provider@,
            plan: self.plan@,
            credential: self.credential@,
            jwt: self.jwt@,
            device_mid: crate::text::seen_string(self.device_mid),
            messages_url: self.messages_url@,
            excluded: self.excluded,
            unusable_reason: self.unusable_reason@,
        }
    }
}

impl Clone for PoolEntry {
    fn clone(&self) -> (r: Self)
        ensures
            r@ == self@,
    {
        PoolEntry {
            account_id: self.account_id.clone(),
            name: self.name.clone(),
            provider: self.provider.clone(),
            plan: self.plan.clone(),
            credential: self.credential.clone(),
            jwt: self.jwt.clone(),
            device_mid: copy_text(&self.device_mid),
            messages_url: self.messages_url.clone(),
            excluded: self.excluded,
            unusable_reason: self.unusable_reason.clone(),
        }
    }
}

/// A copy of a text that may be missing.
pub fn copy_text(s: &Option<String>) -> (r: Option<String>)
    ensures
        r == *s,
{
    match s {
        Some(s) => Some(s.clone()),
        None => None,
    }
}

/// The rows of a list of entries.
pub open spec fn rows(entries: Seq<PoolEntry>) -> Seq<EntryRow> {
    entries.map_values(|e: PoolEntry| e@)
}

/// A copy of a list of entries.
pub fn copy_entries(entries: &Vec<PoolEntry>) -> (r: Vec<PoolEntry>)
    ensures
        rows(r@) == rows(entries@),
{
    let mut out: Vec<PoolEntry> = Vec::new();
    let mut i: usize = 0;
    while i < entries.len()
        invariant
            i <= entries@.len(),
            out@.len() == i,
            forall|k: int| 0 <= k < i ==> (#[trigger] out@[k])@ == entries@[k]@,
        decreases entries@.len() - i,
    {
        out.push(entries[i].clone());
        i += 1;
    }
    assert(rows(out@) =~= rows(entries@));
    out
}

// ---------------------------------------------------------------------------
// Credentials
// ---------------------------------------------------------------------------

/// A stored account, its secrets opened.
pub struct AccountRecord {
    pub id: String,
    pub name: String,
    /// The provider that the account is signed in with.
    pub active_provider: Option<String>,
    /// The token of the start plan.
    pub jwt: Option<String>,
    /// What the token says, where it can be read.
    pub jwt_payload: Option<Json>,
    /// The client configuration kept with the account.
    pub config: Option<Json>,
    /// The device id kept with the account.
    pub virtual_device_mid: Option<String>,
}

/// A stored account, with its texts as characters.
pub ghost struct AccountRow {
    pub id: Seq<char>,
    pub name: Seq<char>,
    pub active_provider: Option<Seq<char>>,
    pub jwt: Option<Seq<char>>,
    pub jwt_payload: Option<Tree>,
    pub config: Option<Tree>,
    pub virtual_device_mid: Option<Seq<char>>,
}

impl View for AccountRecord {
    type V = AccountRow;

    open spec fn view(&self) -> AccountRow {
        AccountRow {
            id: self.id@,
            name: self.name@,
            active_provider: crate::text::seen_string(self.active_provider),
            jwt: crate::text::seen_string(self.jwt),
            jwt_payload: crate::json::seen_own(self.jwt_payload),
            config: crate::json::seen_own(self.config),
            virtual_device_mid: crate::text::seen_string(self.virtual_device_mid),
        }
    }
}

/// A credential of an account: what is stored, or what it decrypts to where it
/// is stored encrypted.
pub open spec fn opened_field(
    credentials: Tree,
    key: Seq<char>,
    encrypted: bool,
    decrypted: Option<Seq<char>>,
) -> Option<Seq<char>> {
    match credentials.text_at(key) {
        None => None,
        Some(stored) => if encrypted {
            decrypted
        } else {
            Some(stored)
        },
    }
}

/// Opens a credential of an account, given whether it is stored encrypted and
/// what it decrypts to.
pub fn decrypt_field(
    credentials: &Json,
    key: &str,
    encrypted: bool,
    decrypted: Option<String>,
) -> (r: Option<String>)
    ensures
        crate::text::seen_string(r) == opened_field(
            credentials@,
            key@,
            encrypted,
            crate::text::seen_string(decrypted),
        ),
{
    match credentials.str_at(key) {
        None => None,
        Some(stored) => if encrypted {
            decrypted
        } else {
            Some(stored.to_owned())
        },
    }
}

/// Under which name the configuration keeps a provider's coding plan.
pub open spec fn coding_plan_key(provider: Seq<char>) -> Seq<char> {
    "builtin:"@ + provider + "-coding-plan"@
}

/// The key of a provider's coding plan in a configuration, empty where there is
/// none.
pub open spec fn coding_key(config: Option<Tree>, provider: Seq<char>) -> Seq<char> {
    match config {
        None => Seq::empty(),
        Some(config) => match config.field_in("provider"@, coding_plan_key(provider)) {
            None => Seq::empty(),
            Some(plan) => match plan.text_in("options"@, "apiKey"@) {
                None => Seq::empty(),
                Some(key) => crate::text::trim(key),
            },
        },
    }
}

/// The key of a provider's coding plan in a configuration, where there is one.
pub fn resolve_coding_key(config: &Option<Json>, provider: &str) -> (r: String)
    ensures
        r@ == coding_key(crate::json::seen_own(*config), provider@),
{
    let none = String::new();
    assert(none@ =~= Seq::<char>::empty());
    let config = match config {
        Some(config) => config,
        None => {
            return none;
        },
    };
    let key_id = concat3("builtin:", provider, "-coding-plan");
    match config.get_in("provider", key_id.as_str()) {
        Some(plan) => match plan.str_in("options", "apiKey") {
            Some(key) => trimmed(key),
            None => none,
        },
        None => none,
    }
}

/// Where a provider's Anthropic dialect is served; nowhere for an unknown
/// provider.
pub open spec fn anthropic_base(provider: Seq<char>) -> Seq<char> {
    if provider == "zai"@ {
        "https://api.z.ai/api/anthropic"@
    } else if provider == "bigmodel"@ {
        "https://open.bigmodel.cn/api/anthropic"@
    } else {
        Seq::empty()
    }
}

fn anthropic_base_for(provider: &str) -> (r: String)
    ensures
        r@ == anthropic_base(provider@),
{
    if same(provider, "zai") {
        "https://api.z.ai/api/anthropic".to_owned()
    } else if same(provider, "bigmodel") {
        "https://open.bigmodel.cn/api/anthropic".to_owned()
    } else {
        let r = String::new();
        assert(r@ =~= Seq::<char>::empty());
        r
    }
}

/// The nanoseconds in a second.
pub const NANOS: u64 = 1_000_000_000;

/// Whether the time, in nanoseconds, lies behind the second that a finite double
/// names.
pub open spec fn second_has_passed(bits: u64, now_ns: u64) -> bool {
    let significand = crate::json::double_significand(bits);
    let scale = crate::json::double_scale(bits);
    if crate::json::double_signed(bits) && significand > 0 {
        true
    } else if scale >= 0 {
        now_ns > significand * vstd::arithmetic::power2::pow2(scale as nat) * NANOS
    } else {
        now_ns * vstd::arithmetic::power2::pow2((-scale) as nat) > significand * NANOS
    }
}

/// Whether the time, in nanoseconds, lies behind the second that a number names.
/// An integer beyond those that are doubles is made a double first.
pub open spec fn number_has_passed(n: Numeric, now_ns: u64) -> bool {
    match n {
        Numeric::Unsigned(u) => if u <= crate::json::EXACT_INTEGERS {
            now_ns > u * NANOS
        } else {
            second_has_passed(crate::json::double_of(n), now_ns)
        },
        Numeric::Negative(_) => true,
        Numeric::Double(bits) => second_has_passed(bits, now_ns),
    }
}

proof fn lemma_exact_second(bits: u64, u: u64, now_ns: u64)
    requires
        crate::json::double_is(bits, u as int),
    ensures
        second_has_passed(bits, now_ns) == (now_ns > u * NANOS),
{
    if crate::json::double_scale(bits) < 0 {
        let p = vstd::arithmetic::power2::pow2((-crate::json::double_scale(bits)) as nat) as int;
        vstd::arithmetic::power2::lemma_pow2_pos((-crate::json::double_scale(bits)) as nat);
        assert(now_ns * p > u * p * NANOS <==> now_ns > u * NANOS) by (nonlinear_arith)
            requires
                p > 0,
        ;
    }
}

/// Whether a token has expired: what it says names a second that lies behind.
/// A token that cannot be read, or names none, has not.
pub open spec fn token_expired(payload: Option<Tree>, now_ns: u64) -> bool {
    match payload {
        None => false,
        Some(payload) => match payload.field("exp"@) {
            Some(Tree::Number(n)) => number_has_passed(n, now_ns),
            _ => false,
        },
    }
}

/// A number is greater than a part of another where it is greater than that part
/// rounded down.
proof fn lemma_greater_than_part(n: int, whole: int, p: int)
    requires
        p > 0,
        whole >= 0,
    ensures
        n * p > whole <==> n > whole / p,
{
    vstd::arithmetic::div_mod::lemma_fundamental_div_mod(whole, p);
    vstd::arithmetic::div_mod::lemma_mod_bound(whole, p);
    let q = whole / p;
    let r = whole % p;
    assert(n * p > p * q + r <==> n > q) by (nonlinear_arith)
        requires
            p > 0,
            0 <= r < p,
    ;
}

/// Whether the time, in nanoseconds, lies behind the second that a finite double
/// names.
fn has_second_passed(bits: u64, now_ns: u64) -> (r: bool)
    requires
        crate::json::double_finite(bits),
    ensures
        r == second_has_passed(bits, now_ns),
{
    let exponent: u64 = bits / 0x10_0000_0000_0000 % 0x800;
    let fraction: u64 = bits % 0x10_0000_0000_0000;
    let significand: u64 = if exponent == 0 {
        fraction
    } else {
        fraction + 0x10_0000_0000_0000
    };
    if bits >= 0x8000_0000_0000_0000 && significand > 0 {
        return true;
    }
    let lifted: u64 = if exponent == 0 {
        1
    } else {
        exponent
    };
    if lifted >= 1075 {
        let scale: u64 = lifted - 1075;
        let ghost p = vstd::arithmetic::power2::pow2(scale as nat);
        if scale >= 12 {
            proof {
                vstd::arithmetic::power2::lemma2_to64();
                if scale > 12 {
                    vstd::arithmetic::power2::lemma_pow2_strictly_increases(12, scale as nat);
                }
                assert(significand * p * NANOS >= 0x10_0000_0000_0000 * 4096 * NANOS)
                    by (nonlinear_arith)
                    requires
                        significand >= 0x10_0000_0000_0000,
                        p >= 4096,
                ;
            }
            return false;
        }
        proof {
            vstd::arithmetic::power2::lemma2_to64();
            if scale < 12 {
                vstd::arithmetic::power2::lemma_pow2_strictly_increases(scale as nat, 12);
            }
            assert(0 <= significand * p <= u64::MAX * 2) by (nonlinear_arith)
                requires
                    significand < 0x20_0000_0000_0000,
                    0 <= p <= 4096,
            ;
        }
        proof {
            vstd::bits::lemma_u64_shl_is_mul(1, scale);
        }
        let factor: u128 = (1u64 << scale) as u128;
        let whole: u128 = significand as u128 * factor;
        now_ns as u128 > whole * NANOS as u128
    } else {
        let scale: u64 = 1075 - lifted;
        let nanos: u128 = significand as u128 * NANOS as u128;
        let ghost p = vstd::arithmetic::power2::pow2(scale as nat) as int;
        proof {
            vstd::arithmetic::power2::lemma_pow2_pos(scale as nat);
            lemma_greater_than_part(now_ns as int, nanos as int, p);
        }
        if scale >= 128 {
            proof {
                vstd::arithmetic::power2::lemma2_to64();
                vstd::arithmetic::power2::lemma2_to64_rest();
                vstd::arithmetic::power2::lemma_pow2_adds(64, 64);
                if scale > 128 {
                    vstd::arithmetic::power2::lemma_pow2_strictly_increases(128, scale as nat);
                }
                vstd::arithmetic::div_mod::lemma_basic_div(nanos as int, p);
            }
            return now_ns > 0;
        }
        proof {
            vstd::bits::lemma_u128_shr_is_div(nanos, scale as u128);
        }
        now_ns as u128 > nanos >> (scale as u128)
    }
}

/// Whether a token has expired at a time in nanoseconds.
pub fn jwt_is_expired(payload: &Option<Json>, now_ns: u64) -> (r: bool)
    ensures
        r == token_expired(crate::json::seen_own(*payload), now_ns),
{
    match payload {
        None => false,
        Some(payload) => match payload.get("exp") {
            None => false,
            Some(exp) => match exp.as_double() {
                None => false,
                Some(bits) => {
                    proof {
                        if let Tree::Number(Numeric::Unsigned(u)) = exp@ {
                            if u <= crate::json::EXACT_INTEGERS {
                                lemma_exact_second(bits, u, now_ns);
                            }
                        }
                    }
                    has_second_passed(bits, now_ns)
                },
            },
        },
    }
}

// ---------------------------------------------------------------------------
// From accounts to entries
// ---------------------------------------------------------------------------

/// The provider of an account: the one that it is signed in with, where that is
/// a known one.
pub open spec fn provider_of(account: AccountRow) -> Seq<char> {
    match account.active_provider {
        Some(p) => if p == "zai"@ || p == "bigmodel"@ {
            p
        } else {
            "bigmodel"@
        },
        None => "bigmodel"@,
    }
}

/// Why an account without credentials cannot be used.
pub open spec fn reason_no_credential() -> Seq<char> {
    "无可用的 coding-plan key 或 start-plan JWT"@
}

/// Why an account with an expired token cannot be used.
pub open spec fn reason_expired() -> Seq<char> {
    "start-plan JWT 已过期（重新登录后刷新）"@
}

/// Why an account that the user took out cannot be used.
pub open spec fn reason_excluded() -> Seq<char> {
    "已由用户移出网关池"@
}

/// Where the messages of a start plan are posted.
pub open spec fn start_plan_url() -> Seq<char> {
    "https://zcode.z.ai/api/v1/zcode-plan/anthropic/v1/messages"@
}

/// What an account offers: its coding plan where it has the key, else its start
/// plan where it has a token, else nothing.
pub open spec fn entry_of(account: AccountRow, excluded: bool, now_ns: u64) -> EntryRow {
    let provider = provider_of(account);
    let jwt = crate::text::trim(crate::json::or_blank(account.jwt));
    let key = coding_key(account.config, provider);
    let offer = if key.len() > 0 {
        (
            "coding-plan"@,
            key,
            Seq::<char>::empty(),
            anthropic_base(provider) + "/v1/messages"@,
            Seq::<char>::empty(),
        )
    } else if jwt.len() > 0 {
        (
            "start-plan"@,
            Seq::<char>::empty(),
            jwt,
            start_plan_url(),
            if token_expired(account.jwt_payload, now_ns) {
                reason_expired()
            } else {
                Seq::<char>::empty()
            },
        )
    } else {
        (
            "none"@,
            Seq::<char>::empty(),
            Seq::<char>::empty(),
            Seq::<char>::empty(),
            reason_no_credential(),
        )
    };
    EntryRow {
        account_id: account.id,
        name: account.name,
        provider,
        plan: offer.0,
        credential: offer.1,
        jwt: offer.2,
        device_mid: match account.virtual_device_mid {
            Some(mid) => if crate::text::trim(mid).len() > 0 {
                Some(mid)
            } else {
                None
            },
            None => None,
        },
        messages_url: offer.3,
        excluded,
        unusable_reason: if excluded {
            reason_excluded()
        } else {
            offer.4
        },
    }
}

/// What a list of accounts offers.
pub open spec fn entries_of(
    accounts: Seq<AccountRow>,
    excluded: Seq<Seq<char>>,
    now_ns: u64,
) -> Seq<EntryRow> {
    accounts.map_values(|a: AccountRow| entry_of(a, excluded.contains(a.id), now_ns))
}

/// The empty text.
fn blank() -> (r: String)
    ensures
        r@ == Seq::<char>::empty(),
{
    let r = String::new();
    assert(r@ =~= Seq::<char>::empty());
    r
}

/// The token that an account would use, without white space around it.
pub fn usable_jwt(jwt: &Option<String>) -> (r: String)
    ensures
        r@ == crate::text::trim(crate::json::or_blank(crate::text::seen_string(*jwt))),
{
    match jwt {
        Some(jwt) => trimmed(jwt.as_str()),
        None => trimmed(blank().as_str()),
    }
}

/// The provider of an account.
fn known_provider(active: &Option<String>) -> (r: String)
    ensures
        r@ == match crate::text::seen_string(*active) {
            Some(p) => if p == "zai"@ || p == "bigmodel"@ {
                p
            } else {
                "bigmodel"@
            },
            None => "bigmodel"@,
        },
{
    match active {
        Some(p) => if same(p.as_str(), "zai") || same(p.as_str(), "bigmodel") {
            p.clone()
        } else {
            "bigmodel".to_owned()
        },
        None => "bigmodel".to_owned(),
    }
}

/// What an account offers.
fn build_entry(account: &AccountRecord, excluded: bool, now_ns: u64) -> (r: PoolEntry)
    ensures
        r@ == entry_of(account@, excluded, now_ns),
{
    let provider = known_provider(&account.active_provider);
    let jwt = usable_jwt(&account.jwt);
    let key = resolve_coding_key(&account.config, provider.as_str());
    let mut entry = PoolEntry {
        account_id: account.id.clone(),
        name: account.name.clone(),
        provider: provider.clone(),
        plan: "none".to_owned(),
        credential: blank(),
        jwt: blank(),
        device_mid: None,
        messages_url: blank(),
        excluded,
        unusable_reason: blank(),
    };
    if let Some(mid) = &account.virtual_device_mid {
        if !is_blank(mid.as_str()) {
            entry.device_mid = Some(mid.clone());
        }
    }
    if !is_empty(key.as_str()) {
        entry.plan = "coding-plan".to_owned();
        entry.credential = key;
        let base = anthropic_base_for(provider.as_str());
        entry.messages_url = concat(base.as_str(), "/v1/messages");
    } else if !is_empty(jwt.as_str()) {
        entry.plan = "start-plan".to_owned();
        entry.jwt = jwt;
        entry.messages_url =
        "https://zcode.z.ai/api/v1/zcode-plan/anthropic/v1/messages".to_owned();
        if jwt_is_expired(&account.jwt_payload, now_ns) {
            entry.unusable_reason = "start-plan JWT 已过期（重新登录后刷新）".to_owned();
        }
    } else {
        entry.unusable_reason = "无可用的 coding-plan key 或 start-plan JWT".to_owned();
    }
    if excluded {
        entry.unusable_reason = "已由用户移出网关池".to_owned();
    }
    entry
}

/// Whether a text is one of a list.
pub fn is_listed(list: &Vec<String>, text: &str) -> (r: bool)
    ensures
        r == crate::text::views(list@).contains(text@),
{
    let ghost all = crate::text::views(list@);
    let mut i: usize = 0;
    while i < list.len()
        invariant
            i <= list@.len(),
            all == crate::text::views(list@),
            forall|k: int| 0 <= k < i ==> #[trigger] all[k] != text@,
        decreases list@.len() - i,
    {
        assert(all[i as int] == list@[i as int]@);
        if same(list[i].as_str(), text) {
            return true;
        }
        i += 1;
    }
    false
}

/// The accounts of a list, with their texts as characters.
pub open spec fn account_rows(accounts: Seq<AccountRecord>) -> Seq<AccountRow> {
    accounts.map_values(|a: AccountRecord| a@)
}

/// What the stored accounts offer at a time in nanoseconds. An account that the
/// user took out stays in the list and is marked.
pub fn build_entries(
    accounts: &Vec<AccountRecord>,
    excluded_ids: &Vec<String>,
    now_ns: u64,
) -> (r: Vec<PoolEntry>)
    ensures
        rows(r@) == entries_of(account_rows(accounts@), crate::text::views(excluded_ids@), now_ns),
{
    let mut out: Vec<PoolEntry> = Vec::new();
    let mut i: usize = 0;
    while i < accounts.len()
        invariant
            i <= accounts@.len(),
            out@.len() == i,
            forall|k: int|
                0 <= k < i ==> (#[trigger] out@[k])@ == entry_of(
                    accounts@[k]@,
                    crate::text::views(excluded_ids@).contains(accounts@[k]@.id),
                    now_ns,
                ),
        decreases accounts@.len() - i,
    {
        let excluded = is_listed(excluded_ids, accounts[i].id.as_str());
        out.push(build_entry(&accounts[i], excluded, now_ns));
        i += 1;
    }
    assert(rows(out@) =~= entries_of(
        account_rows(accounts@),
        crate::text::views(excluded_ids@),
        now_ns,
    ));
    out
}

// ---------------------------------------------------------------------------
// Health and rotation
// ---------------------------------------------------------------------------

/// How an account has been doing. The time is in milliseconds.
#[derive(Debug)]
pub struct PoolHealth {
    pub total: u64,
    pub ok: u64,
    pub fail: u64,
    pub cooldown_until: u64,
    pub last_error: Option<String>,
}

/// The health of an account of which nothing is known.
pub open spec fn no_health() -> PoolHealth {
    PoolHealth { total: 0, ok: 0, fail: 0, cooldown_until: 0, last_error: None }
}

impl Default for PoolHealth {
    fn default() -> (r: Self)
        ensures
            r == no_health(),
    {
        PoolHealth { total: 0, ok: 0, fail: 0, cooldown_until: 0, last_error: None }
    }
}

/// The health of an account.
pub open spec fn health_of(health: Map<Seq<char>, PoolHealth>, id: Seq<char>) -> PoolHealth {
    if health.contains_key(id) {
        health[id]
    } else {
        no_health()
    }
}

/// Whether an account sits out.
pub open spec fn cooling(health: Map<Seq<char>, PoolHealth>, id: Seq<char>, now: u64) -> bool {
    health_of(health, id).cooldown_until > now
}

/// Whether an entry can be used.
pub open spec fn usable(row: EntryRow) -> bool {
    row.unusable_reason.len() == 0
}

/// The usable entries that sit out, or those that do not, in their order.
pub open spec fn usable_rows(
    entries: Seq<EntryRow>,
    health: Map<Seq<char>, PoolHealth>,
    now: u64,
    sitting_out: bool,
) -> Seq<EntryRow>
    decreases entries.len(),
{
    if entries.len() == 0 {
        Seq::empty()
    } else {
        let rest = usable_rows(entries.drop_last(), health, now, sitting_out);
        if usable(entries.last()) && cooling(health, entries.last().account_id, now)
            == sitting_out {
            rest.push(entries.last())
        } else {
            rest
        }
    }
}

/// The first of two numbers where it is smaller, else the second.
pub open spec fn smaller(a: int, b: int) -> int {
    if a < b {
        a
    } else {
        b
    }
}

/// The items from the one that the cursor points at on and around.
pub open spec fn rotated(items: Seq<EntryRow>, cursor: usize) -> Seq<EntryRow> {
    Seq::new(
        items.len(),
        |i: int| items[(cursor as int % items.len() as int + i) % items.len() as int],
    )
}

/// The usable entries among which the rotation runs: those that do not sit out,
/// and where there are none those that do.
pub open spec fn rotating(
    entries: Seq<EntryRow>,
    health: Map<Seq<char>, PoolHealth>,
    now: u64,
) -> Seq<EntryRow> {
    let healthy = usable_rows(entries, health, now, false);
    if healthy.len() > 0 {
        healthy
    } else {
        usable_rows(entries, health, now, true)
    }
}

/// The usable entries behind the rotation: those that sit out while others do
/// not.
pub open spec fn waiting(
    entries: Seq<EntryRow>,
    health: Map<Seq<char>, PoolHealth>,
    now: u64,
) -> Seq<EntryRow> {
    if usable_rows(entries, health, now, false).len() > 0 {
        usable_rows(entries, health, now, true)
    } else {
        Seq::empty()
    }
}

/// The usable entries in the order in which they are tried: the healthy ones from
/// where the rotation stands on and around, and behind them those that sit out.
/// Where none is healthy the rotation runs among those that sit out.
pub open spec fn ranked(
    entries: Seq<EntryRow>,
    health: Map<Seq<char>, PoolHealth>,
    now: u64,
    cursor: usize,
) -> Seq<EntryRow> {
    rotated(rotating(entries, health, now), cursor) + waiting(entries, health, now)
}

/// The first entries in the order in which they are tried, at most `max`.
pub open spec fn candidates(
    entries: Seq<EntryRow>,
    health: Map<Seq<char>, PoolHealth>,
    now: u64,
    cursor: usize,
    max: usize,
) -> Seq<EntryRow> {
    let order = ranked(entries, health, now, cursor);
    order.take(smaller(order.len() as int, max as int))
}

/// A snapshot of the accounts.
pub struct PoolSnapshot {
    pub generated_at: u64,
    pub entries: Vec<PoolEntry>,
}

/// What the pool tells of an account.
#[derive(Debug)]
pub struct PoolStatusEntry {
    pub account_id: String,
    pub name: String,
    pub provider: String,
    pub plan: String,
    pub usable: bool,
    pub excluded: bool,
    pub unusable_reason: String,
    pub cooling: bool,
    pub last_error: Option<String>,
    pub total: u64,
    pub ok: u64,
    pub fail: u64,
}

/// Whether a status entry tells of an account what is known of it.
pub open spec fn tells(status: PoolStatusEntry, row: EntryRow, h: PoolHealth, now: u64) -> bool {
    &&& status.account_id@ == row.account_id
    &&& status.name@ == row.name
    &&& status.provider@ == row.provider
    &&& status.plan@ == row.plan
    &&& status.usable == usable(row)
    &&& status.excluded == row.excluded
    &&& status.unusable_reason@ == row.unusable_reason
    &&& status.cooling == (h.cooldown_until > now)
    &&& status.last_error == h.last_error
    &&& status.total == h.total
    &&& status.ok == h.ok
    &&& status.fail == h.fail
}

/// A time some milliseconds later, at most the last there is.
pub open spec fn later(now: u64, millis: int) -> u64 {
    if now + millis > u64::MAX {
        u64::MAX
    } else {
        (now + millis) as u64
    }
}

/// The health after a success at a time.
pub open spec fn after_success(h: PoolHealth, now: u64) -> PoolHealth {
    PoolHealth {
        total: (h.total + 1) as u64,
        ok: (h.ok + 1) as u64,
        fail: h.fail,
        cooldown_until: now,
        last_error: None,
    }
}

/// The health after a failure at a time. A failure that is the client's own
/// does not make the account sit out.
pub open spec fn after_failure(
    h: PoolHealth,
    kind: FailureKind,
    message: String,
    now: u64,
) -> PoolHealth {
    PoolHealth {
        total: (h.total + 1) as u64,
        ok: h.ok,
        fail: (h.fail + 1) as u64,
        cooldown_until: if cooldown_secs(kind) > 0 {
            later(now, cooldown_secs(kind) * 1000)
        } else {
            h.cooldown_until
        },
        last_error: Some(message),
    }
}

/// The account pool: the last snapshot, the health of the accounts and where
/// the rotation stands. Times are in milliseconds.
pub struct AccountPool {
    cache: Option<(u64, Vec<PoolEntry>)>,
    health: StringHashMap<PoolHealth>,
    rr: usize,
}

impl AccountPool {
    /// When the kept snapshot was made and what it holds.
    pub closed spec fn kept(&self) -> Option<(u64, Seq<EntryRow>)> {
        match self.cache {
            Some(kept) => Some((kept.0, rows(kept.1@))),
            None => None,
        }
    }

    /// The health of the accounts.
    pub closed spec fn health(&self) -> Map<Seq<char>, PoolHealth> {
        self.health@
    }

    /// Where the rotation stands.
    pub closed spec fn cursor(&self) -> usize {
        self.rr
    }

    /// The counts of every account add up.
    pub open spec fn wf(&self) -> bool {
        forall|id: Seq<char>| #[trigger]
            self.health().contains_key(id) ==> self.health()[id].total == self.health()[id].ok
                + self.health()[id].fail
    }

    /// A pool that knows nothing.
    pub fn new() -> (r: Self)
        ensures
            r.wf(),
            r.kept() is None,
            r.health() == Map::<Seq<char>, PoolHealth>::empty(),
            r.cursor() == 0,
    {
        AccountPool { cache: None, health: StringHashMap::new(), rr: 0 }
    }

    /// Whether the kept snapshot is fresh.
    pub open spec fn fresh(&self, now: u64) -> bool {
        match self.kept() {
            Some(kept) => now - kept.0 < POOL_TTL_MS,
            None => false,
        }
    }

    /// The kept snapshot, where it is fresh.
    pub fn snapshot(&self, now: u64) -> (r: Option<PoolSnapshot>)
        ensures
            match r {
                Some(snap) => self.fresh(now) && self.kept() == Some(
                    (snap.generated_at, rows(snap.entries@)),
                ),
                None => !self.fresh(now),
            },
    {
        match &self.cache {
            Some(kept) => {
                if now < kept.0 || now - kept.0 < POOL_TTL_MS {
                    Some(PoolSnapshot { generated_at: kept.0, entries: copy_entries(&kept.1) })
                } else {
                    None
                }
            },
            None => None,
        }
    }

    /// Makes a snapshot of new entries, and keeps it unless a fresh one was kept
    /// meanwhile.
    pub fn refresh(&mut self, entries: Vec<PoolEntry>, now: u64) -> (r: PoolSnapshot)
        ensures
            r.generated_at == now,
            rows(r.entries@) == rows(entries@),
            final(self).kept() == if old(self).fresh(now) {
                old(self).kept()
            } else {
                Some((now, rows(entries@)))
            },
            final(self).health() == old(self).health(),
            final(self).cursor() == old(self).cursor(),
            old(self).wf() ==> final(self).wf(),
    {
        let stale = match &self.cache {
            Some(kept) => !(now < kept.0 || now - kept.0 < POOL_TTL_MS),
            None => true,
        };
        let copy: Vec<PoolEntry> = copy_entries(&entries);
        if stale {
            self.cache = Some((now, copy));
        }
        PoolSnapshot { generated_at: now, entries }
    }

    /// Whether an account sits out.
    fn is_cooling(&self, id: &str, now: u64) -> (r: bool)
        ensures
            r == cooling(self.health(), id@, now),
    {
        match self.health.get(id) {
            Some(h) => h.cooldown_until > now,
            None => false,
        }
    }

    /// Adds copies of the usable entries that sit out, or of those that do not.
    fn add_usable(
        &self,
        entries: &Vec<PoolEntry>,
        now: u64,
        sitting_out: bool,
        out: &mut Vec<PoolEntry>,
    )
        ensures
            rows(final(out)@) == rows(old(out)@) + usable_rows(
                rows(entries@),
                self.health(),
                now,
                sitting_out,
            ),
    {
        let ghost all = rows(entries@);
        let mut i: usize = 0;
        assert(rows(out@) =~= rows(old(out)@) + usable_rows(
            all.take(0),
            self.health(),
            now,
            sitting_out,
        ));
        while i < entries.len()
            invariant
                i <= entries@.len(),
                all == rows(entries@),
                rows(out@) == rows(old(out)@) + usable_rows(
                    all.take(i as int),
                    self.health(),
                    now,
                    sitting_out,
                ),
            decreases entries@.len() - i,
        {
            let ghost before = out@;
            assert(all.take(i + 1).drop_last() =~= all.take(i as int));
            assert(all.take(i + 1).last() == entries@[i as int]@);
            if is_empty(entries[i].unusable_reason.as_str()) {
                let cools = self.is_cooling(entries[i].account_id.as_str(), now);
                if cools == sitting_out {
                    let copy = entries[i].clone();
                    out.push(copy);
                    assert(rows(out@) =~= rows(before).push(copy@));
                    assert(rows(out@) =~= rows(old(out)@) + usable_rows(
                        all.take(i + 1),
                        self.health(),
                        now,
                        sitting_out,
                    ));
                }
            }
            i += 1;
        }
        assert(all.take(entries@.len() as int) =~= all);
    }

    /// The accounts to try, in their order: the usable ones that do not sit out,
    /// from where the rotation stands on and around, and behind them those that
    /// do. Where all sit out the rotation runs among them. It moves on by one.
    pub fn pick_candidates(&mut self, snap: &PoolSnapshot, max: usize, now: u64) -> (r: Vec<
        PoolEntry,
    >)
        ensures
            rows(r@) == candidates(
                rows(snap.entries@),
                old(self).health(),
                now,
                old(self).cursor(),
                max,
            ),
            final(self).cursor() == if rotating(
                rows(snap.entries@),
                old(self).health(),
                now,
            ).len() > 0 {
                next_cursor(old(self).cursor())
            } else {
                old(self).cursor()
            },
            final(self).health() == old(self).health(),
            final(self).kept() == old(self).kept(),
            old(self).wf() ==> final(self).wf(),
    {
        let mut front: Vec<PoolEntry> = Vec::new();
        let mut back: Vec<PoolEntry> = Vec::new();
        assert(rows(front@) =~= Seq::<EntryRow>::empty());
        assert(rows(back@) =~= Seq::<EntryRow>::empty());
        self.add_usable(&snap.entries, now, false, &mut front);
        assert(rows(front@) =~= usable_rows(rows(snap.entries@), self.health(), now, false));
        if front.len() > 0 {
            self.add_usable(&snap.entries, now, true, &mut back);
            assert(rows(back@) =~= usable_rows(rows(snap.entries@), self.health(), now, true));
        } else {
            self.add_usable(&snap.entries, now, true, &mut front);
            assert(rows(front@) =~= usable_rows(rows(snap.entries@), self.health(), now, true));
        }
        let ghost items = rotating(rows(snap.entries@), self.health(), now);
        let ghost behind = waiting(rows(snap.entries@), self.health(), now);
        let ghost order = rotated(items, self.cursor()) + behind;
        let n: usize = front.len();
        if n == 0 {
            assert(order =~= Seq::<EntryRow>::empty());
            assert(rows(front@) =~= order.take(0));
            return front;
        }
        let start: usize = self.rr % n;
        self.rr = if self.rr == usize::MAX {
            0
        } else {
            self.rr + 1
        };
        let mut out: Vec<PoolEntry> = Vec::new();
        let mut i: usize = 0;
        while i < n && i < max
            invariant
                i <= n,
                i <= max,
                n == front@.len(),
                n == items.len(),
                start < n,
                start == old(self).cursor() as int % n as int,
                rows(front@) == items,
                order == rotated(items, old(self).cursor()) + behind,
                out@.len() == i,
                forall|k: int| 0 <= k < i ==> (#[trigger] out@[k])@ == order[k],
            decreases n - i,
        {
            let at: usize = if i < n - start {
                start + i
            } else {
                i - (n - start)
            };
            proof {
                lemma_place(start as int, i as int, n as int);
            }
            assert(front@[at as int]@ == items[at as int]);
            out.push(front[at].clone());
            i += 1;
        }
        let mut k: usize = 0;
        while k < back.len() && out.len() < max
            invariant
                k <= back@.len(),
                out@.len() <= max,
                n == items.len(),
                rows(back@) == behind,
                order == rotated(items, old(self).cursor()) + behind,
                out@.len() == n + k || (k == 0 && out@.len() == max && max <= n),
                forall|j: int| 0 <= j < out@.len() ==> (#[trigger] out@[j])@ == order[j],
            decreases back@.len() - k,
        {
            assert(back@[k as int]@ == behind[k as int]);
            assert(order[n + k] == behind[k as int]);
            out.push(back[k].clone());
            k += 1;
        }
        assert(rows(out@) =~= order.take(smaller(order.len() as int, max as int)));
        out
    }

    /// Whether one more attempt of an account can be counted.
    pub fn can_count(&self, account_id: &str) -> (r: bool)
        ensures
            r == (health_of(self.health(), account_id@).total < u64::MAX),
    {
        match self.health.get(account_id) {
            Some(h) => h.total < u64::MAX,
            None => true,
        }
    }

    /// A copy of what is known of an account.
    fn known_health(&self, account_id: &str) -> (r: PoolHealth)
        ensures
            r == health_of(self.health(), account_id@),
    {
        match self.health.get(account_id) {
            Some(h) => PoolHealth {
                total: h.total,
                ok: h.ok,
                fail: h.fail,
                cooldown_until: h.cooldown_until,
                last_error: copy_text(&h.last_error),
            },
            None => PoolHealth::default(),
        }
    }

    /// Counts a success of an account, and ends its sitting out.
    pub fn report_success(&mut self, account_id: &str, now: u64)
        requires
            old(self).wf(),
            health_of(old(self).health(), account_id@).total < u64::MAX,
        ensures
            final(self).wf(),
            final(self).health() == old(self).health().insert(
                account_id@,
                after_success(health_of(old(self).health(), account_id@), now),
            ),
            final(self).kept() == old(self).kept(),
            final(self).cursor() == old(self).cursor(),
    {
        let mut h = self.known_health(account_id);
        h.total = h.total + 1;
        h.ok = h.ok + 1;
        h.cooldown_until = now;
        h.last_error = None;
        self.health.insert(account_id.to_owned(), h);
    }

    /// Counts a failure of an account, and makes it sit out as long as the kind
    /// of failure asks.
    pub fn report_failure(
        &mut self,
        account_id: &str,
        kind: FailureKind,
        message: String,
        now: u64,
    )
        requires
            old(self).wf(),
            health_of(old(self).health(), account_id@).total < u64::MAX,
        ensures
            final(self).wf(),
            final(self).health() == old(self).health().insert(
                account_id@,
                after_failure(
                    health_of(old(self).health(), account_id@),
                    kind,
                    message,
                    now,
                ),
            ),
            final(self).kept() == old(self).kept(),
            final(self).cursor() == old(self).cursor(),
    {
        let mut h = self.known_health(account_id);
        h.total = h.total + 1;
        h.fail = h.fail + 1;
        h.last_error = Some(message);
        let millis: u64 = cooldown_seconds(kind) * 1000;
        if millis > 0 {
            h.cooldown_until = if now > u64::MAX - millis {
                u64::MAX
            } else {
                now + millis
            };
        }
        self.health.insert(account_id.to_owned(), h);
    }

    /// Ends the sitting out of an account, where anything is known of it.
    pub fn clear_cooldown(&mut self, account_id: &str, now: u64)
        ensures
            final(self).health() == if old(self).health().contains_key(account_id@) {
                old(self).health().insert(
                    account_id@,
                    (PoolHealth { cooldown_until: now, ..old(self).health()[account_id@] }),
                )
            } else {
                old(self).health()
            },
            final(self).kept() == old(self).kept(),
            final(self).cursor() == old(self).cursor(),
            old(self).wf() ==> final(self).wf(),
    {
        if self.health.contains_key(account_id) {
            let mut h = self.known_health(account_id);
            h.cooldown_until = now;
            self.health.insert(account_id.to_owned(), h);
        }
    }

    /// What the pool tells of the accounts of a snapshot.
    pub fn status(&self, snap: &PoolSnapshot, now: u64) -> (r: Vec<PoolStatusEntry>)
        ensures
            r@.len() == snap.entries@.len(),
            forall|i: int|
                0 <= i < r@.len() ==> tells(
                    #[trigger] r@[i],
                    snap.entries@[i]@,
                    health_of(self.health(), snap.entries@[i].account_id@),
                    now,
                ),
    {
        let mut out: Vec<PoolStatusEntry> = Vec::new();
        let mut i: usize = 0;
        while i < snap.entries.len()
            invariant
                i <= snap.entries@.len(),
                out@.len() == i,
                forall|k: int|
                    0 <= k < i ==> tells(
                        #[trigger] out@[k],
                        snap.entries@[k]@,
                        health_of(self.health(), snap.entries@[k].account_id@),
                        now,
                    ),
            decreases snap.entries@.len() - i,
        {
            let e = &snap.entries[i];
            let h = self.known_health(e.account_id.as_str());
            out.push(
                PoolStatusEntry {
                    account_id: e.account_id.clone(),
                    name: e.name.clone(),
                    provider: e.provider.clone(),
                    plan: e.plan.clone(),
                    usable: is_empty(e.unusable_reason.as_str()),
                    excluded: e.excluded,
                    unusable_reason: e.unusable_reason.clone(),
                    cooling: h.cooldown_until > now,
                    last_error: h.last_error,
                    total: h.total,
                    ok: h.ok,
                    fail: h.fail,
                },
            );
            i += 1;
        }
        out
    }
}

/// Where the rotation stands after one more pick.
pub open spec fn next_cursor(cursor: usize) -> usize {
    if cursor == usize::MAX {
        0
    } else {
        (cursor + 1) as usize
    }
}

/// How many requests of one account may run at once.
pub fn permit_count(permits: u32) -> (r: u32)
    ensures
        r == if permits == 0 {
            1
        } else {
            permits
        },
{
    if permits == 0 {
        1
    } else {
        permits
    }
}

// ---------------------------------------------------------------------------
// Laws
// ---------------------------------------------------------------------------

/// Failures that take longer to heal make an account sit out longer; a mistake
/// of the client never does.
pub proof fn law_cooldowns_follow_severity()
    ensures
        cooldown_secs(FailureKind::Unauthorized) > cooldown_secs(FailureKind::PaymentRequired),
        cooldown_secs(FailureKind::PaymentRequired) == cooldown_secs(FailureKind::Forbidden),
        cooldown_secs(FailureKind::Forbidden) > cooldown_secs(FailureKind::RateLimited),
        cooldown_secs(FailureKind::RateLimited) > cooldown_secs(FailureKind::ServerError),
        cooldown_secs(FailureKind::ServerError) == cooldown_secs(FailureKind::Network),
        cooldown_secs(FailureKind::Network) > 0,
        cooldown_secs(FailureKind::BadRequest) == 0,
{
}

proof fn lemma_usable_rows(
    entries: Seq<EntryRow>,
    health: Map<Seq<char>, PoolHealth>,
    now: u64,
    sitting_out: bool,
)
    ensures
        forall|i: int|
            0 <= i < usable_rows(entries, health, now, sitting_out).len() ==> {
                let row = #[trigger] usable_rows(entries, health, now, sitting_out)[i];
                usable(row) && entries.contains(row) && cooling(health, row.account_id, now)
                    == sitting_out
            },
    decreases entries.len(),
{
    if entries.len() > 0 {
        let shorter = entries.drop_last();
        lemma_usable_rows(shorter, health, now, sitting_out);
        let before = usable_rows(shorter, health, now, sitting_out);
        let after = usable_rows(entries, health, now, sitting_out);
        assert forall|i: int| 0 <= i < after.len() implies {
            let row = #[trigger] after[i];
            usable(row) && entries.contains(row) && cooling(health, row.account_id, now)
                == sitting_out
        } by {
            if i < before.len() {
                assert(after[i] == before[i]);
                let k = choose|k: int| 0 <= k < shorter.len() && shorter[k] == before[i];
                assert(entries[k] == before[i]);
            } else {
                assert(entries[entries.len() - 1] == entries.last());
            }
        }
    }
}

/// Whether no two entries are of one account.
pub open spec fn distinct_accounts(entries: Seq<EntryRow>) -> bool {
    forall|i: int, j: int|
        0 <= i < j < entries.len() ==> (#[trigger] entries[i]).account_id != (
        #[trigger] entries[j]).account_id
}

proof fn lemma_usable_rows_are_distinct(
    entries: Seq<EntryRow>,
    health: Map<Seq<char>, PoolHealth>,
    now: u64,
    sitting_out: bool,
)
    requires
        distinct_accounts(entries),
    ensures
        distinct_accounts(usable_rows(entries, health, now, sitting_out)),
    decreases entries.len(),
{
    if entries.len() > 0 {
        let shorter = entries.drop_last();
        assert(distinct_accounts(shorter)) by {
            assert forall|i: int, j: int| 0 <= i < j < shorter.len() implies (
            #[trigger] shorter[i]).account_id != (#[trigger] shorter[j]).account_id by {
                assert(shorter[i] == entries[i] && shorter[j] == entries[j]);
            }
        }
        lemma_usable_rows_are_distinct(shorter, health, now, sitting_out);
        lemma_usable_rows(shorter, health, now, sitting_out);
        let before = usable_rows(shorter, health, now, sitting_out);
        let after = usable_rows(entries, health, now, sitting_out);
        assert forall|i: int, j: int| 0 <= i < j < after.len() implies (
        #[trigger] after[i]).account_id != (#[trigger] after[j]).account_id by {
            assert(after[i] == before[i]);
            if j < before.len() {
                assert(after[j] == before[j]);
            } else {
                let k = choose|k: int| 0 <= k < shorter.len() && shorter[k] == before[i];
                assert(entries[k] == before[i]);
                assert(after[j] == entries[entries.len() - 1]);
            }
        }
    }
}

proof fn lemma_usable_rows_are_all(
    entries: Seq<EntryRow>,
    health: Map<Seq<char>, PoolHealth>,
    now: u64,
)
    ensures
        usable_rows(entries, health, now, false).len() + usable_rows(
            entries,
            health,
            now,
            true,
        ).len() == entries.filter(|row: EntryRow| usable(row)).len(),
    decreases entries.len(),
{
    reveal(Seq::filter);
    if entries.len() > 0 {
        lemma_usable_rows_are_all(entries.drop_last(), health, now);
    }
}

/// What stands at a place of the rotation.
proof fn lemma_rotated(items: Seq<EntryRow>, cursor: usize)
    ensures
        rotated(items, cursor).len() == items.len(),
        forall|i: int|
            0 <= i < items.len() ==> 0 <= #[trigger] place(cursor, i, items.len() as int)
                < items.len() && rotated(items, cursor)[i] == items[place(
                cursor,
                i,
                items.len() as int,
            )],
        forall|i: int, j: int|
            0 <= i < j < items.len() ==> #[trigger] place(cursor, i, items.len() as int)
                != #[trigger] place(cursor, j, items.len() as int),
{
    let n = items.len() as int;
    if n > 0 {
        let c = cursor as int % n;
        vstd::arithmetic::div_mod::lemma_mod_bound(cursor as int, n);
        assert forall|i: int| 0 <= i < n implies 0 <= #[trigger] place(cursor, i, n) < n
            && rotated(items, cursor)[i] == items[place(cursor, i, n)] by {
            lemma_place(c, i, n);
        }
        assert forall|i: int, j: int| 0 <= i < j < n implies #[trigger] place(cursor, i, n)
            != #[trigger] place(cursor, j, n) by {
            lemma_place(c, i, n);
            lemma_place(c, j, n);
        }
    }
}

/// What is known of every entry in the order in which they are tried.
proof fn lemma_ranked(
    entries: Seq<EntryRow>,
    health: Map<Seq<char>, PoolHealth>,
    now: u64,
    cursor: usize,
)
    ensures
        ({
            let order = ranked(entries, health, now, cursor);
            let healthy = usable_rows(entries, health, now, false).len() as int;
            &&& order.len() == entries.filter(|row: EntryRow| usable(row)).len()
            &&& healthy <= order.len()
            &&& forall|i: int|
                0 <= i < order.len() ==> usable(#[trigger] order[i]) && entries.contains(order[i])
                    && (cooling(health, order[i].account_id, now) <==> i >= healthy)
        }),
{
    let order = ranked(entries, health, now, cursor);
    let healthy = usable_rows(entries, health, now, false);
    let resting = usable_rows(entries, health, now, true);
    let items = rotating(entries, health, now);
    lemma_usable_rows(entries, health, now, false);
    lemma_usable_rows(entries, health, now, true);
    lemma_usable_rows_are_all(entries, health, now);
    lemma_rotated(items, cursor);
    assert forall|i: int| 0 <= i < order.len() implies usable(#[trigger] order[i])
        && entries.contains(order[i]) && (cooling(health, order[i].account_id, now) <==> i
        >= healthy.len()) by {
        if i < items.len() {
            let at = place(cursor, i, items.len() as int);
            assert(order[i] == items[at]);
            if healthy.len() > 0 {
                assert(items[at] == healthy[at]);
            } else {
                assert(items[at] == resting[at]);
            }
        } else {
            assert(order[i] == resting[i - items.len()]);
        }
    }
}

/// Every candidate is a usable account of the snapshot, and there are as many as
/// were asked for or as there are usable accounts.
pub proof fn law_candidates_are_usable(
    entries: Seq<EntryRow>,
    health: Map<Seq<char>, PoolHealth>,
    now: u64,
    cursor: usize,
    max: usize,
)
    ensures
        ({
            let out = candidates(entries, health, now, cursor, max);
            let n = entries.filter(|row: EntryRow| usable(row)).len() as int;
            &&& out.len() == smaller(n, max as int)
            &&& forall|i: int|
                0 <= i < out.len() ==> usable(#[trigger] out[i]) && entries.contains(out[i])
        }),
{
    let order = ranked(entries, health, now, cursor);
    let out = candidates(entries, health, now, cursor, max);
    lemma_ranked(entries, health, now, cursor);
    assert forall|i: int| 0 <= i < out.len() implies usable(#[trigger] out[i])
        && entries.contains(out[i]) by {
        assert(out[i] == order[i]);
    }
}

/// No account that sits out stands before one that does not.
pub proof fn law_resting_accounts_come_last(
    entries: Seq<EntryRow>,
    health: Map<Seq<char>, PoolHealth>,
    now: u64,
    cursor: usize,
    max: usize,
    i: int,
    j: int,
)
    requires
        0 <= i < j < candidates(entries, health, now, cursor, max).len(),
        cooling(health, candidates(entries, health, now, cursor, max)[i].account_id, now),
    ensures
        cooling(health, candidates(entries, health, now, cursor, max)[j].account_id, now),
{
    let order = ranked(entries, health, now, cursor);
    lemma_ranked(entries, health, now, cursor);
    assert(candidates(entries, health, now, cursor, max)[i] == order[i]);
    assert(candidates(entries, health, now, cursor, max)[j] == order[j]);
}

/// The candidates of one pick are distinct accounts, where those of the snapshot
/// are.
pub proof fn law_candidates_are_distinct(
    entries: Seq<EntryRow>,
    health: Map<Seq<char>, PoolHealth>,
    now: u64,
    cursor: usize,
    max: usize,
)
    requires
        distinct_accounts(entries),
    ensures
        distinct_accounts(candidates(entries, health, now, cursor, max)),
{
    let order = ranked(entries, health, now, cursor);
    let out = candidates(entries, health, now, cursor, max);
    let items = rotating(entries, health, now);
    let behind = waiting(entries, health, now);
    lemma_usable_rows_are_distinct(entries, health, now, false);
    lemma_usable_rows_are_distinct(entries, health, now, true);
    lemma_ranked(entries, health, now, cursor);
    lemma_rotated(items, cursor);
    let n = items.len() as int;
    assert forall|i: int, j: int| 0 <= i < j < out.len() implies (#[trigger] out[i]).account_id
        != (#[trigger] out[j]).account_id by {
        assert(out[i] == order[i] && out[j] == order[j]);
        if j < n {
            let a = place(cursor, i, n);
            let b = place(cursor, j, n);
            assert(order[i] == items[a] && order[j] == items[b]);
            if a < b {
                assert(items[a].account_id != items[b].account_id);
            } else {
                assert(items[b].account_id != items[a].account_id);
            }
        } else if i >= n {
            assert(order[i] == behind[i - n] && order[j] == behind[j - n]);
        }
    }
}

/// The place among the rotating entries of one that stands at a place of the
/// rotation.
pub open spec fn place(cursor: usize, i: int, n: int) -> int {
    (cursor as int % n + i) % n
}

proof fn lemma_place(c: int, i: int, n: int)
    requires
        0 <= c < n,
        0 <= i < n,
    ensures
        (c + i) % n == if c + i < n {
            c + i
        } else {
            c + i - n
        },
{
    if c + i < n {
        vstd::arithmetic::div_mod::lemma_small_mod((c + i) as nat, n as nat);
    } else {
        vstd::arithmetic::div_mod::lemma_small_mod((c + i - n) as nat, n as nat);
        vstd::arithmetic::div_mod::lemma_mod_add_multiples_vanish(c + i - n, n);
    }
}

/// The rotation is fair: over as many picks in a row as there are accounts in the
/// rotation, each of them comes first once, as long as the rotation stays the
/// same. The times of the picks may differ. The cursor must not run over
/// meanwhile.
pub proof fn law_rotation_is_fair(
    entries: Seq<EntryRow>,
    health: Map<Seq<char>, PoolHealth>,
    times: Seq<u64>,
    cursor: usize,
    max: usize,
    items: Seq<EntryRow>,
)
    requires
        distinct_accounts(entries),
        items.len() > 0,
        times.len() == items.len(),
        forall|i: int|
            0 <= i < times.len() ==> rotating(entries, health, #[trigger] times[i]) == items,
        max > 0,
        cursor + items.len() - 1 <= usize::MAX,
    ensures
        forall|i: int|
            #![trigger first_of_pick(entries, health, times, cursor, max, i)]
            0 <= i < items.len() ==> items.contains(
                first_of_pick(entries, health, times, cursor, max, i),
            ) && (i + 1 < items.len() ==> next_cursor((cursor + i) as usize) == cursor + i + 1),
        forall|i: int, j: int|
            0 <= i < j < items.len() ==> (#[trigger] first_of_pick(
                entries,
                health,
                times,
                cursor,
                max,
                i,
            )).account_id != (#[trigger] first_of_pick(
                entries,
                health,
                times,
                cursor,
                max,
                j,
            )).account_id,
        forall|k: int|
            0 <= k < items.len() ==> exists|i: int|
                0 <= i < items.len() && #[trigger] first_of_pick(
                    entries,
                    health,
                    times,
                    cursor,
                    max,
                    i,
                ) == #[trigger] items[k],
{
    let n = items.len() as int;
    assert(rotating(entries, health, times[0]) == items);
    lemma_usable_rows_are_distinct(entries, health, times[0], false);
    lemma_usable_rows_are_distinct(entries, health, times[0], true);
    let c = cursor as int % n;
    vstd::arithmetic::div_mod::lemma_mod_bound(cursor as int, n);
    assert forall|i: int|
        #![trigger first_of_pick(entries, health, times, cursor, max, i)]
        0 <= i < n implies first_of_pick(entries, health, times, cursor, max, i) == items[place(
        cursor,
        i,
        n,
    )] && 0 <= place(cursor, i, n) < n by {
        lemma_pick_begins(entries, health, times[i], (cursor + i) as usize, max);
        vstd::arithmetic::div_mod::lemma_add_mod_noop(cursor as int, i, n);
        vstd::arithmetic::div_mod::lemma_add_mod_noop(c, i, n);
        vstd::arithmetic::div_mod::lemma_small_mod(c as nat, n as nat);
        lemma_place(c, i, n);
    }
    lemma_rotated(items, cursor);
    assert forall|i: int, j: int| 0 <= i < j < n implies (#[trigger] first_of_pick(
        entries,
        health,
        times,
        cursor,
        max,
        i,
    )).account_id != (#[trigger] first_of_pick(entries, health, times, cursor, max, j)).account_id
        by {
        let a = place(cursor, i, n);
        let b = place(cursor, j, n);
        if a < b {
            assert(items[a].account_id != items[b].account_id);
        } else {
            assert(items[b].account_id != items[a].account_id);
        }
    }
    assert forall|k: int| 0 <= k < n implies exists|i: int|
        0 <= i < n && #[trigger] first_of_pick(entries, health, times, cursor, max, i)
            == #[trigger] items[k] by {
        let i = if k >= c {
            k - c
        } else {
            k - c + n
        };
        lemma_place(c, i, n);
        assert(first_of_pick(entries, health, times, cursor, max, i) == items[place(cursor, i, n)]);
    }
}

/// The first candidate of one of several picks in a row.
pub open spec fn first_of_pick(
    entries: Seq<EntryRow>,
    health: Map<Seq<char>, PoolHealth>,
    times: Seq<u64>,
    cursor: usize,
    max: usize,
    i: int,
) -> EntryRow {
    candidates(entries, health, times[i], (cursor + i) as usize, max)[0]
}

proof fn lemma_pick_begins(
    entries: Seq<EntryRow>,
    health: Map<Seq<char>, PoolHealth>,
    now: u64,
    cursor: usize,
    max: usize,
)
    requires
        rotating(entries, health, now).len() > 0,
        max > 0,
    ensures
        ({
            let items = rotating(entries, health, now);
            candidates(entries, health, now, cursor, max)[0] == items[cursor as int
                % items.len() as int]
        }),
{
    let items = rotating(entries, health, now);
    let n = items.len() as int;
    vstd::arithmetic::div_mod::lemma_mod_bound(cursor as int, n);
    lemma_place(cursor as int % n, 0, n);
    assert(candidates(entries, health, now, cursor, max)[0] == ranked(
        entries,
        health,
        now,
        cursor,
    )[0]);
}

/// An account that the user took out is listed and marked, and never becomes a
/// candidate.
pub proof fn law_excluded_accounts_leave_the_rotation(account: AccountRow, now: u64)
    ensures
        entry_of(account, true, now).excluded,
        entry_of(account, true, now).account_id == account.id,
        !usable(entry_of(account, true, now)),
{
    reveal_strlit("已由用户移出网关池");
}

/// An account can be used exactly where it has the key of a coding plan or a
/// token of a start plan that has not expired, and the user did not take it
/// out. The coding plan comes first.
pub proof fn law_usable_accounts_have_credentials(account: AccountRow, excluded: bool, now: u64)
    ensures
        ({
            let row = entry_of(account, excluded, now);
            let key = coding_key(account.config, provider_of(account));
            let jwt = crate::text::trim(crate::json::or_blank(account.jwt));
            &&& usable(row) <==> !excluded && (key.len() > 0 || (jwt.len() > 0 && !token_expired(
                account.jwt_payload,
                now,
            )))
            &&& key.len() > 0 ==> row.plan == "coding-plan"@ && row.credential == key
                && row.jwt.len() == 0
            &&& key.len() == 0 ==> row.credential.len() == 0
        }),
{
    reveal_strlit("已由用户移出网关池");
    reveal_strlit("无可用的 coding-plan key 或 start-plan JWT");
    reveal_strlit("start-plan JWT 已过期（重新登录后刷新）");
}

/// A failure makes an account sit out until its time is over, and a success
/// ends that at once.
pub proof fn law_failure_rests_and_success_restores(
    h: PoolHealth,
    kind: FailureKind,
    message: String,
    now: u64,
    at: u64,
)
    requires
        cooldown_secs(kind) > 0,
        now + cooldown_secs(kind) * 1000 <= u64::MAX,
    ensures
        at < now + cooldown_secs(kind) * 1000 <==> after_failure(
            h,
            kind,
            message,
            now,
        ).cooldown_until > at,
        at >= now ==> !(after_success(after_failure(h, kind, message, now), now).cooldown_until
            > at),
{
}

/// What a row tells of an entry is what the entry holds.
pub proof fn law_rows_tell_their_entries(e: PoolEntry, a: AccountRecord)
    ensures
        e@.account_id == e.account_id@,
        e@.name == e.name@,
        e@.provider == e.provider@,
        e@.plan == e.plan@,
        e@.credential == e.credential@,
        e@.jwt == e.jwt@,
        e.device_mid is Some ==> e@.device_mid == Some(e.device_mid->0@),
        e.device_mid is None ==> e@.device_mid is None,
        e@.messages_url == e.messages_url@,
        e@.excluded == e.excluded,
        e@.unusable_reason == e.unusable_reason@,
        a@.id == a.id@,
        a@.name == a.name@,
        a.active_provider is Some ==> a@.active_provider == Some(a.active_provider->0@),
        a.active_provider is None ==> a@.active_provider is None,
        a.jwt is Some ==> a@.jwt == Some(a.jwt->0@),
        a.jwt is None ==> a@.jwt is None,
        a.jwt_payload is Some ==> a@.jwt_payload == Some(a.jwt_payload->0@),
        a.jwt_payload is None ==> a@.jwt_payload is None,
        a.config is Some ==> a@.config == Some(a.config->0@),
        a.config is None ==> a@.config is None,
        a.virtual_device_mid is Some ==> a@.virtual_device_mid == Some(a.virtual_device_mid->0@),
        a.virtual_device_mid is None ==> a@.virtual_device_mid is None,
{
}

/// Every stored account becomes one entry, in its place, with its id, its name and its
/// own device, and marked where the user took it out.
pub proof fn law_accounts_become_entries(
    accounts: Seq<AccountRow>,
    excluded: Seq<Seq<char>>,
    now_ns: u64,
    i: int,
)
    requires
        0 <= i < accounts.len(),
    ensures
        entries_of(accounts, excluded, now_ns).len() == accounts.len(),
        ({
            let account = accounts[i];
            let entry = entries_of(accounts, excluded, now_ns)[i];
            &&& entry.account_id == account.id
            &&& entry.name == account.name
            &&& entry.provider == if account.active_provider == Some("zai"@) {
                "zai"@
            } else {
                "bigmodel"@
            }
            &&& entry.excluded <==> excluded.contains(account.id)
            &&& entry.excluded ==> entry.unusable_reason == "已由用户移出网关池"@
            &&& match account.virtual_device_mid {
                Some(mid) => entry.device_mid == if crate::text::trim(mid).len() > 0 {
                    Some(mid)
                } else {
                    None
                },
                None => entry.device_mid is None,
            }
        }),
{
    reveal_strlit("zai");
    reveal_strlit("bigmodel");
    assert("zai"@.len() == 3 && "bigmodel"@.len() == 8);
}

/// An account with the key of its provider's coding plan offers that plan with that
/// key, at the address of the provider.
pub proof fn law_coding_plans_come_with_their_key(
    account: AccountRow,
    excluded: bool,
    now_ns: u64,
    config: Tree,
    plan: Tree,
    key: Seq<char>,
)
    requires
        account.config == Some(config),
        config.field_in(
            "provider"@,
            if account.active_provider == Some("zai"@) {
                "builtin:zai-coding-plan"@
            } else {
                "builtin:bigmodel-coding-plan"@
            },
        ) == Some(plan),
        plan.text_in("options"@, "apiKey"@) == Some(key),
        crate::text::trim(key).len() > 0,
    ensures
        ({
            let entry = entry_of(account, excluded, now_ns);
            &&& entry.plan == "coding-plan"@
            &&& entry.credential == crate::text::trim(key)
            &&& entry.jwt.len() == 0
            &&& entry.messages_url == if account.active_provider == Some("zai"@) {
                "https://api.z.ai/api/anthropic/v1/messages"@
            } else {
                "https://open.bigmodel.cn/api/anthropic/v1/messages"@
            }
            &&& !excluded ==> entry.unusable_reason.len() == 0
        }),
{
    reveal_strlit("zai");
    reveal_strlit("bigmodel");
    reveal_strlit("builtin:");
    reveal_strlit("-coding-plan");
    reveal_strlit("builtin:zai-coding-plan");
    reveal_strlit("builtin:bigmodel-coding-plan");
    reveal_strlit("https://api.z.ai/api/anthropic");
    reveal_strlit("https://open.bigmodel.cn/api/anthropic");
    reveal_strlit("/v1/messages");
    reveal_strlit("https://api.z.ai/api/anthropic/v1/messages");
    reveal_strlit("https://open.bigmodel.cn/api/anthropic/v1/messages");
    assert("zai"@.len() == 3 && "bigmodel"@.len() == 8);
    assert("builtin:"@ + "zai"@ + "-coding-plan"@ =~= "builtin:zai-coding-plan"@);
    assert("builtin:"@ + "bigmodel"@ + "-coding-plan"@ =~= "builtin:bigmodel-coding-plan"@);
    assert("https://api.z.ai/api/anthropic"@ + "/v1/messages"@
        =~= "https://api.z.ai/api/anthropic/v1/messages"@);
    assert("https://open.bigmodel.cn/api/anthropic"@ + "/v1/messages"@
        =~= "https://open.bigmodel.cn/api/anthropic/v1/messages"@);
}

/// An account without such a key offers the start plan with its token, at the address
/// of start plans; and one without a token offers nothing.
pub proof fn law_start_plans_come_with_their_token(
    account: AccountRow,
    excluded: bool,
    now_ns: u64,
    token: Seq<char>,
)
    requires
        coding_key(account.config, provider_of(account)).len() == 0,
        account.jwt == Some(token) || (account.jwt is None && token.len() == 0),
    ensures
        ({
            let entry = entry_of(account, excluded, now_ns);
            if crate::text::trim(token).len() > 0 {
                &&& entry.plan == "start-plan"@
                &&& entry.jwt == crate::text::trim(token)
                &&& entry.credential.len() == 0
                &&& entry.messages_url
                    == "https://zcode.z.ai/api/v1/zcode-plan/anthropic/v1/messages"@
                &&& !excluded ==> (entry.unusable_reason.len() == 0 <==> !token_expired(
                    account.jwt_payload,
                    now_ns,
                ))
            } else {
                &&& entry.plan == "none"@
                &&& entry.jwt.len() == 0 && entry.credential.len() == 0
                &&& entry.unusable_reason.len() > 0
            }
        }),
{
    reveal_strlit("已由用户移出网关池");
    reveal_strlit("无可用的 coding-plan key 或 start-plan JWT");
    reveal_strlit("start-plan JWT 已过期（重新登录后刷新）");
    if account.jwt is None {
        assert(token =~= Seq::<char>::empty());
    }
}

/// A configuration without a plan of the provider, or a plan without a key, gives no
/// key; and neither does a key of white space.
pub proof fn law_keys_must_be_there(config: Tree, provider: Seq<char>)
    ensures
        coding_key(None, provider).len() == 0,
        config.field("provider"@) is None ==> coding_key(Some(config), provider).len() == 0,
        ({
            let plan = config.field_in("provider"@, "builtin:"@ + provider + "-coding-plan"@);
            &&& plan is None ==> coding_key(Some(config), provider).len() == 0
            &&& plan is Some ==> coding_key(Some(config), provider) == match plan->0.text_in(
                "options"@,
                "apiKey"@,
            ) {
                Some(key) => crate::text::trim(key),
                None => Seq::empty(),
            }
        }),
{
}

/// A token has expired once the time lies behind the second that it names; one that
/// names none never does.
pub proof fn law_tokens_expire_at_their_second(payload: Tree, second: u64, now_ns: u64)
    requires
        second <= 0x20_0000_0000_0000,
    ensures
        payload.field("exp"@) == Some(Tree::Number(Numeric::Unsigned(second))) ==> (token_expired(
            Some(payload),
            now_ns,
        ) <==> now_ns > second * 1_000_000_000),
        payload.field("exp"@) is None ==> !token_expired(Some(payload), now_ns),
        payload.text_at("exp"@) is Some ==> !token_expired(Some(payload), now_ns),
        !token_expired(None, now_ns),
{
}

/// How long each failure makes an account sit out, in seconds.
pub proof fn law_failures_have_their_cooldowns(kind: FailureKind)
    ensures
        cooldown_secs(kind) == match kind {
            FailureKind::Unauthorized => 300u64,
            FailureKind::PaymentRequired => 120,
            FailureKind::Forbidden => 120,
            FailureKind::RateLimited => 30,
            FailureKind::ServerError => 15,
            FailureKind::Network => 15,
            FailureKind::BadRequest => 0,
        },
{
}

/// Successes and failures are counted, a failure is remembered until a success, and
/// nothing else of an account's health changes.
pub proof fn law_health_is_counted(
    h: PoolHealth,
    kind: FailureKind,
    message: String,
    now: u64,
)
    requires
        h.total < u64::MAX,
        h.ok < u64::MAX,
        h.fail < u64::MAX,
        now + 300_000 <= u64::MAX,
    ensures
        ({
            let good = after_success(h, now);
            let bad = after_failure(h, kind, message, now);
            &&& good.total == h.total + 1 && good.ok == h.ok + 1 && good.fail == h.fail
            &&& good.last_error is None && good.cooldown_until <= now
            &&& bad.total == h.total + 1 && bad.ok == h.ok && bad.fail == h.fail + 1
            &&& bad.last_error == Some(message)
            &&& bad.cooldown_until == if kind == FailureKind::BadRequest {
                h.cooldown_until as int
            } else {
                now + cooldown_secs(kind) * 1000
            }
            &&& no_health().total == 0 && no_health().ok == 0 && no_health().fail == 0
            &&& no_health().cooldown_until == 0 && no_health().last_error is None
        }),
{
}

/// Usable accounts are told apart one by one, in their order: an account is listed where
/// it has no reason against it, among those that sit out while its time is not over.
pub proof fn law_accounts_are_told_apart(
    a: Seq<EntryRow>,
    b: Seq<EntryRow>,
    row: EntryRow,
    health: Map<Seq<char>, PoolHealth>,
    now: u64,
    sitting_out: bool,
)
    ensures
        usable_rows(a + b, health, now, sitting_out) == usable_rows(a, health, now, sitting_out)
            + usable_rows(b, health, now, sitting_out),
        ({
            let rests = health.contains_key(row.account_id)
                && health[row.account_id].cooldown_until > now;
            usable_rows(seq![row], health, now, sitting_out) == if row.unusable_reason.len() == 0
                && rests == sitting_out {
                seq![row]
            } else {
                Seq::empty()
            }
        }),
    decreases b.len(),
{
    assert(seq![row].drop_last() =~= Seq::<EntryRow>::empty());
    assert(usable_rows(seq![row].drop_last(), health, now, sitting_out) =~= Seq::<
        EntryRow,
    >::empty());
    assert(Seq::<EntryRow>::empty().push(row) =~= seq![row]);
    if b.len() == 0 {
        assert(a + b =~= a);
        assert(usable_rows(a, health, now, sitting_out) + Seq::<EntryRow>::empty() =~= usable_rows(
            a,
            health,
            now,
            sitting_out,
        ));
    } else {
        law_accounts_are_told_apart(a, b.drop_last(), row, health, now, sitting_out);
        assert((a + b).drop_last() =~= a + b.drop_last());
        assert(usable_rows(a + b, health, now, sitting_out) =~= usable_rows(
            a,
            health,
            now,
            sitting_out,
        ) + usable_rows(b, health, now, sitting_out));
    }
}

/// The order goes round: at the start it is that of the list, healthy accounts before
/// resting ones, and with each pick the healthy ones move up by one.
pub proof fn law_the_order_goes_round(
    entries: Seq<EntryRow>,
    health: Map<Seq<char>, PoolHealth>,
    now: u64,
    cursor: usize,
    i: int,
)
    requires
        usable_rows(entries, health, now, false).len() > 0,
        cursor < usize::MAX,
    ensures
        ({
            let healthy = usable_rows(entries, health, now, false);
            let resting = usable_rows(entries, health, now, true);
            let n = healthy.len() as int;
            let here = ranked(entries, health, now, cursor);
            let next = ranked(entries, health, now, (cursor + 1) as usize);
            &&& ranked(entries, health, now, 0) == healthy + resting
            &&& here.len() == next.len() == healthy.len() + resting.len()
            &&& 0 <= i < n - 1 ==> next[i] == here[i + 1]
            &&& next[n - 1] == here[0]
            &&& n <= i < here.len() ==> here[i] == resting[i - n]
        }),
{
    let healthy = usable_rows(entries, health, now, false);
    let resting = usable_rows(entries, health, now, true);
    let n = healthy.len() as int;
    let c = cursor as int % n;
    let d = (cursor + 1) % n;
    vstd::arithmetic::div_mod::lemma_mod_bound(cursor as int, n);
    vstd::arithmetic::div_mod::lemma_mod_bound(cursor + 1, n);
    vstd::arithmetic::div_mod::lemma_add_mod_noop(cursor as int, 1, n);
    vstd::arithmetic::div_mod::lemma_small_mod(0, n as nat);
    assert(d == if c + 1 < n {
        c + 1
    } else {
        0
    }) by {
        vstd::arithmetic::div_mod::lemma_small_mod(c as nat, n as nat);
        vstd::arithmetic::div_mod::lemma_add_mod_noop(c, 1, n);
        if c + 1 < n {
            vstd::arithmetic::div_mod::lemma_small_mod((c + 1) as nat, n as nat);
        } else {
            vstd::arithmetic::div_mod::lemma_mod_self_0(n);
        }
    }
    assert forall|k: int| 0 <= k < n implies (#[trigger] rotated(healthy, 0)[k]) == healthy[k] by {
        lemma_place(0, k, n);
    }
    assert(ranked(entries, health, now, 0) =~= healthy + resting);
    if 0 <= i < n - 1 {
        lemma_place(d, i, n);
        lemma_place(c, i + 1, n);
    }
    lemma_place(d, n - 1, n);
    lemma_place(c, 0, n);
}

/// No more candidates are given than were asked for, and they are the first in the order.
pub proof fn law_candidates_are_the_first(
    entries: Seq<EntryRow>,
    health: Map<Seq<char>, PoolHealth>,
    now: u64,
    cursor: usize,
    max: usize,
    i: int,
)
    ensures
        ({
            let order = ranked(entries, health, now, cursor);
            let out = candidates(entries, health, now, cursor, max);
            &&& out.len() == if order.len() < max {
                order.len() as int
            } else {
                max as int
            }
            &&& 0 <= i < out.len() ==> out[i] == order[i]
        }),
{
}

/// What the pool tells of an account is what is known of it.
pub proof fn law_statuses_tell_what_is_known(
    status: PoolStatusEntry,
    row: EntryRow,
    h: PoolHealth,
    now: u64,
)
    requires
        tells(status, row, h, now),
    ensures
        status.account_id@ == row.account_id && status.name@ == row.name,
        status.provider@ == row.provider && status.plan@ == row.plan,
        status.usable <==> row.unusable_reason.len() == 0,
        status.excluded == row.excluded && status.unusable_reason@ == row.unusable_reason,
        status.cooling <==> h.cooldown_until > now,
        status.last_error == h.last_error,
        status.total == h.total && status.ok == h.ok && status.fail == h.fail,
{
}

/// A credential is what is stored, or what it decrypts to where it is encrypted; one
/// that is not stored is none.
pub proof fn law_credentials_are_opened(
    credentials: Tree,
    key: Seq<char>,
    encrypted: bool,
    decrypted: Option<Seq<char>>,
)
    ensures
        credentials.field(key) is None ==> opened_field(credentials, key, encrypted, decrypted)
            is None,
        credentials.text_at(key) is Some && !encrypted ==> opened_field(
            credentials,
            key,
            encrypted,
            decrypted,
        ) == credentials.text_at(key),
        credentials.text_at(key) is Some && encrypted ==> opened_field(
            credentials,
            key,
            encrypted,
            decrypted,
        ) == decrypted,
{
}

/// Where every account that can be used sits out, they take turns among
/// themselves.
pub proof fn law_resting_accounts_take_turns(
    entries: Seq<EntryRow>,
    health: Map<Seq<char>, PoolHealth>,
    now: u64,
    cursor: usize,
    i: int,
)
    requires
        usable_rows(entries, health, now, false).len() == 0,
        cursor < usize::MAX,
    ensures
        ({
            let resting = usable_rows(entries, health, now, true);
            let n = resting.len() as int;
            let here = ranked(entries, health, now, cursor);
            let next = ranked(entries, health, now, (cursor + 1) as usize);
            &&& ranked(entries, health, now, 0) == resting
            &&& here.len() == n && next.len() == n
            &&& 0 <= i < n - 1 ==> next[i] == here[i + 1]
            &&& n > 0 ==> next[n - 1] == here[0]
        }),
{
    let resting = usable_rows(entries, health, now, true);
    let n = resting.len() as int;
    if n > 0 {
        let c = cursor as int % n;
        let d = (cursor + 1) % n;
        vstd::arithmetic::div_mod::lemma_mod_bound(cursor as int, n);
        vstd::arithmetic::div_mod::lemma_mod_bound(cursor + 1, n);
        vstd::arithmetic::div_mod::lemma_add_mod_noop(cursor as int, 1, n);
        vstd::arithmetic::div_mod::lemma_small_mod(0, n as nat);
        assert(d == if c + 1 < n {
            c + 1
        } else {
            0
        }) by {
            vstd::arithmetic::div_mod::lemma_small_mod(c as nat, n as nat);
            vstd::arithmetic::div_mod::lemma_add_mod_noop(c, 1, n);
            if c + 1 < n {
                vstd::arithmetic::div_mod::lemma_small_mod((c + 1) as nat, n as nat);
            } else {
                vstd::arithmetic::div_mod::lemma_mod_self_0(n);
            }
        }
        assert forall|k: int| 0 <= k < n implies (#[trigger] rotated(resting, 0)[k])
            == resting[k] by {
            lemma_place(0, k, n);
        }
        if 0 <= i < n - 1 {
            lemma_place(d, i, n);
            lemma_place(c, i + 1, n);
        }
        lemma_place(d, n - 1, n);
        lemma_place(c, 0, n);
    }
    assert(ranked(entries, health, now, 0) =~= resting);
}

/// An account that cannot be used says why: it has no credential, its token has
/// expired, or the user has taken it out, which counts before the others.
pub proof fn law_unusable_accounts_say_why(account: AccountRow, now_ns: u64)
    requires
        coding_key(account.config, provider_of(account)).len() == 0,
    ensures
        ({
            let token = match account.jwt {
                Some(jwt) => crate::text::trim(jwt),
                None => Seq::empty(),
            };
            let reason = entry_of(account, false, now_ns).unusable_reason;
            &&& account.jwt is None ==> reason == "无可用的 coding-plan key 或 start-plan JWT"@
            &&& account.jwt is Some && token.len() == 0 ==> reason
                == "无可用的 coding-plan key 或 start-plan JWT"@
            &&& token.len() > 0 && token_expired(account.jwt_payload, now_ns) ==> reason
                == "start-plan JWT 已过期（重新登录后刷新）"@
            &&& token.len() > 0 && !token_expired(account.jwt_payload, now_ns) ==> reason.len() == 0
            &&& entry_of(account, true, now_ns).unusable_reason == "已由用户移出网关池"@
            &&& token.len() == 0 ==> entry_of(account, false, now_ns).messages_url.len() == 0
        }),
{
    let none = crate::text::trim(Seq::<char>::empty());
    assert(none.len() == 0);
}

/// A token that expires at a second below zero has expired, and one that expires
/// at part of a second has when that part is over.
pub proof fn law_tokens_expire_to_the_part_of_a_second(payload: Tree, bits: u64, i: i64, now_ns: u64)
    ensures
        payload.field("exp"@) == Some(Tree::Number(Numeric::Negative(i))) ==> token_expired(
            Some(payload),
            now_ns,
        ),
        payload.field("exp"@) == Some(Tree::Number(Numeric::Double(bits))) ==> ({
            let significand = crate::json::double_significand(bits);
            let scale = crate::json::double_scale(bits);
            let expired = token_expired(Some(payload), now_ns);
            &&& crate::json::double_signed(bits) && significand > 0 ==> expired
            &&& !crate::json::double_signed(bits) && scale >= 0 ==> (expired <==> now_ns
                > significand * vstd::arithmetic::power2::pow2(scale as nat) * 1_000_000_000)
            &&& !crate::json::double_signed(bits) && scale < 0 ==> (expired <==> now_ns
                * vstd::arithmetic::power2::pow2((-scale) as nat) > significand * 1_000_000_000)
        }),
        payload.field("exp"@) is Some && !(payload.field("exp"@)->0 is Number) ==> !token_expired(
            Some(payload),
            now_ns,
        ),
{
}

/// A time lies later by what is added to it, and never beyond the greatest there
/// is; the turn goes on by one, and round at the end.
pub proof fn law_times_and_turns_go_on(now: u64, millis: u64, cursor: usize)
    ensures
        now + millis <= u64::MAX ==> later(now, millis as int) == now + millis,
        now + millis > u64::MAX ==> later(now, millis as int) == u64::MAX,
        cursor < usize::MAX ==> next_cursor(cursor) == cursor + 1,
        next_cursor(usize::MAX) == 0,
{
}

/// Entries are seen one by one, in order.
pub proof fn law_entries_are_seen_in_order(
    entries: Seq<PoolEntry>,
    accounts: Seq<AccountRecord>,
    i: int,
)
    ensures
        rows(entries).len() == entries.len(),
        0 <= i < entries.len() ==> rows(entries)[i] == entries[i]@,
        account_rows(accounts).len() == accounts.len(),
        0 <= i < accounts.len() ==> account_rows(accounts)[i] == accounts[i]@,
{
}

} // verus!
