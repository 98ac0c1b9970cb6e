//! The gateway's configuration, and what it tells of itself.

use crate::json::{Json, Tree};
use crate::pool::{copy_text, PoolStatusEntry};
use crate::text::{concat, concat3, decimal_of, is_blank};
use crate::translate::make_text_or_null;
use vstd::prelude::*;

verus! {

/// The port that the gateway listens on by default.
pub const DEFAULT_PORT: u16 = 8317;

/// How many requests of one account may run at once by default.
pub const DEFAULT_CONCURRENCY: u32 = 3;

/// What the user set, as far as anything was set.
pub struct Settings {
    pub gateway_enabled: Option<bool>,
    pub gateway_port: Option<u16>,
    pub gateway_api_key: Option<String>,
    pub gateway_per_account_concurrency: Option<u32>,
    pub gateway_excluded: Vec<String>,
    pub gateway_debug_log: Option<bool>,
}

impl Default for Settings {
    fn default() -> (r: Self)
        ensures
            r.gateway_enabled is None,
            r.gateway_port is None,
            r.gateway_api_key is None,
            r.gateway_per_account_concurrency is None,
            r.gateway_excluded@.len() == 0,
            r.gateway_debug_log is None,
    {
        Settings {
            gateway_enabled: None,
            gateway_port: None,
            gateway_api_key: None,
            gateway_per_account_concurrency: None,
            gateway_excluded: Vec::new(),
            gateway_debug_log: None,
        }
    }
}

/// How the gateway runs.
#[derive(Debug)]
pub struct GatewayConfig {
    pub enabled: bool,
    pub host: String,
    pub port: u16,
    pub api_key: Option<String>,
    pub per_account_concurrency: u32,
}

impl GatewayConfig {
    /// The configuration that the settings stand for: off, on the default port
    /// and without a key unless they say otherwise, and always on the loopback
    /// interface.
    pub fn from_settings(s: &Settings) -> (r: Self)
        ensures
            r.enabled == (s.gateway_enabled == Some(true)),
            r.host@ == "127.0.0.1"@,
            r.port == match s.gateway_port {
                Some(port) => port,
                None => DEFAULT_PORT,
            },
            r.api_key == s.gateway_api_key,
            r.per_account_concurrency == match s.gateway_per_account_concurrency {
                Some(n) => n,
                None => DEFAULT_CONCURRENCY,
            },
    {
        GatewayConfig {
            enabled: match s.gateway_enabled {
                Some(enabled) => enabled,
                None => false,
            },
            host: "127.0.0.1".to_owned(),
            port: match s.gateway_port {
                Some(port) => port,
                None => DEFAULT_PORT,
            },
            api_key: copy_text(&s.gateway_api_key),
            per_account_concurrency: match s.gateway_per_account_concurrency {
                Some(n) => n,
                None => DEFAULT_CONCURRENCY,
            },
        }
    }

    /// The address that the gateway listens on.
    pub open spec fn address(&self) -> Seq<char> {
        self.host@ + ":"@ + crate::text::decimal(self.port as nat)
    }

    /// The address that the gateway listens on.
    pub fn listen_address(&self) -> (r: String)
        ensures
            r@ == self.address(),
    {
        let port = decimal_of(self.port as u128);
        concat3(self.host.as_str(), ":", port.as_str())
    }

    /// What is said where the gateway cannot listen on its address.
    pub fn listen_error(&self, reason: &str) -> (r: String)
        ensures
            r@ == "端口 "@ + self.address() + " 监听失败："@ + reason@,
    {
        let address = self.listen_address();
        let front = concat3("端口 ", address.as_str(), " 监听失败：");
        concat(front.as_str(), reason)
    }

    /// Whether a key is set that is not blank.
    pub open spec fn guarded(&self) -> bool {
        self.api_key matches Some(key) && crate::text::trim(key@).len() > 0
    }

    /// Whether a key is set that is not blank.
    pub fn has_key(&self) -> (r: bool)
        ensures
            r == self.guarded(),
    {
        match &self.api_key {
            Some(key) => !is_blank(key.as_str()),
            None => false,
        }
    }
}

/// The gateway as it runs, or not.
pub struct GatewayRuntime {
    pub config: Option<GatewayConfig>,
}

/// Whether the gateway runs.
pub fn is_running(runtime: &GatewayRuntime) -> (r: bool)
    ensures
        r == runtime.config is Some,
{
    runtime.config.is_some()
}

/// A text that may be missing as a document.
pub open spec fn optional_text(s: Option<String>) -> Tree {
    crate::translate::text_or_null(crate::text::seen_string(s))
}

/// What the pool tells of an account, as a document.
pub open spec fn account_tree(e: PoolStatusEntry) -> Tree {
    crate::json::empty_tree().with("account_id"@, Tree::Text(e.account_id@)).with(
        "name"@,
        Tree::Text(e.name@),
    ).with("provider"@, Tree::Text(e.provider@)).with("plan"@, Tree::Text(e.plan@)).with(
        "usable"@,
        Tree::Bool(e.usable),
    ).with("excluded"@, Tree::Bool(e.excluded)).with(
        "unusable_reason"@,
        Tree::Text(e.unusable_reason@),
    ).with("cooling"@, Tree::Bool(e.cooling)).with("last_error"@, optional_text(e.last_error)).with(
        "total"@,
        crate::json::count_tree(e.total),
    ).with("ok"@, crate::json::count_tree(e.ok)).with("fail"@, crate::json::count_tree(e.fail))
}

/// What the pool tells of the accounts, as a document.
pub open spec fn accounts_tree(entries: Seq<PoolStatusEntry>) -> Tree {
    Tree::Array(entries.map_values(|e: PoolStatusEntry| account_tree(e)))
}

fn account_json(e: &PoolStatusEntry) -> (r: Json)
    ensures
        r@ == account_tree(*e),
{
    Json::object().with("account_id", Json::text(e.account_id.as_str())).with(
        "name",
        Json::text(e.name.as_str()),
    ).with("provider", Json::text(e.provider.as_str())).with(
        "plan",
        Json::text(e.plan.as_str()),
    ).with("usable", Json::Bool(e.usable)).with("excluded", Json::Bool(e.excluded)).with(
        "unusable_reason",
        Json::text(e.unusable_reason.as_str()),
    ).with("cooling", Json::Bool(e.cooling)).with(
        "last_error",
        make_text_or_null(crate::text::as_text(&e.last_error)),
    ).with("total", Json::count(e.total)).with("ok", Json::count(e.ok)).with(
        "fail",
        Json::count(e.fail),
    )
}

/// What the pool tells of the accounts, as a document.
fn accounts_json(entries: &Vec<PoolStatusEntry>) -> (r: Json)
    ensures
        r@ == accounts_tree(entries@),
{
    let mut out: Vec<Json> = Vec::new();
    let mut i: usize = 0;
    while i < entries.len()
        invariant
            i <= entries@.len(),
            out@.len() == i,
            forall|k: int| 0 <= k < i ==> (#[trigger] out@[k])@ == account_tree(entries@[k]),
        decreases entries@.len() - i,
    {
        out.push(account_json(&entries[i]));
        i += 1;
    }
    assert(crate::json::trees(out@) =~= entries@.map_values(|e: PoolStatusEntry| account_tree(e)));
    Json::array(out)
}

/// The accounts alone, for a look at the pool while the gateway does not run.
pub fn pool_status_value(entries: &Vec<PoolStatusEntry>) -> (r: Json)
    ensures
        r@ == crate::json::empty_tree().with("accounts"@, accounts_tree(entries@)),
{
    Json::object().with("accounts", accounts_json(entries))
}

/// How many tickets are at hand, and how many there should be.
#[derive(Clone, Copy)]
pub struct TicketPool {
    pub size: u64,
    pub min: u64,
    pub max: u64,
    pub urgent: bool,
}

/// What a gateway that does not run tells of itself.
pub open spec fn stopped_tree(c: GatewayConfig) -> Tree {
    crate::json::empty_tree().with("running"@, Tree::Bool(false)).with(
        "enabled"@,
        Tree::Bool(c.enabled),
    ).with("port"@, crate::json::count_tree(c.port as u64)).with(
        "apiKeySet"@,
        Tree::Bool(c.guarded()),
    ).with(
        "perAccountConcurrency"@,
        crate::json::count_tree(c.per_account_concurrency as u64),
    )
}

/// What a running gateway tells of itself.
pub open spec fn running_tree(
    c: GatewayConfig,
    captcha_pending: bool,
    tickets: TicketPool,
    entries: Seq<PoolStatusEntry>,
) -> Tree {
    stopped_tree(c).with("running"@, Tree::Bool(true)).with("host"@, Tree::Text(c.host@)).with(
        "captchaPending"@,
        Tree::Bool(captcha_pending),
    ).with(
        "captchaPool"@,
        crate::json::empty_tree().with("size"@, crate::json::count_tree(tickets.size)).with(
            "min"@,
            crate::json::count_tree(tickets.min),
        ).with("max"@, crate::json::count_tree(tickets.max)).with(
            "urgent"@,
            Tree::Bool(tickets.urgent),
        ),
    ).with("accounts"@, accounts_tree(entries))
}

/// What a gateway that does not run tells of itself.
pub fn stopped_status(c: &GatewayConfig) -> (r: Json)
    ensures
        r@ == stopped_tree(*c),
{
    Json::object().with("running", Json::Bool(false)).with("enabled", Json::Bool(c.enabled)).with(
        "port",
        Json::count(c.port as u64),
    ).with("apiKeySet", Json::Bool(c.has_key())).with(
        "perAccountConcurrency",
        Json::count(c.per_account_concurrency as u64),
    )
}

/// What a running gateway tells of itself.
pub fn running_status(
    c: &GatewayConfig,
    captcha_pending: bool,
    tickets: TicketPool,
    entries: &Vec<PoolStatusEntry>,
) -> (r: Json)
    ensures
        r@ == running_tree(*c, captcha_pending, tickets, entries@),
{
    let pool = Json::object().with("size", Json::count(tickets.size)).with(
        "min",
        Json::count(tickets.min),
    ).with("max", Json::count(tickets.max)).with("urgent", Json::Bool(tickets.urgent));
    stopped_status(c).with("running", Json::Bool(true)).with(
        "host",
        Json::text(c.host.as_str()),
    ).with("captchaPending", Json::Bool(captcha_pending)).with("captchaPool", pool).with(
        "accounts",
        accounts_json(entries),
    )
}

/// The gateway listens at its host and port, written with a colon between them.
pub proof fn law_addresses_name_host_and_port(c: GatewayConfig)
    ensures
        c.address() == c.host@ + ":"@ + crate::text::decimal(c.port as nat),
        c.address().take(c.host@.len() as int) == c.host@,
        c.address()[c.host@.len() as int] == ':',
        c.address().skip(c.host@.len() + 1int) == crate::text::decimal(c.port as nat),
{
    reveal_strlit(":");
    assert(":"@.len() == 1 && ":"@[0] == ':');
}

/// A gateway is guarded where its key is not blank.
pub proof fn law_keys_guard_the_gateway(c: GatewayConfig)
    ensures
        c.api_key is None ==> !c.guarded(),
        c.api_key is Some ==> (c.guarded() <==> crate::text::trim(c.api_key->0@).len() > 0),
{
}

/// The report of an account tells all that is known of it under its own name, and
/// the last error as nothing where there was none.
pub proof fn law_accounts_are_reported(e: PoolStatusEntry)
    ensures
        account_tree(e).text_at("account_id"@) == Some(e.account_id@),
        account_tree(e).text_at("name"@) == Some(e.name@),
        account_tree(e).text_at("provider"@) == Some(e.provider@),
        account_tree(e).text_at("plan"@) == Some(e.plan@),
        account_tree(e).flag_at("usable"@) == Some(e.usable),
        account_tree(e).flag_at("excluded"@) == Some(e.excluded),
        account_tree(e).text_at("unusable_reason"@) == Some(e.unusable_reason@),
        account_tree(e).flag_at("cooling"@) == Some(e.cooling),
        e.last_error is Some ==> account_tree(e).text_at("last_error"@) == Some(e.last_error->0@),
        e.last_error is None ==> account_tree(e).field("last_error"@) == Some(Tree::Null),
        account_tree(e).count_at("total"@) == Some(e.total),
        account_tree(e).count_at("ok"@) == Some(e.ok),
        account_tree(e).count_at("fail"@) == Some(e.fail),
{
    reveal_strlit("account_id");
    reveal_strlit("name");
    reveal_strlit("provider");
    reveal_strlit("plan");
    reveal_strlit("usable");
    reveal_strlit("excluded");
    reveal_strlit("unusable_reason");
    reveal_strlit("cooling");
    reveal_strlit("last_error");
    reveal_strlit("total");
    reveal_strlit("ok");
    reveal_strlit("fail");
    assert("account_id"@.len() == 10 && "account_id"@[0] == 'a');
    assert("name"@.len() == 4 && "name"@[0] == 'n');
    assert("provider"@.len() == 8 && "provider"@[0] == 'p');
    assert("plan"@.len() == 4 && "plan"@[0] == 'p');
    assert("usable"@.len() == 6);
    assert("excluded"@.len() == 8 && "excluded"@[0] == 'e');
    assert("unusable_reason"@.len() == 15);
    assert("cooling"@.len() == 7);
    assert("last_error"@.len() == 10 && "last_error"@[0] == 'l');
    assert("total"@.len() == 5);
    assert("ok"@.len() == 2);
    assert("fail"@.len() == 4 && "fail"@[0] == 'f');
}

/// The accounts are reported one by one, in order.
pub proof fn law_accounts_are_reported_in_order(entries: Seq<PoolStatusEntry>, i: int)
    requires
        0 <= i < entries.len(),
    ensures
        accounts_tree(entries).items() is Some,
        accounts_tree(entries).items()->0.len() == entries.len(),
        accounts_tree(entries).items()->0[i] == account_tree(entries[i]),
{
}

/// A stopped gateway says so and tells its configuration: never the key itself,
/// only whether there is one.
pub proof fn law_stopped_gateways_tell_their_configuration(c: GatewayConfig)
    ensures
        stopped_tree(c).flag_at("running"@) == Some(false),
        stopped_tree(c).flag_at("enabled"@) == Some(c.enabled),
        stopped_tree(c).count_at("port"@) == Some(c.port as u64),
        stopped_tree(c).flag_at("apiKeySet"@) == Some(c.guarded()),
        stopped_tree(c).count_at("perAccountConcurrency"@) == Some(c.per_account_concurrency as u64),
        stopped_tree(c).members().dom() =~= set![
            "running"@,
            "enabled"@,
            "port"@,
            "apiKeySet"@,
            "perAccountConcurrency"@,
        ],
{
    reveal_strlit("running");
    reveal_strlit("enabled");
    reveal_strlit("port");
    reveal_strlit("apiKeySet");
    reveal_strlit("perAccountConcurrency");
    assert("running"@.len() == 7 && "running"@[0] == 'r');
    assert("enabled"@.len() == 7 && "enabled"@[0] == 'e');
    assert("port"@.len() == 4);
    assert("apiKeySet"@.len() == 9);
    assert("perAccountConcurrency"@.len() == 21);
}

/// A running gateway says so and tells its configuration, its host, the tickets it
/// has in store, whether one is being waited for, and its accounts.
pub proof fn law_running_gateways_tell_what_they_do(
    c: GatewayConfig,
    captcha_pending: bool,
    tickets: TicketPool,
    entries: Seq<PoolStatusEntry>,
)
    ensures
        ({
            let t = running_tree(c, captcha_pending, tickets, entries);
            &&& t.flag_at("running"@) == Some(true)
            &&& t.flag_at("enabled"@) == Some(c.enabled)
            &&& t.count_at("port"@) == Some(c.port as u64)
            &&& t.flag_at("apiKeySet"@) == Some(c.guarded())
            &&& t.count_at("perAccountConcurrency"@) == Some(c.per_account_concurrency as u64)
            &&& t.text_at("host"@) == Some(c.host@)
            &&& t.flag_at("captchaPending"@) == Some(captcha_pending)
            &&& t.field_in("captchaPool"@, "size"@) == Some(
                Tree::Number(crate::json::Numeric::Unsigned(tickets.size)),
            )
            &&& t.field_in("captchaPool"@, "min"@) == Some(
                Tree::Number(crate::json::Numeric::Unsigned(tickets.min)),
            )
            &&& t.field_in("captchaPool"@, "max"@) == Some(
                Tree::Number(crate::json::Numeric::Unsigned(tickets.max)),
            )
            &&& t.field_in("captchaPool"@, "urgent"@) == Some(Tree::Bool(tickets.urgent))
            &&& t.field("accounts"@) == Some(accounts_tree(entries))
        }),
{
    reveal_strlit("running");
    reveal_strlit("enabled");
    reveal_strlit("port");
    reveal_strlit("apiKeySet");
    reveal_strlit("perAccountConcurrency");
    reveal_strlit("host");
    reveal_strlit("captchaPending");
    reveal_strlit("captchaPool");
    reveal_strlit("accounts");
    reveal_strlit("size");
    reveal_strlit("min");
    reveal_strlit("max");
    reveal_strlit("urgent");
    assert("running"@.len() == 7 && "running"@[0] == 'r');
    assert("enabled"@.len() == 7 && "enabled"@[0] == 'e');
    assert("port"@.len() == 4 && "port"@[0] == 'p');
    assert("apiKeySet"@.len() == 9);
    assert("perAccountConcurrency"@.len() == 21);
    assert("host"@.len() == 4 && "host"@[0] == 'h');
    assert("captchaPending"@.len() == 14);
    assert("captchaPool"@.len() == 11);
    assert("accounts"@.len() == 8);
    assert("size"@.len() == 4 && "size"@[0] == 's');
    assert("min"@.len() == 3 && "min"@[1] == 'i');
    assert("max"@.len() == 3 && "max"@[1] == 'a');
    assert("urgent"@.len() == 6);
}

/// What the settings leave open is set: the port is 8317, and an account answers
/// three requests at a time.
pub proof fn law_defaults_are_set()
    ensures
        DEFAULT_PORT == 8317,
        DEFAULT_CONCURRENCY == 3,
{
}

} // verus!
