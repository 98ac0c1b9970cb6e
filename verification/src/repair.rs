//! Healing accounts that lost the key of their coding plan. Without it they fall
//! back to the start plan, which asks users to solve challenges.

use crate::json::{Json, Tree};
use crate::logs::GatewayLogEntry;
use crate::pool::resolve_coding_key;
use crate::text::{concat, concat3, is_empty, same, trimmed};
use vstd::prelude::*;

verus! {

/// The seconds between the start and the first pass.
pub const FIRST_WAIT_SECS: u64 = 5;

/// The seconds between one pass and the next.
pub const LATER_WAIT_SECS: u64 = 90;

/// The seconds to wait before a pass.
pub fn wait_before_pass(first: bool) -> (r: u64)
    ensures
        r == if first {
            FIRST_WAIT_SECS
        } else {
            LATER_WAIT_SECS
        },
{
    if first {
        FIRST_WAIT_SECS
    } else {
        LATER_WAIT_SECS
    }
}

/// Whether a configuration holds the key of a provider's coding plan.
pub fn coding_key_present(config: &Option<Json>, provider: &str) -> (r: bool)
    ensures
        r == (crate::pool::coding_key(crate::json::seen_own(*config), provider@).len() > 0),
{
    !is_empty(resolve_coding_key(config, provider).as_str())
}

/// Where a provider's Anthropic dialect is served.
pub open spec fn plan_base(provider: Seq<char>) -> Seq<char> {
    if provider == "zai"@ {
        "https://api.z.ai/api/anthropic"@
    } else {
        "https://open.bigmodel.cn/api/anthropic"@
    }
}

/// Where a provider's Anthropic dialect is served.
pub fn anthropic_base_for(provider: &str) -> (r: &'static str)
    ensures
        r@ == plan_base(provider@),
{
    if same(provider, "zai") {
        "https://api.z.ai/api/anthropic"
    } else {
        "https://open.bigmodel.cn/api/anthropic"
    }
}

// ---------------------------------------------------------------------------
// Which accounts to heal
// ---------------------------------------------------------------------------

/// The provider of an account that can be healed: the one that it is signed in
/// with where that is a known one, or the default where none is named.
pub open spec fn healed_provider(active: Option<Seq<char>>) -> Option<Seq<char>> {
    match active {
        None => Some("bigmodel"@),
        Some(p) => if p == "zai"@ || p == "bigmodel"@ {
            Some(p)
        } else {
            None
        },
    }
}

/// How a provider is asked for the key of its coding plan: whether at the address
/// of Z.ai, else at that of BigModel, and whether as a provider other than
/// BigModel.
pub fn plan_request(provider: &str) -> (r: (bool, bool))
    ensures
        r.0 == (provider@ == "zai"@),
        r.1 == (provider@ != "bigmodel"@),
{
    (same(provider, "zai"), !same(provider, "bigmodel"))
}

/// The provider of an account that can be healed.
pub fn provider_to_heal(active: Option<String>) -> (r: Option<String>)
    ensures
        crate::text::seen_string(r) == healed_provider(crate::text::seen_string(active)),
{
    match active {
        None => Some("bigmodel".to_owned()),
        Some(p) => if same(p.as_str(), "zai") || same(p.as_str(), "bigmodel") {
            Some(p)
        } else {
            None
        },
    }
}

/// Under which name the credentials keep a provider's access token.
pub fn access_token_key(provider: &str) -> (r: String)
    ensures
        r@ == "oauth:"@ + provider@ + ":access_token"@,
{
    concat3("oauth:", provider, ":access_token")
}

/// The access token with which an account is healed: there is none where the
/// account needs no healing or has no token.
pub open spec fn healing_token(
    config: Option<Tree>,
    provider: Seq<char>,
    access: Option<Seq<char>>,
) -> Option<Seq<char>> {
    if crate::pool::coding_key(config, provider).len() > 0 {
        None
    } else {
        match access {
            None => None,
            Some(token) => if crate::text::trim(token).len() == 0 {
                None
            } else {
                Some(crate::text::trim(token))
            },
        }
    }
}

/// The access token with which an account is healed.
pub fn token_to_heal(config: &Option<Json>, provider: &str, access: Option<&str>) -> (r: Option<
    String,
>)
    ensures
        crate::text::seen_string(r) == healing_token(
            crate::json::seen_own(*config),
            provider@,
            crate::text::seen_str(access),
        ),
{
    if coding_key_present(config, provider) {
        return None;
    }
    match access {
        Some(token) => {
            let token = trimmed(token);
            if is_empty(token.as_str()) {
                None
            } else {
                Some(token)
            }
        },
        None => None,
    }
}

/// Whether a provider wants its access token changed into a business token
/// first.
pub fn wants_business_token(provider: &str) -> (r: bool)
    ensures
        r == (provider@ == "zai"@),
{
    same(provider, "zai")
}

/// What is presented to the provider when the key is asked for: the business
/// token of one provider, the access token of the other.
pub open spec fn healing_auth(
    provider: Seq<char>,
    access: Seq<char>,
    business: Option<Seq<char>>,
) -> Option<Seq<char>> {
    if provider == "zai"@ {
        match business {
            Some(token) => Some("Bearer "@ + token),
            None => None,
        }
    } else {
        Some(access)
    }
}

/// What is presented to the provider when the key is asked for.
pub fn auth_to_present(provider: &str, access: String, business: Option<String>) -> (r: Option<
    String,
>)
    ensures
        crate::text::seen_string(r) == healing_auth(
            provider@,
            access@,
            crate::text::seen_string(business),
        ),
{
    if wants_business_token(provider) {
        match business {
            Some(token) => Some(concat("Bearer ", token.as_str())),
            None => None,
        }
    } else {
        Some(access)
    }
}

// ---------------------------------------------------------------------------
// The healed configuration
// ---------------------------------------------------------------------------

/// A coding plan as the configuration keeps it.
pub open spec fn plan_tree(provider: Seq<char>, key: Seq<char>) -> Tree {
    crate::json::empty_tree().with(
        "name"@,
        Tree::Text(
            if provider == "zai"@ {
                "Z.ai - Coding Plan"@
            } else {
                "BigModel - Coding Plan"@
            },
        ),
    ).with("kind"@, Tree::Text("anthropic"@)).with(
        "options"@,
        crate::json::empty_tree().with("apiKey"@, Tree::Text(key)).with(
            "baseURL"@,
            Tree::Text(plan_base(provider)),
        ),
    ).with("enabled"@, Tree::Bool(true)).with("source"@, Tree::Text("custom"@))
}

/// Whether plans can be set in a configuration: what it keeps them in is an
/// object, or null, or missing.
pub open spec fn holds_plans(config: Option<Tree>) -> bool {
    match config {
        Some(config) => match config.field("provider"@) {
            Some(plans) => plans is Object || plans is Null,
            None => true,
        },
        None => true,
    }
}

/// Whether plans can be set in a configuration.
pub fn can_hold_plans(config: &Option<Json>) -> (r: bool)
    ensures
        r == holds_plans(crate::json::seen_own(*config)),
{
    match config {
        Some(config) => match config.get("provider") {
            Some(plans) => plans.is_object() || plans.is_null(),
            None => true,
        },
        None => true,
    }
}

/// A configuration with the key of a provider's coding plan. There is none where
/// the key is there already, or where the configuration is no object.
pub open spec fn healed(config: Option<Tree>, provider: Seq<char>, key: Seq<char>) -> Option<Tree> {
    if crate::pool::coding_key(config, provider).len() > 0 {
        None
    } else {
        match config {
            Some(config) => if config is Object {
                Some(
                    config.with(
                        "provider"@,
                        crate::json::or_null(config.field("provider"@)).with(
                            crate::pool::coding_plan_key(provider),
                            plan_tree(provider, key),
                        ),
                    ),
                )
            } else {
                None
            },
            None => Some(
                crate::json::empty_tree().with(
                    "provider"@,
                    crate::json::empty_tree().with(
                        crate::pool::coding_plan_key(provider),
                        plan_tree(provider, key),
                    ),
                ),
            ),
        }
    }
}

fn make_plan(provider: &str, key: &str) -> (r: Json)
    ensures
        r@ == plan_tree(provider@, key@),
{
    let name = if same(provider, "zai") {
        "Z.ai - Coding Plan"
    } else {
        "BigModel - Coding Plan"
    };
    Json::object().with("name", Json::text(name)).with("kind", Json::text("anthropic")).with(
        "options",
        Json::object().with("apiKey", Json::text(key)).with(
            "baseURL",
            Json::text(anthropic_base_for(provider)),
        ),
    ).with("enabled", Json::Bool(true)).with("source", Json::text("custom"))
}

/// A configuration with the key of a provider's coding plan.
pub fn heal_config(config: &Option<Json>, provider: &str, key: &str) -> (r: Option<Json>)
    requires
        holds_plans(crate::json::seen_own(*config)),
    ensures
        crate::json::seen_own(r) == healed(crate::json::seen_own(*config), provider@, key@),
{
    if coding_key_present(config, provider) {
        return None;
    }
    let plan_key = concat3("builtin:", provider, "-coding-plan");
    let plan = make_plan(provider, key);
    match config {
        Some(config) => {
            if !config.is_object() {
                return None;
            }
            let plans = crate::json::copy_or_null(config.get("provider"));
            Some(config.duplicate().with("provider", plans.with(plan_key.as_str(), plan)))
        },
        None => Some(
            Json::object().with("provider", Json::object().with(plan_key.as_str(), plan)),
        ),
    }
}

/// The line of the log that tells of an account that was healed.
pub fn healed_entry(ts: i64, account: &str, provider: &str) -> (r: GatewayLogEntry)
    ensures
        r.ts == ts,
        r.route@ == "repair"@,
        r.format@ == "repair"@,
        r.model@ == "coding-plan key"@,
        crate::text::seen_string(r.account) == Some(account@),
        crate::text::seen_string(r.provider) == Some(provider@),
        crate::text::seen_string(r.plan) == Some("coding-plan"@),
        r.status == 200,
        r.ms == 0,
        r.attempts == 1,
        r.error is None,
{
    GatewayLogEntry {
        ts,
        route: "repair".to_owned(),
        format: "repair".to_owned(),
        model: "coding-plan key".to_owned(),
        account: Some(account.to_owned()),
        provider: Some(provider.to_owned()),
        plan: Some("coding-plan".to_owned()),
        status: 200,
        ms: 0,
        attempts: 1,
        error: None,
    }
}

// ---------------------------------------------------------------------------
// Laws
// ---------------------------------------------------------------------------

/// The key that was set is the one that is found afterwards, without white space
/// around it.
pub proof fn law_healed_accounts_have_the_key(
    config: Option<Tree>,
    provider: Seq<char>,
    key: Seq<char>,
)
    requires
        healed(config, provider, key) is Some,
    ensures
        crate::pool::coding_key(healed(config, provider, key), provider) == crate::text::trim(key),
{
    lemma_plan_key(provider, key);
}

/// An account that was healed with a key that is not blank is not healed again,
/// whatever access token it has and whatever key is at hand.
pub proof fn law_accounts_are_healed_once(
    config: Option<Tree>,
    provider: Seq<char>,
    key: Seq<char>,
    access: Option<Seq<char>>,
    other: Seq<char>,
)
    requires
        healed(config, provider, key) is Some,
        crate::text::trim(key).len() > 0,
    ensures
        healing_token(healed(config, provider, key), provider, access) is None,
        healed(healed(config, provider, key), provider, other) is None,
{
    law_healed_accounts_have_the_key(config, provider, key);
}

/// Healing changes nothing else of a configuration: every other member and every
/// other plan stays.
pub proof fn law_healing_keeps_the_rest(
    config: Tree,
    provider: Seq<char>,
    key: Seq<char>,
    member: Seq<char>,
    plan: Seq<char>,
)
    requires
        holds_plans(Some(config)),
        healed(Some(config), provider, key) is Some,
    ensures
        member != "provider"@ ==> healed(Some(config), provider, key)->0.field(member)
            == config.field(member),
        plan != crate::pool::coding_plan_key(provider) ==> healed(
            Some(config),
            provider,
            key,
        )->0.field_in("provider"@, plan) == config.field_in("provider"@, plan),
{
}

proof fn lemma_plan_key(provider: Seq<char>, key: Seq<char>)
    ensures
        plan_tree(provider, key).text_in("options"@, "apiKey"@) == Some(key),
{
    reveal_strlit("options");
    reveal_strlit("apiKey");
    reveal_strlit("baseURL");
    reveal_strlit("enabled");
    reveal_strlit("source");
    assert("options"@.len() == 7 && "enabled"@.len() == 7 && "source"@.len() == 6);
    assert("options"@[0] == 'o' && "enabled"@[0] == 'e');
    assert("apiKey"@.len() == 6 && "baseURL"@.len() == 7);
}

/// A configuration is healed where it has no key for the plan yet and can hold
/// one; where none is there, one is made.
pub proof fn law_missing_keys_are_healed(
    config: Tree,
    provider: Seq<char>,
    key: Seq<char>,
)
    ensures
        healed(None, provider, key) is Some,
        config is Object && crate::pool::coding_key(Some(config), provider).len() == 0 ==> healed(
            Some(config),
            provider,
            key,
        ) is Some,
        crate::pool::coding_key(Some(config), provider).len() > 0 ==> healed(
            Some(config),
            provider,
            key,
        ) is None,
        config !is Object ==> healed(Some(config), provider, key) is None,
{
}

/// A healed configuration has the plan of its provider, enabled, with the key as
/// it came and the provider's own address.
pub proof fn law_healed_plans_are_complete(
    config: Option<Tree>,
    provider: Seq<char>,
    key: Seq<char>,
)
    requires
        healed(config, provider, key) is Some,
    ensures
        ({
            let plan = healed(config, provider, key)->0.field_in(
                "provider"@,
                "builtin:"@ + provider + "-coding-plan"@,
            );
            &&& plan is Some
            &&& provider == "zai"@ ==> plan->0.text_at("name"@) == Some("Z.ai - Coding Plan"@)
            &&& provider != "zai"@ ==> plan->0.text_at("name"@) == Some("BigModel - Coding Plan"@)
            &&& plan->0.text_at("kind"@) == Some("anthropic"@)
            &&& plan->0.text_in("options"@, "apiKey"@) == Some(key)
            &&& provider == "zai"@ ==> plan->0.text_in("options"@, "baseURL"@) == Some(
                "https://api.z.ai/api/anthropic"@,
            )
            &&& provider != "zai"@ ==> plan->0.text_in("options"@, "baseURL"@) == Some(
                "https://open.bigmodel.cn/api/anthropic"@,
            )
            &&& plan->0.flag_at("enabled"@) == Some(true)
            &&& plan->0.text_at("source"@) == Some("custom"@)
        }),
{
    reveal_strlit("name");
    reveal_strlit("kind");
    reveal_strlit("options");
    reveal_strlit("apiKey");
    reveal_strlit("baseURL");
    reveal_strlit("enabled");
    reveal_strlit("source");
    assert("name"@.len() == 4 && "name"@[0] == 'n');
    assert("kind"@.len() == 4 && "kind"@[0] == 'k');
    assert("options"@.len() == 7 && "options"@[0] == 'o');
    assert("apiKey"@.len() == 6 && "apiKey"@[0] == 'a');
    assert("baseURL"@.len() == 7 && "baseURL"@[0] == 'b');
    assert("enabled"@.len() == 7 && "enabled"@[0] == 'e');
    assert("source"@.len() == 6 && "source"@[0] == 's');
}

/// An account is healed for the provider it uses where that is one of the two that
/// are known, and for BigModel where it names none.
pub proof fn law_known_providers_are_healed(provider: Seq<char>)
    ensures
        healed_provider(None) == Some("bigmodel"@),
        provider == "zai"@ || provider == "bigmodel"@ ==> healed_provider(Some(provider)) == Some(
            provider,
        ),
        provider != "zai"@ && provider != "bigmodel"@ ==> healed_provider(Some(provider)) is None,
{
}

/// An account without a key is healed with its token, without the white space
/// around it, where that is not blank; one with a key needs none.
pub proof fn law_tokens_heal_accounts_without_a_key(
    config: Option<Tree>,
    provider: Seq<char>,
    token: Seq<char>,
)
    ensures
        healing_token(config, provider, None) is None,
        crate::pool::coding_key(config, provider).len() > 0 ==> healing_token(
            config,
            provider,
            Some(token),
        ) is None,
        crate::pool::coding_key(config, provider).len() == 0 && crate::text::trim(token).len() > 0
            ==> healing_token(config, provider, Some(token)) == Some(crate::text::trim(token)),
        crate::text::trim(token).len() == 0 ==> healing_token(config, provider, Some(token)) is None,
{
}

/// Z.ai is asked with the token for its business interface, as a bearer, and not
/// without one; BigModel with the token of the account itself.
pub proof fn law_providers_are_asked_with_their_token(
    provider: Seq<char>,
    access: Seq<char>,
    business: Seq<char>,
)
    ensures
        healing_auth("zai"@, access, Some(business)) == Some("Bearer "@ + business),
        healing_auth("zai"@, access, None) is None,
        provider != "zai"@ ==> healing_auth(provider, access, Some(business)) == Some(access),
        provider != "zai"@ ==> healing_auth(provider, access, None) == Some(access),
        plan_base("zai"@) == "https://api.z.ai/api/anthropic"@,
        provider != "zai"@ ==> plan_base(provider) == "https://open.bigmodel.cn/api/anthropic"@,
        FIRST_WAIT_SECS == 5,
        LATER_WAIT_SECS == 90,
{
}

/// A configuration can hold plans unless something that is neither an object nor
/// null stands in their place.
pub proof fn law_plans_are_held_by_objects(config: Tree)
    ensures
        holds_plans(None),
        config.field("provider"@) is None ==> holds_plans(Some(config)),
        config.field("provider"@) is Some ==> (holds_plans(Some(config)) <==> config.field(
            "provider"@,
        )->0 is Object || config.field("provider"@)->0 is Null),
{
}

} // verus!
