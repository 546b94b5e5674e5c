//! The mode switch controller. In Proxy mode each client's configuration is
//! generated around a fixed placeholder token and the local proxy address,
//! with caller-supplied common fields merged in (the two credential fields
//! always stay the placeholder pair). In Direct mode the current provider's
//! stored configuration is written back verbatim; when none is selected the
//! first provider in failover order is chosen and recorded.

use vstd::prelude::*;
use crate::json::{
    JsonV, JsonValue, entries_set, entries_lookup, jv, jv_entries, lemma_jv_entries, entries_bind,
    lemma_set_then_lookup, obj_get, get_str,
};
use crate::model::{MultiAppConfig, Provider, ProviderManager};
use crate::routing::{prov_lt, same_sort_key, lemma_provider_order_total};
use crate::text;

verus! {

/// The local proxy address the clients are pointed at in Proxy mode.
pub open spec fn proxy_url() -> Seq<char> {
    "http://127.0.0.1:12857"@
}

/// The fixed placeholder credential the clients see in Proxy mode. It is
/// never a real upstream secret.
pub open spec fn proxy_token() -> Seq<char> {
    "ccswitch-proxymode-token"@
}

/// The two credential entries of the first client kind's Proxy-mode `env`.
pub open spec fn claude_env_base() -> Seq<(Seq<char>, JsonV)> {
    seq![
        ("ANTHROPIC_AUTH_TOKEN"@, JsonV::Str(proxy_token())),
        ("ANTHROPIC_BASE_URL"@, JsonV::Str(proxy_url())),
    ]
}

/// Merging common `env` entries: every entry is bound in order, except the
/// two placeholder credential fields, which are never overridden.
pub open spec fn merge_env(
    env: Seq<(Seq<char>, JsonV)>,
    add: Seq<(Seq<char>, JsonV)>,
) -> Seq<(Seq<char>, JsonV)>
    decreases add.len(),
{
    if add.len() == 0 {
        env
    } else {
        let prev = merge_env(env, add.drop_last());
        let e = add.last();
        if e.0 == "ANTHROPIC_AUTH_TOKEN"@ || e.0 == "ANTHROPIC_BASE_URL"@ {
            prev
        } else {
            entries_set(prev, e.0, e.1)
        }
    }
}

/// Merging a common configuration object into the Proxy-mode settings: an
/// `env` entry (when it is an object) merges into the nested `env` as
/// `merge_env` says; every other entry is bound at the top level.
pub open spec fn merge_claude(
    top: Seq<(Seq<char>, JsonV)>,
    env: Seq<(Seq<char>, JsonV)>,
    common: Seq<(Seq<char>, JsonV)>,
) -> (Seq<(Seq<char>, JsonV)>, Seq<(Seq<char>, JsonV)>)
    decreases common.len(),
{
    if common.len() == 0 {
        (top, env)
    } else {
        let p = merge_claude(top, env, common.drop_last());
        let e = common.last();
        if e.0 == "env"@ {
            match e.1 {
                JsonV::Obj(sub) => (p.0, merge_env(p.1, sub)),
                _ => p,
            }
        } else {
            (entries_set(p.0, e.0, e.1), p.1)
        }
    }
}

/// The first client kind's settings in Proxy mode: the placeholder `env`, with
/// the caller's common configuration merged in (its credential fields
/// ignored; a common value that is not an object is ignored whole).
pub open spec fn claude_proxy_settings_model(common: Option<JsonV>) -> JsonV {
    let top0 = seq![("env"@, JsonV::Obj(claude_env_base()))];
    match common {
        Some(JsonV::Obj(c)) => {
            let p = merge_claude(top0, claude_env_base(), c);
            JsonV::Obj(entries_set(p.0, "env"@, JsonV::Obj(p.1)))
        },
        _ => JsonV::Obj(top0),
    }
}

/// The Codex client's auth file in Proxy mode: only the placeholder key.
pub open spec fn codex_auth_model() -> JsonV {
    JsonV::Obj(seq![("OPENAI_API_KEY"@, JsonV::Str(proxy_token()))])
}

/// The Codex client's configuration text in Proxy mode: a fixed template
/// around the proxy address, followed by the caller's common text when it is
/// non-empty.
pub open spec fn codex_config_model(common: Option<Seq<char>>) -> Seq<char> {
    let head = "model_provider = \"ccswitch\"\n\n[model_providers.ccswitch]\nbase_url = \""@
        + proxy_url()
        + "\"\nname = \"ccswitch\"\nrequires_openai_auth = true\nwire_api = \"responses\"\n"@;
    match common {
        Some(c) => if c.len() == 0 {
            head
        } else {
            head + "\n"@ + c
        },
        None => head,
    }
}

/// Merging common `env` entries never touches the two placeholder
/// credential entries.
pub proof fn lemma_merge_env_keeps_placeholders(
    env: Seq<(Seq<char>, JsonV)>,
    add: Seq<(Seq<char>, JsonV)>,
)
    ensures
        entries_lookup(merge_env(env, add), "ANTHROPIC_AUTH_TOKEN"@) == entries_lookup(
            env,
            "ANTHROPIC_AUTH_TOKEN"@,
        ),
        entries_lookup(merge_env(env, add), "ANTHROPIC_BASE_URL"@) == entries_lookup(
            env,
            "ANTHROPIC_BASE_URL"@,
        ),
    decreases add.len(),
{
    if add.len() > 0 {
        lemma_merge_env_keeps_placeholders(env, add.drop_last());
        let e = add.last();
        if !(e.0 == "ANTHROPIC_AUTH_TOKEN"@ || e.0 == "ANTHROPIC_BASE_URL"@) {
            lemma_set_then_lookup(merge_env(env, add.drop_last()), e.0, e.1);
        }
    }
}

/// The `env` component of the Proxy-mode merge still answers the two
/// credential lookups exactly as the starting `env` does.
proof fn lemma_merge_claude_env_component(
    top: Seq<(Seq<char>, JsonV)>,
    env: Seq<(Seq<char>, JsonV)>,
    common: Seq<(Seq<char>, JsonV)>,
)
    ensures
        entries_lookup(merge_claude(top, env, common).1, "ANTHROPIC_AUTH_TOKEN"@)
            == entries_lookup(env, "ANTHROPIC_AUTH_TOKEN"@),
        entries_lookup(merge_claude(top, env, common).1, "ANTHROPIC_BASE_URL"@) == entries_lookup(
            env,
            "ANTHROPIC_BASE_URL"@,
        ),
    decreases common.len(),
{
    if common.len() > 0 {
        lemma_merge_claude_env_component(top, env, common.drop_last());
        let p = merge_claude(top, env, common.drop_last());
        let e = common.last();
        if e.0 == "env"@ {
            match e.1 {
                JsonV::Obj(sub) => {
                    lemma_merge_env_keeps_placeholders(p.1, sub);
                },
                _ => {},
            }
        }
    }
}

/// Whatever common configuration the caller merges in, the Proxy-mode
/// settings' `env` still binds the two credential fields to the placeholder
/// pair: the fixed proxy token and the local proxy address.
pub proof fn lemma_proxy_placeholders_survive(common: Option<JsonV>)
    ensures
        ({
            let env = obj_get(claude_proxy_settings_model(common), "env"@);
            &&& env is Some
            &&& get_str(env->0, "ANTHROPIC_AUTH_TOKEN"@) == Some(proxy_token())
            &&& get_str(env->0, "ANTHROPIC_BASE_URL"@) == Some(proxy_url())
        }),
{
    reveal_strlit("ANTHROPIC_AUTH_TOKEN");
    reveal_strlit("ANTHROPIC_BASE_URL");
    reveal_strlit("env");
    let env0 = claude_env_base();
    let top0 = seq![("env"@, JsonV::Obj(env0))];
    assert("ANTHROPIC_AUTH_TOKEN"@.len() == 20);
    assert("ANTHROPIC_BASE_URL"@.len() == 18);
    assert(env0[0].0 == "ANTHROPIC_AUTH_TOKEN"@);
    assert(env0[0].0 != "ANTHROPIC_BASE_URL"@);
    let tail = env0.subrange(1, 2);
    assert(tail =~= seq![("ANTHROPIC_BASE_URL"@, JsonV::Str(proxy_url()))]);
    assert(entries_lookup(env0, "ANTHROPIC_AUTH_TOKEN"@) == Some(JsonV::Str(proxy_token())));
    assert(entries_lookup(env0, "ANTHROPIC_BASE_URL"@) == entries_lookup(
        tail,
        "ANTHROPIC_BASE_URL"@,
    ));
    assert(entries_lookup(tail, "ANTHROPIC_BASE_URL"@) == Some(JsonV::Str(proxy_url())));
    match common {
        Some(c) => match c {
            JsonV::Obj(ce) => {
                let p = merge_claude(top0, env0, ce);
                lemma_merge_claude_env_component(top0, env0, ce);
                lemma_set_then_lookup(p.0, "env"@, JsonV::Obj(p.1));
            },
            _ => {},
        },
        None => {},
    }
}

/// The placeholder `env` entries as a value.
fn build_claude_env() -> (r: Vec<(String, JsonValue)>)
    ensures
        jv_entries(r@) =~= claude_env_base(),
{
    let mut env: Vec<(String, JsonValue)> = Vec::new();
    env.push(
        (
            String::from_str("ANTHROPIC_AUTH_TOKEN"),
            JsonValue::Str(String::from_str("ccswitch-proxymode-token")),
        ),
    );
    env.push(
        (
            String::from_str("ANTHROPIC_BASE_URL"),
            JsonValue::Str(String::from_str("http://127.0.0.1:12857")),
        ),
    );
    proof {
        lemma_jv_entries(env@);
    }
    env
}

/// The first client kind's Proxy-mode settings, as `claude_proxy_settings_model`
/// describes them.
#[verifier::loop_isolation(false)]
#[verifier::rlimit(50)]
pub fn claude_proxy_settings(common: Option<&JsonValue>) -> (r: JsonValue)
    ensures
        r@ == claude_proxy_settings_model(
            match common {
                Some(c) => Some(c@),
                None => None,
            },
        ),
{
    let mut env = build_claude_env();
    let env_in_top = build_claude_env();
    let mut top: Vec<(String, JsonValue)> = Vec::new();
    top.push((String::from_str("env"), JsonValue::Obj(env_in_top)));
    let ghost top0 = seq![("env"@, JsonV::Obj(claude_env_base()))];
    proof {
        lemma_jv_entries(top@);
        assert(jv_entries(top@) =~= top0);
    }
    let ghost env0 = claude_env_base();
    match common {
        Some(c) => {
            match c {
                JsonValue::Obj(centries) => {
                    proof {
                        lemma_jv_entries(centries@);
                    }
                    let ghost cm = jv_entries(centries@);
                    let mut i: usize = 0;
                    while i < centries.len()
                        invariant
                            i <= centries@.len(),
                            (jv_entries(top@), jv_entries(env@)) == merge_claude(
                                top0,
                                env0,
                                cm.take(i as int),
                            ),
                        decreases centries@.len() - i,
                    {
                        proof {
                            assert(cm.take(i + 1).drop_last() =~= cm.take(i as int));
                            assert(cm.take(i + 1).last() == cm[i as int]);
                        }
                        let is_env = text::str_eq(centries[i].0.as_str(), "env");
                        if is_env {
                            match &centries[i].1 {
                                JsonValue::Obj(sub) => {
                                    proof {
                                        lemma_jv_entries(sub@);
                                        assert(cm[i as int].1 == JsonV::Obj(jv_entries(sub@)));
                                    }
                                    let ghost subm = jv_entries(sub@);
                                    let ghost env_base = jv_entries(env@);
                                    let mut j: usize = 0;
                                    while j < sub.len()
                                        invariant
                                            j <= sub@.len(),
                                            jv_entries(env@) == merge_env(
                                                env_base,
                                                subm.take(j as int),
                                            ),
                                        decreases sub@.len() - j,
                                    {
                                        proof {
                                            assert(subm.take(j + 1).drop_last() =~= subm.take(
                                                j as int,
                                            ));
                                            assert(subm.take(j + 1).last() == subm[j as int]);
                                        }
                                        let skip = text::str_eq(
                                            sub[j].0.as_str(),
                                            "ANTHROPIC_AUTH_TOKEN",
                                        ) || text::str_eq(sub[j].0.as_str(), "ANTHROPIC_BASE_URL");
                                        if !skip {
                                            let k = sub[j].0.clone();
                                            let v = sub[j].1.duplicate();
                                            entries_bind(&mut env, k, v);
                                        }
                                        j += 1;
                                    }
                                    proof {
                                        assert(subm.take(subm.len() as int) =~= subm);
                                    }
                                },
                                _ => {},
                            }
                        } else {
                            let k = centries[i].0.clone();
                            let v = centries[i].1.duplicate();
                            entries_bind(&mut top, k, v);
                        }
                        i += 1;
                    }
                    proof {
                        assert(cm.take(cm.len() as int) =~= cm);
                    }
                    let env_value = JsonValue::Obj(env);
                    entries_bind(&mut top, String::from_str("env"), env_value);
                    JsonValue::Obj(top)
                },
                _ => {
                    JsonValue::Obj(top)
                },
            }
        },
        None => {
            JsonValue::Obj(top)
        },
    }
}

/// The Codex client's Proxy-mode auth value, as `codex_auth_model` says.
pub fn codex_proxy_auth() -> (r: JsonValue)
    ensures
        r@ == codex_auth_model(),
{
    let mut auth: Vec<(String, JsonValue)> = Vec::new();
    auth.push(
        (
            String::from_str("OPENAI_API_KEY"),
            JsonValue::Str(String::from_str("ccswitch-proxymode-token")),
        ),
    );
    proof {
        lemma_jv_entries(auth@);
        assert(jv_entries(auth@) =~= codex_auth_model()->Obj_0);
    }
    JsonValue::Obj(auth)
}

/// The Codex client's Proxy-mode configuration text, as `codex_config_model`
/// says.
pub fn codex_proxy_config_text(common: Option<&str>) -> (r: String)
    ensures
        r@ == codex_config_model(
            match common {
                Some(c) => Some(c@),
                None => None,
            },
        ),
{
    let mut out = String::from_str(
        "model_provider = \"ccswitch\"\n\n[model_providers.ccswitch]\nbase_url = \"",
    );
    out.append("http://127.0.0.1:12857");
    out.append(
        "\"\nname = \"ccswitch\"\nrequires_openai_auth = true\nwire_api = \"responses\"\n",
    );
    match common {
        Some(c) => {
            if c.unicode_len() > 0 {
                out.append("\n");
                out.append(c);
            }
        },
        None => {},
    }
    out
}

/// Everything written to disk when switching to Proxy mode.
pub struct ProxyModeConfig {
    /// The first client kind's settings value.
    pub claude_settings: JsonValue,
    /// The Codex client's auth value.
    pub codex_auth: JsonValue,
    /// The Codex client's configuration text.
    pub codex_config: String,
}

/// The configuration both clients get when switching to Proxy mode: the
/// placeholder credential pair pointing at the local proxy, with each
/// client's common configuration merged in.
pub fn switch_to_proxy_mode(
    claude_common_config: Option<&JsonValue>,
    codex_common_config: Option<&str>,
) -> (r: ProxyModeConfig)
    ensures
        r.claude_settings@ == claude_proxy_settings_model(
            match claude_common_config {
                Some(c) => Some(c@),
                None => None,
            },
        ),
        r.codex_auth@ == codex_auth_model(),
        r.codex_config@ == codex_config_model(
            match codex_common_config {
                Some(c) => Some(c@),
                None => None,
            },
        ),
{
    ProxyModeConfig {
        claude_settings: claude_proxy_settings(claude_common_config),
        codex_auth: codex_proxy_auth(),
        codex_config: codex_proxy_config_text(codex_common_config),
    }
}

/// Position of the first provider in failover order: a minimal provider
/// under `prov_lt`, and with no earlier key-identical one, so the earliest
/// the stable failover sort would yield.
#[verifier::loop_isolation(false)]
pub fn first_provider_index(providers: &Vec<Provider>) -> (r: Option<usize>)
    ensures
        match r {
            Some(m) => (m as int) < providers@.len() && (forall|j: int|
                0 <= j < providers@.len() ==> !prov_lt(providers@[j], providers@[m as int]))
                && (forall|j: int|
                0 <= j < m ==> !same_sort_key(providers@[j], providers@[m as int])),
            None => providers@.len() == 0,
        },
{
    if providers.len() == 0 {
        return None;
    }
    let mut m: usize = 0;
    let mut k: usize = 1;
    while k < providers.len()
        invariant
            m < k <= providers@.len(),
            forall|j: int| 0 <= j < k ==> !prov_lt(providers@[j], providers@[m as int]),
            forall|j: int| 0 <= j < m ==> !same_sort_key(providers@[j], providers@[m as int]),
        decreases providers@.len() - k,
    {
        if crate::routing::comes_before(&providers[k], &providers[m]) {
            proof {
                let pm = providers@[m as int];
                let pk = providers@[k as int];
                assert forall|j: int| 0 <= j < k + 1 implies !prov_lt(providers@[j], pk) by {
                    lemma_provider_order_total(providers@[j], pk, pm);
                }
                assert forall|j: int| 0 <= j < k implies !same_sort_key(providers@[j], pk) by {
                    lemma_provider_order_total(providers@[j], pk, pm);
                }
            }
            m = k;
        }
        k += 1;
    }
    Some(m)
}

/// Why a Direct-mode switch failed for a client kind.
#[derive(Debug, Clone, PartialEq, Eq)]
pub enum ModeError {
    /// The chosen provider's configuration has no `auth` entry.
    MissingAuth,
}

/// What is written back for the Codex client in Direct mode.
#[derive(Debug, PartialEq, Eq)]
pub struct CodexWrite {
    /// The provider's stored `auth` value, verbatim.
    pub auth: JsonValue,
    /// The provider's stored `config` text, when it is a string.
    pub config_text: Option<String>,
}

/// Everything decided when switching to Direct mode. A `None` plan for a
/// kind means nothing is written (no provider to restore); the two kinds
/// succeed or fail independently.
pub struct WriteModePlan {
    pub claude: Option<JsonValue>,
    pub codex: Result<Option<CodexWrite>, ModeError>,
}

/// The provider whose configuration Direct mode restores for one registry:
/// the current one when selected and present; otherwise the first in
/// failover order, which becomes the new current. `None` when the registry
/// is empty, or when the selected id is unknown.
#[verifier::loop_isolation(false)]
fn choose_restore_index(manager: &mut ProviderManager) -> (r: Option<usize>)
    ensures
        final(manager).providers == old(manager).providers,
        old(manager).current@ != ""@ ==> final(manager).current == old(manager).current && (match r {
            Some(i) => (i as int) < old(manager).providers@.len() && old(manager).providers@[i as int].id@ == old(manager).current@,
            None => forall|t: int|
                0 <= t < old(manager).providers@.len() ==> old(manager).providers@[t].id@ != old(manager).current@,
        }),
        old(manager).current@ == ""@ && old(manager).providers@.len() == 0 ==> r is None && final(manager).current == old(manager).current,
        old(manager).current@ == ""@ && old(manager).providers@.len() > 0 ==> (match r {
            Some(i) => (i as int) < old(manager).providers@.len() && (forall|j: int|
                0 <= j < old(manager).providers@.len() ==> !prov_lt(
                    old(manager).providers@[j],
                    old(manager).providers@[i as int],
                )) && (forall|j: int|
                0 <= j < i ==> !same_sort_key(
                    old(manager).providers@[j],
                    old(manager).providers@[i as int],
                )) && final(manager).current@ == old(manager).providers@[i as int].id@,
            None => false,
        }),
{
    proof {
        reveal_strlit("");
    }
    if !manager.current.as_str().is_empty() {
        proof {
            assert(manager.current@ != ""@);
        }
        let cur = manager.current.clone();
        manager.index_of_id(cur.as_str())
    } else {
        proof {
            assert(manager.current@ =~= ""@);
        }
        match first_provider_index(&manager.providers) {
            Some(i) => {
                manager.current = manager.providers[i].id.clone();
                Some(i)
            },
            None => None,
        }
    }
}

/// The Direct-mode write for the first client kind: the restored provider's
/// stored settings, verbatim. Selects and records a provider as
/// `choose_restore_index` says.
pub fn plan_claude_write(manager: &mut ProviderManager) -> (r: Option<JsonValue>)
    ensures
        final(manager).providers == old(manager).providers,
        match r {
            Some(v) => exists|i: int|
                0 <= i < old(manager).providers@.len() && final(manager).current@ == old(manager).providers@[i].id@ && v@ == old(manager).providers@[i].settings_config@,
            None => true,
        },
        old(manager).current@ != ""@ ==> final(manager).current == old(manager).current && (match r {
            Some(v) => exists|i: int|
                0 <= i < old(manager).providers@.len() && old(manager).providers@[i].id@ == old(manager).current@ && v@ == old(manager).providers@[i].settings_config@,
            None => forall|t: int|
                0 <= t < old(manager).providers@.len() ==> old(manager).providers@[t].id@ != old(manager).current@,
        }),
        old(manager).current@ == ""@ && old(manager).providers@.len() == 0 ==> r is None,
        old(manager).current@ == ""@ && old(manager).providers@.len() > 0 ==> (match r {
            Some(v) => exists|i: int|
                0 <= i < old(manager).providers@.len() && (forall|j: int|
                    0 <= j < old(manager).providers@.len() ==> !prov_lt(
                        old(manager).providers@[j],
                        old(manager).providers@[i],
                    )) && (forall|j: int|
                    0 <= j < i ==> !same_sort_key(
                        old(manager).providers@[j],
                        old(manager).providers@[i],
                    )) && final(manager).current@ == old(manager).providers@[i].id@ && v@ == old(manager).providers@[i].settings_config@,
            None => false,
        }),
{
    match choose_restore_index(manager) {
        Some(i) => Some(manager.providers[i].settings_config.duplicate()),
        None => None,
    }
}

/// The Direct-mode write for the Codex client: the restored provider's
/// stored `auth` value (its absence is a hard error) and its `config` text.
/// Selects and records a provider as `choose_restore_index` says.
pub fn plan_codex_write(manager: &mut ProviderManager) -> (r: Result<Option<CodexWrite>, ModeError>)
    ensures
        final(manager).providers == old(manager).providers,
        match r {
            Ok(Some(w)) => exists|i: int|
                0 <= i < old(manager).providers@.len() && final(manager).current@ == old(manager).providers@[i].id@ && Some(w.auth@) == obj_get(
                    old(manager).providers@[i].settings_config@,
                    "auth"@,
                ) && (match w.config_text {
                    Some(t) => get_str(old(manager).providers@[i].settings_config@, "config"@)
                        == Some(t@),
                    None => get_str(old(manager).providers@[i].settings_config@, "config"@)
                        is None,
                }),
            Ok(None) => true,
            Err(e) => e is MissingAuth && exists|i: int|
                0 <= i < old(manager).providers@.len() && final(manager).current@ == old(manager).providers@[i].id@ && obj_get(
                    old(manager).providers@[i].settings_config@,
                    "auth"@,
                ) is None,
        },
        old(manager).current@ != ""@ ==> final(manager).current == old(manager).current && (match r {
            Ok(Some(_)) => true,
            Ok(None) => forall|t: int|
                0 <= t < old(manager).providers@.len() ==> old(manager).providers@[t].id@ != old(manager).current@,
            Err(_) => true,
        }),
        old(manager).current@ == ""@ && old(manager).providers@.len() == 0 ==> r == Ok::<
            Option<CodexWrite>,
            ModeError,
        >(None),
        old(manager).current@ == ""@ && old(manager).providers@.len() > 0 ==> (match r {
            Ok(Some(_)) => true,
            Ok(None) => false,
            Err(_) => true,
        }) && exists|i: int|
            0 <= i < old(manager).providers@.len() && (forall|j: int|
                0 <= j < old(manager).providers@.len() ==> !prov_lt(
                    old(manager).providers@[j],
                    old(manager).providers@[i],
                )) && (forall|j: int|
                0 <= j < i ==> !same_sort_key(
                    old(manager).providers@[j],
                    old(manager).providers@[i],
                )) && final(manager).current@ == old(manager).providers@[i].id@,
{
    let idx = match choose_restore_index(manager) {
        Some(i) => i,
        None => {
            return Ok(None);
        },
    };
    let auth = match manager.providers[idx].settings_config.get("auth") {
        Some(a) => a.duplicate(),
        None => {
            return Err(ModeError::MissingAuth);
        },
    };
    let config_text = match manager.providers[idx].settings_config.get("config") {
        Some(c) => match c.as_str() {
            Some(s) => Some(s.clone()),
            None => None,
        },
        None => None,
    };
    Ok(Some(CodexWrite { auth, config_text }))
}

/// The Direct-mode switch for both client kinds: each registry restores its
/// current (or first) provider's stored configuration byte for byte; one
/// kind's failure does not affect the other.
pub fn switch_to_write_mode(config: &mut MultiAppConfig) -> (r: WriteModePlan)
    ensures
        final(config).claude.providers == old(config).claude.providers,
        final(config).codex.providers == old(config).codex.providers,
        old(config).claude.current@ != ""@ ==> final(config).claude.current == old(config).claude.current,
        old(config).codex.current@ != ""@ ==> final(config).codex.current == old(config).codex.current,
        match r.claude {
            Some(v) => exists|i: int|
                0 <= i < old(config).claude.providers@.len() && final(config).claude.current@
                    == old(config).claude.providers@[i].id@ && v@ == old(config).claude.providers@[i].settings_config@,
            None => true,
        },
        match r.codex {
            Ok(Some(w)) => exists|i: int|
                0 <= i < old(config).codex.providers@.len() && final(config).codex.current@ == old(config).codex.providers@[i].id@ && Some(w.auth@) == obj_get(
                    old(config).codex.providers@[i].settings_config@,
                    "auth"@,
                ) && (match w.config_text {
                    Some(t) => get_str(
                        old(config).codex.providers@[i].settings_config@,
                        "config"@,
                    ) == Some(t@),
                    None => get_str(
                        old(config).codex.providers@[i].settings_config@,
                        "config"@,
                    ) is None,
                }),
            Ok(None) => true,
            Err(e) => e is MissingAuth && exists|i: int|
                0 <= i < old(config).codex.providers@.len() && final(config).codex.current@ == old(config).codex.providers@[i].id@ && obj_get(
                    old(config).codex.providers@[i].settings_config@,
                    "auth"@,
                ) is None,
        },
        old(config).claude.current@ == ""@ && old(config).claude.providers@.len() > 0 ==> (match r.claude {
            Some(v) => exists|i: int|
                0 <= i < old(config).claude.providers@.len() && (forall|j: int|
                    0 <= j < old(config).claude.providers@.len() ==> !prov_lt(
                        old(config).claude.providers@[j],
                        old(config).claude.providers@[i],
                    )) && (forall|j: int|
                    0 <= j < i ==> !same_sort_key(
                        old(config).claude.providers@[j],
                        old(config).claude.providers@[i],
                    )) && final(config).claude.current@ == old(config).claude.providers@[i].id@
                    && v@ == old(config).claude.providers@[i].settings_config@,
            None => false,
        }),
        old(config).claude.current@ != ""@ && (exists|i: int|
            0 <= i < old(config).claude.providers@.len() && old(config).claude.providers@[i].id@
                == old(config).claude.current@) ==> r.claude is Some,
        old(config).codex.current@ == ""@ && old(config).codex.providers@.len() == 0 ==> r.codex
            == Ok::<Option<CodexWrite>, ModeError>(None),
        old(config).codex.current@ == ""@ && old(config).codex.providers@.len() > 0 ==> (match r.codex {
            Ok(Some(_)) => true,
            Ok(None) => false,
            Err(_) => true,
        }) && exists|i: int|
            0 <= i < old(config).codex.providers@.len() && (forall|j: int|
                0 <= j < old(config).codex.providers@.len() ==> !prov_lt(
                    old(config).codex.providers@[j],
                    old(config).codex.providers@[i],
                )) && (forall|j: int|
                0 <= j < i ==> !same_sort_key(
                    old(config).codex.providers@[j],
                    old(config).codex.providers@[i],
                )) && final(config).codex.current@ == old(config).codex.providers@[i].id@,
        old(config).codex.current@ != ""@ ==> (match r.codex {
            Ok(None) => forall|t: int|
                0 <= t < old(config).codex.providers@.len()
                    ==> old(config).codex.providers@[t].id@ != old(config).codex.current@,
            _ => true,
        }),
{
    let claude = plan_claude_write(&mut config.claude);
    let codex = plan_codex_write(&mut config.codex);
    WriteModePlan { claude, codex }
}

} // verus!
