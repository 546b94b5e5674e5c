//! Passive data entities: providers, their registries, and the usage-query
//! data shapes.

use vstd::prelude::*;
use crate::json::JsonValue;

verus! {

/// The two downstream client kinds.
#[derive(Clone, Copy, PartialEq, Eq, Structural, Debug)]
pub enum AppType {
    Claude,
    Codex,
}

/// Configuration of a user-authored usage-query script.
#[derive(Debug, Clone, PartialEq, Eq)]
pub struct UsageScript {
    pub enabled: bool,
    pub language: String,
    pub code: String,
    /// Timeout in seconds; the caller applies a default when absent.
    pub timeout: Option<u64>,
}

/// One usage figure extracted by a usage script. Every field is optional;
/// the numeric fields carry the number's decimal text.
#[derive(Debug, Clone, PartialEq, Eq)]
pub struct UsageData {
    pub plan_name: Option<String>,
    pub extra: Option<String>,
    pub is_valid: Option<bool>,
    pub invalid_message: Option<String>,
    pub total: Option<String>,
    pub used: Option<String>,
    pub remaining: Option<String>,
    pub unit: Option<String>,
}

/// Outcome of one usage-script invocation.
#[derive(Debug, Clone, PartialEq, Eq)]
pub struct UsageResult {
    pub success: bool,
    pub data: Option<Vec<UsageData>>,
    pub error: Option<String>,
}

/// Provider metadata kept outside the live client configuration: custom
/// endpoint URLs and an optional usage script.
#[derive(Debug, Clone, PartialEq, Eq)]
pub struct ProviderMeta {
    pub custom_endpoints: Vec<String>,
    pub usage_script: Option<UsageScript>,
}

/// A named, user-configured credential profile for one client kind.
#[derive(Debug, PartialEq, Eq)]
pub struct Provider {
    pub id: String,
    pub name: String,
    pub settings_config: JsonValue,
    pub website_url: Option<String>,
    pub category: Option<String>,
    pub created_at: Option<i64>,
    pub sort_index: Option<usize>,
    pub proxy_enabled: Option<bool>,
    pub meta: Option<ProviderMeta>,
}

impl Provider {
    /// A provider built around an existing id; ordering keys, flags and
    /// metadata start unset.
    pub fn with_id(
        id: String,
        name: String,
        settings_config: JsonValue,
        website_url: Option<String>,
    ) -> (r: Provider)
        ensures
            r.id == id,
            r.name == name,
            r.settings_config == settings_config,
            r.website_url == website_url,
            r.category is None,
            r.created_at is None,
            r.sort_index is None,
            r.proxy_enabled is None,
            r.meta is None,
    {
        Provider {
            id,
            name,
            settings_config,
            website_url,
            category: None,
            created_at: None,
            sort_index: None,
            proxy_enabled: None,
            meta: None,
        }
    }
}

/// One client kind's provider registry: the providers and the id of the
/// currently selected one (empty string: none selected).
#[derive(Debug, PartialEq, Eq)]
pub struct ProviderManager {
    pub providers: Vec<Provider>,
    pub current: String,
}

impl ProviderManager {
    /// Registry well-formedness: provider ids are unique.
    pub open spec fn wf(&self) -> bool {
        forall|i: int, j: int|
            0 <= i < j < self.providers@.len() ==> self.providers@[i].id@ != self.providers@[j].id@
    }

    /// All providers of this registry.
    pub fn get_all_providers(&self) -> (r: &Vec<Provider>)
        ensures
            r == &self.providers,
    {
        &self.providers
    }

    /// Position of the provider with the given id, if present.
    pub fn index_of_id(&self, id: &str) -> (r: Option<usize>)
        ensures
            match r {
                Some(i) => i < self.providers@.len() && self.providers@[i as int].id@ == id@,
                None => forall|t: int|
                    0 <= t < self.providers@.len() ==> self.providers@[t].id@ != id@,
            },
    {
        let mut i: usize = 0;
        while i < self.providers.len()
            invariant
                i <= self.providers@.len(),
                forall|t: int| 0 <= t < i ==> self.providers@[t].id@ != id@,
            decreases self.providers@.len() - i,
        {
            if crate::text::str_eq(self.providers[i].id.as_str(), id) {
                return Some(i);
            }
            i += 1;
        }
        None
    }
}

/// The provider registries of both client kinds.
#[derive(Debug, PartialEq, Eq)]
pub struct MultiAppConfig {
    pub claude: ProviderManager,
    pub codex: ProviderManager,
}

impl MultiAppConfig {
    /// The registry for one client kind.
    pub fn get_manager(&self, app_type: AppType) -> (r: &ProviderManager)
        ensures
            app_type is Claude ==> r == &self.claude,
            app_type is Codex ==> r == &self.codex,
    {
        match app_type {
            AppType::Claude => &self.claude,
            AppType::Codex => &self.codex,
        }
    }
}

} // verus!
