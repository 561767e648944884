//! The framework registry shipped with the tool (frameworks, UI toolkits,
//! plugin formats) as plain data.
use vstd::prelude::*;

use crate::text::is_map;

verus! {

/// The registry text bundled with the tool (TOML).
pub const FRAMEWORKS_TOML: &'static str = "";

/// The bundled registry text.
pub fn frameworks_toml() -> (r: &'static str)
    ensures
        r@ == FRAMEWORKS_TOML@,
{
    FRAMEWORKS_TOML
}

/// The registry: id → entry maps (each sorted by id).
#[derive(Debug, Clone)]
pub struct Registry {
    pub frameworks: Vec<(String, RegistryFramework)>,
    pub ui: Vec<(String, RegistryUi)>,
    pub formats: Vec<(String, RegistryFormat)>,
}

#[derive(Debug, Clone)]
pub struct RegistryFramework {
    pub name: String,
    pub homepage: Option<String>,
    pub docs: Option<String>,
    pub skill_source: Option<String>,
    pub migrates_from: Option<String>,
}

#[derive(Debug, Clone)]
pub struct RegistryUi {
    pub name: String,
    pub homepage: Option<String>,
    pub docs: Option<String>,
}

#[derive(Debug, Clone)]
pub struct RegistryFormat {
    pub spec: Option<String>,
    pub changelog: Option<String>,
    pub homepage: Option<String>,
}

impl Registry {
    /// Each of the three maps is sorted by id.
    pub open spec fn wf(&self) -> bool {
        is_map(self.frameworks@) && is_map(self.ui@) && is_map(self.formats@)
    }
}

} // verus!
