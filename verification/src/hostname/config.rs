//! Settings of the hostname registry.
use vstd::prelude::*;
use crate::config::runtime::said_text_or;
use crate::config::settings::LandscapeHostnameRegistryConfig;

verus! {

#[derive(Debug, PartialEq, Eq)]
pub struct HostnameRegistryConfig {
    /// The domain under which local hosts have their names.
    pub lan_suffix: String,
}

impl Default for HostnameRegistryConfig {
    fn default() -> (r: Self)
        ensures
            r.lan_suffix@ == "lan"@,
    {
        HostnameRegistryConfig { lan_suffix: "lan".to_owned() }
    }
}

impl HostnameRegistryConfig {
    pub fn update_from_file_config(&mut self, config: &LandscapeHostnameRegistryConfig)
        ensures
            final(self).lan_suffix@ == said_text_or(config.lan_suffix, old(self).lan_suffix@),
    {
        if let Some(v) = &config.lan_suffix {
            self.lan_suffix = v.clone();
        }
    }
}

} // verus!
