//! What the application reads of the daemon's configuration: its proxy
//! providers, and where the configuration is looked for.

use crate::locate::plan::{
    config_homes, config_names, config_path_from_env, config_plan, config_system_dirs, opt_located,
    probe_views, push_config_hint, push_known_places, push_scans, words, Environment, Located,
    Probe, ProbeView,
};
use crate::text::{opt_text, texts};
use crate::uri::or_else;
use vstd::prelude::*;

verus! {

/// How a provider checks its proxies.
#[derive(Debug, Clone)]
pub struct HealthCheck {
    pub enable: Option<bool>,
    pub url: Option<String>,
    pub interval: Option<u32>,
}

/// A provider of proxies, as the configuration declares it.
#[derive(Debug, Clone)]
pub struct ClashProxyProvider {
    pub provider_type: String,
    pub url: Option<String>,
    pub path: Option<String>,
    pub interval: Option<u32>,
    pub health_check: Option<HealthCheck>,
}

/// The part of the daemon's configuration that the application reads: the
/// proxy providers, each under its name.
#[derive(Debug, Clone)]
pub struct ClashConfig {
    pub proxy_providers: Vec<(String, ClashProxyProvider)>,
}

/// A provider as the update page lists it: its name, its type, and where
/// its proxies come from.
pub struct ProviderLine {
    pub name: Seq<char>,
    pub provider_type: Seq<char>,
    pub source: Option<Seq<char>>,
}

/// The line of a provider: the source is its address or, without one, its
/// path.
pub open spec fn provider_line(entry: (String, ClashProxyProvider)) -> ProviderLine {
    ProviderLine {
        name: entry.0@,
        provider_type: entry.1.provider_type@,
        source: or_else(opt_text(entry.1.url), opt_text(entry.1.path)),
    }
}

/// The view of a line.
pub open spec fn line_view(line: (String, String, Option<String>)) -> ProviderLine {
    ProviderLine { name: line.0@, provider_type: line.1@, source: opt_text(line.2) }
}

impl ClashConfig {
    /// The probes for the configuration file, in the order they are tried:
    /// the two overrides, the hint, the well-known places, the scans. The
    /// first probe that succeeds gives the path; where none does, there is
    /// no configuration to be found.
    pub fn find_config_with_hint(env: &Environment, hint: &Option<Located>) -> (plan: Vec<Probe>)
        ensures
            probe_views(plan@) == config_plan(env@, opt_located(*hint)),
    {
        let mut plan: Vec<Probe> = Vec::new();
        assert(probe_views(plan@) =~= Seq::<ProbeView>::empty());
        let names = config_names();
        config_path_from_env(&mut plan, &env.config_path);
        config_path_from_env(&mut plan, &env.party_dir);
        push_config_hint(&mut plan, hint);
        let homes = words(
            "Library/Application Support/mihomo-party",
            &[
                "Library/Application Support/Clash Verge/mihomo-party",
                ".config/clash",
                ".config/mihomo",
                ".config/mihomo-party",
                ".config/clash-verge/mihomo-party",
                "AppData/Roaming/mihomo-party",
                "AppData/Roaming/Clash Verge/mihomo-party",
            ],
        );
        assert(texts(homes@) =~= config_homes());
        let system = words("/etc/clash", &[]);
        assert(texts(system@) =~= config_system_dirs());
        push_known_places(&mut plan, &env.home, &homes, &system, &names);
        push_scans(&mut plan, &env.home);
        assert(probe_views(plan@) =~= config_plan(env@, opt_located(*hint)));
        plan
    }

    /// The probes for the configuration file where there is no hint.
    pub fn find_config(env: &Environment) -> (plan: Vec<Probe>)
        ensures
            probe_views(plan@) == config_plan(env@, None),
    {
        ClashConfig::find_config_with_hint(env, &None)
    }

    /// The providers, each with its name, its type and its source, in the
    /// order of the configuration.
    pub fn get_providers(&self) -> (lines: Vec<(String, String, Option<String>)>)
        ensures
            lines@.map_values(|l: (String, String, Option<String>)| line_view(l))
                == self.proxy_providers@.map_values(
                |e: (String, ClashProxyProvider)| provider_line(e),
            ),
    {
        let mut lines: Vec<(String, String, Option<String>)> = Vec::new();
        let mut i: usize = 0;
        while i < self.proxy_providers.len()
            invariant
                i <= self.proxy_providers.len(),
                lines@.len() == i,
                forall|k: int|
                    0 <= k < i ==> line_view(#[trigger] lines@[k]) == provider_line(
                        self.proxy_providers@[k],
                    ),
            decreases self.proxy_providers.len() - i,
        {
            let entry = &self.proxy_providers[i];
            let source = match &entry.1.url {
                Some(url) => Some(url.clone()),
                None => match &entry.1.path {
                    Some(path) => Some(path.clone()),
                    None => None,
                },
            };
            lines.push((entry.0.clone(), entry.1.provider_type.clone(), source));
            i += 1;
        }
        assert(lines@.map_values(|l: (String, String, Option<String>)| line_view(l))
            =~= self.proxy_providers@.map_values(
            |e: (String, ClashProxyProvider)| provider_line(e),
        ));
        lines
    }
}

} // verus!
