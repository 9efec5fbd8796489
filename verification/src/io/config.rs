//! Implements the filtering of the settings that the config file gives.
use vstd::prelude::*;

verus! {

/// Signifies a configuration.
#[derive(Clone, Copy, Debug, PartialEq, Eq, Structural)]
pub enum Setting {
    /// If the document shall wrap long text.
    Wrap(bool),
}

/// If all documents shall wrap long text.
#[derive(Clone, Copy, Debug, PartialEq, Eq, Structural)]
pub struct Wrap(pub bool);

impl Default for Wrap {
    fn default() -> (result: Self)
        ensures
            result == Wrap(false),
    {
        Self(false)
    }
}

/// The configuration of the application.
#[derive(Clone, Copy, Debug, PartialEq, Eq, Structural)]
pub struct Configuration {
    /// If documents shall wrap.
    pub wrap: Wrap,
}

impl Default for Configuration {
    fn default() -> (result: Self)
        ensures
            result == (Configuration { wrap: Wrap(false) }),
    {
        Self { wrap: Wrap::default() }
    }
}

impl Configuration {
    /// Returns the settings that `self` gives.
    pub fn settings(&self) -> (result: Vec<Setting>)
        ensures
            result@ == seq![Setting::Wrap(self.wrap.0)],
    {
        let mut settings = Vec::new();
        settings.push(Setting::Wrap(self.wrap.0));
        settings
    }
}

/// Filters out settings that already match the current configuration, which each setting
/// then updates.
#[derive(Debug)]
pub struct SettingDeduplicator {
    /// The current configuration.
    pub config: Configuration,
}

/// If `setting` matches `config`.
pub open spec fn matches_config(setting: Setting, config: Configuration) -> bool {
    match setting {
        Setting::Wrap(wrap) => wrap == config.wrap.0,
    }
}

/// The configuration `config` with `setting` applied.
pub open spec fn applied(config: Configuration, setting: Setting) -> Configuration {
    match setting {
        Setting::Wrap(wrap) => Configuration { wrap: Wrap(wrap), ..config },
    }
}

impl SettingDeduplicator {
    /// Creates a new [`SettingDeduplicator`] from the configuration that was read from the
    /// config file, or from the default configuration where none could be read.
    pub fn new(config: Option<Configuration>) -> (result: Self)
        ensures
            result.config == match config {
                Some(read) => read,
                None => Configuration { wrap: Wrap(false) },
            },
    {
        Self {
            config: match config {
                Some(read) => read,
                None => Configuration::default(),
            },
        }
    }

    /// Returns if `good` is allowed through: only a setting that differs from the current
    /// configuration is; then makes `good` part of the current configuration.
    pub fn allows(&mut self, good: &Setting) -> (result: bool)
        ensures
            result == !matches_config(*good, old(self).config),
            final(self).config == applied(old(self).config, *good),
    {
        let config = self.config;
        let mut new_config = config;
        let result;
        match good {
            Setting::Wrap(wrap) => {
                result = *wrap != config.wrap.0;
                new_config.wrap.0 = *wrap;
            },
        }
        self.config = new_config;
        result
    }
}

/// After a setting is inspected, the same setting again matches the configuration, so that it
/// is filtered out when it comes again.
pub proof fn lemma_setting_matches_after_inspection(config: Configuration, setting: Setting)
    ensures
        matches_config(setting, applied(config, setting)),
{
}

/// Inspecting a setting that matches the configuration leaves the configuration as it is.
pub proof fn lemma_matching_setting_keeps_config(config: Configuration, setting: Setting)
    requires
        matches_config(setting, config),
    ensures
        applied(config, setting) == config,
{
}

} // verus!
