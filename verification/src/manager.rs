//! The holder of the configuration that the whole program shares.

use vstd::prelude::*;
use crate::config::{ConfigView, FileSearchConfig};

verus! {

/// Holds one configuration. The first initialization counts; later ones
/// change nothing. An update always counts.
#[derive(Debug)]
pub struct ConfigManager {
    config: FileSearchConfig,
    initialized: bool,
}

impl ConfigManager {
/// The configuration held.
    pub closed spec fn config(&self) -> ConfigView {
        self.config@
    }

/// Whether a configuration was taken.
    pub closed spec fn initialized(&self) -> bool {
        self.initialized
    }

    /// A holder with the default configuration, not yet initialized.
    pub fn new() -> (m: ConfigManager)
        ensures
            m.config() == ConfigView::defaults(),
            !m.initialized(),
    {
        ConfigManager { config: FileSearchConfig::new(), initialized: false }
    }

    /// Takes `config` as the shared configuration, unless one was taken
    /// before.
    pub fn initialize(&mut self, config: FileSearchConfig)
        ensures
            final(self).initialized(),
            final(self).config() == if old(self).initialized() {
                old(self).config()
            } else {
                config@
            },
    {
        if !self.initialized {
            self.config = config;
            self.initialized = true;
        }
    }

    /// A copy of the shared configuration.
    pub fn get_config(&self) -> (c: FileSearchConfig)
        ensures
            c@ == self.config(),
    {
        self.config.duplicate()
    }

    /// Replaces the shared configuration.
    pub fn update_config(&mut self, config: FileSearchConfig)
        ensures
            final(self).config() == config@,
            final(self).initialized() == old(self).initialized(),
    {
        self.config = config;
    }

/// Whether a configuration was taken.
    pub fn is_initialized(&self) -> (r: bool)
        ensures
            r == self.initialized(),
    {
        self.initialized
    }
}

} // verus!
