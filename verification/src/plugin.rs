//! The host application's plugin registry.

use vstd::prelude::*;

verus! {

/// Declares `anyhow::Error`, the error type plugin lifecycle hooks report;
/// the library only passes such values through, never inspecting them.
#[verifier::external_type_specification]
#[verifier::external_body]
pub struct ExAnyhowError(anyhow::Error);

/// A pluggable component: named and versioned, with lifecycle hooks that the
/// host runs at startup and shutdown. Implementations are supplied by the
/// host application.
pub trait Plugin: Send + Sync {
    fn name(&self) -> (r: &str);

    fn version(&self) -> (r: &str);

    fn initialize(&self) -> (r: Result<(), anyhow::Error>);

    fn shutdown(&self) -> (r: Result<(), anyhow::Error>);
}

/// The registry of plugins, in registration order.
pub struct PluginManager {
    plugins: Vec<Box<dyn Plugin>>,
}

impl PluginManager {
    /// An empty registry.
    pub fn new() -> (m: Self) {
        PluginManager { plugins: Vec::new() }
    }

    /// Registers one more plugin.
    pub fn register(&mut self, plugin: Box<dyn Plugin>) {
        self.plugins.push(plugin);
    }

    /// Initializes every plugin in registration order, stopping at the first
    /// failure.
    pub fn initialize_all(&self) -> Result<(), anyhow::Error> {
        let mut i: usize = 0;
        while i < self.plugins.len()
            decreases self.plugins@.len() - i,
        {
            match self.plugins[i].initialize() {
                Ok(()) => {},
                Err(e) => {
                    return Err(e);
                },
            }
            i += 1;
        }
        Ok(())
    }

    /// Shuts every plugin down in registration order, stopping at the first
    /// failure.
    pub fn shutdown_all(&self) -> Result<(), anyhow::Error> {
        let mut i: usize = 0;
        while i < self.plugins.len()
            decreases self.plugins@.len() - i,
        {
            match self.plugins[i].shutdown() {
                Ok(()) => {},
                Err(e) => {
                    return Err(e);
                },
            }
            i += 1;
        }
        Ok(())
    }

    /// Finds the first registered plugin carrying `name`.
    pub fn get_plugin<'a>(&'a self, name: &str) -> Option<&'a Box<dyn Plugin>> {
        let mut i: usize = 0;
        while i < self.plugins.len()
            decreases self.plugins@.len() - i,
        {
            if crate::text::str_eq(self.plugins[i].name(), name) {
                return Some(&self.plugins[i]);
            }
            i += 1;
        }
        None
    }
}

} // verus!
