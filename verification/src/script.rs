//! The script engine's verifiable core: the engine and the context it
//! hands each script run. Binding the engine to an embedded interpreter
//! is I/O-side work that lives outside the library.

use vstd::prelude::*;

use crate::emerald::Emerald;

verus! {

/// A factory for script execution instances.
#[derive(Debug)]
pub struct ScriptEngine {}

impl ScriptEngine {
    /// Create a new script engine.
    pub fn new() -> (r: Self)
        ensures
            r == (ScriptEngine {  }),
    {
        ScriptEngine {  }
    }
}

impl Default for ScriptEngine {
    fn default() -> (r: Self)
        ensures
            r == (ScriptEngine {  }),
    {
        ScriptEngine {  }
    }
}

/// What one script instance runs against: the vault it may read.
#[derive(Debug)]
pub struct Context {
    pub emerald: Emerald,
}

impl Context {
    /// Bind a context to a vault.
    pub fn new(emerald: &Emerald) -> (r: Self)
        ensures
            r.emerald.spec_root() == emerald.spec_root(),
    {
        Context { emerald: emerald.clone() }
    }
}

} // verus!
