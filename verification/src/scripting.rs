//! The script-loading collaborator's interface.

use vstd::prelude::*;

verus! {

/// Resolves a script name to its source text; the embedding host implements
/// this over its script store.
pub trait ScriptLoader {
    /// The source text behind a script name, or nothing when the store does
    /// not know the name.
    fn load_script(&self, name: &str) -> Option<String>;
}

} // verus!
