use vstd::prelude::*;
use crate::config::Config;
use crate::storage::Storage;

verus! {

/// One node: its settings and the one store that both listeners share.
pub struct SynkNode {
    pub config: Config,
    pub storage: Storage,
}

impl SynkNode {
    /// A node over the given settings and store.
    pub fn new(config: Config, storage: Storage) -> (r: SynkNode)
        ensures
            r.config == config,
            r.storage == storage,
    {
        SynkNode { config, storage }
    }
}

} // verus!
