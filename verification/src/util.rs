//! Supporting components of the planning engine: the append-only tree
//! arena with its path walks, and the seen-state caches.

pub mod seen_cache;
pub mod vec_slist;
