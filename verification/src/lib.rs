//! A status cache for a fleet of worker nodes.
//!
//! A background refresh cycle fetches the node list from a cluster API,
//! reconciles duplicate records for a hostname down to the most recently
//! created one, and installs the result into a shared cache as one atomic
//! snapshot. Readers look a hostname up and classify its status for
//! presentation. A failed cycle leaves the previous snapshot untouched.

pub mod cache;
mod clock;
pub mod errors;
pub mod query;
pub mod reconcile;
pub mod record;
pub mod status_map;

pub use cache::StatusCache;
pub use errors::RefreshError;
pub use query::{StatusBadge, StatusClass};
pub use record::NodeRecord;
pub use status_map::{StatusEntry, StatusMap};
