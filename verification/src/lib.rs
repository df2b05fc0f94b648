//! Search over shortcut files: given a query and what walks of the configured
//! root directories produced, the few shortcuts whose names contain the query.

pub mod laws;
pub mod model;
pub mod search;
pub mod shortcut;
pub mod text;

pub use crate::model::{Entry, SearchResult, WalkItem, ICON_PLACEHOLDER};
pub use crate::search::{search, MAX_RESULTS};
