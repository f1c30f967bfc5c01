//! In-memory registry of shortened URLs.
//!
//! A record maps a short code to the URL it stands for and counts how often
//! it was resolved. The registry keeps the records, the service functions
//! validate input, build records and shape the listings that are served.

pub mod error;
pub mod generate;
pub mod laws;
pub mod listing;
pub mod model;
pub mod record;
pub mod registry;
pub mod response;
pub mod service;
pub mod sort;
pub mod store;
pub mod tally;
pub mod validate;

pub use error::AppError;
pub use record::{Timestamp, Url};
pub use registry::Registry;
pub use response::{AnalyticsResponse, UrlResponse};
pub use service::AppState;
pub use sort::SortKey;
