//! A verified core for a cube-drafting helper: it models the card records
//! fetched page by page from a card-search API, the pagination state machine
//! that accumulates them, the stratified random sampler that builds simulated
//! booster packs, and the CSV export of a sampled pool.

pub mod card;
pub mod export;
pub mod fetch;
pub mod json;
pub mod sample;

pub use card::Card;
pub use card::CardView;
pub use fetch::FetchQuery;
pub use fetch::FetchStatus;
pub use fetch::Fetcher;
pub use fetch::HttpReply;
pub use json::Json;
pub use json::JsonView;
pub use sample::PackSpec;
