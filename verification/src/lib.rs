//! Traversal of a series on a streaming site, and resolution of a playable
//! source for each episode that is wanted.
//!
//! - `url`: the URL grammar of the sites, and the canonical URLs.
//! - `variant`: the language variants and the order in which a site
//!   prefers them.
//! - `existence`: whether an episode was downloaded before.
//! - `links`, `sources`: the hosting platforms of an episode and the order
//!   in which they are tried.
//! - `discovery`: the seasons of a series and the episodes of a season, as
//!   the pages list them.
//! - `request`, `batch`, `episode`, `season`, `scraper`, `protocol`: the
//!   traversal itself. It decides; the caller acts on the browser session
//!   and reports back.
//! - `provision`: decisions in setting up the browser.
//!
//! The modules whose names end in `_laws` state what holds of all inputs.

pub mod batch;
pub mod batch_laws;
pub mod discovery;
pub mod episode;
pub mod episode_laws;
pub mod existence;
pub mod existence_laws;
pub mod links;
pub mod protocol;
pub mod provision;
pub mod request;
pub mod scraper;
pub mod scraper_laws;
pub mod season;
pub mod season_laws;
pub mod sources;
pub mod sources_laws;
pub mod text;
pub mod url;
pub mod url_laws;
pub mod variant;
pub mod variant_laws;
