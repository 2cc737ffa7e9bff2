//! Verified core of a stock screening and data-refresh toolkit.

pub mod text;
pub mod schema;
pub mod edgar;
pub mod cik;
pub mod fetcher;
pub mod graham;
pub mod api;
pub mod refresh;
pub mod stocks;
pub mod fetching;
pub mod initialization;
pub mod extraction;
pub mod query;
pub mod piotroski;
pub mod oshaughnessy;
pub mod ttm;
pub mod filings;
pub mod dates;
pub mod analysis;
pub mod download;
