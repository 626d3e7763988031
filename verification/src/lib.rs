//! Verified core of the Arc Raiders companion app: cache-tier bookkeeping,
//! freshness rules, list filtering/sorting and the text shown on the cards.
pub mod text;
pub mod sorting;
pub mod services;
pub mod components;
pub mod state;
