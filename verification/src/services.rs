//! Data services: cache-tier bookkeeping, freshness of the on-disk cache, the
//! L1 → L2 → API cascade, and the per-domain result records.
pub mod source;
pub mod events;
pub mod items;
pub mod bots;
pub mod db;
pub mod cascade;
pub mod l1;
pub mod traders;
