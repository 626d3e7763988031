//! The decisions and text behind the app's UI components.
pub mod event_card;
pub mod event_filters;
pub mod events_view;
pub mod filter_chips;
pub mod items_view;
pub mod arcs_view;
pub mod coming_soon;
pub mod trader_view;
pub mod dropdown;
pub mod item_card;
