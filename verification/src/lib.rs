pub mod text;
pub mod markdown;
pub mod api;
pub mod app;
pub mod layout;
pub mod events;
pub mod images;
pub mod cards;
pub mod queries;
