//! Verified core of the OneClient launcher: the decisions behind its cluster
//! grid, its content folders, its skin browser and its onboarding, written
//! over plain values so that the user interface and the file system stay in
//! the application around it.

pub mod text;
pub mod grid;
pub mod content_sync;
pub mod relocation;
pub mod create_form;
pub mod skins;
pub mod account;
pub mod player_model;
pub mod fonts;
pub mod instance_card;
