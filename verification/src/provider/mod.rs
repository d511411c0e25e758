//! What the music provider offers, and how its responses become the player's
//! own values.

pub mod chart_laws;
pub mod charts;
pub mod item_laws;
pub mod message_laws;
pub mod model;
pub mod queries;
pub mod result_laws;
pub mod row_laws;
pub mod ytmusic;
