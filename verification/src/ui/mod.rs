//! The terminal interface: what is shown and how input is understood.

pub mod animation;
pub mod artwork;
pub mod bars;
pub mod bars_laws;
pub mod cell_laws;
pub mod cells;
pub mod flow_laws;
pub mod input;
pub mod input_laws;
pub mod interaction;
pub mod layout;
pub mod line;
pub mod lyrics_laws;
pub mod lyrics_panel;
pub mod memory;
pub mod model;
pub mod model_laws;
pub mod motion;
pub mod motion_laws;
pub mod palette;
pub mod player;
pub mod player_laws;
pub mod render;
pub mod render_laws;
pub mod rows;
pub mod scene;
pub mod scene_laws;
pub mod shade_laws;
pub mod spectrum;
pub mod state;
pub mod stream_laws;
pub mod theme;
pub mod tiny_laws;
pub mod view_laws;
pub mod viewport;
pub mod views;
