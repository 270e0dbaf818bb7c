//! Verified core of a DDNet game client.
//!
//! - Buffered maps: the visual records of tile and quad layers
//!   (`tile_visual`), the quads and texture coordinates of tiles
//!   (`tile_geometry`), the preparation of a tile layer's upload
//!   (`tile_layer`), of a quad layer's (`quad_layer`), the plan of a map
//!   upload (`upload_plan`) and the byte interleaving of vertex records
//!   (`upload_bytes`).
//! - Drawing maps: visible ranges, border and kill-tile draws, which layers
//!   are drawn (`map_render`), the walk over the map's groups with the
//!   visual each draw uses (`render_plan`), quad batches (`quad_layer`),
//!   and tile maps drawn without buffers (`render_tools`).
//! - Timing and network: ping and frame-time windows
//!   (`prediction_timing`, `prediction_timing2`), snapshot
//!   acknowledgement (`snapshot_history`), input sending (`net_input`), the
//!   frame limiter (`frame_timing`), the phases of a game session
//!   (`game_phase`), its network events (`game_events`), its local
//!   players (`game_data`), the loading of its map (`map_loading`) and what
//!   the binds and hotkeys do (`input_binds`).
//! - Assets: PNG images (`png_image`), asset paths and loaders
//!   (`asset_loading`), hashed asset names (`asset_index`) and the usage
//!   bookkeeping of asset containers (`container`).
//! - Plain state of components and pages.

pub mod asset_index;
pub mod asset_loading;
pub mod client_stats;
pub mod container;
pub mod debug_hud;
pub mod frame_timing;
pub mod game;
pub mod game_data;
pub mod game_events;
pub mod game_phase;
pub mod input_binds;
pub mod laws;
pub mod map_loading;
pub mod map_render;
pub mod net_input;
pub mod network_logic;
pub mod particles;
pub mod png_image;
pub mod prediction_timing;
pub mod prediction_timing2;
pub mod quad_layer;
pub mod render_pipe;
pub mod render_plan;
pub mod render_tools;
pub mod skin_parts;
pub mod snapshot_history;
pub mod tee_editor;
pub mod tile_geometry;
pub mod tile_layer;
pub mod tile_visual;
pub mod ui_pages;
pub mod upload_bytes;
pub mod upload_plan;
