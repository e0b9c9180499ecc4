//! Control logic of a light-installation animation tool: MIDI controller
//! decoding and learning, OSC address parsing, ring buffers for signal
//! averaging and the small state machines around them.

pub mod pair_table;
pub mod ring_buffer;
pub mod midi;
pub mod text;
pub mod scene;
pub mod ui_action;
pub mod ids;
pub mod osc;
pub mod network_stats;
pub mod pipeline;
pub mod project;
pub mod adsr;
pub mod audio;
pub mod positions;
pub mod input;
pub mod external_control;
pub mod opts;
pub mod output_routings;
pub mod output_merge;
pub mod niri;
pub mod artnet_input;
