//! oxurack: modular MIDI generation with a Eurorack mental model.
//!
//! The library holds the verified core of the rack: the MIDI message
//! formats, port and merge rules, scales and quantisers, patch-graph
//! validation and tick ordering, the clock arithmetic of the real-time
//! thread, and the building blocks of the Turing Machine module.

pub mod midi;
pub mod port;
pub mod scale;
pub mod graph;
pub mod names;
pub mod text;
pub mod error;
pub mod module;
pub mod patch;
pub mod tick;
pub mod propagation;
pub mod cable_index;
pub mod clock_divider;
pub mod length;
pub mod shift_register;
pub mod quantizer;
pub mod turing;
pub mod turing_midi;
pub mod rt;
pub mod ports;
pub mod event;
