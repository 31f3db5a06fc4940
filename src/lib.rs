//! Host-side controller core for POD-family amp modellers: the device
//! catalog, the controller store, the MIDI wire codec, the mediator rules
//! that bridge them, port selection and device discovery.

pub mod model;
pub mod config;
pub mod store;
pub mod midi;
pub mod mediator;
pub mod discovery;
pub mod ports;
pub mod util;
pub mod packs;
