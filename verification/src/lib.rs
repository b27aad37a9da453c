//! A verified core for a dense decoder-only transformer inference engine:
//! strided tensors with checked views, an incremental key/value cache,
//! index arithmetic for grouped-query attention, and the autoregressive
//! generation state machine.

pub mod chat;
pub mod config;
pub mod generate;
pub mod kvcache;
pub mod layout;
pub mod model;
pub mod ops;
pub mod tensor;
