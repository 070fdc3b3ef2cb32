//! Core of an RGB-D stream multiplexer: a registry of prioritised input
//! channels, a clock model, the per-cycle synchronisation rules and the
//! construction of composite records, all stated over plain values.
pub mod channel;
pub mod clock;
pub mod laws;
pub mod mux;
pub mod negotiation;
pub mod record;
pub mod stream;
pub mod sync;
pub mod text;


