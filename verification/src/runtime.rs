//! Single-generation request runtime.
//!
//! The reducers here are the sole authority over request, object and recovery
//! state. They are independent of transport I/O, so every race between a
//! response, a cancellation, a deadline and a disconnect is decided by one
//! function of the state and the event.

pub mod authority_laws;
pub mod authority_model;
pub mod chain;
pub mod cmac_batcher;
pub mod credit_laws;
pub mod crypto_executor;
pub mod deadline;
pub mod delivery_laws;
pub mod durable_recovery;
pub mod early_responses;
pub mod engine;
pub mod error;
pub mod event_authority;
pub mod frames;
pub mod generation_laws;
pub mod generation_model;
pub mod id_set;
pub mod incoming;
pub mod metadata;
pub mod object_state;
pub mod operation;
pub mod owner;
pub mod pending;
pub mod port;
pub mod preparation_order;
pub mod recovery;
pub mod recovery_driver;
pub mod recovery_queue;
pub mod reducer;
pub mod request_laws;
pub mod session_recovery;
pub mod share_recovery;
pub mod signed_chain;
pub mod state;
pub mod task_laws;
pub mod turn;
pub mod wait_list;
pub mod waiters;
pub mod wire;
