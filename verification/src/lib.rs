//! Verified decision logic of a rollup's preferred sequencer.
pub mod address;
pub mod batch_policy;
pub mod blobs_cache;
pub mod conditions;
pub mod initialization;
pub mod leadership;
pub mod message_heap;
pub mod metrics;
pub mod nonce_buffer;
pub mod rate_limiter;
pub mod readiness;
pub mod replica;
pub mod roles;
pub mod slots;
pub mod state_update;
pub mod text;
pub mod time;
