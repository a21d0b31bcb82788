//! Rollback-safe grab interaction and frame bookkeeping for a lockstep
//! multiplayer physics playground.
//!
//! All simulation quantities are integers in fixed point, so that every peer
//! and every replay computes bit-identical values.
pub mod geom;
pub mod input;
pub mod world;
pub mod grabber_2d;
pub mod step;
pub mod physics;
pub mod scene;
pub mod frame_store;
pub mod checksum;
pub mod session;
pub mod laws;
pub mod lobby;

