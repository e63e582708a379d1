//! A deferred-command frame pipeline.
//!
//! Scene routines never talk to the GPU: they push typed intents into
//! command queues, and once per frame the submitter drains those queues,
//! sorts draws by pipeline identity and turns them into a flat list of GPU
//! operations that a device backend replays.  GPU objects are named by
//! integer ids, so pipeline identity is plain integer equality.

pub mod registry;
pub mod resource;
pub mod command;
pub mod submit;
pub mod camera;
pub mod scene;
pub mod schedule;
pub mod frame;
pub mod world;
