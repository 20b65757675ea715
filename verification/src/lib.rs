//! Deterministic audiovisual show control: intermediate representation types,
//! lighting (DMX / Art-Net), scsynth OSC messaging with its acknowledgement,
//! health and backend layers, capability routing and authorization, adapter
//! and resource-hub registries, IPC plumbing with causal tracing and runtime
//! resilience, live patch checking, the runtimes' acknowledgements, and run
//! evaluation.

pub mod text;
pub mod dmx;
pub mod artnet;
pub mod fixture_topology;
pub mod ir;
pub mod capability;
pub mod policy;
pub mod osc;
pub mod strmap;
pub mod adapters;
pub mod hub;
pub mod audio;
pub mod ipc;
pub mod cue_translator;
pub mod lighting_backend;
pub mod patch;
pub mod compiler;
pub mod cli;
pub mod causation;
pub mod scsynth_monitor;
pub mod resilience;
pub mod audio_backend;
pub mod evaluation;
pub mod runtimes;
