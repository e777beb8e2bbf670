//! The decisions of the Sliver Touch Bar services, with machine-checked contracts.
use vstd::prelude::*;

pub mod apply_ipc;
pub mod attempt_laws;
pub mod authorization;
pub mod batch_laws;
pub mod bootstrap;
pub mod broker_client;
pub mod broker_connection;
pub mod broker_ipc;
pub mod broker_laws;
pub mod broker_loop;
pub mod broker_server;
pub mod broker_source;
pub mod broker_wire;
pub mod bytes;
pub mod capture_storage;
pub mod cli;
pub mod config;
pub mod config_laws;
pub mod coordinator;
pub mod daemon;
pub mod decimal;
pub mod editor;
pub mod events;
pub mod failures;
pub mod fake_touch_bar;
pub mod fixture;
pub mod fixture_laws;
pub mod fixture_model;
pub mod frame_laws;
pub mod frame_records;
pub mod frame_slots;
pub mod hardware;
pub mod held_input;
pub mod key_laws;
pub mod local_time;
pub mod marker;
pub mod observer;
pub mod ownership_laws;
pub mod path_walk;
pub mod provisioning;
pub mod provisioning_laws;
pub mod record_codec;
pub mod record_laws;
pub mod record_layout;
pub mod recorder_laws;
pub mod selection_laws;
pub mod service_files;
pub mod shared_frames;
pub mod shared_laws;
pub mod startup;
pub mod startup_laws;
pub mod storage_laws;
pub mod strip_laws;
pub mod supervisor;
pub mod text;
pub mod timing;
pub mod wire_laws;

verus! {

/// Width of the panel in pixels.
pub const DISPLAY_WIDTH: usize = 2008;

/// Height of the panel in pixels.
pub const DISPLAY_HEIGHT: usize = 60;

} // verus!
