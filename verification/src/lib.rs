//! Verified core of a daemon-plus-client manager for emulated machine guests.
//!
//! A guest is declared as a typed configuration document; the daemon persists
//! it, derives the emulator command line from it, and controls the running
//! guest over a newline-framed JSON monitor protocol.  This crate holds the
//! logic of that system — configuration rendering, the monitor codec, the
//! store and orchestrator state machines, the control-plane routing rules —
//! with machine-checked contracts.  Process, socket and database plumbing
//! lives outside, handing plain values in and out.

use vstd::prelude::*;

mod client;
mod config;
mod daemon;
mod de;
mod error;
mod file;
mod guest;
mod json;
mod orchestrator;
mod props;
mod qmp;
mod render;
mod storage;
mod terminal;

pub use config::{
    default_display, local, BootConfig, CommandPlan, DeviceConfig, DriveConfig,
    FilesystemDeviceConfig, GuestConfig, MachineConfig, NetworkDeviceConfig, SecurityModel,
    SmpConfig,
};
pub use error::{decode_status, spec_status_code, sqlite_error, Error, ErrorKind};
pub use file::{File, MessageDigest};
pub use guest::{Guest, HandshakePhase, HandshakeStep, ShutdownWait, Status};
pub use orchestrator::Orchestrator;
pub use props::PropMap;
pub use qmp::{
    decode_frame, find_newline, qmp_error_of, receive_step, take_frame, Command, Execute,
    FrameOutcome, Greeting, QemuVersion, ReceiveStep, Response, SendProgress, SendState, Version,
};
pub use client::{ClientConfig, Connection, NeedsEndpoint, ReadyToSend, RequestBuilder, UrlParts};
pub use daemon::{
    default_storage_uri, env_override, health_text, listen_plan, match_route, parse_id,
    ListenPlan, Route,
};
pub use de::percent_decode;
pub use json::{
    labeled_from_json, labeled_to_json, listing_to_json, obj_get, JsonValue, JsonView,
};
pub use storage::{ConfigStorage, Labeled, StoredGuest};
pub use terminal::{terminal_step, Key, TerminalStep};

verus! {

} // verus!
