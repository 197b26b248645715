//! The monitor protocol: newline-framed JSON objects over the guest's
//! stdio channel.
//!
//! A command is a record with one required field, `execute`; a response
//! is one of three cases keyed by its top-level field: a greeting, a
//! return value, or an error.

use vstd::prelude::*;
use vstd::string::*;
use crate::props::PropMap;

mod receive;
pub use receive::{
    decode_frame, find_newline, lemma_frame_stable, lemma_frame_unique, qmp_error_of,
    receive_step, spec_first_newline, spec_frame_line, spec_qmp_error_message, take_frame,
    FrameOutcome, ReceiveStep,
};
mod send;
pub use send::{SendProgress, SendState};

verus! {

/// The verbs a command may execute.
#[derive(Clone, Copy, Debug, PartialEq, Eq, Structural)]
pub enum Execute {
    QmpCapabilities,
    SystemPowerDown,
}

/// A monitor command: a record whose only required field is `execute`.
#[derive(Clone, Copy, Debug, PartialEq, Eq, Structural)]
pub struct Command {
    pub execute: Execute,
}

impl Command {
    /// The JSON text the command is written as.
    pub open spec fn spec_text(self) -> Seq<char> {
        match self.execute {
            Execute::QmpCapabilities => "{\"execute\":\"qmp_capabilities\"}"@,
            Execute::SystemPowerDown => "{\"execute\":\"system_powerdown\"}"@,
        }
    }

    /// The bytes the command is sent as: its JSON text, no trailing
    /// delimiter.
    pub open spec fn spec_bytes(self) -> Seq<u8> {
        vstd::utf8::encode_utf8(self.spec_text())
    }

    /// Serializes the command.
    pub fn encode(&self) -> (r: Vec<u8>)
        ensures
            r@ == self.spec_bytes(),
    {
        match self.execute {
            Execute::QmpCapabilities => "{\"execute\":\"qmp_capabilities\"}".as_bytes_vec(),
            Execute::SystemPowerDown => "{\"execute\":\"system_powerdown\"}".as_bytes_vec(),
        }
    }
}

/// The emulator version a greeting announces.
#[derive(Clone, Copy, Debug, PartialEq, Eq, Structural)]
pub struct QemuVersion {
    pub major: u64,
    pub minor: u64,
    pub micro: u64,
}

/// The version record of a greeting.
#[derive(Clone, Debug)]
pub struct Version {
    pub qemu: QemuVersion,
    pub package: String,
}

/// The greeting the monitor opens the session with.
#[derive(Clone, Debug)]
pub struct Greeting {
    pub version: Version,
    pub capabilities: Vec<String>,
}

/// A monitor response, keyed by its top-level field: `QMP` opens the
/// session, `return` answers a command, `error` reports a failure.
#[derive(Debug)]
pub enum Response {
    Greeting(Greeting),
    Return(PropMap),
    Error(PropMap),
}

} // verus!
