//! A message relay between a sandboxed compute unit and its host.
//!
//! The compute unit has no sockets: the host writes frames to its inbound
//! stream and picks up what the unit writes to one outbound target. The
//! [`ServiceWorker`] context owns an in-memory image of both channels and at
//! most one [`Handler`]; the program around it moves the bytes between that
//! image and the real stream and file. [`WASIAgent`] is a handler that
//! multiplexes many logical connections over the one channel, using the
//! tagged wire format of [`InboundEnvelope`] and [`OutboundEnvelope`].
//!
//! Beside the relay stands what the deployment tool decides: the steps of
//! its commands ([`Cli`]) and the edit that puts the worker into a package
//! manifest ([`install_manifest`]).
pub mod agent;
pub mod bytes;
pub mod cli;
pub mod endian;
pub mod envelope;
pub mod error;
pub mod manifest;
pub mod options;
pub mod registry;
pub mod service;
pub mod stream;
pub mod transport;
pub mod worker;

pub use agent::{LifecycleEvent, ThreadedWASI, WASIAgent, WASIResponder, EXIT_CODE};
pub use cli::{Cli, Step};
pub use envelope::{ConnectionId, InboundEnvelope, OutboundEnvelope};
pub use error::ServiceError;
pub use manifest::{edit_manifest, install_manifest, parse_manifest, render_manifest, ManifestError};
pub use options::{FileOptions, ServiceOptions};
pub use registry::{ConnectionState, Registry};
pub use service::{Handler, ServiceWorker, Teardown, MAX_FRAME};
pub use transport::Transport;
pub use worker::Worker;
