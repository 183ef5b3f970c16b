//! A client for [ECAppLog](https://github.com/RangelReale/ecapplog), a GUI for viewing debug logs.
//!
//! # What is here
//!
//! Everything the client decides, verified, and nothing that touches a socket, a thread or a lock:
//!
//! * [`record`] and [`priority`] -- an entry, and how important it is.
//! * [`timestamp`] -- rendering a time the one way the server accepts; [`instants`] is what that
//!   rendering promises as a whole.
//! * [`proto`] -- frames, the banner and the JSON payload; [`wire`] is what a reader gets back.
//! * [`queue`] -- the bounded, drop-oldest hand-off between logging threads and the worker.
//! * [`client`] -- the configuration and the state that handles share.
//! * [`worker`] -- the background worker as a state machine, from the outcome of one action to the
//!   next action; [`delivery`] is what becomes of the entries over a whole run, and [`closing`] how
//!   long closing takes.
//! * [`adapter_log`], [`adapter_tracing`] and [`facade`] -- entries out of the records of the `log`
//!   facade and the events of `tracing`.
//!
//! [`json`], [`clock`] and [`error`] state what is relied on of `serde_json` and of the standard
//! library; [`text`] holds what the rest renders text with.
//!
//! # Behaviour worth knowing
//!
//! Logging never touches the network. Entries go into a bounded queue -- 1000 by default -- that the
//! worker drains. While the GUI is not running they accumulate there and are delivered as soon as
//! it appears, so an application can be started first and attached to later. Once the queue is full
//! the **oldest** entry is discarded to make room; every discard is handed back to be reported, and
//! [`Client::dropped_count`] counts them.
//!
//! Delivery is best-effort by design. The protocol is one-directional -- the server never writes a
//! byte back -- so nothing can be acknowledged, and a rejected entry is invisible to the client.
//!
//! # The protocol
//!
//! Frames are `u8` command, `u32` big-endian length, then the payload. Command `99` is the banner
//! that names the connection; command `0` carries a JSON log entry. The default endpoint is
//! `127.0.0.1:13991`, and the GUI listens on loopback only unless configured otherwise.
//!
//! Two details bite anyone who speaks it:
//!
//! * Timestamps are **not** RFC 3339. The server parses the literal format
//!   `yyyy-MM-ddThh:mm:ss.zzz` in UTC, rejecting any zone suffix and any fractional precision other
//!   than exactly three digits -- and on rejection it silently substitutes its own arrival time
//!   rather than reporting anything.
//! * A frame over 16 MiB makes the server close the connection. Oversized entries are dropped
//!   here instead.

pub mod adapter_log;
pub mod adapter_tracing;
pub mod client;
pub mod clock;
pub mod closing;
pub mod delivery;
pub mod error;
pub mod facade;
pub mod instants;
pub mod json;
pub mod priority;
pub mod proto;
pub mod queue;
pub mod record;
pub mod text;
pub mod timestamp;
pub mod wire;
pub mod worker;

pub use adapter_log::{LogLogger, LogLoggerBuilder};
pub use adapter_tracing::{TracingLayer, TracingLayerBuilder};
pub use client::{Client, ClientBuilder, DEFAULT_ADDRESS, DEFAULT_APP_NAME, DEFAULT_BUFFER_SIZE};
pub use error::Error;
pub use priority::Priority;
pub use record::Record;
