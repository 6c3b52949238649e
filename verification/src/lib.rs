//! WebRTC data channels: the logic of the peers, of their signaling, and of the suite
//! that tests them.
//!
//! Nothing here does any I/O. What a peer, a script or a server does next is computed from
//! what has happened so far, and the caller performs it and reports back.
//!
//! - Peers: [`runtime`] is the event loop of a peer connection over a core without I/O,
//!   [`state_watch`] wakes those who wait for it, [`driver`] and [`drive`] the loop of a
//!   native peer, [`host`] the bookkeeping of hosted peers, [`socket_addr`] and [`shim`] the
//!   sockets.
//! - Signaling: [`rooms`] is the mailbox store, [`mailbox_http`] and [`mailbox_client`] the
//!   two ends of its protocol, [`signal`] the blobs, [`cli_signaling`] signaling by copy and
//!   paste, [`signaling`] the server process.
//! - The suite: [`guest`] runs a test as a [`script`], built of [`negotiation`], [`inproc`],
//!   [`handshake`], [`exchange`], [`sequence`], [`probes`] and [`stream_probes`]; [`payload`]
//!   holds what is sent.
//! - Running the suite: [`corpus`], [`suite`], [`orchestrate`] and [`retry`] run tests,
//!   [`peer_command`], [`peer_paths`], [`lab`], [`provision`], [`ice_lab`], [`shadow`] and
//!   [`interop`] set up where they run, [`outcome`] reads what they print, and [`registry`],
//!   [`manifest`], [`results`] and [`plan`] make the conformance matrix.
//! - Demos: [`demo`] and [`signaling_demo`].

pub mod cli_signaling;
pub mod corpus;
pub mod demo;
pub mod drive;
pub mod driver;
pub mod error;
pub mod exchange;
pub mod guest;
pub mod handshake;
pub mod host;
pub mod ice_lab;
pub mod inproc;
pub mod interop;
pub mod json;
pub mod lab;
pub mod mailbox_client;
pub mod mailbox_http;
pub mod manifest;
pub mod negotiation;
pub mod orchestrate;
pub mod outcome;
pub mod payload;
pub mod peer_command;
pub mod peer_event;
pub mod peer_paths;
pub mod plan;
pub mod probes;
pub mod provision;
pub mod registry;
pub mod results;
pub mod retry;
pub mod rooms;
pub mod runtime;
pub mod script;
pub mod sequence;
pub mod shadow;
pub mod shim;
pub mod signal;
pub mod signaling;
pub mod signaling_demo;
pub mod socket_addr;
pub mod state_watch;
pub mod stream_probes;
pub mod suite;
pub mod text;
pub mod text_map;
