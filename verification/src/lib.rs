//! The managed side of a terminal multiplexer.
//!
//! A broker owns the windows of a managed multiplexer: it starts the server,
//! asks the GUI for what it wants done, and recovers what was left behind. This
//! library holds the rules by which both sides keep to that.
//!
//! * The multiplexer itself: [`mux_model`] and [`mux`] hold its windows, tabs and
//!   panes, [`population`], [`prune`], [`spawn`], [`placement`], [`domains`],
//!   [`mux_ops`] and [`output`] what happens to them, [`workspace`] the
//!   conditional rename and [`recovery`] the exact removal of a node.
//! * The service: [`service`], [`service_socket`] and [`service_bind`] lease the
//!   runtime directory, bind the socket and hand it over; [`descriptor`] and
//!   [`descriptor_io`] publish and verify who serves it; [`recovery_files`] keeps
//!   the files of a recovery. [`private_dir`] and [`private_files`] are the file
//!   operations that these share.
//! * The bridge to the GUI: [`bridge`], [`bridge_dir`], [`bridge_lease`],
//!   [`bridge_requests`] and [`bridge_documents`] hold the spool of an instance,
//!   [`lifecycle`], [`canonical`] and [`digest`] the proof that a request was
//!   completed, [`launcher`] who launched the GUI.
//! * The policies: [`managed`], [`presentation`], [`server`], [`script_api`],
//!   [`table_schema`] and [`rename_cli`].
//! * What holds of these across calls: [`file_model`] says what true answers of a
//!   file system are, and [`service_file_laws`], [`descriptor_file_laws`],
//!   [`recovery_file_laws`], [`bridge_file_laws`] and [`spool_laws`] what the
//!   operations come to there; [`private_file_laws`], [`durability_laws`],
//!   [`socket_laws`], [`verification_laws`], [`bridge_laws`], [`manifest_laws`] and
//!   [`recovery_laws`] need no such model. [`mux_laws`], [`mux_change_laws`] and
//!   [`prune_laws`] say what becomes of windows, tabs and panes, [`lifecycle_laws`]
//!   which completions are accepted, and [`table_laws`] and [`text_laws`] what is
//!   read from tables and texts.
//!
//! Nothing here touches the system. What has to be done there is decided in
//! [`dialogue`]s: functions of everything that was answered so far.

pub mod bridge;
pub mod bridge_dir;
pub mod bridge_documents;
pub mod bridge_file_laws;
pub mod bridge_laws;
pub mod bridge_lease;
pub mod bridge_requests;
pub mod canonical;
pub mod descriptor;
pub mod descriptor_file_laws;
pub mod descriptor_io;
pub mod dialogue;
pub mod digest;
pub mod domains;
pub mod durability_laws;
pub mod failure;
pub mod file_model;
pub mod identifier;
pub mod json;
pub mod launcher;
pub mod lifecycle;
pub mod lifecycle_laws;
pub mod managed;
pub mod manifest_laws;
pub mod mux;
pub mod mux_change_laws;
pub mod mux_laws;
pub mod mux_model;
pub mod mux_ops;
pub mod order;
pub mod output;
pub mod path_text;
pub mod placement;
pub mod population;
pub mod presentation;
pub mod private_dir;
pub mod private_file_laws;
pub mod private_files;
pub mod process_identity;
pub mod prune;
pub mod prune_laws;
pub mod recovery;
pub mod recovery_file_laws;
pub mod recovery_files;
pub mod recovery_laws;
pub mod rename_cli;
pub mod script_api;
pub mod server;
pub mod service;
pub mod service_bind;
pub mod service_file_laws;
pub mod service_socket;
pub mod socket_laws;
pub mod spawn;
pub mod spool_laws;
pub mod table_laws;
pub mod table_schema;
pub mod text;
pub mod text_laws;
pub mod text_set;
pub mod verification_laws;
pub mod workspace;
