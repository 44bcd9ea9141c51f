//! The logic of a Matter controller, apart from the SDK that talks to devices and
//! the program around it.
//!
//! Elements and JSON are values here ([`tlv`], [`json`]); [`tlv_json`] and
//! [`tlv_write`] convert between them by the cluster tables of [`idl`]. [`reports`]
//! takes in what devices report, [`snapshot`] arranges it by path, [`supervisor`]
//! keeps one subscription per node, [`runtime`] dispatches requests, and [`ops`]
//! holds the decisions of each operation. [`identity`] and [`migration`] decide what
//! becomes of the fabric, [`mdns`] which interface to use, and [`wire`] how messages
//! look to clients.
//!
//! What the library promises as a whole is stated and proved next to what it is
//! about, and in [`table_laws`], [`write_laws`], [`read_laws`], [`tlv_laws`],
//! [`report_laws`] and [`model_laws`].
//!
//! The functions take what the outside world answered as an argument, and say what
//! follows from it.

pub mod base_types;
pub mod cli;
pub mod codec;
pub mod ctx;
pub mod error;
pub mod identity;
pub mod idl;
pub mod json;
pub mod known_names;
pub mod mdns;
pub mod migration;
pub mod model_laws;
pub mod ops;
pub mod read_laws;
pub mod report_laws;
pub mod reports;
pub mod runtime;
pub mod snapshot;
pub mod stack_api;
pub mod supervisor;
pub mod table_laws;
pub mod text;
pub mod tlv;
pub mod tlv_json;
pub mod tlv_laws;
pub mod tlv_write;
pub mod wire;
pub mod write_laws;
