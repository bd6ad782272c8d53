//! SyncHalo: local-first clipboard and file synchronization between trusted
//! devices on one network. This crate holds the verified core: hybrid logical
//! clocks, pairing codes, wire framing and authentication messages, the
//! encrypted history store's key ring and record formats, file-transfer
//! planning and the synchronization decisions of the desktop runtime.

pub mod hlc;
pub mod text;
pub mod error;
pub mod ids;
pub mod model;
pub mod pairing;
pub mod primitives;
pub mod transport;
pub mod aad;
pub mod keyring;
pub mod records;
pub mod transfer;
pub mod sync;
pub mod history;
pub mod key_file;
pub mod i18n;
pub mod platform;
pub mod net;
pub mod frames;
pub mod transfer_state;
pub mod pake;
