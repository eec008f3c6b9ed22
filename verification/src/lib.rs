//! Device-stream ingestion and framing for a guestbook kiosk: raw byte
//! chunks polled from a magnetic-stripe reader and a barcode scanner become
//! discrete, validated, typed events despite missing message boundaries,
//! interleaved swipes and intermittent device errors. The framing state
//! machines, the track decoder, the device selection and the configuration
//! rules are all verified; reading the hardware and the disk is the
//! embedding program's affair.

pub mod barcode;
pub mod config;
pub mod db;
pub mod device_id;
pub mod entries;
pub mod events;
pub mod hid;
pub mod magtek;
pub mod track;
