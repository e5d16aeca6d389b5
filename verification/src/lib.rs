//! Verified engine for editing a fixed-layout binary save file.
//!
//! Named fields are located by searching the buffer for the UTF-16LE
//! encoding of their key string; small integers are then read or written
//! at offsets derived from the match position, and a trailing CRC-32
//! checksum is refreshed before the buffer is persisted.

pub mod checksum;
pub mod encode;
pub mod items;
pub mod le;
pub mod save;
pub mod search;
