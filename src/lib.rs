//! Passive TCP SYN fingerprinting (JA4T style): the frame filter, the walk
//! over a SYN's TCP options and the rendering of the fingerprint string.

pub mod fingerprint;
pub mod frame;
pub mod options;
pub mod text;
