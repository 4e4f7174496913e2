//! Speech synthesis with VOICEPEAK, by a process that is kept between requests.
//!
//! Starting the executable for every sentence is slow, so one known build of it is turned into a
//! resident process that answers request after request. Any other build is run once for each
//! request. This crate decides; reading files and running processes is left to its users.
pub mod bytes;
pub mod laws;
pub mod probe;
pub mod session;
pub mod text;
pub mod wav;
pub mod wire;
