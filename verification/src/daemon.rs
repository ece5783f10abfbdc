//! The daemon on the remote host: how it is provisioned, how its stream is
//! consumed, and how a dead stream is recovered.

pub mod provision;
pub mod recovery;
pub mod stream;
