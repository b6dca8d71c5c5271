use vstd::prelude::*;

verus! {

/// Largest number of clients registered at one time.
pub const MAX_CLIENTS: usize = 4;

/// Largest size of a broadcast chat message in bytes, newline included.
pub const MSG_SIZE: usize = 128;

/// Largest size of a username in bytes.
pub const NAME_SIZE: usize = 16;

/// Address the server listens on.
pub const LISTEN_ADDR: &'static str = "127.0.0.1:7878";

} // verus!
