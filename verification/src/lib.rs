//! A fixed-frame file transfer protocol: the packet codec, the two halves of
//! the chunked transfer engine, the directory lister, and the decisions of the
//! server session and of the client's command driver.

pub mod encoding;
pub mod net;
pub mod stats;
pub mod text;
