//! Index Integer Date (IID): integer messages of the form `i32, i32, u64`,
//! sent as little-endian datagrams of 4, 8, 12 or 16 bytes, together with a
//! text shortcut syntax for writing them.
pub mod clock;
pub mod codec;
pub mod error;
pub mod ipv4;
pub mod listener;
pub mod random;
pub mod sender;
pub mod shortcut;
pub mod text;
pub mod utility;

pub use clock::NtpOffsetFetcher;
pub use error::IidError;
pub use listener::{ListenUdpIID, Received};
pub use sender::SendUdpIID;
pub use shortcut::Shortcut;
pub use utility::IIDUtility;
