//! A verified logging transport for a host reached through a small bank of
//! memory-mapped registers: a 256-byte shared buffer, a severity-valued send
//! register that drains it, and an enable register used to detect a
//! compatible host.
//!
//! The register bank is modelled by [`host::Host`], so the transport protocol
//! — flush timing, the reserved-byte substitution, the enable handshake — is
//! stated and proved over it.

pub mod host;
pub mod init;
pub mod laws;
pub mod level;
pub mod logger;
pub mod writer;

pub use host::Flush;
pub use host::Host;
pub use init::Error;
pub use init::Facade;
pub use init::init;
pub use level::FacadeLevel;
pub use level::Level;
pub use logger::Logger;
pub use logger::fatal;
pub use writer::Writer;
