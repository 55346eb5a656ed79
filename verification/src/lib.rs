//! Core of an over-the-air (OTA) update negotiation service.
//!
//! Clients announce which device variants they are (an ordered candidate
//! list, most preferred first); the service answers with binary-encoded
//! metadata for the current installable build of the first supported
//! candidate, read from an in-memory registry that maps each device
//! identifier to its most recently published build.
//!
//! The wire codec lives in `codec`, the build registry in `registry`, and
//! the negotiation handler in `negotiate` (its publish path in `publish`);
//! `messages` holds the shared data model and `supported` the fixed set of
//! devices a server instance serves.

pub mod codec;
pub mod messages;
pub mod negotiate;
pub mod publish;
pub mod registry;
pub mod supported;
