//! Verified core of a Discord moderation bot: messages that collect enough
//! cross reactions send their author to a "jail" role, and the flagged
//! messages are kept per author in small record files.

pub mod decimal;
pub mod text;
pub mod record;
pub mod store;
pub mod folder;
pub mod lines;
pub mod reactions;
pub mod moderation;
pub mod replies;
pub mod handler;
