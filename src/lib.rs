//! Per-account mailbox synchronisation core of an email archiver: folder
//! discovery and change detection, the mailbox cache, the executor registry,
//! transport settings and the mbox splitter used by importers.

pub mod error;
pub mod text;
pub mod mbox;
pub mod labels;
pub mod import;
pub mod names;
pub mod mailbox;
pub mod folders;
pub mod cache;
pub mod registry;
pub mod pool;
pub mod account;
pub mod capabilities;
pub mod transport;
pub mod status;
pub mod settings;
