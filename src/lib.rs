//! Decisions of a daemon that runs commands when a file synchronisation
//! service reports folder or file events: normalisation of the raw event
//! stream, hook matching, and bookkeeping of running hook processes.
pub mod config;
pub mod dispatch;
pub mod hook;
pub mod strmap;
pub mod syncthing;
pub mod text;
