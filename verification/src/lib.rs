//! Verified core of a Jellyfin media-server toolkit: junk-file detection,
//! media-probe classification, remote command construction, deployment
//! planning and the data model shared by the command-line tool and the web UI.

pub mod text;
pub mod shell;
pub mod config;
pub mod executor;
pub mod junk;
pub mod media;
pub mod chat;
pub mod api;
pub mod review;
pub mod deploy;
pub mod order;
