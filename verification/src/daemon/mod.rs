//! The daemon: the one process that owns the store.

pub mod add_run;
pub mod boot;
pub mod bootstrap;
pub mod client;
pub mod delete_run;
pub mod dispatch;
pub mod edit;
pub mod endpoint;
pub mod globalize;
pub mod idle;
pub mod index_page;
pub mod index_run;
pub mod ipc;
pub mod locks;
pub mod model_cache;
pub mod read;
pub mod rebuild_run;
pub mod server;
pub mod single_file;
pub mod stats;
pub mod watch;
pub mod wiki;
