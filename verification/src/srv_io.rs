//! The server's request handlers, reduced to their decisions.

pub mod db_io;
pub mod event;
pub mod frame;
pub mod lb_app_io;
pub mod row;
pub mod row_text;
pub mod session;
pub mod vite_get;
pub mod vite_io;
