//! Helpers shared by the handlers.

pub mod err_handling;
pub mod init_utils;
pub mod text;
